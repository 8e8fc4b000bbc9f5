//! Output file naming: a filename is the input path's stem plus the
//! extension of the chosen format, with a fixed fallback stem when none
//! can be derived.

use vstd::prelude::*;
use vstd::string::{StringExecFns, StrSliceExecFns};
use crate::cli::OutputFormat;

verus! {

/// The file extension of each output format.
pub open spec fn ext_chars(format: OutputFormat) -> Seq<char> {
    match format {
        OutputFormat::Txt => "txt"@,
        OutputFormat::Html => "html"@,
        OutputFormat::Ansi => "ansi"@,
    }
}

/// The last index of `c` in `s`, or -1 when `c` does not occur.
pub open spec fn rfind(s: Seq<char>, c: char) -> int
    decreases s.len(),
{
    if s.len() == 0 {
        -1
    } else if s.last() == c {
        s.len() - 1
    } else {
        rfind(s.drop_last(), c)
    }
}

/// The sequence with its trailing path separators removed.
pub open spec fn trim_trailing_slashes(s: Seq<char>) -> Seq<char>
    decreases s.len(),
{
    if s.len() > 0 && s.last() == '/' {
        trim_trailing_slashes(s.drop_last())
    } else {
        s
    }
}

/// The file name of a path: what follows the last separator, trailing
/// separators ignored. The separator is '/'.
pub open spec fn file_name_of(path: Seq<char>) -> Seq<char> {
    let t = trim_trailing_slashes(path);
    t.subrange(rfind(t, '/') + 1, t.len() as int)
}

/// The stem of a file name: what precedes the last dot, except that a
/// leading dot does not begin an extension.
pub open spec fn stem_of_name(name: Seq<char>) -> Seq<char> {
    let d = rfind(name, '.');
    if d <= 0 {
        name
    } else {
        name.subrange(0, d)
    }
}

/// The stem a path yields for the output filename: the fallback "output"
/// when the path has no usable file name (empty, or only the relative
/// components '.' and '..'), else the file name's stem.
pub open spec fn stem_or_default(path: Seq<char>) -> Seq<char> {
    let name = file_name_of(path);
    if name.len() == 0 || name == seq!['.'] || name == seq!['.', '.'] {
        "output"@
    } else {
        stem_of_name(name)
    }
}

/// The extension of each output format.
fn ext_str(format: &OutputFormat) -> (e: &'static str)
    ensures
        e@ == ext_chars(*format),
{
    match format {
        OutputFormat::Txt => "txt",
        OutputFormat::Html => "html",
        OutputFormat::Ansi => "ansi",
    }
}

/// Joins a stem and a format's extension with a dot.
fn with_ext(stem: &str, format: &OutputFormat) -> (name: String)
    ensures
        name@ == stem@ + "."@ + ext_chars(*format),
{
    let mut out = String::from_str(stem);
    out.append(".");
    out.append(ext_str(format));
    out
}

/// The output filename for an input path and a format: the path's stem
/// (or "output" when none can be derived) joined with the format's
/// extension.
#[verifier::loop_isolation(false)]
pub fn output_filename(image_path: &str, format: &OutputFormat) -> (name: String)
    ensures
        name@ == stem_or_default(image_path@) + "."@ + ext_chars(*format),
{
    let n: usize = image_path.unicode_len();
    let mut end: usize = n;
    proof {
        assert(image_path@.take(n as int) =~= image_path@);
    }
    while end > 0 && image_path.get_char(end - 1) == '/'
        invariant
            end <= n,
            trim_trailing_slashes(image_path@) == trim_trailing_slashes(
                image_path@.take(end as int),
            ),
        decreases end,
    {
        proof {
            let s = image_path@.take(end as int);
            assert(s.last() == image_path@[end - 1]);
            assert(s.drop_last() =~= image_path@.take(end as int - 1));
        }
        end = end - 1;
    }
    let ghost t = image_path@.take(end as int);
    proof {
        if end > 0 {
            assert(t.last() == image_path@[end - 1]);
        }
        assert(trim_trailing_slashes(t) == t);
    }
    let mut name_start: usize = 0;
    let mut j: usize = 0;
    proof {
        assert(t.take(0) =~= Seq::<char>::empty());
    }
    while j < end
        invariant
            j <= end,
            name_start <= j,
            name_start - 1 == rfind(t.take(j as int), '/'),
        decreases end - j,
    {
        proof {
            let s = t.take(j as int + 1);
            assert(s.last() == image_path@[j as int]);
            assert(s.drop_last() =~= t.take(j as int));
        }
        if image_path.get_char(j) == '/' {
            name_start = j + 1;
        }
        j = j + 1;
    }
    proof {
        assert(t.take(end as int) =~= t);
        assert(rfind(t, '/') == name_start - 1);
    }
    let ghost name = file_name_of(image_path@);
    proof {
        assert(name =~= t.subrange(name_start as int, end as int));
    }
    let name_len: usize = end - name_start;
    if name_len == 0 {
        return with_ext("output", format);
    }
    if name_len == 1 && image_path.get_char(name_start) == '.' {
        proof {
            assert(name =~= seq!['.']);
        }
        return with_ext("output", format);
    }
    if name_len == 2 && image_path.get_char(name_start) == '.' && image_path.get_char(
        name_start + 1,
    ) == '.' {
        proof {
            assert(name =~= seq!['.', '.']);
        }
        return with_ext("output", format);
    }
    proof {
        assert(name.len() >= 1);
        if name.len() == 1 {
            assert(name[0] == image_path@[name_start as int]);
            assert(name != seq!['.']);
        }
        if name.len() == 2 {
            assert(name[0] == image_path@[name_start as int]);
            assert(name[1] == image_path@[name_start as int + 1]);
            assert(name != seq!['.', '.']);
        }
    }
    let mut dot_end: usize = 0;
    let mut k: usize = 0;
    proof {
        assert(name.take(0) =~= Seq::<char>::empty());
    }
    while k < name_len
        invariant
            k <= name_len,
            dot_end <= k,
            dot_end - 1 == rfind(name.take(k as int), '.'),
        decreases name_len - k,
    {
        proof {
            let s = name.take(k as int + 1);
            assert(s.last() == image_path@[name_start + k as int]);
            assert(s.drop_last() =~= name.take(k as int));
        }
        if image_path.get_char(name_start + k) == '.' {
            dot_end = k + 1;
        }
        k = k + 1;
    }
    proof {
        assert(name.take(name_len as int) =~= name);
        assert(rfind(name, '.') == dot_end - 1);
    }
    let stem: &str = if dot_end <= 1 {
        let s = image_path.substring_char(name_start, end);
        proof {
            assert(s@ =~= stem_of_name(name));
        }
        s
    } else {
        let s = image_path.substring_char(name_start, name_start + (dot_end - 1));
        proof {
            assert(s@ =~= name.subrange(0, dot_end - 1));
            assert(s@ =~= stem_of_name(name));
        }
        s
    };
    with_ext(stem, format)
}

} // verus!
