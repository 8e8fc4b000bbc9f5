//! The three renderers over a cell grid: plain text, ANSI-colored text,
//! and a standalone HTML document. Each is a pure function of the grid;
//! rows render in order, top to bottom, left to right.

use vstd::prelude::*;
use vstd::string::StringExecFns;
use crate::types::AsciiCell;

verus! {

/// The views of a grid's rows.
pub open spec fn grid_view(cells: Seq<Vec<AsciiCell>>) -> Seq<Seq<AsciiCell>> {
    cells.map_values(|row: Vec<AsciiCell>| row@)
}

/// The decimal digit characters.
pub open spec fn digit_char(d: int) -> char {
    if d == 0 {
        '0'
    } else if d == 1 {
        '1'
    } else if d == 2 {
        '2'
    } else if d == 3 {
        '3'
    } else if d == 4 {
        '4'
    } else if d == 5 {
        '5'
    } else if d == 6 {
        '6'
    } else if d == 7 {
        '7'
    } else if d == 8 {
        '8'
    } else {
        '9'
    }
}

/// The shortest decimal rendering of a byte value.
pub open spec fn dec_u8(n: int) -> Seq<char>
    recommends
        0 <= n <= 255,
{
    if n < 10 {
        seq![digit_char(n)]
    } else if n < 100 {
        seq![digit_char(n / 10), digit_char(n % 10)]
    } else {
        seq![digit_char(n / 100), digit_char((n / 10) % 10), digit_char(n % 10)]
    }
}

/// What one cell contributes to the plain rendering: its character alone,
/// color discarded.
pub open spec fn plain_cell(c: AsciiCell) -> Seq<char> {
    seq![c.ch]
}

/// One row of the plain rendering.
pub open spec fn plain_row(row: Seq<AsciiCell>) -> Seq<char>
    decreases row.len(),
{
    if row.len() == 0 {
        Seq::empty()
    } else {
        plain_row(row.drop_last()) + plain_cell(row.last())
    }
}

/// The plain rendering: each row's characters in order, each row
/// terminated by a newline.
pub open spec fn plain_text(grid: Seq<Seq<AsciiCell>>) -> Seq<char>
    decreases grid.len(),
{
    if grid.len() == 0 {
        Seq::empty()
    } else {
        plain_text(grid.drop_last()) + plain_row(grid.last()) + seq!['\n']
    }
}

/// What one cell contributes to the ANSI rendering: with color enabled,
/// the character wrapped in a true-color foreground escape and a reset;
/// without, the bare character.
pub open spec fn ansi_cell(c: AsciiCell, color: bool) -> Seq<char> {
    if color {
        "\u{1b}[38;2;"@ + dec_u8(c.r as int) + ";"@ + dec_u8(c.g as int) + ";"@ + dec_u8(c.b as int)
            + "m"@ + seq![c.ch] + "\u{1b}[0m"@
    } else {
        seq![c.ch]
    }
}

/// One row of the ANSI rendering.
pub open spec fn ansi_row(row: Seq<AsciiCell>, color: bool) -> Seq<char>
    decreases row.len(),
{
    if row.len() == 0 {
        Seq::empty()
    } else {
        ansi_row(row.drop_last(), color) + ansi_cell(row.last(), color)
    }
}

/// The ANSI rendering: each row's cells in order, each row terminated by a
/// newline.
pub open spec fn ansi_text(grid: Seq<Seq<AsciiCell>>, color: bool) -> Seq<char>
    decreases grid.len(),
{
    if grid.len() == 0 {
        Seq::empty()
    } else {
        ansi_text(grid.drop_last(), color) + ansi_row(grid.last(), color) + seq!['\n']
    }
}

/// The HTML entity replacement for a character: `<`, `>` and `&` become
/// `&lt;`, `&gt;` and `&amp;`; every other character stands as itself.
pub open spec fn html_escape_spec(c: char) -> Seq<char> {
    if c == '<' {
        "&lt;"@
    } else if c == '>' {
        "&gt;"@
    } else if c == '&' {
        "&amp;"@
    } else {
        seq![c]
    }
}

/// What one cell contributes to the HTML rendering: an inline-styled span
/// carrying the cell's RGB, around the escaped character.
pub open spec fn html_span(c: AsciiCell) -> Seq<char> {
    "<span style=\"color: rgb("@ + dec_u8(c.r as int) + ","@ + dec_u8(c.g as int) + ","@ + dec_u8(
        c.b as int,
    ) + ")\">"@ + html_escape_spec(c.ch) + "</span>"@
}

/// One row of the HTML rendering.
pub open spec fn html_row(row: Seq<AsciiCell>) -> Seq<char>
    decreases row.len(),
{
    if row.len() == 0 {
        Seq::empty()
    } else {
        html_row(row.drop_last()) + html_span(row.last())
    }
}

/// The rows of the HTML rendering, each terminated by a line break inside
/// the `pre` block.
pub open spec fn html_rows(grid: Seq<Seq<AsciiCell>>) -> Seq<char>
    decreases grid.len(),
{
    if grid.len() == 0 {
        Seq::empty()
    } else {
        html_rows(grid.drop_last()) + html_row(grid.last()) + seq!['\n']
    }
}

/// The document prologue up to and including the opening of the `pre`
/// block.
pub open spec fn html_header() -> Seq<char> {
    "<!DOCTYPE html>\n<html>\n<head>\n<meta charset=\"utf-8\">\n<style>\npre {\n  font-family: monospace;\n  line-height: 1;\n  font-size: 8px;\n}\n</style>\n</head>\n<body>\n<pre>\n"@
}

/// The document epilogue closing the `pre` block and the page.
pub open spec fn html_footer() -> Seq<char> {
    "</pre></body></html>"@
}

/// The complete HTML document for a grid.
pub open spec fn html_doc(grid: Seq<Seq<AsciiCell>>) -> Seq<char> {
    html_header() + html_rows(grid) + html_footer()
}

/// Relies on std's `String::push`: appends exactly the one character to
/// the end of the string.
#[verifier::external_body]
fn push_char(s: &mut String, c: char)
    ensures
        final(s)@ == old(s)@ + seq![c],
{
    s.push(c);
}

/// The decimal digit character for a value below ten.
fn digit(d: u8) -> (c: char)
    requires
        d < 10,
    ensures
        c == digit_char(d as int),
{
    match d {
        0 => '0',
        1 => '1',
        2 => '2',
        3 => '3',
        4 => '4',
        5 => '5',
        6 => '6',
        7 => '7',
        8 => '8',
        _ => '9',
    }
}

/// Appends the decimal rendering of a byte value.
fn push_dec_u8(out: &mut String, n: u8)
    ensures
        final(out)@ == old(out)@ + dec_u8(n as int),
{
    if n < 10 {
        push_char(out, digit(n));
    } else if n < 100 {
        push_char(out, digit(n / 10));
        push_char(out, digit(n % 10));
        proof {
            assert(out@ =~= old(out)@ + dec_u8(n as int));
        }
    } else {
        push_char(out, digit(n / 100));
        push_char(out, digit(n / 10 % 10));
        push_char(out, digit(n % 10));
        proof {
            assert(out@ =~= old(out)@ + dec_u8(n as int));
        }
    }
}

/// Appends one cell's ANSI rendering.
fn push_ansi_cell(out: &mut String, c: AsciiCell, color: bool)
    ensures
        final(out)@ == old(out)@ + ansi_cell(c, color),
{
    if color {
        out.append("\u{1b}[38;2;");
        push_dec_u8(out, c.r);
        out.append(";");
        push_dec_u8(out, c.g);
        out.append(";");
        push_dec_u8(out, c.b);
        out.append("m");
        push_char(out, c.ch);
        out.append("\u{1b}[0m");
        proof {
            assert(out@ =~= old(out)@ + ansi_cell(c, true));
        }
    } else {
        push_char(out, c.ch);
    }
}

/// Renders a grid as plain text: characters only, one line per row.
#[verifier::loop_isolation(false)]
pub fn render_plain(cells: &Vec<Vec<AsciiCell>>) -> (out: String)
    ensures
        out@ == plain_text(grid_view(cells@)),
{
    let g = Ghost(grid_view(cells@));
    let mut out = String::new();
    let mut y: usize = 0;
    proof {
        assert(g@.take(0) =~= Seq::<Seq<AsciiCell>>::empty());
    }
    while y < cells.len()
        invariant
            y <= cells@.len(),
            out@ == plain_text(g@.take(y as int)),
        decreases cells@.len() - y,
    {
        let row = &cells[y];
        let mut x: usize = 0;
        proof {
            assert(row@.take(0) =~= Seq::<AsciiCell>::empty());
            assert(out@ =~= plain_text(g@.take(y as int)) + plain_row(row@.take(0)));
        }
        while x < row.len()
            invariant
                x <= row@.len(),
                y < cells@.len(),
                out@ == plain_text(g@.take(y as int)) + plain_row(row@.take(x as int)),
            decreases row@.len() - x,
        {
            push_char(&mut out, row[x].ch);
            proof {
                let prefix = row@.take(x as int + 1);
                assert(prefix.drop_last() =~= row@.take(x as int));
                assert(out@ =~= plain_text(g@.take(y as int)) + plain_row(prefix));
            }
            x = x + 1;
        }
        push_char(&mut out, '\n');
        proof {
            assert(row@.take(row@.len() as int) =~= row@);
            let gp = g@.take(y as int + 1);
            assert(gp.drop_last() =~= g@.take(y as int));
            assert(gp.last() =~= row@);
            assert(out@ =~= plain_text(gp));
        }
        y = y + 1;
    }
    proof {
        assert(g@.take(cells@.len() as int) =~= g@);
    }
    out
}

/// Renders a grid for the terminal: with `color` enabled every character
/// carries a true-color escape; without, the output is the plain text.
#[verifier::loop_isolation(false)]
pub fn render_ansi(cells: &Vec<Vec<AsciiCell>>, color: bool) -> (out: String)
    ensures
        out@ == ansi_text(grid_view(cells@), color),
{
    let g = Ghost(grid_view(cells@));
    let mut out = String::new();
    let mut y: usize = 0;
    proof {
        assert(g@.take(0) =~= Seq::<Seq<AsciiCell>>::empty());
    }
    while y < cells.len()
        invariant
            y <= cells@.len(),
            out@ == ansi_text(g@.take(y as int), color),
        decreases cells@.len() - y,
    {
        let row = &cells[y];
        let mut x: usize = 0;
        proof {
            assert(row@.take(0) =~= Seq::<AsciiCell>::empty());
            assert(out@ =~= ansi_text(g@.take(y as int), color) + ansi_row(row@.take(0), color));
        }
        while x < row.len()
            invariant
                x <= row@.len(),
                y < cells@.len(),
                out@ == ansi_text(g@.take(y as int), color) + ansi_row(row@.take(x as int), color),
            decreases row@.len() - x,
        {
            push_ansi_cell(&mut out, row[x], color);
            proof {
                let prefix = row@.take(x as int + 1);
                assert(prefix.drop_last() =~= row@.take(x as int));
                assert(out@ =~= ansi_text(g@.take(y as int), color) + ansi_row(prefix, color));
            }
            x = x + 1;
        }
        push_char(&mut out, '\n');
        proof {
            assert(row@.take(row@.len() as int) =~= row@);
            let gp = g@.take(y as int + 1);
            assert(gp.drop_last() =~= g@.take(y as int));
            assert(gp.last() =~= row@);
            assert(out@ =~= ansi_text(gp, color));
        }
        y = y + 1;
    }
    proof {
        assert(g@.take(cells@.len() as int) =~= g@);
    }
    out
}

/// The HTML entity replacement for a character; see `html_escape_spec`.
pub fn html_escape(c: char) -> (out: String)
    ensures
        out@ == html_escape_spec(c),
{
    if c == '<' {
        String::from_str("&lt;")
    } else if c == '>' {
        String::from_str("&gt;")
    } else if c == '&' {
        String::from_str("&amp;")
    } else {
        let mut s = String::new();
        push_char(&mut s, c);
        proof {
            assert(s@ =~= seq![c]);
        }
        s
    }
}

/// Appends one cell's HTML span.
fn push_html_span(out: &mut String, c: AsciiCell)
    ensures
        final(out)@ == old(out)@ + html_span(c),
{
    out.append("<span style=\"color: rgb(");
    push_dec_u8(out, c.r);
    out.append(",");
    push_dec_u8(out, c.g);
    out.append(",");
    push_dec_u8(out, c.b);
    out.append(")\">");
    let esc = html_escape(c.ch);
    out.append(esc.as_str());
    out.append("</span>");
    proof {
        assert(out@ =~= old(out)@ + html_span(c));
    }
}

/// Renders a grid as a standalone HTML document: a monospace `pre` block
/// where every cell is an inline-styled span and each row ends in a line
/// break.
#[verifier::loop_isolation(false)]
pub fn render_html(cells: &Vec<Vec<AsciiCell>>) -> (out: String)
    ensures
        out@ == html_doc(grid_view(cells@)),
{
    let g = Ghost(grid_view(cells@));
    let mut out = String::new();
    out.append(
        "<!DOCTYPE html>\n<html>\n<head>\n<meta charset=\"utf-8\">\n<style>\npre {\n  font-family: monospace;\n  line-height: 1;\n  font-size: 8px;\n}\n</style>\n</head>\n<body>\n<pre>\n",
    );
    let mut y: usize = 0;
    proof {
        assert(g@.take(0) =~= Seq::<Seq<AsciiCell>>::empty());
        assert(out@ =~= html_header() + html_rows(g@.take(0)));
    }
    while y < cells.len()
        invariant
            y <= cells@.len(),
            out@ == html_header() + html_rows(g@.take(y as int)),
        decreases cells@.len() - y,
    {
        let row = &cells[y];
        let mut x: usize = 0;
        proof {
            assert(row@.take(0) =~= Seq::<AsciiCell>::empty());
            assert(out@ =~= html_header() + html_rows(g@.take(y as int)) + html_row(row@.take(0)));
        }
        while x < row.len()
            invariant
                x <= row@.len(),
                y < cells@.len(),
                out@ == html_header() + html_rows(g@.take(y as int)) + html_row(
                    row@.take(x as int),
                ),
            decreases row@.len() - x,
        {
            push_html_span(&mut out, row[x]);
            proof {
                let prefix = row@.take(x as int + 1);
                assert(prefix.drop_last() =~= row@.take(x as int));
                assert(out@ =~= html_header() + html_rows(g@.take(y as int)) + html_row(prefix));
            }
            x = x + 1;
        }
        push_char(&mut out, '\n');
        proof {
            assert(row@.take(row@.len() as int) =~= row@);
            let gp = g@.take(y as int + 1);
            assert(gp.drop_last() =~= g@.take(y as int));
            assert(gp.last() =~= row@);
            assert(out@ =~= html_header() + html_rows(gp));
        }
        y = y + 1;
    }
    out.append("</pre></body></html>");
    proof {
        assert(g@.take(cells@.len() as int) =~= g@);
        assert(out@ =~= html_doc(g@));
    }
    out
}

/// A printable ASCII character.
pub open spec fn printable(c: char) -> bool {
    0x20 <= c as u32 <= 0x7e
}

/// Every character of the text is printable or the row-terminating
/// newline; no other control characters occur.
pub open spec fn text_is_clean(s: Seq<char>) -> bool {
    forall|i: int| 0 <= i < s.len() ==> printable(#[trigger] s[i]) || s[i] == '\n'
}

/// Clean text stays clean under concatenation.
pub proof fn lemma_clean_concat(a: Seq<char>, b: Seq<char>)
    requires
        text_is_clean(a),
        text_is_clean(b),
    ensures
        text_is_clean(a + b),
{
    assert forall|i: int| 0 <= i < (a + b).len() implies printable(#[trigger] (a + b)[i]) || (a
        + b)[i] == '\n' by {
        if i < a.len() {
            assert((a + b)[i] == a[i]);
        } else {
            assert((a + b)[i] == b[i - a.len()]);
        }
    }
}

/// A row of printable cells renders to clean plain text.
pub proof fn lemma_plain_row_clean(row: Seq<AsciiCell>)
    requires
        forall|i: int| 0 <= i < row.len() ==> printable((#[trigger] row[i]).ch),
    ensures
        text_is_clean(plain_row(row)),
    decreases row.len(),
{
    if row.len() > 0 {
        lemma_plain_row_clean(row.drop_last());
        assert(plain_cell(row.last())[0] == row[row.len() - 1].ch);
        lemma_clean_concat(plain_row(row.drop_last()), plain_cell(row.last()));
    }
}

/// A grid of printable cells renders to clean plain text: its only control
/// characters are the row-terminating newlines.
pub proof fn lemma_plain_text_clean(grid: Seq<Seq<AsciiCell>>)
    requires
        forall|y: int, x: int|
            0 <= y < grid.len() && 0 <= x < grid[y].len() ==> printable(
                (#[trigger] grid[y][x]).ch,
            ),
    ensures
        text_is_clean(plain_text(grid)),
    decreases grid.len(),
{
    if grid.len() > 0 {
        assert forall|y: int, x: int|
            0 <= y < grid.drop_last().len() && 0 <= x < grid.drop_last()[y].len() implies printable(
            (#[trigger] grid.drop_last()[y][x]).ch,
        ) by {
            assert(grid.drop_last()[y] == grid[y]);
        }
        lemma_plain_text_clean(grid.drop_last());
        lemma_plain_row_clean(grid.last());
        lemma_clean_concat(plain_text(grid.drop_last()), plain_row(grid.last()));
        assert(seq!['\n'][0] == '\n');
        lemma_clean_concat(plain_text(grid.drop_last()) + plain_row(grid.last()), seq!['\n']);
    }
}

/// Without color, the ANSI rendering of any grid is the plain rendering,
/// byte for byte.
pub proof fn lemma_ansi_without_color_is_plain(grid: Seq<Seq<AsciiCell>>)
    ensures
        ansi_text(grid, false) == plain_text(grid),
    decreases grid.len(),
{
    if grid.len() > 0 {
        lemma_ansi_without_color_is_plain(grid.drop_last());
        lemma_ansi_row_without_color_is_plain(grid.last());
    }
}

/// Without color, one row's ANSI rendering is its plain rendering.
pub proof fn lemma_ansi_row_without_color_is_plain(row: Seq<AsciiCell>)
    ensures
        ansi_row(row, false) == plain_row(row),
    decreases row.len(),
{
    if row.len() > 0 {
        lemma_ansi_row_without_color_is_plain(row.drop_last());
    }
}

} // verus!
