//! What the user sees of an analysis: progress, the table of results and the time it took.

use crate::style::{in_colour, labelled, BLUE, BOLD, MAGENTA, RESET};
use crate::text::{
    all_digits, copies, decimal, digits_value, is_digit, lemma_decimal, lemma_decimal_len, number,
    padded, push_copies, push_padded, texts,
};
use crate::uci::{InfoLine, InfoView};
use vstd::prelude::*;

verus! {

/// The decimal notation of a number with at least two digits.
pub open spec fn two_digits(n: nat) -> Seq<char> {
    if n < 10 {
        seq!['0'] + decimal(n)
    } else {
        decimal(n)
    }
}

/// A time in seconds as minutes and seconds, with the hours before them where there are any.
pub open spec fn elapsed(secs: nat) -> Seq<char> {
    let h = secs / 3600;
    let m = (secs % 3600) / 60;
    let s = secs % 60;
    if h > 0 {
        decimal(h) + seq![':'] + two_digits(m) + seq![':'] + two_digits(s)
    } else {
        decimal(m) + seq![':'] + two_digits(s)
    }
}

fn push_two_digits(out: &mut String, n: u64)
    ensures
        final(out)@ == old(out)@ + two_digits(n as nat),
{
    if n < 10 {
        out.push('0');
    }
    out.append(number(n).as_str());
}

/// Writes a time in seconds as `H:MM:SS`, or as `M:SS` where it is less than an hour.
pub fn fmt_elapsed(secs: u64) -> (r: String)
    ensures
        r@ == elapsed(secs as nat),
{
    let h: u64 = secs / 3600;
    let m: u64 = (secs % 3600) / 60;
    let s: u64 = secs % 60;
    let mut out: String = String::new();
    if h > 0 {
        out.append(number(h).as_str());
        out.push(':');
        push_two_digits(&mut out, m);
    } else {
        out.append(number(m).as_str());
    }
    out.push(':');
    push_two_digits(&mut out, s);
    out
}

/// A number below a hundred takes two characters when it is written with two digits, and can be
/// read back.
proof fn lemma_two_digits(n: nat)
    requires
        n < 100,
    ensures
        two_digits(n).len() == 2,
        all_digits(two_digits(n)),
        digits_value(two_digits(n)) == n,
{
    lemma_decimal(n);
    if n < 10 {
        let t = two_digits(n);
        assert(decimal(n).len() == 1);
        assert(t.drop_last() =~= seq!['0']);
        assert(seq!['0'].drop_last() =~= seq![]);
        assert(digits_value(seq!['0'].drop_last()) == 0);
        assert(digits_value(seq!['0']) == 0);
        assert(t.last() == decimal(n).last());
        assert(decimal(n).drop_last() =~= seq![]);
    } else {
        assert(decimal(n / 10).len() == 1);
    }
}

/// Different times are written differently: from what is written, the time can be told.
pub proof fn law_elapsed_is_unambiguous(a: nat, b: nat)
    requires
        elapsed(a) == elapsed(b),
    ensures
        a == b,
{
    let (ha, ma, sa) = (a / 3600, (a % 3600) / 60, a % 60);
    let (hb, mb, sb) = (b / 3600, (b % 3600) / 60, b % 60);
    lemma_two_digits(sa);
    lemma_two_digits(sb);
    lemma_two_digits(ma);
    lemma_two_digits(mb);
    lemma_decimal(ma);
    lemma_decimal(mb);
    lemma_decimal(ha);
    lemma_decimal(hb);
    vstd::arithmetic::power::lemma_pow1(10);
    reveal(vstd::arithmetic::power::pow);
    assert(vstd::arithmetic::power::pow(10, 2) == 100) by {
        assert(vstd::arithmetic::power::pow(10, 2) == 10 * vstd::arithmetic::power::pow(10, 1));
    }
    lemma_decimal_len(ma, 2);
    lemma_decimal_len(mb, 2);
    let ea = elapsed(a);
    let eb = elapsed(b);
    let n = ea.len() as int;
    assert(ea.subrange(n - 2, n) =~= two_digits(sa));
    assert(eb.subrange(n - 2, n) =~= two_digits(sb));
    assert(sa == sb);
    if ha > 0 {
        assert(n >= 7);
        assert(hb > 0);
        assert(ea.subrange(n - 5, n - 3) =~= two_digits(ma));
        assert(eb.subrange(n - 5, n - 3) =~= two_digits(mb));
        assert(ea.subrange(0, n - 6) =~= decimal(ha));
        assert(eb.subrange(0, n - 6) =~= decimal(hb));
        assert(ma == mb && ha == hb);
    } else {
        assert(n <= 5);
        assert(hb == 0);
        assert(ea.subrange(0, n - 3) =~= decimal(ma));
        assert(eb.subrange(0, n - 3) =~= decimal(mb));
        assert(ma == mb);
    }
}

/// What the user is told of the time an analysis took.
pub fn elapsed_notice(secs: u64) -> (r: String)
    ensures
        r@ == in_colour(BLUE@, "Elapsed Time:"@) + " "@ + (elapsed(secs as nat) + "\n"@),
{
    let mut text: String = fmt_elapsed(secs);
    text.append("\n");
    labelled(BLUE, "Elapsed Time:", text.as_str())
}

/// The width of the bar that shows the depth.
pub const BAR_WIDTH: usize = 30;

/// A bar of `width` cells, of which the first `done` are full.
pub open spec fn bar(done: nat, width: nat) -> Seq<char> {
    seq!['['] + copies('█', done) + copies('░', (width - done) as nat) + seq![']']
}

/// Writes the progress of a search over the line that the cursor is in: the depth of how many,
/// and a bar with `done` full cells of `width`.
pub fn depth_bar(current: u32, total: u32, done: usize, width: usize) -> (r: String)
    requires
        done <= width,
    ensures
        r@ == "\r      Depth "@ + decimal(current as nat) + "/"@ + decimal(total as nat) + " "@
            + bar(done as nat, width as nat) + " "@,
{
    let mut out: String = "\r      Depth ".to_owned();
    out.append(number(current as u64).as_str());
    out.append("/");
    out.append(number(total as u64).as_str());
    out.append(" ");
    let ghost head = out@;
    out.push('[');
    push_copies(&mut out, '█', done);
    push_copies(&mut out, '░', width - done);
    out.push(']');
    assert(out@ =~= head + bar(done as nat, width as nat));
    out.append(" ");
    out
}

/// A bar has its brackets and a cell for each unit of its width, however much is done: the full
/// cells come first.
pub proof fn law_bar_has_all_cells(done: nat, width: nat)
    requires
        done <= width,
    ensures
        bar(done, width).len() == width + 2,
        bar(done, width)[0] == '[',
        bar(done, width).last() == ']',
        BAR_WIDTH == 30,
        forall|i: int| 1 <= i <= done ==> bar(done, width)[i] == '█',
        forall|i: int| done < i <= width ==> bar(done, width)[i] == '░',
{
}

/// The sign that a spinner shows at a step.
pub open spec fn spinner_sign(step: nat) -> char {
    seq!['⠋', '⠙', '⠹', '⠸', '⠼', '⠴', '⠦', '⠧', '⠇', '⠏'][(step % 10) as int]
}

/// The colour of a spinner at a step.
pub open spec fn spinner_colour(step: nat) -> Seq<char> {
    seq![
        "\x1b[31m"@,
        "\x1b[33m"@,
        "\x1b[32m"@,
        "\x1b[36m"@,
        "\x1b[34m"@,
        "\x1b[35m"@,
    ][(step % 6) as int]
}

/// Writes a step of a spinner over the line that the cursor is in.
pub fn spinner_frame(step: usize) -> (r: String)
    ensures
        r@ == "\r"@ + in_colour(spinner_colour(step as nat), seq![spinner_sign(step as nat)])
            + "  "@,
{
    let signs: [char; 10] = ['⠋', '⠙', '⠹', '⠸', '⠼', '⠴', '⠦', '⠧', '⠇', '⠏'];
    let k: usize = step % 6;
    let colour: &str = if k == 0 {
        "\x1b[31m"
    } else if k == 1 {
        "\x1b[33m"
    } else if k == 2 {
        "\x1b[32m"
    } else if k == 3 {
        "\x1b[36m"
    } else if k == 4 {
        "\x1b[34m"
    } else {
        "\x1b[35m"
    };
    let mut out: String = "\r".to_owned();
    out.append(colour);
    out.push(signs[step % 10]);
    out.append(RESET);
    out.append("  ");
    out
}

/// Erases a spinner.
pub const SPINNER_CLEAR: &'static str = "\r   \r";

/// The greatest width of the values in a table.
pub const MAX_VALUE_WIDTH: usize = 40;

/// The least width of the values in a table.
pub const MIN_VALUE_WIDTH: usize = 11;

/// A text that fits the values of a table: one that is too long ends with an ellipsis.
pub open spec fn shortened(s: Seq<char>) -> Seq<char> {
    if s.len() > MAX_VALUE_WIDTH {
        s.take(MAX_VALUE_WIDTH - 1).push('…')
    } else {
        s
    }
}

/// Shortens a text to fit the values of a table.
pub fn shorten(s: &str) -> (r: String)
    ensures
        r@ == shortened(s@),
{
    if s.unicode_len() > MAX_VALUE_WIDTH {
        let mut out: String = s.substring_char(0, MAX_VALUE_WIDTH - 1).to_owned();
        out.push('…');
        out
    } else {
        s.to_owned()
    }
}

/// A shortened text fits, and a text that fits is not shortened. Of one that does not, as much as
/// fits is kept, with an ellipsis in the last place.
pub proof fn law_shortened_fits(s: Seq<char>)
    ensures
        shortened(s).len() <= MAX_VALUE_WIDTH,
        s.len() <= MAX_VALUE_WIDTH ==> shortened(s) == s,
        s.len() > MAX_VALUE_WIDTH ==> shortened(s).len() == MAX_VALUE_WIDTH,
        s.len() > MAX_VALUE_WIDTH ==> shortened(s).drop_last() == s.take(MAX_VALUE_WIDTH - 1),
        s.len() > MAX_VALUE_WIDTH ==> shortened(s).last() == '…',
        MAX_VALUE_WIDTH == 40,
{
    if s.len() > MAX_VALUE_WIDTH {
        assert(shortened(s).drop_last() =~= s.take(MAX_VALUE_WIDTH - 1));
    }
}

/// A row of a table.
#[derive(Debug, PartialEq, Eq)]
pub struct Row {
    pub label: &'static str,
    pub value: String,
}

/// The model of a row: its label and its value.
pub open spec fn row_view(r: Row) -> (Seq<char>, Seq<char>) {
    (r.label@, r.value@)
}

/// The model of the rows of a table.
pub open spec fn rows_view(rows: Seq<Row>) -> Seq<(Seq<char>, Seq<char>)> {
    rows.map_values(|r: Row| row_view(r))
}

/// The rows of the results of an analysis.
pub open spec fn result_rows(info: InfoView, pv: Seq<char>) -> Seq<(Seq<char>, Seq<char>)> {
    seq![
        ("Ply"@, decimal(info.depth as nat)),
        ("Score"@, info.score),
        ("NPS"@, info.nps),
        ("Mate"@, info.mate),
        ("PV"@, shortened(pv)),
        ("Nodes"@, info.nodes),
        ("Time(ms)"@, info.time_ms),
    ]
}

/// Makes the rows of the results of an analysis, with the PV as it is shown, but shortened.
pub fn analysis_rows(info: &InfoLine, pv: &str) -> (r: Vec<Row>)
    ensures
        rows_view(r@) == result_rows(info@, pv@),
        r@.len() == 7,
        r@[0].label@ == "Ply"@ && r@[0].value@ == decimal(info.depth as nat),
        r@[1].label@ == "Score"@ && r@[1].value@ == info.score@,
        r@[2].label@ == "NPS"@ && r@[2].value@ == info.nps@,
        r@[3].label@ == "Mate"@ && r@[3].value@ == info.mate@,
        r@[4].label@ == "PV"@ && r@[4].value@ == shortened(pv@),
        r@[5].label@ == "Nodes"@ && r@[5].value@ == info.nodes@,
        r@[6].label@ == "Time(ms)"@ && r@[6].value@ == info.time_ms@,
{
    let mut rows: Vec<Row> = Vec::new();
    rows.push(Row { label: "Ply", value: number(info.depth as u64) });
    rows.push(Row { label: "Score", value: info.score.clone() });
    rows.push(Row { label: "NPS", value: info.nps.clone() });
    rows.push(Row { label: "Mate", value: info.mate.clone() });
    rows.push(Row { label: "PV", value: shorten(pv) });
    rows.push(Row { label: "Nodes", value: info.nodes.clone() });
    rows.push(Row { label: "Time(ms)", value: info.time_ms.clone() });
    assert(rows_view(rows@) =~= result_rows(info@, pv@));
    rows
}

/// The length of the longest label.
pub open spec fn label_width(rows: Seq<(Seq<char>, Seq<char>)>) -> nat
    decreases rows.len(),
{
    if rows.len() == 0 {
        0
    } else {
        let w = label_width(rows.drop_last());
        if rows.last().0.len() > w {
            rows.last().0.len()
        } else {
            w
        }
    }
}

/// The length of the longest value.
pub open spec fn longest_value(rows: Seq<(Seq<char>, Seq<char>)>) -> nat
    decreases rows.len(),
{
    if rows.len() == 0 {
        0
    } else {
        let w = longest_value(rows.drop_last());
        if rows.last().1.len() > w {
            rows.last().1.len()
        } else {
            w
        }
    }
}

/// The width of the values: that of the longest one, within its bounds.
pub open spec fn value_width(rows: Seq<(Seq<char>, Seq<char>)>) -> nat {
    let w = longest_value(rows);
    if w < MIN_VALUE_WIDTH {
        MIN_VALUE_WIDTH as nat
    } else if w > MAX_VALUE_WIDTH {
        MAX_VALUE_WIDTH as nat
    } else {
        w
    }
}

/// A border of a table, by its signs at the left, between the columns and at the right.
pub open spec fn border(left: char, mid: char, right: char, lw: nat, vw: nat) -> Seq<char> {
    seq![left] + copies('─', lw + 2) + seq![mid] + copies('─', vw + 2) + seq![right]
}

/// The line of a row.
pub open spec fn row_line(row: (Seq<char>, Seq<char>), lw: nat, vw: nat) -> Seq<char> {
    "│ "@ + padded(row.0, lw) + " │ "@ + padded(row.1, vw) + " │"@
}

/// The number of rows above the line that separates the results.
pub const ROWS_ABOVE: usize = 4;

/// The lines of the rows, with a separating line after the upper rows.
pub open spec fn body_lines(rows: Seq<(Seq<char>, Seq<char>)>, lw: nat, vw: nat) -> Seq<Seq<char>>
    decreases rows.len(),
{
    if rows.len() == 0 {
        seq![]
    } else {
        let lines = body_lines(rows.drop_last(), lw, vw).push(row_line(rows.last(), lw, vw));
        if rows.len() == ROWS_ABOVE {
            lines.push(border('├', '┼', '┤', lw, vw))
        } else {
            lines
        }
    }
}

/// The lines of a table.
pub open spec fn table_of(rows: Seq<(Seq<char>, Seq<char>)>) -> Seq<Seq<char>> {
    let lw = label_width(rows);
    let vw = value_width(rows);
    (seq![border('┌', '┬', '┐', lw, vw)] + body_lines(rows, lw, vw)).push(
        border('└', '┴', '┘', lw, vw),
    )
}

fn make_border(left: char, mid: char, right: char, lw: usize, vw: usize) -> (r: String)
    requires
        lw + 2 <= usize::MAX,
        vw + 2 <= usize::MAX,
    ensures
        r@ == border(left, mid, right, lw as nat, vw as nat),
{
    let mut out: String = String::new();
    out.push(left);
    push_copies(&mut out, '─', lw + 2);
    out.push(mid);
    push_copies(&mut out, '─', vw + 2);
    out.push(right);
    assert(out@ =~= border(left, mid, right, lw as nat, vw as nat));
    out
}

fn make_row(row: &Row, lw: usize, vw: usize) -> (r: String)
    ensures
        r@ == row_line(row_view(*row), lw as nat, vw as nat),
{
    let mut out: String = "│ ".to_owned();
    push_padded(&mut out, row.label, lw);
    out.append(" │ ");
    push_padded(&mut out, row.value.as_str(), vw);
    out.append(" │");
    out
}

/// Writes a table as lines. The columns are as wide as their widest entry, within the bounds of
/// the values.
pub fn table(rows: &Vec<Row>) -> (r: Vec<String>)
    requires
        label_width(rows_view(rows@)) + 2 <= usize::MAX,
    ensures
        texts(r@) == table_of(rows_view(rows@)),
{
    let ghost model = rows_view(rows@);
    let mut lw: usize = 0;
    let mut longest: usize = 0;
    let mut i: usize = 0;
    assert(model.take(0) =~= seq![]);
    while i < rows.len()
        invariant
            i <= rows@.len(),
            model == rows_view(rows@),
            lw == label_width(model.take(i as int)),
            longest == longest_value(model.take(i as int)),
        decreases rows@.len() - i,
    {
        assert(model.take(i + 1).drop_last() =~= model.take(i as int));
        assert(model.take(i + 1).last() == row_view(rows@[i as int]));
        let l: usize = rows[i].label.unicode_len();
        let v: usize = rows[i].value.as_str().unicode_len();
        if l > lw {
            lw = l;
        }
        if v > longest {
            longest = v;
        }
        i += 1;
    }
    assert(model.take(i as int) =~= model);
    let vw: usize = if longest < MIN_VALUE_WIDTH {
        MIN_VALUE_WIDTH
    } else if longest > MAX_VALUE_WIDTH {
        MAX_VALUE_WIDTH
    } else {
        longest
    };
    let mut lines: Vec<String> = Vec::new();
    lines.push(make_border('┌', '┬', '┐', lw, vw));
    let ghost top = border('┌', '┬', '┐', lw as nat, vw as nat);
    assert(texts(lines@) =~= seq![top] + body_lines(model.take(0), lw as nat, vw as nat));
    let mut k: usize = 0;
    while k < rows.len()
        invariant
            k <= rows@.len(),
            model == rows_view(rows@),
            lw + 2 <= usize::MAX,
            vw <= MAX_VALUE_WIDTH,
            texts(lines@) == seq![top] + body_lines(
                model.take(k as int),
                lw as nat,
                vw as nat,
            ),
        decreases rows@.len() - k,
    {
        let ghost before = texts(lines@);
        let ghost body = body_lines(model.take(k as int), lw as nat, vw as nat);
        assert(model.take(k + 1).drop_last() =~= model.take(k as int));
        assert(model.take(k + 1).last() == row_view(rows@[k as int]));
        lines.push(make_row(&rows[k], lw, vw));
        let ghost line = row_line(row_view(rows@[k as int]), lw as nat, vw as nat);
        assert(texts(lines@) =~= before.push(line));
        assert(before.push(line) =~= seq![top] + body.push(line));
        if k + 1 == ROWS_ABOVE {
            let ghost with_row = texts(lines@);
            lines.push(make_border('├', '┼', '┤', lw, vw));
            let ghost sep = border('├', '┼', '┤', lw as nat, vw as nat);
            assert(texts(lines@) =~= with_row.push(sep));
            assert(with_row.push(sep) =~= seq![top] + body.push(line).push(sep));
        }
        k += 1;
    }
    assert(model.take(k as int) =~= model);
    let ghost inner = texts(lines@);
    lines.push(make_border('└', '┴', '┘', lw, vw));
    assert(texts(lines@) =~= inner.push(border('└', '┴', '┘', lw as nat, vw as nat)));
    lines
}

/// The title of the results.
pub open spec fn title() -> Seq<char> {
    BOLD@ + in_colour(MAGENTA@, "Engine Analysis Complete"@)
}

/// The lines of the report of an analysis: a title and the table of the results.
pub open spec fn report_of(info: InfoView, pv: Seq<char>) -> Seq<Seq<char>> {
    seq![title()] + table_of(result_rows(info, pv))
}

/// The widest label of the results has eight characters.
proof fn lemma_result_labels(info: InfoView, pv: Seq<char>)
    ensures
        label_width(result_rows(info, pv)) == 8,
{
    reveal_strlit("Ply");
    reveal_strlit("Score");
    reveal_strlit("NPS");
    reveal_strlit("Mate");
    reveal_strlit("PV");
    reveal_strlit("Nodes");
    reveal_strlit("Time(ms)");
    let rows = result_rows(info, pv);
    reveal_with_fuel(label_width, 8);
    assert(rows.drop_last().drop_last().drop_last().drop_last().drop_last().drop_last().drop_last()
        =~= seq![]);
}

/// Writes the report of an analysis, with the PV as it is shown.
pub fn report(info: &InfoLine, pv: &str) -> (r: Vec<String>)
    ensures
        texts(r@) == report_of(info@, pv@),
{
    let rows: Vec<Row> = analysis_rows(info, pv);
    proof {
        lemma_result_labels(info@, pv@);
    }
    let mut lines: Vec<String> = table(&rows);
    let mut heading: String = BOLD.to_owned();
    heading.append(MAGENTA);
    heading.append("Engine Analysis Complete");
    heading.append(RESET);
    assert(heading@ =~= title());
    let ghost body = texts(lines@);
    lines.insert(0, heading);
    assert(texts(lines@) =~= seq![title()] + body);
    lines
}

/// Every value is at most as long as the longest one, and every label as the widest one.
proof fn lemma_widths(rows: Seq<(Seq<char>, Seq<char>)>, i: int)
    requires
        0 <= i < rows.len(),
    ensures
        rows[i].0.len() <= label_width(rows),
        rows[i].1.len() <= longest_value(rows),
    decreases rows.len(),
{
    if i < rows.len() - 1 {
        lemma_widths(rows.drop_last(), i);
        assert(rows.drop_last()[i] == rows[i]);
    }
}

/// Where no value is longer than a bound, the longest one is not.
proof fn lemma_longest_bound(rows: Seq<(Seq<char>, Seq<char>)>, bound: nat)
    requires
        forall|i: int| 0 <= i < rows.len() ==> (#[trigger] rows[i]).1.len() <= bound,
    ensures
        longest_value(rows) <= bound,
    decreases rows.len(),
{
    if rows.len() > 0 {
        assert(rows[rows.len() - 1].1.len() <= bound);
        assert forall|i: int| 0 <= i < rows.drop_last().len() implies (
        #[trigger] rows.drop_last()[i]).1.len() <= bound by {
            assert(rows.drop_last()[i] == rows[i]);
        }
        lemma_longest_bound(rows.drop_last(), bound);
    }
}

proof fn lemma_row_line_len(row: (Seq<char>, Seq<char>), lw: nat, vw: nat)
    requires
        row.0.len() <= lw,
        row.1.len() <= vw,
    ensures
        row_line(row, lw, vw).len() == lw + vw + 7,
{
    reveal_strlit("│ ");
    reveal_strlit(" │ ");
    reveal_strlit(" │");
}

proof fn lemma_body_lines_len(rows: Seq<(Seq<char>, Seq<char>)>, lw: nat, vw: nat)
    requires
        forall|i: int|
            0 <= i < rows.len() ==> (#[trigger] rows[i]).0.len() <= lw && rows[i].1.len() <= vw,
    ensures
        forall|i: int|
            0 <= i < body_lines(rows, lw, vw).len() ==> (#[trigger] body_lines(
                rows,
                lw,
                vw,
            )[i]).len() == lw + vw + 7,
    decreases rows.len(),
{
    if rows.len() > 0 {
        let init = rows.drop_last();
        assert forall|i: int| 0 <= i < init.len() implies (#[trigger] init[i]).0.len() <= lw
            && init[i].1.len() <= vw by {
            assert(init[i] == rows[i]);
        }
        lemma_body_lines_len(init, lw, vw);
        assert(rows[rows.len() - 1].0.len() <= lw);
        lemma_row_line_len(rows.last(), lw, vw);
        let lines = body_lines(init, lw, vw);
        assert forall|i: int| 0 <= i < body_lines(rows, lw, vw).len() implies (
        #[trigger] body_lines(rows, lw, vw)[i]).len() == lw + vw + 7 by {
            if i < lines.len() {
                assert(body_lines(rows, lw, vw)[i] == lines[i]);
            }
        }
    }
}

/// The borders of a table line up: all its lines are equally long, where no value is longer than
/// the greatest width.
pub proof fn law_table_lines_up(rows: Seq<(Seq<char>, Seq<char>)>)
    requires
        forall|i: int| 0 <= i < rows.len() ==> (#[trigger] rows[i]).1.len() <= MAX_VALUE_WIDTH,
    ensures
        forall|i: int|
            0 <= i < table_of(rows).len() ==> (#[trigger] table_of(rows)[i]).len() == label_width(
                rows,
            ) + value_width(rows) + 7,
{
    let lw = label_width(rows);
    let vw = value_width(rows);
    lemma_longest_bound(rows, MAX_VALUE_WIDTH as nat);
    assert forall|i: int| 0 <= i < rows.len() implies (#[trigger] rows[i]).0.len() <= lw
        && rows[i].1.len() <= vw by {
        lemma_widths(rows, i);
    }
    lemma_body_lines_len(rows, lw, vw);
    let body = body_lines(rows, lw, vw);
    assert forall|i: int| 0 <= i < table_of(rows).len() implies (#[trigger] table_of(
        rows,
    )[i]).len() == lw + vw + 7 by {
        if 1 <= i <= body.len() {
            assert(table_of(rows)[i] == body[i - 1]);
        }
    }
}

/// The borders of the report of an analysis line up, no matter how long the PV is: all lines of
/// its table are equally long, where none of the other values is longer than the greatest width.
pub proof fn law_report_lines_up(info: InfoView, pv: Seq<char>)
    requires
        info.score.len() <= MAX_VALUE_WIDTH,
        info.nps.len() <= MAX_VALUE_WIDTH,
        info.mate.len() <= MAX_VALUE_WIDTH,
        info.nodes.len() <= MAX_VALUE_WIDTH,
        info.time_ms.len() <= MAX_VALUE_WIDTH,
    ensures
        ({
            let table = table_of(result_rows(info, pv));
            forall|i: int, j: int|
                0 <= i < table.len() && 0 <= j < table.len() ==> (#[trigger] table[i]).len() == (
                #[trigger] table[j]).len()
        }),
{
    let rows = result_rows(info, pv);
    vstd::arithmetic::power::lemma_pow1(10);
    reveal(vstd::arithmetic::power::pow);
    assert(vstd::arithmetic::power::pow(10, 10) == 10_000_000_000) by {
        reveal_with_fuel(vstd::arithmetic::power::pow, 11);
    }
    lemma_decimal_len(info.depth as nat, 10);
    law_shortened_fits(pv);
    law_table_lines_up(rows);
}

/// A time is told in full: the seconds as two digits behind the last colon, before it the minutes
/// of an hour as two digits behind the hours, or all minutes where there is no hour.
pub proof fn law_elapsed_adds_up(secs: nat)
    ensures
        ({
            let t = elapsed(secs);
            let n = t.len() as int;
            &&& n >= 4
            &&& t[n - 3] == ':'
            &&& digits_value(t.subrange(n - 2, n)) == secs % 60
            &&& secs < 3600 ==> t.take(n - 3) == decimal(secs / 60)
            &&& secs >= 3600 ==> {
                &&& n >= 7
                &&& t[n - 6] == ':'
                &&& digits_value(t.subrange(n - 5, n - 3)) == (secs / 60) % 60
                &&& t.take(n - 6) == decimal(secs / 3600)
            }
            &&& forall|i: int|
                n - 2 <= i < n || (secs >= 3600 && n - 5 <= i < n - 3) ==> '0' <= #[trigger] t[i]
                    <= '9'
        }),
{
    let (h, m, s) = (secs / 3600, (secs % 3600) / 60, secs % 60);
    let t = elapsed(secs);
    let n = t.len() as int;
    lemma_two_digits(m);
    lemma_two_digits(s);
    lemma_decimal(h);
    lemma_decimal(secs / 60);
    assert(t.subrange(n - 2, n) =~= two_digits(s));
    assert(forall|i: int| 0 <= i < 2 ==> is_digit(#[trigger] two_digits(s)[i]));
    assert(forall|i: int| 0 <= i < 2 ==> is_digit(#[trigger] two_digits(m)[i]));
    if secs < 3600 {
        assert(h == 0 && m == secs / 60);
        assert(t.take(n - 3) =~= decimal(m));
        assert forall|i: int| n - 2 <= i < n implies '0' <= #[trigger] t[i] <= '9' by {
            assert(t[i] == two_digits(s)[i - (n - 2)]);
        }
    } else {
        assert(m == (secs / 60) % 60);
        assert(t.subrange(n - 5, n - 3) =~= two_digits(m));
        assert(t.take(n - 6) =~= decimal(h));
        assert forall|i: int| n - 2 <= i < n || n - 5 <= i < n - 3 implies '0' <= #[trigger] t[i]
            <= '9' by {
            if i >= n - 2 {
                assert(t[i] == two_digits(s)[i - (n - 2)]);
            } else {
                assert(t[i] == two_digits(m)[i - (n - 5)]);
            }
        }
    }
}

/// A spinner turns through ten signs and six colours, and then begins again.
pub proof fn law_spinner_turns(step: nat)
    ensures
        spinner_sign(step + 10) == spinner_sign(step),
        spinner_colour(step + 6) == spinner_colour(step),
        spinner_sign(0) == '⠋',
        spinner_sign(1) == '⠙',
        spinner_sign(2) == '⠹',
        spinner_sign(3) == '⠸',
        spinner_sign(4) == '⠼',
        spinner_sign(5) == '⠴',
        spinner_sign(6) == '⠦',
        spinner_sign(7) == '⠧',
        spinner_sign(8) == '⠇',
        spinner_sign(9) == '⠏',
        spinner_colour(0) == "\x1b[31m"@,
        spinner_colour(1) == "\x1b[33m"@,
        spinner_colour(2) == "\x1b[32m"@,
        spinner_colour(3) == "\x1b[36m"@,
        spinner_colour(4) == "\x1b[34m"@,
        spinner_colour(5) == "\x1b[35m"@,
{
    assert((step + 10) % 10 == step % 10);
    assert((step + 6) % 6 == step % 6);
}

/// The rows of the results are all that the engine said last, each value under its label.
pub proof fn law_rows_of_results(info: InfoView, pv: Seq<char>)
    ensures
        ({
            let rows = result_rows(info, pv);
            &&& rows.len() == 7
            &&& rows[0] == ("Ply"@, decimal(info.depth as nat))
            &&& rows[1] == ("Score"@, info.score)
            &&& rows[2] == ("NPS"@, info.nps)
            &&& rows[3] == ("Mate"@, info.mate)
            &&& rows[4] == ("PV"@, shortened(pv))
            &&& rows[5] == ("Nodes"@, info.nodes)
            &&& rows[6] == ("Time(ms)"@, info.time_ms)
        }),
{
}

/// The columns of a table are as wide as their widest entry, but that of the values is at least
/// as wide as the least width and at most as the greatest.
pub proof fn law_columns_fit(rows: Seq<(Seq<char>, Seq<char>)>)
    ensures
        forall|i: int| 0 <= i < rows.len() ==> (#[trigger] rows[i]).0.len() <= label_width(rows),
        label_width(rows) == 0 || exists|i: int|
            0 <= i < rows.len() && (#[trigger] rows[i]).0.len() == label_width(rows),
        11 <= value_width(rows) <= 40,
        forall|i: int|
            0 <= i < rows.len() && (#[trigger] rows[i]).1.len() <= 40 ==> rows[i].1.len()
                <= value_width(rows),
        value_width(rows) == 11 || exists|i: int|
            0 <= i < rows.len() && ((#[trigger] rows[i]).1.len() == value_width(rows) || (
            value_width(rows) == 40 && rows[i].1.len() > 40)),
{
    assert forall|i: int| 0 <= i < rows.len() implies (#[trigger] rows[i]).0.len() <= label_width(
        rows,
    ) && rows[i].1.len() <= longest_value(rows) by {
        lemma_widths(rows, i);
    }
    lemma_widths_are_met(rows);
}

proof fn lemma_widths_are_met(rows: Seq<(Seq<char>, Seq<char>)>)
    ensures
        label_width(rows) == 0 || exists|i: int|
            0 <= i < rows.len() && (#[trigger] rows[i]).0.len() == label_width(rows),
        longest_value(rows) == 0 || exists|i: int|
            0 <= i < rows.len() && (#[trigger] rows[i]).1.len() == longest_value(rows),
    decreases rows.len(),
{
    if rows.len() > 0 {
        let init = rows.drop_last();
        lemma_widths_are_met(init);
        let n = rows.len() - 1;
        assert(rows[n] == rows.last());
        if label_width(rows) == label_width(init) && label_width(init) != 0 {
            let i = choose|i: int|
                0 <= i < init.len() && (#[trigger] init[i]).0.len() == label_width(init);
            assert(rows[i] == init[i]);
        }
        if longest_value(rows) == longest_value(init) && longest_value(init) != 0 {
            let i = choose|i: int|
                0 <= i < init.len() && (#[trigger] init[i]).1.len() == longest_value(init);
            assert(rows[i] == init[i]);
        }
    }
}

proof fn lemma_body_rows(rows: Seq<(Seq<char>, Seq<char>)>, lw: nat, vw: nat)
    ensures
        ({
            let body = body_lines(rows, lw, vw);
            &&& rows.len() < 4 ==> body.len() == rows.len()
            &&& rows.len() >= 4 ==> body.len() == rows.len() + 1
            &&& rows.len() >= 4 ==> body[4] == border('├', '┼', '┤', lw, vw)
            &&& forall|i: int|
                0 <= i < rows.len() && i < 4 ==> #[trigger] body[i] == row_line(rows[i], lw, vw)
            &&& forall|i: int|
                4 < i < body.len() ==> #[trigger] body[i] == row_line(rows[i - 1], lw, vw)
        }),
    decreases rows.len(),
{
    if rows.len() > 0 {
        lemma_body_rows(rows.drop_last(), lw, vw);
    }
}

/// A table holds every row, in order, with a line that separates the rows behind the fourth from
/// those before, between a border above and one below. In the line of a row are the whole label
/// and the whole value, each padded to the width of its column.
pub proof fn law_table_holds_all_rows(rows: Seq<(Seq<char>, Seq<char>)>)
    ensures
        ({
            let lw = label_width(rows);
            let vw = value_width(rows);
            let t = table_of(rows);
            let n = rows.len() as int;
            &&& n < 4 ==> t.len() == n + 2
            &&& n >= 4 ==> t.len() == n + 3
            &&& t[0] == seq!['┌'] + copies('─', lw + 2) + seq!['┬'] + copies(
                '─',
                vw + 2,
            ) + seq!['┐']
            &&& t.last() == seq!['└'] + copies('─', lw + 2) + seq!['┴'] + copies(
                '─',
                vw + 2,
            ) + seq!['┘']
            &&& n >= 4 ==> t[5] == seq!['├'] + copies('─', lw + 2) + seq!['┼'] + copies(
                '─',
                vw + 2,
            ) + seq!['┤']
            &&& forall|i: int|
                0 <= i < n && i < 4 ==> #[trigger] t[i + 1] == "│ "@ + padded(rows[i].0, lw)
                    + " │ "@ + padded(rows[i].1, vw) + " │"@
            &&& forall|i: int|
                4 <= i < n ==> #[trigger] t[i + 2] == "│ "@ + padded(rows[i].0, lw) + " │ "@
                    + padded(rows[i].1, vw) + " │"@
        }),
{
    let lw = label_width(rows);
    let vw = value_width(rows);
    let t = table_of(rows);
    let body = body_lines(rows, lw, vw);
    lemma_body_rows(rows, lw, vw);
    assert(forall|i: int| 0 <= i < body.len() ==> t[i + 1] == #[trigger] body[i]);
    assert forall|i: int| 0 <= i < rows.len() && i < 4 implies #[trigger] t[i + 1] == row_line(
        rows[i],
        lw,
        vw,
    ) by {
        assert(body[i] == row_line(rows[i], lw, vw));
    }
    assert forall|i: int| 4 <= i < rows.len() implies #[trigger] t[i + 2] == row_line(
        rows[i],
        lw,
        vw,
    ) by {
        assert(body[i + 1] == row_line(rows[i], lw, vw));
    }
    if rows.len() >= 4 {
        assert(t[5] == body[4]);
    }
}

/// A report is its title, and then the table of all results.
pub proof fn law_report_is_whole(info: InfoView, pv: Seq<char>)
    ensures
        report_of(info, pv)[0] == BOLD@ + (MAGENTA@ + "Engine Analysis Complete"@ + RESET@),
        report_of(info, pv).drop_first() == table_of(result_rows(info, pv)),
{
    assert(report_of(info, pv).drop_first() =~= table_of(result_rows(info, pv)));
}

/// The model of rows holds the label and the value of each, as they are.
pub proof fn law_models_leave_nothing_out(rows: Seq<Row>)
    ensures
        rows_view(rows).len() == rows.len(),
        forall|i: int|
            0 <= i < rows.len() ==> #[trigger] rows_view(rows)[i] == (
                rows[i].label@,
                rows[i].value@,
            ),
{
}

} // verus!
