//! Layout decisions of the renderer: how text is fitted into cells, how the
//! task table's columns share the width, how the detail pane's regions share
//! the height, and where buttons and grid cells go. Drawing itself happens in
//! the program around the library; every rectangle it draws and hit-tests
//! comes from here.

use vstd::prelude::*;

use crate::asana::Story;
use crate::settings::{Column, ColumnView};
use crate::text::{chars_of, contains_seq, contains_str, has_prefix, starts_with_str, string_of, to_lowercase, unicode_lowercase};
use crate::zones::Rect;

verus! {

broadcast use vstd::string::group_string_axioms;

/// Left-to-right line splitting as `str::lines` does it: the finished lines and
/// the line still being read. A line ended by `\n` loses one trailing `\r`.
pub open spec fn lines_state(s: Seq<char>) -> (Seq<Seq<char>>, Seq<char>)
    decreases s.len(),
{
    if s.len() == 0 {
        (Seq::empty(), Seq::empty())
    } else {
        let (done, cur) = lines_state(s.drop_last());
        if s.last() == '\n' {
            let line = if cur.len() > 0 && cur.last() == '\r' { cur.drop_last() } else { cur };
            (done.push(line), Seq::empty())
        } else {
            (done, cur.push(s.last()))
        }
    }
}

/// The lines of `s`, as `str::lines` gives them: split at `\n` (a `\r` right
/// before it dropped), the last line kept only when it is not empty.
pub open spec fn lines_of(s: Seq<char>) -> Seq<Seq<char>> {
    let (done, cur) = lines_state(s);
    if cur.len() > 0 {
        done.push(cur)
    } else {
        done
    }
}

/// Rows a line of `n` characters takes when hard-wrapped to `width > 0`: one
/// for an empty line, else `n / width` rounded up.
pub open spec fn line_rows(n: nat, width: nat) -> nat {
    if n == 0 {
        1
    } else {
        ((n + width - 1) / width as int) as nat
    }
}

/// Rows all of `lines` take, hard-wrapped to `width > 0`.
pub open spec fn rows_of(lines: Seq<Seq<char>>, width: nat) -> nat
    decreases lines.len(),
{
    if lines.len() == 0 {
        0
    } else {
        rows_of(lines.drop_last(), width) + line_rows(lines.last().len(), width)
    }
}

/// Rows that `text` occupies when hard-wrapped to `width` (counting newlines),
/// at least one; with no width, one row per line.
pub open spec fn wrapped_rows(text: Seq<char>, width: nat) -> nat {
    let n = if width == 0 { lines_of(text).len() } else { rows_of(lines_of(text), width) };
    if n == 0 { 1 } else { n }
}

proof fn lemma_lines_bound(s: Seq<char>)
    ensures
        lines_state(s).0.len() + lines_state(s).1.len() <= s.len(),
        forall|i: int| 0 <= i < lines_state(s).0.len() ==> #[trigger] lines_state(s).0[i].len() <= s.len(),
    decreases s.len(),
{
    if s.len() > 0 {
        lemma_lines_bound(s.drop_last());
    }
}

proof fn lemma_rows_push(lines: Seq<Seq<char>>, l: Seq<char>, width: nat)
    requires
        width > 0,
    ensures
        rows_of(lines.push(l), width) == rows_of(lines, width) + line_rows(l.len(), width),
{
    assert(lines.push(l).drop_last() =~= lines);
}

proof fn lemma_line_rows_bound(n: nat, width: nat)
    requires
        width > 0,
    ensures
        line_rows(n, width) <= n + 1,
        n > 0 ==> line_rows(n, width) <= n,
        line_rows(n, width) >= 1,
{
    if n > 0 {
        assert((n + width - 1) / width as int <= n) by (nonlinear_arith)
            requires
                n > 0,
                width > 0,
        ;
        assert((n + width - 1) / width as int >= 1) by (nonlinear_arith)
            requires
                n > 0,
                width > 0,
        ;
    }
}

/// Rows a line of `n` characters takes wrapped to `width > 0`.
fn rows_for(n: usize, width: usize) -> (r: usize)
    requires
        width > 0,
    ensures
        r == line_rows(n as nat, width as nat),
{
    if n == 0 {
        1
    } else {
        let q = n / width;
        assert(n % width != 0 ==> q < usize::MAX) by (nonlinear_arith)
            requires
                width > 0,
                q == n / width,
                n <= usize::MAX,
        {
            if n % width != 0 {
                assert(width >= 2);
                assert(q * width <= n);
                assert(q * 2 <= q * width);
            }
        }
        let r = if n % width == 0 { q } else { q + 1 };
        assert(r == (n + width - 1) / width as int) by (nonlinear_arith)
            requires
                width > 0,
                q == n / width,
                r == (if n % width == 0 { q as int } else { q + 1 }),
        {
            assert(n == q * width + n % width);
        }
        r
    }
}

/// Rows that `text` occupies when hard-wrapped to `width` (counting newlines).
pub fn wrapped_lines(text: &str, width: usize) -> (r: usize)
    ensures
        r == wrapped_rows(text@, width as nat),
{
    let chars = chars_of(text);
    let n = chars.len();
    // Count finished lines (or their rows) and the length of the current line.
    let mut total: usize = 0;
    let mut cur_len: usize = 0;
    let mut cur_cr: bool = false;
    let mut i: usize = 0;
    while i < n
        invariant
            i <= n == chars@.len() == text@.len(),
            chars@ == text@,
            cur_len == lines_state(text@.take(i as int)).1.len(),
            cur_len > 0 ==> cur_cr == (lines_state(text@.take(i as int)).1.last() == '\r'),
            total == (if width == 0 {
                lines_state(text@.take(i as int)).0.len()
            } else {
                rows_of(lines_state(text@.take(i as int)).0, width as nat)
            }),
            total + cur_len <= i,
        decreases n - i,
    {
        let c = chars[i];
        proof {
            assert(text@.take(i + 1).drop_last() =~= text@.take(i as int));
            assert(chars@[i as int] == text@[i as int]);
            assert(text@.take(i + 1).last() == c);
        }
        let ghost (done, cur) = lines_state(text@.take(i as int));
        if c == '\n' {
            let len = if cur_len > 0 && cur_cr { cur_len - 1 } else { cur_len };
            let ghost line = if cur.len() > 0 && cur.last() == '\r' { cur.drop_last() } else { cur };
            assert(len == line.len());
            if width == 0 {
                total = total + 1;
            } else {
                proof {
                    lemma_rows_push(done, line, width as nat);
                    lemma_line_rows_bound(len as nat, width as nat);
                }
                total = total + rows_for(len, width);
            }
            cur_len = 0;
            cur_cr = false;
        } else {
            cur_len = cur_len + 1;
            cur_cr = c == '\r';
        }
        i = i + 1;
    }
    assert(text@.take(n as int) =~= text@);
    let ghost (done, cur) = lines_state(text@);
    if cur_len > 0 {
        if width == 0 {
            total = total + 1;
        } else {
            proof {
                lemma_rows_push(done, cur, width as nat);
                lemma_line_rows_bound(cur_len as nat, width as nat);
            }
            total = total + rows_for(cur_len, width);
        }
    }
    if total == 0 {
        1
    } else {
        total
    }
}

/// `n` spaces.
pub open spec fn spaces(n: nat) -> Seq<char> {
    Seq::new(n, |i: int| ' ')
}

/// `s` truncated (with an ellipsis) or padded with spaces to exactly `width`
/// characters.
pub open spec fn fitted(s: Seq<char>, width: nat) -> Seq<char> {
    if width == 0 {
        Seq::empty()
    } else if s.len() <= width {
        s + spaces((width - s.len()) as nat)
    } else if width == 1 {
        seq!['\u{2026}']
    } else {
        s.take(width - 1).push('\u{2026}')
    }
}

/// Truncate (with an ellipsis) or pad `s` to exactly `width` display columns,
/// counting by character (a good-enough proxy for mostly-ASCII task text).
pub fn fit(s: &str, width: usize) -> (r: String)
    ensures
        r@ == fitted(s@, width as nat),
        r@.len() == width,
{
    if width == 0 {
        return String::new();
    }
    let chars = chars_of(s);
    if chars.len() <= width {
        let mut out = String::from_str(s);
        let pad = width - chars.len();
        let mut k: usize = 0;
        while k < pad
            invariant
                k <= pad == width - s@.len(),
                out@ == s@ + spaces(k as nat),
            decreases pad - k,
        {
            out.push(' ');
            k = k + 1;
            assert(out@ =~= s@ + spaces(k as nat));
        }
        out
    } else if width == 1 {
        let mut out = String::new();
        out.push('\u{2026}');
        assert(out@ =~= seq!['\u{2026}']);
        out
    } else {
        let mut out = string_of(crate::text::copy_range(chars.as_slice(), 0, width - 1).as_slice());
        out.push('\u{2026}');
        assert(s@.subrange(0, width - 1) =~= s@.take(width - 1));
        out
    }
}

/// The first sixteen characters of an ISO-8601 timestamp, `T` shown as a space.
pub open spec fn short_time(iso: Seq<char>) -> Seq<char> {
    iso.take(if iso.len() < 16 { iso.len() as int } else { 16 }).map_values(|c: char| if c == 'T' { ' ' } else { c })
}

/// Trim an ISO-8601 timestamp to `YYYY-MM-DD HH:MM`.
pub fn format_time(iso: &str) -> (r: String)
    ensures
        r@ == short_time(iso@),
{
    let chars = chars_of(iso);
    let n = if chars.len() < 16 { chars.len() } else { 16 };
    let mut out = String::new();
    let mut i: usize = 0;
    while i < n
        invariant
            i <= n <= chars@.len(),
            chars@ == iso@,
            n == (if iso@.len() < 16 { iso@.len() as int } else { 16 }),
            out@ == iso@.take(i as int).map_values(|c: char| if c == 'T' { ' ' } else { c }),
        decreases n - i,
    {
        let c = chars[i];
        out.push(if c == 'T' { ' ' } else { c });
        i = i + 1;
        assert(out@ =~= iso@.take(i as int).map_values(|c: char| if c == 'T' { ' ' } else { c }));
    }
    out
}

/// Whether a value is a clickable web link: it starts with `http://` or `https://`.
pub open spec fn is_link(s: Seq<char>) -> bool {
    has_prefix(s, "http://"@) || has_prefix(s, "https://"@)
}

/// Whether a value is a clickable web link.
pub fn is_url(s: &str) -> (b: bool)
    ensures
        b == is_link(s@),
{
    let chars = chars_of(s);
    starts_with_str(chars.as_slice(), "http://") || starts_with_str(chars.as_slice(), "https://")
}

/// The English month names, January first.
pub open spec fn month_names() -> Seq<Seq<char>> {
    seq![
        "January"@, "February"@, "March"@, "April"@, "May"@, "June"@, "July"@,
        "August"@, "September"@, "October"@, "November"@, "December"@,
    ]
}

/// The name of month `month` (1 = January); month 0 reads as January; past
/// December, the empty string.
pub open spec fn month_name_of(month: u8) -> Seq<char> {
    let i = if month == 0 { 0 } else { month - 1 };
    if i < 12 { month_names()[i] } else { Seq::empty() }
}

/// The name of a month, 1 = January.
pub fn month_name(month: u8) -> (r: &'static str)
    ensures
        r@ == month_name_of(month),
{
    let names = [
        "January", "February", "March", "April", "May", "June", "July", "August", "September",
        "October", "November", "December",
    ];
    let i = month.saturating_sub(1) as usize;
    if i < 12 {
        assert(names@.map_values(|n: &str| n@) =~= month_names());
        assert(names@.map_values(|n: &str| n@)[i as int] == names@[i as int]@);
        names[i]
    } else {
        proof {
            reveal_strlit("");
        }
        assert(""@ =~= Seq::<char>::empty());
        ""
    }
}

/// A `w`×`h` rectangle centered within `area`.
pub open spec fn centered_in(area: Rect, w: u16, h: u16) -> Rect {
    Rect {
        x: (area.x + (if area.width > w { area.width - w } else { 0 }) / 2) as u16,
        y: (area.y + (if area.height > h { area.height - h } else { 0 }) / 2) as u16,
        width: w,
        height: h,
    }
}

/// Center a `w`×`h` rect within `area`.
pub fn centered(area: Rect, w: u16, h: u16) -> (r: Rect)
    requires
        area.x + area.width <= u16::MAX,
        area.y + area.height <= u16::MAX,
    ensures
        r == centered_in(area, w, h),
{
    Rect {
        x: area.x + (area.width.saturating_sub(w)) / 2,
        y: area.y + (area.height.saturating_sub(h)) / 2,
        width: w,
        height: h,
    }
}

/// A colour of the terminal palette, as the renderer picks them.
#[derive(Clone, Copy, Debug, PartialEq, Eq, Structural)]
pub enum Tone {
    DarkGray,
    Green,
    Magenta,
    Cyan,
    Red,
    Yellow,
    Blue,
}

/// Whether any of `keys` occurs in `v`.
pub open spec fn mentions_any(v: Seq<char>, keys: Seq<Seq<char>>) -> bool {
    exists|i: int| 0 <= i < keys.len() && contains_seq(v, #[trigger] keys[i])
}

/// The pill colour of an already lower-cased status value, mirroring Asana's
/// palette: grey when empty; green for done-like words, magenta for review,
/// cyan for work in progress, red for blocked, yellow for not yet started,
/// blue otherwise; the first matching group wins.
pub open spec fn tone_of(v: Seq<char>) -> Tone {
    if v.len() == 0 {
        Tone::DarkGray
    } else if mentions_any(v, seq!["done"@, "complete"@, "merged"@, "closed"@, "shipped"@]) {
        Tone::Green
    } else if mentions_any(v, seq!["review"@, "qa"@, "verify"@, "test"@]) {
        Tone::Magenta
    } else if mentions_any(v, seq!["progress"@, "develop"@, "doing"@, "active"@]) {
        Tone::Cyan
    } else if mentions_any(v, seq!["block"@, "hold"@, "waiting"@, "stuck"@]) {
        Tone::Red
    } else if mentions_any(v, seq!["backlog"@, "todo"@, "to do"@, "new"@, "ready"@, "triage"@]) {
        Tone::Yellow
    } else {
        Tone::Blue
    }
}

/// Whether any of the literals in `keys` occurs in `v`.
fn mentions(v: &[char], keys: &[&str]) -> (b: bool)
    ensures
        b == mentions_any(v@, keys@.map_values(|k: &str| k@)),
{
    let ghost ks = keys@.map_values(|k: &str| k@);
    let mut i: usize = 0;
    while i < keys.len()
        invariant
            i <= keys@.len(),
            ks == keys@.map_values(|k: &str| k@),
            forall|j: int| 0 <= j < i ==> !contains_seq(v@, #[trigger] ks[j]),
        decreases keys@.len() - i,
    {
        if contains_str(v, keys[i]) {
            assert(contains_seq(v@, ks[i as int]));
            return true;
        }
        i = i + 1;
    }
    false
}

/// The pill colour of a status value that is already lower-cased.
pub fn status_tone(lowered: &str) -> (t: Tone)
    ensures
        t == tone_of(lowered@),
{
    let v = chars_of(lowered);
    let v = v.as_slice();
    let done = ["done", "complete", "merged", "closed", "shipped"];
    let review = ["review", "qa", "verify", "test"];
    let progress = ["progress", "develop", "doing", "active"];
    let blocked = ["block", "hold", "waiting", "stuck"];
    let backlog = ["backlog", "todo", "to do", "new", "ready", "triage"];
    assert(done@.map_values(|k: &str| k@) =~= seq!["done"@, "complete"@, "merged"@, "closed"@, "shipped"@]);
    assert(review@.map_values(|k: &str| k@) =~= seq!["review"@, "qa"@, "verify"@, "test"@]);
    assert(progress@.map_values(|k: &str| k@) =~= seq!["progress"@, "develop"@, "doing"@, "active"@]);
    assert(blocked@.map_values(|k: &str| k@) =~= seq!["block"@, "hold"@, "waiting"@, "stuck"@]);
    assert(backlog@.map_values(|k: &str| k@) =~= seq!["backlog"@, "todo"@, "to do"@, "new"@, "ready"@, "triage"@]);
    if v.len() == 0 {
        Tone::DarkGray
    } else if mentions(v, &done) {
        Tone::Green
    } else if mentions(v, &review) {
        Tone::Magenta
    } else if mentions(v, &progress) {
        Tone::Cyan
    } else if mentions(v, &blocked) {
        Tone::Red
    } else if mentions(v, &backlog) {
        Tone::Yellow
    } else {
        Tone::Blue
    }
}

/// Map a status-like value to a colour, mirroring Asana's pill palette; the
/// value is lower-cased first.
pub fn status_color(value: &str) -> (t: Tone)
    ensures
        t == tone_of(unicode_lowercase(value@)),
{
    let lowered = to_lowercase(value);
    status_tone(lowered.as_str())
}

/// How a table or detail cell is drawn.
#[derive(Clone, Copy, Debug, PartialEq, Eq, Structural)]
pub enum CellStyle {
    /// The terminal's default.
    Plain,
    /// Tag colour.
    Tag,
    /// Completion mark colour.
    Done,
    /// A status pill in bold.
    Pill(Tone),
    /// A plain-weight colour.
    Tinted(Tone),
    /// Dimmed metadata.
    Dim,
}

/// The table style of a column's cell: tags magenta, the completion mark
/// green, custom fields as a bold status pill by their lower-cased value, the
/// name plain, other metadata dimmed.
pub open spec fn table_style(c: ColumnView, value: Seq<char>) -> CellStyle {
    match c {
        ColumnView::Name => CellStyle::Plain,
        ColumnView::Tags => CellStyle::Tag,
        ColumnView::Completed => CellStyle::Done,
        ColumnView::Custom(_) => CellStyle::Pill(tone_of(unicode_lowercase(value))),
        _ => CellStyle::Dim,
    }
}

/// Per-column foreground styling of table cells.
pub fn column_style(column: &Column, value: &str) -> (s: CellStyle)
    ensures
        s == table_style(column@, value@),
{
    match column {
        Column::Name => CellStyle::Plain,
        Column::Tags => CellStyle::Tag,
        Column::Completed => CellStyle::Done,
        Column::Custom(_) => CellStyle::Pill(status_color(value)),
        _ => CellStyle::Dim,
    }
}

/// The detail-pane style of a field value: tags like the table, non-empty
/// custom fields coloured by status, others plain.
pub open spec fn detail_style(c: ColumnView, value: Seq<char>) -> CellStyle {
    match c {
        ColumnView::Tags => CellStyle::Tag,
        ColumnView::Custom(_) => if value.len() > 0 {
            CellStyle::Tinted(tone_of(unicode_lowercase(value)))
        } else {
            CellStyle::Plain
        },
        _ => CellStyle::Plain,
    }
}

/// Colour a detail field value like the table.
pub fn field_value_style(column: &Column, value: &str) -> (s: CellStyle)
    ensures
        s == detail_style(column@, value@),
{
    match column {
        Column::Tags => CellStyle::Tag,
        Column::Custom(_) => if !value.is_empty() {
            CellStyle::Tinted(status_color(value))
        } else {
            CellStyle::Plain
        },
        _ => CellStyle::Plain,
    }
}

/// Sum of `widths[i]` over the columns that are not `Name`.
pub open spec fn fixed_width(cols: Seq<ColumnView>, widths: Seq<usize>) -> nat
    decreases cols.len(),
{
    if cols.len() == 0 {
        0
    } else {
        fixed_width(cols.drop_last(), widths.take(cols.len() - 1))
            + if cols.last() is Name { 0nat } else { widths[cols.len() - 1] as nat }
    }
}

/// Number of `Name` columns.
pub open spec fn name_columns(cols: Seq<ColumnView>) -> nat
    decreases cols.len(),
{
    if cols.len() == 0 {
        0
    } else {
        name_columns(cols.drop_last()) + if cols.last() is Name { 1nat } else { 0nat }
    }
}

/// The width each `Name` column gets when `total` cells are shared: what the
/// fixed columns and the one-cell separators leave (none when they take it
/// all), split evenly among the `Name` columns (counted as at least one), and
/// never under twelve.
pub open spec fn name_width(cols: Seq<ColumnView>, widths: Seq<usize>, total: nat) -> nat {
    let separators: nat = if cols.len() > 0 { (cols.len() - 1) as nat } else { 0 };
    let used = fixed_width(cols, widths) + separators;
    let remaining: nat = if total > used { (total - used) as nat } else { 0 };
    let count: nat = if name_columns(cols) > 0 { name_columns(cols) } else { 1 };
    let w = remaining / count;
    if w > 12 { w } else { 12 }
}

proof fn lemma_fixed_step(cols: Seq<ColumnView>, widths: Seq<usize>, i: int)
    requires
        0 <= i < cols.len(),
        cols.len() == widths.len(),
    ensures
        fixed_width(cols.take(i + 1), widths.take(i + 1)) == fixed_width(cols.take(i), widths.take(i))
            + if cols[i] is Name { 0nat } else { widths[i] as nat },
        name_columns(cols.take(i + 1)) == name_columns(cols.take(i)) + if cols[i] is Name { 1nat } else { 0nat },
{
    assert(cols.take(i + 1).drop_last() =~= cols.take(i));
    assert(widths.take(i + 1).take(i) =~= widths.take(i));
}

proof fn lemma_fixed_prefix(cols: Seq<ColumnView>, widths: Seq<usize>, i: int)
    requires
        0 <= i <= cols.len(),
        cols.len() == widths.len(),
    ensures
        fixed_width(cols.take(i), widths.take(i)) <= fixed_width(cols, widths),
    decreases cols.len() - i,
{
    if i == cols.len() {
        assert(cols.take(i) =~= cols);
        assert(widths.take(i) =~= widths);
    } else {
        lemma_fixed_step(cols, widths, i);
        lemma_fixed_prefix(cols, widths, i + 1);
    }
}

/// Distribute `total` columns: fixed columns keep their (possibly resized)
/// width `widths[i]`, `Name` columns split whatever is left (min 12 each).
pub fn distribute_widths(columns: &[Column], widths: &[usize], total: usize) -> (r: Vec<usize>)
    requires
        columns@.len() == widths@.len(),
        fixed_width(columns@.map_values(|c: Column| c@), widths@) + columns@.len() <= usize::MAX,
    ensures
        r@.len() == columns@.len(),
        forall|i: int| 0 <= i < r@.len() ==> #[trigger] r@[i] == if columns@[i]@ is Name {
            name_width(columns@.map_values(|c: Column| c@), widths@, total as nat)
        } else {
            widths@[i] as nat
        },
{
    let ghost cols = columns@.map_values(|c: Column| c@);
    let n = columns.len();
    let separators = n.saturating_sub(1);
    let mut fixed: usize = 0;
    let mut names: usize = 0;
    let mut i: usize = 0;
    while i < n
        invariant
            i <= n == columns@.len() == widths@.len() == cols.len(),
            cols == columns@.map_values(|c: Column| c@),
            fixed == fixed_width(cols.take(i as int), widths@.take(i as int)),
            names == name_columns(cols.take(i as int)),
            names <= i,
            fixed_width(cols, widths@) + n <= usize::MAX,
            fixed <= fixed_width(cols, widths@),
        decreases n - i,
    {
        proof {
            lemma_fixed_step(cols, widths@, i as int);
            assert(cols[i as int] == columns@[i as int]@);
        }
        if columns[i].is_name() {
            names = names + 1;
        } else {
            proof {
                lemma_fixed_prefix(cols, widths@, i + 1);
            }
            fixed = fixed + widths[i];
        }
        i = i + 1;
    }
    assert(cols.take(n as int) =~= cols);
    assert(widths@.take(n as int) =~= widths@);
    let count = if names > 0 { names } else { 1 };
    let remaining = total.saturating_sub(fixed + separators);
    let w = remaining / count;
    let name_w = if w > 12 { w } else { 12 };
    let mut r: Vec<usize> = Vec::new();
    let mut j: usize = 0;
    while j < n
        invariant
            j <= n == columns@.len() == widths@.len() == cols.len(),
            cols == columns@.map_values(|c: Column| c@),
            name_w == name_width(cols, widths@, total as nat),
            r@.len() == j,
            forall|k: int| 0 <= k < j ==> #[trigger] r@[k] == if columns@[k]@ is Name {
                name_w as nat
            } else {
                widths@[k] as nat
            },
        decreases n - j,
    {
        if columns[j].is_name() {
            r.push(name_w);
        } else {
            r.push(widths[j]);
        }
        j = j + 1;
    }
    r
}

/// The widths of the table's columns, as `distribute_widths` gives them, or
/// nothing when there is not one width per column or the fixed widths and the
/// separators do not fit a `usize`.
pub fn distribute_widths_checked(columns: &[Column], widths: &[usize], total: usize) -> (r: Option<Vec<usize>>)
    ensures
        r is Some <==> columns@.len() == widths@.len()
            && fixed_width(columns@.map_values(|c: Column| c@), widths@) + columns@.len() <= usize::MAX,
        r matches Some(v) ==> {
            &&& v@.len() == columns@.len()
            &&& forall|i: int| 0 <= i < v@.len() ==> #[trigger] v@[i] == if columns@[i]@ is Name {
                name_width(columns@.map_values(|c: Column| c@), widths@, total as nat)
            } else {
                widths@[i] as nat
            }
        },
{
    if columns.len() != widths.len() {
        return None;
    }
    let ghost cols = columns@.map_values(|c: Column| c@);
    let n = columns.len();
    let mut sum: usize = n;
    let mut i: usize = 0;
    while i < n
        invariant
            i <= n == columns@.len() == widths@.len(),
            cols == columns@.map_values(|c: Column| c@),
            sum == n + fixed_width(cols.take(i as int), widths@.take(i as int)),
        decreases n - i,
    {
        proof {
            lemma_fixed_step(cols, widths@, i as int);
        }
        if !columns[i].is_name() {
            match sum.checked_add(widths[i]) {
                Some(t) => {
                    sum = t;
                },
                None => {
                    proof {
                        lemma_fixed_prefix(cols, widths@, i + 1);
                    }
                    return None;
                },
            }
        }
        i = i + 1;
    }
    assert(cols.take(n as int) =~= cols);
    assert(widths@.take(n as int) =~= widths@);
    Some(distribute_widths(columns, widths, total))
}

/// `v` held within `[lo, hi]`.
pub open spec fn clamp_int(v: int, lo: int, hi: int) -> int {
    if v < lo { lo } else if v > hi { hi } else { v }
}

/// Height of a bordered region showing `rows` rows: the rows plus the border,
/// at least three, at most `cap` (or three when `cap` is smaller).
pub open spec fn region_height(rows: u16, cap: u16) -> int {
    clamp_int(rows + 2, 3, if cap > 3 { cap as int } else { 3 })
}

/// Heights of the detail pane's regions; zero for a region that is not shown.
#[derive(Clone, Copy, Debug, PartialEq, Eq, Structural)]
pub struct DetailHeights {
    pub description: u16,
    pub properties: u16,
    pub subtasks: u16,
    pub thread: u16,
}

/// What the detail pane shows, for sizing its regions.
#[derive(Clone, Copy, Debug, PartialEq, Eq, Structural)]
pub struct DetailContent {
    /// Height of the pane below the buttons and the title.
    pub body_height: u16,
    /// Whether the description region is shown.
    pub show_description: bool,
    /// Rows of the properties region (0: not shown).
    pub property_rows: usize,
    /// Rows of the subtasks region (0: not shown).
    pub subtask_rows: usize,
    /// Wrapped rows of the description text.
    pub description_lines: usize,
    /// Wrapped rows of the conversation.
    pub thread_lines: usize,
}

/// Height left for the description and the conversation: the body less the
/// tab row, the composer (three rows) and the properties and subtasks regions.
pub open spec fn shared_height(c: DetailContent) -> int {
    let props = if c.property_rows > 0 { region_height(c.property_rows as u16, c.body_height / 3) } else { 0 };
    let subs = if c.subtask_rows > 0 { region_height(c.subtask_rows as u16, c.body_height / 4) } else { 0 };
    let used = 1 + 3 + props + subs;
    if c.body_height > used { c.body_height - used } else { 0 }
}

/// Height the description would like: its rows plus the border, at least three.
pub open spec fn description_want(c: DetailContent) -> int {
    if c.show_description {
        let w = (c.description_lines as u16) + 2;
        if w > 3 { w } else { 3 }
    } else {
        0
    }
}

/// Height the conversation would like: its rows plus the border, at least three.
pub open spec fn thread_want(c: DetailContent) -> int {
    let w = (c.thread_lines as u16) + 2;
    if w > 3 { w } else { 3 }
}

/// Whether sizing the detail pane is defined: every region's rows fit a
/// terminal height, and when the description and the conversation do not both
/// fit, at least six rows (or none) are left to split between them.
pub open spec fn detail_sizable(c: DetailContent) -> bool {
    &&& (c.property_rows as u16) <= 65533
    &&& (c.subtask_rows as u16) <= 65533
    &&& (c.description_lines as u16) <= 65533
    &&& (c.thread_lines as u16) <= 65533
    &&& description_want(c) + thread_want(c) <= u16::MAX
    &&& (c.show_description && description_want(c) + thread_want(c) > shared_height(c))
        ==> (shared_height(c) == 0 || shared_height(c) >= 6)
}

/// The region heights: properties and subtasks sized to their content (capped
/// at a third and a quarter of the body); the rest shared between the
/// description and the conversation. When both fit, the one with more text gets
/// the surplus (the description on a tie); when not, they split proportionally
/// to what they want, each keeping at least three rows.
pub open spec fn detail_heights(c: DetailContent) -> DetailHeights {
    let props = if c.property_rows > 0 { region_height(c.property_rows as u16, c.body_height / 3) } else { 0 };
    let subs = if c.subtask_rows > 0 { region_height(c.subtask_rows as u16, c.body_height / 4) } else { 0 };
    let avail = shared_height(c);
    let dw = description_want(c);
    let tw = thread_want(c);
    let (d, t) = if !c.show_description {
        (0, avail)
    } else if dw + tw <= avail {
        let surplus = avail - dw - tw;
        if c.description_lines >= c.thread_lines { (dw + surplus, tw) } else { (dw, tw + surplus) }
    } else {
        let lo = if avail < 3 { avail } else { 3 };
        let d = clamp_int((avail * dw) / (dw + tw), lo, avail - lo);
        (d, avail - d)
    };
    DetailHeights { description: d as u16, properties: props as u16, subtasks: subs as u16, thread: t as u16 }
}

/// `((rows as u16) + 2).clamp(3, cap.max(3))`.
fn region(rows: usize, cap: u16) -> (h: u16)
    requires
        (rows as u16) <= 65533,
    ensures
        h == region_height(rows as u16, cap),
{
    let want = (rows as u16) + 2;
    let hi = if cap > 3 { cap } else { 3 };
    if want < 3 { 3 } else if want > hi { hi } else { want }
}

/// The heights of the detail pane's regions.
pub fn detail_layout(c: DetailContent) -> (h: DetailHeights)
    requires
        detail_sizable(c),
    ensures
        h == detail_heights(c),
        h.description + h.properties + h.subtasks + h.thread + 4 <= c.body_height || shared_height(c) == 0,
{
    let body_h = c.body_height;
    let props_h: u16 = if c.property_rows > 0 { region(c.property_rows, body_h / 3) } else { 0 };
    let subs_h: u16 = if c.subtask_rows > 0 { region(c.subtask_rows, body_h / 4) } else { 0 };
    let avail = body_h.saturating_sub(1 + 3 + props_h + subs_h);
    let desc_want: u16 = if c.show_description {
        let w = (c.description_lines as u16) + 2;
        if w > 3 { w } else { 3 }
    } else {
        0
    };
    let thread_want: u16 = {
        let w = (c.thread_lines as u16) + 2;
        if w > 3 { w } else { 3 }
    };
    let (desc_h, thread_h): (u16, u16) = if !c.show_description {
        (0, avail)
    } else if desc_want + thread_want <= avail {
        // Both fit without scrolling; give the surplus to the bigger one.
        let surplus = avail - desc_want - thread_want;
        if c.description_lines >= c.thread_lines {
            (desc_want + surplus, thread_want)
        } else {
            (desc_want, thread_want + surplus)
        }
    } else {
        // Can't both fit; split proportionally, each at least 3 rows.
        let total = desc_want + thread_want;
        assert((avail as int) * (desc_want as int) <= u32::MAX) by (nonlinear_arith)
            requires
                avail <= 65535,
                desc_want <= 65535,
        ;
        let d32 = ((avail as u32) * (desc_want as u32)) / (total as u32);
        assert(d32 == (avail as int * desc_want as int) / (total as int));
        assert((avail as int * desc_want as int) / (total as int) <= avail) by (nonlinear_arith)
            requires
                desc_want <= total,
                total > 0,
                avail >= 0,
        {
            assert(avail as int * desc_want as int <= avail as int * total as int);
        }
        let d = d32 as u16;
        let lo = if avail < 3 { avail } else { 3 };
        let hi = avail - lo;
        let d = if d < lo { lo } else if d > hi { hi } else { d };
        (d, avail - d)
    };
    DetailHeights { description: desc_h, properties: props_h, subtasks: subs_h, thread: thread_h }
}

/// Whether sizing the detail pane is defined for `c` (see `detail_sizable`).
pub fn detail_is_sizable(c: DetailContent) -> (b: bool)
    ensures
        b == detail_sizable(c),
{
    if (c.property_rows as u16) > 65533 || (c.subtask_rows as u16) > 65533 || (c.description_lines as u16) > 65533
        || (c.thread_lines as u16) > 65533 {
        return false;
    }
    let props: u32 = if c.property_rows > 0 { region(c.property_rows, c.body_height / 3) as u32 } else { 0 };
    let subs: u32 = if c.subtask_rows > 0 { region(c.subtask_rows, c.body_height / 4) as u32 } else { 0 };
    let used: u32 = 4 + props + subs;
    let shared: u32 = if (c.body_height as u32) > used { c.body_height as u32 - used } else { 0 };
    let dw: u32 = if c.show_description {
        let w = (c.description_lines as u16) as u32 + 2;
        if w > 3 { w } else { 3 }
    } else {
        0
    };
    let tw: u32 = {
        let w = (c.thread_lines as u16) as u32 + 2;
        if w > 3 { w } else { 3 }
    };
    assert(shared == shared_height(c));
    if dw + tw > 65535 {
        return false;
    }
    !(c.show_description && dw + tw > shared) || shared == 0 || shared >= 6
}

/// The heights of the detail pane's regions, or nothing where sizing them is
/// not defined for `c`.
pub fn detail_layout_checked(c: DetailContent) -> (r: Option<DetailHeights>)
    ensures
        r is Some <==> detail_sizable(c),
        r matches Some(h) ==> h == detail_heights(c),
{
    if detail_is_sizable(c) {
        Some(detail_layout(c))
    } else {
        None
    }
}

/// Rows of a task title: its wrapped rows, one to three.
pub open spec fn title_rows(lines: usize) -> u16 {
    let l = lines as u16;
    if l < 1 { 1 } else if l > 3 { 3 } else { l }
}

/// Rows of a task title: its wrapped rows, one to three.
pub fn title_height(lines: usize) -> (h: u16)
    ensures
        h == title_rows(lines),
{
    let l = lines as u16;
    if l < 1 { 1 } else if l > 3 { 3 } else { l }
}

/// The stories the conversation shows: all of them, or only comments.
pub open spec fn shown_stories(stories: Seq<Story>, comments_only: bool) -> Seq<Story> {
    stories.filter(|s: Story| !comments_only || s.kind@ == "comment"@)
}

/// Rows of a list of stories wrapped to `width`: per story an author line, its
/// text, and a blank line.
pub open spec fn story_rows(stories: Seq<Story>, width: nat) -> nat
    decreases stories.len(),
{
    if stories.len() == 0 {
        0
    } else {
        story_rows(stories.drop_last(), width) + 1 + wrapped_rows(stories.last().text@, width) + 1
    }
}

/// Rows the conversation occupies (for sizing): one when it shows no story.
pub open spec fn thread_rows(stories: Seq<Story>, comments_only: bool, width: nat) -> nat {
    let shown = shown_stories(stories, comments_only);
    if shown.len() == 0 { 1 } else { story_rows(shown, width) }
}

/// Rows the conversation occupies for the active tab (for sizing).
pub fn thread_line_count(stories: &[Story], comments_only: bool, width: usize) -> (r: usize)
    requires
        thread_rows(stories@, comments_only, width as nat) <= usize::MAX,
    ensures
        r == thread_rows(stories@, comments_only, width as nat),
{
    let ghost pred = |s: Story| !comments_only || s.kind@ == "comment"@;
    let mut total: usize = 0;
    let mut shown: usize = 0;
    let mut i: usize = 0;
    while i < stories.len()
        invariant
            i <= stories@.len(),
            pred == (|s: Story| !comments_only || s.kind@ == "comment"@),
            shown == stories@.take(i as int).filter(pred).len(),
            total == story_rows(stories@.take(i as int).filter(pred), width as nat),
            thread_rows(stories@, comments_only, width as nat) <= usize::MAX,
            total <= story_rows(stories@.filter(pred), width as nat),
        decreases stories@.len() - i,
    {
        let ghost pre = stories@.take(i as int);
        proof {
            assert(stories@.take(i + 1) =~= pre.push(stories@[i as int]));
            pre.lemma_filter_push(stories@[i as int], pred);
            lemma_story_rows_prefix(stories@, pred, width as nat, i + 1);
        }
        if !comments_only || stories[i].is_comment() {
            let rows = wrapped_lines(stories[i].text.as_str(), width);
            proof {
                let f = pre.filter(pred);
                assert(f.push(stories@[i as int]).drop_last() =~= f);
                if stories@.filter(pred).len() == 0 {
                    assert(stories@.take(i + 1).filter(pred).len() > 0);
                    lemma_filter_prefix_len(stories@, pred, i + 1);
                }
            }
            total = total + 1 + rows + 1;
            shown = shown + 1;
        }
        i = i + 1;
    }
    assert(stories@.take(stories@.len() as int) =~= stories@);
    if shown == 0 {
        1
    } else {
        total
    }
}

proof fn lemma_filter_prefix_len(s: Seq<Story>, p: spec_fn(Story) -> bool, k: int)
    requires
        0 <= k <= s.len(),
    ensures
        s.take(k).filter(p).len() <= s.filter(p).len(),
    decreases s.len() - k,
{
    if k < s.len() {
        lemma_filter_prefix_len(s, p, k + 1);
        assert(s.take(k + 1) =~= s.take(k).push(s[k]));
        s.take(k).lemma_filter_push(s[k], p);
    } else {
        assert(s.take(k) =~= s);
    }
}

proof fn lemma_story_rows_prefix(s: Seq<Story>, p: spec_fn(Story) -> bool, width: nat, k: int)
    requires
        0 <= k <= s.len(),
    ensures
        story_rows(s.take(k).filter(p), width) <= story_rows(s.filter(p), width),
    decreases s.len() - k,
{
    if k < s.len() {
        lemma_story_rows_prefix(s, p, width, k + 1);
        assert(s.take(k + 1) =~= s.take(k).push(s[k]));
        s.take(k).lemma_filter_push(s[k], p);
        let f = s.take(k).filter(p);
        assert(f.push(s[k]).drop_last() =~= f);
    } else {
        assert(s.take(k) =~= s);
    }
}

/// The Quit button in the header: six cells, one cell in from the right edge
/// of the header's inner box, when that box is wider than seven cells.
pub fn quit_button(inner: Rect) -> (r: Option<Rect>)
    requires
        inner.x + inner.width <= u16::MAX,
    ensures
        r is Some <==> inner.width > 7,
        r matches Some(b) ==> b == (Rect { x: (inner.x + inner.width - 7) as u16, y: inner.y, width: 6, height: 1 }),
{
    let width: u16 = 6;
    if inner.width > width + 1 {
        Some(Rect { x: inner.x + inner.width - width - 1, y: inner.y, width, height: 1 })
    } else {
        None
    }
}

/// The one-row rectangles of the navigation entries, top down, as many as fit.
pub fn nav_rows(inner: Rect, entries: usize) -> (r: Vec<Rect>)
    requires
        inner.y + inner.height <= u16::MAX,
    ensures
        r@.len() == (if entries < inner.height { entries as int } else { inner.height as int }),
        forall|i: int| 0 <= i < r@.len() ==> #[trigger] r@[i] == (Rect { x: inner.x, y: (inner.y + i) as u16, width: inner.width, height: 1 }),
{
    let mut r: Vec<Rect> = Vec::new();
    let mut row: usize = 0;
    while row < entries
        invariant
            row <= entries,
            row <= inner.height,
            inner.y + inner.height <= u16::MAX,
            r@.len() == row,
            forall|i: int| 0 <= i < r@.len() ==> #[trigger] r@[i] == (Rect { x: inner.x, y: (inner.y + i) as u16, width: inner.width, height: 1 }),
        ensures
            r@.len() == (if entries < inner.height { entries as int } else { inner.height as int }),
            forall|i: int| 0 <= i < r@.len() ==> #[trigger] r@[i] == (Rect { x: inner.x, y: (inner.y + i) as u16, width: inner.width, height: 1 }),
        decreases entries - row,
    {
        let y = inner.y + row as u16;
        if y >= inner.y + inner.height {
            break;
        }
        r.push(Rect { x: inner.x, y, width: inner.width, height: 1 });
        row = row + 1;
    }
    r
}

/// The first row shown of `total` rows scrolled by `scroll`: the scroll
/// offset, but at most the last row.
pub open spec fn first_shown(total: nat, scroll: nat) -> nat {
    let last: nat = if total > 0 { (total - 1) as nat } else { 0 };
    if scroll < last { scroll } else { last }
}

/// The range of rows shown: from the first shown row, as many as are
/// available, not past the end.
pub fn visible_rows(total: usize, scroll: usize, available: usize) -> (r: (usize, usize))
    ensures
        r.0 == first_shown(total as nat, scroll as nat),
        r.1 == (if r.0 + available < total { r.0 + available } else if r.0 < total { total as int } else { r.0 as int }),
{
    let start = if scroll < total.saturating_sub(1) { scroll } else { total.saturating_sub(1) };
    let end = if available < total - start { start + available } else if start < total { total } else { start };
    (start, end)
}

/// The one-column drag handles on the dividers right of each column but the
/// last, spanning the table's height; columns start two cells in.
pub open spec fn handle_x(inner_x: u16, widths: Seq<usize>, i: int) -> int
    decreases i,
{
    if i <= 0 {
        inner_x + 2 + widths[0]
    } else {
        handle_x(inner_x, widths, i - 1) + 1 + widths[i]
    }
}

/// Where the column dividers of the table are: right of each column but the
/// last, with one divider cell between columns.
pub fn resize_handles(inner: Rect, widths: &[usize]) -> (r: Vec<Rect>)
    requires
        widths@.len() > 0 ==> handle_x(inner.x, widths@, widths@.len() - 1) <= u16::MAX,
    ensures
        r@.len() == (if widths@.len() > 0 { widths@.len() - 1 } else { 0 }),
        forall|i: int| 0 <= i < r@.len() ==> #[trigger] r@[i] == (Rect {
            x: handle_x(inner.x, widths@, i) as u16,
            y: inner.y,
            width: 1,
            height: inner.height,
        }),
{
    let mut r: Vec<Rect> = Vec::new();
    if widths.len() == 0 {
        return r;
    }
    proof {
        lemma_handle_x_monotone(inner.x, widths@, widths@.len() - 1);
    }
    let mut x: u16 = inner.x + 2 + widths[0] as u16;
    let mut i: usize = 0;
    while i < widths.len() - 1
        invariant
            0 < widths@.len(),
            i < widths@.len(),
            x == handle_x(inner.x, widths@, i as int),
            handle_x(inner.x, widths@, widths@.len() - 1) <= u16::MAX,
            forall|k: int| 0 <= k < widths@.len() ==> #[trigger] handle_x(inner.x, widths@, k) <= handle_x(inner.x, widths@, widths@.len() - 1),
            r@.len() == i,
            forall|k: int| 0 <= k < r@.len() ==> #[trigger] r@[k] == (Rect {
                x: handle_x(inner.x, widths@, k) as u16,
                y: inner.y,
                width: 1,
                height: inner.height,
            }),
        decreases widths@.len() - i,
    {
        r.push(Rect { x, y: inner.y, width: 1, height: inner.height });
        assert(handle_x(inner.x, widths@, i + 1) <= u16::MAX);
        x = x + 1 + widths[i + 1] as u16;
        i = i + 1;
    }
    r
}

proof fn lemma_handle_x_monotone(inner_x: u16, widths: Seq<usize>, n: int)
    requires
        0 <= n < widths.len(),
    ensures
        forall|k: int| 0 <= k <= n ==> #[trigger] handle_x(inner_x, widths, k) <= handle_x(inner_x, widths, n),
        handle_x(inner_x, widths, 0) >= inner_x + 2 + widths[0],
    decreases n,
{
    if n > 0 {
        lemma_handle_x_monotone(inner_x, widths, n - 1);
    }
}

/// The mark left of a task row: `≡` while the row is being dragged, else `✔`
/// for a completed task and `○` for an open one.
pub fn task_mark(grabbed: bool, completed: bool) -> (c: char)
    ensures
        c == (if grabbed { '\u{2261}' } else if completed { '\u{2714}' } else { '\u{25cb}' }),
{
    if grabbed {
        '\u{2261}'
    } else if completed {
        '\u{2714}'
    } else {
        '\u{25cb}'
    }
}

/// Left edge of cell `i` of a task row: two cells in, then each column's
/// width plus one divider cell.
pub open spec fn cell_x(row_x: u16, widths: Seq<usize>, i: int) -> int
    decreases i,
{
    if i <= 0 {
        row_x + 2
    } else {
        cell_x(row_x, widths, i - 1) + widths[i - 1] + 1
    }
}

/// The clickable link cells of a task row: for each cell whose value is a web
/// link, the cell's extent clipped at the row's right edge (none when nothing
/// is left), paired with the cell's index.
pub open spec fn is_link_cells(cells: Seq<(usize, Rect)>, row: Rect, widths: Seq<usize>, links: Seq<bool>) -> bool {
    &&& forall|k: int| 0 <= k < cells.len() ==> {
        let (i, r) = #[trigger] cells[k];
        let x = cell_x(row.x, widths, i as int);
        let right = sat_add_int(row.x, row.width);
        &&& 0 <= i < widths.len()
        &&& links[i as int]
        &&& r == (Rect { x: x as u16, y: row.y, width: min_int(widths[i as int] as int, right - x) as u16, height: 1 })
        &&& r.width > 0
    }
    &&& forall|i: int| 0 <= i < widths.len() && links[i] && min_int(widths[i] as int, sat_add_int(row.x, row.width) - cell_x(row.x, widths, i)) > 0
        ==> exists|k: int| 0 <= k < cells.len() && (#[trigger] cells[k]).0 == i
    &&& forall|a: int, b: int| 0 <= a < b < cells.len() ==> (#[trigger] cells[a]).0 < (#[trigger] cells[b]).0
}

/// `a + b` held at `u16::MAX`, as an integer.
pub open spec fn sat_add_int(a: u16, b: u16) -> int {
    if a + b > u16::MAX { u16::MAX as int } else { a + b }
}

/// The smaller of two integers, not below zero.
pub open spec fn min_int(a: int, b: int) -> int {
    let m = if a < b { a } else { b };
    if m < 0 { 0 } else { m }
}

proof fn lemma_cell_x_step(row_x: u16, widths: Seq<usize>, i: int)
    requires
        0 <= i,
    ensures
        cell_x(row_x, widths, i + 1) == cell_x(row_x, widths, i) + widths[i] + 1,
{
}

/// Where the link cells of a task row are. `links[i]` says whether cell `i`
/// holds a web link.
pub fn link_cells(row: Rect, widths: &[usize], links: &[bool]) -> (r: Vec<(usize, Rect)>)
    requires
        widths@.len() == links@.len(),
        cell_x(row.x, widths@, widths@.len() as int) <= u16::MAX,
    ensures
        is_link_cells(r@, row, widths@, links@),
{
    let ghost ws = widths@;
    let right = row.right();
    let mut r: Vec<(usize, Rect)> = Vec::new();
    proof {
        lemma_cell_x_bound(row.x, ws, 0, ws.len() as int);
        assert(cell_x(row.x, ws, 0) == row.x + 2);
    }
    let mut x: u16 = row.x + 2;
    let mut i: usize = 0;
    while i < widths.len()
        invariant
            i <= ws.len() == links@.len(),
            ws == widths@,
            right == sat_add_int(row.x, row.width),
            x == cell_x(row.x, ws, i as int),
            cell_x(row.x, ws, ws.len() as int) <= u16::MAX,
            forall|k: int| 0 <= k < r@.len() ==> {
                let (j, c) = #[trigger] r@[k];
                let cx = cell_x(row.x, ws, j as int);
                &&& 0 <= j < i
                &&& links@[j as int]
                &&& c == (Rect { x: cx as u16, y: row.y, width: min_int(ws[j as int] as int, right - cx) as u16, height: 1 })
                &&& c.width > 0
            },
            forall|j: int| 0 <= j < i && links@[j] && min_int(ws[j] as int, sat_add_int(row.x, row.width) - cell_x(row.x, ws, j)) > 0
                ==> exists|k: int| 0 <= k < r@.len() && (#[trigger] r@[k]).0 == j,
            forall|a: int, b: int| 0 <= a < b < r@.len() ==> (#[trigger] r@[a]).0 < (#[trigger] r@[b]).0,
        decreases ws.len() - i,
    {
        proof {
            lemma_cell_x_step(row.x, ws, i as int);
            lemma_cell_x_bound(row.x, ws, i + 1, ws.len() as int);
        }
        if links[i] {
            let room = right.saturating_sub(x);
            let w: u16 = if (widths[i] as u64) < (room as u64) { widths[i] as u16 } else { room };
            if w > 0 {
                let ghost before = r@;
                r.push((i, Rect { x, y: row.y, width: w, height: 1 }));
                proof {
                    assert forall|j: int| 0 <= j < i + 1 && links@[j] && min_int(ws[j] as int, sat_add_int(row.x, row.width) - cell_x(row.x, ws, j)) > 0
                        implies exists|k: int| 0 <= k < r@.len() && (#[trigger] r@[k]).0 == j by {
                        if j == i {
                            assert(r@[before.len() as int].0 == j);
                        } else {
                            let k = choose|k: int| 0 <= k < before.len() && (#[trigger] before[k]).0 == j;
                            assert(r@[k].0 == j);
                        }
                    }
                }
            }
        }
        x = x + widths[i] as u16 + 1;
        i = i + 1;
    }
    r
}

proof fn lemma_cell_x_bound(row_x: u16, widths: Seq<usize>, i: int, n: int)
    requires
        0 <= i <= n,
    ensures
        cell_x(row_x, widths, i) <= cell_x(row_x, widths, n),
    decreases n - i,
{
    if i < n {
        lemma_cell_x_bound(row_x, widths, i + 1, n);
        lemma_cell_x_step(row_x, widths, i);
    }
}

} // verus!
