//! The framed picture of a text, and where it stands on the screen.
use vstd::prelude::*;
use crate::text::lines_of;

verus! {

/// Blank columns between the frame's side and the text.
pub const X_PADDING: usize = 3;

/// Blank rows between the frame's top or bottom and the text.
pub const Y_PADDING: usize = 1;

/// A line as displayed: its characters and one trailing blank.
pub open spec fn padded(line: Seq<char>) -> Seq<char> {
    line.push(' ')
}

/// The display lines of a text: each line padded, or a single blank for the
/// empty text.
pub open spec fn display_rows(s: Seq<char>) -> Seq<Seq<char>> {
    if s.len() == 0 {
        seq![seq![' ']]
    } else {
        lines_of(s).map_values(|l: Seq<char>| padded(l))
    }
}

/// Length of the longest of `rows`, 0 when there are none.
pub open spec fn max_width(rows: Seq<Seq<char>>) -> nat
    decreases rows.len(),
{
    if rows.len() == 0 {
        0
    } else {
        let w = max_width(rows.drop_last());
        if rows.last().len() > w {
            rows.last().len()
        } else {
            w
        }
    }
}

/// The label shown above the frame.
pub open spec fn label_of(name: Option<Vec<char>>) -> Seq<char> {
    match name {
        Some(n) => n@,
        None => seq!['<', 'n', 'o', ' ', 'n', 'a', 'm', 'e', '>'],
    }
}

/// `n` copies of `c`.
pub open spec fn repeat(c: char, n: int) -> Seq<char> {
    Seq::new(n as nat, |i: int| c)
}

/// A border row of a frame whose text area is `w` wide.
pub open spec fn edge_row(left: char, fill: char, right: char, w: int) -> Seq<char> {
    seq![left] + repeat(fill, w + 2 * X_PADDING) + seq![right]
}

/// A text row of a frame whose text area is `w` wide.
pub open spec fn text_row(line: Seq<char>, w: int) -> Seq<char> {
    seq!['│'] + repeat(' ', X_PADDING as int) + line + repeat(' ', w - line.len()) + repeat(
        ' ',
        X_PADDING as int,
    ) + seq!['│']
}

/// Width of the text area of a frame around lines at most `x_size` wide,
/// under the label of `name`.
pub open spec fn inner_width(x_size: int, name: Option<Vec<char>>) -> int {
    if x_size >= label_of(name).len() {
        x_size
    } else {
        label_of(name).len() as int
    }
}

/// The rows of the frame around `lines`, top to bottom.
pub open spec fn framed(lines: Seq<Seq<char>>, w: int) -> Seq<Seq<char>> {
    let pad = edge_row('│', ' ', '│', w);
    let pads = Seq::new(Y_PADDING as nat, |i: int| pad);
    let texts = lines.map_values(|l: Seq<char>| text_row(l, w));
    let top = edge_row('┌', '─', '┐', w);
    let bottom = edge_row('└', '─', '┘', w);
    seq![top] + pads + texts + pads + seq![bottom]
}

/// Where the parts of the picture go on a terminal of `cols` by `rows` cells.
pub struct Placement {
    /// Column and row of the frame's top left corner.
    pub frame_x: usize,
    pub frame_y: usize,
    /// Column and row of the label, just above the frame.
    pub label_x: usize,
    pub label_y: usize,
    /// Column and row of the terminal cursor.
    pub cursor_x: usize,
    pub cursor_y: usize,
}

/// `a - b`, or 0 where `b` is larger.
pub open spec fn sat_sub(a: int, b: int) -> int {
    if a >= b {
        a - b
    } else {
        0
    }
}

/// `a + b`, or `usize::MAX` where the sum is larger.
pub open spec fn sat_add(a: int, b: int) -> int {
    if a + b > usize::MAX {
        usize::MAX as int
    } else {
        a + b
    }
}

/// Pushes `n` copies of `c` onto `v`.
fn push_repeat(v: &mut Vec<char>, c: char, n: usize)
    ensures
        final(v)@ == old(v)@ + repeat(c, n as int),
{
    let mut i: usize = 0;
    while i < n
        invariant
            i <= n,
            v@ == old(v)@ + repeat(c, i as int),
        decreases n - i,
    {
        v.push(c);
        i += 1;
        assert(v@ =~= old(v)@ + repeat(c, i as int));
    }
}

/// Pushes the characters of `w` onto `v`.
fn push_all(v: &mut Vec<char>, w: &Vec<char>)
    ensures
        final(v)@ == old(v)@ + w@,
{
    let mut i: usize = 0;
    while i < w.len()
        invariant
            i <= w@.len(),
            v@ == old(v)@ + w@.subrange(0, i as int),
        decreases w@.len() - i,
    {
        v.push(w[i]);
        i += 1;
        assert(v@ =~= old(v)@ + w@.subrange(0, i as int));
    }
    assert(w@.subrange(0, w@.len() as int) =~= w@);
}

/// A copy of `v`.
fn copy_line(v: &Vec<char>) -> (r: Vec<char>)
    ensures
        r@ == v@,
{
    let r = v.clone();
    assert(r@ =~= v@);
    r
}

/// The label shown above the frame: the file name, or `<no name>`.
pub fn get_name(maybe_name: Option<Vec<char>>) -> (r: Vec<char>)
    ensures
        r@ == label_of(maybe_name),
{
    match maybe_name {
        Some(n) => n,
        None => {
            let r = vec!['<', 'n', 'o', ' ', 'n', 'a', 'm', 'e', '>'];
            assert(r@ =~= label_of(None));
            r
        },
    }
}

/// The views of a vector of lines.
pub open spec fn rows_view(v: Seq<Vec<char>>) -> Seq<Seq<char>> {
    v.map_values(|l: Vec<char>| l@)
}

/// The display lines of `input`, with the length of the longest and their
/// number.
pub fn make_input(input: &Vec<char>) -> (r: (Vec<Vec<char>>, usize, usize))
    ensures
        rows_view(r.0@) == display_rows(input@),
        r.1 == max_width(display_rows(input@)),
        r.2 == display_rows(input@).len(),
        forall|i: int| 0 <= i < r.0@.len() ==> r.0@[i]@.len() <= r.1,
{
    if input.len() == 0 {
        let r = vec![vec![' ']];
        assert(r@[0]@ =~= seq![' ']);
        assert(rows_view(r@) =~= display_rows(input@));
        assert(max_width(display_rows(input@)) == 1) by {
            assert(display_rows(input@).drop_last() =~= Seq::<Seq<char>>::empty());
            assert(max_width(Seq::<Seq<char>>::empty()) == 0);
            assert(display_rows(input@).last().len() == 1);
        }
        return (r, 1, 1);
    }
    let ghost s = input@;
    let mut rows: Vec<Vec<char>> = Vec::new();
    let mut cur: Vec<char> = Vec::new();
    let mut width: usize = 0;
    let mut i: usize = 0;
    proof {
        assert(s.subrange(0, 0) =~= Seq::<char>::empty());
    }
    while i < input.len()
        invariant
            s == input@,
            i <= s.len(),
            lines_of(s.subrange(0, i as int)).len() >= 1,
            rows_view(rows@) == lines_of(s.subrange(0, i as int)).drop_last().map_values(
                |l: Seq<char>| padded(l),
            ),
            cur@ == lines_of(s.subrange(0, i as int)).last(),
            width == max_width(rows_view(rows@)),
            forall|j: int| 0 <= j < rows@.len() ==> rows@[j]@.len() <= width,
        decreases s.len() - i,
    {
        let ghost before = lines_of(s.subrange(0, i as int));
        let ghost old_rows = rows_view(rows@);
        let c = input[i];
        assert(s.subrange(0, i + 1).drop_last() =~= s.subrange(0, i as int));
        if c == '\n' {
            cur.push(' ');
            if cur.len() > width {
                width = cur.len();
            }
            let ghost line = cur@;
            rows.push(cur);
            cur = Vec::new();
            assert(rows_view(rows@).drop_last() =~= old_rows);
            assert(line == padded(before.last()));
            assert(before =~= before.drop_last().push(before.last()));
            assert(lines_of(s.subrange(0, i + 1)) == before.push(Seq::<char>::empty()));
            assert(before.push(Seq::<char>::empty()).drop_last() =~= before);
            assert(rows_view(rows@) =~= old_rows.push(line));
            assert(before.map_values(|l: Seq<char>| padded(l)) =~= before.drop_last().map_values(
                |l: Seq<char>| padded(l),
            ).push(padded(before.last())));
        } else {
            cur.push(c);
            assert(lines_of(s.subrange(0, i + 1)).drop_last() =~= before.drop_last());
        }
        i += 1;
    }
    let ghost before = lines_of(s.subrange(0, i as int));
    let ghost old_rows = rows_view(rows@);
    assert(s.subrange(0, i as int) =~= s);
    cur.push(' ');
    if cur.len() > width {
        width = cur.len();
    }
    let ghost line = cur@;
    rows.push(cur);
    assert(rows_view(rows@).drop_last() =~= old_rows);
    assert(rows_view(rows@) =~= old_rows.push(line));
    assert(before =~= before.drop_last().push(before.last()));
    assert(before.map_values(|l: Seq<char>| padded(l)) =~= before.drop_last().map_values(
        |l: Seq<char>| padded(l),
    ).push(padded(before.last())));
    assert(rows_view(rows@) =~= display_rows(s));
    let n = rows.len();
    (rows, width, n)
}

/// A border row: `left`, `w + 2 * X_PADDING` copies of `fill`, `right`.
fn edge_line(left: char, fill: char, right: char, w: usize) -> (r: Vec<char>)
    requires
        w + 2 * X_PADDING <= usize::MAX,
    ensures
        r@ == edge_row(left, fill, right, w as int),
{
    let mut r = vec![left];
    push_repeat(&mut r, fill, w + 2 * X_PADDING);
    r.push(right);
    assert(r@ =~= edge_row(left, fill, right, w as int));
    r
}

/// The rows of the frame around `input`, with its outer width and height.
/// The text area is as wide as the wider of `x_size` and the label of
/// `name`.
pub fn frame_buffer(input: &Vec<Vec<char>>, x_size: usize, name: Option<Vec<char>>) -> (r: (
    Vec<Vec<char>>,
    usize,
    usize,
))
    requires
        forall|i: int|
            0 <= i < input@.len() ==> input@[i]@.len() <= inner_width(x_size as int, name),
        inner_width(x_size as int, name) + 2 * X_PADDING + 2 <= usize::MAX,
    ensures
        rows_view(r.0@) == framed(rows_view(input@), inner_width(x_size as int, name)),
        r.1 == inner_width(x_size as int, name) + 2 * X_PADDING + 2,
        r.2 == input@.len() + 2 * Y_PADDING + 2,
{
    let ghost w0 = inner_width(x_size as int, name);
    let name_line = get_name(name);
    let x_size = if x_size >= name_line.len() {
        x_size
    } else {
        name_line.len()
    };
    assert(x_size == w0);
    let top_line = edge_line('┌', '─', '┐', x_size);
    let pad_line = edge_line('│', ' ', '│', x_size);
    let bottom_line = edge_line('└', '─', '┘', x_size);
    let ghost pad = pad_line@;
    let ghost texts = rows_view(input@).map_values(|l: Seq<char>| text_row(l, w0));

    let mut lines: Vec<Vec<char>> = Vec::new();
    let mut k: usize = 0;
    while k < input.len()
        invariant
            k <= input@.len(),
            x_size == w0,
            x_size + 2 * X_PADDING + 2 <= usize::MAX,
            forall|i: int| 0 <= i < input@.len() ==> input@[i]@.len() <= w0,
            texts == rows_view(input@).map_values(|l: Seq<char>| text_row(l, w0)),
            rows_view(lines@) == texts.subrange(0, k as int),
        decreases input@.len() - k,
    {
        let e = &input[k];
        let mut row = vec!['│'];
        push_repeat(&mut row, ' ', X_PADDING);
        push_all(&mut row, e);
        push_repeat(&mut row, ' ', x_size - e.len());
        push_repeat(&mut row, ' ', X_PADDING);
        row.push('│');
        assert(row@ =~= text_row(e@, w0));
        let ghost prev = rows_view(lines@);
        lines.push(row);
        assert(rows_view(lines@) =~= prev.push(text_row(e@, w0)));
        assert(texts[k as int] == text_row(e@, w0));
        k += 1;
        assert(rows_view(lines@) =~= texts.subrange(0, k as int));
    }
    assert(texts.subrange(0, k as int) =~= texts);

    let mut res = vec![top_line];
    let mut j: usize = 0;
    while j < Y_PADDING
        invariant
            j <= Y_PADDING,
            pad_line@ == pad,
            rows_view(res@) == seq![edge_row('┌', '─', '┐', w0)] + Seq::new(
                j as nat,
                |i: int| pad,
            ),
        decreases Y_PADDING - j,
    {
        res.push(copy_line(&pad_line));
        j += 1;
        assert(rows_view(res@) =~= seq![edge_row('┌', '─', '┐', w0)] + Seq::new(
            j as nat,
            |i: int| pad,
        ));
    }
    let ghost head = rows_view(res@);
    let mut t: usize = 0;
    while t < lines.len()
        invariant
            t <= lines@.len(),
            rows_view(lines@) == texts,
            rows_view(res@) == head + texts.subrange(0, t as int),
        decreases lines@.len() - t,
    {
        let ghost prev = rows_view(res@);
        res.push(copy_line(&lines[t]));
        assert(rows_view(res@) =~= prev.push(texts[t as int]));
        t += 1;
        assert(rows_view(res@) =~= head + texts.subrange(0, t as int));
    }
    assert(texts.subrange(0, t as int) =~= texts);
    let ghost body = rows_view(res@);
    let mut j: usize = 0;
    while j < Y_PADDING
        invariant
            j <= Y_PADDING,
            pad_line@ == pad,
            rows_view(res@) == body + Seq::new(j as nat, |i: int| pad),
        decreases Y_PADDING - j,
    {
        res.push(copy_line(&pad_line));
        j += 1;
        assert(rows_view(res@) =~= body + Seq::new(j as nat, |i: int| pad));
    }
    let ghost almost = rows_view(res@);
    res.push(bottom_line);
    assert(rows_view(res@) =~= almost.push(edge_row('└', '─', '┘', w0)));
    assert(rows_view(res@) =~= framed(rows_view(input@), w0));
    let n = res.len();
    (res, x_size + 2 + X_PADDING * 2, n)
}

/// Where the picture of a frame `frame_width` by `frame_height` goes on a
/// terminal of `term_cols` by `term_rows` cells, with the text cursor at
/// `col`, `row` of the text. The frame is centred, truncating, and stops at
/// the top left edge where it does not fit.
pub fn place_on_screen(
    term_cols: u16,
    term_rows: u16,
    frame_width: usize,
    frame_height: usize,
    col: usize,
    row: usize,
) -> (r: Placement)
    ensures
        r.frame_x == sat_sub((term_cols / 2) as int, (frame_width / 2) as int),
        r.frame_y == sat_sub((term_rows / 2) as int, (frame_height / 2) as int),
        r.label_x == r.frame_x,
        r.label_y == sat_sub(r.frame_y as int, 1),
        r.cursor_x == sat_add(r.frame_x + X_PADDING + 1, col as int),
        r.cursor_y == sat_add(r.frame_y + Y_PADDING + 1, row as int),
{
    let frame_x = ((term_cols / 2) as usize).saturating_sub(frame_width / 2);
    let frame_y = ((term_rows / 2) as usize).saturating_sub(frame_height / 2);
    Placement {
        frame_x,
        frame_y,
        label_x: frame_x,
        label_y: frame_y.saturating_sub(1),
        cursor_x: (frame_x + X_PADDING + 1).saturating_add(col),
        cursor_y: (frame_y + Y_PADDING + 1).saturating_add(row),
    }
}

} // verus!
