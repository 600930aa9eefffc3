//! Screen layout and display text computed for the drawing code.

use vstd::prelude::*;
use vstd::string::StringSliceAdditionalSpecFns;
use vstd::utf8::{decode_utf8, is_char_boundary};

verus! {

/// Height of the screen in pixels.
pub const SCREEN_H: i16 = 536;

/// Height of the footer bar in pixels.
pub const FOOTER_H: i16 = 46;

/// Height of one line of text in pixels.
pub const LINE_H: i16 = 22;

/// The lowest top edge at which another wrapped line may still be drawn.
pub open spec fn wrap_limit() -> int {
    SCREEN_H - FOOTER_H - LINE_H
}

/// The strength rating shown for an entropy estimate in bits.
pub open spec fn spec_strength_label(entropy: u32) -> &'static str {
    if entropy >= 128 {
        "EXCELLENT (128+ bits)"
    } else if entropy >= 80 {
        "STRONG (80+ bits)"
    } else if entropy >= 60 {
        "GOOD (60+ bits)"
    } else if entropy >= 40 {
        "MODERATE (40+ bits)"
    } else {
        "WEAK (< 40 bits)"
    }
}

/// The strength rating for an entropy estimate: EXCELLENT from 128 bits,
/// STRONG from 80, GOOD from 60, MODERATE from 40, WEAK below.
#[verifier::when_used_as_spec(spec_strength_label)]
pub fn strength_label(entropy: u32) -> (r: &'static str)
    ensures
        r == spec_strength_label(entropy),
{
    if entropy >= 128 {
        "EXCELLENT (128+ bits)"
    } else if entropy >= 80 {
        "STRONG (80+ bits)"
    } else if entropy >= 60 {
        "GOOD (60+ bits)"
    } else if entropy >= 40 {
        "MODERATE (40+ bits)"
    } else {
        "WEAK (< 40 bits)"
    }
}

/// Law: the strength bands: below 40 bits WEAK, from 40 MODERATE, from 60
/// GOOD, from 80 STRONG, from 128 EXCELLENT; a higher figure never rates
/// lower.
pub proof fn lemma_strength_bands(entropy: u32)
    ensures
        entropy < 40 ==> spec_strength_label(entropy) == "WEAK (< 40 bits)",
        40 <= entropy < 60 ==> spec_strength_label(entropy) == "MODERATE (40+ bits)",
        60 <= entropy < 80 ==> spec_strength_label(entropy) == "GOOD (60+ bits)",
        80 <= entropy < 128 ==> spec_strength_label(entropy) == "STRONG (80+ bits)",
        128 <= entropy ==> spec_strength_label(entropy) == "EXCELLENT (128+ bits)",
{
}

/// The lines of a wrapped text from character `pos` on, when the previous
/// line was drawn at `y`: consecutive runs of at most `max_chars`
/// characters, each one line further down, stopping when the text ends or
/// a line has been drawn below the limit. Also the position under the
/// last line.
pub open spec fn spec_wrap(pos: int, len: int, max_chars: int, y: int) -> (Seq<(int, int)>, int)
    decreases (if y > wrap_limit() { 0 } else { wrap_limit() + 1 - y }),
{
    if pos >= len {
        (Seq::empty(), y)
    } else {
        let end = if max_chars >= len - pos { len } else { pos + max_chars };
        let next_y = y + LINE_H;
        if next_y > wrap_limit() {
            (seq![(pos, end)], next_y)
        } else {
            let (rest, last_y) = spec_wrap(end, len, max_chars, next_y);
            (seq![(pos, end)] + rest, last_y)
        }
    }
}

/// Law: wrapped lines cover the text from `pos` on in consecutive runs,
/// each the next `max_chars` characters or the rest of the text if
/// shorter; every line moves down by 22 pixels, and lines stop only at the
/// end of the text or once a line moved below the footer limit (468).
pub proof fn lemma_wrap_runs(pos: int, len: int, max_chars: int, y: int)
    requires
        0 <= pos,
        0 <= max_chars,
    ensures
        ({
            let (lines, end_y) = spec_wrap(pos, len, max_chars, y);
            &&& end_y == y + 22 * lines.len()
            &&& (pos < len <==> lines.len() > 0)
            &&& lines.len() > 0 ==> lines[0].0 == pos
            &&& forall|i: int| 0 <= i < lines.len() ==> {
                &&& #[trigger] lines[i].0 < len
                &&& lines[i].1 == if len - lines[i].0 <= max_chars { len } else { lines[i].0 + max_chars }
            }
            &&& forall|i: int| 0 <= i < lines.len() - 1 ==> #[trigger] lines[i + 1].0 == lines[i].1
                && y + 22 * (i + 1) <= 468
            &&& lines.len() > 0 ==> lines.last().1 == len || end_y > 468
        }),
    decreases (if y > wrap_limit() { 0 } else { wrap_limit() + 1 - y }),
{
    if pos < len {
        let end = if max_chars >= len - pos { len } else { pos + max_chars };
        let next_y = y + LINE_H;
        if next_y <= wrap_limit() {
            lemma_wrap_runs(end, len, max_chars, next_y);
            let (rest, last_y) = spec_wrap(end, len, max_chars, next_y);
            let lines = spec_wrap(pos, len, max_chars, y).0;
            assert(lines == seq![(pos, end)] + rest);
            assert forall|i: int| 0 <= i < lines.len() implies {
                &&& #[trigger] lines[i].0 < len
                &&& lines[i].1 == if len - lines[i].0 <= max_chars { len } else { lines[i].0 + max_chars }
            } by {
                if i > 0 {
                    assert(lines[i] == rest[i - 1]);
                }
            }
            assert forall|i: int| 0 <= i < lines.len() - 1 implies #[trigger] lines[i + 1].0 == lines[i].1
                && y + 22 * (i + 1) <= 468 by {
                assert(lines[i + 1] == rest[i]);
                if i > 0 {
                    assert(lines[i] == rest[i - 1]);
                    assert(rest[(i - 1) + 1].0 == rest[i - 1].1 && next_y + 22 * ((i - 1) + 1) <= 468);
                } else {
                    assert(rest[0].0 == end);
                }
            }
            if end < len {
                assert(rest.len() > 0);
                assert(lines.last() == rest.last());
            } else {
                assert(rest.len() == 0);
            }
        }
    }
}

/// Splits a text of `char_count` characters into lines of at most
/// `max_chars` characters, starting at height `y`, as character ranges
/// `(start, end)`; also returns the height under the last line drawn.
/// Lines stop once one has been placed below the footer limit.
pub fn wrap_lines(char_count: usize, max_chars: usize, y: i16) -> (r: (Vec<(usize, usize)>, i16))
    requires
        char_count > 0 ==> y + LINE_H <= i16::MAX,
    ensures
        r.0@.map_values(|p: (usize, usize)| (p.0 as int, p.1 as int)) == spec_wrap(0, char_count as int, max_chars as int, y as int).0,
        r.1 as int == spec_wrap(0, char_count as int, max_chars as int, y as int).1,
{
    let mut lines: Vec<(usize, usize)> = Vec::new();
    let mut cy = y;
    let mut pos: usize = 0;
    let ghost first = true;
    while pos < char_count
        invariant
            pos <= char_count,
            char_count > 0 ==> y + LINE_H <= i16::MAX,
            first ==> pos == 0 && cy == y,
            !first ==> cy <= wrap_limit(),
            ({
                let total = spec_wrap(0, char_count as int, max_chars as int, y as int);
                let here = spec_wrap(pos as int, char_count as int, max_chars as int, cy as int);
                &&& total.0 == lines@.map_values(|p: (usize, usize)| (p.0 as int, p.1 as int)) + here.0
                &&& total.1 == here.1
            }),
        decreases (if cy > wrap_limit() { 0 } else { wrap_limit() + 1 - cy }), char_count - pos,
    {
        let end = if max_chars >= char_count - pos {
            char_count
        } else {
            pos + max_chars
        };
        let ghost here = spec_wrap(pos as int, char_count as int, max_chars as int, cy as int);
        let ghost old_lines = lines@;
        lines.push((pos, end));
        cy = cy + LINE_H;
        pos = end;
        proof {
            first = false;
            assert(lines@.map_values(|p: (usize, usize)| (p.0 as int, p.1 as int)) =~= old_lines.map_values(|p: (usize, usize)| (p.0 as int, p.1 as int)).push((here.0[0].0, here.0[0].1)));
        }
        if cy > SCREEN_H - FOOTER_H - LINE_H {
            proof {
                assert(here.0 =~= seq![here.0[0]]);
            }
            return (lines, cy);
        }
        proof {
            let rest = spec_wrap(pos as int, char_count as int, max_chars as int, cy as int);
            assert(here.0 =~= seq![here.0[0]] + rest.0);
        }
    }
    (lines, cy)
}

/// Height taken by a saved-key row: one line plus a gap, and for the
/// selected row also its detail line.
pub open spec fn row_height(selected: bool) -> int {
    if selected { 2 * LINE_H + 6 } else { LINE_H + 4 }
}

/// The tops of the saved-key rows from row `i` on, the first at `y`:
/// rows follow each other until the list ends or a row reaches below the
/// footer limit (that row is still drawn).
pub open spec fn spec_saved_rows(i: int, count: int, cursor: int, y: int) -> Seq<int>
    decreases count - i,
{
    if i >= count {
        Seq::empty()
    } else {
        let next = y + row_height(i == cursor);
        if next > wrap_limit() {
            seq![y]
        } else {
            seq![y] + spec_saved_rows(i + 1, count, cursor, next)
        }
    }
}

/// Law: saved-key rows start at `y` and follow each other 26 pixels apart,
/// 50 after the selected row (which also shows its detail line); at most
/// one row per key, and rows stop only at the end of the list or after
/// the first row that reaches below the footer limit (468).
pub proof fn lemma_saved_rows_spacing(i: int, count: int, cursor: int, y: int)
    requires
        0 <= i,
    ensures
        ({
            let rows = spec_saved_rows(i, count, cursor, y);
            let step = |k: int| if i + k == cursor { 50int } else { 26int };
            &&& rows.len() <= if count > i { count - i } else { 0 }
            &&& (i < count <==> rows.len() > 0)
            &&& rows.len() > 0 ==> rows[0] == y
            &&& forall|k: int| 0 <= k < rows.len() - 1 ==> #[trigger] rows[k + 1] == rows[k] + step(k)
                && rows[k + 1] <= 468
            &&& 0 < rows.len() < count - i ==> rows.last() + step(rows.len() - 1) > 468
        }),
    decreases count - i,
{
    if i < count {
        let next = y + row_height(i == cursor);
        if next <= wrap_limit() {
            lemma_saved_rows_spacing(i + 1, count, cursor, next);
            let rest = spec_saved_rows(i + 1, count, cursor, next);
            let rows = spec_saved_rows(i, count, cursor, y);
            assert(rows == seq![y] + rest);
            let step = |k: int| if i + k == cursor { 50int } else { 26int };
            let step1 = |k: int| if i + 1 + k == cursor { 50int } else { 26int };
            assert forall|k: int| 0 <= k < rows.len() - 1 implies #[trigger] rows[k + 1] == rows[k] + step(k)
                && rows[k + 1] <= 468 by {
                assert(rows[k + 1] == rest[k]);
                if k > 0 {
                    assert(rows[k] == rest[k - 1]);
                    assert(step(k) == step1(k - 1));
                    assert(rest[(k - 1) + 1] == rest[k - 1] + step1(k - 1) && rest[(k - 1) + 1] <= 468);
                } else {
                    assert(rest[0] == next);
                }
            }
            if 0 < rows.len() < count - i {
                assert(rows.last() == rest.last());
                assert(step(rows.len() - 1) == step1(rest.len() - 1));
            }
        }
    }
}

/// The top of each saved-key row that fits on the screen, for a list of
/// `count` keys with the selection at `cursor` and the first row at `y`.
pub fn saved_rows(count: usize, cursor: usize, y: i16) -> (r: Vec<i16>)
    requires
        count > 0 ==> y + 2 * LINE_H + 6 <= i16::MAX,
    ensures
        r@.map_values(|v: i16| v as int) == spec_saved_rows(0, count as int, cursor as int, y as int),
{
    let mut rows: Vec<i16> = Vec::new();
    let mut cy = y;
    let mut i: usize = 0;
    while i < count
        invariant
            i <= count,
            count > 0 ==> y + 2 * LINE_H + 6 <= i16::MAX,
            i == 0 ==> cy == y,
            i > 0 ==> cy <= wrap_limit(),
            spec_saved_rows(0, count as int, cursor as int, y as int) == rows@.map_values(|v: i16| v as int)
                + spec_saved_rows(i as int, count as int, cursor as int, cy as int),
        decreases count - i,
    {
        let ghost here = spec_saved_rows(i as int, count as int, cursor as int, cy as int);
        let ghost old_rows = rows@;
        rows.push(cy);
        let step: i16 = if i == cursor { 2 * LINE_H + 6 } else { LINE_H + 4 };
        cy = cy + step;
        i = i + 1;
        proof {
            assert(rows@.map_values(|v: i16| v as int) =~= old_rows.map_values(|v: i16| v as int).push(here[0]));
        }
        if cy > SCREEN_H - FOOTER_H - LINE_H {
            assert(here =~= seq![here[0]]);
            return rows;
        }
        assert(here =~= seq![here[0]] + spec_saved_rows(i as int, count as int, cursor as int, cy as int));
    }
    rows
}

/// The short form of a saved key shown in the list: the first 20 bytes
/// followed by `...` when the value is longer than 20 bytes, else the
/// whole value.
pub fn preview(value: &str) -> (r: String)
    requires
        value.spec_bytes().len() > 20 ==> is_char_boundary(value.spec_bytes(), 20),
    ensures
        value.spec_bytes().len() <= 20 ==> r@ == value@,
        value.spec_bytes().len() > 20 ==> r@ == decode_utf8(value.spec_bytes().subrange(0, 20)) + "..."@,
{
    let bytes = value.as_bytes();
    if bytes.len() > 20 {
        let (head, _) = value.split_at(20);
        proof {
            vstd::utf8::encode_utf8_decode_utf8(head@);
        }
        let mut r = head.to_owned();
        r.append("...");
        r
    } else {
        value.to_owned()
    }
}

} // verus!
