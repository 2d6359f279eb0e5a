//! The ellipsizing walk: which laid-out rows fit within a height budget,
//! what text they produce, and when the ellipsis is appended.
use vstd::prelude::*;

use crate::content::Content;
use crate::layout::{line_wf, lines_wf, BoundingBox, Extent, LaidOutLine, Layout};

verus! {

/// The glyph appended to signal omitted trailing content.
pub const ELLIPSIS: char = '\u{2026}';

/// The character that separates rows in the returned text.
pub const LINE_BREAK: char = '\n';

/// The characters of `content` that `line` covers.
pub open spec fn line_span(content: Seq<char>, line: LaidOutLine) -> Seq<char> {
    content.subrange(line.start as int, line.end as int)
}

/// Every row's span, joined with a line break between consecutive rows.
pub open spec fn joined(content: Seq<char>, lines: Seq<LaidOutLine>) -> Seq<char>
    decreases lines.len(),
{
    if lines.len() == 0 {
        Seq::empty()
    } else if lines.len() == 1 {
        line_span(content, lines[0])
    } else {
        joined(content, lines.drop_last()) + seq![LINE_BREAK] + line_span(content, lines.last())
    }
}

/// One step of the overflow walk: a row's text goes after the text gathered
/// so far, behind a line break when something was gathered already.
pub open spec fn append_row(acc: Seq<char>, row: Seq<char>) -> Seq<char> {
    if acc.len() == 0 {
        row
    } else {
        acc + seq![LINE_BREAK] + row
    }
}

/// The text gathered by walking the given rows in order.
pub open spec fn gathered(content: Seq<char>, lines: Seq<LaidOutLine>) -> Seq<char>
    decreases lines.len(),
{
    if lines.len() == 0 {
        Seq::empty()
    } else {
        append_row(gathered(content, lines.drop_last()), line_span(content, lines.last()))
    }
}

/// How many leading rows fit within the height budget `h`: the index of the
/// first row whose bottom edge exceeds `h`, or the number of rows when no
/// row does. A row whose bottom edge equals `h` exactly still fits.
pub open spec fn fit_len(lines: Seq<LaidOutLine>, h: u64) -> int
    decreases lines.len(),
{
    if lines.len() == 0 {
        0
    } else if lines[0].bottom > h {
        0
    } else {
        1 + fit_len(lines.drop_first(), h)
    }
}

/// The overflow result for the height budget `h`: the rows that fit,
/// gathered, with one ellipsis appended when a row was cut off, something
/// had been gathered, and the gathered text does not already end with the
/// ellipsis.
pub open spec fn truncated(content: Seq<char>, lines: Seq<LaidOutLine>, h: u64) -> Seq<char> {
    let k = fit_len(lines, h);
    let acc = gathered(content, lines.take(k));
    if k == lines.len() {
        acc
    } else if acc.len() == 0 {
        acc
    } else if acc.last() == ELLIPSIS {
        acc
    } else {
        acc.push(ELLIPSIS)
    }
}

/// What ellipsizing returns: the fully wrapped text when the height budget
/// is unbounded or the measured block fits it, and the truncated text
/// otherwise.
pub open spec fn ellipsize_spec(content: Seq<char>, layout: Layout, height: Extent) -> Seq<char> {
    match height {
        Extent::Unbounded => joined(content, layout.lines@),
        Extent::Finite(h) => if layout.height <= h {
            joined(content, layout.lines@)
        } else {
            truncated(content, layout.lines@, h)
        },
    }
}

/// How many rows of the layout the returned text is built from.
pub open spec fn visible_count(layout: Layout, height: Extent) -> int {
    match height {
        Extent::Unbounded => layout.lines@.len() as int,
        Extent::Finite(h) => if layout.height <= h {
            layout.lines@.len() as int
        } else {
            fit_len(layout.lines@, h)
        },
    }
}

/// `fit_len` names the index of the first row that exceeds the budget:
/// every row before it fits, and the row at it, when there is one, does not.
pub proof fn lemma_fit_len(lines: Seq<LaidOutLine>, h: u64)
    ensures
        0 <= fit_len(lines, h) <= lines.len(),
        forall|i: int| 0 <= i < fit_len(lines, h) ==> (#[trigger] lines[i]).bottom <= h,
        fit_len(lines, h) < lines.len() ==> lines[fit_len(lines, h)].bottom > h,
    decreases lines.len(),
{
    if lines.len() > 0 && lines[0].bottom <= h {
        lemma_fit_len(lines.drop_first(), h);
        assert forall|i: int| 0 <= i < fit_len(lines, h) implies (#[trigger] lines[i]).bottom
            <= h by {
            if i > 0 {
                assert(lines.drop_first()[i - 1] == lines[i]);
            }
        }
        if fit_len(lines, h) < lines.len() {
            assert(lines.drop_first()[fit_len(lines, h) - 1] == lines[fit_len(lines, h)]);
        }
    }
}

/// A cut position that the rows themselves exhibit is `fit_len`: when every
/// row before `k` fits and the row at `k`, if any, does not, then `k` is the
/// number of fitting rows.
pub proof fn lemma_fit_len_is(lines: Seq<LaidOutLine>, h: u64, k: int)
    requires
        0 <= k <= lines.len(),
        forall|i: int| 0 <= i < k ==> (#[trigger] lines[i]).bottom <= h,
        k < lines.len() ==> lines[k].bottom > h,
    ensures
        fit_len(lines, h) == k,
{
    lemma_fit_len(lines, h);
    let f = fit_len(lines, h);
    if f < k {
        assert(lines[f].bottom <= h);
    }
    if f > k {
        assert(lines[k].bottom <= h);
    }
}

/// Extending the walked rows by one appends that row's text behind the text
/// joined so far.
proof fn lemma_joined_step(content: Seq<char>, lines: Seq<LaidOutLine>, i: int)
    requires
        0 <= i < lines.len(),
    ensures
        joined(content, lines.take(i + 1)) == if i == 0 {
            line_span(content, lines[0])
        } else {
            joined(content, lines.take(i)) + seq![LINE_BREAK] + line_span(content, lines[i])
        },
{
    let s = lines.take(i + 1);
    assert(s.len() == i + 1);
    assert(s.last() == lines[i]);
    assert(s.drop_last() =~= lines.take(i));
    if i == 0 {
        assert(s[0] == lines[0]);
    }
}

/// Extending the walked rows by one gathers that row's text behind the text
/// gathered so far.
proof fn lemma_gathered_step(content: Seq<char>, lines: Seq<LaidOutLine>, i: int)
    requires
        0 <= i < lines.len(),
    ensures
        gathered(content, lines.take(i + 1)) == append_row(
            gathered(content, lines.take(i)),
            line_span(content, lines[i]),
        ),
{
    let s = lines.take(i + 1);
    assert(s.len() == i + 1);
    assert(s.last() == lines[i]);
    assert(s.drop_last() =~= lines.take(i));
}

/// Dropping the last row keeps every span within the content.
proof fn lemma_wf_drop_last(lines: Seq<LaidOutLine>, n: nat)
    requires
        lines.len() > 0,
        lines_wf(lines, n),
    ensures
        lines_wf(lines.drop_last(), n),
{
    assert forall|i: int| 0 <= i < lines.drop_last().len() implies line_wf(
        #[trigger] lines.drop_last()[i],
        n,
    ) by {
        assert(lines.drop_last()[i] == lines[i]);
    }
}

/// Keeping a prefix of the rows keeps every span within the content.
proof fn lemma_wf_take(lines: Seq<LaidOutLine>, n: nat, k: int)
    requires
        0 <= k <= lines.len(),
        lines_wf(lines, n),
    ensures
        lines_wf(lines.take(k), n),
{
    assert forall|i: int| 0 <= i < lines.take(k).len() implies line_wf(
        #[trigger] lines.take(k)[i],
        n,
    ) by {
        assert(lines.take(k)[i] == lines[i]);
    }
}

/// The joined text is made of content characters and line breaks alone: a
/// character that occurs nowhere in the content and is no line break does
/// not occur in the joined text.
proof fn lemma_joined_free_of(content: Seq<char>, lines: Seq<LaidOutLine>, c: char)
    requires
        lines_wf(lines, content.len()),
        c != LINE_BREAK,
        forall|i: int| 0 <= i < content.len() ==> content[i] != c,
    ensures
        forall|i: int|
            0 <= i < joined(content, lines).len() ==> #[trigger] joined(content, lines)[i] != c,
    decreases lines.len(),
{
    let out = joined(content, lines);
    if lines.len() == 0 {
    } else if lines.len() == 1 {
        let line = lines[0];
        assert(line_wf(line, content.len()));
        assert forall|i: int| 0 <= i < out.len() implies out[i] != c by {
            assert(out[i] == content[line.start + i]);
        }
    } else {
        lemma_wf_drop_last(lines, content.len());
        lemma_joined_free_of(content, lines.drop_last(), c);
        let prev = joined(content, lines.drop_last());
        let line = lines.last();
        assert(line_wf(lines[lines.len() - 1], content.len()));
        assert forall|i: int| 0 <= i < out.len() implies out[i] != c by {
            if i < prev.len() {
                assert(out[i] == prev[i]);
            } else if i == prev.len() {
                assert(out[i] == LINE_BREAK);
            } else {
                assert(out[i] == content[line.start + (i - prev.len() - 1)]);
            }
        }
    }
}

/// The gathered text is made of content characters and line breaks alone.
proof fn lemma_gathered_free_of(content: Seq<char>, lines: Seq<LaidOutLine>, c: char)
    requires
        lines_wf(lines, content.len()),
        c != LINE_BREAK,
        forall|i: int| 0 <= i < content.len() ==> content[i] != c,
    ensures
        forall|i: int|
            0 <= i < gathered(content, lines).len() ==> #[trigger] gathered(content, lines)[i]
                != c,
    decreases lines.len(),
{
    let out = gathered(content, lines);
    if lines.len() > 0 {
        lemma_wf_drop_last(lines, content.len());
        lemma_gathered_free_of(content, lines.drop_last(), c);
        let prev = gathered(content, lines.drop_last());
        let line = lines.last();
        assert(line_wf(lines[lines.len() - 1], content.len()));
        assert forall|i: int| 0 <= i < out.len() implies out[i] != c by {
            if prev.len() == 0 {
                assert(out[i] == content[line.start + i]);
            } else {
                if i < prev.len() {
                    assert(out[i] == prev[i]);
                } else if i == prev.len() {
                    assert(out[i] == LINE_BREAK);
                } else {
                    assert(out[i] == content[line.start + (i - prev.len() - 1)]);
                }
            }
        }
    }
}

/// A block whose measured height fits the budget is returned as the fully
/// wrapped text, unchanged; and since the returned text is an exact function
/// of the inputs, ellipsizing the same block twice gives the same text.
pub proof fn lemma_fits_returns_wrapped(content: Seq<char>, layout: Layout, h: u64)
    requires
        layout.height <= h,
    ensures
        ellipsize_spec(content, layout, Extent::Finite(h)) == joined(content, layout.lines@),
{
}

/// Ellipsizing is pure: two layouts that agree on their rows and their
/// measured height give the same text for the same content and budget, so
/// ellipsizing the same block a second time returns the same text.
pub proof fn lemma_same_inputs_same_text(
    content: Seq<char>,
    first: Layout,
    second: Layout,
    height: Extent,
)
    requires
        first.lines@ == second.lines@,
        first.height == second.height,
    ensures
        ellipsize_spec(content, first, height) == ellipsize_spec(content, second, height),
{
}

/// An unbounded height budget returns the fully wrapped text, whatever rows
/// the width-driven wrapping produced.
pub proof fn lemma_unbounded_returns_wrapped(content: Seq<char>, layout: Layout)
    ensures
        ellipsize_spec(content, layout, Extent::Unbounded) == joined(content, layout.lines@),
{
}

/// Lowering a finite height budget never lets the returned text be built
/// from more rows.
pub proof fn lemma_height_monotonic(layout: Layout, lower: u64, higher: u64)
    requires
        lower <= higher,
    ensures
        visible_count(layout, Extent::Finite(lower)) <= visible_count(
            layout,
            Extent::Finite(higher),
        ),
{
    let lines = layout.lines@;
    lemma_fit_len(lines, lower);
    lemma_fit_len(lines, higher);
    if layout.height > higher {
        let kl = fit_len(lines, lower);
        let kh = fit_len(lines, higher);
        if kl > kh {
            assert(lines[kh].bottom > higher);
            assert(lines[kh].bottom <= lower);
        }
    }
}

/// A finite height budget never lets the returned text be built from more
/// rows than an unbounded one.
pub proof fn lemma_finite_le_unbounded(layout: Layout, h: u64)
    ensures
        visible_count(layout, Extent::Finite(h)) <= visible_count(layout, Extent::Unbounded),
{
    lemma_fit_len(layout.lines@, h);
}

/// A row whose bottom edge equals the budget exactly still fits: when every
/// row above it stays within the budget too, the returned text is built from
/// rows beyond it, so the row is included rather than taken as the cut.
pub proof fn lemma_boundary_row_included(layout: Layout, h: u64, i: int)
    requires
        0 <= i < layout.lines@.len(),
        layout.lines@[i].bottom == h,
        forall|j: int| 0 <= j < i ==> (#[trigger] layout.lines@[j]).bottom <= h,
    ensures
        visible_count(layout, Extent::Finite(h)) > i,
{
    let lines = layout.lines@;
    lemma_fit_len(lines, h);
    if layout.height > h {
        let k = fit_len(lines, h);
        if k <= i {
            assert(lines[k].bottom > h);
            if k < i {
                assert(lines[k].bottom <= h);
            } else {
                assert(lines[k].bottom == h);
            }
        }
    }
}

/// Empty content comes back as the empty text. The layout engine lays empty
/// content out as at most one row, and over empty content a row can only
/// carry the empty span.
pub proof fn lemma_empty_content(content: Seq<char>, layout: Layout, height: Extent)
    requires
        content.len() == 0,
        layout.wf(content.len()),
        layout.lines@.len() <= 1,
    ensures
        ellipsize_spec(content, layout, height) == Seq::<char>::empty(),
{
    let lines = layout.lines@;
    if lines.len() == 1 {
        assert(line_wf(lines[0], content.len()));
        assert(line_span(content, lines[0]) =~= Seq::<char>::empty());
    }
    assert(joined(content, lines) == Seq::<char>::empty());
    match height {
        Extent::Unbounded => {
        },
        Extent::Finite(h) => {
            if layout.height > h {
                lemma_fit_len(lines, h);
                let k = fit_len(lines, h);
                assert(lines.take(0).len() == 0);
                if k == 1 {
                    lemma_gathered_step(content, lines, 0);
                    assert(gathered(content, lines.take(1)) == Seq::<char>::empty());
                }
                assert(gathered(content, lines.take(k)).len() == 0);
            }
        },
    }
}

/// The returned text carries the ellipsis at most once, as its last
/// character, and only when the content was cut: for content free of the
/// ellipsis glyph, every character of the result before the last differs
/// from the glyph, and the last character is the glyph exactly when the
/// budget was finite and overflowed, a row was cut off, and at least one
/// row's text had been gathered before the cut.
pub proof fn lemma_ellipsis_at_most_once(content: Seq<char>, layout: Layout, height: Extent)
    requires
        layout.wf(content.len()),
        forall|i: int| 0 <= i < content.len() ==> content[i] != ELLIPSIS,
    ensures
        ({
            let out = ellipsize_spec(content, layout, height);
            forall|i: int| 0 <= i < out.len() - 1 ==> out[i] != ELLIPSIS
        }),
        ({
            let out = ellipsize_spec(content, layout, height);
            let lines = layout.lines@;
            (out.len() > 0 && out.last() == ELLIPSIS) <==> (height matches Extent::Finite(h)
                && layout.height > h && fit_len(lines, h) < lines.len() && gathered(
                content,
                lines.take(fit_len(lines, h)),
            ).len() > 0)
        }),
{
    let lines = layout.lines@;
    let out = ellipsize_spec(content, layout, height);
    lemma_joined_free_of(content, lines, ELLIPSIS);
    let overflow = height matches Extent::Finite(h) && layout.height > h;
    if overflow {
        let h = height->0;
        lemma_fit_len(lines, h);
        let k = fit_len(lines, h);
        lemma_wf_take(lines, content.len(), k);
        lemma_gathered_free_of(content, lines.take(k), ELLIPSIS);
        let acc = gathered(content, lines.take(k));
        if k == lines.len() || acc.len() == 0 {
            assert forall|i: int| 0 <= i < out.len() - 1 implies out[i] != ELLIPSIS by {
                assert(out[i] == acc[i]);
            }
        } else {
            assert(acc.last() != ELLIPSIS);
            assert(out == acc.push(ELLIPSIS));
            assert forall|i: int| 0 <= i < out.len() - 1 implies out[i] != ELLIPSIS by {
                assert(out[i] == acc[i]);
            }
            assert(out.last() == ELLIPSIS);
        }
    } else {
        assert(out == joined(content, lines));
        assert forall|i: int| 0 <= i < out.len() - 1 implies out[i] != ELLIPSIS by {
            assert(out[i] == joined(content, lines)[i]);
        }
        if out.len() > 0 {
            assert(out.last() == joined(content, lines)[out.len() - 1]);
        }
    }
}

/// Appends to `out` the characters of `content` that the span
/// `start..end` covers.
fn push_span(out: &mut Vec<char>, content: &Vec<char>, start: usize, end: usize)
    requires
        start <= end,
        end <= content@.len(),
    ensures
        final(out)@ == old(out)@ + content@.subrange(start as int, end as int),
{
    proof {
        assert(content@.subrange(start as int, start as int) =~= Seq::<char>::empty());
        assert(old(out)@ + Seq::<char>::empty() =~= old(out)@);
    }
    let mut j: usize = start;
    while j < end
        invariant
            start <= j <= end,
            end <= content@.len(),
            out@ == old(out)@ + content@.subrange(start as int, j as int),
        decreases end - j,
    {
        out.push(content[j]);
        proof {
            assert(content@.subrange(start as int, (j + 1) as int) =~= content@.subrange(
                start as int,
                j as int,
            ).push(content@[j as int]));
            assert(old(out)@ + content@.subrange(start as int, (j + 1) as int) =~= (old(out)@
                + content@.subrange(start as int, j as int)).push(content@[j as int]));
        }
        j += 1;
    }
    proof {
        assert(out@ == old(out)@ + content@.subrange(start as int, end as int));
    }
}

/// Joins every row of the layout with line breaks: the fully wrapped text.
fn join_lines(content: &Vec<char>, lines: &Vec<LaidOutLine>) -> (out: Vec<char>)
    requires
        lines_wf(lines@, content@.len()),
    ensures
        out@ == joined(content@, lines@),
{
    let mut out: Vec<char> = Vec::new();
    let mut i: usize = 0;
    while i < lines.len()
        invariant
            i <= lines@.len(),
            lines_wf(lines@, content@.len()),
            out@ == joined(content@, lines@.take(i as int)),
        decreases lines@.len() - i,
    {
        if i > 0 {
            out.push(LINE_BREAK);
        }
        let line = lines[i];
        assert(line_wf(lines@[i as int], content@.len()));
        push_span(&mut out, content, line.start, line.end);
        proof {
            lemma_joined_step(content@, lines@, i as int);
            if i > 0 {
                assert(out@ =~= joined(content@, lines@.take(i as int)) + seq![LINE_BREAK]
                    + line_span(content@, lines@[i as int]));
            } else {
                assert(out@ =~= line_span(content@, lines@[0]));
            }
        }
        i += 1;
    }
    proof {
        assert(lines@.take(lines@.len() as int) =~= lines@);
    }
    out
}

/// Walks the rows in order, keeping those whose bottom edge stays within the
/// budget `h`, and appends the ellipsis when a row is cut off after text was
/// gathered that does not already end with it.
fn truncate_lines(content: &Vec<char>, lines: &Vec<LaidOutLine>, h: u64) -> (out: Vec<char>)
    requires
        lines_wf(lines@, content@.len()),
    ensures
        out@ == truncated(content@, lines@, h),
{
    let mut acc: Vec<char> = Vec::new();
    let mut cut = false;
    let mut i: usize = 0;
    while i < lines.len() && !cut
        invariant
            i <= lines@.len(),
            lines_wf(lines@, content@.len()),
            forall|j: int| 0 <= j < i ==> (#[trigger] lines@[j]).bottom <= h,
            !cut ==> acc@ == gathered(content@, lines@.take(i as int)),
            cut ==> acc@ == truncated(content@, lines@, h),
        decreases lines@.len() - i, (if cut { 0int } else { 1int }),
    {
        let line = lines[i];
        assert(line_wf(lines@[i as int], content@.len()));
        if line.bottom > h {
            proof {
                lemma_fit_len_is(lines@, h, i as int);
            }
            if acc.len() > 0 {
                let last = acc[acc.len() - 1];
                if last != ELLIPSIS {
                    acc.push(ELLIPSIS);
                }
            }
            cut = true;
        } else {
            if acc.len() > 0 {
                acc.push(LINE_BREAK);
            }
            push_span(&mut acc, content, line.start, line.end);
            proof {
                lemma_gathered_step(content@, lines@, i as int);
                let before = gathered(content@, lines@.take(i as int));
                let row = line_span(content@, lines@[i as int]);
                if before.len() > 0 {
                    assert(acc@ =~= before + seq![LINE_BREAK] + row);
                } else {
                    assert(acc@ =~= before + row);
                    assert(before + row =~= row);
                }
            }
            i += 1;
        }
    }
    proof {
        if !cut {
            lemma_fit_len_is(lines@, h, lines@.len() as int);
            assert(lines@.take(lines@.len() as int) =~= lines@);
        }
    }
    acc
}

/// Returns the maximal prefix of the laid-out rows that fits within the box
/// height, joined by line breaks, with one ellipsis appended when the
/// content was cut off. A box of unbounded height, or one whose height the
/// measured block fits, returns the fully wrapped text unchanged; a box too
/// low for even the first row returns the empty text.
pub fn ellipsize(text: &Content, layout: &Layout, bounds: &BoundingBox) -> (out: Vec<char>)
    requires
        layout.wf(text.text@.len()),
        bounds.width is Finite,
    ensures
        out@ == ellipsize_spec(text.text@, *layout, bounds.height),
{
    match bounds.height {
        Extent::Unbounded => join_lines(&text.text, &layout.lines),
        Extent::Finite(h) => {
            if layout.height <= h {
                join_lines(&text.text, &layout.lines)
            } else {
                truncate_lines(&text.text, &layout.lines, h)
            }
        },
    }
}

} // verus!
