//! Line-by-line comparison of two configurations.
//!
//! The diff itself is computed by the `similar` crate (Myers' algorithm on
//! lines); this module turns its changes into numbered rows.

use vstd::prelude::*;

use similar::{ChangeTag, TextDiff};

use crate::text::chars_of;

verus! {

/// What happened to a line.
#[derive(Debug, Clone, Copy, PartialEq, Eq, Structural)]
pub enum DiffType {
    Inserted,
    Deleted,
    Unchanged,
}

/// One change as the diff reports it: what happened, the 0-based index of
/// the line in the old and in the new text (where it has one), and the line
/// with its line ending.
#[derive(Debug, Clone)]
pub struct LineChange {
    pub tag: DiffType,
    pub old_index: Option<usize>,
    pub new_index: Option<usize>,
    pub value: String,
}

/// One row of the comparison: what happened to the line, its 1-based
/// number in the old and in the new text (where it has one), and the line.
#[derive(Debug, Clone)]
pub struct DiffRow {
    pub tip: DiffType,
    pub old_line_no: Option<usize>,
    pub new_line_no: Option<usize>,
    pub text: String,
}

impl View for LineChange {
    type V = (DiffType, Option<usize>, Option<usize>, Seq<char>);

    open spec fn view(&self) -> (DiffType, Option<usize>, Option<usize>, Seq<char>) {
        (self.tag, self.old_index, self.new_index, self.value@)
    }
}

impl View for DiffRow {
    type V = (DiffType, Option<usize>, Option<usize>, Seq<char>);

    open spec fn view(&self) -> (DiffType, Option<usize>, Option<usize>, Seq<char>) {
        (self.tip, self.old_line_no, self.new_line_no, self.text@)
    }
}

/// The changes `similar` reports for a line diff of two texts
/// (`TextDiff::from_lines`, then `iter_all_changes`), in its order.
pub uninterp spec fn line_changes(old: Seq<char>, new: Seq<char>) -> Seq<
    (DiffType, Option<usize>, Option<usize>, Seq<char>),
>;

/// Whether the indices of a change fit its kind: an unchanged line has an
/// index in both texts, a deleted one in the old text only, an inserted
/// one in the new text only.
pub open spec fn indices_match(c: (DiffType, Option<usize>, Option<usize>, Seq<char>)) -> bool {
    match c.0 {
        DiffType::Unchanged => c.1 is Some && c.2 is Some,
        DiffType::Deleted => c.1 is Some && c.2 is None,
        DiffType::Inserted => c.1 is None && c.2 is Some,
    }
}

/// The changes of `cs` that stand for a line of the old text (unchanged or
/// deleted), in order.
pub open spec fn old_side(cs: Seq<(DiffType, Option<usize>, Option<usize>, Seq<char>)>) -> Seq<(DiffType, Option<usize>, Option<usize>, Seq<char>)>
    decreases cs.len(),
{
    if cs.len() == 0 {
        Seq::empty()
    } else {
        old_side(cs.drop_last()) + if cs.last().0 != DiffType::Inserted {
            seq![cs.last()]
        } else {
            Seq::empty()
        }
    }
}

/// The changes of `cs` that stand for a line of the new text (unchanged or
/// inserted), in order.
pub open spec fn new_side(cs: Seq<(DiffType, Option<usize>, Option<usize>, Seq<char>)>) -> Seq<(DiffType, Option<usize>, Option<usize>, Seq<char>)>
    decreases cs.len(),
{
    if cs.len() == 0 {
        Seq::empty()
    } else {
        new_side(cs.drop_last()) + if cs.last().0 != DiffType::Deleted {
            seq![cs.last()]
        } else {
            Seq::empty()
        }
    }
}

/// The changes of `cs` standing for old lines carry the old indices
/// `first`, `first + 1`, ... in order.
pub open spec fn numbers_old_lines(cs: Seq<(DiffType, Option<usize>, Option<usize>, Seq<char>)>, first: int) -> bool {
    forall|k: int|
        0 <= k < old_side(cs).len() ==> (#[trigger] old_side(cs)[k]).1 == Some((k + first) as usize)
}

/// The changes of `cs` standing for new lines carry the new indices
/// `first`, `first + 1`, ... in order.
pub open spec fn numbers_new_lines(cs: Seq<(DiffType, Option<usize>, Option<usize>, Seq<char>)>, first: int) -> bool {
    forall|k: int|
        0 <= k < new_side(cs).len() ==> (#[trigger] new_side(cs)[k]).2 == Some((k + first) as usize)
}

/// The lines of `cs` put back together, in order.
pub open spec fn joined(cs: Seq<(DiffType, Option<usize>, Option<usize>, Seq<char>)>) -> Seq<char>
    decreases cs.len(),
{
    if cs.len() == 0 {
        Seq::empty()
    } else {
        joined(cs.drop_last()) + cs.last().3
    }
}

/// Diffs two texts line by line with `similar::TextDiff::from_lines` and
/// lists every change. Claims that the list is `similar`'s; that each
/// change carries the indices its kind has (as `similar`'s change iterator
/// builds them); that the changes standing for old lines carry the old
/// indices 0, 1, 2, ... in order and their lines (each with its line
/// ending) put together give the old text, and likewise for the new text
/// (the diff's operations cover both texts in order, and an unchanged line
/// is equal in both); and that each line index is below the length of its
/// text (each line holds at least one character).
#[verifier::external_body]
fn line_diff(old: &str, new: &str) -> (r: Vec<LineChange>)
    ensures
        r@.map_values(|c: LineChange| c@) == line_changes(old@, new@),
        joined(old_side(r@.map_values(|c: LineChange| c@))) == old@,
        joined(new_side(r@.map_values(|c: LineChange| c@))) == new@,
        numbers_old_lines(r@.map_values(|c: LineChange| c@), 0),
        numbers_new_lines(r@.map_values(|c: LineChange| c@), 0),
        forall|i: int| 0 <= i < r.len() ==> indices_match(#[trigger] r@[i]@),
        forall|i: int|
            0 <= i < r.len() ==> ((#[trigger] r@[i]).old_index matches Some(k) ==> k < old@.len()),
        forall|i: int|
            0 <= i < r.len() ==> ((#[trigger] r@[i]).new_index matches Some(k) ==> k < new@.len()),
{
    TextDiff::from_lines(old, new).iter_all_changes().map(
        |c|
            LineChange {
                tag: match c.tag() {
                    ChangeTag::Delete => DiffType::Deleted,
                    ChangeTag::Insert => DiffType::Inserted,
                    ChangeTag::Equal => DiffType::Unchanged,
                },
                old_index: c.old_index(),
                new_index: c.new_index(),
                value: c.value().to_string(),
            },
    ).collect()
}

/// A 0-based index as a 1-based line number.
pub open spec fn line_number(i: Option<usize>) -> Option<usize> {
    match i {
        Some(k) => Some((k + 1) as usize),
        None => None,
    }
}

/// The row of a change: the same kind and line, the indices made line
/// numbers.
pub open spec fn row_of(
    c: (DiffType, Option<usize>, Option<usize>, Seq<char>),
) -> (DiffType, Option<usize>, Option<usize>, Seq<char>) {
    (c.0, line_number(c.1), line_number(c.2), c.3)
}

/// Whether no index of a change is the largest `usize`.
pub open spec fn indices_fit(c: (DiffType, Option<usize>, Option<usize>, Seq<char>)) -> bool {
    &&& c.1 matches Some(k) ==> k < usize::MAX
    &&& c.2 matches Some(k) ==> k < usize::MAX
}

/// The 1-based form of an index.
fn number(i: Option<usize>) -> (r: Option<usize>)
    requires
        i matches Some(k) ==> k < usize::MAX,
    ensures
        r == line_number(i),
{
    match i {
        Some(k) => Some(k + 1),
        None => None,
    }
}

/// The rows of a list of changes, in order.
pub fn rows_from_changes(changes: Vec<LineChange>) -> (r: Vec<DiffRow>)
    requires
        forall|i: int| 0 <= i < changes.len() ==> indices_fit(#[trigger] changes@[i]@),
    ensures
        r@.map_values(|d: DiffRow| d@) == changes@.map_values(|c: LineChange| row_of(c@)),
{
    let mut out: Vec<DiffRow> = Vec::new();
    let mut i: usize = 0;
    while i < changes.len()
        invariant
            i <= changes.len(),
            out.len() == i,
            forall|j: int| 0 <= j < changes.len() ==> indices_fit(#[trigger] changes@[j]@),
            out@.map_values(|d: DiffRow| d@) == changes@.take(i as int).map_values(
                |c: LineChange| row_of(c@),
            ),
        decreases changes.len() - i,
    {
        let c = &changes[i];
        assert(indices_fit(changes@[i as int]@));
        let row = DiffRow {
            tip: c.tag,
            old_line_no: number(c.old_index),
            new_line_no: number(c.new_index),
            text: c.value.clone(),
        };
        let ghost prev = out@;
        out.push(row);
        proof {
            assert(out@ == prev.push(row));
            assert(row@ == row_of(changes@[i as int]@));
            let ghost lhs = out@.map_values(|d: DiffRow| d@);
            let ghost rhs = changes@.take(i + 1).map_values(|c: LineChange| row_of(c@));
            let ghost before = changes@.take(i as int).map_values(|c: LineChange| row_of(c@));
            assert forall|j: int| 0 <= j <= i implies #[trigger] lhs[j] == rhs[j] by {
                if j < i {
                    assert(out@[j] == prev[j]);
                    assert(prev.map_values(|d: DiffRow| d@)[j] == before[j]);
                }
            }
            assert(lhs =~= rhs);
        }
        i = i + 1;
    }
    proof {
        assert(changes@.take(changes.len() as int) =~= changes@);
    }
    out
}

proof fn lemma_sides_of_rows(cs: Seq<(DiffType, Option<usize>, Option<usize>, Seq<char>)>)
    ensures
        old_side(cs.map_values(|c: (DiffType, Option<usize>, Option<usize>, Seq<char>)| row_of(c))) == old_side(cs).map_values(
            |c: (DiffType, Option<usize>, Option<usize>, Seq<char>)| row_of(c),
        ),
        new_side(cs.map_values(|c: (DiffType, Option<usize>, Option<usize>, Seq<char>)| row_of(c))) == new_side(cs).map_values(
            |c: (DiffType, Option<usize>, Option<usize>, Seq<char>)| row_of(c),
        ),
    decreases cs.len(),
{
    if cs.len() > 0 {
        let f = |c: (DiffType, Option<usize>, Option<usize>, Seq<char>)| row_of(c);
        assert(cs.map_values(f).drop_last() =~= cs.drop_last().map_values(f));
        lemma_sides_of_rows(cs.drop_last());
        if cs.last().0 != DiffType::Inserted {
            assert(old_side(cs).map_values(f) =~= old_side(cs.drop_last()).map_values(f).push(
                row_of(cs.last()),
            ));
        } else {
            assert(old_side(cs).map_values(f) =~= old_side(cs.drop_last()).map_values(f));
        }
        if cs.last().0 != DiffType::Deleted {
            assert(new_side(cs).map_values(f) =~= new_side(cs.drop_last()).map_values(f).push(
                row_of(cs.last()),
            ));
        } else {
            assert(new_side(cs).map_values(f) =~= new_side(cs.drop_last()).map_values(f));
        }
    }
}

proof fn lemma_side_len(cs: Seq<(DiffType, Option<usize>, Option<usize>, Seq<char>)>)
    ensures
        old_side(cs).len() <= cs.len(),
        new_side(cs).len() <= cs.len(),
    decreases cs.len(),
{
    if cs.len() > 0 {
        lemma_side_len(cs.drop_last());
    }
}

proof fn lemma_joined_rows(cs: Seq<(DiffType, Option<usize>, Option<usize>, Seq<char>)>)
    ensures
        joined(cs.map_values(|c: (DiffType, Option<usize>, Option<usize>, Seq<char>)| row_of(c))) == joined(cs),
    decreases cs.len(),
{
    if cs.len() > 0 {
        let f = |c: (DiffType, Option<usize>, Option<usize>, Seq<char>)| row_of(c);
        assert(cs.map_values(f).drop_last() =~= cs.drop_last().map_values(f));
        lemma_joined_rows(cs.drop_last());
    }
}

/// Compares two configurations line by line: one row per line of either,
/// in the diff's order.
pub fn compare_configs(eski: &str, yeni: &str) -> (r: Vec<DiffRow>)
    ensures
        r@.map_values(|d: DiffRow| d@) == line_changes(eski@, yeni@).map_values(
            |c: (DiffType, Option<usize>, Option<usize>, Seq<char>)| row_of(c),
        ),
        forall|i: int| 0 <= i < r.len() ==> indices_match(#[trigger] r@[i]@),
        joined(old_side(r@.map_values(|d: DiffRow| d@))) == eski@,
        joined(new_side(r@.map_values(|d: DiffRow| d@))) == yeni@,
        numbers_old_lines(r@.map_values(|d: DiffRow| d@), 1),
        numbers_new_lines(r@.map_values(|d: DiffRow| d@), 1),
{
    let changes = line_diff(eski, yeni);
    let old_chars = chars_of(eski);
    let new_chars = chars_of(yeni);
    let old_len = old_chars.len();
    let new_len = new_chars.len();
    proof {
        assert forall|i: int| 0 <= i < changes.len() implies indices_fit(#[trigger] changes@[i]@) by {
            assert(old_len == eski@.len());
            assert(new_len == yeni@.len());
            let c = changes@[i];
            if c.old_index is Some {
                assert(c.old_index->0 < eski@.len());
            }
            if c.new_index is Some {
                assert(c.new_index->0 < yeni@.len());
            }
        }
    }
    let ghost cs = changes@;
    let n_changes = changes.len();
    let r = rows_from_changes(changes);
    proof {
        assert(cs.map_values(|c: LineChange| row_of(c@)) =~= cs.map_values(|c: LineChange| c@).map_values(
            |c: (DiffType, Option<usize>, Option<usize>, Seq<char>)| row_of(c),
        ));
        assert forall|i: int| 0 <= i < r.len() implies indices_match(#[trigger] r@[i]@) by {
            assert(r@.map_values(|d: DiffRow| d@)[i] == r@[i]@);
            assert(cs.map_values(|c: LineChange| row_of(c@))[i] == row_of(cs[i]@));
            assert(indices_match(cs[i]@));
        }
        let vs = cs.map_values(|c: LineChange| c@);
        let f = |c: (DiffType, Option<usize>, Option<usize>, Seq<char>)| row_of(c);
        assert(r@.map_values(|d: DiffRow| d@) == vs.map_values(f));
        lemma_sides_of_rows(vs);
        lemma_joined_rows(old_side(vs));
        lemma_joined_rows(new_side(vs));
        let rs = vs.map_values(f);
        assert(vs.len() == n_changes);
        assert forall|k: int| 0 <= k < old_side(rs).len() implies (#[trigger] old_side(rs)[k]).1
            == Some((k + 1) as usize) by {
            lemma_side_len(vs);
            assert(old_side(rs)[k] == row_of(old_side(vs)[k]));
            assert(old_side(vs)[k].1 == Some(k as usize));
        }
        assert forall|k: int| 0 <= k < new_side(rs).len() implies (#[trigger] new_side(rs)[k]).2
            == Some((k + 1) as usize) by {
            lemma_side_len(vs);
            assert(new_side(rs)[k] == row_of(new_side(vs)[k]));
            assert(new_side(vs)[k].2 == Some(k as usize));
        }
    }
    r
}

} // verus!
