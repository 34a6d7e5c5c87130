//! Computing the line-based edit script between two texts. The script itself
//! comes from the `similar` crate; everything stated about it beyond the
//! trusted contract below is proved.

use vstd::prelude::*;

use crate::lines::{spec_lines, split_lines, views_of};
use crate::record::{
    is_new, is_old, lemma_filter_all, new_records, old_records, records_view, valid_diff,
    ChangeRecord, ChangeTag, SpecRecord,
};
use crate::render::record_renderable;

verus! {

/// The edit script that the diff algorithm yields for the given pair of line
/// sequences. The exact script (among the minimal ones) is the algorithm's
/// choice; it depends on the two line sequences alone.
pub uninterp spec fn line_diff(from: Seq<Seq<char>>, to: Seq<Seq<char>>) -> Seq<SpecRecord>;

/// Relies on `similar::capture_diff_slices` with the Myers algorithm, expanded
/// through `DiffOp::iter_changes`: the operations cover the old and the new
/// token sequence completely, contiguously and in order, each expanded change
/// carries its token and that token's index on each side it concerns, and the
/// result is a pure function of the two token sequences. Two identical
/// sequences are consumed whole by the algorithm's common-prefix trimming, so
/// every change of their diff is tagged equal.
#[verifier::external_body]
fn diff_line_seqs(from: &Vec<String>, to: &Vec<String>) -> (r: Vec<ChangeRecord>)
    ensures
        records_view(r@) == line_diff(views_of(from@), views_of(to@)),
        valid_diff(records_view(r@), views_of(from@), views_of(to@)),
        views_of(from@) == views_of(to@) ==> forall|i: int|
            0 <= i < r@.len() ==> (#[trigger] r@[i]).tag is Equal,
{
    let ops = similar::capture_diff_slices(similar::Algorithm::Myers, from, to);
    let mut r = Vec::new();
    for c in ops.iter().flat_map(|op| op.iter_changes(from.as_slice(), to.as_slice())) {
        let tag = match c.tag() {
            similar::ChangeTag::Delete => ChangeTag::Delete,
            similar::ChangeTag::Insert => ChangeTag::Insert,
            similar::ChangeTag::Equal => ChangeTag::Equal,
        };
        r.push(ChangeRecord { tag, old_index: c.old_index(), new_index: c.new_index(), content: c.value() });
    }
    r
}

/// In a diff of a line sequence against itself in which every record is Equal,
/// the records list the lines once each, in order, with matching indices.
pub proof fn lemma_self_diff(d: Seq<SpecRecord>, l: Seq<Seq<char>>)
    requires
        valid_diff(d, l, l),
        forall|i: int| 0 <= i < d.len() ==> (#[trigger] d[i]).tag is Equal,
    ensures
        d.len() == l.len(),
        forall|i: int|
            0 <= i < d.len() ==> (#[trigger] d[i]).old_index == Some(i as usize)
                && d[i].new_index == Some(i as usize) && d[i].content == l[i],
{
    lemma_filter_all(d, |r: SpecRecord| is_old(r));
    lemma_filter_all(d, |r: SpecRecord| is_new(r));
    assert(old_records(d) == d);
    assert(new_records(d) == d);
}

/// Law: in any diff, the old-side indices of the Delete and Equal records are
/// exactly `0..from.len()`, in order, and the new-side indices of the Insert
/// and Equal records are exactly `0..to.len()`, in order.
pub proof fn lemma_diff_covers_both_texts(
    d: Seq<SpecRecord>,
    from: Seq<Seq<char>>,
    to: Seq<Seq<char>>,
)
    requires
        valid_diff(d, from, to),
    ensures
        old_records(d).map_values(|r: SpecRecord| r.old_index->0) == Seq::new(
            from.len(),
            |i: int| i as usize,
        ),
        new_records(d).map_values(|r: SpecRecord| r.new_index->0) == Seq::new(
            to.len(),
            |i: int| i as usize,
        ),
        old_records(d).map_values(|r: SpecRecord| r.old_index->0).to_multiset() == Seq::new(
            from.len(),
            |i: int| i as usize,
        ).to_multiset(),
        new_records(d).map_values(|r: SpecRecord| r.new_index->0).to_multiset() == Seq::new(
            to.len(),
            |i: int| i as usize,
        ).to_multiset(),
{
    assert(old_records(d).map_values(|r: SpecRecord| r.old_index->0) =~= Seq::new(
        from.len(),
        |i: int| i as usize,
    ));
    assert(new_records(d).map_values(|r: SpecRecord| r.new_index->0) =~= Seq::new(
        to.len(),
        |i: int| i as usize,
    ));
}

/// Law: every Equal record carries a line that stands at its old index in the
/// old text and at its new index in the new text — a line common to both.
pub proof fn lemma_equal_records_common(
    d: Seq<SpecRecord>,
    from: Seq<Seq<char>>,
    to: Seq<Seq<char>>,
)
    requires
        valid_diff(d, from, to),
        from.len() <= usize::MAX,
        to.len() <= usize::MAX,
    ensures
        forall|i: int|
            0 <= i < d.len() && (#[trigger] d[i]).tag is Equal ==> {
                &&& d[i].old_index is Some
                &&& d[i].new_index is Some
                &&& d[i].old_index->0 < from.len()
                &&& from[d[i].old_index->0 as int] == d[i].content
                &&& d[i].new_index->0 < to.len()
                &&& to[d[i].new_index->0 as int] == d[i].content
            },
{
    assert forall|i: int| 0 <= i < d.len() && (#[trigger] d[i]).tag is Equal implies {
        &&& d[i].old_index is Some
        &&& d[i].new_index is Some
        &&& d[i].old_index->0 < from.len()
        &&& from[d[i].old_index->0 as int] == d[i].content
        &&& d[i].new_index->0 < to.len()
        &&& to[d[i].new_index->0 as int] == d[i].content
    } by {
        d.lemma_filter_contains(|r: SpecRecord| is_old(r), i);
        let j = choose|j: int| 0 <= j < old_records(d).len() && old_records(d)[j] == d[i];
        assert(old_records(d)[j].old_index == Some(j as usize));
        assert(old_records(d)[j].content == from[j]);
        assert(d[i].old_index->0 == j);
        d.lemma_filter_contains(|r: SpecRecord| is_new(r), i);
        let k = choose|k: int| 0 <= k < new_records(d).len() && new_records(d)[k] == d[i];
        assert(new_records(d)[k].new_index == Some(k as usize));
        assert(new_records(d)[k].content == to[k]);
        assert(d[i].new_index->0 == k);
    }
}

/// Every record of a diff of two machine-held line sequences can be rendered:
/// each present index is a position in its sequence, so its one-based form
/// still fits the machine word.
pub proof fn lemma_valid_diff_renderable(
    d: Seq<SpecRecord>,
    from: Seq<Seq<char>>,
    to: Seq<Seq<char>>,
)
    requires
        valid_diff(d, from, to),
        from.len() <= usize::MAX,
        to.len() <= usize::MAX,
    ensures
        forall|i: int| 0 <= i < d.len() ==> record_renderable(#[trigger] d[i]),
{
    assert forall|i: int| 0 <= i < d.len() implies record_renderable(#[trigger] d[i]) by {
        if d[i].old_index is Some {
            assert(is_old(d[i]));
            d.lemma_filter_contains(|r: SpecRecord| is_old(r), i);
            assert(old_records(d).contains(d[i]));
            let j = choose|j: int| 0 <= j < old_records(d).len() && old_records(d)[j] == d[i];
            assert(old_records(d)[j].old_index == Some(j as usize));
        }
        if d[i].new_index is Some {
            assert(is_new(d[i]));
            d.lemma_filter_contains(|r: SpecRecord| is_new(r), i);
            assert(new_records(d).contains(d[i]));
            let j = choose|j: int| 0 <= j < new_records(d).len() && new_records(d)[j] == d[i];
            assert(new_records(d)[j].new_index == Some(j as usize));
        }
    }
}

/// Computes the line diff of two texts: each text is split into lines (with
/// their terminators) and the edit script between the two line sequences is
/// returned. A text diffed against itself yields one Equal record per line,
/// in original order, with matching indices.
pub fn compute_diff(text_from: &str, text_to: &str) -> (r: Vec<ChangeRecord>)
    ensures
        records_view(r@) == line_diff(spec_lines(text_from@), spec_lines(text_to@)),
        valid_diff(records_view(r@), spec_lines(text_from@), spec_lines(text_to@)),
        forall|i: int| 0 <= i < r@.len() ==> record_renderable(#[trigger] records_view(r@)[i]),
        text_from@ == text_to@ ==> {
            &&& r@.len() == spec_lines(text_from@).len()
            &&& forall|i: int|
                0 <= i < r@.len() ==> (#[trigger] records_view(r@)[i]).tag is Equal
                    && records_view(r@)[i].old_index == Some(i as usize)
                    && records_view(r@)[i].new_index == Some(i as usize)
                    && records_view(r@)[i].content == spec_lines(text_from@)[i]
        },
{
    let from_lines = split_lines(text_from);
    let to_lines = split_lines(text_to);
    let r = diff_line_seqs(&from_lines, &to_lines);
    let nf = from_lines.len();
    let nt = to_lines.len();
    proof {
        assert(spec_lines(text_from@).len() == nf && spec_lines(text_to@).len() == nt);
        lemma_valid_diff_renderable(
            records_view(r@),
            spec_lines(text_from@),
            spec_lines(text_to@),
        );
        if text_from@ == text_to@ {
            assert(forall|i: int|
                0 <= i < records_view(r@).len() ==> (#[trigger] records_view(r@)[i]).tag
                    == r@[i].tag);
            lemma_self_diff(records_view(r@), spec_lines(text_from@));
        }
    }
    r
}

} // verus!
