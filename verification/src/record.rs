//! The data model of a computed diff: one record per line of output, plus the
//! configuration and source-description types that rendering consumes.

use vstd::prelude::*;

verus! {

/// How a line changed between the old and the new text.
#[derive(Clone, Copy, Debug, PartialEq, Eq, Structural)]
pub enum ChangeTag {
    /// The line is present in the old text only.
    Delete,
    /// The line is present in the new text only.
    Insert,
    /// The line is present in both texts.
    Equal,
}

/// One line of a diff: its tag, its zero-based position in the old and in the
/// new line sequence (each present exactly when the tag concerns that side),
/// and the line's text including its terminator.
#[derive(Debug)]
pub struct ChangeRecord {
    pub tag: ChangeTag,
    pub old_index: Option<usize>,
    pub new_index: Option<usize>,
    pub content: String,
}

/// The mathematical shadow of a [`ChangeRecord`]: the same fields with the
/// line's text as a character sequence.
pub struct SpecRecord {
    pub tag: ChangeTag,
    pub old_index: Option<usize>,
    pub new_index: Option<usize>,
    pub content: Seq<char>,
}

impl View for ChangeRecord {
    type V = SpecRecord;

    open spec fn view(&self) -> SpecRecord {
        SpecRecord {
            tag: self.tag,
            old_index: self.old_index,
            new_index: self.new_index,
            content: self.content@,
        }
    }
}

/// The element-wise views of a record sequence.
pub open spec fn records_view(d: Seq<ChangeRecord>) -> Seq<SpecRecord> {
    d.map_values(|r: ChangeRecord| r@)
}

/// Rendering configuration. The last two switches are forwarded to the
/// reconstruction provider by the caller; rendering itself does not read them.
#[derive(Clone, Copy, Debug, PartialEq, Eq, Structural)]
pub struct RenderConfig {
    pub show_header: bool,
    pub show_line_numbers: bool,
    pub reconstruct_dependencies: bool,
    pub print_access_specifiers: bool,
}

/// Describes one of the two diffed inputs for header purposes.
#[derive(Debug)]
pub struct SourceDescriptor {
    pub file_path: String,
    pub machine_type: String,
}

/// The record speaks of the old text.
pub open spec fn is_old(r: SpecRecord) -> bool {
    r.tag is Delete || r.tag is Equal
}

/// The record speaks of the new text.
pub open spec fn is_new(r: SpecRecord) -> bool {
    r.tag is Insert || r.tag is Equal
}

/// Each index is present exactly when the tag concerns its side.
pub open spec fn wf_record(r: SpecRecord) -> bool {
    &&& r.old_index is Some <==> is_old(r)
    &&& r.new_index is Some <==> is_new(r)
}

/// The subsequence of records that concern the old text, in order.
pub open spec fn old_records(d: Seq<SpecRecord>) -> Seq<SpecRecord> {
    d.filter(|r: SpecRecord| is_old(r))
}

/// The subsequence of records that concern the new text, in order.
pub open spec fn new_records(d: Seq<SpecRecord>) -> Seq<SpecRecord> {
    d.filter(|r: SpecRecord| is_new(r))
}

/// What makes a record sequence a diff of `from` against `to`: every record is
/// well formed; the records that concern the old text enumerate exactly the
/// old lines, in order and under their own indices; and likewise for the new
/// text. An Equal record therefore carries a line common to both texts.
pub open spec fn valid_diff(d: Seq<SpecRecord>, from: Seq<Seq<char>>, to: Seq<Seq<char>>) -> bool {
    &&& forall|i: int| 0 <= i < d.len() ==> wf_record(#[trigger] d[i])
    &&& old_records(d).len() == from.len()
    &&& forall|i: int|
        0 <= i < from.len() ==> (#[trigger] old_records(d)[i]).old_index == Some(i as usize)
            && old_records(d)[i].content == from[i]
    &&& new_records(d).len() == to.len()
    &&& forall|i: int|
        0 <= i < to.len() ==> (#[trigger] new_records(d)[i]).new_index == Some(i as usize)
            && new_records(d)[i].content == to[i]
}

/// A filter whose predicate holds of every element filters nothing out.
pub proof fn lemma_filter_all<A>(s: Seq<A>, pred: spec_fn(A) -> bool)
    requires
        forall|i: int| 0 <= i < s.len() ==> pred(#[trigger] s[i]),
    ensures
        s.filter(pred) == s,
    decreases s.len(),
{
    reveal(Seq::filter);
    if s.len() == 0 {
        assert(s.filter(pred) =~= s);
    } else {
        lemma_filter_all(s.drop_last(), pred);
        assert(pred(s.last()));
        assert(s.filter(pred) =~= s.drop_last().push(s.last()));
        assert(s.drop_last().push(s.last()) =~= s);
    }
}

} // verus!
