//! The provenance header: a fixed comment block naming the two inputs and the
//! tool that produced the reconstruction.

use vstd::prelude::*;

use crate::record::SourceDescriptor;

verus! {

/// The exact text of the header: a banner, the reference input's path and
/// architecture, the new input's path and architecture, and the tool identity,
/// every line prefixed with a comment marker.
pub open spec fn spec_header(
    from_path: Seq<char>,
    from_arch: Seq<char>,
    to_path: Seq<char>,
    to_arch: Seq<char>,
    tool_name: Seq<char>,
    tool_version: Seq<char>,
) -> Seq<char> {
    ("//\n// Showing differences between two PDB files:\n//\n// Reference PDB file: ")@ + from_path
        + ("\n// Image architecture: ")@ + from_arch + ("\n//\n// New PDB file: ")@ + to_path + (
    "\n// Image architecture: ")@ + to_arch + ("\n//\n// Information extracted with ")@ + tool_name
        + (" v")@ + tool_version + ("\n//\n\n")@
}

/// `needle` occurs verbatim somewhere in `hay`.
pub open spec fn contains_seq(hay: Seq<char>, needle: Seq<char>) -> bool {
    exists|i: int|
        0 <= i && i + needle.len() <= hay.len() && #[trigger] hay.subrange(i, i + needle.len())
            == needle
}

/// Builds the provenance comment block for a diff of `from` against `to`,
/// produced by the named tool. Deterministic: the output is a function of the
/// six input strings alone.
pub fn generate_diff_header(
    from: &SourceDescriptor,
    to: &SourceDescriptor,
    tool_name: &str,
    tool_version: &str,
) -> (r: String)
    ensures
        r@ == spec_header(
            from.file_path@,
            from.machine_type@,
            to.file_path@,
            to.machine_type@,
            tool_name@,
            tool_version@,
        ),
{
    let mut out = String::new();
    vstd::string::StringExecFns::append(
        &mut out,
        "//\n// Showing differences between two PDB files:\n//\n// Reference PDB file: ",
    );
    vstd::string::StringExecFns::append(&mut out, from.file_path.as_str());
    vstd::string::StringExecFns::append(&mut out, "\n// Image architecture: ");
    vstd::string::StringExecFns::append(&mut out, from.machine_type.as_str());
    vstd::string::StringExecFns::append(&mut out, "\n//\n// New PDB file: ");
    vstd::string::StringExecFns::append(&mut out, to.file_path.as_str());
    vstd::string::StringExecFns::append(&mut out, "\n// Image architecture: ");
    vstd::string::StringExecFns::append(&mut out, to.machine_type.as_str());
    vstd::string::StringExecFns::append(&mut out, "\n//\n// Information extracted with ");
    vstd::string::StringExecFns::append(&mut out, tool_name);
    vstd::string::StringExecFns::append(&mut out, " v");
    vstd::string::StringExecFns::append(&mut out, tool_version);
    vstd::string::StringExecFns::append(&mut out, "\n//\n\n");
    proof {
        assert(out@ =~= spec_header(
            from.file_path@,
            from.machine_type@,
            to.file_path@,
            to.machine_type@,
            tool_name@,
            tool_version@,
        ));
    }
    out
}

/// Law: the header quotes both file paths, both architecture names, and the
/// tool name and version verbatim.
pub proof fn lemma_header_mentions_inputs(
    from_path: Seq<char>,
    from_arch: Seq<char>,
    to_path: Seq<char>,
    to_arch: Seq<char>,
    tool_name: Seq<char>,
    tool_version: Seq<char>,
)
    ensures
        contains_seq(
            spec_header(from_path, from_arch, to_path, to_arch, tool_name, tool_version),
            from_path,
        ),
        contains_seq(
            spec_header(from_path, from_arch, to_path, to_arch, tool_name, tool_version),
            from_arch,
        ),
        contains_seq(
            spec_header(from_path, from_arch, to_path, to_arch, tool_name, tool_version),
            to_path,
        ),
        contains_seq(
            spec_header(from_path, from_arch, to_path, to_arch, tool_name, tool_version),
            to_arch,
        ),
        contains_seq(
            spec_header(from_path, from_arch, to_path, to_arch, tool_name, tool_version),
            tool_name,
        ),
        contains_seq(
            spec_header(from_path, from_arch, to_path, to_arch, tool_name, tool_version),
            tool_version,
        ),
{
    let h = spec_header(from_path, from_arch, to_path, to_arch, tool_name, tool_version);
    let l1 = ("//\n// Showing differences between two PDB files:\n//\n// Reference PDB file: ")@;
    let l2 = ("\n// Image architecture: ")@;
    let l3 = ("\n//\n// New PDB file: ")@;
    let l4 = ("\n//\n// Information extracted with ")@;
    let l5 = (" v")@;
    let o1 = l1.len() as int;
    let o2 = o1 + from_path.len() + l2.len();
    let o3 = o2 + from_arch.len() + l3.len();
    let o4 = o3 + to_path.len() + l2.len();
    let o5 = o4 + to_arch.len() + l4.len();
    let o6 = o5 + tool_name.len() + l5.len();
    assert(h.subrange(o1, o1 + from_path.len()) =~= from_path);
    assert(h.subrange(o2, o2 + from_arch.len()) =~= from_arch);
    assert(h.subrange(o3, o3 + to_path.len()) =~= to_path);
    assert(h.subrange(o4, o4 + to_arch.len()) =~= to_arch);
    assert(h.subrange(o5, o5 + tool_name.len()) =~= tool_name);
    assert(h.subrange(o6, o6 + tool_version.len()) =~= tool_version);
}

} // verus!
