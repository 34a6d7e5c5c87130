//! The top-level operation: given the two reconstructed texts of a named type
//! (already fetched by the caller from its symbol sources), either report that
//! the type was found on neither side, or emit the optional provenance header
//! followed by the rendered line diff.

use vstd::prelude::*;

use crate::engine::{compute_diff, line_diff};
use crate::header::{generate_diff_header, spec_header};
use crate::lines::{lemma_spec_lines_len_pos, spec_lines};
use crate::record::{new_records, old_records, records_view, RenderConfig, SourceDescriptor};
use crate::render::{is_row_start, lemma_render_first_char, render, spec_render};

verus! {

/// The sentinel reported when neither side yields any text for the type.
pub open spec fn not_found_text() -> Seq<char> {
    ("Error: type not found")@
}

/// The whole output of a diff request: the sentinel when both reconstructed
/// texts are empty; otherwise the provenance header (when asked for) followed
/// by the rendered line diff of the two texts.
pub open spec fn spec_diff_output(
    text_from: Seq<char>,
    text_to: Seq<char>,
    from_path: Seq<char>,
    from_arch: Seq<char>,
    to_path: Seq<char>,
    to_arch: Seq<char>,
    tool_name: Seq<char>,
    tool_version: Seq<char>,
    config: RenderConfig,
) -> Seq<char> {
    if text_from.len() == 0 && text_to.len() == 0 {
        not_found_text()
    } else {
        (if config.show_header {
            spec_header(from_path, from_arch, to_path, to_arch, tool_name, tool_version)
        } else {
            Seq::empty()
        }) + spec_render(
            line_diff(spec_lines(text_from), spec_lines(text_to)),
            config.show_line_numbers,
        )
    }
}

/// Diffs the two reconstructed texts of one named type. A type absent on both
/// sides yields the sentinel, and nothing else ever yields it; a text present
/// on one side only is diffed against the empty text. The caller fetches the
/// two texts from its symbol sources and downgrades a failed fetch to the
/// empty text before calling.
pub fn diff_type_by_name(
    text_from: &str,
    text_to: &str,
    from: &SourceDescriptor,
    to: &SourceDescriptor,
    tool_name: &str,
    tool_version: &str,
    config: &RenderConfig,
) -> (r: String)
    ensures
        r@ == spec_diff_output(
            text_from@,
            text_to@,
            from.file_path@,
            from.machine_type@,
            to.file_path@,
            to.machine_type@,
            tool_name@,
            tool_version@,
            *config,
        ),
        r@ == not_found_text() <==> (text_from@.len() == 0 && text_to@.len() == 0),
{
    if text_from.is_empty() && text_to.is_empty() {
        let r = <String as vstd::string::StringExecFns>::from_str("Error: type not found");
        return r;
    }
    let mut out = String::new();
    if config.show_header {
        let h = generate_diff_header(from, to, tool_name, tool_version);
        vstd::string::StringExecFns::append(&mut out, h.as_str());
    }
    let diff = compute_diff(text_from, text_to);
    proof {
        assert forall|i: int| 0 <= i < diff@.len() implies crate::render::record_renderable(
            #[trigger] diff@[i]@,
        ) by {
            assert(records_view(diff@)[i] == diff@[i]@);
        }
    }
    let rendered = render(&diff, config);
    vstd::string::StringExecFns::append(&mut out, rendered.as_str());
    proof {
        let d = records_view(diff@);
        assert(d.len() > 0) by {
            if text_from@.len() > 0 {
                lemma_spec_lines_len_pos(text_from@);
                if d.len() == 0 {
                    assert(old_records(d) =~= Seq::<crate::record::SpecRecord>::empty());
                }
            } else {
                lemma_spec_lines_len_pos(text_to@);
                if d.len() == 0 {
                    assert(new_records(d) =~= Seq::<crate::record::SpecRecord>::empty());
                }
            }
        }
        lemma_render_first_char(d, config.show_line_numbers);
        reveal_strlit("Error: type not found");
        assert(not_found_text()[0] == 'E');
        if config.show_header {
            reveal_strlit("//\n// Showing differences between two PDB files:\n//\n// Reference PDB file: ");
            assert(out@[0] == '/');
        } else {
            assert(out@ =~= spec_render(
                line_diff(spec_lines(text_from@), spec_lines(text_to@)),
                config.show_line_numbers,
            ));
            assert(is_row_start(out@[0]));
        }
        assert(out@ != not_found_text());
    }
    out
}

} // verus!
