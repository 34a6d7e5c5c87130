use typediff::orchestrate::diff_type_by_name;
use typediff::record::{RenderConfig, SourceDescriptor};

fn descriptor(path: &str, arch: &str) -> SourceDescriptor {
    SourceDescriptor { file_path: path.to_string(), machine_type: arch.to_string() }
}

fn config(show_header: bool, show_line_numbers: bool) -> RenderConfig {
    RenderConfig {
        show_header,
        show_line_numbers,
        reconstruct_dependencies: false,
        print_access_specifiers: false,
    }
}

#[test]
fn both_sides_empty_yield_the_sentinel() {
    let from = descriptor("old.pdb", "X64");
    let to = descriptor("new.pdb", "X64");
    let out = diff_type_by_name("", "", &from, &to, "typediff", "0.1.0", &config(true, true));
    assert_eq!(out, "Error: type not found");
}

#[test]
fn one_empty_side_is_diffed_not_an_error() {
    let from = descriptor("old.pdb", "X64");
    let to = descriptor("new.pdb", "X64");
    let out =
        diff_type_by_name("", "struct A;\n", &from, &to, "typediff", "0.1.0", &config(false, false));
    assert_eq!(out, "+struct A;\n");
}

#[test]
fn removed_type_is_diffed_against_empty() {
    let from = descriptor("old.pdb", "X64");
    let to = descriptor("new.pdb", "X64");
    let out =
        diff_type_by_name("struct A;\n", "", &from, &to, "typediff", "0.1.0", &config(false, true));
    assert_eq!(out, "1  |-struct A;\n");
}

#[test]
fn header_precedes_the_rendered_diff_when_requested() {
    let from = descriptor("old.pdb", "X64");
    let to = descriptor("new.pdb", "X86");
    let out = diff_type_by_name(
        "struct A;\n",
        "struct A;\n",
        &from,
        &to,
        "typediff",
        "0.1.0",
        &config(true, true),
    );
    let expected = "//\n\
                    // Showing differences between two PDB files:\n\
                    //\n\
                    // Reference PDB file: old.pdb\n\
                    // Image architecture: X64\n\
                    //\n\
                    // New PDB file: new.pdb\n\
                    // Image architecture: X86\n\
                    //\n\
                    // Information extracted with typediff v0.1.0\n\
                    //\n\n\
                    1 1| struct A;\n";
    assert_eq!(out, expected);
}

#[test]
fn no_header_when_not_requested() {
    let from = descriptor("old.pdb", "X64");
    let to = descriptor("new.pdb", "X86");
    let out = diff_type_by_name(
        "struct A;\n",
        "struct A;\n",
        &from,
        &to,
        "typediff",
        "0.1.0",
        &config(false, true),
    );
    assert_eq!(out, "1 1| struct A;\n");
}
