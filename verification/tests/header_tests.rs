use typediff::header::generate_diff_header;
use typediff::record::SourceDescriptor;

fn descriptor(path: &str, arch: &str) -> SourceDescriptor {
    SourceDescriptor { file_path: path.to_string(), machine_type: arch.to_string() }
}

#[test]
fn header_has_the_fixed_shape() {
    let from = descriptor("old.pdb", "X64");
    let to = descriptor("new.pdb", "X86");
    let h = generate_diff_header(&from, &to, "typediff", "0.1.0");
    let expected = "//\n\
                    // Showing differences between two PDB files:\n\
                    //\n\
                    // Reference PDB file: old.pdb\n\
                    // Image architecture: X64\n\
                    //\n\
                    // New PDB file: new.pdb\n\
                    // Image architecture: X86\n\
                    //\n\
                    // Information extracted with typediff v0.1.0\n\
                    //\n\n";
    assert_eq!(h, expected);
}

#[test]
fn header_quotes_inputs_verbatim() {
    let from = descriptor("/tmp/a b/original.pdb", "Amd64");
    let to = descriptor("C:\\data\\updated.pdb", "Arm64");
    let h = generate_diff_header(&from, &to, "some-tool", "9.9.9");
    assert!(h.contains("/tmp/a b/original.pdb"));
    assert!(h.contains("C:\\data\\updated.pdb"));
    assert!(h.contains("Amd64"));
    assert!(h.contains("Arm64"));
    assert!(h.contains("some-tool"));
    assert!(h.contains("9.9.9"));
}

#[test]
fn header_is_deterministic() {
    let from = descriptor("one.pdb", "X64");
    let to = descriptor("two.pdb", "X64");
    let first = generate_diff_header(&from, &to, "tool", "1.2.3");
    let second = generate_diff_header(&from, &to, "tool", "1.2.3");
    assert_eq!(first, second);
}
