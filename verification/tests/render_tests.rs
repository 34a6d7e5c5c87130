use typediff::engine::compute_diff;
use typediff::record::{ChangeRecord, ChangeTag, RenderConfig};
use typediff::render::{int_log10, render, usize_to_string};

fn config(show_line_numbers: bool) -> RenderConfig {
    RenderConfig {
        show_header: false,
        show_line_numbers,
        reconstruct_dependencies: false,
        print_access_specifiers: false,
    }
}

#[test]
fn gutter_width_reserves_one_column_for_zero_records() {
    assert_eq!(int_log10(0), 1);
}

#[test]
fn gutter_width_by_record_count() {
    assert_eq!(int_log10(1), 1);
    assert_eq!(int_log10(9), 1);
    assert_eq!(int_log10(10), 2);
    assert_eq!(int_log10(9999), 4);
    assert_eq!(int_log10(10000), 5);
}

#[test]
fn decimal_rendering_is_exact() {
    assert_eq!(usize_to_string(0), "0");
    assert_eq!(usize_to_string(7), "7");
    assert_eq!(usize_to_string(12345), "12345");
}

#[test]
fn rendered_rows_with_line_numbers() {
    let d = compute_diff("A\nB\nC\n", "A\nX\nC\n");
    let out = render(&d, &config(true));
    assert_eq!(out, "1 1| A\n2  |-B\n  2|+X\n3 3| C\n");
}

#[test]
fn rendered_rows_without_line_numbers() {
    let d = compute_diff("A\nB\nC\n", "A\nX\nC\n");
    let out = render(&d, &config(false));
    assert_eq!(out, " A\n-B\n+X\n C\n");
}

#[test]
fn rendering_without_line_numbers_has_no_separator() {
    let d = compute_diff("A\nB\nC\nD\n", "A\nC\nD\nE\n");
    let out = render(&d, &config(false));
    assert!(!out.contains('|'));
}

#[test]
fn rendering_empty_diff_is_empty() {
    let d: Vec<ChangeRecord> = Vec::new();
    let out = render(&d, &config(true));
    assert_eq!(out, "");
}

#[test]
fn gutter_columns_align_on_two_digit_counts() {
    let text: String = (0..10).map(|k| format!("line{}\n", k)).collect();
    let d = compute_diff(&text, &text);
    assert_eq!(d.len(), 10);
    let out = render(&d, &config(true));
    let rows: Vec<&str> = out.lines().collect();
    assert_eq!(rows[0], " 1  1| line0");
    assert_eq!(rows[9], "10 10| line9");
}

#[test]
fn content_without_terminator_rendered_verbatim() {
    let d = vec![ChangeRecord {
        tag: ChangeTag::Delete,
        old_index: Some(4),
        new_index: None,
        content: "tail".to_string(),
    }];
    let out = render(&d, &config(true));
    assert_eq!(out, "5  |-tail");
}
