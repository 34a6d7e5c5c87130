use typediff::engine::compute_diff;
use typediff::lines::split_lines;
use typediff::record::ChangeTag;

#[test]
fn split_empty_text_has_no_lines() {
    let lines = split_lines("");
    assert_eq!(lines.len(), 0);
}

#[test]
fn split_keeps_terminators() {
    let lines = split_lines("A\nB\nC\n");
    assert_eq!(lines, vec!["A\n".to_string(), "B\n".to_string(), "C\n".to_string()]);
}

#[test]
fn split_final_fragment_without_terminator_is_a_line() {
    let lines = split_lines("A\nB");
    assert_eq!(lines, vec!["A\n".to_string(), "B".to_string()]);
}

#[test]
fn split_keeps_carriage_return_inside_line() {
    let lines = split_lines("A\r\nB\n");
    assert_eq!(lines, vec!["A\r\n".to_string(), "B\n".to_string()]);
}

#[test]
fn split_empty_lines_kept() {
    let lines = split_lines("\n\n");
    assert_eq!(lines, vec!["\n".to_string(), "\n".to_string()]);
}

#[test]
fn split_join_roundtrip() {
    for text in ["", "A", "A\n", "A\nB", "one\r\ntwo\n\nthree"] {
        let joined: String = split_lines(text).concat();
        assert_eq!(joined, text);
    }
}

#[test]
fn self_diff_is_all_equal_in_order() {
    let d = compute_diff("A\nB\nC\n", "A\nB\nC\n");
    assert_eq!(d.len(), 3);
    for (k, rec) in d.iter().enumerate() {
        assert_eq!(rec.tag, ChangeTag::Equal);
        assert_eq!(rec.old_index, Some(k));
        assert_eq!(rec.new_index, Some(k));
    }
    assert_eq!(d[0].content, "A\n");
    assert_eq!(d[1].content, "B\n");
    assert_eq!(d[2].content, "C\n");
}

#[test]
fn one_changed_line_gives_equal_delete_insert_equal() {
    let d = compute_diff("A\nB\nC\n", "A\nX\nC\n");
    assert_eq!(d.len(), 4);
    assert_eq!(d[0].tag, ChangeTag::Equal);
    assert_eq!(d[0].old_index, Some(0));
    assert_eq!(d[0].new_index, Some(0));
    assert_eq!(d[0].content, "A\n");
    assert_eq!(d[1].tag, ChangeTag::Delete);
    assert_eq!(d[1].old_index, Some(1));
    assert_eq!(d[1].new_index, None);
    assert_eq!(d[1].content, "B\n");
    assert_eq!(d[2].tag, ChangeTag::Insert);
    assert_eq!(d[2].old_index, None);
    assert_eq!(d[2].new_index, Some(1));
    assert_eq!(d[2].content, "X\n");
    assert_eq!(d[3].tag, ChangeTag::Equal);
    assert_eq!(d[3].old_index, Some(2));
    assert_eq!(d[3].new_index, Some(2));
    assert_eq!(d[3].content, "C\n");
}

#[test]
fn diff_indices_enumerate_both_texts() {
    let d = compute_diff("A\nB\n", "C\n");
    let old_indices: Vec<usize> =
        d.iter().filter(|r| r.tag != ChangeTag::Insert).map(|r| r.old_index.unwrap()).collect();
    let new_indices: Vec<usize> =
        d.iter().filter(|r| r.tag != ChangeTag::Delete).map(|r| r.new_index.unwrap()).collect();
    assert_eq!(old_indices, vec![0, 1]);
    assert_eq!(new_indices, vec![0]);
    let old_contents: Vec<&str> = d
        .iter()
        .filter(|r| r.tag != ChangeTag::Insert)
        .map(|r| r.content.as_str())
        .collect();
    assert_eq!(old_contents, vec!["A\n", "B\n"]);
}

#[test]
fn empty_side_diffs_as_pure_insertions() {
    let d = compute_diff("", "X\nY\n");
    assert_eq!(d.len(), 2);
    assert_eq!(d[0].tag, ChangeTag::Insert);
    assert_eq!(d[0].old_index, None);
    assert_eq!(d[0].new_index, Some(0));
    assert_eq!(d[0].content, "X\n");
    assert_eq!(d[1].tag, ChangeTag::Insert);
    assert_eq!(d[1].new_index, Some(1));
}

#[test]
fn both_empty_diff_has_no_records() {
    let d = compute_diff("", "");
    assert_eq!(d.len(), 0);
}

#[test]
fn disjoint_texts_delete_then_insert() {
    let d = compute_diff("A\n", "B\n");
    assert_eq!(d.len(), 2);
    assert_eq!(d[0].tag, ChangeTag::Delete);
    assert_eq!(d[0].old_index, Some(0));
    assert_eq!(d[0].content, "A\n");
    assert_eq!(d[1].tag, ChangeTag::Insert);
    assert_eq!(d[1].new_index, Some(0));
    assert_eq!(d[1].content, "B\n");
}
