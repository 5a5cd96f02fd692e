use petruterm_shell::branches::{branch_names, branch_picker_labels};

#[test]
fn branch_names_trims_drops_blank_lines_and_sorts() {
    let out = "main\n  feature/x \n\n\tdev\r\n";
    assert_eq!(branch_names(out), vec!["dev".to_string(), "feature/x".to_string(), "main".to_string()]);
}

#[test]
fn branch_names_keeps_duplicates_and_handles_missing_final_newline() {
    assert_eq!(branch_names("b\na\nb"), vec!["a".to_string(), "b".to_string(), "b".to_string()]);
}

#[test]
fn branch_names_of_empty_output_is_empty() {
    assert!(branch_names("").is_empty());
    assert!(branch_names("\n \n").is_empty());
}

#[test]
fn branch_names_orders_by_code_point() {
    assert_eq!(branch_names("a\nB\nab\n"), vec!["B".to_string(), "a".to_string(), "ab".to_string()]);
}

#[test]
fn branch_picker_marks_current_branch() {
    let branches = vec!["dev".to_string(), "main".to_string()];
    let labels = branch_picker_labels(&branches, "main*").unwrap();
    assert_eq!(labels, vec!["  dev".to_string(), "  main  \u{2713}".to_string()]);
}

#[test]
fn branch_picker_without_current_branch_marks_nothing() {
    let branches = vec!["dev".to_string()];
    assert_eq!(branch_picker_labels(&branches, ""), Some(vec!["  dev".to_string()]));
}

#[test]
fn branch_picker_with_no_branches_closes() {
    assert_eq!(branch_picker_labels(&[], "main"), None);
}
