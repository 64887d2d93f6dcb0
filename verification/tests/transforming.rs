use renamer::name::CaseInfo;
use renamer::name::InvalidName;
use renamer::name::NormalizedName;
use renamer::transform::transform_text;

#[test]
fn transform_title_case_occurrence() {
    let old_name = CaseInfo::detect("test-project").unwrap().1;
    let new_name = CaseInfo::detect("copied-project").unwrap().1;
    assert_eq!(transform_text("Test Project", &old_name, &new_name).unwrap(), "Copied Project");
}

#[test]
fn transform_snake_case_occurrence() {
    let old_name = CaseInfo::detect("test-project").unwrap().1;
    let new_name = CaseInfo::detect("copied-project").unwrap().1;
    assert_eq!(transform_text("test_project", &old_name, &new_name).unwrap(), "copied_project");
}

#[test]
fn transform_file_content() {
    let old_name = CaseInfo::detect("test-project").unwrap().1;
    let new_name = CaseInfo::detect("copied-project").unwrap().1;
    assert_eq!(transform_text("test-project", &old_name, &new_name).unwrap(), "copied-project");
}

#[test]
fn transform_mixed_document() {
    let old_name = CaseInfo::detect("test-project").unwrap().1;
    let new_name = CaseInfo::detect("copied-project").unwrap().1;
    let input = "TestProject lives in test_project/ and is built as TEST-PROJECT.";
    let expected = "CopiedProject lives in copied_project/ and is built as COPIED-PROJECT.";
    assert_eq!(transform_text(input, &old_name, &new_name).unwrap(), expected);
}

#[test]
fn transform_leaves_unrelated_text_alone() {
    let old_name = CaseInfo::detect("test-project").unwrap().1;
    let new_name = CaseInfo::detect("copied-project").unwrap().1;
    let input = "nothing to see here";
    assert_eq!(transform_text(input, &old_name, &new_name).unwrap(), input);
}

#[test]
fn transform_same_name_is_identity() {
    let name = CaseInfo::detect("test-project").unwrap().1;
    let input = "Test Project, test_project, TEST-PROJECT, testproject, wild TeSt text";
    assert_eq!(transform_text(input, &name, &name).unwrap(), input);
}

#[test]
fn transform_rejects_empty_part() {
    let broken = NormalizedName { parts: vec![String::new(), String::from("a")] };
    let name = CaseInfo::detect("fine-name").unwrap().1;
    assert_eq!(transform_text("text", &broken, &name), Err(InvalidName));
    assert_eq!(transform_text("text", &name, &broken), Err(InvalidName));
}

#[test]
fn transform_single_letter_name() {
    let old_name = CaseInfo::detect("a").unwrap().1;
    let new_name = CaseInfo::detect("b").unwrap().1;
    assert_eq!(transform_text("a A a", &old_name, &new_name).unwrap(), "b B b");
}
