use renamer::name::CaseInfo;
use renamer::name::CaseType;
use renamer::name::InvalidName;

#[test]
fn test_detect_title_case() {
    let name = "My Project";
    let (case_info, normalized_name) = CaseInfo::detect(name).unwrap();
    assert_eq!(case_info.separator, Some(' '));
    assert_eq!(case_info.part_type, CaseType::Capitalise);
    assert_eq!(normalized_name.parts, vec!["my", "project"]);
}

#[test]
fn test_detect_upper_case() {
    let name = "MY PROJECT";
    let (case_info, normalized_name) = CaseInfo::detect(name).unwrap();
    assert_eq!(case_info.separator, Some(' '));
    assert_eq!(case_info.part_type, CaseType::UpperCase);
    assert_eq!(normalized_name.parts, vec!["my", "project"]);
}

#[test]
fn test_detect_lower_case() {
    let name = "my project";
    let (case_info, normalized_name) = CaseInfo::detect(name).unwrap();
    assert_eq!(case_info.separator, Some(' '));
    assert_eq!(case_info.part_type, CaseType::LowerCase);
    assert_eq!(normalized_name.parts, vec!["my", "project"]);
}

#[test]
fn test_detect_snake_case() {
    let name = "my_project";
    let (case_info, normalized_name) = CaseInfo::detect(name).unwrap();
    assert_eq!(case_info.separator, Some('_'));
    assert_eq!(case_info.part_type, CaseType::LowerCase);
    assert_eq!(normalized_name.parts, vec!["my", "project"]);
}

#[test]
fn test_detect_kebab_case() {
    let name = "my-project";
    let (case_info, normalized_name) = CaseInfo::detect(name).unwrap();
    assert_eq!(case_info.separator, Some('-'));
    assert_eq!(case_info.part_type, CaseType::LowerCase);
    assert_eq!(normalized_name.parts, vec!["my", "project"]);
}

#[test]
fn test_detect_mumble_case() {
    let name = "myproject";
    let (case_info, normalized_name) = CaseInfo::detect(name).unwrap();
    assert_eq!(case_info.separator, None);
    assert_eq!(case_info.part_type, CaseType::LowerCase);
    assert_eq!(normalized_name.parts, vec!["myproject"]);
}

#[test]
fn test_detect_const_case() {
    let name = "MY_PROJECT";
    let (case_info, normalized_name) = CaseInfo::detect(name).unwrap();
    assert_eq!(case_info.separator, Some('_'));
    assert_eq!(case_info.part_type, CaseType::UpperCase);
    assert_eq!(normalized_name.parts, vec!["my", "project"]);
}

#[test]
fn test_convert_title_case() {
    let name = "my project";
    let (_, normalized_name) = CaseInfo::detect(name).unwrap();
    let new_name = CaseInfo::detect("My Project").unwrap().0.convert(&normalized_name).unwrap();
    assert_eq!(new_name, "My Project");
}

#[test]
fn test_convert_upper_case() {
    let name = "my project";
    let (_, normalized_name) = CaseInfo::detect(name).unwrap();
    let new_name = CaseInfo::detect("MY PROJECT").unwrap().0.convert(&normalized_name).unwrap();
    assert_eq!(new_name, "MY PROJECT");
}

#[test]
fn test_convert_lower_case() {
    let name = "My Project";
    let (_, normalized_name) = CaseInfo::detect(name).unwrap();
    let new_name = CaseInfo::detect("my project").unwrap().0.convert(&normalized_name).unwrap();
    assert_eq!(new_name, "my project");
}

#[test]
fn test_convert_snake_case() {
    let name = "my project";
    let (_, normalized_name) = CaseInfo::detect(name).unwrap();
    let new_name = CaseInfo::detect("my_project").unwrap().0.convert(&normalized_name).unwrap();
    assert_eq!(new_name, "my_project");
}

#[test]
fn test_convert_kebab_case() {
    let name = "my project";
    let (_, normalized_name) = CaseInfo::detect(name).unwrap();
    let new_name = CaseInfo::detect("my-project").unwrap().0.convert(&normalized_name).unwrap();
    assert_eq!(new_name, "my-project");
}

#[test]
fn test_convert_mumble_case() {
    let name = "my project";
    let (_, normalized_name) = CaseInfo::detect(name).unwrap();
    let new_name = CaseInfo::detect("myproject").unwrap().0.convert(&normalized_name).unwrap();
    assert_eq!(new_name, "myproject");
}

#[test]
fn test_convert_const_case() {
    let name = "my project";
    let (_, normalized_name) = CaseInfo::detect(name).unwrap();
    let new_name = CaseInfo::detect("MY_PROJECT").unwrap().0.convert(&normalized_name).unwrap();
    assert_eq!(new_name, "MY_PROJECT");
}

#[test]
fn detect_empty_name_is_rejected() {
    assert_eq!(CaseInfo::detect(""), Err(InvalidName));
}

#[test]
fn detect_dot_and_slash_separators() {
    let (case_info, normalized_name) = CaseInfo::detect("my.project").unwrap();
    assert_eq!(case_info.separator, Some('.'));
    assert_eq!(normalized_name.parts, vec!["my", "project"]);
    let (case_info, normalized_name) = CaseInfo::detect("my/project").unwrap();
    assert_eq!(case_info.separator, Some('/'));
    assert_eq!(normalized_name.parts, vec!["my", "project"]);
}

#[test]
fn detect_separator_priority_order() {
    // A space outranks every other separator, whatever comes first in the
    // string.
    let (case_info, normalized_name) = CaseInfo::detect("a_b c").unwrap();
    assert_eq!(case_info.separator, Some(' '));
    assert_eq!(normalized_name.parts, vec!["a_b", "c"]);
}

#[test]
fn detect_non_alphabetic_classifies_as_upper() {
    // Parts without letters pass both case checks vacuously, and the
    // all-uppercase check is made first.
    let (case_info, normalized_name) = CaseInfo::detect("123").unwrap();
    assert_eq!(case_info.separator, None);
    assert_eq!(case_info.part_type, CaseType::UpperCase);
    assert_eq!(normalized_name.parts, vec!["123"]);
}

#[test]
fn detect_mixed_case_classifies_as_capitalise() {
    let (case_info, normalized_name) = CaseInfo::detect("AbCd").unwrap();
    assert_eq!(case_info.separator, None);
    assert_eq!(case_info.part_type, CaseType::Capitalise);
    assert_eq!(normalized_name.parts, vec!["abcd"]);
    // The part boundaries of a multi-part capitalized rendering without a
    // separator are lost: re-rendering gives the single-part capitalization.
    let rendered = case_info.convert(&normalized_name).unwrap();
    assert_eq!(rendered, "Abcd");
}

#[test]
fn convert_capitalise_rejects_empty_part() {
    let (_, normalized_name) = CaseInfo::detect("_a").unwrap();
    assert_eq!(normalized_name.parts, vec!["", "a"]);
    let capitalised = CaseInfo { separator: Some('_'), part_type: CaseType::Capitalise };
    assert_eq!(capitalised.convert(&normalized_name), Err(InvalidName));
}

#[test]
fn convert_lower_accepts_empty_part() {
    let (case_info, normalized_name) = CaseInfo::detect("_a").unwrap();
    assert_eq!(case_info.part_type, CaseType::LowerCase);
    assert_eq!(case_info.convert(&normalized_name).unwrap(), "_a");
}

#[test]
fn lower_mumble_rendering_concatenates_parts() {
    // Rendering with no separator in lowercase yields exactly the parts,
    // concatenated: order and content survive every rendering.
    let (_, parts) = CaseInfo::detect("my-project").unwrap();
    let mumble = CaseInfo { separator: None, part_type: CaseType::LowerCase };
    assert_eq!(mumble.convert(&parts).unwrap(), "myproject");
}

#[test]
fn all_cases_grid_order() {
    let cases = CaseInfo::all_cases();
    assert_eq!(cases.len(), 18);
    assert_eq!(cases[0], CaseInfo { separator: None, part_type: CaseType::Capitalise });
    assert_eq!(cases[1], CaseInfo { separator: Some(' '), part_type: CaseType::Capitalise });
    assert_eq!(cases[5], CaseInfo { separator: Some('/'), part_type: CaseType::Capitalise });
    assert_eq!(cases[6], CaseInfo { separator: None, part_type: CaseType::UpperCase });
    assert_eq!(cases[12], CaseInfo { separator: None, part_type: CaseType::LowerCase });
    assert_eq!(cases[17], CaseInfo { separator: Some('/'), part_type: CaseType::LowerCase });
}

#[test]
fn render_round_trip_across_grid() {
    // Rendering a well-formed name under a grid convention and detecting the
    // result reproduces the rendered string, except for the capitalized
    // no-separator combination, where part boundaries are lost.
    let (_, name) = CaseInfo::detect("my test name").unwrap();
    for case_info in CaseInfo::all_cases() {
        let rendered = case_info.convert(&name).unwrap();
        let (detected, parts) = CaseInfo::detect(&rendered).unwrap();
        let rerendered = detected.convert(&parts).unwrap();
        if case_info.separator.is_none() && case_info.part_type == CaseType::Capitalise {
            assert_eq!(rerendered, "Mytestname");
        } else {
            assert_eq!(rerendered, rendered);
        }
    }
}
