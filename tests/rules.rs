use filigram::rules::Rules;

fn scenario_rules() -> Rules {
    Rules {
        excluded_dirs: vec![".hidden".to_string()],
        authorized_extensions: vec!["jpg".to_string(), "png".to_string()],
        excluded_files: vec!["background".to_string()],
    }
}

#[test]
fn scenario_classification() {
    let rules = scenario_rules();
    assert!(!rules.is_file_qualified("/root/.hidden/a.jpg"));
    assert!(!rules.is_file_qualified("/root/background.png"));
    assert!(rules.is_file_qualified("/root/photo.PNG"));
    assert!(!rules.is_file_qualified("/root/doc.txt"));
}

#[test]
fn classification_is_repeatable() {
    let rules = scenario_rules();
    for p in ["/root/photo.PNG", "/root/.hidden/a.jpg", "x", "/a/b.jpg"] {
        assert_eq!(rules.is_file_qualified(p), rules.is_file_qualified(p));
    }
}

#[test]
fn directory_names_match_whole_segments_only() {
    let rules = scenario_rules();
    assert!(rules.is_file_qualified("/root/.hiddenx/a.jpg"));
    assert!(rules.is_file_qualified("/root/x.hidden/a.jpg"));
    assert!(!rules.is_file_qualified(".hidden/a.jpg"));
    assert!(!rules.is_file_qualified("/root//.hidden//a.jpg"));
}

#[test]
fn prefixes_apply_to_the_file_name_only() {
    let rules = scenario_rules();
    assert!(rules.is_file_qualified("/background/a.jpg"));
    assert!(!rules.is_file_qualified("/x/backgrounds.jpg"));
    assert!(rules.is_file_qualified("/x/Background.jpg"));
}

#[test]
fn files_without_extension_are_not_eligible() {
    let rules = scenario_rules();
    assert!(!rules.is_file_qualified("/root/jpg"));
    assert!(!rules.is_file_qualified("/root/.png"));
    assert!(!rules.is_file_qualified(""));
    assert!(!rules.is_file_qualified("/"));
    assert!(!rules.is_file_qualified("/root/a.png/.."));
    assert!(rules.is_file_qualified("/root/a.b.png"));
    assert!(rules.is_file_qualified("/root/a.png/"));
}

#[test]
fn extension_decision_after_lowering() {
    let rules = scenario_rules();
    let allowed = vec!["jpg".to_string(), "png".to_string()];
    assert!(rules.qualifies_with_lowered("/root/photo.PNG", "png", &allowed));
    assert!(!rules.qualifies_with_lowered("/root/photo.PNG", "PNG", &allowed));
    assert!(!rules.qualifies_with_lowered("/root/photo", "png", &allowed));
    assert!(!rules.qualifies_with_lowered("/root/photo.PNG", "png", &vec![]));
}

#[test]
fn allowed_extensions_are_case_insensitive() {
    let rules = Rules {
        excluded_dirs: vec![],
        authorized_extensions: vec!["PNG".to_string(), "JpG".to_string()],
        excluded_files: vec![],
    };
    assert!(rules.is_file_qualified("/root/photo.png"));
    assert!(rules.is_file_qualified("/root/photo.Png"));
    assert!(rules.is_file_qualified("/root/photo.jpg"));
    assert!(!rules.is_file_qualified("/root/photo.gif"));
}

#[test]
fn dot_segments_follow_path_components() {
    let rules = scenario_rules();
    assert!(rules.is_file_qualified("/root/a.png/."));
    assert!(rules.is_file_qualified("/root/./a.png"));
    let dot = Rules {
        excluded_dirs: vec![".".to_string()],
        authorized_extensions: vec!["png".to_string()],
        excluded_files: vec![],
    };
    assert!(!dot.is_file_qualified("./a.png"));
    assert!(dot.is_file_qualified("/x/./a.png"));
}

#[test]
fn empty_rules_accept_nothing() {
    let rules = Rules { excluded_dirs: vec![], authorized_extensions: vec![], excluded_files: vec![] };
    assert!(!rules.is_file_qualified("/a/b.jpg"));
}

#[test]
fn empty_prefix_excludes_every_file() {
    let rules = Rules {
        excluded_dirs: vec![],
        authorized_extensions: vec!["jpg".to_string()],
        excluded_files: vec![String::new()],
    };
    assert!(!rules.is_file_qualified("/a/b.jpg"));
}
