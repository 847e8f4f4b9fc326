use filigram::plan::mirror_path;
use filigram::rules::Rules;
use filigram::{plan_entries, Entry, ProcessError};

fn entry(path: &str, is_dir: bool) -> Entry {
    Entry { path: path.to_string(), is_dir }
}

fn tool_rules() -> Rules {
    Rules {
        excluded_dirs: vec![".hidden".to_string()],
        authorized_extensions: vec!["jpg".to_string(), "png".to_string()],
        excluded_files: vec!["background".to_string()],
    }
}

#[test]
fn scenario_three_dirs_seven_files() {
    let entries = vec![
        entry("/in", true),
        entry("/in/a.jpg", false),
        entry("/in/notes.txt", false),
        entry("/in/sub", true),
        entry("/in/sub/b.PNG", false),
        entry("/in/sub/background.png", false),
        entry("/in/.hidden", true),
        entry("/in/.hidden/c.jpg", false),
        entry("/in/.hidden/d.gif", false),
        entry("/in/readme", false),
    ];
    let plan = plan_entries(&tool_rules(), "/in", "/out", &entries).unwrap();
    assert_eq!(plan.dirs, vec!["/out".to_string(), "/out/sub".to_string(), "/out/.hidden".to_string()]);
    assert_eq!(plan.files.len(), 7);
    let marked: Vec<&str> = plan.files.iter().filter(|t| t.watermark).map(|t| t.dest.as_str()).collect();
    assert_eq!(marked, vec!["/out/a.jpg", "/out/sub/b.PNG"]);
    let copied = plan.files.iter().filter(|t| !t.watermark).count();
    assert_eq!(copied, 5);
    assert_eq!(plan.files[1].source, "/in/notes.txt");
    assert_eq!(plan.files[1].dest, "/out/notes.txt");
    assert_eq!(plan.dirs.len() + plan.files.len(), 10);
}

#[test]
fn entry_outside_root_is_an_error() {
    let entries = vec![entry("/in", true), entry("/elsewhere/a.jpg", false)];
    let r = plan_entries(&tool_rules(), "/in", "/out", &entries);
    assert!(matches!(r, Err(ProcessError::FsError(p)) if p == "/elsewhere/a.jpg"));
}

#[test]
fn empty_walk_gives_empty_plan() {
    let plan = plan_entries(&tool_rules(), "/in", "/out", &vec![]).unwrap();
    assert!(plan.dirs.is_empty());
    assert!(plan.files.is_empty());
}

#[test]
fn mirroring_paths() {
    assert_eq!(mirror_path("/in", "/out", "/in/a/b.jpg"), Some("/out/a/b.jpg".to_string()));
    assert_eq!(mirror_path("/in/", "/out/", "/in/a"), Some("/out/a".to_string()));
    assert_eq!(mirror_path("/in", "/out", "/in"), Some("/out".to_string()));
    assert_eq!(mirror_path("in", "out", "in//x"), Some("out/x".to_string()));
    assert_eq!(mirror_path("/in", "/out", "/inside/x"), None);
    assert_eq!(mirror_path("/in", "/out", "/i"), None);
    assert_eq!(mirror_path("", "out", "a/b"), Some("out/a/b".to_string()));
}
