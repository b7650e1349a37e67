use hailux_tui::picker::{
    file_picker_query, filter_picker_results, listing_pair, mention_for, FilePickerState,
};

#[test]
fn query_after_at_sign() {
    assert_eq!(file_picker_query("@src"), Some("src".to_string()));
    assert_eq!(file_picker_query("look at @ma"), Some("ma".to_string()));
    assert_eq!(file_picker_query("look at @"), Some(String::new()));
    assert_eq!(file_picker_query("mail@host"), None);
    assert_eq!(file_picker_query("@src main"), None);
    assert_eq!(file_picker_query("no mention"), None);
}

fn listed(paths: &[&str]) -> Vec<(String, String)> {
    paths
        .iter()
        .map(|p| (p.to_string(), p.to_lowercase()))
        .collect()
}

#[test]
fn results_match_lower_case_query() {
    let cached = listed(&["src/Main.rs", "README.md", "src/lib.rs"]);
    assert_eq!(
        filter_picker_results(&cached, "MAIN"),
        vec!["src/Main.rs".to_string()]
    );
    assert_eq!(
        filter_picker_results(&cached, "src"),
        vec!["src/Main.rs".to_string(), "src/lib.rs".to_string()]
    );
    assert!(filter_picker_results(&cached, "zzz").is_empty());
}

#[test]
fn results_are_capped() {
    let names: Vec<String> = (0..30).map(|i| format!("file{}.txt", i)).collect();
    let refs: Vec<&str> = names.iter().map(|s| s.as_str()).collect();
    let cached = listed(&refs);
    assert_eq!(filter_picker_results(&cached, "").len(), 20);
    assert_eq!(filter_picker_results(&cached, "file").len(), 15);
    assert_eq!(filter_picker_results(&cached, "")[0], "file0.txt");
}

#[test]
fn reset_closes_picker() {
    let mut p = FilePickerState::new();
    p.active = true;
    p.results.push("a".to_string());
    p.selected = 1;
    p.cached = Some(Vec::new());
    p.reset();
    assert!(!p.active);
    assert!(p.results.is_empty());
    assert_eq!(p.selected, 0);
    assert!(p.cached.is_none());
}

#[test]
fn refresh_opens_on_matches_and_closes_otherwise() {
    let mut picker = FilePickerState::new();
    assert!(picker.needs_listing("see @ma"));
    assert!(!picker.needs_listing("no mention"));
    picker.cached = Some(listed(&["/w/src/Main.rs", "/w/README.md", "/w/src/"]));
    assert!(!picker.needs_listing("see @ma"));
    picker.refresh("see @ma");
    assert!(picker.active);
    assert_eq!(picker.results, vec!["/w/src/Main.rs".to_string()]);
    assert_eq!(picker.selected, 0);
    picker.refresh("see @zzz");
    assert!(!picker.active);
    picker.refresh("see @");
    assert!(picker.active);
    assert_eq!(picker.results.len(), 3);
    picker.refresh("plain text");
    assert!(!picker.active);
}

#[test]
fn mentions_are_relative_and_keep_directory_separator() {
    assert_eq!(
        mention_for("/w/src/a.rs", Some("src/a.rs".to_string()), false),
        ("@src/a.rs".to_string(), "@/w/src/a.rs".to_string())
    );
    assert_eq!(
        mention_for("/w/src/", Some("src".to_string()), false),
        ("@src/".to_string(), "@/w/src/".to_string())
    );
    assert_eq!(
        mention_for("/elsewhere/x", None, false),
        ("@/elsewhere/x".to_string(), "@/elsewhere/x".to_string())
    );
    assert_eq!(
        mention_for("C:\\w\\docs\\", Some("docs".to_string()), true),
        ("@docs\\".to_string(), "@C:\\w\\docs\\".to_string())
    );
}

#[test]
fn selected_mention_strips_work_dir() {
    let mut picker = FilePickerState::new();
    assert!(picker.selected_mention("/w", false).is_none());
    picker.results = vec!["/w/src/a.rs".to_string(), "/w/src/".to_string()];
    picker.selected = 0;
    let (shown, target) = picker.selected_mention("/w", false).unwrap();
    assert_eq!(shown, "@src/a.rs");
    assert_eq!(target, "@/w/src/a.rs");
    picker.selected = 1;
    assert_eq!(picker.selected_mention("/w", false).unwrap().0, "@src/");
}

#[test]
fn image_mentions_still_in_text_are_sent() {
    let mut picker = FilePickerState::new();
    picker.pending_mentions = vec![
        ("@shot.png".to_string(), "@/w/shot.png".to_string()),
        ("@notes.md".to_string(), "@/w/notes.md".to_string()),
        ("@gone.jpg".to_string(), "@/w/gone.jpg".to_string()),
        ("@pic.JPEG".to_string(), "@/w/pic.JPEG".to_string()),
    ];
    let text = "look at @shot.png and @notes.md and @pic.JPEG";
    assert_eq!(
        picker.mention_image_paths(text, false),
        vec!["/w/shot.png".to_string(), "/w/pic.JPEG".to_string()]
    );
    assert!(picker.mention_image_paths("nothing", false).is_empty());
}

#[test]
fn listing_marks_directories_lowercases_and_sorts() {
    let mut p = FilePickerState::new();
    p.set_listing(
        vec![
            ("/w/src/Main.rs".to_string(), false),
            ("/w/Docs".to_string(), true),
            ("/w/src".to_string(), true),
            ("/w/README.md".to_string(), false),
        ],
        '/',
    );
    let cached = p.cached.clone().unwrap();
    assert_eq!(
        cached,
        vec![
            ("/w/Docs/".to_string(), "/w/docs/".to_string()),
            ("/w/README.md".to_string(), "/w/readme.md".to_string()),
            ("/w/src/".to_string(), "/w/src/".to_string()),
            ("/w/src/Main.rs".to_string(), "/w/src/main.rs".to_string()),
        ]
    );
    assert!(!p.active);
    assert_eq!(listing_pair("C:\\W\\Lib", true, '\\'), ("C:\\W\\Lib\\".to_string(), "c:\\w\\lib\\".to_string()));
}
