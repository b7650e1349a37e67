use hailux_tui::command::{
    build_all_entries, command_action, command_prefix, init_blocked_notice, filter_completions, match_command, parse_slash_input,
    Command, CommandAction, CommandEntry, CommandRegistry, CommandSuggestion, MatchedCommand,
};

fn empty_registry() -> CommandRegistry {
    CommandRegistry::default()
}

#[test]
fn parse_slash_no_args() {
    let (name, args) = parse_slash_input("/exit").unwrap();
    assert_eq!(name, "exit");
    assert_eq!(args, "");
}

#[test]
fn parse_slash_with_args() {
    let (name, args) = parse_slash_input("/review fix bug").unwrap();
    assert_eq!(name, "review");
    assert_eq!(args, "fix bug");
}

#[test]
fn parse_slash_not_command() {
    assert!(parse_slash_input("hello").is_none());
}

#[test]
fn match_ui_command_exit() {
    let reg = empty_registry();
    match match_command("/exit", &reg).unwrap() {
        MatchedCommand::Ui(Command::Exit) => {}
        _ => panic!("expected Exit"),
    }
}

#[test]
fn match_compact_command() {
    let reg = empty_registry();
    match match_command("/compact", &reg).unwrap() {
        MatchedCommand::Ui(Command::Compact) => {}
        _ => panic!("expected Compact"),
    }
}

#[test]
fn compact_in_command_entries() {
    let reg = empty_registry();
    let entries = build_all_entries(&reg);
    assert!(entries.iter().any(|e| e.name == "compact"));
}

#[test]
fn match_ui_command_aliases() {
    let reg = empty_registry();
    assert!(matches!(
        match_command("/quit", &reg),
        Some(MatchedCommand::Ui(Command::Exit))
    ));
    assert!(matches!(
        match_command("/q", &reg),
        Some(MatchedCommand::Ui(Command::Exit))
    ));
}

#[test]
fn match_unknown_returns_none() {
    let reg = empty_registry();
    assert!(match_command("/nonexistent", &reg).is_none());
}

#[test]
fn build_entries_includes_ui_commands() {
    let reg = empty_registry();
    let entries = build_all_entries(&reg);
    assert!(entries.iter().any(|e| e.name == "sessions"));
    assert!(entries.iter().any(|e| e.name == "exit"));
}

#[test]
fn filter_completions_empty_prefix() {
    let reg = empty_registry();
    let entries = build_all_entries(&reg);
    let result = filter_completions(&entries, "");
    assert_eq!(result.len(), entries.len());
}

#[test]
fn filter_completions_partial() {
    let reg = empty_registry();
    let entries = build_all_entries(&reg);
    let result = filter_completions(&entries, "s");
    assert!(result.iter().any(|&i| entries[i].name == "sessions"));
    assert!(result.iter().any(|&i| entries[i].name == "skills"));
}

#[test]
fn parse_slash_trims_and_rejects_bare_slash() {
    let (name, args) = parse_slash_input("  /plan   now please  ").unwrap();
    assert_eq!(name, "plan");
    assert_eq!(args, "now please");
    assert!(parse_slash_input("/").is_none());
    assert!(parse_slash_input("/ exit").is_none());
    assert!(parse_slash_input("").is_none());
    let (name, args) = parse_slash_input("/review\tthis").unwrap();
    assert_eq!(name, "review");
    assert_eq!(args, "this");
}

#[test]
fn prompt_command_matched_with_args() {
    let mut reg = CommandRegistry::new();
    reg.register("review", "Review code");
    match match_command("/review src/lib.rs", &reg) {
        Some(MatchedCommand::Prompt { name, args }) => {
            assert_eq!(name, "review");
            assert_eq!(args, "src/lib.rs");
        }
        _ => panic!("expected a prompt command"),
    }
    assert_eq!(reg.find("review"), Some(0));
    assert_eq!(reg.find("other"), None);
}

#[test]
fn interface_command_wins_over_registry() {
    let mut reg = CommandRegistry::new();
    reg.register("exit", "custom exit");
    assert!(matches!(
        match_command("/exit", &reg),
        Some(MatchedCommand::Ui(Command::Exit))
    ));
}

#[test]
fn entries_follow_priority_then_name_order() {
    let mut reg = CommandRegistry::new();
    reg.register("zeta", "z");
    reg.register("init", "write AGENTS.md");
    reg.register("alpha", "a");
    reg.register("new", "shadowed");
    let entries = build_all_entries(&reg);
    let names: Vec<&str> = entries.iter().map(|e| e.name.as_str()).collect();
    assert_eq!(
        names,
        vec![
            "new", "sessions", "init", "plan", "models", "compact", "skills", "mcp", "tasks",
            "yolo", "exit", "alpha", "zeta"
        ]
    );
    assert!(entries[0].is_ui);
    assert_eq!(entries[0].description, "新建会话");
    assert!(!entries[2].is_ui);
    assert_eq!(entries[2].description, "write AGENTS.md");
    assert_eq!(entries.len(), 13);
}

#[test]
fn completions_keep_order() {
    let entries = vec![
        CommandEntry { name: "skills".to_string(), description: String::new(), is_ui: true },
        CommandEntry { name: "new".to_string(), description: String::new(), is_ui: true },
        CommandEntry { name: "sessions".to_string(), description: String::new(), is_ui: true },
    ];
    assert_eq!(filter_completions(&entries, "s"), vec![0, 2]);
    assert_eq!(filter_completions(&entries, "se"), vec![2]);
    assert_eq!(filter_completions(&entries, "x"), Vec::<usize>::new());
    assert_eq!(filter_completions(&entries, ""), vec![0, 1, 2]);
}

#[test]
fn command_prefix_takes_first_word() {
    assert_eq!(command_prefix("/se"), Some("se".to_string()));
    assert_eq!(command_prefix("/  mo del"), Some("mo".to_string()));
    assert_eq!(command_prefix("/"), Some(String::new()));
    assert_eq!(command_prefix(" /x"), None);
    assert_eq!(command_prefix("hi"), None);
}

#[test]
fn suggestions_refresh() {
    let reg = CommandRegistry::new();
    let entries = build_all_entries(&reg);
    let mut s = CommandSuggestion::new();
    s.selected = 4;
    s.refresh("/sk", &entries);
    assert!(s.show);
    assert_eq!(s.selected, 0);
    assert_eq!(s.items.len(), 1);
    assert_eq!(s.items[0].name, "skills");
    s.selected = 3;
    s.refresh("/zz", &entries);
    assert!(!s.show);
    assert!(s.items.is_empty());
    assert_eq!(s.selected, 3);
    s.refresh("plain text", &entries);
    assert!(!s.show);
    assert!(s.items.is_empty());
}

#[test]
fn taking_a_suggestion_fills_the_line_and_submits_ui_commands() {
    let ui = CommandEntry { name: "exit".to_string(), description: String::new(), is_ui: true };
    let prompt = CommandEntry { name: "review".to_string(), description: String::new(), is_ui: false };
    let mut s = CommandSuggestion { show: true, items: vec![ui, prompt], selected: 0 };
    let c = s.take_selected().unwrap();
    assert_eq!(c.input_text, "/exit ");
    assert_eq!(c.submit.as_deref(), Some("/exit"));
    assert!(!s.show && s.items.is_empty());
    let prompt = CommandEntry { name: "review".to_string(), description: String::new(), is_ui: false };
    let mut s = CommandSuggestion { show: true, items: vec![prompt], selected: 0 };
    let c = s.take_selected().unwrap();
    assert_eq!(c.input_text, "/review ");
    assert!(c.submit.is_none());
    assert!(s.take_selected().is_none());
}

#[test]
fn matched_commands_lead_to_actions() {
    let mut reg = CommandRegistry::new();
    reg.register("init", "write AGENTS.md");
    reg.register("review", "review changes");
    assert!(matches!(
        command_action(MatchedCommand::Ui(Command::Exit), &reg, false),
        CommandAction::Run(Command::Exit)
    ));
    match command_action(
        MatchedCommand::Prompt { name: "review".to_string(), args: "src".to_string() },
        &reg,
        true,
    ) {
        CommandAction::SendPrompt { name, args } => {
            assert_eq!(name, "review");
            assert_eq!(args, "src");
        }
        other => panic!("unexpected {:?}", other),
    }
    assert!(matches!(
        command_action(MatchedCommand::Prompt { name: "init".to_string(), args: String::new() }, &reg, true),
        CommandAction::InitBlockedInPlanMode
    ));
    assert!(matches!(
        command_action(MatchedCommand::Prompt { name: "init".to_string(), args: String::new() }, &reg, false),
        CommandAction::SendPrompt { .. }
    ));
    assert!(matches!(
        command_action(MatchedCommand::Prompt { name: "nope".to_string(), args: String::new() }, &reg, false),
        CommandAction::Ignore
    ));
    assert!(init_blocked_notice().contains("/init"));
}

#[test]
fn custom_commands_come_last_in_name_order() {
    let mut reg = CommandRegistry::new();
    reg.register("zz", "z");
    reg.register("init", "init");
    reg.register("aa", "a");
    reg.register("ab", "b");
    reg.register("a", "short");
    let entries = build_all_entries(&reg);
    let names: Vec<&str> = entries.iter().map(|e| e.name.as_str()).collect();
    assert_eq!(
        names,
        vec!["new", "sessions", "init", "plan", "models", "compact", "skills", "mcp", "tasks",
            "yolo", "exit", "a", "aa", "ab", "zz"]
    );
}
