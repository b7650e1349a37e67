use hailux_tui::todo::{TodoList, TodoStatus};

#[test]
fn parses_items_with_marks_and_priorities() {
    let result = "任务列表已更新：\n1. ✓ Write tests [高] completed\n2. → Fix [bug] now [中] in_progress\n3. ○ Plan\n\n4. x not an item\n";
    let list = TodoList::from_result(result);
    assert_eq!(list.items.len(), 3);
    assert_eq!(list.items[0].content, "Write tests");
    assert_eq!(list.items[0].status, TodoStatus::Completed);
    assert_eq!(list.items[0].priority, "高");
    assert_eq!(list.items[1].content, "Fix [bug] now");
    assert_eq!(list.items[1].status, TodoStatus::InProgress);
    assert_eq!(list.items[1].priority, "bug");
    assert_eq!(list.items[2].content, "Plan");
    assert_eq!(list.items[2].status, TodoStatus::Pending);
    assert_eq!(list.items[2].priority, "中");
    assert!(!list.all_done);
}

#[test]
fn all_done_when_every_item_is_settled() {
    let list = TodoList::from_result("1. ✓ a [低] completed\n2. ✗ b [低] cancelled");
    assert!(list.all_done);
    assert_eq!(list.items[1].status, TodoStatus::Cancelled);
    let empty = TodoList::from_result("任务列表已更新");
    assert!(empty.items.is_empty());
    assert!(!empty.all_done);
}

#[test]
fn lines_without_number_or_closing_bracket() {
    let list = TodoList::from_result("  ○ loose item [open");
    assert_eq!(list.items.len(), 1);
    assert_eq!(list.items[0].content, "loose item");
    assert_eq!(list.items[0].priority, "中");
}

#[test]
fn reads_pending_list_from_arguments() {
    let args = r#"{"todos":[
        {"content":"Write tests","status":"completed","priority":"高"},
        {"content":"Fix bug","status":"in_progress"},
        {"status":"cancelled"},
        {"content":"Plan","status":"waiting","priority":"低"}
    ]}"#;
    let list = TodoList::from_arguments(args);
    assert_eq!(list.items.len(), 4);
    assert!(!list.all_done);
    assert_eq!(list.items[0].content, "Write tests");
    assert_eq!(list.items[0].status, TodoStatus::Completed);
    assert_eq!(list.items[0].priority, "高");
    assert_eq!(list.items[1].status, TodoStatus::InProgress);
    assert_eq!(list.items[1].priority, "中");
    assert_eq!(list.items[2].content, "未知任务");
    assert_eq!(list.items[2].status, TodoStatus::Cancelled);
    assert_eq!(list.items[3].status, TodoStatus::Pending);
    assert_eq!(list.items[3].priority, "低");
    assert!(TodoList::from_arguments("{}").items.is_empty());
    assert!(TodoList::from_arguments("not json").items.is_empty());
}
