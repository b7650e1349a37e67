use hailux_tui::keys::{KeyCode, KeyEvent, KeyEventKind};
use hailux_tui::permission::{
    budget_desc_lines, handle_key, receive_permission_request, reply_from_selected,
    settle_permissions, PendingPermission, PermissionDialog, PermissionReply, FIXED_LINES,
};
use hailux_tui::timing::TimingStats;

fn lines(n: usize) -> Vec<String> {
    (0..n).map(|i| format!("line {i}")).collect()
}

#[test]
fn no_truncation_when_fits() {
    let out = budget_desc_lines(lines(5), (5 + FIXED_LINES) as u16);
    assert_eq!(out.len(), 5);
    assert_eq!(out[0], "line 0");
    assert_eq!(out[4], "line 4");
}

#[test]
fn truncates_and_counts_hidden_lines() {
    let out = budget_desc_lines(lines(60), (22 + FIXED_LINES) as u16);
    assert_eq!(out.len(), 22);
    assert_eq!(out[0], "line 0");
    assert_eq!(out[20], "line 20");
    assert_eq!(out[21], "… (+39 more lines)");
}

#[test]
fn very_short_terminal_keeps_only_notice() {
    let out = budget_desc_lines(lines(30), FIXED_LINES as u16);
    assert_eq!(out.len(), 1);
    assert_eq!(out[0], "… (+30 more lines)");
}

#[test]
fn empty_description_stays_empty() {
    let out = budget_desc_lines(Vec::new(), 30);
    assert!(out.is_empty());
}

fn press(code: KeyCode) -> KeyEvent {
    KeyEvent { code, ctrl: false, alt: false, shift: false, kind: KeyEventKind::Press }
}

#[test]
fn dialog_keys_move_and_answer() {
    let mut sel = 0usize;
    assert!(!handle_key(press(KeyCode::Up), &mut sel));
    assert_eq!(sel, 2);
    assert!(!handle_key(press(KeyCode::Down), &mut sel));
    assert_eq!(sel, 0);
    assert!(!handle_key(press(KeyCode::Down), &mut sel));
    assert_eq!(sel, 1);
    assert!(handle_key(press(KeyCode::Char('3')), &mut sel));
    assert_eq!(sel, 2);
    assert!(!handle_key(press(KeyCode::Char('4')), &mut sel));
    assert!(!handle_key(press(KeyCode::Char('0')), &mut sel));
    assert_eq!(sel, 2);
    assert!(handle_key(press(KeyCode::Char('1')), &mut sel));
    assert_eq!(sel, 0);
    assert!(handle_key(press(KeyCode::Enter), &mut sel));
    assert_eq!(sel, 0);
    assert!(handle_key(press(KeyCode::Esc), &mut sel));
    assert_eq!(sel, 2);
    assert!(!handle_key(press(KeyCode::Char('x')), &mut sel));
}

#[test]
fn replies_follow_selection() {
    assert_eq!(reply_from_selected(0), PermissionReply::Once);
    assert_eq!(reply_from_selected(1), PermissionReply::Always);
    assert_eq!(reply_from_selected(2), PermissionReply::Deny);
    assert_eq!(reply_from_selected(9), PermissionReply::Deny);
}

fn waiting(id: u64, group: Option<&str>) -> PendingPermission {
    PendingPermission { id, group: group.map(|g| g.to_string()) }
}

fn ids(q: &[PendingPermission]) -> Vec<u64> {
    q.iter().map(|p| p.id).collect()
}

#[test]
fn once_answers_only_the_first_request() {
    let mut q = vec![waiting(1, None), waiting(2, None), waiting(3, Some("sub"))];
    let answered = settle_permissions(&mut q, PermissionReply::Once, &[true, true, true]);
    assert_eq!(answered, vec![1]);
    assert_eq!(ids(&q), vec![2, 3]);
}

#[test]
fn deny_answers_the_whole_group() {
    let mut q = vec![
        waiting(1, Some("sub")),
        waiting(2, None),
        waiting(3, Some("sub")),
        waiting(4, Some("other")),
    ];
    let answered = settle_permissions(&mut q, PermissionReply::Deny, &[false; 4]);
    assert_eq!(answered, vec![1, 3]);
    assert_eq!(ids(&q), vec![2, 4]);
}

#[test]
fn always_answers_the_group_requests_the_new_rules_cover() {
    let mut q = vec![waiting(1, None), waiting(2, None), waiting(3, None), waiting(4, Some("s"))];
    let answered = settle_permissions(&mut q, PermissionReply::Always, &[true, false, true, true]);
    assert_eq!(answered, vec![1, 3]);
    assert_eq!(ids(&q), vec![2, 4]);
    let mut empty: Vec<PendingPermission> = Vec::new();
    assert!(settle_permissions(&mut empty, PermissionReply::Deny, &[]).is_empty());
}

#[test]
fn request_arriving_while_dialog_open_is_queued_behind_shown_one() {
    let mut dialog: Option<PermissionDialog> = None;
    let mut timing = TimingStats::new();
    timing.start_request(100);
    receive_permission_request(&mut dialog, PendingPermission { id: 1, group: None }, &mut timing, 150);
    assert_eq!(timing.paused_at, Some(150));
    assert_eq!(dialog.as_ref().unwrap().selected, 0);
    dialog.as_mut().unwrap().selected = 2;
    receive_permission_request(
        &mut dialog,
        PendingPermission { id: 2, group: Some("explorer".to_string()) },
        &mut timing,
        160,
    );
    let d = dialog.unwrap();
    assert_eq!(d.pending.iter().map(|p| p.id).collect::<Vec<u64>>(), vec![1, 2]);
    assert_eq!(d.pending[1].group.as_deref(), Some("explorer"));
    assert_eq!(d.selected, 2);
    // Already paused: the pause keeps its start.
    assert_eq!(timing.paused_at, Some(150));
}
