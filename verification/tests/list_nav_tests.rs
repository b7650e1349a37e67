use hailux_tui::keys::KeyCode;
use hailux_tui::list_nav::{list_key, task_detail_key, task_detail_wheel, DetailKey, ListKey};

#[test]
fn list_keys_move_open_and_close() {
    let mut sel = 0usize;
    assert_eq!(list_key(KeyCode::Up, &mut sel, 3), ListKey::Stay);
    assert_eq!(sel, 0);
    list_key(KeyCode::Down, &mut sel, 3);
    list_key(KeyCode::Down, &mut sel, 3);
    list_key(KeyCode::Down, &mut sel, 3);
    assert_eq!(sel, 2);
    assert_eq!(list_key(KeyCode::Enter, &mut sel, 3), ListKey::Open(2));
    assert_eq!(list_key(KeyCode::Enter, &mut sel, 0), ListKey::Stay);
    assert_eq!(list_key(KeyCode::Esc, &mut sel, 3), ListKey::Close);
    assert_eq!(list_key(KeyCode::Char('x'), &mut sel, 3), ListKey::Stay);
}

#[test]
fn detail_keys_walk_neighbours_and_scroll() {
    let mut scroll = 5usize;
    assert_eq!(task_detail_key(KeyCode::Up, 0, 3, &mut scroll), DetailKey::Stay);
    assert_eq!(task_detail_key(KeyCode::Up, 2, 3, &mut scroll), DetailKey::Show(1));
    assert_eq!(task_detail_key(KeyCode::Down, 2, 3, &mut scroll), DetailKey::Stay);
    assert_eq!(task_detail_key(KeyCode::Down, 1, 3, &mut scroll), DetailKey::Show(2));
    assert_eq!(task_detail_key(KeyCode::Esc, 4, 3, &mut scroll), DetailKey::Back(2));
    assert_eq!(task_detail_key(KeyCode::Esc, 1, 3, &mut scroll), DetailKey::Back(1));
    assert_eq!(task_detail_key(KeyCode::Esc, 1, 0, &mut scroll), DetailKey::Back(0));
    task_detail_key(KeyCode::PageUp, 0, 3, &mut scroll);
    assert_eq!(scroll, 0);
    task_detail_key(KeyCode::PageDown, 0, 3, &mut scroll);
    assert_eq!(scroll, 10);
    task_detail_wheel(true, &mut scroll);
    assert_eq!(scroll, 7);
    let mut far = usize::MAX;
    task_detail_wheel(false, &mut far);
    assert_eq!(far, usize::MAX);
}
