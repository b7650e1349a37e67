//! Keys of the list panels (tasks, MCP servers, skills) and of the task
//! detail view: moving the selection within the list, opening the selected
//! line, going back, and scrolling.

use vstd::prelude::*;

use crate::keys::KeyCode;

verus! {

/// What a key does in a list panel.
#[derive(Debug, Clone, Copy, PartialEq, Eq, Structural)]
pub enum ListKey {
    /// Esc: back to the chat.
    Close,
    /// Enter on a non-empty list: open the selected line.
    Open(usize),
    /// The panel stays (the selection may have moved).
    Stay,
}

/// A key in a list of `len` lines with `selected` selected: Esc closes, Up
/// and Down move the selection without leaving the list, Enter opens the
/// selected line when there is one.
pub fn list_key(code: KeyCode, selected: &mut usize, len: usize) -> (r: ListKey)
    ensures
        code == KeyCode::Esc ==> r == ListKey::Close && *final(selected) == *old(selected),
        code == KeyCode::Up ==> r == ListKey::Stay && *final(selected) == if *old(selected) > 0 {
            (*old(selected) - 1) as usize
        } else {
            *old(selected)
        },
        code == KeyCode::Down ==> r == ListKey::Stay && *final(selected) == if *old(selected) + 1
            < len {
            (*old(selected) + 1) as usize
        } else {
            *old(selected)
        },
        code == KeyCode::Enter ==> *final(selected) == *old(selected) && r == if len > 0 {
            ListKey::Open(*old(selected))
        } else {
            ListKey::Stay
        },
        !(code == KeyCode::Esc || code == KeyCode::Up || code == KeyCode::Down || code
            == KeyCode::Enter) ==> r == ListKey::Stay && *final(selected) == *old(selected),
{
    match code {
        KeyCode::Esc => ListKey::Close,
        KeyCode::Up => {
            if *selected > 0 {
                *selected = *selected - 1;
            }
            ListKey::Stay
        },
        KeyCode::Down => {
            if *selected < len && *selected + 1 < len {
                *selected = *selected + 1;
            }
            ListKey::Stay
        },
        KeyCode::Enter => {
            if len > 0 {
                ListKey::Open(*selected)
            } else {
                ListKey::Stay
            }
        },
        _ => ListKey::Stay,
    }
}

/// What a key does in the detail view of a task.
#[derive(Debug, Clone, Copy, PartialEq, Eq, Structural)]
pub enum DetailKey {
    /// Esc: back to the list, with this line selected.
    Back(usize),
    /// Up or Down: show the detail of this neighbouring task, from the top.
    Show(usize),
    /// The view stays (it may have scrolled).
    Stay,
}

/// Lines a page key scrolls the detail view by.
pub const DETAIL_PAGE_LINES: usize = 10;

/// Lines a mouse wheel step scrolls the detail view by.
pub const DETAIL_WHEEL_LINES: usize = 3;

/// A key in the detail view of task `index` among `total`: Esc goes back to
/// the list (selecting the same line, or the last when fewer remain), Up and
/// Down show the neighbouring task when there is one, Page Up and Page Down
/// scroll by a page.
pub fn task_detail_key(code: KeyCode, index: usize, total: usize, scroll: &mut usize) -> (r:
    DetailKey)
    ensures
        code == KeyCode::Esc ==> r == DetailKey::Back(
            if index < total {
                index
            } else if total > 0 {
                (total - 1) as usize
            } else {
                0
            },
        ) && *final(scroll) == *old(scroll),
        code == KeyCode::Up ==> *final(scroll) == *old(scroll) && r == if index > 0 {
            DetailKey::Show((index - 1) as usize)
        } else {
            DetailKey::Stay
        },
        code == KeyCode::Down ==> *final(scroll) == *old(scroll) && r == if index + 1 < total {
            DetailKey::Show((index + 1) as usize)
        } else {
            DetailKey::Stay
        },
        code == KeyCode::PageUp ==> r == DetailKey::Stay && *final(scroll) == if *old(scroll)
            >= DETAIL_PAGE_LINES {
            (*old(scroll) - DETAIL_PAGE_LINES) as usize
        } else {
            0
        },
        code == KeyCode::PageDown ==> r == DetailKey::Stay && *final(scroll) == if *old(scroll)
            + DETAIL_PAGE_LINES <= usize::MAX {
            (*old(scroll) + DETAIL_PAGE_LINES) as usize
        } else {
            usize::MAX
        },
        !(code == KeyCode::Esc || code == KeyCode::Up || code == KeyCode::Down || code
            == KeyCode::PageUp || code == KeyCode::PageDown) ==> r == DetailKey::Stay
            && *final(scroll) == *old(scroll),
{
    match code {
        KeyCode::Esc => {
            let last = if total > 0 {
                total - 1
            } else {
                0
            };
            DetailKey::Back(
                if index < last {
                    index
                } else {
                    last
                },
            )
        },
        KeyCode::Up => {
            if index > 0 {
                DetailKey::Show(index - 1)
            } else {
                DetailKey::Stay
            }
        },
        KeyCode::Down => {
            if index < total && index + 1 < total {
                DetailKey::Show(index + 1)
            } else {
                DetailKey::Stay
            }
        },
        KeyCode::PageUp => {
            *scroll = scroll.saturating_sub(DETAIL_PAGE_LINES);
            DetailKey::Stay
        },
        KeyCode::PageDown => {
            *scroll = scroll.saturating_add(DETAIL_PAGE_LINES);
            DetailKey::Stay
        },
        _ => DetailKey::Stay,
    }
}

/// The mouse wheel in the detail view: up scrolls back, down forward, by
/// a wheel step each, stopping at the ends of `usize`.
pub fn task_detail_wheel(up: bool, scroll: &mut usize)
    ensures
        up ==> *final(scroll) == if *old(scroll) >= DETAIL_WHEEL_LINES {
            (*old(scroll) - DETAIL_WHEEL_LINES) as usize
        } else {
            0
        },
        !up ==> *final(scroll) == if *old(scroll) + DETAIL_WHEEL_LINES <= usize::MAX {
            (*old(scroll) + DETAIL_WHEEL_LINES) as usize
        } else {
            usize::MAX
        },
{
    if up {
        *scroll = scroll.saturating_sub(DETAIL_WHEEL_LINES);
    } else {
        *scroll = scroll.saturating_add(DETAIL_WHEEL_LINES);
    }
}

} // verus!
