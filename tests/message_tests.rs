use grout_wm::layout::Layouts;
use grout_wm::message::{
    decode, hook_message, MessageKind, EVENT_OBJECT_CLOAKED, EVENT_OBJECT_UNCLOAKED,
    EVENT_SYSTEM_MINIMIZEEND, EVENT_SYSTEM_MINIMIZESTART, EVENT_SYSTEM_MOVESIZEEND,
    HSHELL_WINDOWCREATED, HSHELL_WINDOWDESTROYED, MSG_CLOAKED, MSG_MINIMIZEEND,
    MSG_MINIMIZESTART, MSG_MOVESIZEEND, MSG_UNCLOAKED, WM_COMMAND, WM_DISPLAYCHANGE,
};

const SHELL: u32 = 0xC028;

#[test]
fn decode_reads_the_manager_messages() {
    assert_eq!(decode(WM_DISPLAYCHANGE, 0, SHELL), MessageKind::DisplayChange);
    assert_eq!(decode(MSG_CLOAKED, 0, SHELL), MessageKind::Cloaked);
    assert_eq!(decode(MSG_UNCLOAKED, 0, SHELL), MessageKind::Uncloaked);
    assert_eq!(decode(MSG_MINIMIZEEND, 0, SHELL), MessageKind::MinimizeEnd);
    assert_eq!(decode(MSG_MINIMIZESTART, 0, SHELL), MessageKind::MinimizeStart);
    assert_eq!(decode(MSG_MOVESIZEEND, 0, SHELL), MessageKind::MoveSizeEnd);
}

#[test]
fn decode_reads_layout_commands() {
    assert_eq!(decode(WM_COMMAND, 0, SHELL), MessageKind::LayoutSwitch(Layouts::Dwindle));
    assert_eq!(decode(WM_COMMAND, 1, SHELL), MessageKind::LayoutSwitch(Layouts::Monocle));
    assert_eq!(decode(WM_COMMAND, 2, SHELL), MessageKind::LayoutSwitch(Layouts::Columns));
    assert_eq!(decode(WM_COMMAND, 0x1_0003, SHELL), MessageKind::LayoutSwitch(Layouts::Focus));
    assert_eq!(decode(WM_COMMAND, 4, SHELL), MessageKind::Other);
}

#[test]
fn decode_reads_shell_hook_codes() {
    assert_eq!(decode(SHELL, HSHELL_WINDOWCREATED as usize, SHELL), MessageKind::ShellCreated);
    assert_eq!(decode(SHELL, HSHELL_WINDOWDESTROYED as usize, SHELL), MessageKind::ShellDestroyed);
    assert_eq!(decode(SHELL, 4, SHELL), MessageKind::Other);
    assert_eq!(decode(SHELL + 1, HSHELL_WINDOWCREATED as usize, SHELL), MessageKind::Other);
}

#[test]
fn hook_message_renumbers_followed_events() {
    assert_eq!(hook_message(EVENT_OBJECT_CLOAKED, 5, 0, 0), Some(MSG_CLOAKED));
    assert_eq!(hook_message(EVENT_OBJECT_UNCLOAKED, 5, 0, 0), Some(MSG_UNCLOAKED));
    assert_eq!(hook_message(EVENT_SYSTEM_MINIMIZEEND, 5, 0, 0), Some(MSG_MINIMIZEEND));
    assert_eq!(hook_message(EVENT_SYSTEM_MINIMIZESTART, 5, 0, 0), Some(MSG_MINIMIZESTART));
    assert_eq!(hook_message(EVENT_SYSTEM_MOVESIZEEND, 5, 0, 0), Some(MSG_MOVESIZEEND));
    assert_eq!(hook_message(0x000A, 5, 0, 0), Some(0x000A));
}

#[test]
fn hook_message_drops_events_about_parts_of_windows() {
    assert_eq!(hook_message(EVENT_OBJECT_CLOAKED, 0, 0, 0), None);
    assert_eq!(hook_message(EVENT_OBJECT_CLOAKED, 5, -4, 0), None);
    assert_eq!(hook_message(EVENT_OBJECT_CLOAKED, 5, 0, 3), None);
}
