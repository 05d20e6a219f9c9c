//! The raw messages that reach the manager's window, and what each of them
//! means.
use vstd::prelude::*;

use crate::layout::Layouts;

verus! {

/// First message number free for a window class's own use.
pub const WM_USER: u32 = 0x0400;

/// First message number free for an application's own use.
pub const WM_APP: u32 = 0x8000;

/// Sent to every window when the display resolution changes.
pub const WM_DISPLAYCHANGE: u32 = 0x007E;

/// Sent when a command is chosen (here: a thumbnail toolbar button).
pub const WM_COMMAND: u32 = 0x0111;

/// Shell hook code: a top-level window was created.
pub const HSHELL_WINDOWCREATED: u32 = 1;

/// Shell hook code: a top-level window is about to be destroyed.
pub const HSHELL_WINDOWDESTROYED: u32 = 2;

/// Posted when a window became visible to the compositor again.
pub const MSG_UNCLOAKED: u32 = WM_USER;

/// Posted when a window was hidden by the compositor.
pub const MSG_CLOAKED: u32 = WM_USER + 0x0001;

/// Posted when a window was restored from its icon.
pub const MSG_MINIMIZEEND: u32 = WM_USER + 0x0003;

/// Posted when a window was turned into an icon.
pub const MSG_MINIMIZESTART: u32 = WM_USER + 0x0004;

/// Posted when the user finished moving or resizing a window.
pub const MSG_MOVESIZEEND: u32 = WM_USER + 0x0006;

/// Window event: a window was cloaked.
pub const EVENT_OBJECT_CLOAKED: u32 = 0x8017;

/// Window event: a window was uncloaked.
pub const EVENT_OBJECT_UNCLOAKED: u32 = 0x8018;

/// Window event: a window is being restored.
pub const EVENT_SYSTEM_MINIMIZEEND: u32 = 0x0017;

/// Window event: a window is being minimized.
pub const EVENT_SYSTEM_MINIMIZESTART: u32 = 0x0016;

/// Window event: a move or resize has ended.
pub const EVENT_SYSTEM_MOVESIZEEND: u32 = 0x000B;

/// The kinds of message the manager acts on.
#[derive(Clone, Copy, Debug, PartialEq, Eq, Structural)]
pub enum MessageKind {
    DisplayChange,
    LayoutSwitch(Layouts),
    Cloaked,
    Uncloaked,
    MinimizeEnd,
    MinimizeStart,
    MoveSizeEnd,
    ShellCreated,
    ShellDestroyed,
    /// Anything else: handed on to the environment's default handling.
    Other,
}

/// The low word of a message parameter, as this manager reads it.
pub open spec fn low_word(w: usize) -> usize {
    w & 0x7FFF
}

/// The layout that a command number selects, if any.
pub open spec fn command_layout(cmd: usize) -> Option<Layouts> {
    if cmd == 0 {
        Some(Layouts::Dwindle)
    } else if cmd == 1 {
        Some(Layouts::Monocle)
    } else if cmd == 2 {
        Some(Layouts::Columns)
    } else if cmd == 3 {
        Some(Layouts::Focus)
    } else {
        None
    }
}

/// What message `msg` with parameter `wparam` means, `shell_hook_id` being the
/// number the shell hook's messages arrive under.
pub open spec fn kind_of(msg: u32, wparam: usize, shell_hook_id: u32) -> MessageKind {
    let w = low_word(wparam);
    if msg == WM_DISPLAYCHANGE {
        MessageKind::DisplayChange
    } else if msg == WM_COMMAND && command_layout(w).is_some() {
        MessageKind::LayoutSwitch(command_layout(w)->0)
    } else if msg == MSG_CLOAKED {
        MessageKind::Cloaked
    } else if msg == MSG_UNCLOAKED {
        MessageKind::Uncloaked
    } else if msg == MSG_MINIMIZEEND {
        MessageKind::MinimizeEnd
    } else if msg == MSG_MINIMIZESTART {
        MessageKind::MinimizeStart
    } else if msg == MSG_MOVESIZEEND {
        MessageKind::MoveSizeEnd
    } else if msg == shell_hook_id && w == HSHELL_WINDOWCREATED {
        MessageKind::ShellCreated
    } else if msg == shell_hook_id && w == HSHELL_WINDOWDESTROYED {
        MessageKind::ShellDestroyed
    } else {
        MessageKind::Other
    }
}

/// Reads a raw message.
pub fn decode(msg: u32, wparam: usize, shell_hook_id: u32) -> (r: MessageKind)
    ensures
        r == kind_of(msg, wparam, shell_hook_id),
{
    let w: usize = wparam & 0x7FFF;
    if msg == WM_DISPLAYCHANGE {
        MessageKind::DisplayChange
    } else if msg == WM_COMMAND && w == 0 {
        MessageKind::LayoutSwitch(Layouts::Dwindle)
    } else if msg == WM_COMMAND && w == 1 {
        MessageKind::LayoutSwitch(Layouts::Monocle)
    } else if msg == WM_COMMAND && w == 2 {
        MessageKind::LayoutSwitch(Layouts::Columns)
    } else if msg == WM_COMMAND && w == 3 {
        MessageKind::LayoutSwitch(Layouts::Focus)
    } else if msg == MSG_CLOAKED {
        MessageKind::Cloaked
    } else if msg == MSG_UNCLOAKED {
        MessageKind::Uncloaked
    } else if msg == MSG_MINIMIZEEND {
        MessageKind::MinimizeEnd
    } else if msg == MSG_MINIMIZESTART {
        MessageKind::MinimizeStart
    } else if msg == MSG_MOVESIZEEND {
        MessageKind::MoveSizeEnd
    } else if msg == shell_hook_id && w == HSHELL_WINDOWCREATED as usize {
        MessageKind::ShellCreated
    } else if msg == shell_hook_id && w == HSHELL_WINDOWDESTROYED as usize {
        MessageKind::ShellDestroyed
    } else {
        MessageKind::Other
    }
}

/// The message number under which a window event is passed on: the five
/// events the manager follows get their own numbers, any other keeps its own.
pub open spec fn event_message(event: u32) -> u32 {
    if event == EVENT_OBJECT_CLOAKED {
        MSG_CLOAKED
    } else if event == EVENT_OBJECT_UNCLOAKED {
        MSG_UNCLOAKED
    } else if event == EVENT_SYSTEM_MINIMIZEEND {
        MSG_MINIMIZEEND
    } else if event == EVENT_SYSTEM_MINIMIZESTART {
        MSG_MINIMIZESTART
    } else if event == EVENT_SYSTEM_MOVESIZEEND {
        MSG_MOVESIZEEND
    } else {
        event
    }
}

/// The message to post for a window event, if any: only events about a whole
/// window (object and child both zero, a nonzero handle) are passed on, and
/// only under a number in the user range or below the application range.
pub fn hook_message(event: u32, hwnd: isize, idobject: i32, idchild: i32) -> (r: Option<u32>)
    ensures
        r == (if idobject != 0 || idchild != 0 || hwnd == 0 {
            None
        } else if event_message(event) >= WM_USER || event_message(event) < WM_APP {
            Some(event_message(event))
        } else {
            None
        }),
{
    if idobject != 0 || idchild != 0 || hwnd == 0 {
        return None;
    }
    let msg = if event == EVENT_OBJECT_CLOAKED {
        MSG_CLOAKED
    } else if event == EVENT_OBJECT_UNCLOAKED {
        MSG_UNCLOAKED
    } else if event == EVENT_SYSTEM_MINIMIZEEND {
        MSG_MINIMIZEEND
    } else if event == EVENT_SYSTEM_MINIMIZESTART {
        MSG_MINIMIZESTART
    } else if event == EVENT_SYSTEM_MOVESIZEEND {
        MSG_MOVESIZEEND
    } else {
        event
    };
    if msg >= WM_USER || msg < WM_APP {
        Some(msg)
    } else {
        None
    }
}

} // verus!
