//! Windows as the core sees them: an opaque handle, the entry the registry
//! keeps for a managed window, and the attributes that decide whether a
//! window is managed at all.
use vstd::prelude::*;

use crate::config::{patterns, Config};

verus! {

/// An identifier that the windowing environment issues for a window. The core
/// only stores and compares it; zero stands for no window.
#[derive(Clone, Copy, Debug, PartialEq, Eq, Structural, Hash)]
pub struct Handle(pub isize);

/// A managed window: its handle and the state the core keeps of it.
#[derive(Clone, Copy, Debug, PartialEq, Eq, Structural)]
pub struct Window {
    pub handle: Handle,
    pub minimized: bool,
    pub selected: bool,
}

impl Window {
    /// The entry for a window that has just been taken under management.
    pub fn new(handle: Handle) -> (r: Self)
        ensures
            r == (Window { handle, minimized: false, selected: false }),
    {
        Window { handle, minimized: false, selected: false }
    }
}

/// Style flag of a child window.
pub const WS_CHILD: u32 = 0x4000_0000;

/// Style flag of a window that takes no input.
pub const WS_DISABLED: u32 = 0x0800_0000;

/// Extended style flag of a tool window.
pub const WS_EX_TOOLWINDOW: u32 = 0x0000_0080;

/// Extended style flag of a window that does not become the foreground window
/// when clicked.
pub const WS_EX_NOACTIVATE: u32 = 0x0800_0000;

/// What the windowing environment reports of a window, as plain values.
pub struct WindowAttributes {
    /// Style flags.
    pub style: u32,
    /// Extended style flags.
    pub exstyle: u32,
    pub visible: bool,
    /// Hidden by the compositor (another virtual desktop, for one).
    pub cloaked: bool,
    /// Shown as an icon rather than on the screen.
    pub minimized: bool,
    pub title: String,
    /// The length of the title as the environment counts it.
    pub title_len: i32,
    pub class_name: String,
    /// The file name of the owning process; `None` when it cannot be found.
    pub process_name: Option<String>,
    /// The owning window; `Handle(0)` when there is none.
    pub owner: Handle,
}

/// Whether `flag` has any bit set in `value`.
pub open spec fn has_flag(value: u32, flag: u32) -> bool {
    value & flag != 0
}

/// Whether `needle` occurs in `hay` as a run of consecutive characters.
pub open spec fn is_infix(needle: Seq<char>, hay: Seq<char>) -> bool {
    exists|i: int|
        0 <= i && i + needle.len() <= hay.len() && #[trigger] hay.subrange(i, i + needle.len())
            == needle
}

/// Whether any of `pats` occurs in `hay`.
pub open spec fn any_infix(pats: Seq<Seq<char>>, hay: Seq<char>) -> bool {
    exists|k: int| 0 <= k < pats.len() && is_infix(#[trigger] pats[k], hay)
}

/// The class of the shell's own surfaces (start menu, search and the like).
pub open spec fn core_window_class() -> Seq<char> {
    "Windows.UI.Core.CoreWindow"@
}

/// A window that can take the foreground: visible, activates on click, and
/// not a child.
pub open spec fn is_app_window(a: WindowAttributes) -> bool {
    a.visible && !has_flag(a.exstyle, WS_EX_NOACTIVATE) && !has_flag(a.style, WS_CHILD)
}

/// A window that the task switcher would list: not a tool window, or a tool
/// window without an owner.
pub open spec fn is_alt_tab_window(a: WindowAttributes) -> bool {
    !has_flag(a.exstyle, WS_EX_TOOLWINDOW) || a.owner.0 == 0
}

/// Whether a window that is not managed yet is to be managed, judged by its
/// attributes and the configuration.
pub open spec fn admits(a: WindowAttributes, c: Config) -> bool {
    if a.title_len == 0 || has_flag(a.style, WS_DISABLED) || a.process_name.is_none() {
        false
    } else if is_infix(core_window_class(), a.class_name@) && any_infix(
        patterns(c.windows_ui_core_corewindow),
        a.title@,
    ) {
        false
    } else if any_infix(patterns(c.class_names), a.class_name@) {
        false
    } else if any_infix(patterns(c.process_names), a.process_name->0@) {
        false
    } else {
        is_app_window(a) && is_alt_tab_window(a) && !a.cloaked
    }
}

/// Relies on `str::contains` with a `&str` pattern: true exactly when the
/// pattern occurs in the text.
#[verifier::external_body]
fn str_contains(hay: &str, needle: &str) -> (r: bool)
    ensures
        r == is_infix(needle@, hay@),
{
    hay.contains(needle)
}

/// Whether any text of the optional list occurs in `hay`.
pub fn contains_any(pats: &Option<Vec<String>>, hay: &str) -> (r: bool)
    ensures
        r == any_infix(patterns(*pats), hay@),
{
    match pats {
        None => false,
        Some(v) => {
            let mut k: usize = 0;
            while k < v.len()
                invariant
                    k <= v@.len(),
                    patterns(*pats).len() == v@.len(),
                    forall|j: int| 0 <= j < v@.len() ==> patterns(*pats)[j] == v@[j]@,
                    forall|j: int| 0 <= j < k ==> !is_infix(patterns(*pats)[j], hay@),
                decreases v@.len() - k,
            {
                if str_contains(hay, v[k].as_str()) {
                    assert(is_infix(patterns(*pats)[k as int], hay@));
                    return true;
                }
                k = k + 1;
            }
            false
        },
    }
}

/// Whether a window is to be managed, judged by its attributes alone: the
/// rules of `admits`, in the same order.
pub fn attributes_admit(a: &WindowAttributes, c: &Config) -> (r: bool)
    ensures
        r == admits(*a, *c),
{
    if a.title_len == 0 || a.style & WS_DISABLED != 0 {
        return false;
    }
    let process_name = match &a.process_name {
        None => {
            return false;
        },
        Some(p) => p,
    };
    proof {
        reveal_strlit("Windows.UI.Core.CoreWindow");
    }
    if str_contains(a.class_name.as_str(), "Windows.UI.Core.CoreWindow") {
        if contains_any(&c.windows_ui_core_corewindow, a.title.as_str()) {
            return false;
        }
    }
    if contains_any(&c.class_names, a.class_name.as_str()) {
        return false;
    }
    if contains_any(&c.process_names, process_name.as_str()) {
        return false;
    }
    let is_child = a.style & WS_CHILD != 0;
    let is_tool = a.exstyle & WS_EX_TOOLWINDOW != 0;
    let no_activate = a.exstyle & WS_EX_NOACTIVATE != 0;
    let is_app_window = a.visible && !no_activate && !is_child;
    let is_alt_tab_window = !is_tool || a.owner.0 == 0;
    !a.cloaked && is_app_window && is_alt_tab_window
}

} // verus!
