//! The registry of managed windows and the dispatcher that keeps it up to
//! date, one notification at a time.
use vstd::prelude::*;

use crate::config::{layout_named, Config};
use crate::fits_i32;
use crate::layout::{is_tileable, layout_spec, tileable, Layouts};
use crate::rect::{rect_minus, rect_minus_fits, rect_of, Bounds, Point, Rect};
use crate::window::{admits, attributes_admit, Handle, Window, WindowAttributes};

verus! {

/// Whether `h` has an entry in `ws`.
pub open spec fn is_tracked(ws: Seq<Window>, h: Handle) -> bool {
    exists|i: int| 0 <= i < ws.len() && (#[trigger] ws[i]).handle == h
}

/// No two entries of `ws` share a handle.
pub open spec fn unique(ws: Seq<Window>) -> bool {
    forall|i: int, j: int|
        0 <= i < ws.len() && 0 <= j < ws.len() && i != j ==> (#[trigger] ws[i]).handle != (
        #[trigger] ws[j]).handle
}

/// The index of the entry for `h` (meaningful when `h` is under management).
pub open spec fn position_of(ws: Seq<Window>, h: Handle) -> int {
    choose|i: int| 0 <= i < ws.len() && (#[trigger] ws[i]).handle == h
}

/// The registry after `manage(h)`: unchanged when `h` is under management, else with a
/// fresh entry for `h` at the end.
pub open spec fn managed(ws: Seq<Window>, h: Handle) -> Seq<Window> {
    if is_tracked(ws, h) {
        ws
    } else {
        ws.push(Window { handle: h, minimized: false, selected: false })
    }
}

/// The registry after `unmanage(h)`: the entry for `h` leaves, but only when
/// the window is on the current virtual desktop.
pub open spec fn unmanaged(ws: Seq<Window>, h: Handle, on_current_desktop: bool) -> Seq<Window> {
    if is_tracked(ws, h) && on_current_desktop {
        ws.remove(position_of(ws, h))
    } else {
        ws
    }
}

/// Whether the classifier approves `h`: a managed handle always, another one
/// by its attributes.
pub open spec fn manageable(ws: Seq<Window>, h: Handle, a: WindowAttributes, c: Config) -> bool {
    is_tracked(ws, h) || admits(a, c)
}

/// The registry after a window was reported: an unmanaged window that the
/// classifier approves is appended, minimized as it was reported.
pub open spec fn admitted(ws: Seq<Window>, h: Handle, a: WindowAttributes, c: Config) -> Seq<
    Window,
> {
    if !is_tracked(ws, h) && admits(a, c) {
        ws.push(Window { handle: h, minimized: a.minimized, selected: false })
    } else {
        ws
    }
}

/// The registry after every window of `found` was reported, in order.
pub open spec fn scanned(ws: Seq<Window>, found: Seq<(Handle, WindowAttributes)>, c: Config) -> Seq<
    Window,
>
    decreases found.len(),
{
    if found.len() == 0 {
        ws
    } else {
        admitted(scanned(ws, found.drop_last(), c), found.last().0, found.last().1, c)
    }
}

/// The registry with the entry for `h` marked minimized or not.
pub open spec fn marked(ws: Seq<Window>, h: Handle, minimized: bool) -> Seq<Window> {
    ws.map_values(
        |w: Window|
            if w.handle == h {
                Window { handle: w.handle, minimized, selected: w.selected }
            } else {
                w
            },
    )
}

/// The managed windows and the state that goes with them.
pub struct WindowManager {
    managed_windows: Vec<Window>,
    working_area: Bounds,
    config: Config,
    layout: Layouts,
    hwnd: Handle,
}

impl WindowManager {
    /// The registry: the managed windows in tiling order.
    pub closed spec fn registry(&self) -> Seq<Window> {
        self.managed_windows@
    }

    /// The screen region that the windows are tiled in.
    pub closed spec fn area(&self) -> Bounds {
        self.working_area
    }

    /// The active layout.
    pub closed spec fn active_layout(&self) -> Layouts {
        self.layout
    }

    /// The configuration the classifier consults.
    pub closed spec fn settings(&self) -> Config {
        self.config
    }

    /// The manager's own window.
    pub closed spec fn own_window(&self) -> Handle {
        self.hwnd
    }

    /// At most one entry per handle, and a working area that every layout can
    /// tile.
    pub open spec fn wf(&self) -> bool {
        unique(self.registry()) && tileable(self.area())
    }

    /// Whether `self` and `other` differ in their registry at most.
    pub open spec fn same_setup(&self, other: &WindowManager) -> bool {
        &&& self.area() == other.area()
        &&& self.active_layout() == other.active_layout()
        &&& self.settings() == other.settings()
        &&& self.own_window() == other.own_window()
    }

    /// A manager with an empty registry, tiling `working_area` with the layout
    /// that `config` names.
    pub fn new(config: Config, working_area: Bounds) -> (r: WindowManager)
        requires
            tileable(working_area),
        ensures
            r.wf(),
            r.registry() == Seq::<Window>::empty(),
            r.area() == working_area,
            r.active_layout() == layout_named(config.default_layout),
            r.settings() == config,
            r.own_window() == Handle(0),
    {
        let layout = config.layout();
        WindowManager {
            managed_windows: Vec::new(),
            working_area,
            config,
            layout,
            hwnd: Handle(0),
        }
    }

    /// The index of the entry for `hwnd`, if it is under management.
    fn index_of(&self, hwnd: Handle) -> (r: Option<usize>)
        requires
            self.wf(),
        ensures
            r.is_some() == is_tracked(self.registry(), hwnd),
            r.is_some() ==> r->0 == position_of(self.registry(), hwnd),
            r.is_some() ==> r->0 < self.registry().len(),
            r.is_some() ==> self.registry()[r->0 as int].handle == hwnd,
    {
        let mut i: usize = 0;
        while i < self.managed_windows.len()
            invariant
                self.wf(),
                i <= self.managed_windows@.len(),
                forall|j: int| 0 <= j < i ==> (#[trigger] self.managed_windows@[j]).handle != hwnd,
            decreases self.managed_windows@.len() - i,
        {
            if self.managed_windows[i].handle == hwnd {
                proof {
                    let p = position_of(self.registry(), hwnd);
                    assert(self.registry()[i as int].handle == hwnd);
                    assert(0 <= p < self.registry().len() && self.registry()[p].handle == hwnd);
                }
                return Some(i);
            }
            i = i + 1;
        }
        None
    }

    /// The entry for `hwnd`, if it is under management.
    pub fn get_window(&self, hwnd: Handle) -> (r: Option<Window>)
        requires
            self.wf(),
        ensures
            r.is_some() == is_tracked(self.registry(), hwnd),
            r.is_some() ==> r->0 == self.registry()[position_of(self.registry(), hwnd)],
            r.is_some() ==> r->0.handle == hwnd,
    {
        match self.index_of(hwnd) {
            Some(i) => Some(self.managed_windows[i]),
            None => None,
        }
    }

    /// The managed windows, in tiling order.
    pub fn windows(&self) -> (r: Vec<Window>)
        ensures
            r@ == self.registry(),
    {
        let mut out: Vec<Window> = Vec::new();
        let mut i: usize = 0;
        while i < self.managed_windows.len()
            invariant
                i <= self.managed_windows@.len(),
                out@ =~= self.managed_windows@.subrange(0, i as int),
            decreases self.managed_windows@.len() - i,
        {
            out.push(self.managed_windows[i]);
            i = i + 1;
        }
        out
    }

    /// Takes `hwnd` under management: appends a fresh entry unless it is
    /// managed already, and returns its entry.
    pub fn manage(&mut self, hwnd: Handle) -> (r: Option<Window>)
        requires
            old(self).wf(),
        ensures
            final(self).wf(),
            final(self).same_setup(old(self)),
            final(self).registry() == managed(old(self).registry(), hwnd),
            r.is_some(),
            r->0 == final(self).registry()[position_of(final(self).registry(), hwnd)],
            r->0.handle == hwnd,
    {
        match self.get_window(hwnd) {
            Some(w) => Some(w),
            None => {
                let w = Window::new(hwnd);
                self.managed_windows.push(w);
                proof {
                    let ws = self.registry();
                    let n = (ws.len() - 1) as int;
                    assert(ws[n].handle == hwnd);
                    assert(is_tracked(ws, hwnd));
                    let p = position_of(ws, hwnd);
                    assert(p == n);
                }
                Some(w)
            },
        }
    }

    /// Whether the classifier approves `hwnd`, whose attributes are `attributes`:
    /// a managed window always, another one as `admits` judges it.
    pub fn is_manageable(&self, hwnd: Handle, attributes: &WindowAttributes) -> (r: bool)
        requires
            self.wf(),
        ensures
            r == manageable(self.registry(), hwnd, *attributes, self.settings()),
    {
        if self.index_of(hwnd).is_some() {
            return true;
        }
        attributes_admit(attributes, &self.config)
    }

    /// Drops the entry for `hwnd`, unless the window is not on the current
    /// virtual desktop (`on_current_desktop`, as the environment reports it).
    pub fn unmanage(&mut self, hwnd: Handle, on_current_desktop: bool)
        requires
            old(self).wf(),
        ensures
            final(self).wf(),
            final(self).same_setup(old(self)),
            final(self).registry() == unmanaged(old(self).registry(), hwnd, on_current_desktop),
    {
        match self.index_of(hwnd) {
            None => {},
            Some(i) => {
                if on_current_desktop {
                    self.managed_windows.remove(i);
                    proof {
                        let ws = old(self).registry();
                        let nw = self.registry();
                        assert forall|a: int, b: int|
                            0 <= a < nw.len() && 0 <= b < nw.len() && a != b implies (
                            #[trigger] nw[a]).handle != (#[trigger] nw[b]).handle by {
                            let a0 = if a < i { a } else { a + 1 };
                            let b0 = if b < i { b } else { b + 1 };
                            assert(nw[a] == ws[a0]);
                            assert(nw[b] == ws[b0]);
                        }
                    }
                }
            },
        }
    }

    /// Takes `hwnd` under management when it is not managed yet and its
    /// attributes pass the classifier.
    pub fn scan(&mut self, hwnd: Handle, attributes: &WindowAttributes)
        requires
            old(self).wf(),
        ensures
            final(self).wf(),
            final(self).same_setup(old(self)),
            final(self).registry() == admitted(
                old(self).registry(),
                hwnd,
                *attributes,
                old(self).settings(),
            ),
    {
        if self.index_of(hwnd).is_none() && attributes_admit(attributes, &self.config) {
            let w = Window { handle: hwnd, minimized: attributes.minimized, selected: false };
            self.managed_windows.push(w);
        }
    }

    /// Reports every window of `found` in turn, as the initial enumeration of
    /// the screen's windows does.
    pub fn enum_windows(&mut self, found: &Vec<(Handle, WindowAttributes)>)
        requires
            old(self).wf(),
        ensures
            final(self).wf(),
            final(self).same_setup(old(self)),
            final(self).registry() == scanned(old(self).registry(), found@, old(self).settings()),
    {
        let mut i: usize = 0;
        while i < found.len()
            invariant
                i <= found@.len(),
                self.wf(),
                self.same_setup(old(self)),
                self.registry() == scanned(
                    old(self).registry(),
                    found@.subrange(0, i as int),
                    old(self).settings(),
                ),
            decreases found@.len() - i,
        {
            proof {
                assert(found@.subrange(0, i + 1).drop_last() =~= found@.subrange(0, i as int));
            }
            self.scan(found[i].0, &found[i].1);
            i = i + 1;
        }
        proof {
            assert(found@.subrange(0, i as int) =~= found@);
        }
    }

    /// Records whether the window `hwnd` is minimized.
    fn mark_minimized(&mut self, hwnd: Handle, minimized: bool)
        requires
            old(self).wf(),
        ensures
            final(self).wf(),
            final(self).same_setup(old(self)),
            final(self).registry() == marked(old(self).registry(), hwnd, minimized),
    {
        if let Some(i) = self.index_of(hwnd) {
            let w = self.managed_windows[i];
            self.managed_windows.set(i, Window { handle: w.handle, minimized, selected: w.selected });
            proof {
                let ws = old(self).registry();
                assert forall|j: int| 0 <= j < ws.len() && j != i implies ws[j].handle != hwnd by {
                    assert(ws[j].handle != ws[i as int].handle);
                }
                assert(self.registry() =~= marked(ws, hwnd, minimized));
            }
        } else {
            proof {
                assert(self.registry() =~= marked(old(self).registry(), hwnd, minimized));
            }
        }
    }

    /// Makes `layout` the active layout.
    pub fn set_layout(&mut self, layout: Layouts)
        ensures
            final(self).active_layout() == layout,
            final(self).registry() == old(self).registry(),
            final(self).area() == old(self).area(),
            final(self).settings() == old(self).settings(),
            final(self).own_window() == old(self).own_window(),
    {
        self.layout = layout;
    }

    /// Records the manager's own window.
    pub fn set_hwnd(&mut self, hwnd: Handle)
        ensures
            final(self).own_window() == hwnd,
            final(self).registry() == old(self).registry(),
            final(self).area() == old(self).area(),
            final(self).settings() == old(self).settings(),
            final(self).active_layout() == old(self).active_layout(),
    {
        self.hwnd = hwnd;
    }
}

/// The handles of the windows among the first `k` entries of `ws` that get a
/// tile: not minimized, and on the current virtual desktop as `on_desktop`
/// says, in registry order.
pub open spec fn shown_upto(ws: Seq<Window>, on_desktop: Seq<bool>, k: nat) -> Seq<Handle>
    decreases k,
{
    if k == 0 {
        Seq::empty()
    } else {
        let rest = shown_upto(ws, on_desktop, (k - 1) as nat);
        let w = ws[k - 1];
        if !w.minimized && on_desktop[k - 1] {
            rest.push(w.handle)
        } else {
            rest
        }
    }
}

/// The handles of the windows of `ws` that get a tile, in registry order.
pub open spec fn shown(ws: Seq<Window>, on_desktop: Seq<bool>) -> Seq<Handle> {
    shown_upto(ws, on_desktop, ws.len())
}

/// Whether a window's placement for `tile` can be held in machine integers.
pub open spec fn frame_fits(tile: Bounds, margin: Bounds) -> bool {
    &&& fits_i32(tile.width())
    &&& fits_i32(tile.height())
    &&& rect_minus_fits(rect_of(tile), margin)
}

/// Where to put a window so that its visible frame, not its invisible resize
/// border, lands on `tile`. `margin` holds the edges of the window's visible
/// frame minus the edges of its full bounds. `None` when the placement cannot
/// be held in machine integers.
pub fn frame_placement(tile: Bounds, margin: Bounds) -> (r: Option<Rect>)
    ensures
        r.is_some() == frame_fits(tile, margin),
        r.is_some() ==> r->0 == rect_minus(rect_of(tile), margin),
        r.is_some() ==> r->0.left == tile.left - margin.left,
        r.is_some() ==> r->0.top == tile.top - margin.top,
        r.is_some() ==> r->0.left + r->0.width == tile.right - margin.right,
        r.is_some() ==> r->0.top + r->0.height == tile.bottom - margin.bottom,
{
    let tw: i64 = tile.right as i64 - tile.left as i64;
    let th: i64 = tile.bottom as i64 - tile.top as i64;
    let mw: i64 = margin.right as i64 - margin.left as i64;
    let mh: i64 = margin.bottom as i64 - margin.top as i64;
    let l: i64 = tile.left as i64 - margin.left as i64;
    let t: i64 = tile.top as i64 - margin.top as i64;
    let lo: i64 = i32::MIN as i64;
    let hi: i64 = i32::MAX as i64;
    if tw < lo || tw > hi || th < lo || th > hi || l < lo || l > hi || t < lo || t > hi {
        return None;
    }
    let w: i64 = tw - mw;
    let h: i64 = th - mh;
    if w < lo || w > hi || h < lo || h > hi {
        return None;
    }
    let full = Rect::from_bounds(tile);
    Some(full.sub(margin))
}

/// What the environment reports of a managed window when a drag ends.
#[derive(Clone, Copy, Debug, PartialEq, Eq, Structural)]
pub struct Landing {
    pub on_current_desktop: bool,
    /// The window's bounds on the screen.
    pub position: Bounds,
}

/// Whether a drag of `h` that ends at `p` lands on entry `j`: another window,
/// on the current desktop, whose bounds hold `p`.
pub open spec fn lands(ws: Seq<Window>, land: Seq<Landing>, h: Handle, p: Point, j: int) -> bool {
    0 <= j < ws.len() && ws[j].handle != h && land[j].on_current_desktop && land[j].position.holds(
        p,
    )
}

/// Whether `j` is the first entry that the drag lands on.
pub open spec fn first_landing(
    ws: Seq<Window>,
    land: Seq<Landing>,
    h: Handle,
    p: Point,
    j: int,
) -> bool {
    lands(ws, land, h, p, j) && forall|k: int| 0 <= k < j ==> !lands(ws, land, h, p, k)
}

/// The registry with the entry at `from` taken out and put back at `to`.
pub open spec fn dropped_at(ws: Seq<Window>, from: int, to: int) -> Seq<Window> {
    ws.remove(from).insert(to, ws[from])
}

/// The registry after a drag of `h` ended at `p`: when `h` is managed and the
/// drag lands on another window, `h`'s entry moves to the first such window's
/// index; else nothing changes.
pub open spec fn dragged(ws: Seq<Window>, h: Handle, p: Point, land: Seq<Landing>) -> Seq<Window> {
    if is_tracked(ws, h) && exists|j: int| first_landing(ws, land, h, p, j) {
        dropped_at(ws, position_of(ws, h), choose|j: int| first_landing(ws, land, h, p, j))
    } else {
        ws
    }
}

/// A notification from the windowing environment, with what the environment
/// reported along with it.
pub enum Notification {
    /// A window was created.
    Created(Handle, WindowAttributes),
    /// The shell reports a new top-level window.
    ShellCreated(Handle, WindowAttributes),
    /// A window became visible to the compositor again.
    Uncloaked(Handle, WindowAttributes),
    /// A window was destroyed; the flag says whether it is on the current
    /// virtual desktop.
    Destroyed(Handle, bool),
    /// The shell reports a top-level window gone; the flag as for `Destroyed`.
    ShellDestroyed(Handle, bool),
    /// A window was hidden by the compositor; the flag as for `Destroyed`.
    Cloaked(Handle, bool),
    MinimizeStart(Handle),
    MinimizeEnd(Handle),
    /// A move or resize of a window ended with the pointer at the given point;
    /// one `Landing` per registry entry, in registry order.
    MoveResizeEnd(Handle, Point, Vec<Landing>),
    /// The display changed; the new working area.
    DisplayChange(Bounds),
    /// The user chose another layout.
    LayoutSwitch(Layouts),
    /// Anything else, for the environment's default handling.
    Other,
}

/// What the dispatcher asks of its caller after a notification.
#[derive(Clone, Copy, Debug, PartialEq, Eq, Structural)]
pub enum Outcome {
    /// Re-arrange the managed windows.
    Arrange,
    /// Nothing more to do.
    Handled,
    /// Hand the message to the environment's default handling.
    PassThrough,
}

/// A report that `h` appeared: an unmanaged window that the classifier
/// approves joins the registry and the screen is re-arranged.
pub open spec fn on_appeared(
    before: &WindowManager,
    after: &WindowManager,
    h: Handle,
    a: WindowAttributes,
    r: Outcome,
) -> bool {
    &&& after.same_setup(before)
    &&& after.registry() == admitted(before.registry(), h, a, before.settings())
    &&& r == (if !is_tracked(before.registry(), h) && admits(a, before.settings()) {
        Outcome::Arrange
    } else {
        Outcome::Handled
    })
}

/// A report that `h` went away: a managed window leaves the registry when it
/// is on the current desktop, and the screen is re-arranged.
pub open spec fn on_gone(
    before: &WindowManager,
    after: &WindowManager,
    h: Handle,
    on_current_desktop: bool,
    r: Outcome,
) -> bool {
    &&& after.same_setup(before)
    &&& after.registry() == unmanaged(before.registry(), h, on_current_desktop)
    &&& r == (if is_tracked(before.registry(), h) {
        Outcome::Arrange
    } else {
        Outcome::Handled
    })
}

impl WindowManager {
    /// Whether a notification carries what the dispatcher needs: one landing
    /// per entry after a drag, a tileable working area after a display change.
    pub open spec fn accepts(&self, event: &Notification) -> bool {
        match *event {
            Notification::MoveResizeEnd(_, _, land) => land@.len() == self.registry().len(),
            Notification::DisplayChange(b) => tileable(b),
            _ => true,
        }
    }

    /// Whether the dispatcher can take `event`.
    pub fn can_accept(&self, event: &Notification) -> (r: bool)
        ensures
            r == self.accepts(event),
    {
        match event {
            Notification::MoveResizeEnd(_, _, land) => land.len() == self.managed_windows.len(),
            Notification::DisplayChange(b) => is_tileable(*b),
            _ => true,
        }
    }

    /// The screen region the windows are tiled in.
    pub fn working_area(&self) -> (r: Bounds)
        ensures
            r == self.area(),
    {
        self.working_area
    }

    /// The active layout.
    pub fn layout(&self) -> (r: Layouts)
        ensures
            r == self.active_layout(),
    {
        self.layout
    }

    /// The manager's own window.
    pub fn hwnd(&self) -> (r: Handle)
        ensures
            r == self.own_window(),
    {
        self.hwnd
    }

    /// The arrangement: each window that is not minimized and is on the current
    /// virtual desktop (`on_current_desktop`, one flag per entry), in registry
    /// order, paired with its tile from the active layout for that many
    /// windows.
    pub fn arrange(&self, on_current_desktop: &Vec<bool>) -> (r: Vec<(Handle, Bounds)>)
        requires
            self.wf(),
            on_current_desktop@.len() == self.registry().len(),
        ensures
            r@.len() == shown(self.registry(), on_current_desktop@).len(),
            forall|k: int|
                0 <= k < r@.len() ==> (#[trigger] r@[k]).0 == shown(
                    self.registry(),
                    on_current_desktop@,
                )[k] && r@[k].1 == layout_spec(
                    self.active_layout(),
                    self.area(),
                    shown(self.registry(), on_current_desktop@).len(),
                )[k],
    {
        let ghost ws = self.registry();
        let ghost d = on_current_desktop@;
        let mut on_screen: Vec<Handle> = Vec::new();
        let mut i: usize = 0;
        while i < self.managed_windows.len()
            invariant
                i <= ws.len(),
                ws == self.managed_windows@,
                d == on_current_desktop@,
                d.len() == ws.len(),
                on_screen@ == shown_upto(ws, d, i as nat),
            decreases ws.len() - i,
        {
            let w = self.managed_windows[i];
            if !w.minimized && on_current_desktop[i] {
                on_screen.push(w.handle);
            }
            i = i + 1;
        }
        let tiles = self.layout.arrange(self.working_area, on_screen.len());
        let mut placements: Vec<(Handle, Bounds)> = Vec::new();
        let mut k: usize = 0;
        while k < on_screen.len()
            invariant
                k <= on_screen@.len(),
                tiles@.len() == on_screen@.len(),
                placements@.len() == k,
                forall|j: int|
                    0 <= j < k ==> (#[trigger] placements@[j]).0 == on_screen@[j]
                        && placements@[j].1 == tiles@[j],
            decreases on_screen@.len() - k,
        {
            placements.push((on_screen[k], tiles[k]));
            k = k + 1;
        }
        placements
    }
}

/// Taking an entry out and putting it back elsewhere keeps the handles
/// distinct.
proof fn lemma_dropped_unique(ws: Seq<Window>, from: int, to: int)
    requires
        unique(ws),
        0 <= from < ws.len(),
        0 <= to < ws.len(),
    ensures
        unique(dropped_at(ws, from, to)),
        dropped_at(ws, from, to).len() == ws.len(),
{
    let r = ws.remove(from);
    let nw = dropped_at(ws, from, to);
    assert(r.len() == ws.len() - 1);
    assert(nw.len() == ws.len());
    assert forall|y: int| 0 <= y < r.len() implies #[trigger] r[y] == ws[if y < from {
        y
    } else {
        y + 1
    }] by {}
    assert forall|x: int| 0 <= x < nw.len() implies #[trigger] nw[x] == (if x == to {
        ws[from]
    } else if x < to {
        r[x]
    } else {
        r[x - 1]
    }) by {}
    assert forall|a: int, b: int|
        0 <= a < nw.len() && 0 <= b < nw.len() && a != b implies (#[trigger] nw[a]).handle != (
        #[trigger] nw[b]).handle by {
        let ya = if a < to { a } else { a - 1 };
        let yb = if b < to { b } else { b - 1 };
        let sa = if a == to { from } else if ya < from { ya } else { ya + 1 };
        let sb = if b == to { from } else if yb < from { yb } else { yb + 1 };
        assert(nw[a] == ws[sa]);
        assert(nw[b] == ws[sb]);
        assert(sa != sb);
    }
}

impl WindowManager {
    /// The first entry that a drag of `moved` ending at `pointer` lands on.
    fn landing_index(&self, moved: Handle, pointer: Point, landing: &Vec<Landing>) -> (r: Option<
        usize,
    >)
        requires
            landing@.len() == self.registry().len(),
        ensures
            r.is_some() ==> first_landing(self.registry(), landing@, moved, pointer, r->0 as int),
            r.is_none() ==> forall|j: int| !lands(self.registry(), landing@, moved, pointer, j),
    {
        let mut j: usize = 0;
        while j < self.managed_windows.len()
            invariant
                j <= self.registry().len(),
                landing@.len() == self.registry().len(),
                forall|k: int| 0 <= k < j ==> !lands(self.registry(), landing@, moved, pointer, k),
            decreases self.registry().len() - j,
        {
            let w = self.managed_windows[j];
            let l = landing[j];
            if w.handle != moved && l.on_current_desktop && l.position.contains(pointer) {
                return Some(j);
            }
            j = j + 1;
        }
        None
    }

    /// Drag to reorder: when the drag of `moved` ends over another managed
    /// window on the current desktop, `moved`'s entry takes that window's
    /// index.
    pub fn drag_to(&mut self, moved: Handle, pointer: Point, landing: &Vec<Landing>)
        requires
            old(self).wf(),
            landing@.len() == old(self).registry().len(),
        ensures
            final(self).wf(),
            final(self).same_setup(old(self)),
            final(self).registry() == dragged(old(self).registry(), moved, pointer, landing@),
    {
        let ghost ws = self.registry();
        let from = match self.index_of(moved) {
            None => {
                return ;
            },
            Some(i) => i,
        };
        match self.landing_index(moved, pointer, landing) {
            None => {
                proof {
                    assert(!exists|j: int| first_landing(ws, landing@, moved, pointer, j));
                }
            },
            Some(to) => {
                proof {
                    let c = choose|j: int| first_landing(ws, landing@, moved, pointer, j);
                    assert(first_landing(ws, landing@, moved, pointer, c));
                    if c < to {
                        assert(!lands(ws, landing@, moved, pointer, c));
                    }
                    if to < c {
                        assert(!lands(ws, landing@, moved, pointer, to as int));
                    }
                    assert(c == to);
                    lemma_dropped_unique(ws, from as int, to as int);
                }
                let w = self.managed_windows.remove(from);
                self.managed_windows.insert(to, w);
            },
        }
    }

    /// A report that `h` appeared, with its attributes.
    fn appeared(&mut self, h: Handle, a: &WindowAttributes) -> (r: Outcome)
        requires
            old(self).wf(),
        ensures
            final(self).wf(),
            on_appeared(old(self), final(self), h, *a, r),
    {
        let ghost ws = self.registry();
        if self.index_of(h).is_none() && self.is_manageable(h, a) {
            self.manage(h);
            self.mark_minimized(h, a.minimized);
            proof {
                let fresh = Window { handle: h, minimized: a.minimized, selected: false };
                assert(self.registry() =~= ws.push(fresh));
            }
            Outcome::Arrange
        } else {
            Outcome::Handled
        }
    }

    /// A report that `h` went away.
    fn gone(&mut self, h: Handle, on_current_desktop: bool) -> (r: Outcome)
        requires
            old(self).wf(),
        ensures
            final(self).wf(),
            on_gone(old(self), final(self), h, on_current_desktop, r),
    {
        if self.index_of(h).is_some() {
            self.unmanage(h, on_current_desktop);
            Outcome::Arrange
        } else {
            Outcome::Handled
        }
    }

    /// Handles one notification: updates the registry, the working area or
    /// the layout as the notification calls for, and says what the caller is
    /// to do next.
    pub fn message_loop(&mut self, event: Notification) -> (r: Outcome)
        requires
            old(self).wf(),
            old(self).accepts(&event),
        ensures
            final(self).wf(),
            match event {
                Notification::Created(h, a) => on_appeared(old(self), final(self), h, a, r),
                Notification::ShellCreated(h, a) => on_appeared(old(self), final(self), h, a, r),
                Notification::Uncloaked(h, a) => on_appeared(old(self), final(self), h, a, r),
                Notification::Destroyed(h, d) => on_gone(old(self), final(self), h, d, r),
                Notification::ShellDestroyed(h, d) => on_gone(old(self), final(self), h, d, r),
                Notification::Cloaked(h, d) => on_gone(old(self), final(self), h, d, r),
                Notification::MinimizeStart(h) => {
                    &&& final(self).same_setup(old(self))
                    &&& final(self).registry() == marked(old(self).registry(), h, true)
                    &&& r == Outcome::Arrange
                },
                Notification::MinimizeEnd(h) => {
                    &&& final(self).same_setup(old(self))
                    &&& final(self).registry() == marked(old(self).registry(), h, false)
                    &&& r == Outcome::Arrange
                },
                Notification::MoveResizeEnd(h, p, land) => {
                    &&& final(self).same_setup(old(self))
                    &&& final(self).registry() == dragged(old(self).registry(), h, p, land@)
                    &&& r == (if is_tracked(old(self).registry(), h) {
                        Outcome::Arrange
                    } else {
                        Outcome::Handled
                    })
                },
                Notification::DisplayChange(b) => {
                    &&& final(self).area() == b
                    &&& final(self).registry() == old(self).registry()
                    &&& final(self).active_layout() == old(self).active_layout()
                    &&& final(self).settings() == old(self).settings()
                    &&& final(self).own_window() == old(self).own_window()
                    &&& r == Outcome::Arrange
                },
                Notification::LayoutSwitch(l) => {
                    &&& final(self).active_layout() == l
                    &&& final(self).registry() == old(self).registry()
                    &&& final(self).area() == old(self).area()
                    &&& final(self).settings() == old(self).settings()
                    &&& final(self).own_window() == old(self).own_window()
                    &&& r == Outcome::Arrange
                },
                Notification::Other => {
                    &&& final(self).same_setup(old(self))
                    &&& final(self).registry() == old(self).registry()
                    &&& r == Outcome::PassThrough
                },
            },
    {
        match event {
            Notification::Created(h, a) => self.appeared(h, &a),
            Notification::ShellCreated(h, a) => self.appeared(h, &a),
            Notification::Uncloaked(h, a) => self.appeared(h, &a),
            Notification::Destroyed(h, d) => self.gone(h, d),
            Notification::ShellDestroyed(h, d) => self.gone(h, d),
            Notification::Cloaked(h, d) => self.gone(h, d),
            Notification::MinimizeStart(h) => {
                self.mark_minimized(h, true);
                Outcome::Arrange
            },
            Notification::MinimizeEnd(h) => {
                self.mark_minimized(h, false);
                Outcome::Arrange
            },
            Notification::MoveResizeEnd(h, p, land) => {
                let is_managed = self.index_of(h).is_some();
                self.drag_to(h, p, &land);
                if is_managed {
                    Outcome::Arrange
                } else {
                    Outcome::Handled
                }
            },
            Notification::DisplayChange(b) => {
                self.working_area = b;
                Outcome::Arrange
            },
            Notification::LayoutSwitch(l) => {
                self.set_layout(l);
                Outcome::Arrange
            },
            Notification::Other => Outcome::PassThrough,
        }
    }
}

/// Managing a window twice leaves the registry as managing it once did: same
/// length, same order.
pub proof fn lemma_manage_idempotent(ws: Seq<Window>, h: Handle)
    ensures
        managed(managed(ws, h), h) == managed(ws, h),
        is_tracked(managed(ws, h), h),
{
    if !is_tracked(ws, h) {
        let n = ws.len() as int;
        assert(managed(ws, h)[n].handle == h);
    }
}

/// Once a window is managed, the classifier approves it whatever its
/// attributes are now.
pub proof fn lemma_managed_stays_manageable(
    ws: Seq<Window>,
    h: Handle,
    earlier: WindowAttributes,
    now: WindowAttributes,
    c: Config,
)
    requires
        manageable(ws, h, earlier, c),
    ensures
        manageable(admitted(ws, h, earlier, c), h, now, c),
        manageable(managed(ws, h), h, now, c),
{
    lemma_manage_idempotent(ws, h);
    if !is_tracked(ws, h) {
        let n = ws.len() as int;
        assert(admitted(ws, h, earlier, c)[n].handle == h);
    }
}

} // verus!
