use grout_wm::config::{merge_option_string, merge_option_vecs, Config};
use grout_wm::layout::Layouts;
use grout_wm::rect::{Bounds, Point, Rect};
use grout_wm::window::{
    attributes_admit, contains_any, Handle, Window, WindowAttributes, WS_CHILD, WS_DISABLED,
    WS_EX_NOACTIVATE, WS_EX_TOOLWINDOW,
};
use grout_wm::windowmanager::{frame_placement, Landing, Notification, Outcome, WindowManager};
use grout_wm::Error;

const H1: Handle = Handle(0x101);
const H2: Handle = Handle(0x202);
const H3: Handle = Handle(0x303);

fn screen() -> Bounds {
    Bounds { left: 0, top: 0, right: 1920, bottom: 1080 }
}

fn app_window(title: &str) -> WindowAttributes {
    WindowAttributes {
        style: 0,
        exstyle: 0,
        visible: true,
        cloaked: false,
        minimized: false,
        title: title.to_string(),
        title_len: title.len() as i32,
        class_name: "Notepad".to_string(),
        process_name: Some("notepad.exe".to_string()),
        owner: Handle(0),
    }
}

fn strings(xs: &[&str]) -> Option<Vec<String>> {
    Some(xs.iter().map(|s| s.to_string()).collect())
}

fn handles(wm: &WindowManager) -> Vec<Handle> {
    wm.windows().iter().map(|w| w.handle).collect()
}

fn manager_with(hs: &[Handle]) -> WindowManager {
    let mut wm = WindowManager::new(Config::empty(), screen());
    for h in hs {
        wm.manage(*h);
    }
    wm
}

#[test]
fn new_window_scenario_tiles_the_whole_screen() {
    let mut wm = WindowManager::new(Config::empty(), screen());
    let attrs = app_window("App");
    assert!(wm.is_manageable(H1, &attrs));
    let outcome = wm.message_loop(Notification::ShellCreated(H1, app_window("App")));
    assert_eq!(outcome, Outcome::Arrange);
    assert_eq!(handles(&wm), vec![H1]);
    let placements = wm.arrange(&vec![true]);
    assert_eq!(placements, vec![(H1, Bounds { left: 0, top: 0, right: 1920, bottom: 1080 })]);
}

#[test]
fn minimized_window_is_left_out_of_the_layout() {
    let mut wm = manager_with(&[H1, H2]);
    assert_eq!(wm.message_loop(Notification::MinimizeStart(H2)), Outcome::Arrange);
    assert!(wm.get_window(H2).unwrap().minimized);
    let placements = wm.arrange(&vec![true, true]);
    assert_eq!(placements, vec![(H1, screen())]);
    assert_eq!(wm.message_loop(Notification::MinimizeEnd(H2)), Outcome::Arrange);
    assert_eq!(wm.arrange(&vec![true, true]).len(), 2);
}

#[test]
fn windows_on_other_desktops_are_left_out_of_the_layout() {
    let wm = manager_with(&[H1, H2, H3]);
    let placements = wm.arrange(&vec![true, false, true]);
    assert_eq!(
        placements,
        vec![
            (H1, Bounds { left: 0, top: 0, right: 960, bottom: 1080 }),
            (H3, Bounds { left: 960, top: 0, right: 1920, bottom: 1080 })
        ]
    );
}

#[test]
fn cloaked_on_current_desktop_removes_the_window() {
    let mut wm = manager_with(&[H1, H2]);
    assert_eq!(wm.message_loop(Notification::Cloaked(H1, true)), Outcome::Arrange);
    assert_eq!(handles(&wm), vec![H2]);
}

#[test]
fn cloaked_on_another_desktop_keeps_the_registry() {
    let mut wm = manager_with(&[H1, H2]);
    wm.message_loop(Notification::Cloaked(H1, false));
    assert_eq!(handles(&wm), vec![H1, H2]);
}

#[test]
fn cloaked_unmanaged_window_is_ignored() {
    let mut wm = manager_with(&[H1]);
    assert_eq!(wm.message_loop(Notification::Cloaked(H2, true)), Outcome::Handled);
    assert_eq!(handles(&wm), vec![H1]);
}

#[test]
fn destroyed_removes_the_window() {
    let mut wm = manager_with(&[H1, H2, H3]);
    assert_eq!(wm.message_loop(Notification::ShellDestroyed(H2, true)), Outcome::Arrange);
    assert_eq!(handles(&wm), vec![H1, H3]);
    assert_eq!(wm.message_loop(Notification::Destroyed(H1, true)), Outcome::Arrange);
    assert_eq!(handles(&wm), vec![H3]);
}

fn landing(on: bool, left: i32, right: i32) -> Landing {
    Landing { on_current_desktop: on, position: Bounds { left, top: 0, right, bottom: 1080 } }
}

#[test]
fn drag_onto_second_window_swaps_the_first_two() {
    let mut wm = manager_with(&[H1, H2, H3]);
    let land = vec![landing(true, 0, 960), landing(true, 960, 1920), landing(true, 960, 1920)];
    let outcome = wm.message_loop(Notification::MoveResizeEnd(H1, Point { x: 1000, y: 200 }, land));
    assert_eq!(outcome, Outcome::Arrange);
    assert_eq!(handles(&wm), vec![H2, H1, H3]);
}

#[test]
fn drag_onto_last_window_moves_the_entry_there() {
    let mut wm = manager_with(&[H1, H2, H3]);
    let land = vec![landing(true, 0, 640), landing(true, 640, 1280), landing(true, 1280, 1920)];
    wm.message_loop(Notification::MoveResizeEnd(H1, Point { x: 1500, y: 10 }, land));
    assert_eq!(handles(&wm), vec![H2, H3, H1]);
}

#[test]
fn drag_onto_nothing_keeps_the_order() {
    let mut wm = manager_with(&[H1, H2, H3]);
    let land = vec![landing(true, 0, 640), landing(true, 640, 1280), landing(false, 1280, 1920)];
    let outcome = wm.message_loop(Notification::MoveResizeEnd(H1, Point { x: 1500, y: 10 }, land));
    assert_eq!(outcome, Outcome::Arrange);
    assert_eq!(handles(&wm), vec![H1, H2, H3]);
}

#[test]
fn drag_of_unmanaged_window_is_ignored() {
    let mut wm = manager_with(&[H1, H2]);
    let land = vec![landing(true, 0, 960), landing(true, 960, 1920)];
    let outcome =
        wm.message_loop(Notification::MoveResizeEnd(Handle(9), Point { x: 100, y: 10 }, land));
    assert_eq!(outcome, Outcome::Handled);
    assert_eq!(handles(&wm), vec![H1, H2]);
}

#[test]
fn manage_twice_changes_nothing_the_second_time() {
    let mut wm = manager_with(&[H1, H2]);
    let first = wm.manage(H3);
    let after_first = handles(&wm);
    let second = wm.manage(H3);
    assert_eq!(handles(&wm), after_first);
    assert_eq!(handles(&wm), vec![H1, H2, H3]);
    assert_eq!(first, second);
    assert_eq!(second, Some(Window::new(H3)));
}

#[test]
fn managed_window_stays_manageable() {
    let mut wm = WindowManager::new(Config::empty(), screen());
    wm.manage(H1);
    let mut hidden = app_window("");
    hidden.visible = false;
    hidden.cloaked = true;
    hidden.process_name = None;
    assert!(wm.is_manageable(H1, &hidden));
    assert!(!wm.is_manageable(H2, &hidden));
}

#[test]
fn uncloaked_window_is_managed_once() {
    let mut wm = WindowManager::new(Config::empty(), screen());
    assert_eq!(wm.message_loop(Notification::Uncloaked(H1, app_window("A"))), Outcome::Arrange);
    assert_eq!(wm.message_loop(Notification::Created(H1, app_window("A"))), Outcome::Handled);
    assert_eq!(handles(&wm), vec![H1]);
}

#[test]
fn rejected_window_is_not_managed() {
    let mut wm = WindowManager::new(Config::empty(), screen());
    let mut attrs = app_window("Tool");
    attrs.exstyle = WS_EX_NOACTIVATE;
    assert_eq!(wm.message_loop(Notification::Created(H1, attrs)), Outcome::Handled);
    assert!(wm.windows().is_empty());
}

#[test]
fn display_change_and_layout_switch() {
    let mut wm = manager_with(&[H1, H2]);
    let area = Bounds { left: 0, top: 0, right: 1280, bottom: 720 };
    assert_eq!(wm.message_loop(Notification::DisplayChange(area)), Outcome::Arrange);
    assert_eq!(wm.working_area(), area);
    assert_eq!(wm.message_loop(Notification::LayoutSwitch(Layouts::Monocle)), Outcome::Arrange);
    assert_eq!(wm.layout(), Layouts::Monocle);
    assert_eq!(wm.arrange(&vec![true, true]), vec![(H1, area), (H2, area)]);
}

#[test]
fn other_notifications_pass_through() {
    let mut wm = manager_with(&[H1]);
    assert_eq!(wm.message_loop(Notification::Other), Outcome::PassThrough);
    assert_eq!(handles(&wm), vec![H1]);
}

#[test]
fn can_accept_checks_landings_and_areas() {
    let wm = manager_with(&[H1, H2]);
    let short = Notification::MoveResizeEnd(H1, Point { x: 0, y: 0 }, vec![]);
    assert!(!wm.can_accept(&short));
    let bad = Bounds { left: i32::MIN, top: 0, right: i32::MAX, bottom: 10 };
    assert!(!wm.can_accept(&Notification::DisplayChange(bad)));
    assert!(wm.can_accept(&Notification::DisplayChange(screen())));
}

#[test]
fn enum_windows_manages_the_approved_ones_in_order() {
    let mut wm = WindowManager::new(Config::empty(), screen());
    let mut child = app_window("Child");
    child.style = WS_CHILD;
    let mut iconic = app_window("Iconic");
    iconic.minimized = true;
    let found = vec![(H1, app_window("One")), (H2, child), (H3, iconic), (H1, app_window("One"))];
    wm.enum_windows(&found);
    assert_eq!(handles(&wm), vec![H1, H3]);
    assert!(wm.get_window(H3).unwrap().minimized);
    assert!(!wm.get_window(H1).unwrap().minimized);
    assert!(wm.get_window(H2).is_none());
}

#[test]
fn layout_comes_from_the_configuration() {
    let mut config = Config::empty();
    config.default_layout = Some("Focus".to_string());
    assert_eq!(WindowManager::new(config, screen()).layout(), Layouts::Focus);
    let mut config = Config::empty();
    config.default_layout = Some("Columns".to_string());
    assert_eq!(config.layout(), Layouts::Columns);
    config.default_layout = Some("Monocle".to_string());
    assert_eq!(config.layout(), Layouts::Monocle);
    config.default_layout = Some("Spiral".to_string());
    assert_eq!(config.layout(), Layouts::Dwindle);
    assert_eq!(Config::empty().layout(), Layouts::Dwindle);
}

#[test]
fn set_layout_and_hwnd() {
    let mut wm = manager_with(&[]);
    wm.set_layout(Layouts::Columns);
    wm.set_hwnd(Handle(77));
    assert_eq!(wm.layout(), Layouts::Columns);
    assert_eq!(wm.hwnd(), Handle(77));
}

#[test]
fn classifier_accepts_a_plain_app_window() {
    assert!(attributes_admit(&app_window("App"), &Config::empty()));
}

#[test]
fn classifier_rejects_missing_title_disabled_or_unknown_process() {
    let c = Config::empty();
    let mut a = app_window("App");
    a.title_len = 0;
    assert!(!attributes_admit(&a, &c));
    let mut a = app_window("App");
    a.style = WS_DISABLED;
    assert!(!attributes_admit(&a, &c));
    let mut a = app_window("App");
    a.process_name = None;
    assert!(!attributes_admit(&a, &c));
}

#[test]
fn classifier_rejects_hidden_child_cloaked_or_noactivate() {
    let c = Config::empty();
    let mut a = app_window("App");
    a.visible = false;
    assert!(!attributes_admit(&a, &c));
    let mut a = app_window("App");
    a.style = WS_CHILD;
    assert!(!attributes_admit(&a, &c));
    let mut a = app_window("App");
    a.cloaked = true;
    assert!(!attributes_admit(&a, &c));
    let mut a = app_window("App");
    a.exstyle = WS_EX_NOACTIVATE;
    assert!(!attributes_admit(&a, &c));
}

#[test]
fn classifier_takes_tool_windows_only_without_owner() {
    let c = Config::empty();
    let mut a = app_window("App");
    a.exstyle = WS_EX_TOOLWINDOW;
    assert!(attributes_admit(&a, &c));
    a.owner = Handle(5);
    assert!(!attributes_admit(&a, &c));
    let mut owned = app_window("App");
    owned.owner = Handle(5);
    assert!(attributes_admit(&owned, &c));
}

#[test]
fn classifier_applies_the_exclusion_lists() {
    let mut c = Config::empty();
    c.class_names = strings(&["Progman", "Note"]);
    assert!(!attributes_admit(&app_window("App"), &c));
    let mut c = Config::empty();
    c.process_names = strings(&["pad.exe"]);
    assert!(!attributes_admit(&app_window("App"), &c));
    c.process_names = strings(&["explorer.exe"]);
    assert!(attributes_admit(&app_window("App"), &c));
}

#[test]
fn classifier_excludes_shell_surfaces_by_title() {
    let mut c = Config::empty();
    c.windows_ui_core_corewindow = strings(&["Start", "Search"]);
    let mut a = app_window("Search");
    a.class_name = "Windows.UI.Core.CoreWindow".to_string();
    assert!(!attributes_admit(&a, &c));
    let mut other = app_window("Calculator");
    other.class_name = "Windows.UI.Core.CoreWindow".to_string();
    assert!(attributes_admit(&other, &c));
    assert!(attributes_admit(&app_window("Search"), &c));
}

#[test]
fn contains_any_looks_for_fragments() {
    assert!(contains_any(&strings(&["xyz", "pad"]), "notepad.exe"));
    assert!(!contains_any(&strings(&["xyz"]), "notepad.exe"));
    assert!(!contains_any(&None, "notepad.exe"));
    assert!(!contains_any(&strings(&[]), "notepad.exe"));
}

#[test]
fn config_add_joins_lists_and_prefers_the_user_layout() {
    let mut base = Config::empty();
    base.windows_ui_core_corewindow = strings(&["Start"]);
    base.class_names = strings(&["A"]);
    base.titles = strings(&["T"]);
    base.default_layout = Some("Dwindle".to_string());
    let mut user = Config::empty();
    user.windows_ui_core_corewindow = strings(&["Ignored"]);
    user.class_names = strings(&["B"]);
    user.process_names = strings(&["p.exe"]);
    user.default_layout = Some("Focus".to_string());
    let merged = base.add(user);
    assert_eq!(merged.windows_ui_core_corewindow, strings(&["Start"]));
    assert_eq!(merged.class_names, strings(&["A", "B"]));
    assert_eq!(merged.process_names, strings(&["p.exe"]));
    assert_eq!(merged.titles, strings(&["T"]));
    assert_eq!(merged.default_layout, Some("Focus".to_string()));
}

#[test]
fn merge_option_vecs_cases() {
    assert_eq!(merge_option_vecs(Some(vec![1, 2]), Some(vec![3])), Some(vec![1, 2, 3]));
    assert_eq!(merge_option_vecs(Some(vec![1]), None), Some(vec![1]));
    assert_eq!(merge_option_vecs(None, Some(vec![2])), Some(vec![2]));
    assert_eq!(merge_option_vecs::<i32>(None, None), None);
}

#[test]
fn merge_option_string_cases() {
    let s = |x: &str| Some(x.to_string());
    assert_eq!(merge_option_string(s("a"), s("b")), s("b"));
    assert_eq!(merge_option_string(s("a"), None), s("a"));
    assert_eq!(merge_option_string(None, s("b")), s("b"));
    assert_eq!(merge_option_string(None, None), None);
}

#[test]
fn frame_placement_puts_the_visible_frame_on_the_tile() {
    let tile = Bounds { left: 0, top: 0, right: 960, bottom: 1080 };
    let margin = Bounds { left: 7, top: 0, right: -7, bottom: -7 };
    assert_eq!(frame_placement(tile, margin), Some(Rect::new(-7, 0, 974, 1087)));
    let none = Bounds { left: 0, top: 0, right: 0, bottom: 0 };
    assert_eq!(frame_placement(tile, none), Some(Rect::new(0, 0, 960, 1080)));
}

#[test]
fn frame_placement_refuses_unrepresentable_results() {
    let tile = Bounds { left: i32::MIN, top: 0, right: 0, bottom: 10 };
    let margin = Bounds { left: 7, top: 0, right: -7, bottom: -7 };
    assert_eq!(frame_placement(tile, margin), None);
}

#[test]
fn error_keeps_its_message() {
    assert_eq!(Error::new("Can not enum windows").message(), "Can not enum windows");
}
