//! User configuration: exclusion lists and the layout to start with.
use vstd::prelude::*;

use crate::layout::Layouts;

verus! {

/// Exclusion lists and the default layout. Each list is optional; a missing
/// list excludes nothing.
pub struct Config {
    /// Title fragments that exclude a window of the shell's core-window class.
    pub windows_ui_core_corewindow: Option<Vec<String>>,
    /// Class-name fragments that exclude a window.
    pub class_names: Option<Vec<String>>,
    /// Process-name fragments that exclude a window.
    pub process_names: Option<Vec<String>>,
    /// Title fragments.
    pub titles: Option<Vec<String>>,
    /// The name of the layout to start with.
    pub default_layout: Option<String>,
}

/// The items of an optional list; none when the list is missing.
pub open spec fn items<T>(o: Option<Vec<T>>) -> Seq<T> {
    match o {
        Some(v) => v@,
        None => Seq::empty(),
    }
}

/// The texts of an optional list of strings.
pub open spec fn patterns(o: Option<Vec<String>>) -> Seq<Seq<char>> {
    Seq::new(items(o).len(), |i: int| items(o)[i]@)
}

/// The layout that a configured name selects: Dwindle unless the name is one
/// of the other three.
pub open spec fn layout_named(name: Option<String>) -> Layouts {
    match name {
        Some(s) => if s@ == "Monocle"@ {
            Layouts::Monocle
        } else if s@ == "Columns"@ {
            Layouts::Columns
        } else if s@ == "Focus"@ {
            Layouts::Focus
        } else {
            Layouts::Dwindle
        },
        None => Layouts::Dwindle,
    }
}

/// Both lists one after the other; a list when only one is there; none when
/// neither is.
pub fn merge_option_vecs<T>(a: Option<Vec<T>>, b: Option<Vec<T>>) -> (r: Option<Vec<T>>)
    ensures
        r.is_some() == (a.is_some() || b.is_some()),
        items(r) == items(a) + items(b),
{
    match (a, b) {
        (Some(mut v1), Some(mut v2)) => {
            v1.append(&mut v2);
            Some(v1)
        },
        (Some(v1), None) => {
            proof {
                assert(v1@ + Seq::<T>::empty() =~= v1@);
            }
            Some(v1)
        },
        (None, Some(v2)) => {
            proof {
                assert(Seq::<T>::empty() + v2@ =~= v2@);
            }
            Some(v2)
        },
        (None, None) => {
            proof {
                assert(Seq::<T>::empty() + Seq::<T>::empty() =~= Seq::<T>::empty());
            }
            None
        },
    }
}

/// The right-hand value when there is one, else the left-hand one.
pub fn merge_option_string(lhs: Option<String>, rhs: Option<String>) -> (r: Option<String>)
    ensures
        r == (if rhs.is_some() {
            rhs
        } else {
            lhs
        }),
{
    match (lhs, rhs) {
        (_, Some(b)) => Some(b),
        (a, None) => a,
    }
}

/// Whether `s` holds exactly the text `name`.
fn is_named(s: &String, name: &str) -> (r: bool)
    ensures
        r == (s@ == name@),
{
    let n = name.to_string();
    proof {
        vstd::string::to_string_from_display_ensures_for_str(name, n);
    }
    *s == n
}

impl Config {
    /// A configuration that excludes nothing and names no layout.
    pub fn empty() -> (r: Config)
        ensures
            r.windows_ui_core_corewindow.is_none(),
            r.class_names.is_none(),
            r.process_names.is_none(),
            r.titles.is_none(),
            r.default_layout.is_none(),
    {
        Config {
            windows_ui_core_corewindow: None,
            class_names: None,
            process_names: None,
            titles: None,
            default_layout: None,
        }
    }

    /// `self` with `other` laid over it: the exclusion lists are joined (the
    /// core-window titles are kept from `self` alone), and `other`'s layout
    /// wins when it names one.
    pub fn add(self, other: Config) -> (r: Config)
        ensures
            r.windows_ui_core_corewindow == self.windows_ui_core_corewindow,
            r.class_names.is_some() == (self.class_names.is_some() || other.class_names.is_some()),
            items(r.class_names) == items(self.class_names) + items(other.class_names),
            r.process_names.is_some() == (self.process_names.is_some()
                || other.process_names.is_some()),
            items(r.process_names) == items(self.process_names) + items(other.process_names),
            r.titles.is_some() == (self.titles.is_some() || other.titles.is_some()),
            items(r.titles) == items(self.titles) + items(other.titles),
            r.default_layout == (if other.default_layout.is_some() {
                other.default_layout
            } else {
                self.default_layout
            }),
    {
        Config {
            windows_ui_core_corewindow: self.windows_ui_core_corewindow,
            class_names: merge_option_vecs(self.class_names, other.class_names),
            process_names: merge_option_vecs(self.process_names, other.process_names),
            titles: merge_option_vecs(self.titles, other.titles),
            default_layout: merge_option_string(self.default_layout, other.default_layout),
        }
    }

    /// The layout that the configuration names.
    pub fn layout(&self) -> (r: Layouts)
        ensures
            r == layout_named(self.default_layout),
    {
        match &self.default_layout {
            Some(name) => {
                if is_named(name, "Monocle") {
                    Layouts::Monocle
                } else if is_named(name, "Columns") {
                    Layouts::Columns
                } else if is_named(name, "Focus") {
                    Layouts::Focus
                } else {
                    Layouts::Dwindle
                }
            },
            None => Layouts::Dwindle,
        }
    }
}

} // verus!
