//! What the launcher sets on its widgets: tile icons, shortcut hints and
//! the names of the pages. Each widget is described by the properties the
//! launcher sets.
use vstd::prelude::*;
use crate::num::{i64_text, int_text};
use crate::text::{starts_with, starts_with_str, str_eq};

verus! {

/// An image widget: the file or icon it shows, whether it shows, its
/// style classes.
pub struct IconView {
    pub file: Option<String>,
    pub icon_name: Option<String>,
    pub visible: bool,
    pub classes: Vec<String>,
}

pub open spec fn class_views(v: Seq<String>) -> Seq<Seq<char>> {
    v.map_values(|s: String| s@)
}

/// Setting an icon by name or, for an absolute path, from its file.
pub trait IconComp {
    fn set_icon(&mut self, icon_name: Option<&str>, icon_class: Option<&str>, fallback: Option<&str>);
}

pub open spec fn opt_str(o: Option<&str>) -> Option<Seq<char>> {
    match o {
        Some(s) => Some(s@),
        None => None,
    }
}

impl IconComp for IconView {
    /// The icon is the given name, else the fallback; a name starting with
    /// `/` is a file. Without either the image is hidden. The class is
    /// added where it is not there yet.
    fn set_icon(&mut self, icon_name: Option<&str>, icon_class: Option<&str>, fallback: Option<&str>)
        ensures
            match (match opt_str(icon_name) {
                Some(n) => Some(n),
                None => opt_str(fallback),
            }) {
                Some(n) => if starts_with(n, "/"@) {
                    (final(self).file matches Some(f) && f@ == n) && final(self).icon_name == old(
                        self,
                    ).icon_name && final(self).visible == old(self).visible
                } else {
                    (final(self).icon_name matches Some(i) && i@ == n) && final(self).file == old(
                        self,
                    ).file && final(self).visible == old(self).visible
                },
                None => !final(self).visible && final(self).file == old(self).file
                    && final(self).icon_name == old(self).icon_name,
            },
            match icon_class {
                Some(c) => if class_views(old(self).classes@).contains(c@) {
                    class_views(final(self).classes@) == class_views(old(self).classes@)
                } else {
                    class_views(final(self).classes@) == class_views(old(self).classes@).push(c@)
                },
                None => class_views(final(self).classes@) == class_views(old(self).classes@),
            },
    {
        let chosen = match icon_name {
            Some(n) => Some(n),
            None => fallback,
        };
        match chosen {
            Some(n) => {
                if starts_with_str(n, "/") {
                    self.file = Some(String::from_str(n));
                } else {
                    self.icon_name = Some(String::from_str(n));
                }
            },
            None => {
                self.visible = false;
            },
        }
        match icon_class {
            Some(c) => {
                let mut present = false;
                let mut i: usize = 0;
                while i < self.classes.len()
                    invariant
                        i <= self.classes@.len(),
                        present == exists|j: int| 0 <= j < i && self.classes@[j]@ == c@,
                    decreases self.classes@.len() - i,
                {
                    if str_eq(self.classes[i].as_str(), c) {
                        present = true;
                    }
                    i = i + 1;
                }
                let ghost before = self.classes@;
                if !present {
                    self.classes.push(String::from_str(c));
                    assert(class_views(self.classes@) =~= class_views(before).push(c@));
                } else {
                    proof {
                        let j = choose|j: int| 0 <= j < before.len() && before[j]@ == c@;
                        assert(class_views(before)[j] == c@);
                    }
                }
                proof {
                    if !present {
                        assert forall|j: int| 0 <= j < class_views(before).len() implies class_views(
                            before,
                        )[j] != c@ by {
                            assert(class_views(before)[j] == before[j]@);
                        }
                    }
                }
            },
            None => {},
        }
    }
}

/// A shortcut hint: whether it shows, and its two labels where the widget
/// has them.
pub struct ShortcutBox {
    pub visible: bool,
    pub modifier_label: Option<String>,
    pub index_label: Option<String>,
}

/// Showing and hiding the shortcut hint of a row.
pub trait ShortCut {
    fn apply_shortcut(&mut self, index: i32, mod_str: &str) -> i32;

    fn remove_shortcut(&mut self) -> i32;
}

impl ShortCut for ShortcutBox {
    /// The first six rows show the modifier and their number; the result
    /// counts a hint that was set.
    fn apply_shortcut(&mut self, index: i32, mod_str: &str) -> (r: i32)
        ensures
            index >= 6 ==> r == 0 && *final(self) == *old(self),
            index < 6 ==> {
                &&& r == (if old(self).index_label is Some {
                    1i32
                } else {
                    0i32
                })
                &&& final(self).visible == (old(self).visible || old(self).modifier_label is Some
                    || old(self).index_label is Some)
                &&& match old(self).modifier_label {
                    Some(_) => final(self).modifier_label matches Some(m) && m@ == mod_str@,
                    None => final(self).modifier_label is None,
                }
                &&& match old(self).index_label {
                    Some(_) => final(self).index_label matches Some(l) && l@ == int_text(
                        index as int,
                    ),
                    None => final(self).index_label is None,
                }
            },
    {
        if index < 6 {
            if self.modifier_label.is_some() {
                self.visible = true;
                self.modifier_label = Some(String::from_str(mod_str));
            }
            if self.index_label.is_some() {
                self.visible = true;
                self.index_label = Some(i64_text(index as i64));
                return 1;
            }
        }
        0
    }

    /// Hides the hint; the result tells whether it was shown.
    fn remove_shortcut(&mut self) -> (r: i32)
        ensures
            r == (if old(self).visible {
                1i32
            } else {
                0i32
            }),
            !final(self).visible,
            final(self).modifier_label == old(self).modifier_label,
            final(self).index_label == old(self).index_label,
    {
        let r = if self.visible {
            1
        } else {
            0
        };
        self.visible = false;
        r
    }
}

/// The pages of the window's stack, each with its name where it has one.
pub struct StackPages {
    pub names: Vec<Option<String>>,
}

/// The names of the pages that have one, in order.
pub open spec fn named_pages(names: Seq<Option<String>>) -> Seq<Seq<char>>
    decreases names.len(),
{
    if names.len() == 0 {
        Seq::empty()
    } else {
        let rest = named_pages(names.drop_last());
        match names.last() {
            Some(n) => rest.push(n@),
            None => rest,
        }
    }
}

/// The page names of a stack.
pub trait StackHelpers {
    fn get_page_names(&self) -> Vec<String>;
}

impl StackHelpers for StackPages {
    fn get_page_names(&self) -> (r: Vec<String>)
        ensures
            class_views(r@) == named_pages(self.names@),
    {
        let mut out: Vec<String> = Vec::new();
        let mut i: usize = 0;
        while i < self.names.len()
            invariant
                i <= self.names@.len(),
                class_views(out@) == named_pages(self.names@.take(i as int)),
            decreases self.names@.len() - i,
        {
            proof {
                assert(self.names@.take(i + 1).drop_last() =~= self.names@.take(i as int));
            }
            let ghost before = out@;
            match &self.names[i] {
                Some(n) => {
                    out.push(n.clone());
                    assert(class_views(out@) =~= class_views(before).push(n@));
                },
                None => {},
            }
            i = i + 1;
        }
        assert(self.names@.take(self.names@.len() as int) =~= self.names@);
        out
    }
}

} // verus!
