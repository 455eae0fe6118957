//! Which layout and view the user interface shows, how a request to switch
//! layout or view is resolved, and how the orientation picks the layout.
use vstd::prelude::*;
use vstd::string::StringExecFns;
use crate::deserialized::opt_strings_view;
use crate::key_meta::KeyMeta;
use crate::keyboard::opt_view;
use crate::layout_meta::LayoutMeta;
use crate::str_map::StrMap;
use crate::deserialized::{is_reserved_layout_name, reserved_layout_name};
use crate::text::{ends_with, joined, split_whitespace, strip_suffix, string_views, words};

verus! {

/// Builds the names of the grids of buttons.
pub struct GridBuilder;

/// The name of the grid of a layout's view: the layout name, an underscore
/// and the view name.
pub open spec fn grid_name(layout_name: Seq<char>, view_name: Seq<char>) -> Seq<char> {
    layout_name + "_"@ + view_name
}

impl GridBuilder {
    /// The name of the grid of a layout's view: the layout name and the view
    /// name separated by an underscore.
    pub fn make_grid_name(layout_name: &str, view_name: &str) -> (r: String)
        ensures
            r@ == grid_name(layout_name@, view_name@),
    {
        let mut layout_view_name = layout_name.to_string();
        layout_view_name.append("_");
        layout_view_name.append(view_name);
        proof {
            reveal_strlit("_");
        }
        layout_view_name
    }

    /// The style classes of the button of a key: `key`, `key_` followed by
    /// the key id, then the classes the key's description gives.
    pub fn button_style_classes(key_id: &str, key_meta: &KeyMeta) -> (r: Vec<String>)
        ensures
            string_views(r@) == seq!["key"@, "key_"@ + key_id@] + match opt_strings_view(
                key_meta.styles,
            ) {
                Some(styles) => styles,
                None => Seq::empty(),
            },
    {
        let mut classes: Vec<String> = Vec::new();
        classes.push("key".to_string());
        let mut own = "key_".to_string();
        own.append(key_id);
        classes.push(own);
        proof {
            reveal_strlit("key");
            reveal_strlit("key_");
        }
        let ghost start = string_views(classes@);
        if let Some(styles) = &key_meta.styles {
            let mut i: usize = 0;
            while i < styles.len()
                invariant
                    i <= styles.len(),
                    string_views(classes@) == start + string_views(styles@).take(i as int),
                decreases styles.len() - i,
            {
                let ghost before = classes@;
                classes.push(styles[i].clone());
                proof {
                    assert(string_views(classes@) =~= string_views(before).push(styles@[i as int]@));
                    assert(string_views(styles@).take(i + 1) =~= string_views(styles@).take(
                        i as int,
                    ).push(styles@[i as int]@));
                }
                i = i + 1;
            }
            proof {
                assert(string_views(styles@).take(styles.len() as int) =~= string_views(styles@));
            }
        } else {
            assert(start + Seq::<Seq<char>>::empty() =~= start);
        }
        classes
    }

    /// The rows of the popover of a key, each split into the ids of its
    /// buttons; `None` when the key has no popover.
    pub fn popover_rows(key_meta: &KeyMeta) -> (r: Option<Vec<Vec<String>>>)
        ensures
            match opt_strings_view(key_meta.popup) {
                None => r is None,
                Some(rows) => r matches Some(v) && v@.len() == rows.len() && forall|i: int|
                    0 <= i < rows.len() ==> string_views(#[trigger] v@[i]@) == words(rows[i]),
            },
    {
        match &key_meta.popup {
            None => None,
            Some(popup) => {
                let mut rows: Vec<Vec<String>> = Vec::new();
                let mut i: usize = 0;
                while i < popup.len()
                    invariant
                        i <= popup.len(),
                        rows@.len() == i,
                        forall|j: int|
                            0 <= j < i ==> string_views(#[trigger] rows@[j]@) == words(
                                popup@[j]@,
                            ),
                    decreases popup.len() - i,
                {
                    rows.push(split_whitespace(popup[i].as_str()));
                    i = i + 1;
                }
                Some(rows)
            },
        }
    }

    /// The style class of the grid of a layout's view: `grid_` followed by
    /// the grid's name.
    pub fn grid_style_class(grid_name: &str) -> (r: String)
        ensures
            r@ == "grid_"@ + grid_name@,
    {
        proof {
            reveal_strlit("grid_");
        }
        joined("grid_", grid_name)
    }

    /// The names of the grids of all views of all layouts.
    pub fn grid_names(layout_meta_hashmap: &StrMap<LayoutMeta>) -> (r: Vec<String>)
        ensures
            forall|g: Seq<char>| #[trigger]
                string_views(r@).contains(g) <==> exists|l: Seq<char>, v: Seq<char>|
                    #![trigger grid_name(l, v)]
                    layout_meta_hashmap@.contains_key(l) && layout_meta_hashmap@[l]@.views.contains_key(v)
                        && g == grid_name(l, v),
    {
        let mut names: Vec<String> = Vec::new();
        let n = layout_meta_hashmap.len();
        let mut i: usize = 0;
        while i < n
            invariant
                n == layout_meta_hashmap.keys_seq().len(),
                i <= n,
                forall|k: Seq<char>| #[trigger]
                    layout_meta_hashmap@.contains_key(k) <==> layout_meta_hashmap.keys_seq().contains(k),
                forall|g: Seq<char>| #[trigger]
                    string_views(names@).contains(g) <==> exists|q: int, v: Seq<char>|
                        #![trigger layout_meta_hashmap.keys_seq()[q], grid_name(layout_meta_hashmap.keys_seq()[q], v)]
                        0 <= q < i && layout_meta_hashmap@[layout_meta_hashmap.keys_seq()[q]]@.views.contains_key(v)
                            && g == grid_name(layout_meta_hashmap.keys_seq()[q], v),
            decreases n - i,
        {
            let layout_name = layout_meta_hashmap.key_at(i);
            let layout = layout_meta_hashmap.value_at(i);
            let m = layout.views.len();
            let ghost before = string_views(names@);
            let mut j: usize = 0;
            while j < m
                invariant
                    n == layout_meta_hashmap.keys_seq().len(),
                    i < n,
                    layout_name@ == layout_meta_hashmap.keys_seq()[i as int],
                    *layout == layout_meta_hashmap@[layout_meta_hashmap.keys_seq()[i as int]],
                    m == layout.views.keys_seq().len(),
                    forall|k: Seq<char>| #[trigger]
                        layout.views@.contains_key(k) <==> layout.views.keys_seq().contains(k),
                    j <= m,
                    forall|g: Seq<char>| #[trigger]
                        string_views(names@).contains(g) <==> (before.contains(g) || exists|q: int|
                            0 <= q < j && g == grid_name(layout_name@, #[trigger] layout.views.keys_seq()[q])),
                decreases m - j,
            {
                let view_name = layout.views.key_at(j);
                let name = GridBuilder::make_grid_name(layout_name.as_str(), view_name.as_str());
                let ghost prev = names@;
                names.push(name);
                proof {
                    assert(string_views(names@) =~= string_views(prev).push(name@));
                    assert forall|g: Seq<char>| #[trigger]
                        string_views(names@).contains(g) <==> (before.contains(g) || exists|q: int|
                            0 <= q < j + 1 && g == grid_name(layout_name@, #[trigger] layout.views.keys_seq()[q])) by {
                        if string_views(names@).contains(g) && !string_views(prev).contains(g) {
                            let x = choose|x: int| 0 <= x < string_views(names@).len() && string_views(names@)[x] == g;
                            if x < prev.len() {
                                assert(string_views(prev)[x] == g);
                            }
                            assert(g == grid_name(layout_name@, layout.views.keys_seq()[j as int]));
                        }
                        if string_views(prev).contains(g) {
                            let x = choose|x: int| 0 <= x < string_views(prev).len() && string_views(prev)[x] == g;
                            assert(string_views(names@)[x] == g);
                        }
                        if exists|q: int| 0 <= q < j + 1 && g == grid_name(layout_name@, #[trigger] layout.views.keys_seq()[q]) {
                            let q = choose|q: int| 0 <= q < j + 1 && g == grid_name(layout_name@, #[trigger] layout.views.keys_seq()[q]);
                            if q == j {
                                assert(string_views(names@)[prev.len() as int] == g);
                            }
                        }
                    }
                }
                j = j + 1;
            }
            proof {
                let ks = layout_meta_hashmap.keys_seq();
                assert forall|v: Seq<char>| #[trigger] layout.views@.contains_key(v) implies exists|q: int|
                    0 <= q < m && v == #[trigger] layout.views.keys_seq()[q] by {
                    assert(layout.views.keys_seq().contains(v));
                }
                assert forall|g: Seq<char>| #[trigger]
                    string_views(names@).contains(g) <==> exists|q: int, v: Seq<char>|
                        #![trigger ks[q], grid_name(ks[q], v)]
                        0 <= q < i + 1 && layout_meta_hashmap@[ks[q]]@.views.contains_key(v)
                            && g == grid_name(ks[q], v) by {
                    if string_views(names@).contains(g) && !before.contains(g) {
                        let q = choose|q: int| 0 <= q < m && g == grid_name(layout_name@, #[trigger] layout.views.keys_seq()[q]);
                        let v = layout.views.keys_seq()[q];
                        assert(layout.views@.contains_key(v));
                        assert(ks[i as int] == layout_name@);
                        assert(g == grid_name(ks[i as int], v));
                    }
                    if exists|q: int, v: Seq<char>|
                        #![trigger ks[q], grid_name(ks[q], v)]
                        0 <= q < i + 1 && layout_meta_hashmap@[ks[q]]@.views.contains_key(v)
                            && g == grid_name(ks[q], v) {
                        let (q, v) = choose|q: int, v: Seq<char>|
                            #![trigger ks[q], grid_name(ks[q], v)]
                            0 <= q < i + 1 && layout_meta_hashmap@[ks[q]]@.views.contains_key(v)
                                && g == grid_name(ks[q], v);
                        if q == i {
                            assert(layout.views@.contains_key(v));
                            let x = choose|x: int| 0 <= x < m && v == #[trigger] layout.views.keys_seq()[x];
                            assert(g == grid_name(layout_name@, layout.views.keys_seq()[x]));
                        }
                    }
                }
            }
            i = i + 1;
        }
        proof {
            let ks = layout_meta_hashmap.keys_seq();
            assert forall|g: Seq<char>| #[trigger]
                string_views(names@).contains(g) <==> exists|l: Seq<char>, v: Seq<char>|
                    #![trigger grid_name(l, v)]
                    layout_meta_hashmap@.contains_key(l) && layout_meta_hashmap@[l]@.views.contains_key(v)
                        && g == grid_name(l, v) by {
                if string_views(names@).contains(g) {
                    let (q, v) = choose|q: int, v: Seq<char>|
                        #![trigger ks[q], grid_name(ks[q], v)]
                        0 <= q < n && layout_meta_hashmap@[ks[q]]@.views.contains_key(v)
                            && g == grid_name(ks[q], v);
                    assert(ks.contains(ks[q]));
                    assert(layout_meta_hashmap@.contains_key(ks[q]));
                }
                if exists|l: Seq<char>, v: Seq<char>|
                    #![trigger grid_name(l, v)]
                    layout_meta_hashmap@.contains_key(l) && layout_meta_hashmap@[l]@.views.contains_key(v)
                        && g == grid_name(l, v) {
                    let (l, v) = choose|l: Seq<char>, v: Seq<char>|
                        #![trigger grid_name(l, v)]
                        layout_meta_hashmap@.contains_key(l) && layout_meta_hashmap@[l]@.views.contains_key(v)
                            && g == grid_name(l, v);
                    assert(ks.contains(l));
                    let q = choose|q: int| 0 <= q < ks.len() && ks[q] == l;
                    assert(g == grid_name(ks[q], v));
                }
            }
        }
        names
    }
}

/// How the screen is turned.
#[derive(Clone, Copy, Debug, PartialEq, Eq, Structural)]
pub enum Orientation {
    Landscape,
    Portrait,
}

/// The orientation that a window of the given width is shown in: a width
/// of 720 pixels is the landscape width of the phone the keyboard is made
/// for, every other width counts as portrait.
pub fn orientation_for_width(width: i32) -> (r: Orientation)
    ensures
        r == (if width == 720 { Orientation::Landscape } else { Orientation::Portrait }),
{
    if width == 720 {
        Orientation::Landscape
    } else {
        Orientation::Portrait
    }
}

/// Errors when changing the user interface.
#[derive(Clone, Copy, Debug, PartialEq, Eq, Structural)]
pub enum UIError {
    /// The requested layout or view does not exist.
    LayoutViewNonExistent,
}

/// The name of the view that a layout is shown in when it is switched to.
pub open spec fn base_view_name() -> Seq<char> {
    "base"@
}

/// The suffix of the name of the landscape version of a layout.
pub open spec fn wide_suffix() -> Seq<char> {
    "_wide"@
}

/// What the user interface shows: the current layout and view, the layout
/// shown before the last change of layout, and the grids that exist.
pub struct UIManagerView {
    pub layout: Seq<char>,
    pub view: Seq<char>,
    pub prev_layout: Seq<char>,
    pub grids: Seq<Seq<char>>,
}

/// The layout and view that a request resolves to. A new layout is shown in
/// its base view; the layout name `previous` stands for the layout shown
/// before. A new view replaces the view, in the current layout if no new
/// layout is given.
pub open spec fn target_layout_view(
    st: UIManagerView,
    new_layout: Option<Seq<char>>,
    new_view: Option<Seq<char>>,
) -> (Seq<char>, Seq<char>) {
    let layout = match new_layout {
        Some(l) => if l == reserved_layout_name() { st.prev_layout } else { l },
        None => st.layout,
    };
    let view = match new_view {
        Some(v) => v,
        None => match new_layout {
            Some(_) => base_view_name(),
            None => st.view,
        },
    };
    (layout, view)
}

/// The state after a request to change the layout or view, or `None` when
/// no grid exists for the layout and view that it resolves to. A change of
/// layout remembers the layout that was shown before.
pub open spec fn layout_view_changed(
    st: UIManagerView,
    new_layout: Option<Seq<char>>,
    new_view: Option<Seq<char>>,
) -> Option<UIManagerView> {
    let (l, v) = target_layout_view(st, new_layout, new_view);
    if st.grids.contains(grid_name(l, v)) {
        Some(
            UIManagerView {
                layout: l,
                view: v,
                prev_layout: if new_layout is Some { st.layout } else { st.prev_layout },
                grids: st.grids,
            },
        )
    } else {
        None
    }
}

/// Whether the layout name ends with `_wide`, the mark of a landscape layout.
pub open spec fn is_wide_layout(layout: Seq<char>) -> bool {
    wide_suffix().len() <= layout.len() && layout.subrange(
        layout.len() - wide_suffix().len(),
        layout.len() as int,
    ) == wide_suffix()
}

/// The state after a change of orientation: in landscape the layout whose
/// name is the current one with `_wide` appended, in portrait the layout
/// whose name is the current one without that suffix. Nothing changes when
/// the current layout already fits the orientation or when no such layout
/// has a grid.
pub open spec fn orientation_changed(st: UIManagerView, o: Orientation) -> UIManagerView {
    let ends_wide = is_wide_layout(st.layout);
    let target = match o {
        Orientation::Landscape => if ends_wide {
            None
        } else {
            Some(st.layout + wide_suffix())
        },
        Orientation::Portrait => if ends_wide {
            Some(st.layout.subrange(0, st.layout.len() - wide_suffix().len()))
        } else {
            None
        },
    };
    match target {
        Some(l) => match layout_view_changed(st, Some(l), None) {
            Some(next) => next,
            None => st,
        },
        None => st,
    }
}

/// Changes the layout and view shown, decides the landscape or portrait
/// layout and names the feedback events of button presses.
pub struct UIManager {
    pub current_layout_view: (String, String),
    prev_layout: String,
    grid_names: Vec<String>,
}

impl View for UIManager {
    type V = UIManagerView;

    closed spec fn view(&self) -> UIManagerView {
        UIManagerView {
            layout: self.current_layout_view.0@,
            view: self.current_layout_view.1@,
            prev_layout: self.prev_layout@,
            grids: string_views(self.grid_names@),
        }
    }
}

impl UIManager {
    /// A manager that shows the given layout and view, with the given grids.
    /// The previous layout is the current one.
    pub fn new(grid_names: Vec<String>, current_layout_view: (String, String)) -> (r: UIManager)
        ensures
            r@ == (UIManagerView {
                layout: current_layout_view.0@,
                view: current_layout_view.1@,
                prev_layout: current_layout_view.0@,
                grids: string_views(grid_names@),
            }),
    {
        let prev_layout = current_layout_view.0.clone();
        UIManager { current_layout_view, prev_layout, grid_names }
    }

    /// The event sent to the feedback daemon when a button is pressed
    /// (`button-pressed`) or released (`button-released`).
    pub fn haptic_feedback(&self, is_press: bool) -> (r: String)
        ensures
            r@ == (if is_press { "button-pressed"@ } else { "button-released"@ }),
    {
        if is_press {
            "button-pressed".to_string()
        } else {
            "button-released".to_string()
        }
    }

    /// The layout and view that a request resolves to.
    fn make_new_layout_view_name(&self, new_layout: &Option<String>, new_view: Option<String>) -> (r: (
        String,
        String,
    ))
        ensures
            (r.0@, r.1@) == target_layout_view(self@, opt_view(*new_layout), opt_view(new_view)),
    {
        let layout;
        let mut view = self.current_layout_view.1.clone();
        if let Some(new_layout) = new_layout {
            if is_reserved_layout_name(new_layout) {
                layout = self.prev_layout.clone();
            } else {
                layout = new_layout.clone();
            }
            view = "base".to_string();
            proof {
                reveal_strlit("base");
            }
        } else {
            layout = self.current_layout_view.0.clone();
        }
        if let Some(new_view) = new_view {
            view = new_view;
        }
        (layout, view)
    }

    /// Whether a grid of that name exists.
    fn has_grid(&self, name: &String) -> (r: bool)
        ensures
            r == self@.grids.contains(name@),
    {
        let mut i: usize = 0;
        while i < self.grid_names.len()
            invariant
                i <= self.grid_names.len(),
                forall|k: int| 0 <= k < i ==> self.grid_names@[k]@ != name@,
            decreases self.grid_names.len() - i,
        {
            if self.grid_names[i] == *name {
                assert(string_views(self.grid_names@)[i as int] == name@);
                return true;
            }
            i = i + 1;
        }
        proof {
            if string_views(self.grid_names@).contains(name@) {
                let k = choose|k: int|
                    0 <= k < string_views(self.grid_names@).len() && string_views(
                        self.grid_names@,
                    )[k] == name@;
                assert(self.grid_names@[k]@ == name@);
            }
        }
        false
    }

    /// Changes to the requested layout and view. Fails, changing nothing,
    /// when no grid exists for them; that is expected when a layout has no
    /// landscape version.
    pub fn change_layout_view(&mut self, new_layout: &Option<String>, new_view: Option<String>) -> (r:
        Result<(), UIError>)
        ensures
            match layout_view_changed(old(self)@, opt_view(*new_layout), opt_view(new_view)) {
                Some(next) => r is Ok && final(self)@ == next,
                None => r == Err::<(), UIError>(UIError::LayoutViewNonExistent) && final(self)@
                    == old(self)@,
            },
    {
        let (layout, view) = self.make_new_layout_view_name(new_layout, new_view);
        let new_layout_view_name = GridBuilder::make_grid_name(layout.as_str(), view.as_str());
        if self.has_grid(&new_layout_view_name) {
            if new_layout.is_some() {
                self.prev_layout = self.current_layout_view.0.clone();
            }
            self.current_layout_view = (layout, view);
            Ok(())
        } else {
            Err(UIError::LayoutViewNonExistent)
        }
    }

    /// Switches to the landscape or portrait version of the current layout.
    pub fn change_orientation(&mut self, orientation: Orientation)
        ensures
            final(self)@ == orientation_changed(old(self)@, orientation),
    {
        proof {
            reveal_strlit("_wide");
        }
        let layout = self.current_layout_view.0.clone();
        match orientation {
            Orientation::Landscape => {
                if !ends_with(layout.as_str(), "_wide") {
                    let landscape_layout = joined(layout.as_str(), "_wide");
                    let _ = self.change_layout_view(&Some(landscape_layout), None);
                }
            },
            Orientation::Portrait => {
                if let Some(portrait_layout) = strip_suffix(layout.as_str(), "_wide") {
                    proof {
                        assert(portrait_layout@ =~= layout@.subrange(
                            0,
                            layout@.len() - wide_suffix().len(),
                        ));
                        assert(layout@.subrange(
                            layout@.len() - wide_suffix().len(),
                            layout@.len() as int,
                        ) =~= wide_suffix());
                    }
                    let _ = self.change_layout_view(&Some(portrait_layout), None);
                }
            },
        }
    }
}

/// Whether the name is among the strings.
fn contains_name(names: &Vec<String>, name: &String) -> (r: bool)
    ensures
        r == string_views(names@).contains(name@),
{
    let mut i: usize = 0;
    while i < names.len()
        invariant
            i <= names.len(),
            forall|k: int| 0 <= k < i ==> names@[k]@ != name@,
        decreases names.len() - i,
    {
        if names[i] == *name {
            assert(string_views(names@)[i as int] == name@);
            return true;
        }
        i = i + 1;
    }
    proof {
        if string_views(names@).contains(name@) {
            let k = choose|k: int|
                0 <= k < string_views(names@).len() && string_views(names@)[k] == name@;
            assert(names@[k]@ == name@);
        }
    }
    false
}

/// The layouts the preferences offer to switch to: each layout whose name
/// does not end with `_wide`, once, in the order given. Landscape layouts
/// are switched to when the screen turns.
pub fn portrait_layout_names(layout_names: &Vec<String>) -> (r: Vec<String>)
    ensures
        string_views(r@).no_duplicates(),
        forall|n: Seq<char>|
            #[trigger] string_views(r@).contains(n) <==> string_views(layout_names@).contains(n)
                && !is_wide_layout(n),
{
    proof {
        reveal_strlit("_wide");
    }
    let mut names: Vec<String> = Vec::new();
    let mut i: usize = 0;
    while i < layout_names.len()
        invariant
            i <= layout_names.len(),
            string_views(names@).no_duplicates(),
            forall|n: Seq<char>|
                #[trigger] string_views(names@).contains(n) <==> string_views(
                    layout_names@,
                ).take(i as int).contains(n) && !is_wide_layout(n),
        decreases layout_names.len() - i,
    {
        let name = &layout_names[i];
        let ghost before = string_views(names@);
        let ghost t = string_views(layout_names@).take(i as int);
        let ghost t1 = string_views(layout_names@).take(i + 1);
        proof {
            assert(t1 =~= t.push(name@));
            assert forall|n: Seq<char>| t1.contains(n) <==> (t.contains(n) || n == name@) by {
                if t1.contains(n) && n != name@ {
                    let j = choose|j: int| 0 <= j < t1.len() && t1[j] == n;
                    assert(t[j] == n);
                }
                if t.contains(n) {
                    let j = choose|j: int| 0 <= j < t.len() && t[j] == n;
                    assert(t1[j] == n);
                }
                if n == name@ {
                    assert(t1[i as int] == n);
                }
            }
        }
        if !ends_with(name.as_str(), "_wide") && !contains_name(&names, name) {
            names.push(name.clone());
            proof {
                let after = string_views(names@);
                assert(after =~= before.push(name@));
                assert(after.no_duplicates()) by {
                    assert forall|a: int, b: int| 0 <= a < b < after.len() implies after[a]
                        != after[b] by {
                        if b == before.len() {
                            assert(before.contains(after[a]));
                        }
                    }
                }
                assert forall|n: Seq<char>| #[trigger] after.contains(n) <==> t1.contains(n)
                    && !is_wide_layout(n) by {
                    if after.contains(n) && n != name@ {
                        let j = choose|j: int| 0 <= j < after.len() && after[j] == n;
                        assert(before[j] == n);
                        assert(before.contains(n));
                    }
                    if before.contains(n) {
                        let j = choose|j: int| 0 <= j < before.len() && before[j] == n;
                        assert(after[j] == n);
                    }
                    if n == name@ {
                        assert(after[before.len() as int] == n);
                    }
                }
            }
        }
        i = i + 1;
    }
    proof {
        assert(string_views(layout_names@).take(layout_names.len() as int) =~= string_views(
            layout_names@,
        ));
    }
    names
}

/// Turning to landscape and back to portrait returns to the layout shown
/// before, in its base view, when the layout has a landscape version and
/// both have a base view. (A layout called `previous` is left out: the name
/// stands for the previous layout.)
pub proof fn lemma_landscape_round_trip(st: UIManagerView)
    requires
        !is_wide_layout(st.layout),
        st.layout != reserved_layout_name(),
        st.grids.contains(grid_name(st.layout + wide_suffix(), base_view_name())),
        st.grids.contains(grid_name(st.layout, base_view_name())),
    ensures
        orientation_changed(st, Orientation::Landscape).layout == st.layout + wide_suffix(),
        orientation_changed(orientation_changed(st, Orientation::Landscape), Orientation::Portrait)
            == (UIManagerView {
            layout: st.layout,
            view: base_view_name(),
            prev_layout: st.layout + wide_suffix(),
            grids: st.grids,
        }),
{
    reveal_strlit("_wide");
    reveal_strlit("previous");
    let wide = st.layout + wide_suffix();
    assert(wide != reserved_layout_name()) by {
        assert(wide[wide.len() - 1] == 'e');
        if wide.len() == reserved_layout_name().len() {
            assert(reserved_layout_name()[7] == 's');
        }
    }
    assert(wide.subrange(wide.len() - wide_suffix().len(), wide.len() as int) =~= wide_suffix());
    assert(wide.subrange(0, wide.len() - wide_suffix().len()) =~= st.layout);
}

/// Switching to another layout and then to `previous` returns to the
/// layout shown first, in its base view, when it has one.
pub proof fn lemma_previous_returns(st: UIManagerView, other: Seq<char>)
    requires
        other != reserved_layout_name(),
        layout_view_changed(st, Some(other), None) is Some,
        st.grids.contains(grid_name(st.layout, base_view_name())),
    ensures
        ({
            let first = layout_view_changed(st, Some(other), None)->0;
            layout_view_changed(first, Some(reserved_layout_name()), None) == Some(
                UIManagerView {
                    layout: st.layout,
                    view: base_view_name(),
                    prev_layout: other,
                    grids: st.grids,
                },
            )
        }),
{
}

/// Only a change of layout changes the previous layout: a successful change
/// of view alone keeps the layout and the previous layout, and a successful
/// change of layout makes the layout shown before it the previous one.
pub proof fn lemma_view_change_keeps_previous(
    st: UIManagerView,
    new_layout: Option<Seq<char>>,
    new_view: Option<Seq<char>>,
)
    ensures
        new_layout is None && layout_view_changed(st, new_layout, new_view) is Some ==> {
            let next = layout_view_changed(st, new_layout, new_view)->0;
            &&& next.prev_layout == st.prev_layout
            &&& next.layout == st.layout
        },
        new_layout is Some && layout_view_changed(st, new_layout, new_view) is Some ==> layout_view_changed(
            st,
            new_layout,
            new_view,
        )->0.prev_layout == st.layout,
{
}

/// Switching from one layout to another, then changing only the view, then
/// asking for `previous` returns to the first layout.
pub proof fn lemma_previous_after_view_change(st: UIManagerView, other: Seq<char>, view: Seq<char>)
    requires
        other != reserved_layout_name(),
        layout_view_changed(st, Some(other), None) is Some,
        layout_view_changed(layout_view_changed(st, Some(other), None)->0, None, Some(view)) is Some,
        st.grids.contains(grid_name(st.layout, base_view_name())),
    ensures
        ({
            let s1 = layout_view_changed(st, Some(other), None)->0;
            let s2 = layout_view_changed(s1, None, Some(view))->0;
            let s3 = layout_view_changed(s2, Some(reserved_layout_name()), None);
            s3 is Some && s3->0.layout == st.layout && s3->0.view == base_view_name()
        }),
{
}

} // verus!
