//! A layout with the information to build all its keys, and the arrangement
//! of the keys of each of its views.
use vstd::prelude::*;
use crate::deserialized::{KeyDeserialized, KeyDeserializedView, LayoutDeserialized};
use crate::key_arrangement::{
    arrangement_of, key_meta_views, row_width, rows_arrangeable, KeyArrangement,
    KeyArrangementView,
};
use crate::key_meta::{completed_key_meta, KeyMeta, KeyMetaView};
use crate::str_map::StrMap;
use crate::text::{split_whitespace, string_views, words};

verus! {

/// A layout description, its strings taken by their characters.
pub struct LayoutDeserializedView {
    pub views: Map<Seq<char>, Seq<Seq<char>>>,
    pub keys: Map<Seq<char>, KeyDeserializedView>,
}

/// The key descriptions of a layout, taken by their views.
pub open spec fn descriptions_view(m: Map<Seq<char>, KeyDeserialized>) -> Map<Seq<char>, KeyDeserializedView> {
    m.map_values(|k: KeyDeserialized| k@)
}

/// The rows of the views of a layout, taken by their characters.
pub open spec fn rows_view(m: Map<Seq<char>, Vec<String>>) -> Map<Seq<char>, Seq<Seq<char>>> {
    m.map_values(|rows: Vec<String>| string_views(rows@))
}

impl View for LayoutDeserialized {
    type V = LayoutDeserializedView;

    open spec fn view(&self) -> LayoutDeserializedView {
        LayoutDeserializedView { views: rows_view(self.views@), keys: descriptions_view(self.keys@) }
    }
}

/// Whether `t` is one of the key ids of the rows.
pub open spec fn rows_hold(rows: Seq<Seq<char>>, t: Seq<char>) -> bool {
    exists|r: int, k: int|
        0 <= r < rows.len() && 0 <= k < words(rows[r]).len() && #[trigger] words(rows[r])[k] == t
}

/// What the description says about key `t`, if anything.
pub open spec fn description_of(keys: Map<Seq<char>, KeyDeserializedView>, t: Seq<char>) -> Option<
    KeyDeserializedView,
> {
    if keys.contains_key(t) {
        Some(keys[t])
    } else {
        None
    }
}

/// The information of every key the rows hold.
pub open spec fn keys_of_rows(keys: Map<Seq<char>, KeyDeserializedView>, rows: Seq<Seq<char>>) -> Map<
    Seq<char>,
    KeyMetaView,
> {
    Map::new(|t: Seq<char>| rows_hold(rows, t), |t: Seq<char>| completed_key_meta(t, description_of(keys, t)))
}

/// The information of every key any view of the layout holds.
pub open spec fn layout_keys(ld: LayoutDeserializedView) -> Map<Seq<char>, KeyMetaView> {
    Map::new(
        |t: Seq<char>| exists|n: Seq<char>| ld.views.contains_key(n) && #[trigger] rows_hold(ld.views[n], t),
        |t: Seq<char>| completed_key_meta(t, description_of(ld.keys, t)),
    )
}

/// Whether every view of the layout can be arranged (see
/// `rows_arrangeable`).
pub open spec fn layout_arrangeable(ld: LayoutDeserializedView) -> bool {
    forall|n: Seq<char>| #[trigger]
        ld.views.contains_key(n) ==> rows_arrangeable(layout_keys(ld), ld.views[n])
}

/// A layout's information, taken by its views.
pub struct LayoutMetaView {
    pub views: Map<Seq<char>, KeyArrangementView>,
    pub keys: Map<Seq<char>, KeyMetaView>,
}

/// The information to build every key of a layout, and the arrangement of
/// the keys of each of its views.
pub struct LayoutMeta {
    pub views: StrMap<KeyArrangement>,
    pub keys: StrMap<KeyMeta>,
}

impl View for LayoutMeta {
    type V = LayoutMetaView;

    open spec fn view(&self) -> LayoutMetaView {
        LayoutMetaView {
            views: self.views@.map_values(|a: KeyArrangement| a@),
            keys: key_meta_views(self.keys@),
        }
    }
}

/// The layout built from a description: every key any view holds, and each
/// view arranged.
pub open spec fn layout_meta_of(ld: LayoutDeserializedView) -> LayoutMetaView {
    LayoutMetaView {
        views: Map::new(
            |n: Seq<char>| ld.views.contains_key(n),
            |n: Seq<char>| arrangement_of(layout_keys(ld), ld.views[n]),
        ),
        keys: layout_keys(ld),
    }
}

impl LayoutMeta {
    /// Builds the layout from its description: the information of each key
    /// of each view (completed with defaults), and the arrangement of each
    /// view.
    pub fn from(layout_deserialized: &LayoutDeserialized) -> (r: LayoutMeta)
        requires
            layout_arrangeable(layout_deserialized@),
        ensures
            r@ == layout_meta_of(layout_deserialized@),
    {
        let keys = LayoutMeta::get_key_meta_for_all_views(layout_deserialized);
        let ghost ld = layout_deserialized@;
        let ghost km = layout_keys(ld);
        let n = layout_deserialized.views.len();
        let mut views: StrMap<KeyArrangement> = StrMap::new();
        let mut i: usize = 0;
        while i < n
            invariant
                ld == layout_deserialized@,
                km == layout_keys(ld),
                key_meta_views(keys@) == km,
                layout_arrangeable(ld),
                n == layout_deserialized.views.keys_seq().len(),
                i <= n,
                forall|k: Seq<char>| #[trigger]
                    layout_deserialized.views@.contains_key(k)
                        <==> layout_deserialized.views.keys_seq().contains(k),
                forall|k: Seq<char>| #[trigger]
                    views@.contains_key(k) <==> layout_deserialized.views.keys_seq().take(
                        i as int,
                    ).contains(k),
                forall|k: Seq<char>| #[trigger]
                    views@.contains_key(k) ==> views@[k]@ == arrangement_of(km, ld.views[k]),
            decreases n - i,
        {
            let name = layout_deserialized.views.key_at(i);
            let rows = layout_deserialized.views.value_at(i);
            let ghost nm = name@;
            assert(layout_deserialized.views.keys_seq().contains(nm));
            assert(layout_deserialized.views@.contains_key(nm));
            assert(ld.views.contains_key(nm));
            assert(ld.views[nm] == string_views(rows@));
            assert(rows_arrangeable(km, ld.views[nm]));
            let arrangement = KeyArrangement::from(rows, &keys);
            views.insert(name.clone(), arrangement);
            proof {
                let ks = layout_deserialized.views.keys_seq();
                lemma_take_succ_contains(ks, i as int);
            }
            i = i + 1;
        }
        let r = LayoutMeta { views, keys };
        proof {
            let ks = layout_deserialized.views.keys_seq();
            assert(ks.take(n as int) =~= ks);
            assert(r@.views =~= layout_meta_of(ld).views);
        }
        r
    }

    /// Whether the layout can be built (see `layout_arrangeable`): every view
    /// has a row, and no row is wider than `i32::MAX` cells.
    pub fn can_build(layout_deserialized: &LayoutDeserialized) -> (r: bool)
        ensures
            r == layout_arrangeable(layout_deserialized@),
    {
        let keys = LayoutMeta::get_key_meta_for_all_views(layout_deserialized);
        let ghost ld = layout_deserialized@;
        let n = layout_deserialized.views.len();
        let mut i: usize = 0;
        while i < n
            invariant
                ld == layout_deserialized@,
                key_meta_views(keys@) == layout_keys(ld),
                n == layout_deserialized.views.keys_seq().len(),
                i <= n,
                forall|k: Seq<char>| #[trigger]
                    layout_deserialized.views@.contains_key(k)
                        <==> layout_deserialized.views.keys_seq().contains(k),
                forall|q: int| 0 <= q < i ==> rows_arrangeable(
                    layout_keys(ld),
                    ld.views[#[trigger] layout_deserialized.views.keys_seq()[q]],
                ),
            decreases n - i,
        {
            let rows = layout_deserialized.views.value_at(i);
            let ghost nm = layout_deserialized.views.keys_seq()[i as int];
            assert(ld.views[nm] == string_views(rows@));
            if !KeyArrangement::can_arrange(rows, &keys) {
                assert(layout_deserialized.views@.contains_key(nm));
                return false;
            }
            i = i + 1;
        }
        proof {
            assert forall|nn: Seq<char>| #[trigger] ld.views.contains_key(nn) implies rows_arrangeable(
                layout_keys(ld),
                ld.views[nn],
            ) by {
                assert(layout_deserialized.views@.contains_key(nn));
                let vs = layout_deserialized.views.keys_seq();
                let q = choose|q: int| 0 <= q < vs.len() && vs[q] == nn;
                assert(rows_arrangeable(layout_keys(ld), ld.views[vs[q]]));
            }
        }
        true
    }

    /// Builds every layout of the map that can be built (see `from`); a
    /// layout that cannot be built (a view without rows, or a row wider
    /// than `i32::MAX` cells) is left out, so a malformed description
    /// breaks nothing.
    pub fn deserialize(layout_deserialized: &StrMap<LayoutDeserialized>) -> (r: StrMap<LayoutMeta>)
        ensures
            forall|n: Seq<char>| #[trigger]
                r@.contains_key(n) <==> layout_deserialized@.contains_key(n) && layout_arrangeable(
                    layout_deserialized@[n]@,
                ),
            forall|n: Seq<char>| #[trigger]
                r@.contains_key(n) ==> r@[n]@ == layout_meta_of(layout_deserialized@[n]@),
    {
        let n = layout_deserialized.len();
        let mut layout_meta: StrMap<LayoutMeta> = StrMap::new();
        let mut i: usize = 0;
        while i < n
            invariant
                n == layout_deserialized.keys_seq().len(),
                i <= n,
                forall|k: Seq<char>| #[trigger]
                    layout_deserialized@.contains_key(k) <==> layout_deserialized.keys_seq().contains(k),
                forall|k: Seq<char>| #[trigger]
                    layout_meta@.contains_key(k) <==> layout_deserialized.keys_seq().take(i as int).contains(k)
                        && layout_arrangeable(layout_deserialized@[k]@),
                forall|k: Seq<char>| #[trigger]
                    layout_meta@.contains_key(k) ==> layout_meta@[k]@ == layout_meta_of(layout_deserialized@[k]@),
            decreases n - i,
        {
            let name = layout_deserialized.key_at(i);
            let ld = layout_deserialized.value_at(i);
            proof {
                lemma_take_succ_contains(layout_deserialized.keys_seq(), i as int);
            }
            if LayoutMeta::can_build(ld) {
                layout_meta.insert(name.clone(), LayoutMeta::from(ld));
            }
            i = i + 1;
        }
        proof {
            assert(layout_deserialized.keys_seq().take(n as int) =~= layout_deserialized.keys_seq());
        }
        layout_meta
    }

    /// The information of the keys of every view of the layout.
    fn get_key_meta_for_all_views(layout_deserialized: &LayoutDeserialized) -> (r: StrMap<KeyMeta>)
        ensures
            key_meta_views(r@) == layout_keys(layout_deserialized@),
    {
        let ghost ld = layout_deserialized@;
        let n = layout_deserialized.views.len();
        let mut keys: StrMap<KeyMeta> = StrMap::new();
        let mut i: usize = 0;
        while i < n
            invariant
                ld == layout_deserialized@,
                n == layout_deserialized.views.keys_seq().len(),
                i <= n,
                forall|k: Seq<char>| #[trigger]
                    layout_deserialized.views@.contains_key(k)
                        <==> layout_deserialized.views.keys_seq().contains(k),
                forall|t: Seq<char>| #[trigger]
                    keys@.contains_key(t) <==> exists|q: int|
                        0 <= q < i && #[trigger] rows_hold(
                            ld.views[layout_deserialized.views.keys_seq()[q]],
                            t,
                        ),
                forall|t: Seq<char>| #[trigger]
                    keys@.contains_key(t) ==> keys@[t]@ == completed_key_meta(
                        t,
                        description_of(ld.keys, t),
                    ),
            decreases n - i,
        {
            let rows = layout_deserialized.views.value_at(i);
            let ghost nm = layout_deserialized.views.keys_seq()[i as int];
            assert(ld.views[nm] == string_views(rows@));
            let view_keys = LayoutMeta::get_key_meta_for_all_keys(rows, &layout_deserialized.keys);
            let ghost before = keys@;
            let m = view_keys.len();
            let mut j: usize = 0;
            while j < m
                invariant
                    ld == layout_deserialized@,
                    n == layout_deserialized.views.keys_seq().len(),
                    i < n,
                    nm == layout_deserialized.views.keys_seq()[i as int],
                    m == view_keys.keys_seq().len(),
                    forall|t: Seq<char>| #[trigger]
                        view_keys@.contains_key(t) <==> view_keys.keys_seq().contains(t),
                    key_meta_views(view_keys@) == keys_of_rows(ld.keys, ld.views[nm]),
                    j <= m,
                    forall|t: Seq<char>| #[trigger]
                        keys@.contains_key(t) <==> (before.contains_key(t)
                            || view_keys.keys_seq().take(j as int).contains(t)),
                    forall|t: Seq<char>| #[trigger]
                        before.contains_key(t) ==> before[t]@ == completed_key_meta(
                            t,
                            description_of(ld.keys, t),
                        ),
                    forall|t: Seq<char>| #[trigger]
                        keys@.contains_key(t) ==> keys@[t]@ == completed_key_meta(
                            t,
                            description_of(ld.keys, t),
                        ),
                decreases m - j,
            {
                let t = view_keys.key_at(j);
                let v = view_keys.value_at(j);
                let ghost tv = t@;
                assert(key_meta_views(view_keys@)[tv] == v@);
                let copy = v.duplicate();
                keys.insert(t.clone(), copy);
                proof {
                    let ks = view_keys.keys_seq();
                    lemma_take_succ_contains(ks, j as int);
                }
                j = j + 1;
            }
            proof {
                let ks = view_keys.keys_seq();
                assert(ks.take(m as int) =~= ks);
                assert forall|t: Seq<char>| #[trigger]
                    keys@.contains_key(t) <==> exists|q: int|
                        0 <= q < i + 1 && #[trigger] rows_hold(
                            ld.views[layout_deserialized.views.keys_seq()[q]],
                            t,
                        ) by {
                    if keys@.contains_key(t) && !before.contains_key(t) {
                        assert(view_keys@.contains_key(t));
                        assert(keys_of_rows(ld.keys, ld.views[nm]).contains_key(t));
                        assert(rows_hold(ld.views[layout_deserialized.views.keys_seq()[i as int]], t));
                    }
                    if exists|q: int|
                        0 <= q < i + 1 && #[trigger] rows_hold(
                            ld.views[layout_deserialized.views.keys_seq()[q]],
                            t,
                        ) {
                        let q = choose|q: int|
                            0 <= q < i + 1 && #[trigger] rows_hold(
                                ld.views[layout_deserialized.views.keys_seq()[q]],
                                t,
                            );
                        if q == i {
                            assert(keys_of_rows(ld.keys, ld.views[nm]).contains_key(t));
                            assert(view_keys@.contains_key(t));
                        }
                    }
                }
            }
            i = i + 1;
        }
        proof {
            let vs = layout_deserialized.views.keys_seq();
            assert forall|t: Seq<char>| #[trigger]
                key_meta_views(keys@).contains_key(t) <==> layout_keys(ld).contains_key(t) by {
                if keys@.contains_key(t) {
                    let q = choose|q: int| 0 <= q < n && #[trigger] rows_hold(ld.views[vs[q]], t);
                    assert(layout_deserialized.views@.contains_key(vs[q]));
                    assert(ld.views.contains_key(vs[q]));
                }
                if layout_keys(ld).contains_key(t) {
                    let nn = choose|nn: Seq<char>|
                        ld.views.contains_key(nn) && #[trigger] rows_hold(ld.views[nn], t);
                    assert(vs.contains(nn));
                    let q = choose|q: int| #![auto] 0 <= q < vs.len() && vs[q] == nn;
                    assert(rows_hold(ld.views[vs[q]], t));
                }
            }
            assert(key_meta_views(keys@) =~= layout_keys(ld));
        }
        keys
    }

    /// The information of every key in the rows: built from what the
    /// description says about the key, completed with defaults.
    pub fn get_key_meta_for_all_keys(
        key_arrangement_deserialized: &Vec<String>,
        key_meta: &StrMap<KeyDeserialized>,
    ) -> (r: StrMap<KeyMeta>)
        ensures
            key_meta_views(r@) == keys_of_rows(
                descriptions_view(key_meta@),
                string_views(key_arrangement_deserialized@),
            ),
    {
        let ghost kd = descriptions_view(key_meta@);
        let ghost rows = string_views(key_arrangement_deserialized@);
        let mut keys: StrMap<KeyMeta> = StrMap::new();
        let mut r: usize = 0;
        while r < key_arrangement_deserialized.len()
            invariant
                kd == descriptions_view(key_meta@),
                rows == string_views(key_arrangement_deserialized@),
                r <= key_arrangement_deserialized.len(),
                forall|t: Seq<char>| #[trigger]
                    keys@.contains_key(t) <==> rows_hold(rows.take(r as int), t),
                forall|t: Seq<char>| #[trigger]
                    keys@.contains_key(t) ==> keys@[t]@ == completed_key_meta(
                        t,
                        description_of(kd, t),
                    ),
            decreases key_arrangement_deserialized.len() - r,
        {
            let ids = split_whitespace(key_arrangement_deserialized[r].as_str());
            let ghost ws = string_views(ids@);
            assert(rows[r as int] == key_arrangement_deserialized@[r as int]@);
            let ghost before = keys@;
            let mut k: usize = 0;
            while k < ids.len()
                invariant
                    kd == descriptions_view(key_meta@),
                    rows == string_views(key_arrangement_deserialized@),
                    r < key_arrangement_deserialized.len(),
                    ws == string_views(ids@),
                    ws == words(rows[r as int]),
                    k <= ids.len(),
                    forall|t: Seq<char>| #[trigger]
                        keys@.contains_key(t) <==> (before.contains_key(t) || ws.take(
                            k as int,
                        ).contains(t)),
                    forall|t: Seq<char>| #[trigger]
                        keys@.contains_key(t) ==> keys@[t]@ == completed_key_meta(
                            t,
                            description_of(kd, t),
                        ),
                decreases ids.len() - k,
            {
                let id = &ids[k];
                assert(ws[k as int] == id@);
                let description = key_meta.get(id);
                let meta = KeyMeta::from(id.as_str(), description);
                assert(match description {
                    Some(d) => Some(d@),
                    None => None::<KeyDeserializedView>,
                } == description_of(kd, id@));
                keys.insert(id.clone(), meta);
                proof {
                    lemma_take_succ_contains(ws, k as int);
                }
                k = k + 1;
            }
            proof {
                assert(ws.take(k as int) =~= ws);
                assert forall|t: Seq<char>| #[trigger]
                    keys@.contains_key(t) <==> rows_hold(rows.take(r + 1), t) by {
                    let rs = rows.take(r + 1);
                    if keys@.contains_key(t) {
                        if before.contains_key(t) {
                            let (a, b) = choose|a: int, b: int|
                                0 <= a < rows.take(r as int).len() && 0 <= b < words(
                                    rows.take(r as int)[a],
                                ).len() && #[trigger] words(rows.take(r as int)[a])[b] == t;
                            assert(rs[a] == rows.take(r as int)[a]);
                            assert(words(rs[a])[b] == t);
                        } else {
                            let b = choose|b: int| 0 <= b < ws.len() && ws[b] == t;
                            assert(rs[r as int] == rows[r as int]);
                            assert(words(rs[r as int])[b] == t);
                        }
                    }
                    if rows_hold(rs, t) {
                        let (a, b) = choose|a: int, b: int|
                            0 <= a < rs.len() && 0 <= b < words(rs[a]).len() && #[trigger] words(
                                rs[a],
                            )[b] == t;
                        if a < r {
                            assert(rows.take(r as int)[a] == rs[a]);
                            assert(words(rows.take(r as int)[a])[b] == t);
                        } else {
                            assert(ws[b] == t);
                        }
                    }
                }
            }
            r = r + 1;
        }
        proof {
            assert(rows.take(r as int) =~= rows);
            assert(key_meta_views(keys@) =~= keys_of_rows(kd, rows));
        }
        keys
    }
}

proof fn lemma_take_succ_contains<A>(s: Seq<A>, i: int)
    requires
        0 <= i < s.len(),
    ensures
        forall|x: A| #[trigger] s.take(i + 1).contains(x) <==> (s.take(i).contains(x) || x == s[i]),
{
    assert forall|x: A| #[trigger] s.take(i + 1).contains(x) <==> (s.take(i).contains(x) || x == s[i]) by {
        let t1 = s.take(i + 1);
        let t0 = s.take(i);
        if t1.contains(x) {
            let q = choose|q: int| 0 <= q < t1.len() && t1[q] == x;
            if q < i {
                assert(t0[q] == x);
            }
        }
        if t0.contains(x) {
            let q = choose|q: int| 0 <= q < t0.len() && t0[q] == x;
            assert(t1[q] == x);
        }
        if x == s[i] {
            assert(t1[i] == x);
        }
    }
}

} // verus!
