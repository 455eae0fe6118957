//! The cells of the key grid of a view, each with the key that covers it.
//! A key that spans several cells is found in each of them.
use vstd::prelude::*;
use crate::key::{key_of, Key, KeyView};
use crate::key_arrangement::{
    arrangement_of, key_meta_views, lemma_arrangement_fits, rows_arrangeable, KeyArrangement,
    Location,
};
use crate::layout_meta::{layout_arrangeable, layout_keys, layout_meta_of, LayoutDeserializedView, LayoutMeta};
use crate::key_meta::KeyMeta;
use crate::str_map::StrMap;

verus! {

/// The cells of one column of a key: `height` cells down from `(x, y)`.
pub open spec fn column_cells(x: int, y: int, height: int) -> Seq<(int, int)> {
    Seq::new(if height > 0 { height as nat } else { 0 }, |j: int| (x, y + j))
}

/// The cells a key at `(x, y)` covers, column by column from the left.
pub open spec fn location_cells(x: int, y: int, width: int, height: int) -> Seq<(int, int)>
    decreases width,
{
    if width <= 0 {
        Seq::empty()
    } else {
        location_cells(x, y, width - 1, height) + column_cells(x + width - 1, y, height)
    }
}

/// The cells covered by the key `id` at `l`, each paired with the key.
pub open spec fn key_cells_of(id: Seq<char>, l: Location, meta: KeyMeta) -> Seq<((int, int), KeyView)> {
    location_cells(l.x as int, l.y as int, l.width as int, l.height as int).map_values(
        |c: (int, int)| (c, key_of(id, meta.actions@)),
    )
}

/// The cells covered by the keys `ids`, in that order, each paired with its
/// key.
pub open spec fn view_cells(
    ids: Seq<Seq<char>>,
    arrangement: Map<Seq<char>, Location>,
    key_meta: Map<Seq<char>, KeyMeta>,
) -> Seq<((int, int), KeyView)>
    decreases ids.len(),
{
    if ids.len() == 0 {
        Seq::empty()
    } else {
        let id = ids.last();
        view_cells(ids.drop_last(), arrangement, key_meta) + key_cells_of(
            id,
            arrangement[id],
            key_meta[id],
        )
    }
}

/// The cells and keys of the grid, taken by their views.
pub open spec fn cells_view(v: Seq<((i32, i32), Key)>) -> Seq<((int, int), KeyView)> {
    v.map_values(|e: ((i32, i32), Key)| ((e.0.0 as int, e.0.1 as int), e.1@))
}

/// Whether every key of the arrangement has its information in `key_meta`
/// and ends inside the range of `i32`.
pub open spec fn cells_computable(
    arrangement: Map<Seq<char>, Location>,
    key_meta: Map<Seq<char>, KeyMeta>,
) -> bool {
    forall|k: Seq<char>| #[trigger]
        arrangement.contains_key(k) ==> key_meta.contains_key(k) && arrangement[k].x
            + arrangement[k].width <= i32::MAX && arrangement[k].y + arrangement[k].height
            <= i32::MAX
}

/// Whether the cells of the arrangement can be listed (see
/// `cells_computable`).
pub fn can_list_cells(key_arrangement: &KeyArrangement, key_meta: &StrMap<KeyMeta>) -> (r: bool)
    ensures
        r == cells_computable(key_arrangement@.key_arrangement, key_meta@),
{
    let arrangement = key_arrangement.get_key_arrangement();
    let ghost am = key_arrangement@.key_arrangement;
    let n = arrangement.len();
    let mut i: usize = 0;
    while i < n
        invariant
            am == arrangement@,
            am == key_arrangement@.key_arrangement,
            n == arrangement.keys_seq().len(),
            i <= n,
            forall|k: Seq<char>| #[trigger] am.contains_key(k) <==> arrangement.keys_seq().contains(k),
            forall|q: int|
                0 <= q < i ==> {
                    let k = #[trigger] arrangement.keys_seq()[q];
                    key_meta@.contains_key(k) && am[k].x + am[k].width <= i32::MAX && am[k].y
                        + am[k].height <= i32::MAX
                },
        decreases n - i,
    {
        let key_id = arrangement.key_at(i);
        let location = arrangement.value_at(i);
        proof {
            assert(arrangement.keys_seq().contains(key_id@));
            assert(am.contains_key(key_id@));
            assert(*location == am[key_id@]);
        }
        if !key_meta.contains_key(key_id) || location.x as i64 + location.width as i64
            > i32::MAX as i64 || location.y as i64 + location.height as i64 > i32::MAX as i64 {
            assert(!cells_computable(key_arrangement@.key_arrangement, key_meta@)) by {
                let k = key_id@;
                assert(key_arrangement@.key_arrangement.contains_key(k));
            }
            return false;
        }
        i = i + 1;
    }
    proof {
        assert forall|k: Seq<char>| #[trigger] am.contains_key(k) implies key_meta@.contains_key(k)
            && am[k].x + am[k].width <= i32::MAX && am[k].y + am[k].height <= i32::MAX by {
            let q = choose|q: int|
                0 <= q < arrangement.keys_seq().len() && arrangement.keys_seq()[q] == k;
            let kk = arrangement.keys_seq()[q];
            assert(kk == k);
        }
    }
    true
}

/// Every cell of the grid that a key covers, with the key: for each key of
/// the arrangement, column by column, each cell from the top.
pub fn key_cells(key_arrangement: &KeyArrangement, key_meta: &StrMap<KeyMeta>) -> (r: Vec<
    ((i32, i32), Key),
>)
    requires
        cells_computable(key_arrangement@.key_arrangement, key_meta@),
    ensures
        cells_view(r@) == view_cells(
            key_arrangement.key_order(),
            key_arrangement@.key_arrangement,
            key_meta@,
        ),
{
    let arrangement = key_arrangement.get_key_arrangement();
    let ghost ids = arrangement.keys_seq();
    let ghost am = key_arrangement@.key_arrangement;
    let n = arrangement.len();
    assert(ids == key_arrangement.key_order());
    let mut key_coordinates: Vec<((i32, i32), Key)> = Vec::new();
    let mut i: usize = 0;
    while i < n
        invariant
            ids == arrangement.keys_seq(),
            am == arrangement@,
            n == ids.len(),
            i <= n,
            cells_computable(am, key_meta@),
            forall|k: Seq<char>| #[trigger] am.contains_key(k) <==> ids.contains(k),
            cells_view(key_coordinates@) == view_cells(ids.take(i as int), am, key_meta@),
        decreases n - i,
    {
        let key_id = arrangement.key_at(i);
        let location = arrangement.value_at(i);
        proof {
            assert(ids.contains(ids[i as int]));
        }
        let meta = key_meta.get(key_id).unwrap();
        let key = Key::from(key_id.as_str(), meta);
        let ghost before = key_coordinates@;
        let ghost kv = key_of(key_id@, meta.actions@);
        let (x, y) = (location.x, location.y);
        let mut width: i32 = 0;
        while width < location.width
            invariant
                0 <= width,
                width <= location.width || width == 0,
                location.x + location.width <= i32::MAX,
                location.y + location.height <= i32::MAX,
                x == location.x,
                y == location.y,
                key@ == kv,
                cells_view(key_coordinates@) == cells_view(before) + location_cells(
                    x as int,
                    y as int,
                    width as int,
                    location.height as int,
                ).map_values(|c: (int, int)| (c, kv)),
            decreases location.width - width,
        {
            let ghost col_start = key_coordinates@;
            let mut height: i32 = 0;
            while height < location.height
                invariant
                    0 <= width < location.width,
                    0 <= height,
                    height <= location.height || height == 0,
                    location.x + location.width <= i32::MAX,
                    location.y + location.height <= i32::MAX,
                    x == location.x,
                    y == location.y,
                    key@ == kv,
                    cells_view(key_coordinates@) == cells_view(col_start) + column_cells(
                        x + width,
                        y as int,
                        height as int,
                    ).map_values(|c: (int, int)| (c, kv)),
                decreases location.height - height,
            {
                let ghost prev = key_coordinates@;
                key_coordinates.push(((x + width, y + height), key.duplicate()));
                proof {
                    assert(cells_view(key_coordinates@) =~= cells_view(prev).push(
                        ((x + width, y + height), kv),
                    ));
                    assert(column_cells(x + width, y as int, height + 1) =~= column_cells(
                        x + width,
                        y as int,
                        height as int,
                    ).push((x + width, y + height)));
                    assert(cells_view(key_coordinates@) =~= cells_view(col_start) + column_cells(
                        x + width,
                        y as int,
                        height + 1,
                    ).map_values(|c: (int, int)| (c, kv)));
                }
                height = height + 1;
            }
            proof {
                if location.height <= 0 {
                    assert(column_cells(x + width, y as int, height as int) =~= column_cells(
                        x + width,
                        y as int,
                        location.height as int,
                    ));
                }
                assert(location_cells(x as int, y as int, width + 1, location.height as int)
                    == location_cells(x as int, y as int, width as int, location.height as int)
                    + column_cells(x + width, y as int, location.height as int));
                assert(cells_view(key_coordinates@) =~= cells_view(before) + location_cells(
                    x as int,
                    y as int,
                    width + 1,
                    location.height as int,
                ).map_values(|c: (int, int)| (c, kv)));
            }
            width = width + 1;
        }
        proof {
            if location.width <= 0 {
                assert(location_cells(x as int, y as int, width as int, location.height as int)
                    =~= location_cells(x as int, y as int, location.width as int, location.height as int));
            }
            let t = ids.take(i as int);
            let t1 = ids.take(i + 1);
            assert(t1.drop_last() =~= t);
            assert(t1.last() == key_id@);
            assert(cells_view(key_coordinates@) =~= view_cells(t1, am, key_meta@));
        }
        i = i + 1;
    }
    proof {
        assert(ids.take(n as int) =~= ids);
    }
    key_coordinates
}

/// The cells of every view of a built layout can be listed: each key of a
/// view has its information in the layout, and every key ends inside the
/// grid.
pub proof fn lemma_built_views_have_cells(ld: LayoutDeserializedView, layout: LayoutMeta)
    requires
        layout_arrangeable(ld),
        layout@ == layout_meta_of(ld),
    ensures
        forall|n: Seq<char>| #[trigger]
            layout.views@.contains_key(n) ==> cells_computable(
                layout.views@[n]@.key_arrangement,
                layout.keys@,
            ),
{
    assert forall|n: Seq<char>| #[trigger] layout.views@.contains_key(n) implies cells_computable(
        layout.views@[n]@.key_arrangement,
        layout.keys@,
    ) by {
        let km = layout_keys(ld);
        assert(layout@.views.contains_key(n));
        assert(ld.views.contains_key(n));
        let rows = ld.views[n];
        assert(rows_arrangeable(km, rows));
        lemma_arrangement_fits(km, rows);
        assert(layout.views@[n]@ == layout@.views[n]);
        assert(layout@.views[n] == arrangement_of(km, rows));
        assert forall|k: Seq<char>| #[trigger]
            layout.views@[n]@.key_arrangement.contains_key(k) implies layout.keys@.contains_key(k)
            && layout.views@[n]@.key_arrangement[k].x + layout.views@[n]@.key_arrangement[k].width
            <= i32::MAX && layout.views@[n]@.key_arrangement[k].y
            + layout.views@[n]@.key_arrangement[k].height <= i32::MAX by {
            assert(arrangement_of(km, rows).key_arrangement.contains_key(k));
            assert(km.contains_key(k));
            assert(key_meta_views(layout.keys@).contains_key(k));
        }
    }
}

} // verus!
