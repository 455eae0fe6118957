//! How the keys of a view are arranged in a grid: each row of key ids is
//! laid out left to right, each key as wide as its outline, and every row is
//! centered in the grid.
use vstd::prelude::*;
use crate::deserialized::outline_cells;
use crate::key_meta::{KeyMeta, KeyMetaView};
use crate::str_map::StrMap;
use crate::text::{split_whitespace, string_views, words};

verus! {

/// Location and size of a key in the grid, in cells.
#[derive(Debug, Clone, Copy, PartialEq, Eq, Structural)]
pub struct Location {
    pub x: i32,
    pub y: i32,
    pub width: i32,
    pub height: i32,
}

/// The key information of a layout, taken by its views.
pub open spec fn key_meta_views(m: Map<Seq<char>, KeyMeta>) -> Map<Seq<char>, KeyMetaView> {
    m.map_values(|k: KeyMeta| k@)
}

/// The number of grid cells the key is wide.
pub open spec fn key_width(km: Map<Seq<char>, KeyMetaView>, t: Seq<char>) -> int {
    outline_cells(km[t].outline) as int
}

/// The total width of a row of keys.
pub open spec fn row_width(km: Map<Seq<char>, KeyMetaView>, ts: Seq<Seq<char>>) -> int
    decreases ts.len(),
{
    if ts.len() == 0 {
        0
    } else {
        row_width(km, ts.drop_last()) + key_width(km, ts.last())
    }
}

/// The locations of the keys of row `r`, laid out from the left edge; a key
/// id that occurs twice keeps its last location.
pub open spec fn row_locations(km: Map<Seq<char>, KeyMetaView>, ts: Seq<Seq<char>>, r: int) -> Map<
    Seq<char>,
    Location,
>
    decreases ts.len(),
{
    if ts.len() == 0 {
        Map::empty()
    } else {
        row_locations(km, ts.drop_last(), r).insert(
            ts.last(),
            Location {
                x: row_width(km, ts.drop_last()) as i32,
                y: r as i32,
                width: key_width(km, ts.last()) as i32,
                height: 1,
            },
        )
    }
}

/// The locations of all keys before the rows are centered; a key id that
/// occurs twice keeps its last location.
pub open spec fn uncentered_arrangement(km: Map<Seq<char>, KeyMetaView>, rows: Seq<Seq<char>>) -> Map<
    Seq<char>,
    Location,
>
    decreases rows.len(),
{
    if rows.len() == 0 {
        Map::empty()
    } else {
        uncentered_arrangement(km, rows.drop_last()).union_prefer_right(
            row_locations(km, words(rows.last()), rows.len() - 1),
        )
    }
}

/// The width of each row.
pub open spec fn row_widths(km: Map<Seq<char>, KeyMetaView>, rows: Seq<Seq<char>>) -> Seq<int> {
    Seq::new(rows.len(), |r: int| row_width(km, words(rows[r])))
}

/// The largest of the numbers (0 for none).
pub open spec fn max_of(ws: Seq<int>) -> int
    decreases ws.len(),
{
    if ws.len() == 0 {
        0
    } else if ws.len() == 1 {
        ws[0]
    } else {
        let m = max_of(ws.drop_last());
        if ws.last() > m {
            ws.last()
        } else {
            m
        }
    }
}

/// Whether a location can be centered in `i32`: its row is one of the rows,
/// and the shift and the new position fit.
pub open spec fn centering_fits(l: Location, widths: Seq<int>) -> bool {
    &&& 0 <= l.y < widths.len()
    &&& max_of(widths) - widths[l.y as int] <= i32::MAX
    &&& i32::MIN <= l.x + (max_of(widths) - widths[l.y as int]) / 2 <= i32::MAX
}

/// A location moved right so that its row is centered in a grid of
/// `columns` cells.
pub open spec fn centered_location(l: Location, widths: Seq<int>, columns: int) -> Location {
    Location { x: (l.x + (columns - widths[l.y as int]) / 2) as i32, ..l }
}

/// Every location moved right so that its row is centered in a grid as
/// wide as the widest row.
pub open spec fn center_all(m: Map<Seq<char>, Location>, widths: Seq<int>) -> Map<Seq<char>, Location> {
    Map::new(
        |k: Seq<char>| m.contains_key(k),
        |k: Seq<char>| centered_location(m[k], widths, max_of(widths)),
    )
}

/// The numbers as integers.
pub open spec fn ints(v: Seq<i32>) -> Seq<int> {
    Seq::new(v.len(), |i: int| v[i] as int)
}

/// The locations of all keys, every row centered in the grid.
pub open spec fn centered_arrangement(km: Map<Seq<char>, KeyMetaView>, rows: Seq<Seq<char>>) -> Map<
    Seq<char>,
    Location,
> {
    center_all(uncentered_arrangement(km, rows), row_widths(km, rows))
}

/// Whether a view's rows can be arranged: there is at least one row, every
/// key id has its information, and the counts fit the grid's `i32` cells.
pub open spec fn rows_arrangeable(km: Map<Seq<char>, KeyMetaView>, rows: Seq<Seq<char>>) -> bool {
    &&& 0 < rows.len() <= i32::MAX
    &&& forall|r: int, k: int|
        0 <= r < rows.len() && 0 <= k < words(rows[r]).len() ==> km.contains_key(
            #[trigger] words(rows[r])[k],
        )
    &&& forall|r: int| 0 <= r < rows.len() ==> #[trigger] row_width(km, words(rows[r])) <= i32::MAX
}

/// Stores how the keys of a view are arranged.
pub struct KeyArrangement {
    key_arrangement: StrMap<Location>,
    no_rows: i32,
    no_columns: i32,
}

/// A key arrangement, by its map of locations and its grid size.
pub struct KeyArrangementView {
    pub key_arrangement: Map<Seq<char>, Location>,
    pub no_rows: i32,
    pub no_columns: i32,
}

impl KeyArrangement {
    /// The ids of the keys in the order they were arranged.
    pub closed spec fn key_order(&self) -> Seq<Seq<char>> {
        self.key_arrangement.keys_seq()
    }
}

impl View for KeyArrangement {
    type V = KeyArrangementView;

    closed spec fn view(&self) -> KeyArrangementView {
        KeyArrangementView {
            key_arrangement: self.key_arrangement@,
            no_rows: self.no_rows,
            no_columns: self.no_columns,
        }
    }
}

/// The arrangement of the rows of key ids `rows`.
pub open spec fn arrangement_of(km: Map<Seq<char>, KeyMetaView>, rows: Seq<Seq<char>>) -> KeyArrangementView {
    KeyArrangementView {
        key_arrangement: centered_arrangement(km, rows),
        no_rows: rows.len() as i32,
        no_columns: max_of(row_widths(km, rows)) as i32,
    }
}

proof fn lemma_row_width_mono(km: Map<Seq<char>, KeyMetaView>, ts: Seq<Seq<char>>, k: int)
    requires
        0 <= k <= ts.len(),
    ensures
        0 <= row_width(km, ts.take(k)) <= row_width(km, ts),
    decreases ts.len() - k,
{
    if k < ts.len() {
        lemma_row_width_mono(km, ts, k + 1);
        assert(ts.take(k + 1).drop_last() =~= ts.take(k));
    } else {
        assert(ts.take(k) =~= ts);
    }
    lemma_row_width_nonneg(km, ts.take(k));
}

proof fn lemma_outline_cells_range(o: crate::deserialized::Outline)
    ensures
        1 <= outline_cells(o) <= 8,
{
}

proof fn lemma_row_width_nonneg(km: Map<Seq<char>, KeyMetaView>, ts: Seq<Seq<char>>)
    ensures
        0 <= row_width(km, ts),
    decreases ts.len(),
{
    if ts.len() > 0 {
        lemma_row_width_nonneg(km, ts.drop_last());
        lemma_outline_cells_range(km[ts.last()].outline);
    }
}

proof fn lemma_max_of(ws: Seq<int>)
    ensures
        forall|i: int| 0 <= i < ws.len() ==> #[trigger] ws[i] <= max_of(ws),
        ws.len() > 0 ==> exists|i: int| 0 <= i < ws.len() && ws[i] == max_of(ws),
        ws.len() == 0 ==> max_of(ws) == 0,
    decreases ws.len(),
{
    if ws.len() > 1 {
        lemma_max_of(ws.drop_last());
        assert forall|i: int| 0 <= i < ws.len() implies #[trigger] ws[i] <= max_of(ws) by {
            if i < ws.len() - 1 {
                assert(ws[i] == ws.drop_last()[i]);
            }
        }
        if ws.last() <= max_of(ws.drop_last()) {
            let i = choose|i: int|
                0 <= i < ws.drop_last().len() && ws.drop_last()[i] == max_of(ws.drop_last());
            assert(ws[i] == ws.drop_last()[i]);
            assert(ws[i] == max_of(ws));
        } else {
            assert(ws[ws.len() - 1] == max_of(ws));
        }
    } else if ws.len() == 1 {
        assert(ws[0] == max_of(ws));
    }
}

impl KeyArrangement {
    /// Arranges the rows of key ids: each row left to right, each key as wide
    /// as its outline and one cell high, then every row centered in a grid as
    /// wide as the widest row.
    pub fn from(key_arrangement_deserialized: &Vec<String>, key_meta: &StrMap<KeyMeta>) -> (r:
        KeyArrangement)
        requires
            rows_arrangeable(
                key_meta_views(key_meta@),
                string_views(key_arrangement_deserialized@),
            ),
        ensures
            r@ == arrangement_of(
                key_meta_views(key_meta@),
                string_views(key_arrangement_deserialized@),
            ),
    {
        let ghost km = key_meta_views(key_meta@);
        let ghost rows = string_views(key_arrangement_deserialized@);
        let (uncentered_key_arrangement, widths) =
            KeyArrangement::get_uncentered_key_arrangement(key_arrangement_deserialized, key_meta);
        proof {
            lemma_uncentered_bounds(km, rows);
            let ws = ints(widths@);
            assert(ws == row_widths(km, rows));
            assert(ws.len() == rows.len());
            assert(widths@.len() == rows.len());
            assert forall|i: int| 0 <= i < ws.len() implies 0 <= #[trigger] ws[i] by {
                assert(ws[i] == row_width(km, words(rows[i])));
                lemma_row_width_nonneg(km, words(rows[i]));
            }
            lemma_max_of(ws);
            assert(max_of(ws) <= i32::MAX) by {
                let i = choose|i: int| 0 <= i < ws.len() && ws[i] == max_of(ws);
                assert(ws[i] == widths@[i] as int);
            }
            assert forall|k: Seq<char>| #[trigger]
                uncentered_key_arrangement@.contains_key(k) implies centering_fits(
                uncentered_key_arrangement@[k],
                ws,
            ) by {
                let y = uncentered_key_arrangement@[k].y as int;
                assert(ws[y] == row_width(km, words(rows[y])));
                assert(0 <= ws[y] <= max_of(ws));
            }
        }
        let (centered_key_arrangement, no_columns, no_rows) =
            KeyArrangement::get_centered_key_arrangement(uncentered_key_arrangement, &widths);
        KeyArrangement { key_arrangement: centered_key_arrangement, no_rows, no_columns }
    }

    /// Whether the rows can be arranged with the key information given (see
    /// `rows_arrangeable`): there is a row, every key id has information,
    /// and no row is wider than `i32::MAX` cells.
    pub fn can_arrange(key_arrangement_deserialized: &Vec<String>, key_meta: &StrMap<KeyMeta>) -> (r:
        bool)
        ensures
            r == rows_arrangeable(
                key_meta_views(key_meta@),
                string_views(key_arrangement_deserialized@),
            ),
    {
        let ghost km = key_meta_views(key_meta@);
        let ghost rows = string_views(key_arrangement_deserialized@);
        if key_arrangement_deserialized.len() == 0 || key_arrangement_deserialized.len()
            > 0x7fff_ffff {
            return false;
        }
        let mut row_no: usize = 0;
        while row_no < key_arrangement_deserialized.len()
            invariant
                km == key_meta_views(key_meta@),
                rows == string_views(key_arrangement_deserialized@),
                row_no <= key_arrangement_deserialized.len(),
                forall|r: int, k: int|
                    0 <= r < row_no && 0 <= k < words(rows[r]).len() ==> km.contains_key(
                        #[trigger] words(rows[r])[k],
                    ),
                forall|r: int| 0 <= r < row_no ==> #[trigger] row_width(km, words(rows[r])) <= i32::MAX,
            decreases key_arrangement_deserialized.len() - row_no,
        {
            let ids = split_whitespace(key_arrangement_deserialized[row_no].as_str());
            let ghost ws = string_views(ids@);
            assert(rows[row_no as int] == key_arrangement_deserialized@[row_no as int]@);
            let mut width: i32 = 0;
            let mut k: usize = 0;
            while k < ids.len()
                invariant
                    km == key_meta_views(key_meta@),
                    rows == string_views(key_arrangement_deserialized@),
                    row_no < key_arrangement_deserialized.len(),
                    ws == string_views(ids@),
                    ws == words(rows[row_no as int]),
                    k <= ids.len(),
                    width as int == row_width(km, ws.take(k as int)),
                    forall|q: int| 0 <= q < k ==> km.contains_key(#[trigger] ws[q]),
                decreases ids.len() - k,
            {
                let id = &ids[k];
                assert(ws[k as int] == id@);
                match key_meta.get(id) {
                    None => {
                        assert(!km.contains_key(words(rows[row_no as int])[k as int]));
                        return false;
                    },
                    Some(meta) => {
                        assert(ws.take(k + 1).drop_last() =~= ws.take(k as int));
                        assert(ws.take(k + 1).last() == id@);
                        match width.checked_add(meta.outline.cells()) {
                            None => {
                                proof {
                                    lemma_row_width_mono(km, ws, k + 1);
                                    assert(!(row_width(km, words(rows[row_no as int])) <= i32::MAX));
                                }
                                return false;
                            },
                            Some(w) => {
                                width = w;
                            },
                        }
                    },
                }
                k = k + 1;
            }
            assert(ws.take(k as int) =~= ws);
            row_no = row_no + 1;
        }
        true
    }

    /// The number of rows.
    pub fn get_no_rows(&self) -> (r: i32)
        ensures
            r == self@.no_rows,
    {
        self.no_rows
    }

    /// The number of columns.
    pub fn get_no_columns(&self) -> (r: i32)
        ensures
            r == self@.no_columns,
    {
        self.no_columns
    }

    /// The location of each key.
    pub fn get_key_arrangement(&self) -> (r: &StrMap<Location>)
        ensures
            r@ == self@.key_arrangement,
            r.keys_seq() == self.key_order(),
    {
        &self.key_arrangement
    }

    /// Lays out each row from the left edge of the grid. Returns the location
    /// of each key and the width of each row.
    pub fn get_uncentered_key_arrangement(
        key_arrangement_deserialized: &Vec<String>,
        key_meta: &StrMap<KeyMeta>,
    ) -> (r: (StrMap<Location>, Vec<i32>))
        requires
            rows_arrangeable(
                key_meta_views(key_meta@),
                string_views(key_arrangement_deserialized@),
            ),
        ensures
            r.0@ == uncentered_arrangement(
                key_meta_views(key_meta@),
                string_views(key_arrangement_deserialized@),
            ),
            ints(r.1@) == row_widths(
                key_meta_views(key_meta@),
                string_views(key_arrangement_deserialized@),
            ),
    {
        let ghost km = key_meta_views(key_meta@);
        let ghost rows = string_views(key_arrangement_deserialized@);
        let mut key_arrangement: StrMap<Location> = StrMap::new();
        let mut widths: Vec<i32> = Vec::new();
        let mut row_no: usize = 0;
        assert(uncentered_arrangement(km, rows.take(0)) =~= Map::<Seq<char>, Location>::empty());
        while row_no < key_arrangement_deserialized.len()
            invariant
                km == key_meta_views(key_meta@),
                rows == string_views(key_arrangement_deserialized@),
                rows_arrangeable(km, rows),
                row_no <= key_arrangement_deserialized.len(),
                key_arrangement@ == uncentered_arrangement(km, rows.take(row_no as int)),
                widths@.len() == row_no,
                forall|r: int| 0 <= r < row_no ==> #[trigger] widths@[r] as int == row_width(
                    km,
                    words(rows[r]),
                ),
            decreases key_arrangement_deserialized.len() - row_no,
        {
            let ids = split_whitespace(key_arrangement_deserialized[row_no].as_str());
            let ghost ws = string_views(ids@);
            assert(rows[row_no as int] == key_arrangement_deserialized@[row_no as int]@);
            assert(ws == words(rows[row_no as int]));
            let ghost before = uncentered_arrangement(km, rows.take(row_no as int));
            let mut width: i32 = 0;
            let mut k: usize = 0;
            assert(row_locations(km, ws.take(0), row_no as int) =~= Map::<
                Seq<char>,
                Location,
            >::empty());
            assert(before.union_prefer_right(Map::<Seq<char>, Location>::empty()) =~= before);
            while k < ids.len()
                invariant
                    km == key_meta_views(key_meta@),
                    rows == string_views(key_arrangement_deserialized@),
                    rows_arrangeable(km, rows),
                    row_no < key_arrangement_deserialized.len(),
                    ws == string_views(ids@),
                    ws == words(rows[row_no as int]),
                    k <= ids.len(),
                    width as int == row_width(km, ws.take(k as int)),
                    key_arrangement@ == before.union_prefer_right(
                        row_locations(km, ws.take(k as int), row_no as int),
                    ),
                decreases ids.len() - k,
            {
                let id = &ids[k];
                assert(ws[k as int] == id@);
                assert(words(rows[row_no as int])[k as int] == id@);
                let meta = key_meta.get(id);
                let meta = match meta {
                    Some(m) => m,
                    None => {
                        assert(km.contains_key(id@));
                        proof {
                            assert(false);
                        }
                        return (key_arrangement, widths);
                    },
                };
                let w = meta.outline.cells();
                proof {
                    lemma_row_width_mono(km, ws, k + 1);
                    assert(ws.take(k + 1).drop_last() =~= ws.take(k as int));
                    assert(ws.take(k + 1).last() == id@);
                    assert(key_width(km, id@) == w);
                }
                let location = Location { x: width, y: row_no as i32, width: w, height: 1 };
                key_arrangement.insert(id.clone(), location);
                width = width + w;
                k = k + 1;
                assert(key_arrangement@ =~= before.union_prefer_right(
                    row_locations(km, ws.take(k as int), row_no as int),
                ));
            }
            assert(ws.take(k as int) =~= ws);
            widths.push(width);
            assert(rows.take(row_no + 1).drop_last() =~= rows.take(row_no as int));
            assert(rows.take(row_no + 1).last() == rows[row_no as int]);
            row_no = row_no + 1;
        }
        assert(rows.take(row_no as int) =~= rows);
        assert(ints(widths@) =~= row_widths(km, rows));
        (key_arrangement, widths)
    }

    /// Moves each key right so that its row is centered in a grid as wide as
    /// the widest row. Returns the locations, the number of columns and the
    /// number of rows.
    pub fn get_centered_key_arrangement(
        uncentered_key_arrangement: StrMap<Location>,
        row_widths: &Vec<i32>,
    ) -> (r: (StrMap<Location>, i32, i32))
        requires
            0 < row_widths.len() <= i32::MAX,
            forall|k: Seq<char>| #[trigger]
                uncentered_key_arrangement@.contains_key(k) ==> centering_fits(
                    uncentered_key_arrangement@[k],
                    ints(row_widths@),
                ),
        ensures
            r.1 as int == max_of(ints(row_widths@)),
            r.2 as int == row_widths.len(),
            r.0@ == center_all(uncentered_key_arrangement@, ints(row_widths@)),
    {
        let ghost ws = ints(row_widths@);
        let mut no_columns: i32 = row_widths[0];
        let mut i: usize = 1;
        assert(ws.take(1)[0] == ws[0]);
        assert(ws[0] == row_widths@[0] as int);
        while i < row_widths.len()
            invariant
                ws == ints(row_widths@),
                1 <= i <= row_widths.len(),
                no_columns as int == max_of(ws.take(i as int)),
            decreases row_widths.len() - i,
        {
            assert(ws.take(i + 1).drop_last() =~= ws.take(i as int));
            if row_widths[i] > no_columns {
                no_columns = row_widths[i];
            }
            i = i + 1;
        }
        assert(ws.take(i as int) =~= ws);
        proof {
            lemma_max_of(ws);
        }
        let no_rows = row_widths.len() as i32;
        let ghost centered = center_all(uncentered_key_arrangement@, ws);
        let mut arrangement = uncentered_key_arrangement;
        let n = arrangement.len();
        let mut j: usize = 0;
        while j < n
            invariant
                ws == ints(row_widths@),
                centered == center_all(uncentered_key_arrangement@, ws),
                no_columns as int == max_of(ws),
                forall|q: int| 0 <= q < ws.len() ==> #[trigger] ws[q] <= max_of(ws),
                n == arrangement.keys_seq().len(),
                arrangement.keys_seq() == uncentered_key_arrangement.keys_seq(),
                forall|k: Seq<char>| #[trigger]
                    arrangement@.contains_key(k) <==> uncentered_key_arrangement@.contains_key(k),
                forall|k: Seq<char>| #[trigger]
                    uncentered_key_arrangement@.contains_key(k) ==> centering_fits(
                        uncentered_key_arrangement@[k],
                        ws,
                    ),
                forall|q: int, p: int|
                    0 <= q < p < n ==> #[trigger] arrangement.keys_seq()[q]
                        != #[trigger] arrangement.keys_seq()[p],
                forall|k: Seq<char>| #[trigger]
                    uncentered_key_arrangement@.contains_key(k)
                        <==> uncentered_key_arrangement.keys_seq().contains(k),
                j <= n,
                forall|q: int| 0 <= q < j ==> #[trigger] arrangement@[arrangement.keys_seq()[q]]
                    == centered[arrangement.keys_seq()[q]],
                forall|q: int| j <= q < n ==> #[trigger] arrangement@[arrangement.keys_seq()[q]]
                    == uncentered_key_arrangement@[arrangement.keys_seq()[q]],
            decreases n - j,
        {
            proof {
                if j == 0 {
                    let _ = uncentered_key_arrangement.keys_seq();
                }
            }
            let key = arrangement.key_at(j).clone();
            let loc = *arrangement.value_at(j);
            let ghost kk = key@;
            assert(uncentered_key_arrangement.keys_seq()[j as int] == kk);
            assert(uncentered_key_arrangement.keys_seq().contains(kk));
            assert(uncentered_key_arrangement@.contains_key(kk));
            assert(loc == uncentered_key_arrangement@[kk]);
            let row = loc.y as usize;
            assert(row as int == loc.y as int);
            assert(ws[row as int] == row_widths@[row as int] as int);
            assert(ws[row as int] <= max_of(ws));
            let shift = (no_columns - row_widths[row]) / 2;
            let new_loc = Location { x: loc.x + shift, ..loc };
            assert(new_loc == centered[kk]);
            arrangement.insert(key, new_loc);
            assert forall|q: int| 0 <= q < n && q != j implies arrangement.keys_seq()[q] != kk by {
                if q < j {
                    assert(arrangement.keys_seq()[q] != arrangement.keys_seq()[j as int]);
                } else {
                    assert(arrangement.keys_seq()[j as int] != arrangement.keys_seq()[q]);
                }
            }
            j = j + 1;
        }
        assert(arrangement@ =~= centered) by {
            assert forall|k: Seq<char>| #[trigger] arrangement@.contains_key(k) implies arrangement@[k]
                == centered[k] by {
                let q = choose|q: int| 0 <= q < n && arrangement.keys_seq()[q] == k;
            }
        }
        (arrangement, no_columns, no_rows)
    }
}

/// Every key of an uncentered arrangement is one of the row's keys and lies
/// within its row: it starts at or right of the left edge, ends at or left
/// of the row's width, is at least one cell wide and one cell high.
proof fn lemma_row_locations_bounds(km: Map<Seq<char>, KeyMetaView>, ts: Seq<Seq<char>>, r: int)
    requires
        0 <= r <= i32::MAX,
        row_width(km, ts) <= i32::MAX,
    ensures
        forall|k: Seq<char>| #[trigger]
            row_locations(km, ts, r).contains_key(k) ==> {
                let l = row_locations(km, ts, r)[k];
                &&& ts.contains(k)
                &&& l.y == r
                &&& 0 <= l.x
                &&& l.x + l.width <= row_width(km, ts)
                &&& 1 <= l.width
                &&& l.height == 1
            },
    decreases ts.len(),
{
    if ts.len() > 0 {
        let pre = ts.drop_last();
        lemma_row_width_nonneg(km, pre);
        lemma_outline_cells_range(km[ts.last()].outline);
        lemma_row_locations_bounds(km, pre, r);
        assert(row_width(km, ts) == row_width(km, pre) + key_width(km, ts.last()));
        assert forall|k: Seq<char>| #[trigger] row_locations(km, ts, r).contains_key(k) implies {
            let l = row_locations(km, ts, r)[k];
            &&& ts.contains(k)
            &&& l.y == r
            &&& 0 <= l.x
            &&& l.x + l.width <= row_width(km, ts)
            &&& 1 <= l.width
            &&& l.height == 1
        } by {
            if k != ts.last() {
                assert(row_locations(km, pre, r).contains_key(k));
                assert(row_locations(km, ts, r)[k] == row_locations(km, pre, r)[k]);
                let i = choose|i: int| 0 <= i < pre.len() && pre[i] == k;
                assert(ts[i] == k);
            } else {
                assert(ts[ts.len() - 1] == k);
            }
        }
    }
}

/// Every key of the uncentered arrangement lies within its row, its row is
/// one of the rows, and the row holds the key.
pub proof fn lemma_uncentered_bounds(km: Map<Seq<char>, KeyMetaView>, rows: Seq<Seq<char>>)
    requires
        rows.len() <= i32::MAX,
        forall|r: int| 0 <= r < rows.len() ==> #[trigger] row_width(km, words(rows[r])) <= i32::MAX,
    ensures
        forall|k: Seq<char>| #[trigger]
            uncentered_arrangement(km, rows).contains_key(k) ==> {
                let l = uncentered_arrangement(km, rows)[k];
                &&& 0 <= l.y < rows.len()
                &&& words(rows[l.y as int]).contains(k)
                &&& 0 <= l.x
                &&& l.x + l.width <= row_width(km, words(rows[l.y as int]))
                &&& 1 <= l.width
                &&& l.height == 1
            },
    decreases rows.len(),
{
    if rows.len() > 0 {
        let pre = rows.drop_last();
        assert forall|r: int| 0 <= r < pre.len() implies #[trigger] row_width(km, words(pre[r]))
            <= i32::MAX by {
            assert(pre[r] == rows[r]);
        }
        lemma_uncentered_bounds(km, pre);
        let last = rows.len() - 1;
        assert(row_width(km, words(rows[last])) <= i32::MAX);
        lemma_row_locations_bounds(km, words(rows.last()), last);
        assert forall|k: Seq<char>| #[trigger]
            uncentered_arrangement(km, rows).contains_key(k) implies {
            let l = uncentered_arrangement(km, rows)[k];
            &&& 0 <= l.y < rows.len()
            &&& words(rows[l.y as int]).contains(k)
            &&& 0 <= l.x
            &&& l.x + l.width <= row_width(km, words(rows[l.y as int]))
            &&& 1 <= l.width
            &&& l.height == 1
        } by {
            if row_locations(km, words(rows.last()), last).contains_key(k) {
            } else {
                let l = uncentered_arrangement(km, pre)[k];
                assert(pre[l.y as int] == rows[l.y as int]);
            }
        }
    }
}

/// Every key of an arranged view has its information and lies inside the
/// grid: between the left edge and the last column, in one of the rows, one
/// row high.
pub proof fn lemma_arrangement_fits(km: Map<Seq<char>, KeyMetaView>, rows: Seq<Seq<char>>)
    requires
        rows_arrangeable(km, rows),
    ensures
        forall|k: Seq<char>| #[trigger]
            arrangement_of(km, rows).key_arrangement.contains_key(k) ==> {
                let a = arrangement_of(km, rows);
                let l = a.key_arrangement[k];
                &&& km.contains_key(k)
                &&& 0 <= l.x
                &&& l.x + l.width <= a.no_columns
                &&& 0 <= l.y < a.no_rows
                &&& 1 <= l.width
                &&& l.height == 1
            },
{
    let ws = row_widths(km, rows);
    lemma_uncentered_bounds(km, rows);
    assert forall|i: int| 0 <= i < ws.len() implies 0 <= #[trigger] ws[i] by {
        lemma_row_width_nonneg(km, words(rows[i]));
    }
    lemma_max_of(ws);
    let c = max_of(ws);
    assert(c <= i32::MAX) by {
        let i = choose|i: int| 0 <= i < ws.len() && ws[i] == max_of(ws);
        assert(ws[i] == row_width(km, words(rows[i])));
    }
    assert forall|k: Seq<char>| #[trigger]
        arrangement_of(km, rows).key_arrangement.contains_key(k) implies {
        let a = arrangement_of(km, rows);
        let l = a.key_arrangement[k];
        &&& km.contains_key(k)
        &&& 0 <= l.x
        &&& l.x + l.width <= a.no_columns
        &&& 0 <= l.y < a.no_rows
        &&& 1 <= l.width
        &&& l.height == 1
    } by {
        let u = uncentered_arrangement(km, rows)[k];
        let row = words(rows[u.y as int]);
        let i = choose|i: int| 0 <= i < row.len() && row[i] == k;
        assert(km.contains_key(words(rows[u.y as int])[i]));
        assert(ws[u.y as int] <= c);
        assert(ws[u.y as int] == row_width(km, words(rows[u.y as int])));
    }
}

/// Each key of a laid-out row stands at the position of one of its
/// occurrences in the row: as far right as the widths of the keys before
/// it, as wide as its outline.
proof fn lemma_row_locations_at(km: Map<Seq<char>, KeyMetaView>, ts: Seq<Seq<char>>, r: int)
    requires
        0 <= r <= i32::MAX,
        row_width(km, ts) <= i32::MAX,
    ensures
        forall|k: Seq<char>| #[trigger]
            row_locations(km, ts, r).contains_key(k) ==> exists|i: int|
                0 <= i < ts.len() && ts[i] == k && row_locations(km, ts, r)[k].x as int == row_width(
                    km,
                    ts.take(i),
                ) && row_locations(km, ts, r)[k].width as int == key_width(km, k)
                    && row_locations(km, ts, r)[k].y as int == r,
    decreases ts.len(),
{
    if ts.len() > 0 {
        let pre = ts.drop_last();
        let n = ts.len() - 1;
        lemma_row_width_nonneg(km, pre);
        lemma_outline_cells_range(km[ts.last()].outline);
        assert(row_width(km, ts) == row_width(km, pre) + key_width(km, ts.last()));
        lemma_row_locations_at(km, pre, r);
        assert(pre =~= ts.take(n));
        assert forall|k: Seq<char>| #[trigger] row_locations(km, ts, r).contains_key(k) implies exists|
            i: int,
        |
            0 <= i < ts.len() && ts[i] == k && row_locations(km, ts, r)[k].x as int == row_width(
                km,
                ts.take(i),
            ) && row_locations(km, ts, r)[k].width as int == key_width(km, k)
                && row_locations(km, ts, r)[k].y as int == r by {
            if k == ts.last() {
                assert(ts[n] == k);
            } else {
                assert(row_locations(km, pre, r).contains_key(k));
                let i = choose|i: int|
                    0 <= i < pre.len() && pre[i] == k && row_locations(km, pre, r)[k].x as int
                        == row_width(km, pre.take(i)) && row_locations(km, pre, r)[k].width as int
                        == key_width(km, k) && row_locations(km, pre, r)[k].y as int == r;
                assert(pre.take(i) =~= ts.take(i));
                assert(ts[i] == k);
            }
        }
    }
}

/// A key of the uncentered arrangement is where the layout of its row puts
/// it.
proof fn lemma_uncentered_from_row(km: Map<Seq<char>, KeyMetaView>, rows: Seq<Seq<char>>)
    requires
        rows.len() <= i32::MAX,
        forall|r: int| 0 <= r < rows.len() ==> #[trigger] row_width(km, words(rows[r])) <= i32::MAX,
    ensures
        forall|k: Seq<char>| #[trigger]
            uncentered_arrangement(km, rows).contains_key(k) ==> {
                let y = uncentered_arrangement(km, rows)[k].y as int;
                &&& 0 <= y < rows.len()
                &&& row_locations(km, words(rows[y]), y).contains_key(k)
                &&& uncentered_arrangement(km, rows)[k] == row_locations(km, words(rows[y]), y)[k]
            },
    decreases rows.len(),
{
    if rows.len() > 0 {
        let pre = rows.drop_last();
        let last = rows.len() - 1;
        assert forall|r: int| 0 <= r < pre.len() implies #[trigger] row_width(km, words(pre[r]))
            <= i32::MAX by {
            assert(pre[r] == rows[r]);
        }
        lemma_uncentered_from_row(km, pre);
        assert(row_width(km, words(rows[last])) <= i32::MAX);
        lemma_row_locations_bounds(km, words(rows.last()), last);
        assert forall|k: Seq<char>| #[trigger] uncentered_arrangement(km, rows).contains_key(k) implies {
            let y = uncentered_arrangement(km, rows)[k].y as int;
            &&& 0 <= y < rows.len()
            &&& row_locations(km, words(rows[y]), y).contains_key(k)
            &&& uncentered_arrangement(km, rows)[k] == row_locations(km, words(rows[y]), y)[k]
        } by {
            if !row_locations(km, words(rows.last()), last).contains_key(k) {
                let y = uncentered_arrangement(km, pre)[k].y as int;
                assert(pre[y] == rows[y]);
            }
        }
    }
}

/// Every key of an arranged view is as wide as its outline, and two keys
/// of the same row occupy disjoint columns.
pub proof fn lemma_row_keys_disjoint(km: Map<Seq<char>, KeyMetaView>, rows: Seq<Seq<char>>)
    requires
        rows_arrangeable(km, rows),
    ensures
        forall|k: Seq<char>| #[trigger]
            arrangement_of(km, rows).key_arrangement.contains_key(k) ==> arrangement_of(
                km,
                rows,
            ).key_arrangement[k].width == outline_cells(km[k].outline),
        forall|k1: Seq<char>, k2: Seq<char>|
            #![trigger arrangement_of(km, rows).key_arrangement[k1], arrangement_of(km, rows).key_arrangement[k2]]
            arrangement_of(km, rows).key_arrangement.contains_key(k1) && arrangement_of(
                km,
                rows,
            ).key_arrangement.contains_key(k2) && k1 != k2 && arrangement_of(
                km,
                rows,
            ).key_arrangement[k1].y == arrangement_of(km, rows).key_arrangement[k2].y ==> {
                let l1 = arrangement_of(km, rows).key_arrangement[k1];
                let l2 = arrangement_of(km, rows).key_arrangement[k2];
                l1.x + l1.width <= l2.x || l2.x + l2.width <= l1.x
            },
{
    let a = arrangement_of(km, rows).key_arrangement;
    let u = uncentered_arrangement(km, rows);
    let ws = row_widths(km, rows);
    lemma_arrangement_fits(km, rows);
    lemma_uncentered_bounds(km, rows);
    lemma_uncentered_from_row(km, rows);
    assert forall|r: int| 0 <= r < rows.len() implies #[trigger] row_width(km, words(rows[r]))
        <= i32::MAX by {}
    assert forall|k: Seq<char>| #[trigger] a.contains_key(k) implies a[k].width == outline_cells(
        km[k].outline,
    ) by {
        let y = u[k].y as int;
        lemma_row_locations_at(km, words(rows[y]), y);
        lemma_outline_cells_range(km[k].outline);
    }
    assert forall|k1: Seq<char>, k2: Seq<char>|
        #![trigger a[k1], a[k2]]
        a.contains_key(k1) && a.contains_key(k2) && k1 != k2 && a[k1].y == a[k2].y implies a[k1].x
            + a[k1].width <= a[k2].x || a[k2].x + a[k2].width <= a[k1].x by {
        let y = u[k1].y as int;
        let ts = words(rows[y]);
        lemma_row_locations_at(km, ts, y);
        let l1 = row_locations(km, ts, y)[k1];
        let l2 = row_locations(km, ts, y)[k2];
        assert(u[k2].y == u[k1].y);
        let i1 = choose|i: int|
            0 <= i < ts.len() && ts[i] == k1 && l1.x as int == row_width(km, ts.take(i))
                && l1.width as int == key_width(km, k1) && l1.y as int == y;
        let i2 = choose|i: int|
            0 <= i < ts.len() && ts[i] == k2 && l2.x as int == row_width(km, ts.take(i))
                && l2.width as int == key_width(km, k2) && l2.y as int == y;
        assert(i1 != i2);
        assert(ts.take(i1 + 1).drop_last() =~= ts.take(i1));
        assert(ts.take(i2 + 1).drop_last() =~= ts.take(i2));
        if i1 < i2 {
            assert(ts.take(i2).take(i1 + 1) =~= ts.take(i1 + 1));
            lemma_row_width_mono(km, ts.take(i2), i1 + 1);
        } else {
            assert(ts.take(i1).take(i2 + 1) =~= ts.take(i2 + 1));
            lemma_row_width_mono(km, ts.take(i1), i2 + 1);
        }
        assert(ws[y] == row_width(km, ts));
        lemma_max_of(ws);
        let c = max_of(ws);
        assert(c <= i32::MAX) by {
            let i = choose|i: int| 0 <= i < ws.len() && ws[i] == max_of(ws);
            assert(ws[i] == row_width(km, words(rows[i])));
        }
        lemma_row_width_nonneg(km, ts);
        let d = (c - ws[y]) / 2;
        assert(0 <= d <= c - ws[y]);
        assert(u[k1] == l1 && u[k2] == l2);
        assert(a[k1] == centered_location(u[k1], ws, c));
        assert(a[k2] == centered_location(u[k2], ws, c));
        assert(0 <= l1.x + d <= c);
        assert(0 <= l2.x + d <= c);
        assert(a[k1].x as int == l1.x + d);
        assert(a[k2].x as int == l2.x + d);
    }
}

} // verus!
