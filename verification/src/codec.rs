use vstd::prelude::*;

use crate::error::MapError;
use crate::model::{tiles_view, MapData, MapDataView, MapMetaData, MapMetaDataView, Tile, TileView};
use crate::num::{is_json_number, is_num_char, num_chars_end, scan_num_chars, Num};

verus! {

// ---------------------------------------------------------------------------
// The document grammar.
//
// A map document is the fixed shape
//
//     { "meta": { "tileWidth": <number>, "tileHeight": <number> },
//       "tiles": [ { "x": <number>, "y": <number>,
//                    "w": <number>, "h": <number> }, ... ] }
//
// with the keys in exactly this order, insignificant whitespace permitted
// between tokens, and numbers as defined in `num`. The spec functions below
// are the grammar; the executable encoder and decoder are proved against
// them, and `lemma_round_trip` proves that decoding inverts encoding.
// ---------------------------------------------------------------------------
/// Insignificant whitespace between tokens.
pub open spec fn is_ws(c: char) -> bool {
    c == ' ' || c == '\t' || c == '\n' || c == '\r'
}

/// First index at or after `i` whose character is not whitespace.
pub open spec fn ws_end(s: Seq<char>, i: int) -> int
    decreases s.len() - i,
{
    if i < s.len() && is_ws(s[i]) {
        ws_end(s, i + 1)
    } else {
        i
    }
}

pub proof fn lemma_ws_end(s: Seq<char>, i: int)
    requires
        0 <= i <= s.len(),
    ensures
        i <= ws_end(s, i) <= s.len(),
        forall|k: int| i <= k < ws_end(s, i) ==> is_ws(s[k]),
        ws_end(s, i) < s.len() ==> !is_ws(s[ws_end(s, i)]),
    decreases s.len() - i,
{
    if i < s.len() && is_ws(s[i]) {
        lemma_ws_end(s, i + 1);
    }
}

/// The exact literal `pat` read at `i`, if it is there.
pub open spec fn spec_lit(s: Seq<char>, i: int, pat: Seq<char>) -> Option<int> {
    if 0 <= i && i + pat.len() <= s.len() && s.subrange(i, i + pat.len()) == pat {
        Some(i + pat.len())
    } else {
        None
    }
}

/// Optional whitespace, then the literal `pat`.
pub open spec fn spec_tok(s: Seq<char>, i: int, pat: Seq<char>) -> Option<int> {
    spec_lit(s, ws_end(s, i), pat)
}

/// Optional whitespace, then a maximal run of number characters that forms
/// a valid number token.
pub open spec fn spec_num_tok(s: Seq<char>, i: int) -> Option<(Seq<char>, int)> {
    let j = ws_end(s, i);
    let k = num_chars_end(s, j);
    if k > j && is_json_number(s.subrange(j, k)) {
        Some((s.subrange(j, k), k))
    } else {
        None
    }
}

/// A quoted key followed by a colon and a number value.
pub open spec fn spec_field(s: Seq<char>, i: int, key: Seq<char>) -> Option<(Seq<char>, int)> {
    match spec_tok(s, i, key) {
        None => None,
        Some(j) => match spec_tok(s, j, ":"@) {
            None => None,
            Some(k) => spec_num_tok(s, k),
        },
    }
}

/// One tile object: the four rectangle fields in their fixed order.
pub open spec fn spec_parse_tile(s: Seq<char>, i: int) -> Option<(TileView, int)> {
    match spec_tok(s, i, "{"@) {
        None => None,
        Some(i1) => match spec_field(s, i1, "\"x\""@) {
            None => None,
            Some((x, i2)) => match spec_tok(s, i2, ","@) {
                None => None,
                Some(i3) => match spec_field(s, i3, "\"y\""@) {
                    None => None,
                    Some((y, i4)) => match spec_tok(s, i4, ","@) {
                        None => None,
                        Some(i5) => match spec_field(s, i5, "\"w\""@) {
                            None => None,
                            Some((w, i6)) => match spec_tok(s, i6, ","@) {
                                None => None,
                                Some(i7) => match spec_field(s, i7, "\"h\""@) {
                                    None => None,
                                    Some((h, i8)) => match spec_tok(s, i8, "}"@) {
                                        None => None,
                                        Some(i9) => Some((TileView { x, y, w, h }, i9)),
                                    },
                                },
                            },
                        },
                    },
                },
            },
        },
    }
}

/// The rest of a tile list after at least one tile: either the closing
/// bracket, or a comma, a tile, and the rest again.
pub open spec fn spec_parse_tiles_rest(s: Seq<char>, i: int) -> Option<(Seq<TileView>, int)>
    decreases s.len() - i,
{
    match spec_tok(s, i, "]"@) {
        Some(j) => Some((Seq::empty(), j)),
        None => match spec_tok(s, i, ","@) {
            None => None,
            Some(i1) => match spec_parse_tile(s, i1) {
                None => None,
                Some((t, i2)) => if i < i2 <= s.len() {
                    match spec_parse_tiles_rest(s, i2) {
                        None => None,
                        Some((ts, i3)) => Some((seq![t] + ts, i3)),
                    }
                } else {
                    None
                },
            },
        },
    }
}

/// A tile list: brackets around zero or more comma-separated tiles.
pub open spec fn spec_parse_tiles(s: Seq<char>, i: int) -> Option<(Seq<TileView>, int)> {
    match spec_tok(s, i, "["@) {
        None => None,
        Some(i1) => match spec_tok(s, i1, "]"@) {
            Some(j) => Some((Seq::empty(), j)),
            None => match spec_parse_tile(s, i1) {
                None => None,
                Some((t, i2)) => if i1 < i2 <= s.len() {
                    match spec_parse_tiles_rest(s, i2) {
                        None => None,
                        Some((ts, i3)) => Some((seq![t] + ts, i3)),
                    }
                } else {
                    None
                },
            },
        },
    }
}

/// A whole map document, spanning the sequence up to trailing whitespace.
pub open spec fn spec_parse_doc(s: Seq<char>) -> Option<MapDataView> {
    match spec_tok(s, 0, "{"@) {
        None => None,
        Some(i1) => match spec_tok(s, i1, "\"meta\""@) {
            None => None,
            Some(i2) => match spec_tok(s, i2, ":"@) {
                None => None,
                Some(i3) => match spec_tok(s, i3, "{"@) {
                    None => None,
                    Some(i4) => match spec_field(s, i4, "\"tileWidth\""@) {
                        None => None,
                        Some((tw, i5)) => match spec_tok(s, i5, ","@) {
                            None => None,
                            Some(i6) => match spec_field(s, i6, "\"tileHeight\""@) {
                                None => None,
                                Some((th, i7)) => match spec_tok(s, i7, "}"@) {
                                    None => None,
                                    Some(i8) => match spec_tok(s, i8, ","@) {
                                        None => None,
                                        Some(i9) => match spec_tok(s, i9, "\"tiles\""@) {
                                            None => None,
                                            Some(i10) => match spec_tok(s, i10, ":"@) {
                                                None => None,
                                                Some(i11) => match spec_parse_tiles(s, i11) {
                                                    None => None,
                                                    Some((ts, i12)) => match spec_tok(s, i12, "}"@) {
                                                        None => None,
                                                        Some(i13) => if ws_end(s, i13) == s.len() {
                                                            Some(
                                                                MapDataView {
                                                                    meta: MapMetaDataView {
                                                                        tile_width: tw,
                                                                        tile_height: th,
                                                                    },
                                                                    tiles: ts,
                                                                },
                                                            )
                                                        } else {
                                                            None
                                                        },
                                                    },
                                                },
                                            },
                                        },
                                    },
                                },
                            },
                        },
                    },
                },
            },
        },
    }
}

// ---------------------------------------------------------------------------
// The canonical rendering of a document: fixed key order, no whitespace.
// ---------------------------------------------------------------------------
/// Canonical text of one tile object.
pub open spec fn spec_ser_tile(t: TileView) -> Seq<char> {
    "{\"x\":"@ + t.x + ",\"y\":"@ + t.y + ",\"w\":"@ + t.w + ",\"h\":"@ + t.h + "}"@
}

/// Canonical text of a tile list's inside: the tiles joined by commas.
pub open spec fn spec_ser_tiles(ts: Seq<TileView>) -> Seq<char>
    decreases ts.len(),
{
    if ts.len() == 0 {
        Seq::empty()
    } else if ts.len() == 1 {
        spec_ser_tile(ts[0])
    } else {
        spec_ser_tile(ts[0]) + ","@ + spec_ser_tiles(ts.drop_first())
    }
}

/// Canonical text of a whole map document.
pub open spec fn spec_ser_doc(d: MapDataView) -> Seq<char> {
    "{\"meta\":{\"tileWidth\":"@ + d.meta.tile_width + ",\"tileHeight\":"@ + d.meta.tile_height
        + "},\"tiles\":["@ + spec_ser_tiles(d.tiles) + "]}"@
}

/// Serializing a list that grows at its end extends the canonical text by
/// a separator (when the list was not empty) and the new tile's text.
proof fn lemma_ser_tiles_snoc(ts: Seq<TileView>, t: TileView)
    ensures
        spec_ser_tiles(ts.push(t)) == if ts.len() == 0 {
            spec_ser_tile(t)
        } else {
            spec_ser_tiles(ts) + ","@ + spec_ser_tile(t)
        },
    decreases ts.len(),
{
    if ts.len() == 0 {
        assert(ts.push(t)[0] == t);
    } else {
        assert(ts.push(t).drop_first() =~= ts.drop_first().push(t));
        lemma_ser_tiles_snoc(ts.drop_first(), t);
        if ts.len() == 1 {
            assert(spec_ser_tiles(ts.push(t)) == spec_ser_tile(ts[0]) + ","@ + spec_ser_tile(t));
        } else {
            assert(spec_ser_tiles(ts.push(t)) == spec_ser_tile(ts[0]) + ","@ + (spec_ser_tiles(
                ts.drop_first(),
            ) + ","@ + spec_ser_tile(t)));
            assert(spec_ser_tile(ts[0]) + ","@ + (spec_ser_tiles(ts.drop_first()) + ","@
                + spec_ser_tile(t)) =~= (spec_ser_tile(ts[0]) + ","@ + spec_ser_tiles(
                ts.drop_first(),
            )) + ","@ + spec_ser_tile(t));
        }
    }
}

// ---------------------------------------------------------------------------
// Decoding inverts encoding.
//
// The lemmas below walk the canonical text production by production: each
// shows that its production, read back at the position where the encoder
// put it, yields exactly the encoded value and stops exactly at its end.
// ---------------------------------------------------------------------------
/// A literal that does not start with whitespace parses from its own text.
proof fn lemma_tok_exact(s: Seq<char>, i: int, p: Seq<char>)
    requires
        0 <= i,
        i + p.len() <= s.len(),
        s.subrange(i, i + p.len()) == p,
        p.len() > 0,
        !is_ws(p[0]),
    ensures
        spec_tok(s, i, p) == Some(i + p.len()),
{
    assert(s[i] == s.subrange(i, i + p.len())[0]);
    assert(ws_end(s, i) == i);
}

/// A number token followed by a non-number character scans back exactly.
proof fn lemma_num_tok_exact(s: Seq<char>, i: int, t: Seq<char>)
    requires
        0 <= i,
        i + t.len() <= s.len(),
        s.subrange(i, i + t.len()) == t,
        is_json_number(t),
        i + t.len() < s.len() ==> !is_num_char(s[i + t.len()]),
    ensures
        spec_num_tok(s, i) == Some((t, i + t.len())),
{
    crate::num::lemma_number_head(t);
    assert(s[i] == s.subrange(i, i + t.len())[0]);
    assert(!is_ws(s[i]));
    assert(ws_end(s, i) == i);
    crate::num::lemma_number_chars(t);
    crate::num::lemma_num_chars_end_exact(s, i, t);
    assert(s.subrange(i, num_chars_end(s, i as int)) == t);
}


/// Transfers one character out of a decomposed stretch of `s`.
proof fn lemma_subrange_at(s: Seq<char>, i: int, a: int, whole: Seq<char>)
    requires
        0 <= i,
        i + whole.len() <= s.len(),
        s.subrange(i, i + whole.len()) == whole,
        0 <= a < whole.len(),
    ensures
        s[i + a] == whole[a],
{
    assert(s.subrange(i, i + whole.len())[a] == s[i + a]);
}

/// Transfers a chunk of a decomposed stretch of `s` to its own subrange.
proof fn lemma_subrange_chunk(s: Seq<char>, i: int, a: int, b: int, whole: Seq<char>)
    requires
        0 <= i,
        i + whole.len() <= s.len(),
        s.subrange(i, i + whole.len()) == whole,
        0 <= a <= b <= whole.len(),
    ensures
        s.subrange(i + a, i + b) == whole.subrange(a, b),
{
    assert forall|k: int| 0 <= k < b - a implies s.subrange(i + a, i + b)[k] == whole.subrange(
        a,
        b,
    )[k] by {
        assert(s.subrange(i, i + whole.len())[a + k] == s[i + a + k]);
        assert(s.subrange(i + a, i + b)[k] == s[i + a + k]);
    };
    assert(s.subrange(i + a, i + b) =~= whole.subrange(a, b));
}

/// A key, a colon and a number value parse from their own text.
proof fn lemma_field_exact(s: Seq<char>, i: int, key: Seq<char>, v: Seq<char>)
    requires
        0 <= i,
        i + key.len() + 1 + v.len() <= s.len(),
        s.subrange(i, i + key.len() + 1 + v.len()) == key + ":"@ + v,
        key.len() > 0,
        !is_ws(key[0]),
        is_json_number(v),
        i + key.len() + 1 + v.len() < s.len() ==> !is_num_char(s[i + key.len() + 1 + v.len()]),
    ensures
        spec_field(s, i, key) == Some((v, i + key.len() + 1 + v.len())),
{
    reveal_strlit(":");
    let kl = key.len() as int;
    let vl = v.len() as int;
    let whole = key + ":"@ + v;
    lemma_subrange_chunk(s, i, 0, kl, whole);
    assert(whole.subrange(0, kl) =~= key);
    lemma_tok_exact(s, i, key);
    lemma_subrange_chunk(s, i, kl, kl + 1, whole);
    assert(whole.subrange(kl, kl + 1) =~= ":"@);
    lemma_tok_exact(s, i + kl, ":"@);
    lemma_subrange_chunk(s, i, kl + 1, kl + 1 + vl, whole);
    assert(whole.subrange(kl + 1, kl + 1 + vl) =~= v);
    lemma_num_tok_exact(s, i + kl + 1, v);
}

/// A tile object parses from its own canonical text.
proof fn lemma_parse_tile_exact(s: Seq<char>, i: int, t: TileView)
    requires
        t.wf(),
        0 <= i,
        i + spec_ser_tile(t).len() <= s.len(),
        s.subrange(i, i + spec_ser_tile(t).len()) == spec_ser_tile(t),
    ensures
        spec_parse_tile(s, i) == Some((t, i + spec_ser_tile(t).len())),
        spec_ser_tile(t).len() > 0,
{
    reveal_strlit("{\"x\":");
    reveal_strlit(",\"y\":");
    reveal_strlit(",\"w\":");
    reveal_strlit(",\"h\":");
    reveal_strlit("{");
    reveal_strlit("}");
    reveal_strlit(",");
    reveal_strlit(":");
    reveal_strlit("\"x\"");
    reveal_strlit("\"y\"");
    reveal_strlit("\"w\"");
    reveal_strlit("\"h\"");
    let xl = t.x.len() as int;
    let yl = t.y.len() as int;
    let wl = t.w.len() as int;
    let hl = t.h.len() as int;
    let e = spec_ser_tile(t).len() as int;
    let whole = spec_ser_tile(t);
    assert(e == 21 + xl + yl + wl + hl);
    lemma_subrange_chunk(s, i, 0, 1, whole);
    assert(whole.subrange(0, 1) =~= "{"@);
    lemma_tok_exact(s, i, "{"@);
    lemma_subrange_chunk(s, i, 1, 5 + xl, whole);
    assert(whole.subrange(1, 5 + xl) =~= "\"x\""@ + ":"@ + t.x);
    lemma_subrange_at(s, i, 5 + xl, whole);
    assert(whole[5 + xl] == ',');
    lemma_field_exact(s, i + 1, "\"x\""@, t.x);
    let i2 = i + 5 + xl;
    lemma_subrange_chunk(s, i, 5 + xl, 6 + xl, whole);
    assert(whole.subrange(5 + xl, 6 + xl) =~= ","@);
    lemma_tok_exact(s, i2, ","@);
    lemma_subrange_chunk(s, i, 6 + xl, 10 + xl + yl, whole);
    assert(whole.subrange(6 + xl, 10 + xl + yl) =~= "\"y\""@ + ":"@ + t.y);
    lemma_subrange_at(s, i, 10 + xl + yl, whole);
    assert(whole[10 + xl + yl] == ',');
    lemma_field_exact(s, i2 + 1, "\"y\""@, t.y);
    let i4 = i2 + 5 + yl;
    lemma_subrange_chunk(s, i, 10 + xl + yl, 11 + xl + yl, whole);
    assert(whole.subrange(10 + xl + yl, 11 + xl + yl) =~= ","@);
    lemma_tok_exact(s, i4, ","@);
    lemma_subrange_chunk(s, i, 11 + xl + yl, 15 + xl + yl + wl, whole);
    assert(whole.subrange(11 + xl + yl, 15 + xl + yl + wl) =~= "\"w\""@ + ":"@ + t.w);
    lemma_subrange_at(s, i, 15 + xl + yl + wl, whole);
    assert(whole[15 + xl + yl + wl] == ',');
    lemma_field_exact(s, i4 + 1, "\"w\""@, t.w);
    let i6 = i4 + 5 + wl;
    lemma_subrange_chunk(s, i, 15 + xl + yl + wl, 16 + xl + yl + wl, whole);
    assert(whole.subrange(15 + xl + yl + wl, 16 + xl + yl + wl) =~= ","@);
    lemma_tok_exact(s, i6, ","@);
    lemma_subrange_chunk(s, i, 16 + xl + yl + wl, 20 + xl + yl + wl + hl, whole);
    assert(whole.subrange(16 + xl + yl + wl, 20 + xl + yl + wl + hl) =~= "\"h\""@ + ":"@ + t.h);
    lemma_subrange_at(s, i, 20 + xl + yl + wl + hl, whole);
    assert(whole[20 + xl + yl + wl + hl] == '}');
    lemma_field_exact(s, i6 + 1, "\"h\""@, t.h);
    let i8 = i6 + 5 + hl;
    lemma_subrange_chunk(s, i, 20 + xl + yl + wl + hl, 21 + xl + yl + wl + hl, whole);
    assert(whole.subrange(20 + xl + yl + wl + hl, 21 + xl + yl + wl + hl) =~= "}"@);
    lemma_tok_exact(s, i8, "}"@);
}

/// The text that still lies ahead in a tile list after at least one tile:
/// a comma and a tile for each remaining entry, then the closing bracket.
spec fn spec_ser_tiles_tail(ts: Seq<TileView>) -> Seq<char>
    decreases ts.len(),
{
    if ts.len() == 0 {
        "]"@
    } else {
        ","@ + spec_ser_tile(ts[0]) + spec_ser_tiles_tail(ts.drop_first())
    }
}

/// The canonical tile list text regrouped around its first tile.
proof fn lemma_ser_tiles_tail(ts: Seq<TileView>)
    requires
        ts.len() > 0,
    ensures
        spec_ser_tiles(ts) + "]"@ == spec_ser_tile(ts[0]) + spec_ser_tiles_tail(ts.drop_first()),
    decreases ts.len(),
{
    if ts.len() == 1 {
        assert(spec_ser_tiles_tail(ts.drop_first()) == "]"@);
    } else {
        lemma_ser_tiles_tail(ts.drop_first());
        assert((spec_ser_tile(ts[0]) + ","@ + spec_ser_tiles(ts.drop_first())) + "]"@
            =~= spec_ser_tile(ts[0]) + (","@ + (spec_ser_tiles(ts.drop_first()) + "]"@)));
        assert(","@ + (spec_ser_tile(ts.drop_first()[0]) + spec_ser_tiles_tail(
            ts.drop_first().drop_first(),
        )) =~= spec_ser_tiles_tail(ts.drop_first()));
    }
}

/// The rest of a tile list parses from its own canonical text.
proof fn lemma_parse_tiles_rest_exact(s: Seq<char>, i: int, ts: Seq<TileView>)
    requires
        forall|k: int| 0 <= k < ts.len() ==> (#[trigger] ts[k]).wf(),
        0 <= i,
        i + spec_ser_tiles_tail(ts).len() <= s.len(),
        s.subrange(i, i + spec_ser_tiles_tail(ts).len()) == spec_ser_tiles_tail(ts),
    ensures
        spec_parse_tiles_rest(s, i) == Some((ts, i + spec_ser_tiles_tail(ts).len())),
    decreases ts.len(),
{
    reveal_strlit("]");
    reveal_strlit(",");
    reveal_strlit("{\"x\":");
    let whole = spec_ser_tiles_tail(ts);
    if ts.len() == 0 {
        lemma_subrange_chunk(s, i, 0, 1, whole);
        assert(whole.subrange(0, 1) =~= "]"@);
        lemma_tok_exact(s, i, "]"@);
    } else {
        let tl = spec_ser_tile(ts[0]).len() as int;
        let taill = spec_ser_tiles_tail(ts.drop_first()).len() as int;
        lemma_subrange_at(s, i, 0, whole);
        assert(whole[0] == ',');
        assert(ws_end(s, i) == i);
        assert(s.subrange(i, i + 1)[0] == s[i]);
        assert(spec_tok(s, i, "]"@) is None);
        lemma_subrange_chunk(s, i, 0, 1, whole);
        assert(whole.subrange(0, 1) =~= ","@);
        lemma_tok_exact(s, i, ","@);
        lemma_subrange_chunk(s, i, 1, 1 + tl, whole);
        assert(whole.subrange(1, 1 + tl) =~= spec_ser_tile(ts[0]));
        lemma_parse_tile_exact(s, i + 1, ts[0]);
        let j = i + 1 + tl;
        lemma_subrange_chunk(s, i, 1 + tl, 1 + tl + taill, whole);
        assert(whole.subrange(1 + tl, 1 + tl + taill) =~= spec_ser_tiles_tail(ts.drop_first()));
        lemma_parse_tiles_rest_exact(s, j, ts.drop_first());
        assert(seq![ts[0]] + ts.drop_first() =~= ts);
    }
}

/// A whole tile list parses from its own canonical text.
proof fn lemma_parse_tiles_exact(s: Seq<char>, i: int, ts: Seq<TileView>)
    requires
        forall|k: int| 0 <= k < ts.len() ==> (#[trigger] ts[k]).wf(),
        0 <= i,
        i + spec_ser_tiles(ts).len() + 2 <= s.len(),
        s.subrange(i, i + spec_ser_tiles(ts).len() + 2) == "["@ + spec_ser_tiles(ts) + "]"@,
    ensures
        spec_parse_tiles(s, i) == Some((ts, i + spec_ser_tiles(ts).len() + 2)),
{
    reveal_strlit("[");
    reveal_strlit("]");
    reveal_strlit("{\"x\":");
    let stl = spec_ser_tiles(ts).len() as int;
    let whole = "["@ + spec_ser_tiles(ts) + "]"@;
    lemma_subrange_chunk(s, i, 0, 1, whole);
    assert(whole.subrange(0, 1) =~= "["@);
    lemma_tok_exact(s, i, "["@);
    if ts.len() == 0 {
        lemma_subrange_chunk(s, i, 1, 2, whole);
        assert(whole.subrange(1, 2) =~= "]"@);
        lemma_tok_exact(s, i + 1, "]"@);
    } else {
        lemma_ser_tiles_tail(ts);
        let tl = spec_ser_tile(ts[0]).len() as int;
        let taill = spec_ser_tiles_tail(ts.drop_first()).len() as int;
        assert((spec_ser_tiles(ts) + "]"@).len() == stl + 1);
        assert((spec_ser_tile(ts[0]) + spec_ser_tiles_tail(ts.drop_first())).len() == tl + taill);
        assert(tl + taill == stl + 1);
        let regrouped = "["@ + (spec_ser_tile(ts[0]) + spec_ser_tiles_tail(ts.drop_first()));
        assert(whole =~= regrouped);
        lemma_subrange_at(s, i, 1, regrouped);
        assert(spec_ser_tiles(ts)[0] == spec_ser_tile(ts[0])[0]);
        assert(regrouped[1] == '{');
        assert(ws_end(s, i + 1) == i + 1);
        assert(s.subrange(i + 1, i + 2)[0] == s[i + 1]);
        assert(spec_tok(s, i + 1, "]"@) is None);
        lemma_subrange_chunk(s, i, 1, 1 + tl, regrouped);
        assert(regrouped.subrange(1, 1 + tl) =~= spec_ser_tile(ts[0]));
        lemma_parse_tile_exact(s, i + 1, ts[0]);
        let j = i + 1 + tl;
        lemma_subrange_chunk(s, i, 1 + tl, 1 + tl + taill, regrouped);
        assert(regrouped.subrange(1 + tl, 1 + tl + taill) =~= spec_ser_tiles_tail(
            ts.drop_first(),
        ));
        lemma_parse_tiles_rest_exact(s, j, ts.drop_first());
        assert(seq![ts[0]] + ts.drop_first() =~= ts);
    }
}

/// Round trip: any well-formed document value, written in canonical form,
/// reads back as exactly the same value — the same metadata and the same
/// tile sequence in the same order, for any tile list including the empty
/// one.
/// Where each token of the canonical document text lies.
#[verifier::rlimit(100)]
#[verifier::spinoff_prover]
proof fn lemma_doc_layout(d: MapDataView)
    ensures
        ({
            let s = spec_ser_doc(d);
            let twl = d.meta.tile_width.len() as int;
            let thl = d.meta.tile_height.len() as int;
            let stl = spec_ser_tiles(d.tiles).len() as int;
            &&& s.len() == 48 + twl + thl + stl
            &&& s.subrange(0, 1) == "{"@
            &&& s.subrange(1, 7) == "\"meta\""@
            &&& s.subrange(7, 8) == ":"@
            &&& s.subrange(8, 9) == "{"@
            &&& s.subrange(9, 21 + twl) == "\"tileWidth\""@ + ":"@ + d.meta.tile_width
            &&& s[21 + twl] == ','
            &&& s.subrange(21 + twl, 22 + twl) == ","@
            &&& s.subrange(22 + twl, 35 + twl + thl) == "\"tileHeight\""@ + ":"@
                + d.meta.tile_height
            &&& s[35 + twl + thl] == '}'
            &&& s.subrange(35 + twl + thl, 36 + twl + thl) == "}"@
            &&& s.subrange(36 + twl + thl, 37 + twl + thl) == ","@
            &&& s.subrange(37 + twl + thl, 44 + twl + thl) == "\"tiles\""@
            &&& s.subrange(44 + twl + thl, 45 + twl + thl) == ":"@
            &&& s.subrange(45 + twl + thl, 47 + twl + thl + stl) == "["@ + spec_ser_tiles(
                d.tiles,
            ) + "]"@
            &&& s.subrange(47 + twl + thl + stl, 48 + twl + thl + stl) == "}"@
        }),
{
    reveal_strlit("{\"meta\":{\"tileWidth\":");
    reveal_strlit(",\"tileHeight\":");
    reveal_strlit("},\"tiles\":[");
    reveal_strlit("]}");
    reveal_strlit("{");
    reveal_strlit("}");
    reveal_strlit(",");
    reveal_strlit(":");
    reveal_strlit("[");
    reveal_strlit("]");
    reveal_strlit("\"meta\"");
    reveal_strlit("\"tiles\"");
    reveal_strlit("\"tileWidth\"");
    reveal_strlit("\"tileHeight\"");
    let s = spec_ser_doc(d);
    let tw = d.meta.tile_width;
    let th = d.meta.tile_height;
    let twl = tw.len() as int;
    let thl = th.len() as int;
    let stl = spec_ser_tiles(d.tiles).len() as int;
    assert(s.len() == 48 + twl + thl + stl);
    assert(s.subrange(0, 1) =~= "{"@);
    assert(s.subrange(1, 7) =~= "\"meta\""@);
    assert(s.subrange(7, 8) =~= ":"@);
    assert(s.subrange(8, 9) =~= "{"@);
    assert(s.subrange(9, 21 + twl) =~= "\"tileWidth\""@ + ":"@ + tw);
    assert(s.subrange(21 + twl, 22 + twl) =~= ","@);
    assert(s[21 + twl] == s.subrange(21 + twl, 22 + twl)[0]);
    assert(s.subrange(22 + twl, 35 + twl + thl) =~= "\"tileHeight\""@ + ":"@ + th);
    assert(s.subrange(35 + twl + thl, 36 + twl + thl) =~= "}"@);
    assert(s[35 + twl + thl] == s.subrange(35 + twl + thl, 36 + twl + thl)[0]);
    assert(s.subrange(36 + twl + thl, 37 + twl + thl) =~= ","@);
    assert(s.subrange(37 + twl + thl, 44 + twl + thl) =~= "\"tiles\""@);
    assert(s.subrange(44 + twl + thl, 45 + twl + thl) =~= ":"@);
    assert(s.subrange(45 + twl + thl, 47 + twl + thl + stl) =~= "["@ + spec_ser_tiles(d.tiles)
        + "]"@);
    assert(s.subrange(47 + twl + thl + stl, 48 + twl + thl + stl) =~= "}"@);
}

/// Round trip: any well-formed document value, written in canonical form,
/// reads back as exactly the same value — the same metadata and the same
/// tile sequence in the same order, for any tile list including the empty
/// one.
#[verifier::rlimit(100)]
#[verifier::spinoff_prover]
pub proof fn lemma_round_trip(d: MapDataView)
    requires
        d.wf(),
    ensures
        spec_parse_doc(spec_ser_doc(d)) == Some(d),
{
    reveal_strlit("{");
    reveal_strlit("}");
    reveal_strlit(",");
    reveal_strlit(":");
    reveal_strlit("\"meta\"");
    reveal_strlit("\"tiles\"");
    reveal_strlit("\"tileWidth\"");
    reveal_strlit("\"tileHeight\"");
    lemma_doc_layout(d);
    let s = spec_ser_doc(d);
    let tw = d.meta.tile_width;
    let th = d.meta.tile_height;
    let twl = tw.len() as int;
    let thl = th.len() as int;
    let stl = spec_ser_tiles(d.tiles).len() as int;
    lemma_tok_exact(s, 0, "{"@);
    lemma_tok_exact(s, 1, "\"meta\""@);
    lemma_tok_exact(s, 7, ":"@);
    lemma_tok_exact(s, 8, "{"@);
    lemma_field_exact(s, 9, "\"tileWidth\""@, tw);
    let a = 21 + twl;
    lemma_tok_exact(s, a, ","@);
    lemma_field_exact(s, a + 1, "\"tileHeight\""@, th);
    let b = a + 14 + thl;
    lemma_tok_exact(s, b, "}"@);
    lemma_tok_exact(s, b + 1, ","@);
    lemma_tok_exact(s, b + 2, "\"tiles\""@);
    lemma_tok_exact(s, b + 9, ":"@);
    lemma_parse_tiles_exact(s, b + 10, d.tiles);
    let c = b + 12 + stl;
    lemma_tok_exact(s, c, "}"@);
    assert(c + 1 == s.len());
    assert(ws_end(s, c + 1) == s.len());
}

// ---------------------------------------------------------------------------
// The decoder.
// ---------------------------------------------------------------------------
/// Skips the whitespace run that starts at `i`.
fn skip_ws(s: &str, n: usize, i: usize) -> (j: usize)
    requires
        n == s@.len(),
        i <= n,
    ensures
        j as int == ws_end(s@, i as int),
        i <= j <= n,
    decreases n - i,
{
    proof {
        lemma_ws_end(s@, i as int);
    }
    if i < n {
        let c = s.get_char(i);
        if c == ' ' || c == '\t' || c == '\n' || c == '\r' {
            return skip_ws(s, n, i + 1);
        }
    }
    i
}

/// Matches the exact literal `pat` at `i`.
fn expect(s: &str, n: usize, i: usize, pat: &str) -> (r: Option<usize>)
    requires
        n == s@.len(),
        i <= n,
    ensures
        match r {
            Some(j) => spec_lit(s@, i as int, pat@) == Some(j as int) && i <= j <= n,
            None => spec_lit(s@, i as int, pat@) is None,
        },
{
    let pn = pat.unicode_len();
    if pn > n - i {
        return None;
    }
    let mut k: usize = 0;
    while k < pn
        invariant
            n == s@.len(),
            pn == pat@.len(),
            i + pn <= n,
            k <= pn,
            forall|j: int| 0 <= j < k ==> s@[i + j] == pat@[j],
        decreases pn - k,
    {
        if s.get_char(i + k) != pat.get_char(k) {
            proof {
                assert(s@.subrange(i as int, i as int + pat@.len())[k as int] == s@[i + k]);
            }
            return None;
        }
        k += 1;
    }
    proof {
        assert(s@.subrange(i as int, i as int + pat@.len()) =~= pat@);
    }
    Some(i + pn)
}

/// Optional whitespace, then the literal `pat`.
fn tok(s: &str, n: usize, i: usize, pat: &str) -> (r: Option<usize>)
    requires
        n == s@.len(),
        i <= n,
    ensures
        match r {
            Some(j) => spec_tok(s@, i as int, pat@) == Some(j as int) && i <= j <= n && (pat@.len()
                > 0 ==> i < j),
            None => spec_tok(s@, i as int, pat@) is None,
        },
{
    let w = skip_ws(s, n, i);
    expect(s, n, w, pat)
}

/// Optional whitespace, then a number token.
fn num_tok(s: &str, n: usize, i: usize) -> (r: Option<(Num, usize)>)
    requires
        n == s@.len(),
        i <= n,
    ensures
        match r {
            Some(p) => spec_num_tok(s@, i as int) == Some((p.0@, p.1 as int)) && i < p.1 <= n
                && is_json_number(p.0@),
            None => spec_num_tok(s@, i as int) is None,
        },
{
    let w = skip_ws(s, n, i);
    let k = scan_num_chars(s, n, w);
    if k == w {
        return None;
    }
    let tokstr = s.substring_char(w, k);
    match Num::from_text(tokstr) {
        Some(nm) => Some((nm, k)),
        None => None,
    }
}

/// A quoted key, a colon, and a number value.
fn parse_field(s: &str, n: usize, i: usize, key: &str) -> (r: Option<(Num, usize)>)
    requires
        n == s@.len(),
        i <= n,
    ensures
        match r {
            Some(p) => spec_field(s@, i as int, key@) == Some((p.0@, p.1 as int)) && i < p.1 <= n
                && is_json_number(p.0@),
            None => spec_field(s@, i as int, key@) is None,
        },
{
    match tok(s, n, i, key) {
        None => None,
        Some(i1) => match tok(s, n, i1, ":") {
            None => None,
            Some(i2) => num_tok(s, n, i2),
        },
    }
}

/// One tile object.
fn parse_tile(s: &str, n: usize, i: usize) -> (r: Option<(Tile, usize)>)
    requires
        n == s@.len(),
        i <= n,
    ensures
        match r {
            Some(p) => spec_parse_tile(s@, i as int) == Some((p.0@, p.1 as int)) && i < p.1 <= n
                && p.0@.wf(),
            None => spec_parse_tile(s@, i as int) is None,
        },
{
    let i1 = match tok(s, n, i, "{") {
        None => return None,
        Some(j) => j,
    };
    let (x, i2) = match parse_field(s, n, i1, "\"x\"") {
        None => return None,
        Some(p) => p,
    };
    let i3 = match tok(s, n, i2, ",") {
        None => return None,
        Some(j) => j,
    };
    let (y, i4) = match parse_field(s, n, i3, "\"y\"") {
        None => return None,
        Some(p) => p,
    };
    let i5 = match tok(s, n, i4, ",") {
        None => return None,
        Some(j) => j,
    };
    let (w, i6) = match parse_field(s, n, i5, "\"w\"") {
        None => return None,
        Some(p) => p,
    };
    let i7 = match tok(s, n, i6, ",") {
        None => return None,
        Some(j) => j,
    };
    let (h, i8) = match parse_field(s, n, i7, "\"h\"") {
        None => return None,
        Some(p) => p,
    };
    let i9 = match tok(s, n, i8, "}") {
        None => return None,
        Some(j) => j,
    };
    Some((Tile { x, y, w, h }, i9))
}

/// A bracketed, comma-separated tile list.
fn parse_tiles(s: &str, n: usize, i: usize) -> (r: Option<(Vec<Tile>, usize)>)
    requires
        n == s@.len(),
        i <= n,
    ensures
        match r {
            Some(p) => spec_parse_tiles(s@, i as int) == Some((tiles_view(p.0@), p.1 as int))
                && i <= p.1 <= n && (forall|q: int|
                0 <= q < p.0@.len() ==> (#[trigger] tiles_view(p.0@)[q]).wf()),
            None => spec_parse_tiles(s@, i as int) is None,
        },
{
    let i1 = match tok(s, n, i, "[") {
        None => return None,
        Some(j) => j,
    };
    match tok(s, n, i1, "]") {
        Some(j) => {
            let ts: Vec<Tile> = Vec::new();
            proof {
                assert(tiles_view(ts@) =~= Seq::<TileView>::empty());
            }
            return Some((ts, j));
        },
        None => {
        },
    }
    let (t0, i2) = match parse_tile(s, n, i1) {
        None => return None,
        Some(p) => p,
    };
    let mut acc: Vec<Tile> = Vec::new();
    acc.push(t0);
    let mut cur: usize = i2;
    proof {
        assert(tiles_view(acc@) =~= seq![t0@]);
        assert(spec_parse_tiles(s@, i as int) == match spec_parse_tiles_rest(s@, i2 as int) {
            None => None,
            Some(p) => Some((seq![t0@] + p.0, p.1)),
        });
    }
    loop
        invariant
            n == s@.len(),
            i <= cur <= n,
            forall|q: int| 0 <= q < acc@.len() ==> (#[trigger] tiles_view(acc@)[q]).wf(),
            match spec_parse_tiles_rest(s@, cur as int) {
                None => spec_parse_tiles(s@, i as int) is None,
                Some(p) => spec_parse_tiles(s@, i as int) == Some((tiles_view(acc@) + p.0, p.1)),
            },
        decreases n - cur,
    {
        let ghost accv = tiles_view(acc@);
        match tok(s, n, cur, "]") {
            Some(j) => {
                proof {
                    assert(spec_parse_tiles_rest(s@, cur as int) == Some(
                        (Seq::<TileView>::empty(), j as int),
                    ));
                    assert(accv + Seq::<TileView>::empty() =~= accv);
                }
                return Some((acc, j));
            },
            None => {
            },
        }
        let ic = match tok(s, n, cur, ",") {
            None => {
                proof {
                    assert(spec_parse_tiles_rest(s@, cur as int) is None);
                }
                return None;
            },
            Some(j) => j,
        };
        let (t, inext) = match parse_tile(s, n, ic) {
            None => {
                proof {
                    assert(spec_parse_tiles_rest(s@, cur as int) is None);
                }
                return None;
            },
            Some(p) => p,
        };
        proof {
            assert(spec_parse_tiles_rest(s@, cur as int) == match spec_parse_tiles_rest(
                s@,
                inext as int,
            ) {
                None => None,
                Some(p) => Some((seq![t@] + p.0, p.1)),
            });
        }
        acc.push(t);
        proof {
            assert(tiles_view(acc@) =~= accv.push(t@));
            if let Some(p) = spec_parse_tiles_rest(s@, inext as int) {
                assert(accv + (seq![t@] + p.0) =~= accv.push(t@) + p.0);
            }
        }
        cur = inext;
    }
}

impl Tile {
    /// Appends this tile's canonical text to `out`.
    fn write_json(&self, out: &mut String)
        ensures
            final(out)@ == old(out)@ + spec_ser_tile(self@),
            self@.wf(),
    {
        let ghost start = out@;
        out.append("{\"x\":");
        out.append(self.x.as_str());
        out.append(",\"y\":");
        out.append(self.y.as_str());
        out.append(",\"w\":");
        out.append(self.w.as_str());
        out.append(",\"h\":");
        out.append(self.h.as_str());
        out.append("}");
        proof {
            assert(out@ =~= start + spec_ser_tile(self@));
        }
    }
}

impl MapData {
    /// Reads a map document.
    ///
    /// Succeeds exactly on the texts that match the document grammar and
    /// returns the parsed value; every rejected text — a missing field, a
    /// malformed number, trailing garbage — is `MalformedAsset`, never a
    /// default-filled value.
    pub fn from_json(s: &str) -> (r: Result<MapData, MapError>)
        ensures
            match r {
                Ok(d) => spec_parse_doc(s@) == Some(d@) && d@.wf(),
                Err(e) => spec_parse_doc(s@) is None && e == MapError::MalformedAsset,
            },
    {
        let n = s.unicode_len();
        let i1 = match tok(s, n, 0, "{") {
            None => return Err(MapError::MalformedAsset),
            Some(j) => j,
        };
        let i2 = match tok(s, n, i1, "\"meta\"") {
            None => return Err(MapError::MalformedAsset),
            Some(j) => j,
        };
        let i3 = match tok(s, n, i2, ":") {
            None => return Err(MapError::MalformedAsset),
            Some(j) => j,
        };
        let i4 = match tok(s, n, i3, "{") {
            None => return Err(MapError::MalformedAsset),
            Some(j) => j,
        };
        let (tw, i5) = match parse_field(s, n, i4, "\"tileWidth\"") {
            None => return Err(MapError::MalformedAsset),
            Some(p) => p,
        };
        let i6 = match tok(s, n, i5, ",") {
            None => return Err(MapError::MalformedAsset),
            Some(j) => j,
        };
        let (th, i7) = match parse_field(s, n, i6, "\"tileHeight\"") {
            None => return Err(MapError::MalformedAsset),
            Some(p) => p,
        };
        let i8 = match tok(s, n, i7, "}") {
            None => return Err(MapError::MalformedAsset),
            Some(j) => j,
        };
        let i9 = match tok(s, n, i8, ",") {
            None => return Err(MapError::MalformedAsset),
            Some(j) => j,
        };
        let i10 = match tok(s, n, i9, "\"tiles\"") {
            None => return Err(MapError::MalformedAsset),
            Some(j) => j,
        };
        let i11 = match tok(s, n, i10, ":") {
            None => return Err(MapError::MalformedAsset),
            Some(j) => j,
        };
        let (ts, i12) = match parse_tiles(s, n, i11) {
            None => return Err(MapError::MalformedAsset),
            Some(p) => p,
        };
        let i13 = match tok(s, n, i12, "}") {
            None => return Err(MapError::MalformedAsset),
            Some(j) => j,
        };
        let after = skip_ws(s, n, i13);
        if after != n {
            return Err(MapError::MalformedAsset);
        }
        Ok(MapData { meta: MapMetaData { tile_width: tw, tile_height: th }, tiles: ts })
    }

    /// Writes the document in canonical form: the fixed key order and no
    /// whitespace between tokens. The result parses back to exactly this
    /// value.
    pub fn to_json(&self) -> (r: String)
        ensures
            r@ == spec_ser_doc(self@),
            self@.wf(),
            spec_parse_doc(r@) == Some(self@),
    {
        let mut out = String::new();
        write_json_doc(&self.meta, &self.tiles, &mut out);
        proof {
            lemma_round_trip(self@);
        }
        out
    }
}

/// Appends the canonical document text of one map's data to `out`.
pub(crate) fn write_json_doc(meta: &MapMetaData, tiles: &Vec<Tile>, out: &mut String)
    ensures
        ({
            let dv = MapDataView { meta: meta@, tiles: tiles_view(tiles@) };
            final(out)@ == old(out)@ + spec_ser_doc(dv) && dv.wf()
        }),
{
    let ghost dv = MapDataView { meta: meta@, tiles: tiles_view(tiles@) };
    let ghost start = out@;
    out.append("{\"meta\":{\"tileWidth\":");
    out.append(meta.tile_width.as_str());
    out.append(",\"tileHeight\":");
    out.append(meta.tile_height.as_str());
    out.append("},\"tiles\":[");
    let ghost header = out@;
    let n = tiles.len();
    let mut k: usize = 0;
    while k < n
        invariant
            n == tiles.len(),
            k <= n,
            out@ == header + spec_ser_tiles(tiles_view(tiles@).subrange(0, k as int)),
            forall|j: int| 0 <= j < k ==> (#[trigger] tiles_view(tiles@)[j]).wf(),
        decreases n - k,
    {
        let ghost before = tiles_view(tiles@).subrange(0, k as int);
        if k > 0 {
            out.append(",");
        }
        tiles[k].write_json(out);
        proof {
            let t = tiles_view(tiles@)[k as int];
            assert(t == tiles@[k as int]@);
            assert(tiles_view(tiles@).subrange(0, k as int + 1) =~= before.push(t));
            lemma_ser_tiles_snoc(before, t);
            assert(out@ =~= header + spec_ser_tiles(before.push(t)));
        }
        k += 1;
    }
    out.append("]}");
    proof {
        assert(tiles_view(tiles@).subrange(0, n as int) =~= tiles_view(tiles@));
        assert(out@ =~= start + spec_ser_doc(dv));
    }
}

} // verus!
