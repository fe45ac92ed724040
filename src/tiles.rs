//! The tile-matching engine: a deck of labelled tiles, at most two of them
//! face up at a time, matched in pairs (a wildcard takes a third tile along).

use rand::Rng;
use vstd::prelude::*;
use vstd::string::*;
use crate::labels::{
    base_label, base_of, drop_last_char, is_wildcard, labels_match,
    lemma_trim_end_marker, same_label, wildcard, without_last, ascii_lower, lowercase_ascii,
};

verus! {

/// Relies on rand's `thread_rng().gen_range(lo..hi)`: a value of the half-open
/// range `lo..hi`; `gen_range` panics on an empty range, which `requires` excludes.
#[verifier::external_body]
pub(crate) fn random_in(lo: usize, hi: usize) -> (r: usize)
    requires
        lo < hi,
    ensures
        lo <= r < hi,
{
    rand::thread_rng().gen_range(lo..hi)
}

/// The texts of a sequence of strings.
pub open spec fn texts(v: Seq<String>) -> Seq<Seq<char>> {
    v.map_values(|s: String| s@)
}

/// What a deck is: the tile texts (`""` for a cleared slot) and the face-up indices.
pub struct BoardView {
    pub tiles: Seq<Seq<char>>,
    pub flips: Seq<usize>,
}

/// The deck of tiles and the (at most two) tiles turned face up.
#[derive(Debug, Clone)]
pub struct MemoryBoard {
    board: Vec<String>,
    flips: Vec<usize>,
}

/// The outcome of a match: the matched label and the indices cleared.
#[derive(Debug, Clone)]
pub struct MatchedTiles {
    tile: String,
    matches: Vec<usize>,
}

/// One tile: its index in the deck and its text.
#[derive(Debug, Clone)]
pub struct Tile {
    index: usize,
    value: String,
}

/// What a match reports.
pub struct MatchView {
    pub tile: Seq<char>,
    pub matches: Seq<usize>,
}

impl View for MemoryBoard {
    type V = BoardView;

    closed spec fn view(&self) -> BoardView {
        BoardView { tiles: texts(self.board@), flips: self.flips@ }
    }
}

impl View for MatchedTiles {
    type V = MatchView;

    closed spec fn view(&self) -> MatchView {
        MatchView { tile: self.tile@, matches: self.matches@ }
    }
}

/// The report of no match.
pub open spec fn no_match() -> MatchView {
    MatchView { tile: Seq::empty(), matches: Seq::empty() }
}

/// A well-formed deck: at most two distinct face-up indices, each on the deck
/// and each carrying its marker.
pub open spec fn board_wf(v: BoardView) -> bool {
    &&& v.tiles.len() <= usize::MAX
    &&& v.flips.len() <= 2
    &&& forall|k: int| 0 <= k < v.flips.len() ==> #[trigger] v.flips[k] < v.tiles.len()
    &&& v.flips.len() == 2 ==> v.flips[0] != v.flips[1]
    &&& forall|k: int| 0 <= k < v.flips.len() ==> marked(#[trigger] v.tiles[v.flips[k] as int])
}

/// A face-up tile's text: it ends with its `_` marker.
pub open spec fn marked(t: Seq<char>) -> bool {
    t.len() > 0 && t.last() == '_'
}

/// The face-up indices other than `x` and `y`, in their order.
pub open spec fn keep_flips(f: Seq<usize>, x: usize, y: usize) -> Seq<usize>
    decreases f.len(),
{
    if f.len() == 0 {
        f
    } else {
        let rest = keep_flips(f.drop_last(), x, y);
        if f.last() == x || f.last() == y {
            rest
        } else {
            rest.push(f.last())
        }
    }
}

/// `keep_flips` keeps a part of the indices, none of them `x` or `y`, and all
/// of them when it keeps as many as there were.
pub proof fn lemma_keep_flips(f: Seq<usize>, x: usize, y: usize)
    ensures
        keep_flips(f, x, y).len() <= f.len(),
        forall|k: int|
            0 <= k < keep_flips(f, x, y).len() ==> f.contains(#[trigger] keep_flips(f, x, y)[k])
                && keep_flips(f, x, y)[k] != x && keep_flips(f, x, y)[k] != y,
        keep_flips(f, x, y).len() == f.len() ==> keep_flips(f, x, y) == f,
    decreases f.len(),
{
    if f.len() > 0 {
        let g = f.drop_last();
        lemma_keep_flips(g, x, y);
        let rest = keep_flips(g, x, y);
        let r = keep_flips(f, x, y);
        assert forall|k: int| 0 <= k < r.len() implies f.contains(#[trigger] r[k]) && r[k] != x
            && r[k] != y by {
            if k < rest.len() {
                assert(r[k] == rest[k]);
                let j = choose|j: int| 0 <= j < g.len() && g[j] == rest[k];
                assert(f[j] == rest[k]);
            } else {
                assert(r[k] == f[f.len() - 1]);
            }
        }
        if r.len() == f.len() {
            assert(r == rest.push(f.last()));
            assert(f =~= g.push(f.last()));
        }
    }
}

/// Turning `index` up is refused: two tiles are up already, this one is up,
/// it lies off the deck, or its slot is cleared.
pub open spec fn flip_refused(v: BoardView, index: int) -> bool {
    ||| v.flips.len() >= 2
    ||| v.flips.contains(index as usize)
    ||| index < 0
    ||| index >= v.tiles.len()
    ||| v.tiles[index].len() == 0
}

/// The deck after turning `index` up: a `_` marker is appended and the index recorded.
pub open spec fn flip_view(v: BoardView, index: int) -> BoardView {
    if flip_refused(v, index) {
        v
    } else {
        BoardView {
            tiles: v.tiles.update(index, v.tiles[index].push('_')),
            flips: v.flips.push(index as usize),
        }
    }
}

/// A deck stays well formed when only the tiles at `x` and `y` change and
/// those two are no longer face up.
pub proof fn lemma_kept_flips_wf(v: BoardView, w: BoardView, x: usize, y: usize)
    requires
        board_wf(v),
        w.tiles.len() == v.tiles.len(),
        forall|i: int| 0 <= i < v.tiles.len() && i != x && i != y ==> w.tiles[i] == v.tiles[i],
        w.flips == keep_flips(v.flips, x, y),
    ensures
        board_wf(w),
{
    lemma_keep_flips(v.flips, x, y);
    assert forall|k: int| 0 <= k < w.flips.len() implies #[trigger] w.flips[k] < w.tiles.len()
        && marked(w.tiles[w.flips[k] as int]) by {
        assert(v.flips.contains(w.flips[k]));
        let j = choose|j: int| 0 <= j < v.flips.len() && v.flips[j] == w.flips[k];
        assert(v.flips[j] < v.tiles.len());
        assert(marked(v.tiles[v.flips[j] as int]));
    }
    if w.flips.len() == 2 {
        assert(v.flips.len() == 2);
    }
}

/// The indices below `n`, other than `a` and `b`, of the tiles still on the deck
/// whose base label is `label` (up to ASCII case), in increasing order.
pub open spec fn matching_upto(tiles: Seq<Seq<char>>, n: int, label: Seq<char>, a: int, b: int) -> Seq<usize>
    decreases n,
{
    if n <= 0 {
        Seq::empty()
    } else {
        let prev = matching_upto(tiles, n - 1, label, a, b);
        if n - 1 != a && n - 1 != b && tiles[n - 1].len() > 0 && same_label(
            base_label(tiles[n - 1]),
            label,
        ) {
            prev.push((n - 1) as usize)
        } else {
            prev
        }
    }
}

/// The indices, other than `a` and `b`, of the tiles on the deck labelled `label`.
pub open spec fn matching(tiles: Seq<Seq<char>>, label: Seq<char>, a: int, b: int) -> Seq<usize> {
    matching_upto(tiles, tiles.len() as int, label, a, b)
}

/// Whether the tile at `i` counts for `matching_upto`.
pub open spec fn counts_for(tiles: Seq<Seq<char>>, i: int, label: Seq<char>, a: int, b: int) -> bool {
    i != a && i != b && tiles[i].len() > 0 && same_label(base_label(tiles[i]), label)
}

/// `matching_upto` lists, in increasing order, exactly the indices that count for it.
pub proof fn lemma_matching_upto(tiles: Seq<Seq<char>>, n: int, label: Seq<char>, a: int, b: int)
    requires
        0 <= n <= tiles.len(),
        n <= usize::MAX,
    ensures
        forall|k: int|
            0 <= k < matching_upto(tiles, n, label, a, b).len() ==> {
                let i = #[trigger] matching_upto(tiles, n, label, a, b)[k] as int;
                &&& 0 <= i < n
                &&& counts_for(tiles, i, label, a, b)
            },
        forall|k1: int, k2: int|
            #![trigger matching_upto(tiles, n, label, a, b)[k1], matching_upto(tiles, n, label, a, b)[k2]]
            0 <= k1 < k2 < matching_upto(tiles, n, label, a, b).len() ==> matching_upto(
                tiles,
                n,
                label,
                a,
                b,
            )[k1] < matching_upto(tiles, n, label, a, b)[k2],
        forall|i: int|
            0 <= i < n && counts_for(tiles, i, label, a, b) ==> #[trigger] matching_upto(
                tiles,
                n,
                label,
                a,
                b,
            ).contains(i as usize),
    decreases n,
{
    if n > 0 {
        lemma_matching_upto(tiles, n - 1, label, a, b);
        let prev = matching_upto(tiles, n - 1, label, a, b);
        let cur = matching_upto(tiles, n, label, a, b);
        if counts_for(tiles, n - 1, label, a, b) {
            assert(cur == prev.push((n - 1) as usize));
        } else {
            assert(cur == prev);
        }
        assert forall|i: int| 0 <= i < n && counts_for(tiles, i, label, a, b) implies #[trigger] cur.contains(
            i as usize,
        ) by {
            if i < n - 1 {
                assert(prev.contains(i as usize));
                let k = choose|k: int| 0 <= k < prev.len() && prev[k] == i as usize;
                assert(cur[k] == i as usize);
            } else {
                assert(cur[cur.len() - 1] == i as usize);
            }
        }
    }
}

/// Whether exactly one of the two face-up tiles is a wildcard.
pub open spec fn one_wildcard(v: BoardView) -> bool {
    v.flips.len() == 2 && is_wildcard(v.tiles[v.flips[0] as int]) != is_wildcard(
        v.tiles[v.flips[1] as int],
    )
}

/// Of two face-up tiles, the base label of the one that is not a wildcard
/// (of the first, when neither is).
pub open spec fn kept_label(v: BoardView) -> Seq<char> {
    if is_wildcard(v.tiles[v.flips[0] as int]) {
        base_label(v.tiles[v.flips[1] as int])
    } else {
        base_label(v.tiles[v.flips[0] as int])
    }
}

/// With one wildcard up: the tiles that can complete the match, in deck order.
pub open spec fn partners(v: BoardView) -> Seq<usize> {
    if one_wildcard(v) {
        matching(v.tiles, kept_label(v), v.flips[0] as int, v.flips[1] as int)
    } else {
        Seq::empty()
    }
}

/// The result of matching the two face-up tiles, where `pick` chooses among
/// `partners` when a wildcard needs a third tile.
pub open spec fn match_outcome(v: BoardView, pick: int) -> (BoardView, MatchView) {
    if v.flips.len() != 2 {
        (v, no_match())
    } else {
        let f0 = v.flips[0] as int;
        let f1 = v.flips[1] as int;
        let t0 = base_label(v.tiles[f0]);
        let t1 = base_label(v.tiles[f1]);
        let cleared = v.tiles.update(f0, Seq::empty()).update(f1, Seq::empty());
        if is_wildcard(v.tiles[f0]) && is_wildcard(v.tiles[f1]) {
            (
                BoardView { tiles: cleared, flips: Seq::empty() },
                MatchView { tile: wildcard(), matches: seq![f0 as usize, f1 as usize] },
            )
        } else if one_wildcard(v) {
            if partners(v).len() == 0 {
                (v, no_match())
            } else {
                let third = partners(v)[pick];
                (
                    BoardView { tiles: cleared.update(third as int, Seq::empty()), flips: Seq::empty() },
                    MatchView { tile: kept_label(v), matches: seq![f0 as usize, f1 as usize, third] },
                )
            }
        } else if same_label(t0, t1) {
            (
                BoardView { tiles: cleared, flips: Seq::empty() },
                MatchView { tile: t0, matches: seq![f0 as usize, f1 as usize] },
            )
        } else {
            (
                BoardView {
                    tiles: v.tiles.update(f0, drop_last_char(v.tiles[f0])).update(
                        f1,
                        drop_last_char(v.tiles[f1]),
                    ),
                    flips: Seq::empty(),
                },
                no_match(),
            )
        }
    }
}

/// The two sides of the board game.
#[derive(Debug, Clone, Copy, PartialEq, Eq, Structural)]
pub enum Side {
    White,
    Black,
}

/// The letter that starts a side's tile labels.
pub open spec fn side_letter(side: Side) -> char {
    match side {
        Side::White => 'w',
        Side::Black => 'b',
    }
}

/// The label of a side's pawn tiles.
pub open spec fn pawn_label(side: Side) -> Seq<char> {
    seq![side_letter(side), 'p']
}

/// The indices of the tiles on the deck labelled `label`, in deck order.
pub open spec fn on_deck(tiles: Seq<Seq<char>>, label: Seq<char>) -> Seq<usize> {
    matching(tiles, label, tiles.len() as int, tiles.len() as int)
}

/// The second of two draws: `second` ranges over the candidates other than the first.
pub open spec fn other_pick(first: int, second: int) -> int {
    if second >= first {
        second + 1
    } else {
        second
    }
}

/// Draws that pick two distinct entries of `n` candidates (any draws when `n < 2`).
pub open spec fn valid_draws(n: int, first: int, second: int) -> bool {
    n >= 2 ==> 0 <= first < n && 0 <= second < n - 1
}

/// The deck after removing two tiles labelled `label`, and the indices removed
/// (a removed tile that was face up is face up no longer); with fewer than two
/// such tiles, nothing changes and no index comes back.
pub open spec fn remove_outcome(v: BoardView, label: Seq<char>, first: int, second: int) -> (
    BoardView,
    Seq<usize>,
) {
    let c = on_deck(v.tiles, label);
    if c.len() < 2 {
        (v, Seq::empty())
    } else {
        let x = c[first];
        let y = c[other_pick(first, second)];
        (
            BoardView {
                tiles: v.tiles.update(x as int, Seq::empty()).update(y as int, Seq::empty()),
                flips: keep_flips(v.flips, x, y),
            },
            seq![x, y],
        )
    }
}

/// The text of a promoted tile: the side's letter and the piece in lower case.
pub open spec fn promoted_label(side: Side, piece: Seq<char>) -> Seq<char> {
    seq![side_letter(side)] + ascii_lower(piece)
}

/// The deck after turning two of a side's pawn tiles into `piece`, and the two
/// indices changed (a changed tile that was face up is face up no longer); with
/// fewer than two pawn tiles, nothing changes.
pub open spec fn upgrade_outcome(v: BoardView, side: Side, piece: Seq<char>, first: int, second: int) -> (
    BoardView,
    Option<(usize, usize)>,
) {
    let c = on_deck(v.tiles, pawn_label(side));
    if c.len() < 2 {
        (v, None)
    } else {
        let x = c[first];
        let y = c[other_pick(first, second)];
        let t = promoted_label(side, piece);
        (
            BoardView {
                tiles: v.tiles.update(x as int, t).update(y as int, t),
                flips: keep_flips(v.flips, x, y),
            },
            Some((x, y)),
        )
    }
}

/// The label of the tile at `i` of a fresh deck, before shuffling: four blocks
/// of sixteen, black and white in turn, each a wildcard, a queen, two rooks,
/// two bishops, two knights and eight pawns.
pub open spec fn deck_label(i: int) -> Seq<char> {
    let k = i % 16;
    let c = if (i / 16) % 2 == 0 { 'b' } else { 'w' };
    if k == 0 {
        wildcard()
    } else if k == 1 {
        seq![c, 'q']
    } else if k < 4 {
        seq![c, 'r']
    } else if k < 6 {
        seq![c, 'b']
    } else if k < 8 {
        seq![c, 'n']
    } else {
        seq![c, 'p']
    }
}

/// The sixty-four tiles of a fresh deck, before shuffling.
pub open spec fn fresh_deck() -> Seq<Seq<char>> {
    Seq::new(64, |i: int| deck_label(i))
}

/// `s` with the entries at `i` and `j` exchanged.
pub open spec fn swap_at(s: Seq<Seq<char>>, i: int, j: int) -> Seq<Seq<char>> {
    s.update(i, s[j]).update(j, s[i])
}

/// `s` after exchanging, for each `i < n` in turn, the entries at `i` and `targets[i]`.
pub open spec fn apply_swaps(s: Seq<Seq<char>>, targets: Seq<usize>, n: int) -> Seq<Seq<char>>
    decreases n,
{
    if n <= 0 {
        s
    } else {
        let prev = apply_swaps(s, targets, n - 1);
        swap_at(prev, n - 1, targets[n - 1] as int)
    }
}

/// Shuffle draws for a deck of sixty-four: entry `i` lies in `i + 1 .. 64`.
pub open spec fn valid_targets(targets: Seq<usize>) -> bool {
    &&& targets.len() == 62
    &&& forall|i: int| 0 <= i < 62 ==> i < #[trigger] targets[i] < 64
}

/// Exchanging two entries keeps what the sequence holds.
/// A deck that some valid shuffle draws make out of the fresh deck.
pub open spec fn is_shuffled_deck(tiles: Seq<Seq<char>>) -> bool {
    exists|t: Seq<usize>|
        #![trigger apply_swaps(fresh_deck(), t, 62)]
        valid_targets(t) && tiles == apply_swaps(fresh_deck(), t, 62)
}

/// Exchanging two entries keeps what the sequence holds.
pub proof fn lemma_swap_keeps_multiset(s: Seq<Seq<char>>, i: int, j: int)
    requires
        0 <= i < s.len(),
        0 <= j < s.len(),
    ensures
        swap_at(s, i, j).to_multiset() == s.to_multiset(),
        swap_at(s, i, j).len() == s.len(),
{
    broadcast use vstd::seq_lib::to_multiset_update, vstd::multiset::group_multiset_axioms;

    let s1 = s.update(i, s[j]);
    assert(s1.to_multiset() == s.to_multiset().insert(s[j]).remove(s[i]));
    assert(s1.update(j, s[i]).to_multiset() == s1.to_multiset().insert(s[i]).remove(s1[j]));
    if i == j {
        assert(s1 =~= s);
        assert(s1.update(j, s[i]) =~= s);
    } else {
        assert(s1[j] == s[j]);
        vstd::seq_lib::to_multiset_contains(s, s[i]);
        vstd::seq_lib::to_multiset_contains(s, s[j]);
        assert(s.contains(s[i]));
        assert(s.contains(s[j]));
        assert(s1.update(j, s[i]).to_multiset() =~= s.to_multiset());
    }
}

/// The deck that plain parts describe.
pub open spec fn parts_view(board: Seq<String>, flips: Seq<usize>) -> BoardView {
    BoardView { tiles: texts(board), flips }
}

/// Taking a deck apart into plain parts and building it again from them gives
/// back the same tiles and face-up indices.
pub proof fn lemma_parts_round_trip(v: BoardView, tiles: Seq<String>, flips: Seq<usize>)
    requires
        board_wf(v),
        texts(tiles) == v.tiles,
        flips == v.flips,
    ensures
        board_wf(parts_view(tiles, flips)),
        parts_view(tiles, flips) == v,
{
}

/// Turning a tile up a second time changes nothing: once a flip is taken, the
/// same index is refused.
pub proof fn lemma_flip_idempotent(v: BoardView, index: int)
    requires
        board_wf(v),
    ensures
        flip_view(flip_view(v, index), index) == flip_view(v, index),
        flip_refused(v, index) ==> flip_view(v, index) == v,
{
    if !flip_refused(v, index) {
        let w = flip_view(v, index);
        assert(w.flips[w.flips.len() - 1] == index as usize);
        assert(w.flips.contains(index as usize));
    }
}

/// A matched tile stays cleared: turning it up afterwards is refused and changes nothing.
pub proof fn lemma_matched_tile_cannot_flip(v: BoardView, pick: int, k: int)
    requires
        board_wf(v),
        partners(v).len() > 0 ==> 0 <= pick < partners(v).len(),
        0 <= k < match_outcome(v, pick).1.matches.len(),
    ensures
        ({
            let (w, m) = match_outcome(v, pick);
            &&& w.tiles[m.matches[k] as int] == Seq::<char>::empty()
            &&& flip_refused(w, m.matches[k] as int)
            &&& flip_view(w, m.matches[k] as int) == w
        }),
{
    lemma_match_correct(v, pick);
    let (w, m) = match_outcome(v, pick);
    assert(w.tiles[m.matches[k] as int] == Seq::<char>::empty());
}

/// Removing a label with at least two tiles on the deck clears exactly two
/// distinct tiles of that label, returns their indices and leaves every other
/// tile as it was.
pub proof fn lemma_remove_two(v: BoardView, label: Seq<char>, first: int, second: int)
    requires
        board_wf(v),
        on_deck(v.tiles, label).len() >= 2,
        valid_draws(on_deck(v.tiles, label).len() as int, first, second),
    ensures
        ({
            let (w, r) = remove_outcome(v, label, first, second);
            &&& r.len() == 2
            &&& r[0] != r[1]
            &&& on_deck(v.tiles, label).contains(r[0]) && on_deck(v.tiles, label).contains(r[1])
            &&& forall|k: int| 0 <= k < 2 ==> {
                let i = #[trigger] r[k] as int;
                &&& 0 <= i < v.tiles.len()
                &&& v.tiles[i].len() > 0
                &&& same_label(base_label(v.tiles[i]), label)
                &&& w.tiles[i] == Seq::<char>::empty()
            }
            &&& w.tiles.len() == v.tiles.len()
            &&& forall|i: int|
                0 <= i < v.tiles.len() && i != r[0] as int && i != r[1] as int ==> #[trigger] w.tiles[i]
                    == v.tiles[i]
            &&& board_wf(w)
        }),
{
    let n = v.tiles.len() as int;
    lemma_matching_upto(v.tiles, n, label, n, n);
    let c = on_deck(v.tiles, label);
    let (w, r) = remove_outcome(v, label, first, second);
    let j = other_pick(first, second);
    assert(r[0] == c[first] && r[1] == c[j]);
    assert(first != j);
    if first < j {
        assert(c[first] < c[j]);
    } else {
        assert(c[j] < c[first]);
    }
    assert(c.contains(r[0]));
    assert(c.contains(r[1]));
    lemma_kept_flips_wf(v, w, r[0], r[1]);
}

/// Matching two face-up tiles: equal base labels (up to ASCII case) clear those
/// two and report the label; two wildcards clear those two and report `x`; a
/// wildcard and a label with another copy on the deck clear three and report
/// the label; two different labels clear nothing and report no match. A match
/// clears exactly the tiles it reports: every tile neither reported nor face up
/// stays as it was, and a reported match leaves no tile face up.
pub proof fn lemma_match_correct(v: BoardView, pick: int)
    requires
        board_wf(v),
        partners(v).len() > 0 ==> 0 <= pick < partners(v).len(),
    ensures
        ({
            let (w, m) = match_outcome(v, pick);
            &&& w.tiles.len() == v.tiles.len()
            &&& forall|k: int| 0 <= k < m.matches.len() ==> w.tiles[#[trigger] m.matches[k] as int]
                == Seq::<char>::empty()
            &&& forall|i: int|
                0 <= i < v.tiles.len() && !m.matches.contains(i as usize) && !v.flips.contains(
                    i as usize,
                ) ==> #[trigger] w.tiles[i] == v.tiles[i]
            &&& m.matches.len() > 0 ==> w.flips.len() == 0
            &&& m.matches.len() == 0 || m.matches.len() == 2 || m.matches.len() == 3
        }),
        v.flips.len() == 2 ==> ({
            let f0 = v.flips[0] as int;
            let f1 = v.flips[1] as int;
            let (w, m) = match_outcome(v, pick);
            &&& is_wildcard(v.tiles[f0]) && is_wildcard(v.tiles[f1]) ==> m.tile == wildcard()
                && m.matches == seq![f0 as usize, f1 as usize]
            &&& !is_wildcard(v.tiles[f0]) && !is_wildcard(v.tiles[f1]) && same_label(
                base_label(v.tiles[f0]),
                base_label(v.tiles[f1]),
            ) ==> m.tile == base_label(v.tiles[f0]) && m.matches == seq![f0 as usize, f1 as usize]
            &&& one_wildcard(v) && (exists|i: int|
                0 <= i < v.tiles.len() && #[trigger] counts_for(v.tiles, i, kept_label(v), f0, f1))
                ==> m.tile == kept_label(v) && m.matches.len() == 3 && m.matches[0] == f0
                && m.matches[1] == f1 && w.tiles[m.matches[2] as int] == Seq::<char>::empty()
            &&& !is_wildcard(v.tiles[f0]) && !is_wildcard(v.tiles[f1]) && !same_label(
                base_label(v.tiles[f0]),
                base_label(v.tiles[f1]),
            ) ==> m == no_match() && w.flips.len() == 0 && w.tiles[f0] == drop_last_char(
                v.tiles[f0],
            ) && w.tiles[f1] == drop_last_char(v.tiles[f1]) && base_label(w.tiles[f0])
                == base_label(v.tiles[f0]) && base_label(w.tiles[f1]) == base_label(v.tiles[f1])
        }),
{
    if v.flips.len() == 2 {
        let f0 = v.flips[0] as int;
        let f1 = v.flips[1] as int;
        assert(v.flips.contains(f0 as usize));
        assert(v.flips.contains(f1 as usize));
        assert(marked(v.tiles[f0]));
        assert(marked(v.tiles[f1]));
        assert(v.tiles[f0] =~= v.tiles[f0].drop_last().push('_'));
        assert(v.tiles[f1] =~= v.tiles[f1].drop_last().push('_'));
        lemma_trim_end_marker(v.tiles[f0].drop_last());
        lemma_trim_end_marker(v.tiles[f1].drop_last());
        lemma_matching_upto(v.tiles, v.tiles.len() as int, kept_label(v), f0, f1);
        if one_wildcard(v) && (exists|i: int|
            0 <= i < v.tiles.len() && #[trigger] counts_for(v.tiles, i, kept_label(v), f0, f1)) {
            let i = choose|i: int|
                0 <= i < v.tiles.len() && #[trigger] counts_for(v.tiles, i, kept_label(v), f0, f1);
            assert(partners(v).contains(i as usize));
        }
        if one_wildcard(v) && partners(v).len() > 0 {
            let (w, m) = match_outcome(v, pick);
            assert(m.matches[2] == partners(v)[pick]);
            assert forall|i: int|
                0 <= i < v.tiles.len() && !m.matches.contains(i as usize) && !v.flips.contains(
                    i as usize,
                ) implies #[trigger] w.tiles[i] == v.tiles[i] by {
                assert(m.matches[2] != i as usize);
            }
        }
    }
}

impl MatchedTiles {
    pub fn new_empty() -> (r: Self)
        ensures
            r@ == no_match(),
    {
        MatchedTiles { tile: String::new(), matches: Vec::new() }
    }

    pub fn new(tile: String, matches: Vec<usize>) -> (r: Self)
        ensures
            r@.tile == tile@,
            r@.matches == matches@,
    {
        MatchedTiles { tile, matches }
    }

    pub fn get_tile(&self) -> (r: &str)
        ensures
            r@ == self@.tile,
    {
        self.tile.as_str()
    }

    pub fn get_matches(&self) -> (r: Vec<usize>)
        ensures
            r@ == self@.matches,
    {
        self.matches.clone()
    }
}

impl Tile {
    pub closed spec fn spec_index(&self) -> usize {
        self.index
    }

    pub closed spec fn spec_value(&self) -> Seq<char> {
        self.value@
    }

    pub fn get_index(&self) -> (r: usize)
        ensures
            r == self.spec_index(),
    {
        self.index
    }

    pub fn get_value(&self) -> (r: &str)
        ensures
            r@ == self.spec_value(),
    {
        self.value.as_str()
    }
}

impl MemoryBoard {
    pub open spec fn wf(&self) -> bool {
        board_wf(self@)
    }

    /// Turns the tile at `index` face up and returns its base label; refused
    /// (`None`, nothing changed) as `flip_refused` says.
    pub fn flip_tile(&mut self, index: usize) -> (r: Option<String>)
        requires
            old(self).wf(),
        ensures
            final(self).wf(),
            final(self)@ == flip_view(old(self)@, index as int),
            r.is_none() == flip_refused(old(self)@, index as int),
            r matches Some(s) ==> s@ == base_label(old(self)@.tiles[index as int]),
    {
        if self.flips.len() >= 2 || index >= self.board.len() {
            return None;
        }
        let ghost old_v = self@;
        let mut k: usize = 0;
        while k < self.flips.len()
            invariant
                self@ == old_v,
                board_wf(old_v),
                k <= self.flips.len(),
                forall|j: int| 0 <= j < k ==> self.flips@[j] != index,
            decreases self.flips.len() - k,
        {
            if self.flips[k] == index {
                return None;
            }
            k = k + 1;
        }
        if self.board[index].as_str().unicode_len() == 0 {
            return None;
        }
        assert(!old_v.flips.contains(index));
        let mut t = self.board[index].clone();
        t.append("_");
        proof {
            reveal_strlit("_");
            assert(t@ =~= old_v.tiles[index as int].push('_'));
            lemma_trim_end_marker(old_v.tiles[index as int]);
        }
        let label = base_of(&t);
        self.board.set(index, t);
        self.flips.push(index);
        assert(self@.tiles =~= old_v.tiles.update(index as int, old_v.tiles[index as int].push('_')));
        Some(label)
    }

    /// The indices, other than `a` and `b`, of the tiles on the deck labelled `label`.
    fn find_label(&self, label: &str, a: usize, b: usize) -> (r: Vec<usize>)
        ensures
            r@ == matching(self@.tiles, label@, a as int, b as int),
    {
        let mut r: Vec<usize> = Vec::new();
        let mut i: usize = 0;
        while i < self.board.len()
            invariant
                i <= self.board.len(),
                r@ == matching_upto(self@.tiles, i as int, label@, a as int, b as int),
            decreases self.board.len() - i,
        {
            let t = &self.board[i];
            if i != a && i != b && t.as_str().unicode_len() > 0 {
                let bt = base_of(t);
                if labels_match(bt.as_str(), label) {
                    r.push(i);
                }
            }
            i = i + 1;
        }
        r
    }

    /// Clears the slot at `i`.
    fn clear_slot(&mut self, i: usize)
        requires
            i < old(self)@.tiles.len(),
        ensures
            final(self)@.tiles == old(self)@.tiles.update(i as int, Seq::empty()),
            final(self)@.flips == old(self)@.flips,
    {
        let ghost old_v = self@;
        self.board.set(i, String::new());
        assert(self@.tiles =~= old_v.tiles.update(i as int, Seq::empty()));
    }

    /// Forgets `x` and `y` as face-up tiles.
    fn drop_flips(&mut self, x: usize, y: usize)
        ensures
            final(self)@.tiles == old(self)@.tiles,
            final(self)@.flips == keep_flips(old(self)@.flips, x, y),
    {
        let mut kept: Vec<usize> = Vec::new();
        let mut k: usize = 0;
        while k < self.flips.len()
            invariant
                k <= self.flips@.len(),
                kept@ == keep_flips(self.flips@.subrange(0, k as int), x, y),
            decreases self.flips@.len() - k,
        {
            let i = self.flips[k];
            assert(self.flips@.subrange(0, k + 1).drop_last() =~= self.flips@.subrange(0, k as int));
            if i != x && i != y {
                kept.push(i);
            }
            k = k + 1;
        }
        assert(self.flips@.subrange(0, self.flips@.len() as int) =~= self.flips@);
        self.flips = kept;
    }

    /// How many tiles on the deck are labelled `label`.
    pub fn count_label(&self, label: &str) -> (r: usize)
        ensures
            r == on_deck(self@.tiles, label@).len(),
    {
        let n = self.board.len();
        let c = self.find_label(label, n, n);
        c.len()
    }

    /// With one wildcard up: the tiles that can complete the match, in deck order.
    pub fn partner_tiles(&self) -> (r: Vec<usize>)
        requires
            self.wf(),
        ensures
            r@ == partners(self@),
    {
        if self.flips.len() != 2 {
            return Vec::new();
        }
        let f0 = self.flips[0];
        let f1 = self.flips[1];
        let t0 = base_of(&self.board[f0]);
        let t1 = base_of(&self.board[f1]);
        proof {
            reveal_strlit("x");
        }
        let w0 = labels_match(t0.as_str(), "x");
        let w1 = labels_match(t1.as_str(), "x");
        if w0 == w1 {
            return Vec::new();
        }
        let kept = if w0 { t1 } else { t0 };
        self.find_label(kept.as_str(), f0, f1)
    }

    /// Matches the two face-up tiles, as `match_outcome` says; when a wildcard
    /// needs a third tile, `pick` chooses it among `partners`.
    pub fn match_tiles_with(&mut self, pick: usize) -> (r: MatchedTiles)
        requires
            old(self).wf(),
            partners(old(self)@).len() > 0 ==> pick < partners(old(self)@).len(),
        ensures
            final(self).wf(),
            final(self)@ == match_outcome(old(self)@, pick as int).0,
            r@ == match_outcome(old(self)@, pick as int).1,
    {
        if self.flips.len() != 2 {
            return MatchedTiles::new_empty();
        }
        let ghost v = self@;
        let f0 = self.flips[0];
        let f1 = self.flips[1];
        let t0 = base_of(&self.board[f0]);
        let t1 = base_of(&self.board[f1]);
        proof {
            reveal_strlit("x");
        }
        let w0 = labels_match(t0.as_str(), "x");
        let w1 = labels_match(t1.as_str(), "x");
        if w0 && w1 {
            self.clear_slot(f0);
            self.clear_slot(f1);
            self.flips.clear();
            let mut m: Vec<usize> = Vec::new();
            m.push(f0);
            m.push(f1);
            assert(m@ =~= seq![f0, f1]);
            let tile = String::from_str("x");
            assert(tile@ =~= wildcard());
            return MatchedTiles { tile, matches: m };
        }
        if w0 || w1 {
            let kept = if w0 { t1 } else { t0 };
            let cands = self.find_label(kept.as_str(), f0, f1);
            if cands.len() == 0 {
                return MatchedTiles::new_empty();
            }
            let n = self.board.len();
            assert(v.tiles.len() == n);
            proof {
                lemma_matching_upto(v.tiles, v.tiles.len() as int, kept@, f0 as int, f1 as int);
            }
            let third = cands[pick];
            self.clear_slot(f0);
            self.clear_slot(f1);
            self.clear_slot(third);
            self.flips.clear();
            let mut m: Vec<usize> = Vec::new();
            m.push(f0);
            m.push(f1);
            m.push(third);
            assert(m@ =~= seq![f0, f1, third]);
            return MatchedTiles { tile: kept, matches: m };
        }
        if labels_match(t0.as_str(), t1.as_str()) {
            self.clear_slot(f0);
            self.clear_slot(f1);
            self.flips.clear();
            let mut m: Vec<usize> = Vec::new();
            m.push(f0);
            m.push(f1);
            assert(m@ =~= seq![f0, f1]);
            return MatchedTiles { tile: t0, matches: m };
        }
        let u0 = without_last(&self.board[f0]);
        self.board.set(f0, u0);
        let u1 = without_last(&self.board[f1]);
        self.board.set(f1, u1);
        self.flips.clear();
        assert(self@.tiles =~= v.tiles.update(f0 as int, drop_last_char(v.tiles[f0 as int])).update(
            f1 as int,
            drop_last_char(v.tiles[f1 as int]),
        ));
        MatchedTiles::new_empty()
    }

    /// Matches the two face-up tiles, as `match_outcome` says, a wildcard taking
    /// a partner chosen at random.
    pub fn match_tiles(&mut self) -> (r: MatchedTiles)
        requires
            old(self).wf(),
        ensures
            final(self).wf(),
            exists|pick: int|
                (partners(old(self)@).len() > 0 ==> 0 <= pick < partners(old(self)@).len())
                    && final(self)@ == match_outcome(old(self)@, pick).0 && r@ == match_outcome(
                    old(self)@,
                    pick,
                ).1,
    {
        let cands = self.partner_tiles();
        let pick = if cands.len() > 0 { random_in(0, cands.len()) } else { 0 };
        self.match_tiles_with(pick)
    }

    /// The tile at `i` of a fresh deck, before shuffling.
    fn deck_tile(i: usize) -> (r: String)
        requires
            i < 64,
        ensures
            r@ == deck_label(i as int),
    {
        let k = i % 16;
        let white = (i / 16) % 2 == 1;
        proof {
            reveal_strlit("x");
            reveal_strlit("wq");
            reveal_strlit("wr");
            reveal_strlit("wb");
            reveal_strlit("wn");
            reveal_strlit("wp");
            reveal_strlit("bq");
            reveal_strlit("br");
            reveal_strlit("bb");
            reveal_strlit("bn");
            reveal_strlit("bp");
        }
        let r = if k == 0 {
            String::from_str("x")
        } else if k == 1 {
            if white { String::from_str("wq") } else { String::from_str("bq") }
        } else if k < 4 {
            if white { String::from_str("wr") } else { String::from_str("br") }
        } else if k < 6 {
            if white { String::from_str("wb") } else { String::from_str("bb") }
        } else if k < 8 {
            if white { String::from_str("wn") } else { String::from_str("bn") }
        } else {
            if white { String::from_str("wp") } else { String::from_str("bp") }
        };
        assert(r@ =~= deck_label(i as int));
        r
    }

    /// A fresh deck shuffled by the given draws: for `i` from 0 to 61 in turn,
    /// the tiles at `i` and `targets[i]` change places.
    pub fn shuffled(targets: &Vec<usize>) -> (r: MemoryBoard)
        requires
            valid_targets(targets@),
        ensures
            r.wf(),
            r@.tiles == apply_swaps(fresh_deck(), targets@, 62),
            r@.tiles.to_multiset() == fresh_deck().to_multiset(),
            r@.tiles.len() == 64,
            r@.flips == Seq::<usize>::empty(),
    {
        let mut board: Vec<String> = Vec::new();
        let mut i: usize = 0;
        while i < 64
            invariant
                i <= 64,
                texts(board@) == fresh_deck().subrange(0, i as int),
            decreases 64 - i,
        {
            let t = MemoryBoard::deck_tile(i);
            let ghost before = texts(board@);
            board.push(t);
            assert(texts(board@) =~= before.push(deck_label(i as int)));
            assert(fresh_deck().subrange(0, i + 1) =~= fresh_deck().subrange(0, i as int).push(
                deck_label(i as int),
            ));
            i = i + 1;
        }
        assert(fresh_deck().subrange(0, 64) =~= fresh_deck());
        let mut i: usize = 0;
        while i < 62
            invariant
                i <= 62,
                valid_targets(targets@),
                texts(board@) == apply_swaps(fresh_deck(), targets@, i as int),
                texts(board@).to_multiset() == fresh_deck().to_multiset(),
                board@.len() == 64,
            decreases 62 - i,
        {
            let j = targets[i];
            let ghost before = texts(board@);
            let a = board[i].clone();
            let b = board[j].clone();
            board.set(i, b);
            board.set(j, a);
            proof {
                lemma_swap_keeps_multiset(before, i as int, j as int);
                assert(texts(board@) =~= swap_at(before, i as int, j as int));
            }
            i = i + 1;
        }
        MemoryBoard { board, flips: Vec::new() }
    }

    /// A fresh deck in random order: each position `i` from 0 to 61 in turn
    /// exchanges its tile with one drawn from the positions after it.
    pub fn new() -> (r: MemoryBoard)
        ensures
            r.wf(),
            is_shuffled_deck(r@.tiles),
            r@.tiles.to_multiset() == fresh_deck().to_multiset(),
            r@.tiles.len() == 64,
            r@.flips == Seq::<usize>::empty(),
    {
        let mut targets: Vec<usize> = Vec::new();
        let mut i: usize = 0;
        while i < 62
            invariant
                i <= 62,
                targets@.len() == i,
                forall|k: int| 0 <= k < i ==> k < #[trigger] targets@[k] < 64,
            decreases 62 - i,
        {
            let j = random_in(i + 1, 64);
            targets.push(j);
            i = i + 1;
        }
        let r = MemoryBoard::shuffled(&targets);
        assert(valid_targets(targets@));
        r
    }

    /// Removes two tiles labelled `piece`, chosen by the draws, as `remove_outcome` says.
    pub fn remove_tiles_with(&mut self, piece: &str, first: usize, second: usize) -> (r: Vec<usize>)
        requires
            old(self).wf(),
            valid_draws(on_deck(old(self)@.tiles, piece@).len() as int, first as int, second as int),
        ensures
            final(self).wf(),
            final(self)@ == remove_outcome(old(self)@, piece@, first as int, second as int).0,
            r@ == remove_outcome(old(self)@, piece@, first as int, second as int).1,
    {
        let n = self.board.len();
        let c = self.find_label(piece, n, n);
        if c.len() < 2 {
            return Vec::new();
        }
        proof {
            lemma_matching_upto(self@.tiles, n as int, piece@, n as int, n as int);
        }
        let x = c[first];
        let y = if second >= first { c[second + 1] } else { c[second] };
        let ghost v = self@;
        self.clear_slot(x);
        self.clear_slot(y);
        self.drop_flips(x, y);
        proof {
            lemma_keep_flips(v.flips, x, y);
            lemma_kept_flips_wf(v, self@, x, y);
        }
        let mut r: Vec<usize> = Vec::new();
        r.push(x);
        r.push(y);
        assert(r@ =~= seq![x, y]);
        r
    }

    /// Removes two tiles labelled `piece`, chosen at random, and returns their
    /// indices; with fewer than two such tiles on the deck, nothing changes.
    pub fn remove_tiles(&mut self, piece: String) -> (r: Vec<usize>)
        requires
            old(self).wf(),
        ensures
            final(self).wf(),
            exists|first: int, second: int|
                #![trigger remove_outcome(old(self)@, piece@, first, second)]
                valid_draws(on_deck(old(self)@.tiles, piece@).len() as int, first, second)
                    && final(self)@ == remove_outcome(old(self)@, piece@, first, second).0 && r@
                    == remove_outcome(old(self)@, piece@, first, second).1,
    {
        let n = self.board.len();
        let c = self.find_label(piece.as_str(), n, n);
        let (first, second) = if c.len() >= 2 {
            (random_in(0, c.len()), random_in(0, c.len() - 1))
        } else {
            (0, 0)
        };
        self.remove_tiles_with(piece.as_str(), first, second)
    }

    /// Turns two of `side`'s pawn tiles, chosen by the draws, into `piece`, as
    /// `upgrade_outcome` says, and returns the two tiles changed.
    pub fn upgrade_tile_with(&mut self, piece: &str, side: Side, first: usize, second: usize) -> (r:
        Option<(Tile, Tile)>)
        requires
            old(self).wf(),
            valid_draws(on_deck(old(self)@.tiles, pawn_label(side)).len() as int, first as int, second as int),
        ensures
            final(self).wf(),
            final(self)@ == upgrade_outcome(old(self)@, side, piece@, first as int, second as int).0,
            r.is_some() == upgrade_outcome(old(self)@, side, piece@, first as int, second as int).1.is_some(),
            r matches Some(p) ==> {
                &&& upgrade_outcome(old(self)@, side, piece@, first as int, second as int).1 == Some(
                    (p.0.spec_index(), p.1.spec_index()),
                )
                &&& p.0.spec_value() == promoted_label(side, piece@)
                &&& p.1.spec_value() == promoted_label(side, piece@)
            },
    {
        let n = self.board.len();
        proof {
            reveal_strlit("w");
            reveal_strlit("b");
            reveal_strlit("wp");
            reveal_strlit("bp");
        }
        let pawn = match side {
            Side::White => String::from_str("wp"),
            Side::Black => String::from_str("bp"),
        };
        assert(pawn@ =~= pawn_label(side));
        let c = self.find_label(pawn.as_str(), n, n);
        if c.len() < 2 {
            return None;
        }
        proof {
            lemma_matching_upto(self@.tiles, n as int, pawn@, n as int, n as int);
        }
        let x = c[first];
        let y = if second >= first { c[second + 1] } else { c[second] };
        let mut t = match side {
            Side::White => String::from_str("w"),
            Side::Black => String::from_str("b"),
        };
        let low = lowercase_ascii(piece);
        t.append(low.as_str());
        assert(t@ =~= promoted_label(side, piece@));
        let ghost v = self@;
        self.board.set(x, t.clone());
        self.board.set(y, t.clone());
        assert(self@.tiles =~= v.tiles.update(x as int, t@).update(y as int, t@));
        self.drop_flips(x, y);
        proof {
            lemma_keep_flips(v.flips, x, y);
            lemma_kept_flips_wf(v, self@, x, y);
        }
        Some((Tile { index: x, value: t.clone() }, Tile { index: y, value: t }))
    }

    /// Turns two of `side`'s pawn tiles, chosen at random, into `piece`, and
    /// returns the two tiles changed; with fewer than two pawn tiles, nothing changes.
    pub fn upgrade_tile(&mut self, piece: String, side: Side) -> (r: Option<(Tile, Tile)>)
        requires
            old(self).wf(),
        ensures
            final(self).wf(),
            exists|first: int, second: int|
                #![trigger upgrade_outcome(old(self)@, side, piece@, first, second)]
                {
                    let o = upgrade_outcome(old(self)@, side, piece@, first, second);
                    &&& valid_draws(on_deck(old(self)@.tiles, pawn_label(side)).len() as int, first, second)
                    &&& final(self)@ == o.0
                    &&& r.is_some() == o.1.is_some()
                    &&& r matches Some(p) ==> {
                        &&& o.1 == Some((p.0.spec_index(), p.1.spec_index()))
                        &&& p.0.spec_value() == promoted_label(side, piece@)
                        &&& p.1.spec_value() == promoted_label(side, piece@)
                    }
                },
    {
        let n = self.board.len();
        proof {
            reveal_strlit("wp");
            reveal_strlit("bp");
        }
        let pawn = match side {
            Side::White => String::from_str("wp"),
            Side::Black => String::from_str("bp"),
        };
        assert(pawn@ =~= pawn_label(side));
        let c = self.find_label(pawn.as_str(), n, n);
        let (first, second) = if c.len() >= 2 {
            (random_in(0, c.len()), random_in(0, c.len() - 1))
        } else {
            (0, 0)
        };
        self.upgrade_tile_with(piece.as_str(), side, first, second)
    }

    /// The deck as plain parts: the tile texts and the face-up indices.
    pub fn to_parts(&self) -> (r: (Vec<String>, Vec<usize>))
        ensures
            texts(r.0@) == self@.tiles,
            r.1@ == self@.flips,
    {
        let mut tiles: Vec<String> = Vec::new();
        let mut i: usize = 0;
        while i < self.board.len()
            invariant
                i <= self.board.len(),
                texts(tiles@) == self@.tiles.subrange(0, i as int),
            decreases self.board.len() - i,
        {
            let ghost before = texts(tiles@);
            tiles.push(self.board[i].clone());
            assert(texts(tiles@) =~= before.push(self@.tiles[i as int]));
            assert(self@.tiles.subrange(0, i + 1) =~= self@.tiles.subrange(0, i as int).push(
                self@.tiles[i as int],
            ));
            i = i + 1;
        }
        assert(self@.tiles.subrange(0, self.board@.len() as int) =~= self@.tiles);
        (tiles, self.flips.clone())
    }

    /// A copy of the deck.
    pub fn snapshot(&self) -> (r: MemoryBoard)
        ensures
            r@ == self@,
    {
        let (board, flips) = self.to_parts();
        MemoryBoard { board, flips }
    }

    /// A deck from plain parts; refused (`None`) unless they form a well-formed
    /// deck (each face-up tile carrying its marker).
    pub fn from_parts(board: Vec<String>, flips: Vec<usize>) -> (r: Option<MemoryBoard>)
        ensures
            r.is_some() == board_wf(parts_view(board@, flips@)),
            r matches Some(b) ==> b.wf() && b@ == parts_view(board@, flips@),
    {
        if flips.len() > 2 {
            return None;
        }
        assert(texts(board@).len() == board.len());
        let mut k: usize = 0;
        while k < flips.len()
            invariant
                k <= flips.len(),
                forall|j: int| 0 <= j < k ==> #[trigger] flips@[j] < board@.len(),
                forall|j: int| 0 <= j < k ==> marked(#[trigger] texts(board@)[flips@[j] as int]),
            decreases flips.len() - k,
        {
            if flips[k] >= board.len() {
                return None;
            }
            let t = board[flips[k]].as_str();
            let n = t.unicode_len();
            if n == 0 || t.get_char(n - 1) != '_' {
                assert(!marked(texts(board@)[flips@[k as int] as int]));
                return None;
            }
            k = k + 1;
        }
        if flips.len() == 2 && flips[0] == flips[1] {
            return None;
        }
        Some(MemoryBoard { board, flips })
    }

    /// The indices of the face-up tiles.
    pub fn get_flips(&self) -> (r: Vec<usize>)
        ensures
            r@ == self@.flips,
    {
        self.flips.clone()
    }

    /// Forgets the face-up tiles; the tile texts stay as they are.
    pub fn reset_flips(&mut self)
        requires
            old(self).wf(),
        ensures
            final(self).wf(),
            final(self)@.tiles == old(self)@.tiles,
            final(self)@.flips == Seq::<usize>::empty(),
    {
        self.flips.clear();
    }
}

} // verus!
