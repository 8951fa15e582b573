//! The move table as mathematics.
//!
//! A state is a sequence of 54 colour values, six faces of nine stickers each,
//! in the order U, D, F, B, R, L; each face is a row-major 3×3 grid. A clockwise
//! quarter turn of a face is the permutation that rotates the face's own
//! stickers and cycles twelve stickers of the four bordering faces. Every other
//! move is a repetition of a quarter turn.

use vstd::prelude::*;
use crate::move_code::MoveCode;

verus! {

/// Number of stickers on the cube.
pub const STICKERS: usize = 54;

/// Face index of the upper face.
pub const FACE_U: usize = 0;

/// Face index of the bottom face.
pub const FACE_D: usize = 1;

/// Face index of the front face.
pub const FACE_F: usize = 2;

/// Face index of the back face.
pub const FACE_B: usize = 3;

/// Face index of the right face.
pub const FACE_R: usize = 4;

/// Face index of the left face.
pub const FACE_L: usize = 5;

/// A sequence is a cube state when it has one entry per sticker.
pub open spec fn is_state(s: Seq<u8>) -> bool {
    s.len() == STICKERS
}

/// Absolute index of local position `p` of face `face`.
pub open spec fn facelet(face: int, p: int) -> int {
    9 * face + p
}

/// The local position whose sticker arrives at local position `p` when the
/// face turns clockwise: corners travel 0 → 2 → 8 → 6 → 0, edges travel
/// 1 → 5 → 7 → 3 → 1, and the centre stays.
pub open spec fn rotation_source(p: int) -> int {
    if p == 2 {
        0
    } else if p == 8 {
        2
    } else if p == 6 {
        8
    } else if p == 0 {
        6
    } else if p == 5 {
        1
    } else if p == 7 {
        5
    } else if p == 3 {
        7
    } else if p == 1 {
        3
    } else {
        p
    }
}

/// Group `g` (0 to 3) of the stickers that border `face`: a neighbouring face
/// and three local positions on it. When `face` turns clockwise, each group
/// receives the stickers of the next group, position by position, and the last
/// group receives those of the first.
pub open spec fn border_group(face: int, g: int) -> (int, int, int, int) {
    if face == 0 {
        if g == 0 {
            (2, 0, 1, 2)
        } else if g == 1 {
            (4, 0, 1, 2)
        } else if g == 2 {
            (3, 0, 1, 2)
        } else {
            (5, 0, 1, 2)
        }
    } else if face == 1 {
        if g == 0 {
            (2, 6, 7, 8)
        } else if g == 1 {
            (5, 6, 7, 8)
        } else if g == 2 {
            (3, 6, 7, 8)
        } else {
            (4, 6, 7, 8)
        }
    } else if face == 2 {
        if g == 0 {
            (0, 6, 7, 8)
        } else if g == 1 {
            (5, 8, 5, 2)
        } else if g == 2 {
            (1, 2, 1, 0)
        } else {
            (4, 0, 3, 6)
        }
    } else if face == 3 {
        if g == 0 {
            (0, 0, 1, 2)
        } else if g == 1 {
            (4, 2, 5, 8)
        } else if g == 2 {
            (1, 8, 7, 6)
        } else {
            (5, 6, 3, 0)
        }
    } else if face == 4 {
        if g == 0 {
            (0, 2, 5, 8)
        } else if g == 1 {
            (2, 2, 5, 8)
        } else if g == 2 {
            (1, 2, 5, 8)
        } else {
            (3, 6, 3, 0)
        }
    } else {
        if g == 0 {
            (0, 0, 3, 6)
        } else if g == 1 {
            (3, 8, 5, 2)
        } else if g == 2 {
            (1, 0, 3, 6)
        } else {
            (2, 0, 3, 6)
        }
    }
}

/// Absolute index of slot `k` (0 to 11) of the ring around `face`: the border
/// groups laid end to end.
#[verifier::opaque]
pub open spec fn ring(face: int, k: int) -> int {
    let group = border_group(face, k / 3);
    if k % 3 == 0 {
        facelet(group.0, group.1)
    } else if k % 3 == 1 {
        facelet(group.0, group.2)
    } else {
        facelet(group.0, group.3)
    }
}

/// The slot of the ring around `face` that holds absolute index `i`, or 12
/// when `i` is not on the ring.
#[verifier::opaque]
pub open spec fn ring_slot(face: int, i: int) -> int {
    if ring(face, 0) == i {
        0
    } else if ring(face, 1) == i {
        1
    } else if ring(face, 2) == i {
        2
    } else if ring(face, 3) == i {
        3
    } else if ring(face, 4) == i {
        4
    } else if ring(face, 5) == i {
        5
    } else if ring(face, 6) == i {
        6
    } else if ring(face, 7) == i {
        7
    } else if ring(face, 8) == i {
        8
    } else if ring(face, 9) == i {
        9
    } else if ring(face, 10) == i {
        10
    } else if ring(face, 11) == i {
        11
    } else {
        12
    }
}

/// The absolute index whose sticker arrives at absolute index `i` when `face`
/// turns clockwise by a quarter.
#[verifier::opaque]
pub open spec fn turn_source(face: int, i: int) -> int {
    if i / 9 == face {
        facelet(face, rotation_source(i % 9))
    } else {
        let k = ring_slot(face, i);
        if k < 12 {
            ring(face, (k + 3) % 12)
        } else {
            i
        }
    }
}

/// The state after `face` has turned clockwise by a quarter.
pub open spec fn quarter_turn(s: Seq<u8>, face: int) -> Seq<u8> {
    Seq::new(54, |i: int| s[turn_source(face, i)])
}

/// The state after `face` has turned clockwise by `n` quarters.
pub open spec fn turned(s: Seq<u8>, face: int, n: nat) -> Seq<u8>
    decreases n,
{
    if n == 0 {
        s
    } else {
        quarter_turn(turned(s, face, (n - 1) as nat), face)
    }
}

/// The state that a move leaves behind: the quarter turn of the move's face,
/// once for a clockwise move, three times for a counter-clockwise move, twice
/// for a half turn.
pub open spec fn moved(s: Seq<u8>, m: MoveCode) -> Seq<u8> {
    turned(s, m.face(), m.quarter_turns())
}

/// The state after `n` applications of one move.
pub open spec fn moved_times(s: Seq<u8>, m: MoveCode, n: nat) -> Seq<u8>
    decreases n,
{
    if n == 0 {
        s
    } else {
        moved(moved_times(s, m, (n - 1) as nat), m)
    }
}

/// The state after a sequence of moves, applied in order.
pub open spec fn moved_all(s: Seq<u8>, moves: Seq<MoveCode>) -> Seq<u8>
    decreases moves.len(),
{
    if moves.len() == 0 {
        s
    } else {
        moved(moved_all(s, moves.drop_last()), moves.last())
    }
}

/// The state in which every face shows its own colour.
pub open spec fn solved_state() -> Seq<u8> {
    Seq::new(54, |i: int| (i / 9) as u8)
}

/// Every ring slot holds a position of a neighbouring face that is no centre,
/// and no position occurs in two slots.
pub proof fn lemma_ring_slots_distinct(face: int, k: int)
    requires
        0 <= face < 6,
        0 <= k < 12,
    ensures
        0 <= ring(face, k) < 54,
        ring(face, k) / 9 != face,
        ring(face, k) % 9 != 4,
        ring_slot(face, ring(face, k)) == k,
{
    reveal(ring);
    reveal(ring_slot);
}

/// `ring_slot` answers with a slot that holds the position, or with 12.
pub proof fn lemma_ring_slot_found(face: int, i: int)
    ensures
        0 <= ring_slot(face, i) <= 12,
        ring_slot(face, i) < 12 ==> ring(face, ring_slot(face, i)) == i,
{
    reveal(ring_slot);
}

/// On the turning face, a quarter turn follows the rotation of the face.
pub proof fn lemma_turn_source_on_face(face: int, p: int)
    requires
        0 <= face < 6,
        0 <= p < 9,
    ensures
        turn_source(face, facelet(face, p)) == facelet(face, rotation_source(p)),
        0 <= rotation_source(p) < 9,
{
    reveal(turn_source);
}

/// Along the ring, a quarter turn fetches each sticker from three slots ahead.
pub proof fn lemma_turn_source_on_ring(face: int, k: int)
    requires
        0 <= face < 6,
        0 <= k < 12,
    ensures
        turn_source(face, ring(face, k)) == ring(face, (k + 3) % 12),
{
    reveal(turn_source);
    lemma_ring_slots_distinct(face, k);
}

/// Off the turning face and off its ring, a quarter turn moves nothing.
pub proof fn lemma_turn_source_elsewhere(face: int, i: int)
    requires
        i / 9 != face,
        ring_slot(face, i) == 12,
    ensures
        turn_source(face, i) == i,
{
    reveal(turn_source);
}

/// A quarter turn fetches every sticker from one of the 54 positions.
pub proof fn lemma_turn_source_in_range(face: int, i: int)
    requires
        0 <= face < 6,
        0 <= i < 54,
    ensures
        0 <= turn_source(face, i) < 54,
{
    if i / 9 == face {
        lemma_turn_source_on_face(face, i % 9);
    } else {
        lemma_ring_slot_found(face, i);
        let k = ring_slot(face, i);
        if k < 12 {
            lemma_turn_source_on_ring(face, k);
            lemma_ring_slots_distinct(face, (k + 3) % 12);
        } else {
            lemma_turn_source_elsewhere(face, i);
        }
    }
}

/// Following a sticker back through four quarter turns of one face ends where
/// it started.
pub proof fn lemma_turn_source_has_period_four(face: int, i: int)
    requires
        0 <= face < 6,
        0 <= i < 54,
    ensures
        turn_source(face, turn_source(face, turn_source(face, turn_source(face, i)))) == i,
{
    if i / 9 == face {
        let p0 = i % 9;
        let p1 = rotation_source(p0);
        let p2 = rotation_source(p1);
        let p3 = rotation_source(p2);
        lemma_turn_source_on_face(face, p0);
        lemma_turn_source_on_face(face, p1);
        lemma_turn_source_on_face(face, p2);
        lemma_turn_source_on_face(face, p3);
    } else {
        lemma_ring_slot_found(face, i);
        let k = ring_slot(face, i);
        if k < 12 {
            let k1 = (k + 3) % 12;
            let k2 = (k + 6) % 12;
            let k3 = (k + 9) % 12;
            lemma_turn_source_on_ring(face, k);
            lemma_turn_source_on_ring(face, k1);
            lemma_turn_source_on_ring(face, k2);
            lemma_turn_source_on_ring(face, k3);
        } else {
            lemma_turn_source_elsewhere(face, i);
        }
    }
}

/// Four quarter turns of one face bring every sticker back.
pub proof fn lemma_four_quarter_turns(s: Seq<u8>, face: int)
    requires
        is_state(s),
        0 <= face < 6,
    ensures
        turned(s, face, 4) == s,
{
    reveal_with_fuel(turned, 5);
    let s1 = quarter_turn(s, face);
    let s2 = quarter_turn(s1, face);
    let s3 = quarter_turn(s2, face);
    let s4 = quarter_turn(s3, face);
    assert forall|i: int| 0 <= i < 54 implies s4[i] == s[i] by {
        let i1 = turn_source(face, i);
        let i2 = turn_source(face, i1);
        let i3 = turn_source(face, i2);
        lemma_turn_source_in_range(face, i);
        lemma_turn_source_in_range(face, i1);
        lemma_turn_source_in_range(face, i2);
        lemma_turn_source_in_range(face, i3);
        lemma_turn_source_has_period_four(face, i);
    }
    assert(s4 =~= s);
}

/// Turning a face by `a` quarters and then by `b` more is turning it by
/// `a + b` quarters.
pub proof fn lemma_turns_add(s: Seq<u8>, face: int, a: nat, b: nat)
    ensures
        turned(turned(s, face, a), face, b) == turned(s, face, a + b),
    decreases b,
{
    if b > 0 {
        lemma_turns_add(s, face, a, (b - 1) as nat);
        assert((a + b - 1) as nat == a + (b - 1) as nat);
    }
}

/// Quarter turns of one face count modulo four.
pub proof fn lemma_turns_modulo_four(s: Seq<u8>, face: int, n: nat)
    requires
        is_state(s),
        0 <= face < 6,
    ensures
        turned(s, face, n) == turned(s, face, n % 4),
    decreases n,
{
    if n >= 4 {
        lemma_four_quarter_turns(s, face);
        lemma_turns_add(s, face, 4, (n - 4) as nat);
        lemma_turns_modulo_four(s, face, (n - 4) as nat);
    }
}

/// A quarter turn of a state is a state.
pub proof fn lemma_turned_is_state(s: Seq<u8>, face: int, n: nat)
    requires
        is_state(s),
    ensures
        is_state(turned(s, face, n)),
    decreases n,
{
    if n > 0 {
        lemma_turned_is_state(s, face, (n - 1) as nat);
    }
}

/// A quarter turn of any face leaves the six centres where they are.
pub proof fn lemma_quarter_turn_fixes_centers(s: Seq<u8>, face: int, center: int)
    requires
        0 <= face < 6,
        0 <= center < 6,
    ensures
        quarter_turn(s, face)[facelet(center, 4)] == s[facelet(center, 4)],
{
    let i = facelet(center, 4);
    if center == face {
        lemma_turn_source_on_face(face, 4);
    } else {
        lemma_ring_slot_found(face, i);
        let k = ring_slot(face, i);
        if k < 12 {
            lemma_ring_slots_distinct(face, k);
        } else {
            lemma_turn_source_elsewhere(face, i);
        }
    }
}

/// Any number of quarter turns of one face leaves the six centres where they
/// are.
pub proof fn lemma_turns_fix_centers(s: Seq<u8>, face: int, n: nat, center: int)
    requires
        0 <= face < 6,
        0 <= center < 6,
    ensures
        turned(s, face, n)[facelet(center, 4)] == s[facelet(center, 4)],
    decreases n,
{
    if n > 0 {
        lemma_turns_fix_centers(s, face, (n - 1) as nat, center);
        lemma_quarter_turn_fixes_centers(turned(s, face, (n - 1) as nat), face, center);
    }
}

/// Applying any move four times returns every state to itself; in particular
/// the solved state returns to the solved state.
pub proof fn lemma_four_applications_restore(s: Seq<u8>, m: MoveCode)
    requires
        is_state(s),
    ensures
        moved_times(s, m, 4) == s,
        moved_times(solved_state(), m, 4) == solved_state(),
{
    lemma_four_applications(s, m);
    lemma_four_applications(solved_state(), m);
}

proof fn lemma_four_applications(s: Seq<u8>, m: MoveCode)
    requires
        is_state(s),
    ensures
        moved_times(s, m, 4) == s,
{
    reveal_with_fuel(moved_times, 5);
    let face = m.face();
    let q = m.quarter_turns();
    lemma_turns_add(s, face, q, q);
    lemma_turns_add(s, face, q + q, q);
    lemma_turns_add(s, face, q + q + q, q);
    lemma_turns_modulo_four(s, face, q + q + q + q);
}

/// A move followed by its inverse, or the inverse followed by the move,
/// returns every state to itself. The inverse of a clockwise quarter turn is
/// the counter-clockwise quarter turn of the same face, and the other way
/// round; a half turn is its own inverse.
pub proof fn lemma_inverse_cancels(s: Seq<u8>, m: MoveCode)
    requires
        is_state(s),
    ensures
        moved(moved(s, m), m.inverse()) == s,
        moved(moved(s, m.inverse()), m) == s,
{
    let face = m.face();
    let q = m.quarter_turns();
    let r = m.inverse().quarter_turns();
    assert(m.inverse().face() == face);
    assert(q + r == 4);
    lemma_turns_add(s, face, q, r);
    lemma_turns_add(s, face, r, q);
    lemma_four_quarter_turns(s, face);
}

/// The half turn of a face is its clockwise quarter turn applied twice.
pub proof fn lemma_half_turn_is_two_quarter_turns(s: Seq<u8>, face: u8)
    requires
        face < 6,
    ensures
        moved(s, MoveCode::of_code((face + 12) as u8)) == moved(
            moved(s, MoveCode::of_code(face)),
            MoveCode::of_code(face),
        ),
{
    reveal_with_fuel(turned, 3);
}

/// The counter-clockwise quarter turn of a face is its clockwise quarter turn
/// applied three times.
pub proof fn lemma_counter_turn_is_three_quarter_turns(s: Seq<u8>, face: u8)
    requires
        face < 6,
    ensures
        moved(s, MoveCode::of_code((face + 6) as u8)) == moved(
            moved(moved(s, MoveCode::of_code(face)), MoveCode::of_code(face)),
            MoveCode::of_code(face),
        ),
{
    reveal_with_fuel(turned, 4);
}

/// Centre positions are invariant under every move, for any starting state.
pub proof fn lemma_move_fixes_centers(s: Seq<u8>, m: MoveCode)
    ensures
        forall|face: int|
            0 <= face < 6 ==> #[trigger] moved(s, m)[facelet(face, 4)] == s[facelet(face, 4)],
{
    assert forall|face: int| 0 <= face < 6 implies #[trigger] moved(s, m)[facelet(face, 4)]
        == s[facelet(face, 4)] by {
        lemma_turns_fix_centers(s, m.face(), m.quarter_turns(), face);
    }
}

/// A move of a state is a state.
pub proof fn lemma_moved_is_state(s: Seq<u8>, m: MoveCode)
    requires
        is_state(s),
    ensures
        is_state(moved(s, m)),
{
    lemma_turned_is_state(s, m.face(), m.quarter_turns());
}

/// The sequence with the entries at `i` and `j` exchanged.
pub open spec fn swapped(s: Seq<u8>, i: int, j: int) -> Seq<u8> {
    s.update(i, s[j]).update(j, s[i])
}

/// The sequence in which position `a` has received the entry of `b`, `b` that
/// of `c`, `c` that of `d`, and `d` that of `a`.
pub open spec fn cycled(s: Seq<u8>, a: int, b: int, c: int, d: int) -> Seq<u8> {
    swapped(swapped(swapped(s, a, b), b, c), c, d)
}

/// The state after the three cycles along the ring around `face`.
pub open spec fn ring_cycled(s: Seq<u8>, face: int) -> Seq<u8> {
    let s0 = cycled(s, ring(face, 0), ring(face, 3), ring(face, 6), ring(face, 9));
    let s1 = cycled(s0, ring(face, 1), ring(face, 4), ring(face, 7), ring(face, 10));
    cycled(s1, ring(face, 2), ring(face, 5), ring(face, 8), ring(face, 11))
}

/// The state after the two cycles on `face` itself, of its corners and of its
/// edges.
pub open spec fn face_cycled(s: Seq<u8>, face: int) -> Seq<u8> {
    let s0 = cycled(s, facelet(face, 0), facelet(face, 6), facelet(face, 8), facelet(face, 2));
    cycled(s0, facelet(face, 1), facelet(face, 3), facelet(face, 7), facelet(face, 5))
}

/// Exchanging two entries keeps the entries, counted with multiplicity.
pub proof fn lemma_swapped_keeps_entries(s: Seq<u8>, i: int, j: int)
    requires
        0 <= i < s.len(),
        0 <= j < s.len(),
    ensures
        swapped(s, i, j).to_multiset() == s.to_multiset(),
        swapped(s, i, j).len() == s.len(),
{
    broadcast use vstd::multiset::group_multiset_axioms;

    let s1 = s.update(i, s[j]);
    vstd::seq_lib::to_multiset_update(s, i, s[j]);
    vstd::seq_lib::to_multiset_update(s1, j, s[i]);
    vstd::seq_lib::to_multiset_contains(s, s[i]);
    vstd::seq_lib::to_multiset_contains(s, s[j]);
    assert(s.contains(s[i]));
    assert(s.contains(s[j]));
    assert(swapped(s, i, j).to_multiset() =~= s.to_multiset());
}

/// A cycle of four positions keeps the entries, counted with multiplicity.
pub proof fn lemma_cycled_keeps_entries(s: Seq<u8>, a: int, b: int, c: int, d: int)
    requires
        0 <= a < s.len(),
        0 <= b < s.len(),
        0 <= c < s.len(),
        0 <= d < s.len(),
    ensures
        cycled(s, a, b, c, d).to_multiset() == s.to_multiset(),
        cycled(s, a, b, c, d).len() == s.len(),
{
    lemma_swapped_keeps_entries(s, a, b);
    lemma_swapped_keeps_entries(swapped(s, a, b), b, c);
    lemma_swapped_keeps_entries(swapped(swapped(s, a, b), b, c), c, d);
}

/// A quarter turn is five cycles of four positions each: two on the face and
/// three along its ring.
pub proof fn lemma_quarter_turn_is_cycles(s: Seq<u8>, face: int)
    requires
        is_state(s),
        0 <= face < 6,
    ensures
        quarter_turn(s, face) == ring_cycled(face_cycled(s, face), face),
{
    reveal(turn_source);
    reveal(ring_slot);
    reveal(ring);
    assert(quarter_turn(s, face) =~= ring_cycled(face_cycled(s, face), face));
}

/// A quarter turn moves stickers and recolours none: the colours of the state,
/// counted with multiplicity, stay the same.
pub proof fn lemma_quarter_turn_keeps_colors(s: Seq<u8>, face: int)
    requires
        is_state(s),
        0 <= face < 6,
    ensures
        quarter_turn(s, face).to_multiset() == s.to_multiset(),
{
    lemma_quarter_turn_is_cycles(s, face);
    let f0 = cycled(s, facelet(face, 0), facelet(face, 6), facelet(face, 8), facelet(face, 2));
    lemma_cycled_keeps_entries(
        s,
        facelet(face, 0),
        facelet(face, 6),
        facelet(face, 8),
        facelet(face, 2),
    );
    lemma_cycled_keeps_entries(
        f0,
        facelet(face, 1),
        facelet(face, 3),
        facelet(face, 7),
        facelet(face, 5),
    );
    let t = face_cycled(s, face);
    lemma_ring_slots_distinct(face, 0);
    lemma_ring_slots_distinct(face, 1);
    lemma_ring_slots_distinct(face, 2);
    lemma_ring_slots_distinct(face, 3);
    lemma_ring_slots_distinct(face, 4);
    lemma_ring_slots_distinct(face, 5);
    lemma_ring_slots_distinct(face, 6);
    lemma_ring_slots_distinct(face, 7);
    lemma_ring_slots_distinct(face, 8);
    lemma_ring_slots_distinct(face, 9);
    lemma_ring_slots_distinct(face, 10);
    lemma_ring_slots_distinct(face, 11);
    let r0 = cycled(t, ring(face, 0), ring(face, 3), ring(face, 6), ring(face, 9));
    lemma_cycled_keeps_entries(t, ring(face, 0), ring(face, 3), ring(face, 6), ring(face, 9));
    let r1 = cycled(r0, ring(face, 1), ring(face, 4), ring(face, 7), ring(face, 10));
    lemma_cycled_keeps_entries(r0, ring(face, 1), ring(face, 4), ring(face, 7), ring(face, 10));
    lemma_cycled_keeps_entries(r1, ring(face, 2), ring(face, 5), ring(face, 8), ring(face, 11));
}

/// Any number of quarter turns keeps the colours of the state, counted with
/// multiplicity.
pub proof fn lemma_turns_keep_colors(s: Seq<u8>, face: int, n: nat)
    requires
        is_state(s),
        0 <= face < 6,
    ensures
        turned(s, face, n).to_multiset() == s.to_multiset(),
    decreases n,
{
    if n > 0 {
        lemma_turns_keep_colors(s, face, (n - 1) as nat);
        lemma_turned_is_state(s, face, (n - 1) as nat);
        lemma_quarter_turn_keeps_colors(turned(s, face, (n - 1) as nat), face);
    }
}

/// Moves are permutations, not recolourings: every move keeps the colours of
/// the state, counted with multiplicity.
pub proof fn lemma_move_keeps_colors(s: Seq<u8>, m: MoveCode)
    requires
        is_state(s),
    ensures
        moved(s, m).to_multiset() == s.to_multiset(),
{
    lemma_turns_keep_colors(s, m.face(), m.quarter_turns());
}

} // verus!
