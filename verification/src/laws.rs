//! Global properties of the simulation, proved once and for all over the
//! spec-level model of the update pass.
//!
//! Everything here is stated against [`crate::engine::sub_step_spec`] and
//! [`crate::engine::sub_steps_spec`], the exact mathematical description of
//! what [`crate::engine::Automaton::sub_step`] and
//! [`crate::engine::Automaton::step`] do to the grid, so each lemma holds of
//! every grid the executable engine can ever produce.

use crate::engine::{
    commit_cell, empty_at, move_target, move_target_at, pass_from, sand_target, sub_step_spec,
    sub_steps_spec,
};
use crate::grid::{cell_index, in_bounds, lemma_coords_roundtrip, lemma_index_roundtrip};
use crate::particle::Particle;
use vstd::prelude::*;
use vstd::seq_lib::*;

verus! {

/// Visiting one cell never changes the size of the working buffer.
pub proof fn lemma_commit_cell_len(cur: Seq<Particle>, work: Seq<Particle>, w: int, h: int, i: int)
    requires
        cur.len() == w * h,
        work.len() == cur.len(),
        0 < w,
        0 < h,
        0 <= i < cur.len(),
    ensures
        commit_cell(cur, work, w, h, i).len() == work.len(),
{
    lemma_coords_roundtrip(w, h, i);
    lemma_move_target_props(cur, w, h, i % w, i / w);
}

/// A pass never changes the size of the grid.
pub proof fn lemma_pass_from_len(cur: Seq<Particle>, w: int, h: int, k: int)
    requires
        cur.len() == w * h,
        0 < w,
        0 < h,
        0 <= k,
    ensures
        pass_from(cur, w, h, k).len() == cur.len(),
    decreases cur.len() - k,
{
    if k < cur.len() {
        lemma_pass_from_len(cur, w, h, k + 1);
        lemma_commit_cell_len(cur, pass_from(cur, w, h, k + 1), w, h, k);
    }
}

/// What a `Some` move target means: the destination is a distinct in-range
/// cell that holds `Empty` in the read model, it lies in the mover's own row
/// or the row below — never above — and at most one column sideways, and
/// the mover is sand or water: `Empty` and `Wall` never have a target.
pub proof fn lemma_move_target_props(s: Seq<Particle>, w: int, h: int, x: int, y: int)
    requires
        s.len() == w * h,
        0 < w,
        0 < h,
        in_bounds(w, h, x, y),
    ensures
        move_target(s, w, h, x, y) matches Some(d) ==> {
            &&& 0 <= d < s.len()
            &&& s[d] == Particle::Empty
            &&& d != cell_index(w, x, y)
            &&& (d / w == y || d / w == y + 1)
            &&& (d % w == x - 1 || d % w == x || d % w == x + 1)
            &&& (s[cell_index(w, x, y)] == Particle::Sand || s[cell_index(w, x, y)]
                == Particle::Water)
        },
{
    lemma_index_roundtrip(w, h, x, y);
    if empty_at(s, w, h, x, y + 1) {
        lemma_index_roundtrip(w, h, x, y + 1);
    }
    if empty_at(s, w, h, x - 1, y + 1) {
        lemma_index_roundtrip(w, h, x - 1, y + 1);
    }
    if empty_at(s, w, h, x + 1, y + 1) {
        lemma_index_roundtrip(w, h, x + 1, y + 1);
    }
    if empty_at(s, w, h, x - 1, y) {
        lemma_index_roundtrip(w, h, x - 1, y);
    }
    if empty_at(s, w, h, x + 1, y) {
        lemma_index_roundtrip(w, h, x + 1, y);
    }
}

/// Wall cells survive the tail of a pass: wherever the read model holds a
/// `Wall`, the working buffer still holds a `Wall` after the remaining
/// visits. No transition ever vacates a wall (walls have no move target)
/// and none ever claims its cell (a claimed destination is empty in the
/// working buffer, and the wall is still standing there by induction).
pub proof fn lemma_pass_from_walls(cur: Seq<Particle>, w: int, h: int, k: int)
    requires
        cur.len() == w * h,
        0 < w,
        0 < h,
        0 <= k,
    ensures
        forall|j: int|
            0 <= j < cur.len() && cur[j] == Particle::Wall ==> pass_from(cur, w, h, k)[j]
                == Particle::Wall,
    decreases cur.len() - k,
{
    if k < cur.len() {
        lemma_pass_from_walls(cur, w, h, k + 1);
        lemma_pass_from_len(cur, w, h, k + 1);
        let work = pass_from(cur, w, h, k + 1);
        lemma_coords_roundtrip(w, h, k);
        lemma_move_target_props(cur, w, h, k % w, k / w);
        match move_target_at(cur, w, h, k) {
            None => {},
            Some(d) => {
                if work[d] == Particle::Empty && work[k] == cur[k] {
                    assert forall|j: int|
                        0 <= j < cur.len() && cur[j] == Particle::Wall implies commit_cell(
                        cur,
                        work,
                        w,
                        h,
                        k,
                    )[j] == Particle::Wall by {
                        assert(work[j] == Particle::Wall);
                        assert(j != d);
                        assert(j != k);
                    }
                }
            },
        }
    }
}

/// Wall immobility: a `Wall` cell still holds `Wall` after any number of
/// update passes, whatever its neighbors do.
pub proof fn lemma_walls_immobile(cur: Seq<Particle>, w: int, h: int, n: nat, j: int)
    requires
        cur.len() == w * h,
        0 < w,
        0 < h,
        0 <= j < cur.len(),
        cur[j] == Particle::Wall,
    ensures
        sub_steps_spec(cur, w, h, n).len() == cur.len(),
        sub_steps_spec(cur, w, h, n)[j] == Particle::Wall,
    decreases n,
{
    if n > 0 {
        lemma_walls_immobile(cur, w, h, (n - 1) as nat, j);
        let prev = sub_steps_spec(cur, w, h, (n - 1) as nat);
        lemma_pass_from_walls(prev, w, h, 0);
        lemma_pass_from_len(prev, w, h, 0);
    }
}

/// A particle kind that never moves on its own: vacuum or wall.
pub open spec fn is_static(p: Particle) -> bool {
    p == Particle::Empty || p == Particle::Wall
}

/// In a grid of only static kinds, the tail of a pass changes nothing:
/// every visit finds a particle with no move target.
pub proof fn lemma_pass_from_static(cur: Seq<Particle>, w: int, h: int, k: int)
    requires
        cur.len() == w * h,
        0 < w,
        0 < h,
        0 <= k,
        forall|j: int| 0 <= j < cur.len() ==> is_static(cur[j]),
    ensures
        pass_from(cur, w, h, k) == cur,
    decreases cur.len() - k,
{
    if k < cur.len() {
        lemma_pass_from_static(cur, w, h, k + 1);
        lemma_coords_roundtrip(w, h, k);
        assert(is_static(cur[k]));
        assert(move_target_at(cur, w, h, k) is None);
    }
}

/// Idempotent no-op: a grid containing only `Empty` and `Wall` is a fixed
/// point of the update pass — bit-for-bit identical after any number of
/// passes.
pub proof fn lemma_static_grid_fixed(cur: Seq<Particle>, w: int, h: int, n: nat)
    requires
        cur.len() == w * h,
        0 < w,
        0 < h,
        forall|j: int| 0 <= j < cur.len() ==> is_static(cur[j]),
    ensures
        sub_steps_spec(cur, w, h, n) == cur,
    decreases n,
{
    if n > 0 {
        lemma_static_grid_fixed(cur, w, h, (n - 1) as nat);
        lemma_pass_from_static(cur, w, h, 0);
    }
}

/// Visiting one cell preserves the multiset of all cell contents: a commit
/// is always a swap of an occupied cell with an empty one.
pub proof fn lemma_commit_cell_multiset(
    cur: Seq<Particle>,
    work: Seq<Particle>,
    w: int,
    h: int,
    i: int,
)
    requires
        cur.len() == w * h,
        work.len() == cur.len(),
        0 < w,
        0 < h,
        0 <= i < cur.len(),
    ensures
        commit_cell(cur, work, w, h, i).to_multiset() == work.to_multiset(),
{
    broadcast use vstd::multiset::group_multiset_axioms;
    broadcast use group_to_multiset_ensures;

    lemma_coords_roundtrip(w, h, i);
    lemma_move_target_props(cur, w, h, i % w, i / w);
    match move_target_at(cur, w, h, i) {
        None => {},
        Some(d) => {
            if work[d] == Particle::Empty && work[i] == cur[i] {
                let kind = cur[i];
                let m = work.to_multiset();
                let s1 = work.update(d, kind);
                let s2 = s1.update(i, Particle::Empty);
                assert(kind != Particle::Empty);
                assert(d != i);
                to_multiset_update(work, d, kind);
                to_multiset_update(s1, i, Particle::Empty);
                assert(s1[i] == kind);
                assert(work.contains(Particle::Empty)) by {
                    assert(work[d] == Particle::Empty);
                }
                assert(m.count(Particle::Empty) > 0);
                assert(s2.to_multiset() =~= m);
            }
        },
    }
}

/// The tail of a pass preserves the multiset of all cell contents.
pub proof fn lemma_pass_from_multiset(cur: Seq<Particle>, w: int, h: int, k: int)
    requires
        cur.len() == w * h,
        0 < w,
        0 < h,
        0 <= k,
    ensures
        pass_from(cur, w, h, k).to_multiset() == cur.to_multiset(),
    decreases cur.len() - k,
{
    if k < cur.len() {
        lemma_pass_from_multiset(cur, w, h, k + 1);
        lemma_pass_from_len(cur, w, h, k + 1);
        lemma_commit_cell_multiset(cur, pass_from(cur, w, h, k + 1), w, h, k);
    }
}

/// Conservation: the multiset of cell contents — and with it the number of
/// particles of each kind, `Empty` included — is unchanged by any number of
/// update passes. Particles only move; they never appear or vanish.
pub proof fn lemma_conservation(cur: Seq<Particle>, w: int, h: int, n: nat)
    requires
        cur.len() == w * h,
        0 < w,
        0 < h,
    ensures
        sub_steps_spec(cur, w, h, n).to_multiset() == cur.to_multiset(),
        forall|p: Particle| #[trigger] sub_steps_spec(cur, w, h, n).to_multiset().count(p)
            == cur.to_multiset().count(p),
    decreases n,
{
    if n > 0 {
        lemma_conservation(cur, w, h, (n - 1) as nat);
        let prev = sub_steps_spec(cur, w, h, (n - 1) as nat);
        to_multiset_len(prev);
        to_multiset_len(cur);
        lemma_pass_from_multiset(prev, w, h, 0);
    }
}

/// A state in which no cell but `m` has a move target: everything else is
/// either static or blocked.
pub open spec fn lone_mover(cur: Seq<Particle>, w: int, h: int, m: int) -> bool {
    forall|j: int| 0 <= j < cur.len() && j != m ==> move_target_at(cur, w, h, j) is None
}

/// What one pass leaves behind when only cell `m` can move: the grid
/// unchanged if `m` has no open target, and otherwise exactly the swap of
/// `m` with its target cell.
pub open spec fn lone_mover_result(cur: Seq<Particle>, w: int, h: int, m: int) -> Seq<Particle> {
    match move_target_at(cur, w, h, m) {
        None => cur,
        Some(d) => cur.update(d, cur[m]).update(m, Particle::Empty),
    }
}

/// The tail of a pass over a lone-mover state: nothing happens until the
/// pass reaches `m`, the single move commits there, and every later visit
/// leaves the buffer alone.
pub proof fn lemma_lone_mover_pass_from(cur: Seq<Particle>, w: int, h: int, m: int, k: int)
    requires
        cur.len() == w * h,
        0 < w,
        0 < h,
        0 <= m < cur.len(),
        lone_mover(cur, w, h, m),
        0 <= k,
    ensures
        k > m ==> pass_from(cur, w, h, k) == cur,
        k <= m ==> pass_from(cur, w, h, k) == lone_mover_result(cur, w, h, m),
    decreases cur.len() - k,
{
    lemma_coords_roundtrip(w, h, m);
    lemma_move_target_props(cur, w, h, m % w, m / w);
    if k < cur.len() {
        lemma_lone_mover_pass_from(cur, w, h, m, k + 1);
        let work = pass_from(cur, w, h, k + 1);
        if k != m {
            assert(move_target_at(cur, w, h, k) is None);
        } else {
            match move_target_at(cur, w, h, m) {
                None => {},
                Some(d) => {
                    assert(work[d] == Particle::Empty);
                },
            }
        }
    }
}

/// One full pass over a lone-mover state is exactly
/// [`lone_mover_result`]: the single move, or nothing.
pub proof fn lemma_lone_mover_pass(cur: Seq<Particle>, w: int, h: int, m: int)
    requires
        cur.len() == w * h,
        0 < w,
        0 < h,
        0 <= m < cur.len(),
        lone_mover(cur, w, h, m),
    ensures
        sub_step_spec(cur, w, h) == lone_mover_result(cur, w, h, m),
{
    lemma_lone_mover_pass_from(cur, w, h, m, 0);
}

/// A grid holding exactly one `kind` particle, at `(x, y)`, and vacuum
/// everywhere else.
pub open spec fn lone_particle(
    s: Seq<Particle>,
    w: int,
    h: int,
    x: int,
    y: int,
    kind: Particle,
) -> bool {
    &&& s.len() == w * h
    &&& in_bounds(w, h, x, y)
    &&& s[cell_index(w, x, y)] == kind
    &&& forall|j: int|
        0 <= j < s.len() && j != cell_index(w, x, y) ==> s[j] == Particle::Empty
}

/// One pass of gravity on a lone sand particle: with open space below it
/// falls straight down one row; on the bottom row it stays fixed.
pub proof fn lemma_lone_sand_pass(s: Seq<Particle>, w: int, h: int, x: int, y: int)
    requires
        lone_particle(s, w, h, x, y, Particle::Sand),
    ensures
        y + 1 < h ==> lone_particle(sub_step_spec(s, w, h), w, h, x, y + 1, Particle::Sand),
        y + 1 == h ==> sub_step_spec(s, w, h) == s,
{
    let m = cell_index(w, x, y);
    lemma_index_roundtrip(w, h, x, y);
    assert forall|j: int| 0 <= j < s.len() && j != m implies move_target_at(
        s,
        w,
        h,
        j,
    ) is None by {
        lemma_coords_roundtrip(w, h, j);
        assert(s[j] == Particle::Empty);
    }
    if y + 1 < h {
        let d = cell_index(w, x, y + 1);
        lemma_index_roundtrip(w, h, x, y + 1);
        assert(d != m);
        assert(s[d] == Particle::Empty);
        assert(move_target_at(s, w, h, m) == Some(d));
        lemma_lone_mover_pass(s, w, h, m);
        let r = sub_step_spec(s, w, h);
        assert(r == s.update(d, Particle::Sand).update(m, Particle::Empty));
    } else {
        assert(move_target_at(s, w, h, m) is None);
        lemma_lone_mover_pass(s, w, h, m);
    }
}

/// The row a lone sand particle that started at row `y` occupies after `n`
/// passes: it falls one row per pass until it lands on the bottom row.
pub open spec fn fallen_row(h: int, y: int, n: nat) -> int {
    if y + n < h {
        y + n
    } else {
        h - 1
    }
}

/// Gravity termination: a lone sand particle dropped at `(x, y)` over open
/// space falls one row per pass, reaches the bottom row after at most
/// `h - 1` passes, and stays fixed there forever: for every `n` at least
/// `h - 1 - y`, [`fallen_row`] is the bottom row `h - 1`.
pub proof fn lemma_sand_falls(s: Seq<Particle>, w: int, h: int, x: int, y: int, n: nat)
    requires
        lone_particle(s, w, h, x, y, Particle::Sand),
    ensures
        lone_particle(
            sub_steps_spec(s, w, h, n),
            w,
            h,
            x,
            fallen_row(h, y, n),
            Particle::Sand,
        ),
        n >= h - 1 - y ==> fallen_row(h, y, n) == h - 1,
    decreases n,
{
    if n > 0 {
        lemma_sand_falls(s, w, h, x, y, (n - 1) as nat);
        let prev = sub_steps_spec(s, w, h, (n - 1) as nat);
        lemma_lone_sand_pass(prev, w, h, x, fallen_row(h, y, (n - 1) as nat));
    }
}

/// `1` when the cell holds matter, `0` for vacuum.
pub open spec fn occupied(p: Particle) -> int {
    if p == Particle::Empty {
        0
    } else {
        1
    }
}

/// The number of occupied cells among the first `k` cells that lie in rows
/// `0` through `r`.
pub open spec fn count_in_rows(s: Seq<Particle>, w: int, r: int, k: int) -> int
    decreases k,
{
    if k <= 0 {
        0
    } else {
        count_in_rows(s, w, r, k - 1) + (if (k - 1) / w <= r {
            occupied(s[k - 1])
        } else {
            0
        })
    }
}

/// The number of particles in rows `0` through `r` of the grid.
pub open spec fn particles_in_rows(s: Seq<Particle>, w: int, r: int) -> int {
    count_in_rows(s, w, r, s.len() as int)
}

/// How overwriting one cell changes the particle count of the upper rows.
proof fn lemma_count_in_rows_update(
    s: Seq<Particle>,
    w: int,
    r: int,
    k: int,
    j: int,
    v: Particle,
)
    requires
        0 <= j < s.len(),
        k <= s.len(),
    ensures
        count_in_rows(s.update(j, v), w, r, k) == count_in_rows(s, w, r, k) + (if j < k && j / w
            <= r {
            occupied(v) - occupied(s[j])
        } else {
            0
        }),
    decreases k,
{
    if k > 0 {
        lemma_count_in_rows_update(s, w, r, k - 1, j, v);
    }
}

/// Visiting one cell never adds a particle to the upper rows: a committed
/// move goes to the mover's own row or the row below, so matter can leave
/// the rows above any line, but never enter them.
pub proof fn lemma_commit_cell_no_rise(
    cur: Seq<Particle>,
    work: Seq<Particle>,
    w: int,
    h: int,
    i: int,
    r: int,
)
    requires
        cur.len() == w * h,
        work.len() == cur.len(),
        0 < w,
        0 < h,
        0 <= i < cur.len(),
    ensures
        particles_in_rows(commit_cell(cur, work, w, h, i), w, r) <= particles_in_rows(work, w, r),
{
    lemma_coords_roundtrip(w, h, i);
    lemma_move_target_props(cur, w, h, i % w, i / w);
    match move_target_at(cur, w, h, i) {
        None => {},
        Some(d) => {
            if work[d] == Particle::Empty && work[i] == cur[i] {
                let s1 = work.update(d, cur[i]);
                lemma_count_in_rows_update(work, w, r, work.len() as int, d, cur[i]);
                lemma_count_in_rows_update(s1, w, r, s1.len() as int, i, Particle::Empty);
            }
        },
    }
}

/// The tail of a pass never adds a particle to the upper rows.
pub proof fn lemma_pass_from_no_rise(cur: Seq<Particle>, w: int, h: int, k: int, r: int)
    requires
        cur.len() == w * h,
        0 < w,
        0 < h,
        0 <= k,
    ensures
        particles_in_rows(pass_from(cur, w, h, k), w, r) <= particles_in_rows(cur, w, r),
    decreases cur.len() - k,
{
    if k < cur.len() {
        lemma_pass_from_no_rise(cur, w, h, k + 1, r);
        lemma_pass_from_len(cur, w, h, k + 1);
        lemma_commit_cell_no_rise(cur, pass_from(cur, w, h, k + 1), w, h, k, r);
    }
}

/// Any number of passes preserves the size of the grid.
pub proof fn lemma_sub_steps_len(cur: Seq<Particle>, w: int, h: int, n: nat)
    requires
        cur.len() == w * h,
        0 < w,
        0 < h,
    ensures
        sub_steps_spec(cur, w, h, n).len() == cur.len(),
    decreases n,
{
    if n > 0 {
        lemma_sub_steps_len(cur, w, h, (n - 1) as nat);
        lemma_pass_from_len(sub_steps_spec(cur, w, h, (n - 1) as nat), w, h, 0);
    }
}

/// No particle ever moves upward, in any grid: for every row `r`, the
/// number of particles in rows `0` through `r` never increases, however
/// many passes run. Matter only ever falls out of the upper rows or moves
/// sideways within them.
pub proof fn lemma_no_upward_motion(cur: Seq<Particle>, w: int, h: int, n: nat, r: int)
    requires
        cur.len() == w * h,
        0 < w,
        0 < h,
    ensures
        particles_in_rows(sub_steps_spec(cur, w, h, n), w, r) <= particles_in_rows(cur, w, r),
    decreases n,
{
    if n > 0 {
        lemma_no_upward_motion(cur, w, h, (n - 1) as nat, r);
        lemma_sub_steps_len(cur, w, h, (n - 1) as nat);
        lemma_pass_from_no_rise(sub_steps_spec(cur, w, h, (n - 1) as nat), w, h, 0, r);
    }
}

/// A lone water particle at `(x, y)` standing on a full row of wall at
/// `y + 1`, with vacuum in every other non-wall cell.
pub open spec fn water_on_shelf(s: Seq<Particle>, w: int, h: int, x: int, y: int) -> bool {
    &&& s.len() == w * h
    &&& in_bounds(w, h, x, y)
    &&& y + 1 < h
    &&& s[cell_index(w, x, y)] == Particle::Water
    &&& forall|j: int| 0 <= j < s.len() && j / w == y + 1 ==> s[j] == Particle::Wall
    &&& forall|j: int|
        0 <= j < s.len() && j != cell_index(w, x, y) && j / w != y + 1 ==> s[j]
            == Particle::Empty
}

/// The column the shelf water occupies after one pass, under the fixed
/// left-first tie-break: one column to the left while there is one, else
/// one to the right, else — in a single-column grid — where it stands.
pub open spec fn shelf_next(w: int, x: int) -> int {
    if 0 < x {
        x - 1
    } else if 1 < w {
        1
    } else {
        x
    }
}

/// One pass on shelf water: every downward move is walled off, so the
/// water moves exactly one column sideways — never upward, never more than
/// one cell per pass — and the rest of the grid is untouched.
pub proof fn lemma_water_shelf_pass(s: Seq<Particle>, w: int, h: int, x: int, y: int)
    requires
        water_on_shelf(s, w, h, x, y),
    ensures
        water_on_shelf(sub_step_spec(s, w, h), w, h, shelf_next(w, x), y),
{
    let m = cell_index(w, x, y);
    lemma_index_roundtrip(w, h, x, y);
    assert forall|j: int| 0 <= j < s.len() && j != m implies move_target_at(
        s,
        w,
        h,
        j,
    ) is None by {
        lemma_coords_roundtrip(w, h, j);
    }
    // Every downward candidate of the water cell is wall or out of bounds.
    lemma_index_roundtrip(w, h, x, y + 1);
    assert(s[cell_index(w, x, y + 1)] == Particle::Wall);
    if 0 < x {
        lemma_index_roundtrip(w, h, x - 1, y + 1);
        assert(s[cell_index(w, x - 1, y + 1)] == Particle::Wall);
    }
    if x + 1 < w {
        lemma_index_roundtrip(w, h, x + 1, y + 1);
        assert(s[cell_index(w, x + 1, y + 1)] == Particle::Wall);
    }
    assert(sand_target(s, w, h, x, y) is None);
    if 0 < x || 1 < w {
        let nx = shelf_next(w, x);
        let d = cell_index(w, nx, y);
        lemma_index_roundtrip(w, h, nx, y);
        assert(d != m);
        assert(s[d] == Particle::Empty);
        assert(move_target_at(s, w, h, m) == Some(d));
        lemma_lone_mover_pass(s, w, h, m);
        let r = sub_step_spec(s, w, h);
        assert(r == s.update(d, Particle::Water).update(m, Particle::Empty));
        assert forall|j: int| 0 <= j < r.len() && j / w == y + 1 implies r[j]
            == Particle::Wall by {
            lemma_coords_roundtrip(w, h, j);
        }
        assert forall|j: int|
            0 <= j < r.len() && j != d && j / w != y + 1 implies r[j] == Particle::Empty by {
            lemma_coords_roundtrip(w, h, j);
        }
    } else {
        assert(move_target_at(s, w, h, m) is None);
        lemma_lone_mover_pass(s, w, h, m);
    }
}

/// The column the shelf water occupies after `n` passes.
pub open spec fn shelf_column(w: int, x: int, n: nat) -> int
    decreases n,
{
    if n == 0 {
        x
    } else {
        shelf_next(w, shelf_column(w, x, (n - 1) as nat))
    }
}

/// Lateral spreading bound: water on a full wall shelf stays in its row
/// forever — it never moves upward — and after `n` passes sits at
/// [`shelf_column`], which is never more than `n` columns from where it
/// started: at most one column of spread per pass.
pub proof fn lemma_water_spreads(s: Seq<Particle>, w: int, h: int, x: int, y: int, n: nat)
    requires
        water_on_shelf(s, w, h, x, y),
    ensures
        water_on_shelf(sub_steps_spec(s, w, h, n), w, h, shelf_column(w, x, n), y),
        x - n <= shelf_column(w, x, n) <= x + n,
    decreases n,
{
    if n > 0 {
        lemma_water_spreads(s, w, h, x, y, (n - 1) as nat);
        let prev = sub_steps_spec(s, w, h, (n - 1) as nat);
        lemma_water_shelf_pass(prev, w, h, shelf_column(w, x, (n - 1) as nat), y);
    }
}

} // verus!
