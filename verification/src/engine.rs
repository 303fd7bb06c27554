//! The automaton engine: per-particle transition rules and the
//! double-buffered update pass.
//!
//! One sub-step clones the current grid into a working buffer, then visits
//! every cell of the *current* grid in reverse linear order (last cell first,
//! so that matter falling toward higher row indices is settled before the
//! cells above it are considered). Each visit decides a move by reading the
//! untouched current grid only, and commits it into the working buffer. A
//! move commits only when, in the working buffer, the destination is still
//! empty and the source still holds the mover; a commit is therefore always a
//! swap of an occupied cell with an empty one, so a pass permutes cell
//! contents and can neither create nor destroy particles. After the full
//! traversal the working buffer atomically replaces the current grid.
//!
//! Tie-break order is fixed and documented here once: straight down first,
//! then the lower-left diagonal, then the lower-right diagonal, and — for
//! water only — left at the same height, then right. An out-of-bounds
//! neighbor is treated exactly like an occupied one: blocked, never an error.

use crate::grid::{cell_index, in_bounds, lemma_index_roundtrip, Grid};
use crate::particle::Particle;
use vstd::prelude::*;

verus! {

/// Whether `(x, y)` is in bounds and holds `Empty` in state `s` of a
/// `w` by `h` grid: the one condition under which a particle may move there.
pub open spec fn empty_at(s: Seq<Particle>, w: int, h: int, x: int, y: int) -> bool {
    in_bounds(w, h, x, y) && s[cell_index(w, x, y)] == Particle::Empty
}

/// Where a sand particle at `(x, y)` moves, reading state `s`: straight
/// down if that cell is open, else the lower-left diagonal, else the
/// lower-right diagonal, else nowhere.
pub open spec fn sand_target(s: Seq<Particle>, w: int, h: int, x: int, y: int) -> Option<int> {
    if empty_at(s, w, h, x, y + 1) {
        Some(cell_index(w, x, y + 1))
    } else if empty_at(s, w, h, x - 1, y + 1) {
        Some(cell_index(w, x - 1, y + 1))
    } else if empty_at(s, w, h, x + 1, y + 1) {
        Some(cell_index(w, x + 1, y + 1))
    } else {
        None
    }
}

/// Where a water particle at `(x, y)` moves, reading state `s`: the same
/// downward cascade as sand, and otherwise left at the same height, else
/// right at the same height, else nowhere.
pub open spec fn water_target(s: Seq<Particle>, w: int, h: int, x: int, y: int) -> Option<int> {
    if sand_target(s, w, h, x, y) is Some {
        sand_target(s, w, h, x, y)
    } else if empty_at(s, w, h, x - 1, y) {
        Some(cell_index(w, x - 1, y))
    } else if empty_at(s, w, h, x + 1, y) {
        Some(cell_index(w, x + 1, y))
    } else {
        None
    }
}

/// Where the particle at `(x, y)` moves, reading state `s`. `Empty` and
/// `Wall` never move.
pub open spec fn move_target(s: Seq<Particle>, w: int, h: int, x: int, y: int) -> Option<int> {
    match s[cell_index(w, x, y)] {
        Particle::Empty => None,
        Particle::Wall => None,
        Particle::Sand => sand_target(s, w, h, x, y),
        Particle::Water => water_target(s, w, h, x, y),
    }
}

/// [`move_target`] addressed by linear index instead of coordinates.
pub open spec fn move_target_at(s: Seq<Particle>, w: int, h: int, i: int) -> Option<int> {
    move_target(s, w, h, i % w, i / w)
}

/// One cell's visit during a pass: `cur` is the read-only pre-step state,
/// `work` the working buffer, `i` the visited cell. If the particle at `i`
/// has a move target that is still empty in the working buffer, and the
/// source still holds the mover, the move commits as a swap; otherwise the
/// working buffer is left unchanged.
pub open spec fn commit_cell(
    cur: Seq<Particle>,
    work: Seq<Particle>,
    w: int,
    h: int,
    i: int,
) -> Seq<Particle> {
    match move_target_at(cur, w, h, i) {
        None => work,
        Some(d) => if work[d] == Particle::Empty && work[i] == cur[i] {
            work.update(d, cur[i]).update(i, Particle::Empty)
        } else {
            work
        },
    }
}

/// The working buffer after the pass has visited cells `cur.len() - 1`
/// down through `k`, starting from a working buffer equal to `cur`.
pub open spec fn pass_from(cur: Seq<Particle>, w: int, h: int, k: int) -> Seq<Particle>
    decreases cur.len() - k,
{
    if k >= cur.len() {
        cur
    } else {
        commit_cell(cur, pass_from(cur, w, h, k + 1), w, h, k)
    }
}

/// One full update pass over a `w` by `h` state: every cell visited once,
/// in reverse linear order.
pub open spec fn sub_step_spec(cur: Seq<Particle>, w: int, h: int) -> Seq<Particle> {
    pass_from(cur, w, h, 0)
}

/// `n` consecutive update passes.
pub open spec fn sub_steps_spec(cur: Seq<Particle>, w: int, h: int, n: nat) -> Seq<Particle>
    decreases n,
{
    if n == 0 {
        cur
    } else {
        sub_step_spec(sub_steps_spec(cur, w, h, (n - 1) as nat), w, h)
    }
}

/// Probes one neighbor cell: its linear index when `(x, y)` is in bounds
/// and holds `Empty` in `cur`, and `None` otherwise — out of bounds reads
/// as blocked, exactly like an occupied cell.
fn probe(cur: &Grid<Particle>, x: usize, y: usize) -> (r: Option<usize>)
    requires
        cur.wf(),
    ensures
        r is Some <==> empty_at(cur@, cur.width() as int, cur.height() as int, x as int, y as int),
        r matches Some(i) ==> i == cell_index(cur.width() as int, x as int, y as int)
            && i < cur@.len(),
{
    match cur.get_index(x, y) {
        Some(i) => if cur.get(i) == Particle::Empty {
            Some(i)
        } else {
            None
        },
        None => None,
    }
}

impl Particle {
    /// One cell's transition: `self` is the particle at `(x, y)` of the
    /// read-only pre-step grid `cur`, and the move, if any, is committed
    /// into the working buffer `next`. `Empty` and `Wall` are no-ops; sand
    /// and water follow the fixed cascade of [`move_target`].
    pub fn update(self, x: usize, y: usize, cur: &Grid<Particle>, next: &mut Grid<Particle>)
        requires
            cur.wf(),
            old(next).wf(),
            old(next).width() == cur.width(),
            old(next).height() == cur.height(),
            x < cur.width(),
            y < cur.height(),
            cur@[cell_index(cur.width() as int, x as int, y as int)] == self,
        ensures
            final(next).wf(),
            final(next).width() == cur.width(),
            final(next).height() == cur.height(),
            final(next)@ == commit_cell(
                cur@,
                old(next)@,
                cur.width() as int,
                cur.height() as int,
                cell_index(cur.width() as int, x as int, y as int),
            ),
    {
        proof {
            lemma_index_roundtrip(cur.width() as int, cur.height() as int, x as int, y as int);
        }
        let cand: Option<usize> = match self {
            Particle::Empty => None,
            Particle::Wall => None,
            Particle::Sand => {
                let mut c = probe(cur, x, y + 1);
                if c.is_none() && x > 0 {
                    c = probe(cur, x - 1, y + 1);
                }
                if c.is_none() {
                    c = probe(cur, x + 1, y + 1);
                }
                c
            },
            Particle::Water => {
                let mut c = probe(cur, x, y + 1);
                if c.is_none() && x > 0 {
                    c = probe(cur, x - 1, y + 1);
                }
                if c.is_none() {
                    c = probe(cur, x + 1, y + 1);
                }
                if c.is_none() && x > 0 {
                    c = probe(cur, x - 1, y);
                }
                if c.is_none() {
                    c = probe(cur, x + 1, y);
                }
                c
            },
        };
        match cand {
            None => {},
            Some(d) => {
                let i = y * cur.width() + x;
                if next.get(d) == Particle::Empty && next.get(i) == self {
                    next.set(d, self);
                    next.set(i, Particle::Empty);
                }
            },
        }
    }
}

/// The simulation handle: the sole live grid, plus the configured number of
/// update passes that one call of [`Automaton::step`] performs.
pub struct Automaton {
    /// The current grid; replaced wholesale at the end of every pass.
    pub grid: Grid<Particle>,
    /// How many update passes one [`Automaton::step`] call runs; fixed at
    /// creation, always at least one.
    pub updates_per_tick: usize,
}

impl Automaton {
    /// The automaton's structural invariant: a well-formed grid and a
    /// positive pass count.
    pub open spec fn wf(&self) -> bool {
        self.grid.wf() && 1 <= self.updates_per_tick
    }

    /// The current cell contents, row-major.
    pub open spec fn cells(&self) -> Seq<Particle> {
        self.grid@
    }

    /// The number of columns.
    pub open spec fn spec_width(&self) -> usize {
        self.grid.width
    }

    /// The number of rows.
    pub open spec fn spec_height(&self) -> usize {
        self.grid.height
    }

    /// The number of columns.
    #[verifier::when_used_as_spec(spec_width)]
    pub fn width(&self) -> (w: usize)
        ensures
            w == self.spec_width(),
    {
        self.grid.width()
    }

    /// The number of rows.
    #[verifier::when_used_as_spec(spec_height)]
    pub fn height(&self) -> (h: usize)
        ensures
            h == self.spec_height(),
    {
        self.grid.height()
    }

    /// A fresh automaton over an all-`Empty` grid of the given size, running
    /// `updates_per_tick` update passes per step.
    pub fn create(width: usize, height: usize, updates_per_tick: usize) -> (a: Automaton)
        requires
            0 < width,
            0 < height,
            width * height <= usize::MAX,
            0 < updates_per_tick,
        ensures
            a.wf(),
            a.width() == width,
            a.height() == height,
            a.updates_per_tick == updates_per_tick,
            a.cells() == Seq::new((width * height) as nat, |i: int| Particle::Empty),
    {
        Automaton { grid: Grid::new(width, height, Particle::Empty), updates_per_tick }
    }

    /// Paints or erases one cell, as the external painting interface does.
    /// An out-of-bounds coordinate is a no-op, not an error: the grid is
    /// unchanged afterward.
    pub fn set_particle(&mut self, x: usize, y: usize, kind: Particle)
        requires
            old(self).wf(),
        ensures
            final(self).wf(),
            final(self).width() == old(self).width(),
            final(self).height() == old(self).height(),
            final(self).updates_per_tick == old(self).updates_per_tick,
            in_bounds(old(self).width() as int, old(self).height() as int, x as int, y as int)
                ==> final(self).cells() == old(self).cells().update(
                cell_index(old(self).width() as int, x as int, y as int),
                kind,
            ),
            !in_bounds(old(self).width() as int, old(self).height() as int, x as int, y as int)
                ==> final(self).cells() == old(self).cells(),
    {
        match self.grid.get_index(x, y) {
            Some(i) => self.grid.set(i, kind),
            None => {},
        }
    }

    /// The particle at `(x, y)`, or `None` when the coordinate is out of
    /// bounds — the read half of the rendering interface.
    pub fn get_particle(&self, x: usize, y: usize) -> (r: Option<Particle>)
        requires
            self.wf(),
        ensures
            in_bounds(self.width() as int, self.height() as int, x as int, y as int) ==> r
                == Some(self.cells()[cell_index(self.width() as int, x as int, y as int)]),
            !in_bounds(self.width() as int, self.height() as int, x as int, y as int) ==> r is None,
    {
        match self.grid.get_index(x, y) {
            Some(i) => Some(self.grid.get(i)),
            None => None,
        }
    }

    /// One update pass: clones the current grid into a working buffer,
    /// visits every cell of the current grid in reverse linear order,
    /// commits the moves into the working buffer, and installs the working
    /// buffer as the new current grid.
    pub fn sub_step(&mut self)
        requires
            old(self).wf(),
        ensures
            final(self).wf(),
            final(self).width() == old(self).width(),
            final(self).height() == old(self).height(),
            final(self).updates_per_tick == old(self).updates_per_tick,
            final(self).cells() == sub_step_spec(
                old(self).cells(),
                old(self).width() as int,
                old(self).height() as int,
            ),
    {
        let ghost cur0 = self.grid@;
        let ghost w = self.grid.width() as int;
        let ghost h = self.grid.height() as int;
        let mut working = self.grid.clone();
        let mut i: usize = self.grid.len();
        while i > 0
            invariant
                self.grid.wf(),
                self.grid@ == cur0,
                self.grid.width() as int == w,
                self.grid.height() as int == h,
                self.updates_per_tick == old(self).updates_per_tick,
                working.wf(),
                working.width() == self.grid.width(),
                working.height() == self.grid.height(),
                i <= cur0.len(),
                working@ == pass_from(cur0, w, h, i as int),
            decreases i,
        {
            i = i - 1;
            let xy = self.grid.get_coords(i).unwrap();
            let p = self.grid.get(i);
            p.update(xy.0, xy.1, &self.grid, &mut working);
        }
        self.grid = working;
    }

    /// One simulation step: the configured number of update passes, run
    /// back to back; the grid visible afterward is the fully committed
    /// result of the last pass.
    pub fn step(&mut self)
        requires
            old(self).wf(),
        ensures
            final(self).wf(),
            final(self).width() == old(self).width(),
            final(self).height() == old(self).height(),
            final(self).updates_per_tick == old(self).updates_per_tick,
            final(self).cells() == sub_steps_spec(
                old(self).cells(),
                old(self).width() as int,
                old(self).height() as int,
                old(self).updates_per_tick as nat,
            ),
    {
        let ghost cur0 = self.grid@;
        let ghost w = self.grid.width() as int;
        let ghost h = self.grid.height() as int;
        let ups = self.updates_per_tick;
        let mut k: usize = 0;
        while k < ups
            invariant
                self.wf(),
                self.grid.width() as int == w,
                self.grid.height() as int == h,
                self.updates_per_tick == old(self).updates_per_tick,
                ups == old(self).updates_per_tick,
                k <= ups,
                self.grid@ == sub_steps_spec(cur0, w, h, k as nat),
            decreases ups - k,
        {
            self.sub_step();
            k = k + 1;
        }
    }
}

} // verus!
