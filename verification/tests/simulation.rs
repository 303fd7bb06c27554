use falling_sand::engine::Automaton;
use falling_sand::grid::Grid;
use falling_sand::particle::Particle;

fn count_kind(a: &Automaton, kind: Particle) -> usize {
    let mut n = 0;
    for y in 0..a.height() {
        for x in 0..a.width() {
            if a.get_particle(x, y) == Some(kind) {
                n += 1;
            }
        }
    }
    n
}

fn snapshot(a: &Automaton) -> Vec<Particle> {
    let mut cells = Vec::new();
    for y in 0..a.height() {
        for x in 0..a.width() {
            cells.push(a.get_particle(x, y).unwrap());
        }
    }
    cells
}

#[test]
fn index_bijection_roundtrip() {
    let g: Grid<Particle> = Grid::new(7, 5, Particle::Empty);
    for y in 0..5 {
        for x in 0..7 {
            let i = g.get_index(x, y).unwrap();
            assert_eq!(g.get_coords(i), Some((x, y)));
        }
    }
    for i in 0..35 {
        let (x, y) = g.get_coords(i).unwrap();
        assert_eq!(g.get_index(x, y), Some(i));
    }
}

#[test]
fn index_out_of_bounds_is_none() {
    let g: Grid<Particle> = Grid::new(7, 5, Particle::Empty);
    assert_eq!(g.get_index(7, 0), None);
    assert_eq!(g.get_index(0, 5), None);
    assert_eq!(g.get_index(usize::MAX, usize::MAX), None);
    assert_eq!(g.get_coords(35), None);
    assert_eq!(g.get_coords(usize::MAX), None);
}

#[test]
fn create_starts_all_empty() {
    let a = Automaton::create(4, 3, 1);
    for y in 0..3 {
        for x in 0..4 {
            assert_eq!(a.get_particle(x, y), Some(Particle::Empty));
        }
    }
    assert_eq!(a.get_particle(4, 0), None);
    assert_eq!(a.get_particle(0, 3), None);
}

#[test]
fn set_particle_out_of_bounds_is_a_no_op() {
    let mut a = Automaton::create(4, 3, 1);
    a.set_particle(1, 1, Particle::Sand);
    let before = snapshot(&a);
    a.set_particle(4, 0, Particle::Wall);
    a.set_particle(0, 3, Particle::Wall);
    a.set_particle(usize::MAX, usize::MAX, Particle::Water);
    assert_eq!(snapshot(&a), before);
    assert_eq!(a.get_particle(1, 1), Some(Particle::Sand));
}

#[test]
fn sand_falls_one_row_per_pass_and_rests_on_the_bottom() {
    let mut a = Automaton::create(3, 5, 1);
    a.set_particle(1, 0, Particle::Sand);
    for expected_y in 1..5 {
        a.step();
        assert_eq!(a.get_particle(1, expected_y), Some(Particle::Sand));
        assert_eq!(count_kind(&a, Particle::Sand), 1);
    }
    // On the bottom row the particle is fixed forever.
    for _ in 0..10 {
        a.step();
        assert_eq!(a.get_particle(1, 4), Some(Particle::Sand));
    }
}

#[test]
fn sand_slides_to_the_lower_left_diagonal_first() {
    let mut a = Automaton::create(3, 3, 1);
    a.set_particle(1, 0, Particle::Sand);
    a.set_particle(1, 1, Particle::Wall);
    a.step();
    assert_eq!(a.get_particle(0, 1), Some(Particle::Sand));
    assert_eq!(a.get_particle(1, 0), Some(Particle::Empty));
}

#[test]
fn sand_slides_right_when_left_is_blocked() {
    let mut a = Automaton::create(3, 2, 1);
    a.set_particle(1, 0, Particle::Sand);
    a.set_particle(0, 1, Particle::Wall);
    a.set_particle(1, 1, Particle::Wall);
    a.step();
    assert_eq!(a.get_particle(2, 1), Some(Particle::Sand));
    assert_eq!(a.get_particle(1, 0), Some(Particle::Empty));
}

#[test]
fn sand_stays_when_every_downward_cell_is_blocked() {
    let mut a = Automaton::create(3, 3, 1);
    a.set_particle(1, 1, Particle::Sand);
    a.set_particle(0, 2, Particle::Wall);
    a.set_particle(1, 2, Particle::Wall);
    a.set_particle(2, 2, Particle::Wall);
    let before = snapshot(&a);
    a.step();
    assert_eq!(snapshot(&a), before);
}

#[test]
fn water_spreads_left_first_on_a_wall_shelf() {
    let mut a = Automaton::create(3, 3, 1);
    a.set_particle(1, 1, Particle::Water);
    for x in 0..3 {
        a.set_particle(x, 2, Particle::Wall);
    }
    a.step();
    assert_eq!(a.get_particle(0, 1), Some(Particle::Water));
    assert_eq!(a.get_particle(1, 1), Some(Particle::Empty));
}

#[test]
fn water_on_a_shelf_moves_one_column_per_pass_and_never_upward() {
    let mut a = Automaton::create(5, 3, 1);
    a.set_particle(2, 1, Particle::Water);
    for x in 0..5 {
        a.set_particle(x, 2, Particle::Wall);
    }
    let mut expected_x = 2;
    for _ in 0..8 {
        a.step();
        expected_x = if expected_x > 0 { expected_x - 1 } else { 1 };
        // The water is exactly one column from where it was, still in row 1,
        // and row 0 is untouched.
        assert_eq!(a.get_particle(expected_x, 1), Some(Particle::Water));
        assert_eq!(count_kind(&a, Particle::Water), 1);
        for x in 0..5 {
            assert_eq!(a.get_particle(x, 0), Some(Particle::Empty));
        }
    }
}

#[test]
fn water_at_the_left_edge_moves_right() {
    let mut a = Automaton::create(3, 2, 1);
    a.set_particle(0, 0, Particle::Water);
    for x in 0..3 {
        a.set_particle(x, 1, Particle::Wall);
    }
    a.step();
    assert_eq!(a.get_particle(1, 0), Some(Particle::Water));
}

#[test]
fn empty_and_wall_grid_is_a_fixed_point() {
    let mut a = Automaton::create(6, 4, 3);
    a.set_particle(0, 0, Particle::Wall);
    a.set_particle(3, 2, Particle::Wall);
    a.set_particle(5, 3, Particle::Wall);
    a.set_particle(2, 1, Particle::Wall);
    let before = snapshot(&a);
    for _ in 0..5 {
        a.step();
        assert_eq!(snapshot(&a), before);
    }
}

#[test]
fn a_step_conserves_every_particle_kind() {
    let mut a = Automaton::create(6, 6, 2);
    a.set_particle(0, 0, Particle::Sand);
    a.set_particle(1, 0, Particle::Sand);
    a.set_particle(2, 0, Particle::Water);
    a.set_particle(3, 1, Particle::Water);
    a.set_particle(4, 2, Particle::Sand);
    a.set_particle(2, 4, Particle::Wall);
    a.set_particle(3, 4, Particle::Wall);
    a.set_particle(5, 5, Particle::Water);
    let sand = count_kind(&a, Particle::Sand);
    let water = count_kind(&a, Particle::Water);
    let wall = count_kind(&a, Particle::Wall);
    let empty = count_kind(&a, Particle::Empty);
    for _ in 0..10 {
        a.step();
        assert_eq!(count_kind(&a, Particle::Sand), sand);
        assert_eq!(count_kind(&a, Particle::Water), water);
        assert_eq!(count_kind(&a, Particle::Wall), wall);
        assert_eq!(count_kind(&a, Particle::Empty), empty);
    }
}

#[test]
fn walls_never_move() {
    let mut a = Automaton::create(5, 5, 1);
    a.set_particle(2, 3, Particle::Wall);
    a.set_particle(2, 0, Particle::Sand);
    a.set_particle(1, 0, Particle::Water);
    for _ in 0..12 {
        a.step();
        assert_eq!(a.get_particle(2, 3), Some(Particle::Wall));
        assert_eq!(count_kind(&a, Particle::Wall), 1);
    }
}

#[test]
fn updates_per_tick_runs_that_many_passes() {
    let mut a = Automaton::create(3, 5, 2);
    a.set_particle(1, 0, Particle::Sand);
    a.step();
    assert_eq!(a.get_particle(1, 2), Some(Particle::Sand));
}

#[test]
fn sand_displaces_nothing_but_vacuum() {
    // A sand grain directly above water does not move: water is not vacuum.
    let mut a = Automaton::create(1, 3, 1);
    a.set_particle(0, 1, Particle::Sand);
    a.set_particle(0, 2, Particle::Water);
    a.step();
    assert_eq!(a.get_particle(0, 1), Some(Particle::Sand));
    assert_eq!(a.get_particle(0, 2), Some(Particle::Water));
}

#[test]
fn color_mapping_is_fixed_per_kind() {
    assert_eq!(Particle::Empty.color(), None);
    assert_eq!(Particle::Sand.color(), Some((0xc2, 0xb2, 0x80)));
    assert_eq!(Particle::Water.color(), Some((0x3a, 0x75, 0xc4)));
    assert_eq!(Particle::Wall.color(), Some((0x88, 0x88, 0x88)));
}

#[test]
fn default_particle_is_empty() {
    assert_eq!(Particle::default(), Particle::Empty);
}

#[test]
fn cloned_grid_is_independent_of_the_original() {
    let g: Grid<Particle> = Grid::new(2, 2, Particle::Empty);
    let mut copy = g.clone();
    copy.set(0, Particle::Wall);
    assert_eq!(g.get(0), Particle::Empty);
    assert_eq!(copy.get(0), Particle::Wall);
    assert_eq!(g.width(), copy.width());
    assert_eq!(g.height(), copy.height());
    assert_eq!(g.len(), 4);
}
