use evolution::geometry::{
    bearing_to, gap, moves_between, numbered_cell, step_ahead, Heading, Location,
};
use evolution::markers::{holds_marker, place_marker, replenish, take_marker};

fn at(x: usize, y: usize) -> Location {
    Location { x, y }
}

#[test]
fn quarter_turns() {
    assert_eq!(Heading::North.left(), Heading::West);
    assert_eq!(Heading::West.left(), Heading::South);
    assert_eq!(Heading::South.left(), Heading::East);
    assert_eq!(Heading::East.left(), Heading::North);
    assert_eq!(Heading::North.right(), Heading::East);
    assert_eq!(Heading::East.right(), Heading::South);
    assert_eq!(Heading::South.right(), Heading::West);
    assert_eq!(Heading::West.right(), Heading::North);
    for h in [Heading::North, Heading::East, Heading::South, Heading::West] {
        assert_eq!(h.left().right(), h);
        assert_eq!(h.right().left(), h);
        assert_eq!(h.left().left().left().left(), h);
    }
    assert_eq!(Heading::from_draw(0), Heading::North);
    assert_eq!(Heading::from_draw(1), Heading::East);
    assert_eq!(Heading::from_draw(2), Heading::South);
    assert_eq!(Heading::from_draw(3), Heading::West);
}

#[test]
fn the_cell_ahead() {
    assert_eq!(step_ahead(at(5, 5), Heading::North, 10), Some(at(5, 4)));
    assert_eq!(step_ahead(at(5, 5), Heading::South, 10), Some(at(5, 6)));
    assert_eq!(step_ahead(at(5, 5), Heading::East, 10), Some(at(6, 5)));
    assert_eq!(step_ahead(at(5, 5), Heading::West, 10), Some(at(4, 5)));
}

#[test]
fn no_cell_ahead_at_the_edge() {
    assert_eq!(step_ahead(at(0, 0), Heading::North, 10), None);
    assert_eq!(step_ahead(at(0, 0), Heading::West, 10), None);
    assert_eq!(step_ahead(at(9, 9), Heading::South, 10), None);
    assert_eq!(step_ahead(at(9, 9), Heading::East, 10), None);
    assert_eq!(step_ahead(at(0, 0), Heading::South, 1), None);
    assert_eq!(step_ahead(at(9, 3), Heading::West, 10), Some(at(8, 3)));
    assert_eq!(step_ahead(at(usize::MAX, 0), Heading::East, 10), None);
    assert_eq!(step_ahead(at(0, usize::MAX), Heading::South, 10), None);
}

#[test]
fn distances_count_moves() {
    assert_eq!(gap(3, 7), 4);
    assert_eq!(gap(7, 3), 4);
    assert_eq!(gap(0, 0), 0);
    assert_eq!(moves_between(at(5, 5), at(5, 5)), 0);
    assert_eq!(moves_between(at(5, 5), at(5, 6)), 1);
    assert_eq!(moves_between(at(0, 0), at(9, 9)), 18);
    assert_eq!(moves_between(at(2, 7), at(6, 1)), 10);
    assert_eq!(moves_between(at(6, 1), at(2, 7)), 10);
}

#[test]
fn bearings_along_the_axes() {
    let me = at(5, 5);
    assert_eq!(bearing_to(Heading::South, me, at(5, 6)), 0);
    assert_eq!(bearing_to(Heading::South, me, at(5, 2)), 1000);
    assert_eq!(bearing_to(Heading::South, me, at(2, 5)), 500);
    assert_eq!(bearing_to(Heading::South, me, at(9, 5)), -500);
    assert_eq!(bearing_to(Heading::North, me, at(5, 0)), 0);
    assert_eq!(bearing_to(Heading::North, me, at(9, 5)), 500);
    assert_eq!(bearing_to(Heading::North, me, at(0, 5)), -500);
    assert_eq!(bearing_to(Heading::North, me, at(5, 9)), 1000);
    assert_eq!(bearing_to(Heading::East, me, at(9, 5)), 0);
    assert_eq!(bearing_to(Heading::East, me, at(5, 9)), 500);
    assert_eq!(bearing_to(Heading::West, me, at(5, 9)), -500);
    assert_eq!(bearing_to(Heading::West, me, me), 0);
}

#[test]
fn bearings_between_the_axes() {
    let me = at(5, 5);
    // one ahead, one to the right: half of a right angle
    assert_eq!(bearing_to(Heading::North, me, at(6, 4)), 250);
    assert_eq!(bearing_to(Heading::North, me, at(4, 4)), -250);
    // one behind, one to the right
    assert_eq!(bearing_to(Heading::North, me, at(6, 6)), 750);
    assert_eq!(bearing_to(Heading::North, me, at(4, 6)), -750);
    // three ahead, one to the right: 1000 / 8
    assert_eq!(bearing_to(Heading::North, me, at(6, 2)), 125);
    // one ahead, two to the right: 2000 / 6
    assert_eq!(bearing_to(Heading::East, me, at(6, 7)), 333);
    for x in 0..12 {
        for y in 0..12 {
            for h in [Heading::North, Heading::East, Heading::South, Heading::West] {
                let b = bearing_to(h, me, at(x, y));
                assert!((-1000..=1000).contains(&b));
            }
        }
    }
}

#[test]
fn cells_counted_row_by_row() {
    assert_eq!(numbered_cell(0, 10), at(0, 0));
    assert_eq!(numbered_cell(9, 10), at(9, 0));
    assert_eq!(numbered_cell(10, 10), at(0, 1));
    assert_eq!(numbered_cell(56, 10), at(6, 5));
    assert_eq!(numbered_cell(99, 10), at(9, 9));
    assert_eq!(numbered_cell(0, 1), at(0, 0));
}

#[test]
fn markers_are_kept_as_a_set() {
    let mut cells = Vec::new();
    assert!(place_marker(&mut cells, at(1, 2)));
    assert!(place_marker(&mut cells, at(3, 4)));
    assert!(!place_marker(&mut cells, at(1, 2)));
    assert_eq!(cells, vec![at(1, 2), at(3, 4)]);
    assert!(holds_marker(&cells, at(3, 4)));
    assert!(!holds_marker(&cells, at(4, 3)));
    assert!(take_marker(&mut cells, at(1, 2)));
    assert!(!take_marker(&mut cells, at(1, 2)));
    assert_eq!(cells, vec![at(3, 4)]);
    assert!(!holds_marker(&cells, at(1, 2)));
}

#[test]
fn replenishment_stops_at_the_target() {
    let mut cells = Vec::new();
    replenish(&mut cells, 2, at(0, 0));
    replenish(&mut cells, 2, at(0, 0));
    assert_eq!(cells, vec![at(0, 0)]);
    replenish(&mut cells, 2, at(1, 0));
    assert_eq!(cells, vec![at(0, 0), at(1, 0)]);
    replenish(&mut cells, 2, at(2, 0));
    assert_eq!(cells, vec![at(0, 0), at(1, 0)]);
    let mut none = Vec::new();
    replenish(&mut none, 0, at(5, 5));
    assert!(none.is_empty());
}
