use game_of_life::Cell;
use game_of_life::Universe;

fn blank(width: u32, height: u32) -> Universe {
    let mut universe = Universe::new();
    universe.set_width(width);
    universe.set_height(height);
    universe
}

fn alive(universe: &Universe, row: u32, column: u32) -> bool {
    universe.get_cells()[universe.get_index(row, column)]
}

fn live_cells(universe: &Universe) -> Vec<(u32, u32)> {
    let mut found = Vec::new();
    for row in 0..universe.height() {
        for column in 0..universe.width() {
            if alive(universe, row, column) {
                found.push((row, column));
            }
        }
    }
    found
}

#[test]
fn new_is_64_by_64() {
    let universe = Universe::new();
    assert_eq!(universe.width(), 64);
    assert_eq!(universe.height(), 64);
    assert_eq!(universe.get_cells().len(), 64 * 64);
}

#[test]
fn new_holds_the_starting_pattern() {
    let universe = Universe::new();
    let cells = universe.get_cells();
    for i in 0..64 * 64 {
        assert_eq!(cells[i], i % 2 == 0 || i % 7 == 0, "cell {}", i);
    }
    assert_eq!(cells.count_ones(..), 2341);
    assert!(cells[0]);
    assert!(!cells[1]);
    assert!(cells[7]);
    assert!(cells[21]);
    assert!(!cells[23]);
}

#[test]
fn cell_states_are_distinct() {
    assert_ne!(Cell::Dead, Cell::Alive);
    assert_eq!(Cell::Alive, Cell::Alive.clone());
    assert_eq!(format!("{:?}", Cell::Dead), "Dead");
}

#[test]
fn get_index_is_row_major() {
    let universe = blank(5, 7);
    assert_eq!(universe.get_index(0, 0), 0);
    assert_eq!(universe.get_index(0, 4), 4);
    assert_eq!(universe.get_index(1, 0), 5);
    assert_eq!(universe.get_index(2, 3), 13);
    assert_eq!(universe.get_index(6, 4), 34);
}

#[test]
fn get_index_covers_every_place_once() {
    let universe = blank(5, 7);
    let mut seen = vec![false; 35];
    for row in 0..7 {
        for column in 0..5 {
            let index = universe.get_index(row, column);
            assert!(index < 35);
            assert!(!seen[index], "place {} reached twice", index);
            seen[index] = true;
        }
    }
    assert!(seen.iter().all(|&s| s));
}

#[test]
fn set_width_resets_every_cell() {
    let mut universe = Universe::new();
    assert!(universe.get_cells().count_ones(..) > 0);
    universe.set_width(10);
    assert_eq!(universe.width(), 10);
    assert_eq!(universe.height(), 64);
    assert_eq!(universe.get_cells().len(), 640);
    assert_eq!(universe.get_cells().count_ones(..), 0);
    assert!(live_cells(&universe).is_empty());
}

#[test]
fn set_height_resets_every_cell() {
    let mut universe = Universe::new();
    universe.set_height(3);
    assert_eq!(universe.width(), 64);
    assert_eq!(universe.height(), 3);
    assert_eq!(universe.get_cells().len(), 192);
    assert_eq!(universe.get_cells().count_ones(..), 0);
}

#[test]
fn set_width_to_the_same_width_still_resets() {
    let mut universe = Universe::new();
    universe.set_width(64);
    assert_eq!(universe.get_cells().len(), 4096);
    assert_eq!(universe.get_cells().count_ones(..), 0);
}

#[test]
fn set_width_zero_leaves_no_cell() {
    let mut universe = Universe::new();
    universe.set_width(0);
    assert_eq!(universe.width(), 0);
    assert_eq!(universe.get_cells().len(), 0);
    universe.tick();
    assert_eq!(universe.get_cells().len(), 0);
}

#[test]
fn clear_kills_every_cell_and_keeps_the_size() {
    let mut universe = Universe::new();
    universe.clear();
    assert_eq!(universe.width(), 64);
    assert_eq!(universe.height(), 64);
    assert_eq!(universe.get_cells().len(), 4096);
    assert_eq!(universe.get_cells().count_ones(..), 0);
}

#[test]
fn set_cells_makes_exactly_the_listed_cells_alive() {
    let mut universe = blank(8, 6);
    universe.set_cells(&[(2, 3), (4, 5)]);
    assert_eq!(live_cells(&universe), vec![(2, 3), (4, 5)]);
}

#[test]
fn set_cells_keeps_what_was_alive() {
    let mut universe = blank(8, 6);
    universe.set_cells(&[(0, 0), (5, 7)]);
    universe.set_cells(&[(2, 3), (0, 0)]);
    assert_eq!(live_cells(&universe), vec![(0, 0), (2, 3), (5, 7)]);
}

#[test]
fn set_cells_of_nothing_changes_nothing() {
    let mut universe = Universe::new();
    universe.set_cells(&[]);
    assert_eq!(universe.get_cells().count_ones(..), 2341);
}

#[test]
fn toggle_cell_flips_one_cell() {
    let mut universe = blank(4, 4);
    universe.toggle_cell(1, 2);
    assert_eq!(live_cells(&universe), vec![(1, 2)]);
    universe.toggle_cell(3, 0);
    assert_eq!(live_cells(&universe), vec![(1, 2), (3, 0)]);
    universe.toggle_cell(1, 2);
    assert_eq!(live_cells(&universe), vec![(3, 0)]);
}

#[test]
fn clear_cells_kills_a_half_open_rectangle() {
    let mut universe = blank(6, 6);
    let mut everywhere = Vec::new();
    for row in 0..6 {
        for column in 0..6 {
            everywhere.push((row, column));
        }
    }
    universe.set_cells(&everywhere);
    universe.clear_cells((1, 2), (3, 5));
    for row in 0..6 {
        for column in 0..6 {
            let inside = (1..3).contains(&row) && (2..5).contains(&column);
            assert_eq!(alive(&universe, row, column), !inside, "({}, {})", row, column);
        }
    }
    assert_eq!(universe.get_cells().count_ones(..), 36 - 6);
}

#[test]
fn clear_cells_of_an_empty_rectangle_changes_nothing() {
    let mut universe = Universe::new();
    universe.clear_cells((5, 5), (5, 9));
    universe.clear_cells((7, 3), (2, 9));
    universe.clear_cells((2, 9), (7, 3));
    assert_eq!(universe.get_cells().count_ones(..), 2341);
}

#[test]
fn random_takes_each_cell_from_its_draw() {
    let mut universe = blank(5, 3);
    let draws: Vec<bool> = (0..15).map(|i| i % 3 == 1).collect();
    universe.random(&draws);
    assert_eq!(universe.width(), 5);
    assert_eq!(universe.height(), 3);
    for i in 0..15 {
        assert_eq!(universe.get_cells()[i], i % 3 == 1);
    }
    assert_eq!(live_cells(&universe), vec![(0, 1), (0, 4), (1, 2), (2, 0), (2, 3)]);
}

#[test]
fn random_replaces_the_old_cells() {
    let mut universe = Universe::new();
    universe.random(&vec![false; 4096]);
    assert_eq!(universe.get_cells().count_ones(..), 0);
    universe.random(&vec![true; 4096]);
    assert_eq!(universe.get_cells().count_ones(..), 4096);
}

#[test]
fn cells_are_packed_into_32_bit_blocks() {
    let mut universe = blank(10, 7);
    universe.set_cells(&[(0, 0), (0, 1), (3, 1), (3, 2), (6, 9)]);
    let blocks = universe.cells();
    assert_eq!(blocks.len(), 3);
    assert_eq!(blocks[0], 0b11 | (1 << 31));
    assert_eq!(blocks[1], 1);
    assert_eq!(blocks[2], 1 << 5);
}

#[test]
fn cells_blocks_match_every_cell() {
    let universe = Universe::new();
    let blocks = universe.cells();
    assert_eq!(blocks.len(), 128);
    for i in 0..4096usize {
        let bit = (blocks[i / 32] >> (i % 32)) & 1 == 1;
        assert_eq!(bit, i % 2 == 0 || i % 7 == 0);
    }
}

#[test]
fn cells_of_a_partly_filled_last_block() {
    let universe = blank(3, 11);
    assert_eq!(universe.cells().len(), 2);
    let universe = blank(8, 4);
    assert_eq!(universe.cells().len(), 1);
    let universe = blank(0, 4);
    assert_eq!(universe.cells().len(), 0);
}
