use game_of_life::Universe;

fn sized(width: u32, height: u32) -> Universe {
    let mut universe = Universe::new();
    universe.set_width(width);
    universe.set_height(height);
    universe
}

fn state(universe: &Universe, row: u32, column: u32) -> bool {
    universe.get_cells()[universe.get_index(row, column)]
}

fn alive_cells(universe: &Universe) -> Vec<(u32, u32)> {
    let mut found = Vec::new();
    for row in 0..universe.height() {
        for column in 0..universe.width() {
            if state(universe, row, column) {
                found.push((row, column));
            }
        }
    }
    found
}

fn pulsar_at(row: i64, column: i64) -> Vec<(u32, u32)> {
    let quadrant: [(i64, i64); 12] = [
        (-6, -2),
        (-6, -3),
        (-6, -4),
        (-4, -6),
        (-3, -6),
        (-2, -6),
        (-4, -1),
        (-3, -1),
        (-2, -1),
        (-1, -2),
        (-1, -3),
        (-1, -4),
    ];
    let mut cells = Vec::new();
    for &(dr, dc) in quadrant.iter() {
        for (sr, sc) in [(1, 1), (1, -1), (-1, 1), (-1, -1)] {
            cells.push(((row + sr * dr) as u32, (column + sc * dc) as u32));
        }
    }
    cells.sort();
    cells
}

#[test]
fn glider_in_a_blank_grid() {
    let mut universe = sized(20, 20);
    universe.insert_glider(10, 10);
    assert_eq!(alive_cells(&universe), vec![(9, 11), (10, 9), (10, 11), (11, 10), (11, 11)]);
    for row in 8..12 {
        for column in 8..12 {
            let expected = [(10, 9), (9, 11), (10, 11), (11, 10), (11, 11)].contains(&(row, column));
            assert_eq!(state(&universe, row, column), expected, "({}, {})", row, column);
        }
    }
}

#[test]
fn glider_clears_its_square_and_nothing_else() {
    let mut universe = sized(20, 20);
    universe.random(&vec![true; 400]);
    universe.insert_glider(10, 10);
    for row in 0..20u32 {
        for column in 0..20u32 {
            let inside = (8..12).contains(&row) && (8..12).contains(&column);
            let expected = if inside {
                [(10, 9), (9, 11), (10, 11), (11, 10), (11, 11)].contains(&(row, column))
            } else {
                true
            };
            assert_eq!(state(&universe, row, column), expected, "({}, {})", row, column);
        }
    }
    assert_eq!(universe.get_cells().count_ones(..), 400 - 16 + 5);
}

#[test]
fn glider_in_the_corner_that_just_fits() {
    let mut universe = sized(4, 4);
    universe.insert_glider(2, 2);
    assert_eq!(alive_cells(&universe), vec![(1, 3), (2, 1), (2, 3), (3, 2), (3, 3)]);
}

#[test]
fn glider_moves_one_cell_down_and_right_in_four_generations() {
    let mut universe = sized(20, 20);
    universe.insert_glider(10, 10);
    universe.tick();
    assert_eq!(alive_cells(&universe), vec![(9, 10), (10, 11), (10, 12), (11, 10), (11, 11)]);
    universe.tick();
    assert_eq!(alive_cells(&universe), vec![(9, 11), (10, 12), (11, 10), (11, 11), (11, 12)]);
    universe.tick();
    assert_eq!(alive_cells(&universe), vec![(10, 10), (10, 12), (11, 11), (11, 12), (12, 11)]);
    universe.tick();
    assert_eq!(alive_cells(&universe), vec![(10, 12), (11, 10), (11, 12), (12, 11), (12, 12)]);
}

#[test]
fn pulsar_in_a_blank_grid() {
    let mut universe = sized(20, 20);
    universe.insert_pulsar(10, 10);
    assert_eq!(universe.get_cells().count_ones(..), 48);
    assert_eq!(alive_cells(&universe), pulsar_at(10, 10));
    assert!(state(&universe, 4, 8));
    assert!(state(&universe, 4, 6));
    assert!(state(&universe, 16, 14));
    assert!(state(&universe, 9, 8));
    assert!(state(&universe, 12, 11));
    assert!(!state(&universe, 10, 10));
    assert!(!state(&universe, 9, 9));
    assert!(!state(&universe, 5, 5));
}

#[test]
fn pulsar_clears_its_square_and_nothing_else() {
    let mut universe = sized(16, 15);
    universe.random(&vec![true; 240]);
    universe.insert_pulsar(7, 8);
    let pulsar = pulsar_at(7, 8);
    for row in 0..15u32 {
        for column in 0..16u32 {
            let inside = row < 14 && (1..15).contains(&column);
            let expected = if inside { pulsar.contains(&(row, column)) } else { true };
            assert_eq!(state(&universe, row, column), expected, "({}, {})", row, column);
        }
    }
    assert_eq!(universe.get_cells().count_ones(..), 240 - 14 * 14 + 48);
}

#[test]
fn pulsar_is_mirrored_in_its_centre_row_and_column() {
    let mut universe = sized(20, 20);
    universe.insert_pulsar(10, 10);
    for dr in 0..7u32 {
        for dc in 0..7u32 {
            let here = state(&universe, 10 - dr, 10 - dc);
            if dr < 7 && dc < 7 && 10 + dr < 17 && 10 + dc < 17 {
                assert_eq!(state(&universe, 10 + dr, 10 - dc), here);
                assert_eq!(state(&universe, 10 - dr, 10 + dc), here);
                assert_eq!(state(&universe, 10 + dr, 10 + dc), here);
            }
        }
    }
}

#[test]
fn pulsar_has_period_three() {
    let mut universe = sized(20, 20);
    universe.insert_pulsar(10, 10);
    universe.tick();
    assert_eq!(universe.get_cells().count_ones(..), 56);
    universe.tick();
    assert_eq!(universe.get_cells().count_ones(..), 72);
    universe.tick();
    assert_eq!(alive_cells(&universe), pulsar_at(10, 10));
}
