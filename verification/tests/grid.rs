use snake::snake_grid::{
    Direction, GameResult, SnakeCell, SnakeGrid, FRUIT_DRAWS, GRID_HEIGHT, GRID_WIDTH,
};

fn count_food(g: &SnakeGrid) -> usize {
    let mut n = 0;
    for row in 0..GRID_HEIGHT {
        for col in 0..GRID_WIDTH {
            if g.grid[row][col] == SnakeCell::Food {
                n += 1;
            }
        }
    }
    n
}

fn count_air(g: &SnakeGrid) -> usize {
    let mut n = 0;
    for row in 0..GRID_HEIGHT {
        for col in 0..GRID_WIDTH {
            if g.grid[row][col] == SnakeCell::Air {
                n += 1;
            }
        }
    }
    n
}

/// Walks from the tail along the stored directions; the number of cells visited when
/// the walk arrives at the head.
fn chain_cells(g: &SnakeGrid) -> Option<usize> {
    let mut at = g.tail_location;
    let mut visited = 1;
    while visited <= GRID_HEIGHT * GRID_WIDTH {
        match g.grid[at.0][at.1] {
            SnakeCell::Body(Some(d)) => {
                at = SnakeGrid::update_coordinates(at, d);
                visited += 1;
            }
            SnakeCell::Body(None) => {
                return if at == g.head_location { Some(visited) } else { None };
            }
            _ => return None,
        }
    }
    None
}

fn step_once(g: &mut SnakeGrid) -> GameResult {
    g.previous_direction = g.travel_direction;
    g.tick()
}

#[test]
fn new_grid_holds_a_snake_of_two_cells() {
    let g = SnakeGrid::new();
    assert_eq!(g.head_location, (6, 6));
    assert_eq!(g.tail_location, (6, 5));
    assert_eq!(g.snake_size, 0);
    assert_eq!(g.travel_direction, Direction::Right);
    assert_eq!(g.previous_direction, Direction::Right);
    for row in 0..GRID_HEIGHT {
        for col in 0..GRID_WIDTH {
            let expected = if (row, col) == (6, 6) {
                SnakeCell::Body(None)
            } else if (row, col) == (6, 5) {
                SnakeCell::Body(Some(Direction::Right))
            } else {
                SnakeCell::Air
            };
            assert_eq!(g.grid[row][col], expected);
        }
    }
    assert!(g.is_well_formed());
    assert_eq!(chain_cells(&g), Some(2));
    assert_eq!(count_food(&g), 0);
}

#[test]
fn up_from_the_top_row_enters_the_bottom_row() {
    for col in 0..GRID_WIDTH {
        assert_eq!(
            SnakeGrid::update_coordinates((0, col), Direction::Up),
            (GRID_HEIGHT - 1, col)
        );
    }
}

#[test]
fn down_from_the_bottom_row_enters_the_top_row() {
    for col in 0..GRID_WIDTH {
        assert_eq!(
            SnakeGrid::update_coordinates((GRID_HEIGHT - 1, col), Direction::Down),
            (0, col)
        );
    }
}

#[test]
fn left_from_the_first_column_enters_the_last_column() {
    for row in 0..GRID_HEIGHT {
        assert_eq!(
            SnakeGrid::update_coordinates((row, 0), Direction::Left),
            (row, GRID_WIDTH - 1)
        );
    }
}

#[test]
fn right_from_the_last_column_enters_the_first_column() {
    for row in 0..GRID_HEIGHT {
        assert_eq!(
            SnakeGrid::update_coordinates((row, GRID_WIDTH - 1), Direction::Right),
            (row, 0)
        );
    }
}

#[test]
fn a_step_inside_the_grid_moves_by_one_cell() {
    assert_eq!(SnakeGrid::update_coordinates((5, 7), Direction::Up), (4, 7));
    assert_eq!(SnakeGrid::update_coordinates((5, 7), Direction::Down), (6, 7));
    assert_eq!(SnakeGrid::update_coordinates((5, 7), Direction::Left), (5, 6));
    assert_eq!(SnakeGrid::update_coordinates((5, 7), Direction::Right), (5, 8));
    assert_eq!(SnakeGrid::update_coordinates((24, 24), Direction::Up), (23, 24));
    assert_eq!(SnakeGrid::update_coordinates((0, 0), Direction::Down), (1, 0));
}

#[test]
fn every_step_stays_on_the_grid_and_can_be_undone() {
    let all = [Direction::Up, Direction::Down, Direction::Left, Direction::Right];
    for row in 0..GRID_HEIGHT {
        for col in 0..GRID_WIDTH {
            for d in all {
                let next = SnakeGrid::update_coordinates((row, col), d);
                assert!(next.0 < GRID_HEIGHT && next.1 < GRID_WIDTH);
                assert_ne!(next, (row, col));
                let back = SnakeGrid::update_coordinates(next, SnakeGrid::opposite_direction(d));
                assert_eq!(back, (row, col));
            }
        }
    }
}

#[test]
fn opposite_directions_come_in_pairs() {
    assert_eq!(SnakeGrid::opposite_direction(Direction::Up), Direction::Down);
    assert_eq!(SnakeGrid::opposite_direction(Direction::Down), Direction::Up);
    assert_eq!(SnakeGrid::opposite_direction(Direction::Left), Direction::Right);
    assert_eq!(SnakeGrid::opposite_direction(Direction::Right), Direction::Left);
}

#[test]
fn one_fruit_after_the_first_fruit_is_generated() {
    for _ in 0..50 {
        let mut g = SnakeGrid::new();
        assert!(g.generate_fruit());
        assert_eq!(count_food(&g), 1);
        assert_eq!(count_air(&g), GRID_HEIGHT * GRID_WIDTH - 3);
        assert_eq!(g.grid[6][6], SnakeCell::Body(None));
        assert_eq!(g.grid[6][5], SnakeCell::Body(Some(Direction::Right)));
        assert!(g.is_well_formed());
    }
}

#[test]
fn one_fruit_after_a_step_that_grows_the_snake() {
    for _ in 0..50 {
        let mut g = SnakeGrid::new();
        assert!(g.place_fruit(6, 7));
        assert_eq!(count_food(&g), 1);
        assert_eq!(step_once(&mut g), GameResult::GrowAndContinue);
        assert_eq!(count_food(&g), 1);
        assert_eq!(g.grid[6][7], SnakeCell::Body(None));
    }
}

#[test]
fn generated_fruit_always_lies_on_the_grid() {
    // Every draw indexes the grid, so a draw outside it would stop the test.
    for _ in 0..300 {
        let mut g = SnakeGrid::new();
        for wanted in 1..=5 {
            assert!(g.generate_fruit());
            assert_eq!(count_food(&g), wanted);
        }
    }
}

#[test]
fn reversal_is_dropped() {
    let mut g = SnakeGrid::new();
    assert_eq!(g.travel_direction, Direction::Right);
    assert_eq!(g.previous_direction, Direction::Right);
    g.update_direction(Direction::Left);
    assert_eq!(g.travel_direction, Direction::Right);
    assert_eq!(g.previous_direction, Direction::Right);
}

#[test]
fn safe_turn_twice_is_taken_once() {
    let mut g = SnakeGrid::new();
    assert_eq!(g.travel_direction, Direction::Right);
    g.update_direction(Direction::Up);
    assert_eq!(g.travel_direction, Direction::Up);
    g.update_direction(Direction::Up);
    assert_eq!(g.travel_direction, Direction::Up);
    assert_eq!(g.previous_direction, Direction::Right);
}

#[test]
fn two_turns_between_steps_cannot_reverse_the_snake() {
    let mut g = SnakeGrid::new();
    g.update_direction(Direction::Up);
    assert_eq!(g.travel_direction, Direction::Up);
    // Left would reverse the direction of the last step.
    g.update_direction(Direction::Left);
    assert_eq!(g.travel_direction, Direction::Up);
    // Down would reverse the direction now chosen.
    g.update_direction(Direction::Down);
    assert_eq!(g.travel_direction, Direction::Up);
    // Back to the direction of the last step is no reversal.
    g.update_direction(Direction::Right);
    assert_eq!(g.travel_direction, Direction::Right);
    g.update_direction(Direction::Left);
    assert_eq!(g.travel_direction, Direction::Right);
}

#[test]
fn a_turn_is_free_again_once_the_direction_is_applied() {
    let mut g = SnakeGrid::new();
    g.update_direction(Direction::Up);
    assert_eq!(step_once(&mut g), GameResult::Continue);
    assert_eq!(g.previous_direction, Direction::Up);
    g.update_direction(Direction::Left);
    assert_eq!(g.travel_direction, Direction::Left);
    g.update_direction(Direction::Down);
    assert_eq!(g.travel_direction, Direction::Left);
}

#[test]
fn update_direction_touches_nothing_but_the_direction() {
    let mut g = SnakeGrid::new();
    let before = g.grid;
    g.update_direction(Direction::Down);
    assert_eq!(g.travel_direction, Direction::Down);
    assert_eq!(g.grid, before);
    assert_eq!(g.head_location, (6, 6));
    assert_eq!(g.tail_location, (6, 5));
    assert_eq!(g.snake_size, 0);
}

#[test]
fn a_step_into_an_empty_cell_moves_the_snake() {
    let mut g = SnakeGrid::new();
    assert_eq!(step_once(&mut g), GameResult::Continue);
    assert_eq!(g.head_location, (6, 7));
    assert_eq!(g.tail_location, (6, 6));
    assert_eq!(g.snake_size, 0);
    for row in 0..GRID_HEIGHT {
        for col in 0..GRID_WIDTH {
            let expected = if (row, col) == (6, 7) {
                SnakeCell::Body(None)
            } else if (row, col) == (6, 6) {
                SnakeCell::Body(Some(Direction::Right))
            } else {
                SnakeCell::Air
            };
            assert_eq!(g.grid[row][col], expected);
        }
    }
}

#[test]
fn a_turned_snake_records_the_turn_in_its_old_head() {
    let mut g = SnakeGrid::new();
    g.update_direction(Direction::Down);
    assert_eq!(step_once(&mut g), GameResult::Continue);
    assert_eq!(g.head_location, (7, 6));
    assert_eq!(g.tail_location, (6, 6));
    assert_eq!(g.grid[6][6], SnakeCell::Body(Some(Direction::Down)));
    assert_eq!(g.grid[7][6], SnakeCell::Body(None));
    assert_eq!(g.grid[6][5], SnakeCell::Air);
    assert_eq!(chain_cells(&g), Some(2));
}

#[test]
fn a_full_round_of_the_grid_comes_back_to_the_start() {
    let mut g = SnakeGrid::new();
    for _ in 0..GRID_WIDTH {
        assert_eq!(step_once(&mut g), GameResult::Continue);
        assert_eq!(chain_cells(&g), Some(2));
    }
    let fresh = SnakeGrid::new();
    assert_eq!(g.grid, fresh.grid);
    assert_eq!(g.head_location, fresh.head_location);
    assert_eq!(g.tail_location, fresh.tail_location);
}

#[test]
fn the_head_leaves_by_the_right_edge_and_enters_by_the_left() {
    let mut g = SnakeGrid::new();
    for _ in 0..18 {
        assert_eq!(step_once(&mut g), GameResult::Continue);
    }
    assert_eq!(g.head_location, (6, 24));
    assert_eq!(step_once(&mut g), GameResult::Continue);
    assert_eq!(g.head_location, (6, 0));
    assert_eq!(g.tail_location, (6, 24));
    assert_eq!(g.grid[6][24], SnakeCell::Body(Some(Direction::Right)));
    assert_eq!(g.grid[6][0], SnakeCell::Body(None));
    assert!(g.is_well_formed());
}

#[test]
fn growth_makes_the_chain_one_cell_longer() {
    let mut g = SnakeGrid::new();
    assert_eq!(g.snake_size, 0);
    assert_eq!(chain_cells(&g), Some(2));
    assert!(g.place_fruit(6, 7));
    assert_eq!(step_once(&mut g), GameResult::GrowAndContinue);
    assert_eq!(g.snake_size, 1);
    assert_eq!(chain_cells(&g), Some(g.snake_size + 2));
    assert_eq!(chain_cells(&g), Some(3));
    assert_eq!(g.head_location, (6, 7));
    assert_eq!(g.tail_location, (6, 5));
    assert_eq!(g.grid[6][5], SnakeCell::Body(Some(Direction::Right)));
    assert_eq!(g.grid[6][6], SnakeCell::Body(Some(Direction::Right)));
    assert_eq!(g.grid[6][7], SnakeCell::Body(None));
    assert!(g.is_well_formed());
}

#[test]
fn a_step_into_the_snake_loses_and_changes_nothing() {
    let mut g = SnakeGrid::new();
    g.grid[6][7] = SnakeCell::Body(None);
    assert!(g.place_fruit(3, 3));
    assert!(g.is_well_formed());
    let before = g.grid;
    assert_eq!(step_once(&mut g), GameResult::Lose);
    assert_eq!(g.grid, before);
    assert_eq!(g.head_location, (6, 6));
    assert_eq!(g.tail_location, (6, 5));
    assert_eq!(g.snake_size, 0);
    assert_eq!(g.travel_direction, Direction::Right);
    // Nothing moved, so the next step loses again.
    assert_eq!(step_once(&mut g), GameResult::Lose);
    assert_eq!(g.grid, before);
}

#[test]
fn a_snake_that_circles_runs_into_its_own_tail() {
    let mut g = SnakeGrid::new();
    for _ in 0..2 {
        let ahead = SnakeGrid::update_coordinates(g.head_location, g.travel_direction);
        g.place_fruit(ahead.0, ahead.1);
        assert_eq!(step_once(&mut g), GameResult::GrowAndContinue);
    }
    assert_eq!(g.snake_size, 2);
    assert_eq!(g.head_location, (6, 8));
    g.update_direction(Direction::Down);
    assert_ne!(step_once(&mut g), GameResult::Lose);
    g.update_direction(Direction::Left);
    assert_ne!(step_once(&mut g), GameResult::Lose);
    g.update_direction(Direction::Up);
    assert_eq!(g.travel_direction, Direction::Up);
    let before = g.grid;
    let (head, tail, size) = (g.head_location, g.tail_location, g.snake_size);
    assert_eq!(step_once(&mut g), GameResult::Lose);
    assert_eq!(g.grid, before);
    assert_eq!((g.head_location, g.tail_location, g.snake_size), (head, tail, size));
    assert!(g.is_well_formed());
}

#[test]
fn the_chain_holds_through_a_long_game() {
    let turns = [
        Direction::Up,
        Direction::Right,
        Direction::Right,
        Direction::Down,
        Direction::Left,
        Direction::Up,
        Direction::Up,
        Direction::Left,
        Direction::Down,
        Direction::Right,
    ];
    let mut g = SnakeGrid::new();
    assert!(g.generate_fruit());
    let mut steps = 0;
    for round in 0..3000 {
        if round % 3 == 0 {
            g.update_direction(turns[(round / 3) % turns.len()]);
        }
        let size = g.snake_size;
        let food = count_food(&g);
        match step_once(&mut g) {
            GameResult::Continue => assert_eq!(g.snake_size, size),
            GameResult::GrowAndContinue => assert_eq!(g.snake_size, size + 1),
            GameResult::Lose => break,
            GameResult::Win => unreachable!(),
        }
        steps += 1;
        assert_eq!(count_food(&g), food);
        assert_eq!(count_food(&g), 1);
        assert!(g.is_well_formed());
        assert_eq!(chain_cells(&g), Some(g.snake_size + 2));
    }
    assert!(steps > 0);
}

#[test]
fn no_fruit_is_generated_on_a_full_grid() {
    let mut g = SnakeGrid::new();
    for row in 0..GRID_HEIGHT {
        for col in 0..GRID_WIDTH {
            if g.grid[row][col] == SnakeCell::Air {
                g.grid[row][col] = SnakeCell::Body(None);
            }
        }
    }
    let before = g.grid;
    assert!(!g.generate_fruit());
    assert_eq!(g.grid, before);
    assert_eq!(g.first_free_cell(), None);
}

#[test]
fn the_last_free_cell_gets_the_fruit() {
    let mut g = SnakeGrid::new();
    for row in 0..GRID_HEIGHT {
        for col in 0..GRID_WIDTH {
            if g.grid[row][col] == SnakeCell::Air && (row, col) != (20, 13) {
                g.grid[row][col] = SnakeCell::Body(None);
            }
        }
    }
    assert_eq!(g.first_free_cell(), Some((20, 13)));
    assert!(g.generate_fruit());
    assert_eq!(g.grid[20][13], SnakeCell::Food);
    assert_eq!(count_food(&g), 1);
    assert_eq!(count_air(&g), 0);
    assert!(!g.generate_fruit());
}

#[test]
fn the_game_is_won_when_no_cell_is_left_for_a_fruit() {
    let mut g = SnakeGrid::new();
    for row in 0..GRID_HEIGHT {
        for col in 0..GRID_WIDTH {
            if g.grid[row][col] == SnakeCell::Air {
                g.grid[row][col] = SnakeCell::Body(None);
            }
        }
    }
    g.grid[6][7] = SnakeCell::Food;
    assert!(g.is_well_formed());
    assert_eq!(step_once(&mut g), GameResult::Win);
    assert_eq!(g.snake_size, 1);
    assert_eq!(g.head_location, (6, 7));
    assert_eq!(g.tail_location, (6, 5));
    assert_eq!(g.grid[6][6], SnakeCell::Body(Some(Direction::Right)));
    assert_eq!(g.grid[6][7], SnakeCell::Body(None));
    assert_eq!(count_food(&g), 0);
    assert_eq!(count_air(&g), 0);
    assert_eq!(chain_cells(&g), Some(3));
}

#[test]
fn a_fruit_is_placed_on_an_empty_cell_only() {
    let mut g = SnakeGrid::new();
    assert!(g.place_fruit(0, 0));
    assert_eq!(g.grid[0][0], SnakeCell::Food);
    let before = g.grid;
    // On the fruit, on the head and on the tail nothing is placed.
    assert!(!g.place_fruit(0, 0));
    assert!(!g.place_fruit(6, 6));
    assert!(!g.place_fruit(6, 5));
    assert_eq!(g.grid, before);
    assert!(g.place_fruit(24, 24));
    assert_eq!(g.grid[24][24], SnakeCell::Food);
    assert_eq!(count_food(&g), 2);
}

#[test]
fn the_first_free_cell_is_found_row_by_row() {
    let mut g = SnakeGrid::new();
    assert_eq!(g.first_free_cell(), Some((0, 0)));
    for col in 0..GRID_WIDTH {
        g.grid[0][col] = SnakeCell::Food;
    }
    assert_eq!(g.first_free_cell(), Some((1, 0)));
    g.grid[1][0] = SnakeCell::Body(None);
    g.grid[1][1] = SnakeCell::Food;
    assert_eq!(g.first_free_cell(), Some((1, 2)));
}

#[test]
fn a_broken_chain_is_told_from_a_whole_one() {
    let mut g = SnakeGrid::new();
    assert!(g.is_well_formed());

    // One segment more than the chain has.
    g.snake_size = 1;
    assert!(!g.is_well_formed());
    g.snake_size = 0;
    assert!(g.is_well_formed());

    // A tail that points away from the head.
    g.grid[6][5] = SnakeCell::Body(Some(Direction::Up));
    assert!(!g.is_well_formed());
    g.grid[6][5] = SnakeCell::Body(Some(Direction::Right));

    // A head that points onwards.
    g.grid[6][6] = SnakeCell::Body(Some(Direction::Right));
    assert!(!g.is_well_formed());
    g.grid[6][6] = SnakeCell::Body(None);

    // A tail that is no segment.
    g.grid[6][5] = SnakeCell::Air;
    assert!(!g.is_well_formed());
    g.grid[6][5] = SnakeCell::Body(Some(Direction::Right));

    // Ends that lie off the grid, and a size beyond the grid.
    g.head_location = (6, GRID_WIDTH);
    assert!(!g.is_well_formed());
    g.head_location = (6, 6);
    g.tail_location = (GRID_HEIGHT, 5);
    assert!(!g.is_well_formed());
    g.tail_location = (6, 5);
    g.snake_size = usize::MAX;
    assert!(!g.is_well_formed());
    g.snake_size = 0;
    assert!(g.is_well_formed());

    // A ring of segments that never reaches the head.
    g.tail_location = (10, 10);
    g.grid[10][10] = SnakeCell::Body(Some(Direction::Right));
    g.grid[10][11] = SnakeCell::Body(Some(Direction::Left));
    g.snake_size = 5;
    assert!(!g.is_well_formed());
}

#[test]
fn the_number_of_draws_is_bounded() {
    assert_eq!(FRUIT_DRAWS, 100);
    assert_eq!(GRID_HEIGHT, 25);
    assert_eq!(GRID_WIDTH, 25);
}
