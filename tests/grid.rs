use game_of_life::grid::{next_cell, Cell, Grid};

fn grid_from(width: u32, height: u32, alive: &[usize]) -> Grid {
    let mut cells = vec![Cell::Dead; (width * height) as usize];
    for &i in alive {
        cells[i] = Cell::Alive;
    }
    Grid { width, height, cells }
}

fn bits(cells: &[Cell]) -> Vec<u8> {
    cells.iter().map(|c| if *c == Cell::Alive { 1 } else { 0 }).collect()
}

#[test]
fn construction_has_width_times_height_cells() {
    let g = Grid::fixed(5, 3);
    assert_eq!(g.cells.len(), 15);
    let mut g = Grid::fixed(7, 2);
    g.advance();
    assert_eq!(g.cells.len(), 14);
    assert_eq!((g.width, g.height), (7, 2));
}

#[test]
fn opposite_corner_is_a_neighbor_on_three_by_three() {
    let g = grid_from(3, 3, &[8]);
    assert_eq!(g.live_neighbor_count(0, 0), 1);
    let g = grid_from(3, 3, &[2, 6]);
    assert_eq!(g.live_neighbor_count(0, 0), 2);
}

#[test]
fn neighbors_wrap_on_every_edge() {
    let g = grid_from(4, 4, &[3, 12, 15, 5]);
    assert_eq!(g.live_neighbor_count(0, 0), 4);
    let all = grid_from(4, 4, &(0..16).collect::<Vec<_>>());
    assert_eq!(all.live_neighbor_count(3, 3), 8);
    let g = grid_from(4, 5, &[0]);
    assert_eq!(g.live_neighbor_count(4, 3), 1);
    assert_eq!(g.live_neighbor_count(2, 2), 0);
}

#[test]
fn advance_is_a_function_of_the_pre_state() {
    let a = Grid::fixed(6, 5);
    let mut first = Grid { width: a.width, height: a.height, cells: a.cells.clone() };
    let mut second = Grid { width: a.width, height: a.height, cells: a.cells.clone() };
    first.advance();
    second.advance();
    assert_eq!(first.cells, second.cells);
    for row in (0..5u32).rev() {
        for col in (0..6u32).rev() {
            let i = (row * 6 + col) as usize;
            let expected = next_cell(a.cells[i], a.live_neighbor_count(row, col));
            assert_eq!(first.cells[i], expected);
        }
    }
}

#[test]
fn lone_cell_dies() {
    for (w, h) in [(3u32, 3u32), (4, 3), (5, 7)] {
        let mut g = grid_from(w, h, &[(w + 1) as usize]);
        assert_eq!(g.live_neighbor_count(1, 1), 0);
        g.advance();
        assert!(g.cells.iter().all(|c| *c == Cell::Dead));
    }
}

#[test]
fn rule_table() {
    assert_eq!(next_cell(Cell::Alive, 0), Cell::Dead);
    assert_eq!(next_cell(Cell::Alive, 1), Cell::Dead);
    assert_eq!(next_cell(Cell::Alive, 2), Cell::Alive);
    assert_eq!(next_cell(Cell::Alive, 3), Cell::Alive);
    assert_eq!(next_cell(Cell::Alive, 4), Cell::Dead);
    assert_eq!(next_cell(Cell::Alive, 8), Cell::Dead);
    assert_eq!(next_cell(Cell::Dead, 3), Cell::Alive);
    assert_eq!(next_cell(Cell::Dead, 2), Cell::Dead);
    assert_eq!(next_cell(Cell::Dead, 4), Cell::Dead);
    assert_eq!(next_cell(Cell::Dead, 0), Cell::Dead);
}

#[test]
fn blinker_oscillates() {
    let mut g = grid_from(5, 5, &[11, 12, 13]);
    g.advance();
    assert_eq!(bits(&g.cells), bits(&grid_from(5, 5, &[7, 12, 17]).cells));
    g.advance();
    assert_eq!(bits(&g.cells), bits(&grid_from(5, 5, &[11, 12, 13]).cells));
}

#[test]
fn fixed_four_by_four_end_to_end() {
    let mut g = Grid::fixed(4, 4);
    assert_eq!(
        bits(&g.cells),
        vec![1, 0, 1, 0, 1, 0, 1, 1, 1, 0, 1, 0, 1, 0, 1, 0]
    );
    assert_eq!(g.live_neighbor_count(1, 3), 6);
    assert_eq!(g.live_neighbor_count(3, 0), 2);
    g.advance();
    assert_eq!(
        bits(&g.cells),
        vec![1, 0, 1, 0, 1, 0, 1, 0, 1, 0, 1, 0, 1, 0, 1, 0]
    );
}

#[test]
fn seed_with_given_periods() {
    let g = Grid::new(5, 2, 3, 4);
    assert_eq!(bits(&g.cells), vec![1, 0, 0, 1, 1, 0, 1, 0, 1, 1]);
}

#[test]
fn random_seed_uses_periods_below_ten() {
    for _ in 0..20 {
        let g = Grid::random(6, 6);
        assert_eq!(g.cells.len(), 36);
        assert_eq!(g.cells[0], Cell::Alive);
        let fits = (1..10usize).any(|p| {
            (1..10usize).any(|q| {
                g.cells.iter().enumerate().all(|(i, c)| {
                    (*c == Cell::Alive) == (i % p == 0 || i % q == 0)
                })
            })
        });
        assert!(fits);
    }
}

#[test]
fn text_snapshot_is_row_major() {
    let g = grid_from(3, 2, &[0, 4]);
    assert_eq!(g.get_string(), "\u{2593}\u{2591}\u{2591}\n\u{2591}\u{2593}\u{2591}\n");
}
