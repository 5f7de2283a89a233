use game_of_life::controller::{init, update, Model, Msg, DEFAULT_SIDE};
use game_of_life::grid::{Cell, Grid};

fn fixed_bits(n: usize) -> Vec<bool> {
    (0..n).map(|i| i % 2 == 0 || i % 7 == 0).collect()
}

fn alive_bits(g: &Grid) -> Vec<bool> {
    g.cells.iter().map(|c| *c == Cell::Alive).collect()
}

#[test]
fn init_is_stopped_default_board() {
    let m = init();
    assert_eq!((m.grid.width, m.grid.height), (48, 48));
    assert_eq!(m.counter, 0);
    assert!(!m.running);
    assert!(!m.armed);
    assert_eq!(alive_bits(&m.grid), fixed_bits(48 * 48));
}

#[test]
fn start_twice_asks_for_one_tick() {
    let mut m = init();
    assert!(update(Msg::Start, &mut m));
    assert!(!update(Msg::Start, &mut m));
    assert!(m.running);
    assert!(m.armed);
}

#[test]
fn stop_then_tick_does_nothing() {
    let mut m = Model::with_default_size(4, 4);
    update(Msg::Start, &mut m);
    assert!(!update(Msg::Stop, &mut m));
    let before = m.grid.cells.clone();
    assert!(!update(Msg::Tick(true), &mut m));
    assert_eq!(m.grid.cells, before);
    assert_eq!(m.counter, 0);
    assert!(!m.armed);
    assert!(update(Msg::Start, &mut m));
}

#[test]
fn restart_before_stale_tick_keeps_one_request() {
    let mut m = Model::with_default_size(4, 4);
    assert!(update(Msg::Start, &mut m));
    update(Msg::Stop, &mut m);
    assert!(!update(Msg::Start, &mut m));
    assert!(update(Msg::Tick(true), &mut m));
    assert_eq!(m.counter, 1);
}

#[test]
fn running_ticks_advance_and_count() {
    let mut m = Model::with_default_size(4, 4);
    update(Msg::Start, &mut m);
    assert!(update(Msg::Tick(true), &mut m));
    assert_eq!(m.counter, 1);
    let expected: Vec<bool> = (0..16).map(|i| i % 2 == 0).collect();
    assert_eq!(alive_bits(&m.grid), expected);
    assert!(update(Msg::Tick(false), &mut m));
    assert_eq!(m.counter, 1);
    assert_eq!(alive_bits(&m.grid), expected);
}

#[test]
fn counter_stops_at_the_largest_value() {
    let mut m = Model::with_default_size(3, 3);
    m.counter = u32::MAX;
    update(Msg::Start, &mut m);
    update(Msg::Tick(true), &mut m);
    assert_eq!(m.counter, u32::MAX);
}

#[test]
fn zero_resize_gives_default_size() {
    let mut m = Model::new(10, 12, false);
    update(Msg::SetX(String::from("0")), &mut m);
    update(Msg::SetY(String::from("0")), &mut m);
    assert_eq!(m.pending_size, (0, 0));
    assert!(!update(Msg::Resize, &mut m));
    assert_eq!((m.grid.width, m.grid.height), (DEFAULT_SIDE, DEFAULT_SIDE));
    assert_eq!(m.grid.cells.len(), 48 * 48);
}

#[test]
fn resize_to_pending_size() {
    let mut m = init();
    update(Msg::Start, &mut m);
    update(Msg::SetX(String::from("+7")), &mut m);
    update(Msg::SetY(String::from("5")), &mut m);
    update(Msg::Resize, &mut m);
    assert_eq!((m.grid.width, m.grid.height), (7, 5));
    assert_eq!(alive_bits(&m.grid), fixed_bits(35));
    assert!(!m.running);
    assert_eq!(m.counter, 0);
}

#[test]
fn resize_beyond_bound_gives_default_size() {
    let mut m = Model::with_default_size(6, 6);
    update(Msg::SetX(String::from("300")), &mut m);
    update(Msg::SetY(String::from("5")), &mut m);
    update(Msg::Resize, &mut m);
    assert_eq!((m.grid.width, m.grid.height), (6, 6));
}

#[test]
fn malformed_size_text_is_ignored() {
    let mut m = init();
    update(Msg::SetX(String::from("12")), &mut m);
    for bad in ["", "abc", "-1", "1 2", "4294967296", "+"] {
        update(Msg::SetX(String::from(bad)), &mut m);
        update(Msg::SetY(String::from(bad)), &mut m);
    }
    assert_eq!(m.pending_size, (12, 48));
    update(Msg::SetY(String::from("4294967295")), &mut m);
    assert_eq!(m.pending_size, (12, u32::MAX));
}

#[test]
fn reset_restores_fixed_default_board() {
    let mut m = Model::new(5, 5, true);
    update(Msg::Start, &mut m);
    update(Msg::Tick(true), &mut m);
    update(Msg::Tick(true), &mut m);
    assert_eq!(m.counter, 2);
    assert!(!update(Msg::Reset, &mut m));
    assert_eq!(m.counter, 0);
    assert!(!m.running);
    assert_eq!((m.grid.width, m.grid.height), (48, 48));
    assert_eq!(alive_bits(&m.grid), fixed_bits(48 * 48));
}

#[test]
fn shuffle_keeps_size_and_stops() {
    let mut m = Model::with_default_size(9, 4);
    update(Msg::Start, &mut m);
    update(Msg::Tick(true), &mut m);
    assert!(!update(Msg::Shuffle, &mut m));
    assert_eq!((m.grid.width, m.grid.height), (9, 4));
    assert_eq!(m.grid.cells.len(), 36);
    assert_eq!(m.counter, 0);
    assert!(!m.running);
    assert!(m.armed);
}

#[test]
fn model_tick_advances_only_the_board() {
    let mut m = Model::with_default_size(4, 4);
    m.tick();
    assert_eq!(m.counter, 0);
    let expected: Vec<bool> = (0..16).map(|i| i % 2 == 0).collect();
    assert_eq!(alive_bits(&m.grid), expected);
}
