use shaderunner::game_loop::{ControlFlow, Game, GameLoop};

#[derive(Default)]
struct Counter {
    updates: u32,
    renders: u32,
    since_render_seen: Vec<u64>,
}

impl Game for Counter {
    fn update(&mut self) {
        self.updates += 1;
    }

    fn render(&mut self, since_render: u64, _since_update: u64) {
        self.renders += 1;
        self.since_render_seen.push(since_render);
    }
}

const SECOND: u64 = 1_000_000_000;

#[test]
fn accumulator_clamp_after_stall() {
    let mut game_loop = GameLoop::new(15, 60, 0);
    let mut game = Counter::default();
    game_loop.update_or_render(&mut game, 10 * SECOND);
    let state = game_loop.state();
    assert!(state.update_accumulator <= 2 * state.nanos_per_update);
    assert!(state.render_accumulator <= 2 * state.nanos_per_render);
    assert_eq!(state.update_accumulator, 2 * 66_666_666);
    assert_eq!(state.render_accumulator, 2 * 16_666_666);
    assert!(state.render_next && state.update_next);
}

#[test]
fn basic_frame_cadence() {
    let mut game_loop = GameLoop::new(15, 60, 0);
    let mut game = Counter::default();
    let mut now = 0u64;
    let mut wakes = 0;
    while now <= SECOND && wakes < 10_000 {
        match game_loop.update_or_render(&mut game, now) {
            ControlFlow::Poll => {}
            ControlFlow::WaitUntil(t) => now = t,
        }
        wakes += 1;
    }
    assert!((14..=16).contains(&game.updates), "updates: {}", game.updates);
    assert!((59..=61).contains(&game.renders), "renders: {}", game.renders);
    assert!(game.since_render_seen.iter().all(|&t| t == 0));
}

#[test]
fn first_wake_waits_for_the_nearer_deadline() {
    let mut game_loop = GameLoop::new(15, 60, 1_000);
    let mut game = Counter::default();
    let flow = game_loop.update_or_render(&mut game, 1_000);
    assert_eq!(flow, ControlFlow::WaitUntil(1_000 + 16_666_666));
    let state = game_loop.state();
    assert!(state.render_next && !state.update_next);
    assert_eq!(game.renders + game.updates, 0);
}

#[test]
fn equal_deadlines_mark_both_due() {
    let mut game_loop = GameLoop::new(10, 10, 0);
    let mut game = Counter::default();
    assert_eq!(game_loop.update_or_render(&mut game, 0), ControlFlow::WaitUntil(100_000_000));
    let state = game_loop.state();
    assert!(state.render_next && state.update_next);
    game_loop.update_or_render(&mut game, 100_000_000);
    assert_eq!((game.updates, game.renders), (1, 1));
}

#[test]
fn reset_keeps_the_periods() {
    let mut game_loop = GameLoop::default(0);
    let mut game = Counter::default();
    game_loop.update_or_render(&mut game, 5 * SECOND);
    game_loop.reset(7 * SECOND);
    let state = game_loop.state();
    assert_eq!(state.nanos_per_update, 66_666_666);
    assert_eq!(state.nanos_per_render, 16_666_666);
    assert_eq!((state.update_accumulator, state.render_accumulator), (0, 0));
    assert_eq!((state.last_cycle, state.last_update, state.last_render), (7 * SECOND, 7 * SECOND, 7 * SECOND));
    assert!(!state.render_next && !state.update_next);
}

#[test]
fn since_update_and_render_measure_from_dispatch() {
    let mut game_loop = GameLoop::new(15, 60, 0);
    let mut game = Counter::default();
    game_loop.update_or_render(&mut game, 0);
    game_loop.update_or_render(&mut game, 16_666_666);
    assert_eq!(game.renders, 1);
    assert_eq!(game_loop.since_render(16_666_700), 34);
    assert_eq!(game_loop.since_update(16_666_700), 16_666_700);
}

#[test]
fn stats_report_each_window() {
    let mut game_loop = GameLoop::new(15, 60, 0);
    let mut game = Counter::default();
    let mut now = 0u64;
    let mut reports = 0;
    while now <= 21 * SECOND {
        if let ControlFlow::WaitUntil(t) = game_loop.update_or_render(&mut game, now) {
            now = t;
        }
        if game_loop.take_stats_report() {
            reports += 1;
        }
    }
    assert_eq!(reports, 1);
    let ups = game_loop.stats().ups_millis();
    let fps = game_loop.stats().fps_millis();
    assert!((14_000..=16_000).contains(&ups), "ups: {}", ups);
    assert!((59_000..=61_000).contains(&fps), "fps: {}", fps);
}
