use glyphloop::gameloop::{Game, Gameloop, GameloopCommand, ONE_UPDATE};
use glyphloop::timer::{FrameTimer, DEFAULT_FRAME_NANOS};

struct Script {
    commands: Vec<GameloopCommand>,
    updates: usize,
    renders: Vec<(u64, u64)>,
}

impl Script {
    fn new(commands: Vec<GameloopCommand>) -> Script {
        Script { commands, updates: 0, renders: vec![] }
    }
}

impl Game for Script {
    fn update(&mut self) -> GameloopCommand {
        let c = if self.updates < self.commands.len() {
            self.commands[self.updates]
        } else {
            GameloopCommand::Continue
        };
        self.updates += 1;
        c
    }

    fn render(&mut self, alpha: u64, frame_nanos: u64) {
        self.renders.push((alpha, frame_nanos));
    }
}

fn fill(lp: &mut Gameloop, nanos: u64) {
    for _ in 0..10 {
        lp.record_frame(nanos);
    }
}

#[test]
fn timer_starts_at_sixty_hertz() {
    let t = FrameTimer::new();
    assert_eq!(t.smoothed_nanos(), DEFAULT_FRAME_NANOS);
}

#[test]
fn timer_averages_last_ten_frames() {
    let mut t = FrameTimer::new();
    for _ in 0..10 {
        t.record(20_000_000);
    }
    assert_eq!(t.smoothed_nanos(), 20_000_000);
    t.record(30_000_000);
    assert_eq!(t.smoothed_nanos(), 21_000_000);
    t.record(5);
    assert_eq!(t.smoothed_nanos(), 19_000_000);
}

#[test]
fn catch_up_is_bounded_when_twelve_does_not_divide_ups() {
    let mut lp = Gameloop::new(50, false);
    fill(&mut lp, 1_000_000_000);
    let mut game = Script::new(vec![]);
    let r = lp.run_frame(&mut game);
    assert_eq!(r.updates, 5);
    assert_eq!(game.updates, 5);
    assert!(!r.exited);
    assert!(r.all_continue);
    assert_eq!(r.alpha, Some(ONE_UPDATE));
    assert_eq!(game.renders, vec![(ONE_UPDATE, 1_000_000_000)]);
}

#[test]
fn catch_up_at_sixty_ups_runs_six_updates() {
    let mut lp = Gameloop::new(60, false);
    fill(&mut lp, 2_000_000_000);
    let mut game = Script::new(vec![]);
    let r = lp.run_frame(&mut game);
    assert_eq!(r.updates, 6);
    assert_eq!(lp.accumulator(), ONE_UPDATE);
}

#[test]
fn interpolation_keeps_fractional_debt() {
    let mut lp = Gameloop::new(50, false);
    fill(&mut lp, 10_000_000);
    let mut game = Script::new(vec![]);
    let r = lp.run_frame(&mut game);
    assert_eq!(r.updates, 0);
    assert_eq!(r.alpha, Some(500_000_000));
    let r = lp.run_frame(&mut game);
    assert_eq!(r.updates, 0);
    assert_eq!(r.alpha, Some(1_000_000_000));
    let r = lp.run_frame(&mut game);
    assert_eq!(r.updates, 1);
    assert_eq!(r.alpha, Some(500_000_000));
}

#[test]
fn change_rate_preserves_elapsed_time() {
    let mut lp = Gameloop::new(50, false);
    fill(&mut lp, 10_000_000);
    let mut game = Script::new(vec![]);
    lp.run_frame(&mut game);
    assert_eq!(lp.accumulator(), 500_000_000);
    assert!(!lp.process_command(GameloopCommand::ChangeUps(100)));
    assert_eq!(lp.ups(), 100);
    assert_eq!(lp.accumulator(), 1_000_000_000);
    // 500_000_000 / 50 == 1_000_000_000 / 100
    assert_eq!(lp.accumulator() / lp.ups(), 500_000_000 / 50);
    assert!(!lp.process_command(GameloopCommand::ChangeUps(30)));
    assert_eq!(lp.accumulator(), 300_000_000);
}

#[test]
fn change_rate_to_zero_is_ignored() {
    let mut lp = Gameloop::new(60, true);
    assert!(!lp.process_command(GameloopCommand::ChangeUps(0)));
    assert_eq!(lp.ups(), 60);
}

#[test]
fn lockstep_runs_one_update_per_frame() {
    let mut lp = Gameloop::new(60, true);
    let mut game = Script::new(vec![]);
    for _ in 0..5 {
        lp.record_frame(DEFAULT_FRAME_NANOS);
        let r = lp.run_frame(&mut game);
        assert_eq!(r.updates, 1);
        assert_eq!(r.alpha, Some(ONE_UPDATE));
    }
    assert_eq!(game.updates, 5);
}

#[test]
fn without_lockstep_matching_rate_interpolates() {
    let mut lp = Gameloop::new(60, false);
    let mut game = Script::new(vec![]);
    let r = lp.run_frame(&mut game);
    assert_eq!(r.updates, 0);
    assert_eq!(r.alpha, Some(999_999_960));
}

#[test]
fn exit_stops_the_frame() {
    let mut lp = Gameloop::new(60, false);
    fill(&mut lp, 50_000_000);
    let mut game = Script::new(vec![GameloopCommand::Exit]);
    let r = lp.run_frame(&mut game);
    assert!(r.exited);
    assert_eq!(r.alpha, None);
    assert_eq!(r.updates, 1);
    assert_eq!(game.updates, 1);
    assert!(game.renders.is_empty());
}

#[test]
fn exit_from_an_event_is_reported() {
    let mut lp = Gameloop::new(60, false);
    assert!(lp.process_command(GameloopCommand::Exit));
    assert!(!lp.process_command(GameloopCommand::Continue));
}

#[test]
fn pause_stops_updates_but_not_rendering() {
    let mut lp = Gameloop::new(60, false);
    fill(&mut lp, 50_000_000);
    let mut game = Script::new(vec![GameloopCommand::Pause]);
    let r = lp.run_frame(&mut game);
    assert_eq!(r.updates, 1);
    assert!(!r.all_continue);
    assert!(lp.is_paused());
    assert_eq!(game.renders.len(), 1);
    let r = lp.run_frame(&mut game);
    assert_eq!(r.updates, 0);
    assert_eq!(game.renders.len(), 2);
    assert!(!lp.process_command(GameloopCommand::UnPause));
    assert!(!lp.is_paused());
    let r = lp.run_frame(&mut game);
    assert!(r.updates > 0);
}

#[test]
fn catch_up_never_exceeds_the_bound_at_any_rate() {
    for ups in 1..=240u64 {
        for frame in [5_000_000u64, 100_000_000, 3_000_000_000] {
            let mut lp = Gameloop::new(ups, false);
            fill(&mut lp, frame);
            let mut game = Script::new(vec![]);
            let r = lp.run_frame(&mut game);
            assert!(r.updates <= ups / 12 + 1);
            if ups % 12 != 0 {
                assert!(r.updates <= (ups + 11) / 12);
            }
        }
    }
}

#[test]
fn low_rates_always_count_as_low_framerate() {
    let mut lp = Gameloop::new(1, true);
    let mut game = Script::new(vec![]);
    let r = lp.run_frame(&mut game);
    assert_eq!(r.alpha, Some(ONE_UPDATE));
    assert_eq!(lp.accumulator(), 16_666_666);
}

#[test]
fn no_callback_runs_after_exit() {
    let mut lp = Gameloop::new(60, false);
    fill(&mut lp, 50_000_000);
    assert!(lp.process_command(GameloopCommand::Exit));
    assert!(lp.is_exited());
    let mut game = Script::new(vec![]);
    let r = lp.run_frame(&mut game);
    assert!(r.exited);
    assert_eq!(r.updates, 0);
    assert_eq!(game.updates, 0);
    assert!(game.renders.is_empty());
}

#[test]
fn report_lists_commands_and_pause_stops_after_kth_update() {
    let mut lp = Gameloop::new(60, false);
    fill(&mut lp, 100_000_000);
    let mut game = Script::new(vec![GameloopCommand::Continue, GameloopCommand::Pause]);
    let r = lp.run_frame(&mut game);
    assert_eq!(r.updates, 2);
    assert_eq!(r.commands, vec![GameloopCommand::Continue, GameloopCommand::Pause]);
    assert!(!r.exited);
    assert!(lp.is_paused());
    assert_eq!(game.renders.len(), 1);
}

#[test]
fn exit_from_kth_update_stops_after_k_updates() {
    let mut lp = Gameloop::new(60, false);
    fill(&mut lp, 100_000_000);
    let mut game = Script::new(vec![
        GameloopCommand::Continue,
        GameloopCommand::Continue,
        GameloopCommand::Exit,
    ]);
    let r = lp.run_frame(&mut game);
    assert_eq!(r.updates, 3);
    assert_eq!(r.commands.last(), Some(&GameloopCommand::Exit));
    assert!(r.exited);
    assert!(game.renders.is_empty());
}

#[test]
fn new_loop_timer_starts_at_sixty_hertz() {
    let mut lp = Gameloop::new(60, false);
    lp.record_frame(26_666_666);
    let mut game = Script::new(vec![]);
    lp.run_frame(&mut game);
    assert_eq!(lp.frame_nanos(), 17_666_666);
}
