use life_the_game::app::{App, Update, INITIAL_DELAY_MS, INITIAL_FRAMES};
use life_the_game::driver::{Driver, DriverAction, Phase, FRAME_CEILING, THROTTLE_MS};
use life_the_game::input::{command, hotkeys, update_for, Command, KeyStroke, POLL_MS};
use life_the_game::proc::Field;
use life_the_game::rect::Rect;
use life_the_game::render::{
    draw_frame, pause_notice, RenderAction, Renderer, PAUSE_IDLE_MS,
};
use life_the_game::speed::{LadderError, TimeoutIter, STANDARD_START};

fn blinker() -> Field {
    Field::from_string("000\n111\n000\n".to_string(), Rect::new(80, 24)).unwrap()
}

fn key(symbol: char) -> KeyStroke {
    KeyStroke {
        symbol: Some(symbol),
        control: false,
        pressed: true,
    }
}

#[test]
fn next_goes_once_round_the_ladder() {
    let delays: Vec<u64> = vec![5, 10, 20, 40, 80, 160, 320];
    for start in 0..delays.len() {
        let mut ladder = TimeoutIter::new(delays.clone(), start).unwrap();
        let mut last = delays[start];
        for _ in 0..delays.len() {
            last = ladder.next();
        }
        assert_eq!(last, delays[start]);
        assert_eq!(ladder.value(), delays[start]);
    }
}

#[test]
fn prev_goes_once_round_the_ladder() {
    let delays: Vec<u64> = vec![5, 10, 20, 40, 80, 160, 320];
    for start in 0..delays.len() {
        let mut ladder = TimeoutIter::new(delays.clone(), start).unwrap();
        let mut last = delays[start];
        for _ in 0..delays.len() {
            last = ladder.prev();
        }
        assert_eq!(last, delays[start]);
        assert_eq!(ladder.value(), delays[start]);
    }
}

#[test]
fn next_wraps_from_the_last_delay_to_the_first() {
    let mut ladder = TimeoutIter::new(vec![10, 20, 30], 1).unwrap();
    assert_eq!(ladder.next(), 30);
    assert_eq!(ladder.next(), 10);
    assert_eq!(ladder.next(), 20);
}

#[test]
fn prev_wraps_from_the_first_delay_to_the_last() {
    let mut ladder = TimeoutIter::new(vec![10, 20, 30], 1).unwrap();
    assert_eq!(ladder.prev(), 10);
    assert_eq!(ladder.prev(), 30);
    assert_eq!(ladder.prev(), 20);
}

#[test]
fn prev_undoes_next() {
    let mut ladder = TimeoutIter::new(vec![10, 20, 30], 2).unwrap();
    assert_eq!(ladder.next(), 10);
    assert_eq!(ladder.prev(), 30);
    assert_eq!(ladder.prev(), 20);
    assert_eq!(ladder.next(), 30);
}

#[test]
fn ladder_of_one_delay_stays_put() {
    let mut ladder = TimeoutIter::new(vec![7], 0).unwrap();
    assert_eq!(ladder.next(), 7);
    assert_eq!(ladder.prev(), 7);
    assert_eq!(ladder.value(), 7);
}

#[test]
fn ladder_needs_a_delay_and_a_place_for_the_cursor() {
    assert_eq!(
        TimeoutIter::new(vec![], 0).unwrap_err(),
        LadderError::Empty
    );
    assert_eq!(
        TimeoutIter::new(vec![], 3).unwrap_err(),
        LadderError::Empty
    );
    assert_eq!(
        TimeoutIter::new(vec![1, 2], 2).unwrap_err(),
        LadderError::StartOutOfRange
    );
    assert!(TimeoutIter::new(vec![1, 2], 1).is_ok());
}

#[test]
fn standard_ladder_starts_on_the_initial_delay() {
    let mut ladder = TimeoutIter::standard();
    assert_eq!(STANDARD_START, 9);
    assert_eq!(ladder.value(), INITIAL_DELAY_MS);
    assert_eq!(ladder.value(), 30);
    assert_eq!(ladder.next(), 40);
    assert_eq!(ladder.prev(), 30);
    assert_eq!(ladder.prev(), 25);
    let mut seen = vec![];
    for _ in 0..15 {
        seen.push(ladder.next());
    }
    assert_eq!(
        seen,
        vec![30, 40, 50, 80, 100, 1000, 0, 1, 2, 4, 8, 10, 15, 20, 25]
    );
}

#[test]
fn fresh_control_state() {
    let app = App::new(blinker(), 150_000);
    assert_eq!(app.maxgen(), 150_000);
    assert!(!app.is_should_exit());
    assert!(!app.is_paused());
    assert_eq!(app.upd_timeout(), INITIAL_DELAY_MS);
    assert_eq!(app.frames(), INITIAL_FRAMES);
    assert_eq!(app.frames(), 6);
    assert_eq!(app.field().data(), blinker().data());
}

#[test]
fn pause_toggles() {
    let app = App::new(blinker(), 1);
    app.pause();
    assert!(app.is_paused());
    app.pause();
    assert!(!app.is_paused());
    app.pause();
    assert!(app.is_paused());
}

#[test]
fn exit_request_stays() {
    let app = App::new(blinker(), 1);
    app.should_exit();
    assert!(app.is_should_exit());
    app.should_exit();
    assert!(app.is_should_exit());
    assert!(!app.is_paused());
}

#[test]
fn delay_is_stored() {
    let app = App::new(blinker(), 1);
    app.store_timeout(1000);
    assert_eq!(app.upd_timeout(), 1000);
    app.store_timeout(0);
    assert_eq!(app.upd_timeout(), 0);
}

#[test]
fn frames_in_flight_are_counted_up_and_down() {
    let app = App::new(blinker(), 1);
    app.add_frame();
    app.add_frame();
    assert_eq!(app.frames(), 8);
    app.need_frame();
    assert_eq!(app.frames(), 7);
    app.need_frame();
    app.need_frame();
    assert_eq!(app.frames(), 5);
}

#[test]
fn frame_count_goes_below_zero() {
    let app = App::new(blinker(), 3);
    for _ in 0..6 {
        app.need_frame();
    }
    assert_eq!(app.frames(), 0);
    app.need_frame();
    assert_eq!(app.frames(), -1);
    app.need_frame();
    assert_eq!(app.frames(), -2);
    app.add_frame();
    assert_eq!(app.frames(), -1);
}

#[test]
fn driver_runs_on_a_count_below_zero() {
    let app = App::new(blinker(), 3);
    for _ in 0..7 {
        app.need_frame();
    }
    assert_eq!(app.frames(), -1);
    let mut driver = Driver::new(app.field().snapshot(), app.maxgen());
    assert_eq!(driver.phase(app.frames()), Phase::Running);
    assert!(matches!(driver.step(app.frames()), DriverAction::Emit(_)));
    app.add_frame();
    assert_eq!(app.frames(), 0);
    assert_eq!(driver.phase(app.frames()), Phase::Running);
    assert_eq!(driver.phase(-1), Phase::Running);
    assert_eq!(driver.phase(i64::MIN), Phase::Running);
    assert!(matches!(driver.step(i64::MIN), DriverAction::Emit(_)));
    assert!(matches!(driver.step(-1), DriverAction::Emit(_)));
    assert_eq!(driver.phase(-1), Phase::Done);
}

#[test]
fn any_interleaving_of_notes_leaves_the_same_count() {
    let orders: [&[bool]; 4] = [
        &[true, true, true, false, false, false],
        &[false, false, false, true, true, true],
        &[true, false, true, false, true, false],
        &[false, true, true, false, false, true],
    ];
    for order in orders {
        let app = App::new(blinker(), 1);
        for produced in order {
            if *produced {
                app.add_frame();
            } else {
                app.need_frame();
            }
        }
        assert_eq!(app.frames(), INITIAL_FRAMES);
    }
}

#[test]
fn driver_resumes_once_the_renderer_has_caught_up() {
    let app = App::new(blinker(), 1_000);
    let mut driver = Driver::new(app.field().snapshot(), app.maxgen());
    let mut produced = 0;
    loop {
        match driver.step(app.frames()) {
            DriverAction::Emit(_) => {
                app.add_frame();
                produced += 1;
            }
            DriverAction::Wait(ms) => {
                assert_eq!(ms, THROTTLE_MS);
                break;
            }
            DriverAction::Finished => panic!("the run is not over"),
        }
    }
    assert_eq!(produced, 42);
    assert_eq!(app.frames(), FRAME_CEILING);
    assert_eq!(driver.phase(app.frames()), Phase::Throttled);
    app.need_frame();
    assert_eq!(driver.phase(app.frames()), Phase::Running);
    assert!(matches!(driver.step(app.frames()), DriverAction::Emit(_)));
    app.add_frame();
    assert_eq!(driver.phase(app.frames()), Phase::Throttled);
    for _ in 0..43 {
        app.need_frame();
    }
    assert_eq!(app.frames(), INITIAL_FRAMES - 1);
    assert_eq!(driver.phase(app.frames()), Phase::Running);
}

#[test]
fn update_is_carried_out() {
    let app = App::new(blinker(), 1);
    app.apply(Update::Nothing);
    assert!(!app.is_paused() && !app.is_should_exit());
    assert_eq!(app.upd_timeout(), INITIAL_DELAY_MS);
    app.apply(Update::TogglePause);
    assert!(app.is_paused());
    app.apply(Update::SetDelay(80));
    assert_eq!(app.upd_timeout(), 80);
    app.apply(Update::Exit);
    assert!(app.is_should_exit());
    assert!(app.is_paused());
    assert_eq!(app.frames(), INITIAL_FRAMES);
}

#[test]
fn driver_hands_out_the_generations_in_order() {
    let mut driver = Driver::new(blinker(), 3);
    let upright = vec![
        vec![false, true, false],
        vec![false, true, false],
        vec![false, true, false],
    ];
    let flat = blinker().data().clone();
    let mut frames = vec![];
    loop {
        match driver.step(0) {
            DriverAction::Emit(snapshot) => frames.push(snapshot.data().clone()),
            DriverAction::Wait(_) => panic!("nothing is in flight"),
            DriverAction::Finished => break,
        }
    }
    assert_eq!(frames, vec![flat.clone(), upright, flat]);
    assert!(matches!(driver.step(0), DriverAction::Finished));
}

#[test]
fn driver_is_throttled_at_the_ceiling() {
    let mut driver = Driver::new(blinker(), 2);
    assert_eq!(FRAME_CEILING, 48);
    assert_eq!(driver.phase(47), Phase::Running);
    assert_eq!(driver.phase(48), Phase::Throttled);
    assert_eq!(driver.phase(i64::MAX), Phase::Throttled);
    assert!(matches!(driver.step(48), DriverAction::Wait(50)));
    assert!(matches!(driver.step(49), DriverAction::Wait(50)));
    // A throttled step has produced nothing: both frames are still due.
    assert!(matches!(driver.step(47), DriverAction::Emit(_)));
    assert!(matches!(driver.step(0), DriverAction::Emit(_)));
    assert_eq!(driver.phase(0), Phase::Done);
    assert_eq!(driver.phase(48), Phase::Done);
    assert!(matches!(driver.step(48), DriverAction::Finished));
}

#[test]
fn driver_with_nothing_to_do_is_done() {
    let mut driver = Driver::new(blinker(), 0);
    assert_eq!(driver.phase(0), Phase::Done);
    assert!(matches!(driver.step(0), DriverAction::Finished));
}

#[test]
fn renderer_draws_until_the_target() {
    let mut r = Renderer::new(false);
    assert_eq!(r.generation(), 0);
    assert_eq!(r.step(false, false, 2), RenderAction::Draw);
    assert_eq!(r.generation(), 1);
    assert_eq!(r.step(false, false, 2), RenderAction::Draw);
    assert_eq!(r.generation(), 2);
    assert_eq!(r.step(false, false, 2), RenderAction::Stop);
    assert_eq!(r.generation(), 2);
    assert_eq!(Renderer::new(false).step(false, false, 0), RenderAction::Stop);
}

#[test]
fn renderer_stops_on_exit() {
    let mut r = Renderer::new(false);
    assert_eq!(r.step(true, false, 10), RenderAction::Stop);
    assert_eq!(r.step(true, true, 10), RenderAction::Stop);
    assert_eq!(r.generation(), 0);
}

#[test]
fn pause_is_announced_once() {
    let mut r = Renderer::new(false);
    assert_eq!(PAUSE_IDLE_MS, 500);
    assert_eq!(r.step(false, true, 10), RenderAction::Notice);
    assert_eq!(r.step(false, true, 10), RenderAction::Idle);
    assert_eq!(r.step(false, true, 10), RenderAction::Idle);
    assert_eq!(r.generation(), 0);
    assert_eq!(r.step(false, false, 10), RenderAction::Draw);
    assert_eq!(r.step(false, true, 10), RenderAction::Notice);
    assert_eq!(r.step(false, true, 10), RenderAction::Idle);
    assert_eq!(r.generation(), 1);
}

#[test]
fn a_show_that_starts_paused_is_not_announced() {
    let mut r = Renderer::new(true);
    assert_eq!(r.step(false, true, 10), RenderAction::Idle);
    assert_eq!(r.step(false, false, 10), RenderAction::Draw);
    assert_eq!(r.step(false, true, 10), RenderAction::Notice);
}

#[test]
fn frame_is_drawn_with_hashes_and_blanks() {
    let f = Field::from_string("010\n111\n000\n".to_string(), Rect::new(80, 24)).unwrap();
    assert_eq!(draw_frame(&f), " # \r\n###\r\n   \r\n");
    let one = Field::new(vec![vec![true]], Rect::new(1, 1)).unwrap();
    assert_eq!(draw_frame(&one), "#\r\n");
    let none = Field::new(vec![vec![], vec![]], Rect::new(1, 2)).unwrap();
    assert_eq!(draw_frame(&none), "\r\n\r\n");
}

#[test]
fn pause_notice_text() {
    assert_eq!(pause_notice(), "Paused!\r\n");
}

#[test]
fn keys_and_their_commands() {
    assert_eq!(POLL_MS, 150);
    assert_eq!(command(&key('q')), Command::Exit);
    assert_eq!(command(&key('p')), Command::TogglePause);
    assert_eq!(command(&key('j')), Command::StepDown);
    assert_eq!(command(&key('k')), Command::StepUp);
    assert_eq!(command(&key('c')), Command::Ignore);
    assert_eq!(command(&key('x')), Command::Ignore);
    assert_eq!(command(&key('Q')), Command::Ignore);
    assert_eq!(command(&key('P')), Command::Ignore);
    let no_symbol = KeyStroke {
        symbol: None,
        control: false,
        pressed: true,
    };
    assert_eq!(command(&no_symbol), Command::Ignore);
}

#[test]
fn control_leaves_only_c_a_meaning() {
    let with_control = |symbol: char| KeyStroke {
        symbol: Some(symbol),
        control: true,
        pressed: true,
    };
    assert_eq!(command(&with_control('c')), Command::Exit);
    assert_eq!(command(&with_control('q')), Command::Ignore);
    assert_eq!(command(&with_control('p')), Command::Ignore);
    assert_eq!(command(&with_control('j')), Command::Ignore);
    assert_eq!(command(&with_control('k')), Command::Ignore);
    let control_alone = KeyStroke {
        symbol: None,
        control: true,
        pressed: true,
    };
    assert_eq!(command(&control_alone), Command::Ignore);
}

#[test]
fn only_a_key_going_down_counts() {
    for symbol in ['q', 'p', 'j', 'k', 'c'] {
        for control in [false, true] {
            let released = KeyStroke {
                symbol: Some(symbol),
                control,
                pressed: false,
            };
            assert_eq!(command(&released), Command::Ignore);
        }
    }
}

#[test]
fn ladder_keys_set_the_delay() {
    let mut ladder = TimeoutIter::new(vec![10, 20, 30], 0).unwrap();
    assert_eq!(update_for(&mut ladder, &key('k')), Update::SetDelay(20));
    assert_eq!(update_for(&mut ladder, &key('k')), Update::SetDelay(30));
    assert_eq!(update_for(&mut ladder, &key('k')), Update::SetDelay(10));
    assert_eq!(update_for(&mut ladder, &key('j')), Update::SetDelay(30));
    assert_eq!(update_for(&mut ladder, &key('j')), Update::SetDelay(20));
    assert_eq!(update_for(&mut ladder, &key('q')), Update::Exit);
    assert_eq!(update_for(&mut ladder, &key('p')), Update::TogglePause);
    assert_eq!(update_for(&mut ladder, &key('x')), Update::Nothing);
    assert_eq!(ladder.value(), 20);
}

#[test]
fn hotkeys_change_the_control_state() {
    let app = App::new(blinker(), 1);
    let mut ladder = TimeoutIter::standard();
    hotkeys(&app, &mut ladder, &key('x'));
    assert!(!app.is_paused() && !app.is_should_exit());
    assert_eq!(app.upd_timeout(), 30);
    hotkeys(&app, &mut ladder, &key('k'));
    assert_eq!(app.upd_timeout(), 40);
    hotkeys(&app, &mut ladder, &key('j'));
    hotkeys(&app, &mut ladder, &key('j'));
    assert_eq!(app.upd_timeout(), 25);
    assert_eq!(ladder.value(), 25);
    hotkeys(&app, &mut ladder, &key('p'));
    assert!(app.is_paused());
    hotkeys(&app, &mut ladder, &key('p'));
    assert!(!app.is_paused());
    assert!(!app.is_should_exit());
    hotkeys(&app, &mut ladder, &key('q'));
    assert!(app.is_should_exit());
    assert_eq!(app.upd_timeout(), 25);
}

#[test]
fn control_c_asks_for_the_exit() {
    let app = App::new(blinker(), 1);
    let mut ladder = TimeoutIter::standard();
    let control_c = KeyStroke {
        symbol: Some('c'),
        control: true,
        pressed: true,
    };
    hotkeys(&app, &mut ladder, &control_c);
    assert!(app.is_should_exit());
    assert_eq!(ladder.value(), 30);
}
