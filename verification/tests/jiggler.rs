use realistic_mouse_jiggler::config::{MovementDistance, MovementMode};
use realistic_mouse_jiggler::jiggler::{
    edge_bounds_supported, edge_position, random_moving_duration, random_pause_duration, EdgeProbe, Jiggler,
    PausePhase, PauseState, RandomState, RestoreMove, PAUSE_MAX_MS, PAUSE_MIN_MS, PAUSE_MOVE_MAX_MS,
    PAUSE_MOVE_MIN_MS, RANDOM_MAX_DURATION_MS, RANDOM_MIN_DURATION_MS, RANDOM_RADIUS_X,
};
use realistic_mouse_jiggler::platform::Platform;
use realistic_mouse_jiggler::screens::Bounds;

const SAMPLE_BOUNDS: Bounds = Bounds {
    min_x: 0,
    min_y: 0,
    max_x: 1919,
    max_y: 1079,
};

#[test]
fn edge_position_stays_within_bounds_and_reaches_edges() {
    let bounds = SAMPLE_BOUNDS;
    let mut min_seen = bounds.max_x;
    let mut max_seen = bounds.min_x;
    let steps = 20_000;
    for i in 0..steps {
        // The sweep is sampled every 10 ms.
        let elapsed_ms = i as u64 * 10;
        let (x, y) = edge_position(MovementMode::Simple, bounds, 540, elapsed_ms, 0);
        assert!(x >= bounds.min_x && x <= bounds.max_x, "x={x} out of bounds");
        assert_eq!(y, 540, "Simple edge-to-edge stays on the baseline row");
        min_seen = min_seen.min(x);
        max_seen = max_seen.max(x);
    }
    assert!(min_seen <= bounds.min_x + 2, "sweep never reached the left edge (min seen {min_seen})");
    assert!(max_seen >= bounds.max_x - 2, "sweep never reached the right edge (max seen {max_seen})");
}

#[test]
fn edge_position_realistic_clamps_vertical_wobble() {
    let bounds = Bounds {
        min_x: 0,
        min_y: 0,
        max_x: 100,
        max_y: 20,
    };
    for i in 0..5_000 {
        let elapsed = i as f64 * 0.01;
        let wobble = ((elapsed * 1.7).sin() * 18.0).round() as i32;
        let (_x, y) = edge_position(MovementMode::Realistic, bounds, 2, i as u64 * 10, wobble);
        assert!(y >= bounds.min_y && y <= bounds.max_y, "y={y} out of bounds");
    }
}

#[test]
fn edge_sweep_moves_at_1200_px_per_second_and_turns_back() {
    let b = Bounds { min_x: 100, min_y: 0, max_x: 1300, max_y: 10 };
    assert_eq!(edge_position(MovementMode::Simple, b, 5, 0, 0), (100, 5));
    assert_eq!(edge_position(MovementMode::Simple, b, 5, 500, 0), (700, 5));
    assert_eq!(edge_position(MovementMode::Simple, b, 5, 1000, 0), (1300, 5));
    assert_eq!(edge_position(MovementMode::Simple, b, 5, 1500, 0), (700, 5));
    assert_eq!(edge_position(MovementMode::Simple, b, 5, 2000, 0), (100, 5));
    // 30 ms is 36 px; 35 ms is 42 px.
    assert_eq!(edge_position(MovementMode::Simple, b, 5, 30, 0), (136, 5));
    assert_eq!(edge_position(MovementMode::Simple, b, 5, 35, 0), (142, 5));
    // The origin row is clamped, the wobble is added then clamped.
    assert_eq!(edge_position(MovementMode::Simple, b, 50, 0, 0), (100, 10));
    assert_eq!(edge_position(MovementMode::Realistic, b, 5, 0, -3), (100, 2));
    assert_eq!(edge_position(MovementMode::Realistic, b, 5, 0, 30), (100, 10));
}

#[test]
fn random_reroll_produces_in_range_duration_and_direction() {
    let mut random = RandomState::new();
    for _ in 0..1_000 {
        random.reroll();
        assert!(random.dir() == 1 || random.dir() == -1);
        assert!((RANDOM_MIN_DURATION_MS..=RANDOM_MAX_DURATION_MS).contains(&random.duration_ms()));
    }
}

#[test]
fn edge_bounds_supported_rejects_oversized_on_linux() {
    let ok = Bounds {
        min_x: 0,
        min_y: 0,
        max_x: 100,
        max_y: 100,
    };
    assert!(edge_bounds_supported(ok, Platform::Linux));

    let huge = Bounds {
        min_x: 0,
        min_y: 0,
        max_x: i32::from(i16::MAX) + 1,
        max_y: 100,
    };
    assert!(!edge_bounds_supported(huge, Platform::Linux));
    assert!(edge_bounds_supported(huge, Platform::Windows));
    assert!(edge_bounds_supported(huge, Platform::MacOs));
}

#[test]
fn pause_durations_stay_in_range() {
    for _ in 0..1_000 {
        assert!((PAUSE_MOVE_MIN_MS..=PAUSE_MOVE_MAX_MS).contains(&random_moving_duration()));
        assert!((PAUSE_MIN_MS..=PAUSE_MAX_MS).contains(&random_pause_duration()));
    }
}

#[test]
fn pause_starts_moving_then_alternates_and_always_resumes() {
    let mut pause = PauseState::new();
    pause.restart();
    assert_eq!(pause.phase(), PausePhase::Moving, "must start in a moving phase");

    let dt = 50_u32;
    let mut saw_pause = false;
    let mut saw_resume_after_pause = false;
    let mut longest_pause = 0_u64;
    let mut current_pause = 0_u64;

    // About 400 s of wall time: many move/pause cycles.
    for _ in 0..8_000 {
        if pause.update(dt) {
            if saw_pause {
                saw_resume_after_pause = true;
            }
            longest_pause = longest_pause.max(current_pause);
            current_pause = 0;
        } else {
            saw_pause = true;
            current_pause += dt as u64;
        }
    }
    longest_pause = longest_pause.max(current_pause);

    assert!(saw_pause, "Realistic mode never paused");
    assert!(saw_resume_after_pause, "movement did not resume after a pause");
    assert!(
        longest_pause <= PAUSE_MAX_MS + dt as u64,
        "a pause ran longer than the configured maximum: {longest_pause}"
    );
}

fn no_probe() -> EdgeProbe {
    EdgeProbe { supports_absolute: false, bounds: None, origin: None }
}

#[test]
fn default_run_moves_toward_targets_and_restores() {
    let mut j = Jiggler::new();
    assert!(!j.is_active());
    let note = j.begin_run(MovementMode::Realistic, MovementDistance::Default, no_probe(), Platform::Linux);
    assert!(!note);
    assert_eq!(j.advance(), Some(30));
    assert_eq!(j.default_move((5, 0)), Some((5, 0)));
    j.commit_default((5, 0));
    assert_eq!(j.advance(), Some(60));
    assert_eq!(j.default_move((5, 0)), None);
    assert_eq!(j.default_move((12, -3)), Some((7, -3)));
    j.commit_default((12, -3));
    assert_eq!(j.halt(true), Some(RestoreMove::Relative(-12, 3)));
    assert!(!j.is_active());
    assert_eq!(j.halt(true), None);
}

#[test]
fn halt_without_cursor_backend_restores_nothing() {
    let mut j = Jiggler::new();
    j.begin_run(MovementMode::Simple, MovementDistance::Default, no_probe(), Platform::Windows);
    j.advance();
    j.commit_default((40, 0));
    assert_eq!(j.halt(false), None);
}

#[test]
fn edge_run_falls_back_to_default_and_notes_it_once() {
    let mut j = Jiggler::new();
    assert!(j.begin_run(MovementMode::Simple, MovementDistance::EdgeToEdge, no_probe(), Platform::Linux));
    assert_eq!(j.distance(), MovementDistance::Default);
    j.halt(true);
    // A new run may note it again.
    let huge = Bounds { min_x: 0, min_y: 0, max_x: 40_000, max_y: 100 };
    let probe = EdgeProbe { supports_absolute: true, bounds: Some(huge), origin: Some((10, 10)) };
    assert!(j.begin_run(MovementMode::Simple, MovementDistance::EdgeToEdge, probe, Platform::Linux));
}

#[test]
fn edge_run_sweeps_and_returns_to_origin() {
    let mut j = Jiggler::new();
    let probe = EdgeProbe { supports_absolute: true, bounds: Some(SAMPLE_BOUNDS), origin: Some((300, 400)) };
    assert!(!j.begin_run(MovementMode::Simple, MovementDistance::EdgeToEdge, probe, Platform::Linux));
    assert_eq!(j.distance(), MovementDistance::EdgeToEdge);
    assert_eq!(j.advance(), Some(30));
    assert_eq!(j.edge_point(0), (36, 400));
    assert_eq!(j.halt(true), Some(RestoreMove::Absolute(300, 400)));
}

#[test]
fn random_run_stays_within_radius() {
    let mut j = Jiggler::new();
    j.begin_run(MovementMode::Simple, MovementDistance::Random, no_probe(), Platform::Linux);
    let mut x = 0_i32;
    for _ in 0..5_000 {
        j.advance();
        let step = j.random_move(0);
        if let Some((dx, _)) = step.delta {
            x += dx;
        }
        assert_eq!(x, step.x);
        assert!(step.x.abs() <= RANDOM_RADIUS_X);
        j.finish_random(step);
    }
    let restore = j.halt(true);
    if x != 0 {
        assert_eq!(restore, Some(RestoreMove::Relative(-x, 0)));
    } else {
        assert_eq!(restore, None);
    }
}

#[test]
fn realistic_run_pauses_and_freezes_the_clock() {
    let mut j = Jiggler::new();
    j.begin_run(MovementMode::Realistic, MovementDistance::Default, no_probe(), Platform::Linux);
    let mut last = 0_u64;
    let mut paused_ticks = 0;
    for _ in 0..2_000 {
        match j.advance() {
            Some(t) => {
                assert_eq!(t, last + 30);
                last = t;
            },
            None => paused_ticks += 1,
        }
    }
    assert!(paused_ticks > 0);
}

#[test]
fn simple_default_run_stays_horizontal() {
    let mut j = Jiggler::new();
    j.begin_run(MovementMode::Simple, MovementDistance::Default, no_probe(), Platform::Linux);
    assert_eq!(j.advance(), Some(30));
    assert_eq!(j.default_move((12, -3)), Some((12, 0)));
    j.commit_default((12, -3));
    assert_eq!(j.default_move((12, 25)), None);
    assert_eq!(j.halt(true), Some(RestoreMove::Relative(-12, 0)));
}

#[test]
fn simple_random_run_ignores_the_wobble() {
    let mut j = Jiggler::new();
    j.begin_run(MovementMode::Simple, MovementDistance::Random, no_probe(), Platform::Linux);
    j.advance();
    let step = j.random_move(7);
    assert_eq!(step.y, 0);
    assert_eq!(step.delta.map(|d| d.1), Some(0));
    assert_eq!(step.x.abs(), 10);
}

#[test]
fn realistic_random_run_follows_the_wobble() {
    let mut j = Jiggler::new();
    j.begin_run(MovementMode::Realistic, MovementDistance::Random, no_probe(), Platform::Linux);
    j.advance();
    let step = j.random_move(7);
    assert_eq!(step.y, 7);
    assert_eq!(step.delta, Some((step.x, 7)));
    j.finish_random(step);
    assert_eq!(j.halt(true), Some(RestoreMove::Relative(-step.x, -7)));
}

#[test]
fn settings_stay_frozen_during_a_run() {
    let mut j = Jiggler::new();
    j.begin_run(MovementMode::Realistic, MovementDistance::Random, no_probe(), Platform::Linux);
    for _ in 0..2_000 {
        if j.advance().is_some() {
            let step = j.random_move(-4);
            j.finish_random(step);
        }
        assert!(j.is_active());
        assert_eq!(j.mode(), MovementMode::Realistic);
        assert_eq!(j.distance(), MovementDistance::Random);
    }
}
