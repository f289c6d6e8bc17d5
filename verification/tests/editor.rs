use chaikin::{
    chaikin_step, precompute_iterations, segments, App, ClickMode, Flow, Key, MouseButton,
    MousePos, Pt, Segment, ANIM_INTERVAL_MS, CLICK_RADIUS, HEIGHT, MAX_STEPS, UNIT, WIDTH,
};

fn pos(x: f64, y: f64) -> MousePos {
    MousePos { x: (x * UNIT as f64) as i64, y: (y * UNIT as f64) as i64 }
}

fn spot(x: f64, y: f64) -> Pt {
    Pt::new((x * UNIT as f64) as u32, (y * UNIT as f64) as u32)
}

fn click(app: &mut App, button: MouseButton, x: f64, y: f64) {
    app.on_mouse_move(pos(x, y));
    app.on_mouse_button_down(button);
    app.on_mouse_button_up(button);
}

fn with_points(points: &[(f64, f64)]) -> App {
    let mut app = App::new();
    for &(x, y) in points {
        click(&mut app, MouseButton::Left, x, y);
    }
    app
}

#[test]
fn new_editor_is_empty_and_stopped() {
    let app = App::new();
    assert!(app.control_points().is_empty());
    assert_eq!(app.cached_iters().len(), 8);
    for level in app.cached_iters() {
        assert!(level.is_empty());
    }
    assert_eq!(app.dragging(), None);
    assert!(!app.anim_running());
    assert_eq!(app.anim_step(), 0);
}

#[test]
fn empty_editor_ignores_the_toggle_and_draws_nothing() {
    let mut app = App::new();
    assert_eq!(app.on_key_down(Key::Return, 5), Flow::Continue);
    assert!(!app.anim_running());
    assert_eq!(app.on_key_down(Key::NumpadEnter, 6), Flow::Continue);
    assert!(!app.anim_running());
    let frame = app.on_draw(10_000);
    assert!(frame.markers.is_empty());
    assert!(frame.context.is_empty());
    assert!(frame.active.is_empty());
    assert!(!frame.closed);
    assert!(!frame.lines_visible);
    assert!(segments(&frame.active, frame.closed).is_empty());
    assert_eq!(app.anim_step(), 0);
}

#[test]
fn left_click_adds_points_in_order() {
    let app = with_points(&[(0.0, 0.0), (10.0, 0.0), (10.0, 10.0)]);
    assert_eq!(
        app.control_points().to_vec(),
        vec![spot(0.0, 0.0), spot(10.0, 0.0), spot(10.0, 10.0)]
    );
    assert_eq!(app.dragging(), None);
}

#[test]
fn every_edit_rebuilds_the_whole_cache() {
    let mut app = App::new();
    let mut so_far: Vec<Pt> = Vec::new();
    for &(x, y) in &[(0.0, 0.0), (10.0, 0.0), (10.0, 10.0), (300.0, 20.0), (2.0, 3.0)] {
        click(&mut app, MouseButton::Left, x, y);
        so_far.push(spot(x, y));
        assert_eq!(app.cached_iters(), &precompute_iterations(&so_far, MAX_STEPS, false));
    }
    assert_eq!(app.cached_iters()[0].len(), 4);
}

#[test]
fn pointer_is_clamped_to_the_canvas() {
    assert_eq!(App::mouse_pos_to_pt(MousePos { x: -5, y: -1 }), Pt::new(0, 0));
    assert_eq!(
        App::mouse_pos_to_pt(MousePos { x: WIDTH as i64 + 1, y: HEIGHT as i64 + 9 }),
        Pt::new(WIDTH, HEIGHT)
    );
    assert_eq!(
        App::mouse_pos_to_pt(MousePos { x: WIDTH as i64, y: HEIGHT as i64 }),
        Pt::new(WIDTH, HEIGHT)
    );
    assert_eq!(App::mouse_pos_to_pt(MousePos { x: 17, y: 4 }), Pt::new(17, 4));
    assert_eq!(
        App::mouse_pos_to_pt(MousePos { x: i64::MIN, y: i64::MAX }),
        Pt::new(0, HEIGHT)
    );
    let app = with_points(&[(-3.0, 2000.0)]);
    assert_eq!(app.control_points().to_vec(), vec![Pt::new(0, HEIGHT)]);
}

#[test]
fn canvas_is_1024_by_860_units() {
    assert_eq!(WIDTH, 1024 * UNIT);
    assert_eq!(HEIGHT, 860 * UNIT);
    assert_eq!(CLICK_RADIUS, 10 * UNIT);
    assert_eq!(MAX_STEPS, 7);
    assert_eq!(ANIM_INTERVAL_MS, 800);
}

#[test]
fn find_returns_the_first_point_in_reach_not_the_nearest() {
    let app = with_points(&[(50.0, 50.0), (0.0, 0.0), (5.0, 0.0), (4.0, 0.0)]);
    assert_eq!(app.find_point_index_near(spot(4.0, 0.0), CLICK_RADIUS), Some(1));
    assert_eq!(app.find_point_index_near(spot(14.0, 0.0), CLICK_RADIUS), Some(2));
    assert_eq!(app.find_point_index_near(spot(50.0, 60.0), CLICK_RADIUS), Some(0));
    assert_eq!(app.find_point_index_near(spot(50.0, 60.1), CLICK_RADIUS), None);
    assert_eq!(app.find_point_index_near(spot(4.0, 0.0), 0), Some(3));
    assert_eq!(App::new().find_point_index_near(spot(4.0, 0.0), CLICK_RADIUS), None);
}

#[test]
fn right_button_drags_the_point_under_the_pointer() {
    let mut app = with_points(&[(0.0, 0.0), (100.0, 0.0), (100.0, 100.0)]);
    app.on_mouse_move(pos(103.0, 4.0));
    app.on_mouse_button_down(MouseButton::Right);
    assert_eq!(app.dragging(), Some(1));
    assert_eq!(app.control_points().len(), 3);
    app.on_mouse_move(pos(200.0, 50.0));
    assert_eq!(
        app.control_points().to_vec(),
        vec![spot(0.0, 0.0), spot(200.0, 50.0), spot(100.0, 100.0)]
    );
    assert_eq!(
        app.cached_iters(),
        &precompute_iterations(app.control_points(), MAX_STEPS, false)
    );
    app.on_mouse_move(pos(-7.0, 50.0));
    assert_eq!(app.control_points()[1], spot(0.0, 50.0));
    app.on_mouse_button_up(MouseButton::Right);
    assert_eq!(app.dragging(), None);
    app.on_mouse_move(pos(300.0, 300.0));
    assert_eq!(app.control_points()[1], spot(0.0, 50.0));
}

#[test]
fn right_button_away_from_any_point_drags_nothing() {
    let mut app = with_points(&[(0.0, 0.0), (100.0, 0.0)]);
    app.on_mouse_move(pos(50.0, 50.0));
    app.on_mouse_button_down(MouseButton::Right);
    assert_eq!(app.dragging(), None);
    app.on_mouse_move(pos(60.0, 60.0));
    assert_eq!(app.control_points().to_vec(), vec![spot(0.0, 0.0), spot(100.0, 0.0)]);
}

#[test]
fn other_buttons_do_nothing() {
    let mut app = with_points(&[(0.0, 0.0), (100.0, 0.0)]);
    app.on_mouse_move(pos(1.0, 1.0));
    app.on_mouse_button_down(MouseButton::Middle);
    app.on_mouse_button_down(MouseButton::Other);
    assert_eq!(app.dragging(), None);
    assert_eq!(app.control_points().len(), 2);
    app.on_mouse_button_down(MouseButton::Right);
    assert_eq!(app.dragging(), Some(0));
    app.on_mouse_button_up(MouseButton::Middle);
    app.on_mouse_button_up(MouseButton::Left);
    app.on_mouse_button_up(MouseButton::Other);
    assert_eq!(app.dragging(), Some(0));
}

#[test]
fn left_button_adds_even_on_top_of_a_point() {
    let mut app = with_points(&[(0.0, 0.0), (100.0, 0.0)]);
    click(&mut app, MouseButton::Left, 1.0, 1.0);
    assert_eq!(app.control_points().len(), 3);
    assert_eq!(app.dragging(), None);
}

#[test]
fn drag_does_not_outlive_a_clear() {
    let mut app = with_points(&[(0.0, 0.0), (100.0, 0.0), (100.0, 100.0)]);
    app.on_mouse_move(pos(100.0, 100.0));
    app.on_mouse_button_down(MouseButton::Right);
    assert_eq!(app.dragging(), Some(2));
    assert_eq!(app.on_key_down(Key::C, 0), Flow::Continue);
    assert!(app.control_points().is_empty());
    app.on_mouse_move(pos(30.0, 30.0));
    assert!(app.control_points().is_empty());
    assert_eq!(app.dragging(), None);
    for level in app.cached_iters() {
        assert!(level.is_empty());
    }
}

#[test]
fn stale_drag_ends_without_touching_newer_points() {
    let mut app = with_points(&[(0.0, 0.0), (100.0, 0.0), (100.0, 100.0)]);
    app.on_mouse_move(pos(100.0, 100.0));
    app.on_mouse_button_down(MouseButton::Right);
    app.on_key_down(Key::C, 0);
    app.on_mouse_button_down(MouseButton::Left);
    assert_eq!(app.control_points().to_vec(), vec![spot(100.0, 100.0)]);
    assert_eq!(app.dragging(), Some(2));
    app.on_mouse_move(pos(30.0, 30.0));
    assert_eq!(app.control_points().to_vec(), vec![spot(100.0, 100.0)]);
    assert_eq!(app.dragging(), None);
}

#[test]
fn clear_stops_the_playback_and_empties_everything() {
    let mut app = with_points(&[(0.0, 0.0), (100.0, 0.0), (100.0, 100.0)]);
    app.on_key_down(Key::Return, 0);
    app.on_draw(800);
    app.on_draw(1600);
    assert_eq!(app.anim_step(), 2);
    app.on_key_down(Key::C, 1700);
    assert!(app.control_points().is_empty());
    assert!(!app.anim_running());
    assert_eq!(app.anim_step(), 0);
    assert_eq!(app.cached_iters(), &precompute_iterations(&[], MAX_STEPS, false));
}

#[test]
fn escape_asks_to_quit_and_changes_nothing() {
    let mut app = with_points(&[(0.0, 0.0), (100.0, 0.0), (100.0, 100.0)]);
    app.on_key_down(Key::Return, 0);
    assert_eq!(app.on_key_down(Key::Escape, 50), Flow::Quit);
    assert!(app.anim_running());
    assert_eq!(app.control_points().len(), 3);
    assert_eq!(app.on_key_down(Key::Other, 60), Flow::Continue);
    assert!(app.anim_running());
    assert_eq!(app.control_points().len(), 3);
}

#[test]
fn playback_advances_once_per_interval_and_wraps() {
    let mut app = with_points(&[(0.0, 0.0), (100.0, 0.0), (100.0, 100.0)]);
    app.on_key_down(Key::Return, 1000);
    assert!(app.anim_running());
    assert_eq!(app.anim_step(), 0);
    app.on_draw(1000);
    assert_eq!(app.anim_step(), 0);
    app.on_draw(1799);
    assert_eq!(app.anim_step(), 0);
    app.on_draw(1800);
    assert_eq!(app.anim_step(), 1);
    app.on_draw(2599);
    assert_eq!(app.anim_step(), 1);
    app.on_draw(2600);
    assert_eq!(app.anim_step(), 2);
    let mut now: u64 = 2600;
    for expected in [3usize, 4, 5, 6, 7, 0, 1] {
        now += ANIM_INTERVAL_MS;
        app.on_draw(now);
        assert_eq!(app.anim_step(), expected);
    }
}

#[test]
fn playback_advances_one_level_however_late_the_frame() {
    let mut app = with_points(&[(0.0, 0.0), (100.0, 0.0), (100.0, 100.0)]);
    app.on_key_down(Key::Return, 0);
    app.on_draw(10_000);
    assert_eq!(app.anim_step(), 1);
    app.on_draw(10_799);
    assert_eq!(app.anim_step(), 1);
    app.on_draw(10_800);
    assert_eq!(app.anim_step(), 2);
}

#[test]
fn playback_waits_while_the_clock_runs_backwards() {
    let mut app = with_points(&[(0.0, 0.0), (100.0, 0.0), (100.0, 100.0)]);
    app.on_key_down(Key::Return, 5000);
    app.on_draw(100);
    assert_eq!(app.anim_step(), 0);
    app.on_draw(5800);
    assert_eq!(app.anim_step(), 1);
}

#[test]
fn pausing_shows_the_first_level_at_the_next_frame() {
    let mut app = with_points(&[(0.0, 0.0), (100.0, 0.0), (100.0, 100.0)]);
    app.on_key_down(Key::Return, 0);
    app.on_draw(800);
    app.on_draw(1600);
    app.on_draw(2400);
    assert_eq!(app.anim_step(), 3);
    app.on_key_down(Key::NumpadEnter, 2500);
    assert!(!app.anim_running());
    assert_eq!(app.anim_step(), 3);
    let frame = app.on_draw(2600);
    assert_eq!(app.anim_step(), 0);
    assert!(!frame.lines_visible);
    assert_eq!(frame.active, app.cached_iters()[0]);
    app.on_key_down(Key::Return, 9000);
    assert!(app.anim_running());
    assert_eq!(app.anim_step(), 0);
    app.on_draw(9799);
    assert_eq!(app.anim_step(), 0);
    app.on_draw(9800);
    assert_eq!(app.anim_step(), 1);
}

#[test]
fn playback_rests_below_three_points() {
    let mut app = with_points(&[(0.0, 0.0), (100.0, 0.0)]);
    app.on_key_down(Key::Return, 0);
    assert!(app.anim_running());
    let frame = app.on_draw(5000);
    assert_eq!(app.anim_step(), 0);
    assert!(app.anim_running());
    assert!(frame.lines_visible);
    assert!(frame.context.is_empty());
    assert_eq!(frame.active, vec![spot(0.0, 0.0), spot(100.0, 0.0)]);
    assert_eq!(frame.markers, vec![spot(0.0, 0.0), spot(100.0, 0.0)]);
    assert!(!frame.closed);
    assert_eq!(
        segments(&frame.active, frame.closed),
        vec![Segment { a: spot(0.0, 0.0), b: spot(100.0, 0.0) }]
    );
}

#[test]
fn frame_shows_the_level_at_the_current_step() {
    let mut app = with_points(&[(0.0, 0.0), (10.0, 0.0), (10.0, 10.0)]);
    app.on_key_down(Key::Return, 0);
    let frame = app.on_draw(0);
    let control = vec![spot(0.0, 0.0), spot(10.0, 0.0), spot(10.0, 10.0)];
    assert_eq!(frame.markers, control);
    assert_eq!(frame.context, control);
    assert_eq!(frame.active, control);
    assert!(!frame.closed);
    assert!(frame.lines_visible);
    let frame = app.on_draw(800);
    assert_eq!(
        frame.active,
        vec![
            spot(0.0, 0.0),
            spot(2.5, 0.0),
            spot(7.5, 0.0),
            spot(10.0, 2.5),
            spot(10.0, 7.5),
            spot(10.0, 10.0),
        ]
    );
    assert_eq!(frame.context, control);
    let frame = app.on_draw(1600);
    assert_eq!(frame.active, chaikin_step(&chaikin_step(&control, false), false));
    assert_eq!(frame.active, app.cached_iters()[2]);
}

#[test]
fn frame_of_a_closed_curve_drops_the_closing_point_from_the_curve_only() {
    let mut app = with_points(&[(0.0, 0.0), (100.0, 0.0), (50.0, 86.6), (1.0, 1.0)]);
    app.on_key_down(Key::Return, 0);
    let frame = app.on_draw(0);
    assert!(frame.closed);
    assert_eq!(frame.markers.len(), 4);
    assert_eq!(frame.context.len(), 4);
    assert_eq!(frame.active.len(), 3);
    assert_eq!(frame.active, frame.markers[..3].to_vec());
    assert_eq!(segments(&frame.context, frame.closed).len(), 4);
    assert_eq!(segments(&frame.active, frame.closed).len(), 3);
    let frame = app.on_draw(800);
    assert_eq!(frame.active.len(), 6);
    assert_eq!(frame.active, chaikin_step(&frame.markers[..3], true));
}

#[test]
fn dragging_the_last_point_onto_the_first_closes_the_curve() {
    let mut app = with_points(&[(0.0, 0.0), (100.0, 0.0), (50.0, 86.6), (200.0, 200.0)]);
    assert_eq!(app.cached_iters()[0].len(), 4);
    assert_eq!(app.cached_iters()[1].len(), 8);
    app.on_mouse_move(pos(200.0, 200.0));
    app.on_mouse_button_down(MouseButton::Right);
    assert_eq!(app.dragging(), Some(3));
    app.on_mouse_move(pos(3.0, 4.0));
    assert_eq!(app.cached_iters()[0].len(), 3);
    assert_eq!(app.cached_iters()[1].len(), 6);
    app.on_mouse_move(pos(30.0, 40.0));
    assert_eq!(app.cached_iters()[0].len(), 4);
}

#[test]
fn segments_join_consecutive_points() {
    let a = spot(0.0, 0.0);
    let b = spot(1.0, 0.0);
    let c = spot(1.0, 1.0);
    assert!(segments(&[], true).is_empty());
    assert!(segments(&[a], true).is_empty());
    assert_eq!(segments(&[a, b], false), vec![Segment { a, b }]);
    assert_eq!(segments(&[a, b], true), vec![Segment { a, b }, Segment { a: b, b: a }]);
    assert_eq!(
        segments(&[a, b, c], false),
        vec![Segment { a, b }, Segment { a: b, b: c }]
    );
    assert_eq!(
        segments(&[a, b, c], true),
        vec![Segment { a, b }, Segment { a: b, b: c }, Segment { a: c, b: a }]
    );
}

#[test]
fn store_operations_edit_in_place() {
    let mut app = App::new();
    app.append(spot(1.0, 1.0));
    app.append(spot(2.0, 2.0));
    app.append(spot(300.0, 3.0));
    app.replace_at(1, spot(20.0, 20.0));
    assert_eq!(
        app.control_points().to_vec(),
        vec![spot(1.0, 1.0), spot(20.0, 20.0), spot(300.0, 3.0)]
    );
    assert_eq!(
        app.cached_iters(),
        &precompute_iterations(app.control_points(), MAX_STEPS, false)
    );
    app.on_key_down(Key::Return, 0);
    app.on_draw(800);
    assert!(app.anim_running());
    assert_eq!(app.anim_step(), 1);
    app.clear();
    assert!(app.control_points().is_empty());
    assert!(!app.anim_running());
    assert_eq!(app.anim_step(), 0);
    assert_eq!(app.cached_iters(), &precompute_iterations(&[], MAX_STEPS, false));
}

#[test]
fn level_on_show_is_always_a_cached_level() {
    let mut app = App::new();
    let mut now: u64 = 0;
    for &(x, y) in &[(0.0, 0.0), (100.0, 0.0), (100.0, 100.0), (0.0, 100.0)] {
        click(&mut app, MouseButton::Left, x, y);
        app.on_key_down(Key::Return, now);
        for _ in 0..20 {
            now += 500;
            let frame = app.on_draw(now);
            let step = app.anim_step();
            assert!(step <= MAX_STEPS);
            if app.control_points().len() < 3 {
                assert_eq!(step, 0);
            }
            assert_eq!(frame.active, app.cached_iters()[step]);
        }
    }
}

#[test]
fn frames_of_the_same_state_are_equal() {
    let mut app = with_points(&[(0.0, 0.0), (100.0, 0.0), (100.0, 100.0)]);
    let first = app.on_draw(0);
    let second = app.on_draw(1);
    assert_eq!(first, second);
    app.on_key_down(Key::Return, 2);
    let third = app.on_draw(3);
    assert_ne!(first, third);
    assert_eq!(first.active, third.active);
}

#[test]
fn single_button_mode_drags_a_point_in_reach() {
    let mut app = App::with_click_mode(ClickMode::DragOrAdd);
    click(&mut app, MouseButton::Left, 0.0, 0.0);
    click(&mut app, MouseButton::Left, 100.0, 0.0);
    assert_eq!(app.control_points().len(), 2);
    app.on_mouse_move(pos(97.0, 4.0));
    app.on_mouse_button_down(MouseButton::Left);
    assert_eq!(app.dragging(), Some(1));
    assert_eq!(app.control_points().len(), 2);
    app.on_mouse_move(pos(150.0, 150.0));
    assert_eq!(app.control_points()[1], spot(150.0, 150.0));
    app.on_mouse_button_up(MouseButton::Left);
    assert_eq!(app.dragging(), None);
    click(&mut app, MouseButton::Left, 300.0, 300.0);
    assert_eq!(app.control_points().len(), 3);
    app.on_mouse_move(pos(1.0, 1.0));
    app.on_mouse_button_down(MouseButton::Right);
    assert_eq!(app.dragging(), Some(0));
    app.on_mouse_button_up(MouseButton::Right);
    assert_eq!(app.dragging(), None);
}
