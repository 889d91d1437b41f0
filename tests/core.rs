use kurve::{
    add_trails_from_buffer, generate_snakes, step_x, step_y, Colour, FrameOutcome, Match, Pixel,
    Round, Snake, TrailBitmap, TrailEntry, TrailQueue, TurnDirection, Vec2, BUFFER_DELAY, HEADINGS,
    PLAYER_MAX, SUBPIXELS, VELOCITY, intent_from_keys, validate_player_count, PlayerCountError,
};

fn px(n: i64) -> i64 {
    n * SUBPIXELS
}

fn snake_at(x: i64, y: i64, heading: u32, colour: Colour) -> Snake {
    Snake::new(Vec2::new(x, y), heading, colour)
}

#[test]
fn set_brightness_keeps_channel() {
    let mut c = Colour::Green(10);
    c.set_brightness(200);
    assert_eq!(c, Colour::Green(200));
    let mut b = Colour::Blue(255);
    b.set_brightness(0);
    assert_eq!(b, Colour::Blue(0));
}

#[test]
fn rgb_uses_own_channel() {
    assert_eq!(Colour::Red(7).rgb(), (7, 0, 0));
    assert_eq!(Colour::Green(8).rgb(), (0, 8, 0));
    assert_eq!(Colour::Blue(9).rgb(), (0, 0, 9));
}

#[test]
fn vector_arithmetic() {
    let a = Vec2::new(3, -4);
    let b = Vec2::new(10, 20);
    assert_eq!(a.add(&b), Vec2::new(13, 16));
    assert_eq!(a.sub(&b), Vec2::new(-7, -24));
    assert_eq!(a.scale(3), Vec2::new(9, -12));
    assert_eq!(a.len_squared(), 25);
    assert_eq!(Vec2::dot(&a, &b), 30 - 80);
    assert_eq!(a.perpendicular(), Vec2::new(4, 3));
    let mut c = a;
    c.add_assign(&b);
    assert_eq!(c, Vec2::new(13, 16));
    assert_eq!(Vec2::zero(), Vec2::new(0, 0));
    assert_eq!(a.x(), 3);
    assert_eq!(a.y(), -4);
}

#[test]
fn world_to_pixel_centre_and_flip() {
    assert_eq!(Vec2::zero().to_pixel(), Pixel::new(250, 250));
    assert_eq!(Vec2::new(px(10), px(10)).to_pixel(), Pixel::new(260, 240));
    assert_eq!(Vec2::new(-1, 1).to_pixel(), Pixel::new(249, 249));
    assert_eq!(Vec2::new(px(-250), 0).to_pixel(), Pixel::new(0, 250));
    assert_eq!(Vec2::new(px(-250) - 1, 0).to_pixel(), Pixel::new(0, 250));
    assert_eq!(Vec2::new(px(-250) - 512, 0).to_pixel(), Pixel::new(0, 250));
    assert_eq!(Vec2::new(px(-251) + 1, 0).to_pixel(), Pixel::new(0, 250));
    assert_eq!(Vec2::new(px(-251), 0).to_pixel(), Pixel::new(-1, 250));
    assert_eq!(Vec2::new(px(250) - 1, 0).to_pixel(), Pixel::new(499, 250));
    assert_eq!(Vec2::new(px(250), 0).to_pixel(), Pixel::new(500, 250));
    assert_eq!(Vec2::new(0, px(250) + 512).to_pixel(), Pixel::new(250, 0));
    assert_eq!(Vec2::new(0, px(251)).to_pixel(), Pixel::new(250, -1));
    assert_eq!(Vec2::new(0, px(-250) + 1).to_pixel(), Pixel::new(250, 499));
    assert_eq!(Vec2::new(0, px(-250)).to_pixel(), Pixel::new(250, 500));
    let p = Pixel::new(17, 401);
    assert_eq!(Vec2::from_pixel(p).to_pixel(), p);
    assert_eq!(Vec2::from_pixel(Pixel::new(250, 250)), Vec2::zero());
}

#[test]
fn vector_division_rounds_toward_zero() {
    assert_eq!(Vec2::new(7, -7).div(2), Vec2::new(3, -3));
    assert_eq!(Vec2::new(7, -7).div(-2), Vec2::new(-3, 3));
    assert_eq!(Vec2::new(px(10), px(-4)).div(4), Vec2::new(px(10) / 4, px(-1)));
    assert_eq!(Vec2::new(-1, 1).div(3), Vec2::zero());
}

#[test]
fn edge_band_centre_is_still_in_play() {
    // a centre half a pixel beyond the left edge lies in column 0 and lives
    let snakes = vec![
        snake_at(px(-250) - 512 + 2253, 0, 48, Colour::Red(255)),
        snake_at(0, 0, 24, Colour::Green(255)),
    ];
    let mut r = Round::new(snakes);
    assert_eq!(r.frame(&vec![None; 2], false), FrameOutcome::Running);
    assert_eq!(r.snakes[0].position().x(), px(-250) - 512);
    assert!(!r.dead[0]);
    assert_eq!(r.frame(&vec![None; 2], false), FrameOutcome::Ended { survivor: Some(1) });
    assert!(r.dead[0]);
}

#[test]
fn heading_table_cardinal_directions() {
    assert_eq!(VELOCITY, 2253);
    assert_eq!((step_x(0), step_y(0)), (2253, 0));
    assert_eq!((step_x(24), step_y(24)), (0, 2253));
    assert_eq!((step_x(48), step_y(48)), (-2253, 0));
    assert_eq!((step_x(72), step_y(72)), (0, -2253));
    assert_eq!((step_x(12), step_y(12)), (1593, 1593));
    for h in 0..HEADINGS {
        let (x, y) = (step_x(h) as f64, step_y(h) as f64);
        let len = (x * x + y * y).sqrt();
        assert!((len - 2253.0).abs() < 2.0);
    }
}

#[test]
fn straight_line_motion() {
    let start = snake_at(px(3), px(-7), 10, Colour::Red(255));
    let mut s = start;
    for _ in 0..50 {
        s.translate();
    }
    assert_eq!(s.position().x(), px(3) + 50 * step_x(10));
    assert_eq!(s.position().y(), px(-7) + 50 * step_y(10));
    assert_eq!(s.heading(), 10);
}

#[test]
fn turn_left_then_right_restores_heading() {
    for h in 0..HEADINGS {
        let mut s = snake_at(0, 0, h, Colour::Blue(255));
        s.turn(TurnDirection::Left);
        s.turn(TurnDirection::Right);
        assert_eq!(s.heading(), h);
        s.turn(TurnDirection::Right);
        s.turn(TurnDirection::Left);
        assert_eq!(s.heading(), h);
    }
    let mut s = snake_at(0, 0, 0, Colour::Blue(255));
    s.turn(TurnDirection::Right);
    assert_eq!(s.heading(), 95);
    s.turn(TurnDirection::Left);
    s.turn(TurnDirection::Left);
    assert_eq!(s.heading(), 1);
}

#[test]
fn new_snake_wraps_heading() {
    let s = snake_at(0, 0, 100, Colour::Red(1));
    assert_eq!(s.heading(), 4);
    assert_eq!(s.colour(), Colour::Red(1));
    assert_eq!(s.position(), Vec2::zero());
}

#[test]
fn draw_is_disc_around_centre() {
    let s = snake_at(0, 0, 0, Colour::Green(255));
    let pts = s.draw();
    assert_eq!(pts.len(), 25);
    for dx in -2..=2 {
        for dy in -2..=2 {
            assert!(pts.contains(&(Pixel::new(250 + dx, 250 - dy), Colour::Green(255))));
        }
    }
    assert_eq!(pts[0].0, Pixel::new(248, 252));
}

#[test]
fn bitmap_first_write_wins() {
    let mut t = TrailBitmap::new();
    let p = Pixel::new(10, 20);
    assert_eq!(t.get(p), None);
    t.set_if_empty(p, Colour::Red(255));
    t.set_if_empty(p, Colour::Blue(255));
    assert_eq!(t.get(p), Some(Colour::Red(255)));
    t.set_if_empty(p, Colour::Red(255));
    assert_eq!(t.get(p), Some(Colour::Red(255)));
    assert_eq!(t.get(Pixel::new(20, 10)), None);
}

#[test]
fn add_trail_marks_in_bounds_body() {
    let mut t = TrailBitmap::new();
    let s = snake_at(px(-250), px(250) - 1, 0, Colour::Blue(3));
    s.add_trail(&mut t);
    assert_eq!(t.get(Pixel::new(0, 0)), Some(Colour::Blue(3)));
    assert_eq!(t.get(Pixel::new(1, 2)), Some(Colour::Blue(3)));
    assert_eq!(t.get(Pixel::new(3, 0)), None);
}

#[test]
fn queue_skips_out_of_bounds_pixels() {
    let mut q = TrailQueue::new();
    let s = snake_at(px(-250), px(250) - 1, 0, Colour::Blue(3));
    s.add_trail_to_queue(4, &mut q);
    // columns 0, 1, 2 survive; rows for offsets 1, 0, -1, -2 are 0, 0, 1, 2
    assert_eq!(q.len(), 12);
    let s2 = snake_at(0, 0, 0, Colour::Red(3));
    s2.add_trail_to_queue(4, &mut q);
    assert_eq!(q.len(), 37);
}

fn entry(x: i32, frame: u64) -> TrailEntry {
    TrailEntry { pixel: Pixel::new(x, 0), colour: Colour::Red(255), frame }
}

#[test]
fn promotion_waits_for_delay_and_keeps_order() {
    assert_eq!(BUFFER_DELAY, 1);
    let mut q = TrailQueue::new();
    let mut t = TrailBitmap::new();
    q.enqueue(entry(1, 0));
    q.enqueue(TrailEntry { pixel: Pixel::new(1, 0), colour: Colour::Blue(9), frame: 0 });
    q.enqueue(entry(2, 1));
    q.enqueue(entry(3, 2));
    add_trails_from_buffer(0, &mut q, &mut t);
    assert_eq!(q.len(), 4);
    assert_eq!(t.get(Pixel::new(1, 0)), None);
    add_trails_from_buffer(1, &mut q, &mut t);
    assert_eq!(q.len(), 2);
    assert_eq!(t.get(Pixel::new(1, 0)), Some(Colour::Red(255)));
    assert_eq!(t.get(Pixel::new(2, 0)), None);
    add_trails_from_buffer(3, &mut q, &mut t);
    assert_eq!(q.len(), 0);
    assert_eq!(t.get(Pixel::new(2, 0)), Some(Colour::Red(255)));
    assert_eq!(t.get(Pixel::new(3, 0)), Some(Colour::Red(255)));
    add_trails_from_buffer(9, &mut q, &mut t);
    assert_eq!(q.len(), 0);
}

#[test]
fn generated_snakes_spawn_in_central_half() {
    let mut spread = false;
    for _ in 0..20 {
        let snakes = generate_snakes(PLAYER_MAX);
        assert_eq!(snakes.len(), 3);
        let colours = [Colour::Red(255), Colour::Green(255), Colour::Blue(255)];
        for (i, s) in snakes.iter().enumerate() {
            assert_eq!(s.colour(), colours[i]);
            assert!(s.heading() < HEADINGS);
            let p = s.position();
            assert!(p.x() >= px(-125) && p.x() < px(125));
            assert!(p.y() >= px(-125) && p.y() < px(125));
            spread |= p.x() != px(-125) || p.y() != px(-125) || s.heading() != 0;
        }
    }
    assert!(spread);
    assert_eq!(generate_snakes(0).len(), 0);
}

/// Runs one snake alone for `frames` frames, as a round would, and returns
/// the first frame on which it met trail.
fn lone_run(start: Snake, turn: Option<TurnDirection>, frames: u64) -> Option<u64> {
    let mut s = start;
    let mut q = TrailQueue::new();
    let mut t = TrailBitmap::new();
    for f in 0..frames {
        s.translate();
        if let Some(d) = turn {
            s.turn(d);
        }
        s.add_trail_to_queue(f, &mut q);
        if s.detect_trail_hit(&t) {
            return Some(f);
        }
        add_trails_from_buffer(f, &mut q, &mut t);
    }
    None
}

#[test]
fn lone_snake_never_hits_own_trail_straight() {
    for h in 0..HEADINGS {
        for off in [0, 300, 777] {
            let s = snake_at(off, -off, h, Colour::Red(255));
            assert_eq!(lone_run(s, None, 100), None);
        }
    }
}

#[test]
fn lone_snake_never_hits_own_trail_within_a_circle() {
    for h in (0..HEADINGS).step_by(3) {
        for d in [TurnDirection::Left, TurnDirection::Right] {
            for off in [0, 511] {
                let s = snake_at(off, off, h, Colour::Green(255));
                if let Some(f) = lone_run(s, Some(d), HEADINGS as u64 + 5) {
                    assert!(f + 1 >= HEADINGS as u64);
                }
            }
        }
    }
}

fn straight(n: usize) -> Vec<Option<TurnDirection>> {
    vec![None; n]
}

#[test]
fn wall_death_scores_the_other_player() {
    let snakes = vec![
        snake_at(px(240), 0, 0, Colour::Red(255)),
        snake_at(0, 0, 24, Colour::Green(255)),
    ];
    let mut m = Match::new(snakes);
    let mut outcome = FrameOutcome::Running;
    let mut frames = 0;
    while outcome == FrameOutcome::Running {
        outcome = m.frame(&straight(2), false);
        frames += 1;
        assert!(frames < 20);
    }
    assert_eq!(outcome, FrameOutcome::Ended { survivor: Some(1) });
    assert_eq!(m.scores, vec![0, 1]);
    assert!(m.round.dead[0]);
    assert!(!m.round.dead[1]);
    m.start_round(vec![
        snake_at(0, 0, 0, Colour::Red(255)),
        snake_at(px(20), px(20), 0, Colour::Green(255)),
    ]);
    assert_eq!(m.scores, vec![0, 1]);
    assert_eq!(m.round.frame_count, 0);
    assert_eq!(m.round.queue.len(), 0);
    assert!(m.round.trails.cells.iter().all(|c| c.is_none()));
    assert_eq!(m.round.dead, vec![false, false]);
}

#[test]
fn crossing_discs_do_not_kill_before_promotion() {
    let snakes = vec![
        snake_at(px(-12), 0, 0, Colour::Red(255)),
        snake_at(px(12), 0, 48, Colour::Green(255)),
        snake_at(px(-100), px(100), 24, Colour::Blue(255)),
    ];
    let mut r = Round::new(snakes);
    let mut overlapped = false;
    let mut outcome = FrameOutcome::Running;
    let mut frames = 0;
    while outcome == FrameOutcome::Running && frames < 40 {
        outcome = r.frame(&straight(3), false);
        frames += 1;
        let a = r.snakes[0].draw();
        let b = r.snakes[1].draw();
        let overlap = a.iter().any(|(p, _)| b.iter().any(|(q, _)| p == q));
        if overlap && !overlapped {
            overlapped = true;
            assert!(!r.dead[0] && !r.dead[1]);
        }
    }
    assert!(overlapped);
    assert!(r.dead[0] || r.dead[1]);
    assert!(!r.dead[2]);
}

#[test]
fn pause_freezes_the_round() {
    let snakes = vec![
        snake_at(0, 0, 0, Colour::Red(255)),
        snake_at(0, px(50), 48, Colour::Green(255)),
    ];
    let mut m = Match::new(snakes);
    for _ in 0..5 {
        assert_eq!(m.frame(&straight(2), false), FrameOutcome::Running);
    }
    let frame = m.round.frame_count;
    let snakes = m.round.snakes.clone();
    let queued = m.round.queue.len();
    let cells = m.round.trails.cells.clone();
    assert_eq!(m.frame(&vec![Some(TurnDirection::Left); 2], true), FrameOutcome::Paused);
    for _ in 0..10 {
        assert_eq!(m.frame(&vec![Some(TurnDirection::Right); 2], false), FrameOutcome::Paused);
        assert!(m.round.paused);
    }
    assert_eq!(m.round.frame_count, frame);
    assert_eq!(m.round.snakes, snakes);
    assert_eq!(m.round.queue.len(), queued);
    assert!(m.round.trails.cells == cells);
    assert_eq!(m.scores, vec![0, 0]);
    assert_eq!(m.frame(&straight(2), true), FrameOutcome::Running);
    assert!(!m.round.paused);
    assert_eq!(m.round.frame_count, frame + 1);
}

#[test]
fn simultaneous_deaths_award_nothing() {
    let snakes = vec![
        snake_at(px(245), 0, 0, Colour::Red(255)),
        snake_at(px(-245), 0, 48, Colour::Green(255)),
    ];
    let mut m = Match::new(snakes);
    assert_eq!(m.frame(&straight(2), false), FrameOutcome::Running);
    assert_eq!(m.frame(&straight(2), false), FrameOutcome::Running);
    assert_eq!(m.frame(&straight(2), false), FrameOutcome::Ended { survivor: None });
    assert_eq!(m.scores, vec![0, 0]);
    assert_eq!(m.round.alive_count(), 0);
    assert_eq!(m.round.survivor(), None);
    m.start_round(generate_snakes(2));
    assert_eq!(m.round.frame_count, 0);
    assert_eq!(m.round.dead, vec![false, false]);
    assert_eq!(m.scores, vec![0, 0]);
}

#[test]
fn trail_hit_kills_after_promotion() {
    let snakes = vec![
        snake_at(0, 0, 0, Colour::Red(255)),
        snake_at(px(100), px(100), 0, Colour::Green(255)),
    ];
    let mut r = Round::new(snakes);
    r.trails.set_if_empty(Pixel::new(252, 250), Colour::Blue(255));
    assert!(!r.snakes[0].detect_trail_hit(&r.trails));
    assert_eq!(r.frame(&straight(2), false), FrameOutcome::Ended { survivor: Some(1) });
    assert!(r.dead[0]);
    assert_eq!(r.frame_count, 0);
}


#[test]
fn player_count_limits() {
    assert_eq!(validate_player_count(0), Err(PlayerCountError::TooFew));
    assert_eq!(validate_player_count(1), Err(PlayerCountError::TooFew));
    assert_eq!(validate_player_count(2), Ok(2));
    assert_eq!(validate_player_count(3), Ok(3));
    assert_eq!(validate_player_count(4), Err(PlayerCountError::TooMany));
}

#[test]
fn key_pair_to_intent() {
    assert_eq!(intent_from_keys(true, false), Some(TurnDirection::Left));
    assert_eq!(intent_from_keys(false, true), Some(TurnDirection::Right));
    assert_eq!(intent_from_keys(true, true), None);
    assert_eq!(intent_from_keys(false, false), None);
}

#[test]
fn colour_text() {
    assert_eq!(Colour::Red(255).describe(), "Red(255)");
    assert_eq!(Colour::Green(0).describe(), "Green(0)");
    assert_eq!(Colour::Blue(42).describe(), "Blue(42)");
    assert_eq!(Colour::Blue(100).describe(), "Blue(100)");
}

#[test]
fn turning_follows_heading_steps() {
    let mut s = snake_at(0, 0, 0, Colour::Red(255));
    s.turn(TurnDirection::Left);
    s.translate();
    assert_eq!(s.position(), Vec2::new(step_x(1), step_y(1)));
    assert!(step_y(1) > 0);
}
