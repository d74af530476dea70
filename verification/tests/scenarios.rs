use paddle_balls::{
    ball_from_samples, ball_movement, ball_player_collision, player_movement,
    restrict_player_movement, side_of_collision, spawn_ball, spawn_camera, spawn_player, tick,
    update_ball_direction, Ball, Direction, Frame, Hit, Keys, Player, Point, Side, Window, World,
    NUMBER_OF_BALLS,
};

fn window() -> Window {
    Window { width: 800_000, height: 600_000 }
}

fn heading(x: i32, y: i32) -> Direction {
    Direction::new(x, y).unwrap()
}

fn world_with_player(x: i64, y: i64) -> World {
    let mut world = World::new();
    world.players.push(Player { position: Point { x, y } });
    world
}

fn ball(x: i64, y: i64, direction: Direction) -> Ball {
    Ball { position: Point { x, y }, direction }
}

fn world_with_ball(x: i64, y: i64, direction: Direction) -> World {
    let mut world = World::new();
    world.balls.push(ball(x, y, direction));
    world
}

#[test]
fn player_spawns_a_ninth_across_and_halfway_up() {
    let mut world = World::new();
    spawn_player(&mut world, &window());
    assert_eq!(world.players, vec![Player { position: Point { x: 88_889, y: 300_000 } }]);
    assert!(world.balls.is_empty());
    assert!(world.cameras.is_empty());
}

#[test]
fn player_start_is_rounded_to_the_nearest_unit() {
    let starts = [
        (0, 0, 0, 0),
        (4, 1, 0, 1),
        (5, 2, 1, 1),
        (9, 3, 1, 2),
        (13, 4, 1, 2),
        (14, 5, 2, 3),
        (1_024_000, 768_001, 113_778, 384_001),
        (u32::MAX, u32::MAX, 477_218_588, 2_147_483_648),
    ];
    for (width, height, x, y) in starts {
        let mut world = World::new();
        spawn_player(&mut world, &Window { width, height });
        assert_eq!(world.players[0].position, Point { x, y });
    }
}

#[test]
fn camera_spawns_in_the_middle() {
    let mut world = World::new();
    spawn_camera(&mut world, &window());
    assert_eq!(world.cameras.len(), 1);
    assert_eq!(world.cameras[0].position, Point { x: 400_000, y: 300_000 });
    assert!(world.players.is_empty());
}

#[test]
fn three_balls_spawn_in_the_middle_with_unit_headings() {
    let mut world = World::new();
    spawn_ball(&mut world, &window());
    assert_eq!(NUMBER_OF_BALLS, 3);
    assert_eq!(world.balls.len(), 3);
    for ball in &world.balls {
        assert_eq!(ball.position, Point { x: 400_000, y: 300_000 });
        assert!(ball.direction.is_unit());
        assert!(ball.direction.x() >= 0);
        assert!(ball.direction.y() >= 0);
    }
}

#[test]
fn spawned_balls_keep_their_headings_through_a_reflection_in_the_middle() {
    let mut world = World::new();
    spawn_ball(&mut world, &window());
    let before = world.clone();
    update_ball_direction(&mut world, &window());
    assert_eq!(world, before);
}

#[test]
fn spawning_balls_keeps_what_is_there() {
    let mut world = world_with_ball(1, 2, heading(0, 1_000_000));
    world.players.push(Player { position: Point { x: 7, y: 8 } });
    spawn_ball(&mut world, &window());
    assert_eq!(world.balls.len(), 4);
    assert_eq!(world.balls[0], ball(1, 2, heading(0, 1_000_000)));
    assert_eq!(world.players, vec![Player { position: Point { x: 7, y: 8 } }]);
}

#[test]
fn spawned_headings_are_drawn_anew() {
    let mut headings = Vec::new();
    for _ in 0..8 {
        let mut world = World::new();
        spawn_ball(&mut world, &window());
        for ball in &world.balls {
            headings.push(ball.direction);
        }
    }
    assert_eq!(headings.len(), 24);
    assert!(headings.iter().any(|d| *d != headings[0]));
}

#[test]
fn player_left_of_the_window_is_brought_to_the_edge() {
    let mut world = world_with_player(5_000, 300_000);
    restrict_player_movement(&mut world, &window());
    assert_eq!(world.players[0].position, Point { x: 10_000, y: 300_000 });
}

#[test]
fn player_is_held_on_each_axis_by_itself() {
    let mut world = world_with_player(900_000, -3);
    restrict_player_movement(&mut world, &window());
    assert_eq!(world.players[0].position, Point { x: 790_000, y: 35_000 });

    let mut world = world_with_player(400_000, 700_000);
    restrict_player_movement(&mut world, &window());
    assert_eq!(world.players[0].position, Point { x: 400_000, y: 565_000 });

    let mut world = world_with_player(10_000, 565_000);
    restrict_player_movement(&mut world, &window());
    assert_eq!(world.players[0].position, Point { x: 10_000, y: 565_000 });
}

#[test]
fn restriction_twice_is_restriction_once() {
    let starts = [(5_000, 300_000), (-70_000, 900_000), (400_000, 300_000), (i64::MAX, i64::MIN)];
    for (x, y) in starts {
        let mut once = world_with_player(x, y);
        restrict_player_movement(&mut once, &window());
        let mut twice = once.clone();
        restrict_player_movement(&mut twice, &window());
        assert_eq!(once, twice);
    }
}

#[test]
fn restriction_in_a_window_too_small_goes_back_and_forth() {
    let narrow = Window { width: 10_000, height: 600_000 };
    let mut world = world_with_player(5_000, 300_000);
    restrict_player_movement(&mut world, &narrow);
    assert_eq!(world.players[0].position.x, 10_000);
    restrict_player_movement(&mut world, &narrow);
    assert_eq!(world.players[0].position.x, 0);
}

#[test]
fn systems_leave_a_world_without_a_single_player_alone() {
    let keys = Keys { left: false, right: true, up: true, down: false };
    let mut none = world_with_ball(8_000, 300_000, heading(1_000_000, 0));
    let before = none.clone();
    player_movement(&mut none, keys, 1_000_000);
    restrict_player_movement(&mut none, &window());
    let hits = ball_player_collision(&mut none);
    assert_eq!(none, before);
    assert!(hits.is_empty());

    let mut two = world_with_player(5_000, 5_000);
    two.players.push(Player { position: Point { x: 5_000, y: 5_000 } });
    two.balls.push(ball(5_000, 5_000, heading(0, 1_000_000)));
    let before = two.clone();
    player_movement(&mut two, keys, 1_000_000);
    restrict_player_movement(&mut two, &window());
    let hits = ball_player_collision(&mut two);
    assert_eq!(two, before);
    assert!(hits.is_empty());
}

#[test]
fn ball_outside_an_edge_is_turned_round_at_every_tick() {
    let mut world = world_with_ball(8_000, 300_000, heading(600_000, 800_000));
    update_ball_direction(&mut world, &window());
    assert_eq!(world.balls[0].direction, heading(-600_000, 800_000));
    assert_eq!(world.balls[0].position, Point { x: 8_000, y: 300_000 });
    update_ball_direction(&mut world, &window());
    assert_eq!(world.balls[0].direction, heading(600_000, 800_000));
}

#[test]
fn ball_is_turned_on_each_axis_on_which_it_is_outside() {
    let mut world = world_with_ball(790_000, 590_000, heading(600_000, 800_000));
    world.balls.push(ball(16_000, 584_000, heading(600_000, 800_000)));
    world.balls.push(ball(400_000, 15_999, heading(600_000, -800_000)));
    world.balls.push(ball(784_001, 300_000, heading(600_000, 800_000)));
    update_ball_direction(&mut world, &window());
    assert_eq!(world.balls[0].direction, heading(-600_000, -800_000));
    assert_eq!(world.balls[1].direction, heading(600_000, 800_000));
    assert_eq!(world.balls[2].direction, heading(600_000, 800_000));
    assert_eq!(world.balls[3].direction, heading(-600_000, 800_000));
}

#[test]
fn reflection_keeps_headings_of_length_one() {
    let mut world = world_with_ball(8_000, 8_000, Direction::normalized(3, 7));
    world.balls.push(ball(900_000, 300_000, Direction::normalized(-5, 2)));
    for _ in 0..5 {
        assert!(world.balls.iter().all(|b| b.direction.is_unit()));
        update_ball_direction(&mut world, &window());
    }
    assert!(world.balls.iter().all(|b| b.direction.is_unit()));
}

#[test]
fn balls_travel_along_their_headings() {
    let mut world = world_with_ball(400_000, 300_000, heading(600_000, -800_000));
    ball_movement(&mut world, 1_000_000);
    assert_eq!(world.balls[0].position, Point { x: 760_000, y: -180_000 });
    assert_eq!(world.balls[0].direction, heading(600_000, -800_000));
    ball_movement(&mut world, 16_667);
    assert_eq!(world.balls[0].position, Point { x: 766_000, y: -188_000 });
    ball_movement(&mut world, 0);
    assert_eq!(world.balls[0].position, Point { x: 766_000, y: -188_000 });
}

#[test]
fn travel_is_rounded_toward_zero_either_way() {
    let mut world = world_with_ball(0, 0, heading(707_106, -707_106));
    ball_movement(&mut world, 16_667);
    assert_eq!(world.balls[0].position, Point { x: 7_071, y: -7_071 });
    let mut world = world_with_ball(0, 0, heading(1, -1));
    ball_movement(&mut world, 1_666_666);
    assert_eq!(world.balls[0].position, Point { x: 0, y: 0 });
    ball_movement(&mut world, 1_666_667);
    assert_eq!(world.balls[0].position, Point { x: 1, y: -1 });
}

#[test]
fn positions_stop_at_the_ends_of_the_range() {
    let mut world = world_with_ball(i64::MAX - 5, i64::MIN + 5, heading(1_000_000, -1_000_000));
    ball_movement(&mut world, 1_000_000);
    assert_eq!(world.balls[0].position, Point { x: i64::MAX, y: i64::MIN });
    let mut world = world_with_ball(0, 0, heading(1_000_000, -1_000_000));
    ball_movement(&mut world, u64::MAX);
    assert_eq!(world.balls[0].position, Point { x: i64::MAX, y: i64::MIN });
}

#[test]
fn player_moves_as_the_keys_ask() {
    let right = Keys { left: false, right: true, up: false, down: false };
    let mut world = world_with_player(100_000, 100_000);
    player_movement(&mut world, right, 500_000);
    assert_eq!(world.players[0].position, Point { x: 400_000, y: 100_000 });

    let down_left = Keys { left: true, right: false, up: false, down: true };
    let mut world = world_with_player(100_000, 100_000);
    player_movement(&mut world, down_left, 1_000_000);
    assert_eq!(world.players[0].position, Point { x: -324_263, y: -324_263 });

    let up = Keys { left: false, right: false, up: true, down: false };
    let mut world = world_with_player(100_000, 100_000);
    player_movement(&mut world, up, 16_667);
    assert_eq!(world.players[0].position, Point { x: 100_000, y: 110_000 });
}

#[test]
fn opposite_keys_cancel() {
    let all = Keys { left: true, right: true, up: true, down: true };
    assert_eq!(all.direction(), Direction::zero());
    assert_eq!(Keys::none().direction(), Direction::zero());
    let mut world = world_with_player(100_000, 100_000);
    player_movement(&mut world, all, 1_000_000);
    assert_eq!(world.players[0].position, Point { x: 100_000, y: 100_000 });
    let three = Keys { left: true, right: true, up: false, down: true };
    assert_eq!(three.direction(), heading(0, -1_000_000));
}

#[test]
fn keys_give_headings_of_length_one() {
    let up_right = Keys { left: false, right: true, up: true, down: false };
    assert_eq!(up_right.direction(), heading(707_106, 707_106));
    let up_left = Keys { left: true, right: false, up: true, down: false };
    assert_eq!(up_left.direction(), heading(-707_106, 707_106));
    let left = Keys { left: true, right: false, up: false, down: false };
    assert_eq!(left.direction(), heading(-1_000_000, 0));
    assert!(up_right.direction().is_unit());
    assert!(left.direction().is_unit());
}

#[test]
fn ball_beside_the_player_hits_on_x() {
    let mut world = world_with_player(100_000, 100_000);
    world.balls.push(ball(120_000, 100_000, heading(-600_000, 800_000)));
    let hits = ball_player_collision(&mut world);
    assert_eq!(hits, vec![Hit { ball: 0, side: Side::X }]);
    assert_eq!(world.balls[0].direction, heading(600_000, -800_000));
    assert_eq!(world.balls[0].position, Point { x: 120_000, y: 100_000 });
    assert_eq!(world.players[0].position, Point { x: 100_000, y: 100_000 });
}

#[test]
fn ball_above_the_player_hits_on_y() {
    let mut world = world_with_player(100_000, 100_000);
    world.balls.push(ball(106_000, 150_000, heading(0, -1_000_000)));
    let hits = ball_player_collision(&mut world);
    assert_eq!(hits, vec![Hit { ball: 0, side: Side::Y }]);
    assert_eq!(world.balls[0].direction, heading(0, 1_000_000));
}

#[test]
fn ball_looked_at_on_x_is_not_looked_at_on_y() {
    let mut world = world_with_player(100_000, 100_000);
    world.balls.push(ball(110_000, 130_000, heading(0, -1_000_000)));
    let hits = ball_player_collision(&mut world);
    assert!(hits.is_empty());
    assert_eq!(world.balls[0].direction, heading(0, -1_000_000));
}

#[test]
fn contact_needs_the_distance_to_be_less_than_the_reach() {
    let side = |x: i64, y: i64| side_of_collision(&Point { x: 0, y: 0 }, &Point { x, y });
    assert_eq!(side(25_999, 0), Some(Side::X));
    assert_eq!(side(26_000, 0), None);
    assert_eq!(side(-10_000, 24_000), None);
    assert_eq!(side(-10_000, 23_999), Some(Side::X));
    assert_eq!(side(6_000, 50_000), Some(Side::Y));
    assert_eq!(side(6_001, 50_000), None);
    assert_eq!(side(0, -50_999), Some(Side::Y));
    assert_eq!(side(0, -51_000), None);
    assert_eq!(side(-6_000, 0), Some(Side::Y));
    let low = Point { x: i64::MIN, y: i64::MIN };
    let high = Point { x: i64::MAX, y: i64::MAX };
    assert_eq!(side_of_collision(&low, &high), None);
    assert_eq!(side_of_collision(&high, &low), None);
}

#[test]
fn hits_are_reported_in_the_order_of_the_balls() {
    let mut world = world_with_player(100_000, 100_000);
    let d = heading(1_000_000, 0);
    world.balls.push(ball(100_000, 140_000, d));
    world.balls.push(ball(400_000, 300_000, d));
    world.balls.push(ball(80_000, 100_000, d));
    let hits = ball_player_collision(&mut world);
    assert_eq!(hits, vec![Hit { ball: 0, side: Side::Y }, Hit { ball: 2, side: Side::X }]);
    assert_eq!(world.balls[0].direction, heading(-1_000_000, 0));
    assert_eq!(world.balls[1].direction, d);
    assert_eq!(world.balls[2].direction, heading(-1_000_000, 0));
}

#[test]
fn tick_runs_the_systems_in_order() {
    let mut world = world_with_player(20_000, 300_000);
    world.balls.push(ball(780_000, 300_000, heading(1_000_000, 0)));
    world.balls.push(ball(50_000, 300_000, heading(-1_000_000, 0)));
    let frame = Frame {
        window: window(),
        keys: Keys { left: true, right: false, up: false, down: false },
        dt: 20_000,
    };
    let hits = tick(&mut world, &frame);
    assert_eq!(world.players[0].position, Point { x: 10_000, y: 300_000 });
    assert_eq!(world.balls[0].position, Point { x: 792_000, y: 300_000 });
    assert_eq!(world.balls[0].direction, heading(-1_000_000, 0));
    assert_eq!(world.balls[1].position, Point { x: 38_000, y: 300_000 });
    assert_eq!(world.balls[1].direction, heading(-1_000_000, 0));
    assert!(hits.is_empty());

    let hits = tick(&mut world, &frame);
    assert_eq!(world.players[0].position, Point { x: 10_000, y: 300_000 });
    assert_eq!(world.balls[0].position, Point { x: 780_000, y: 300_000 });
    assert_eq!(world.balls[0].direction, heading(-1_000_000, 0));
    assert_eq!(world.balls[1].position, Point { x: 26_000, y: 300_000 });
    assert_eq!(world.balls[1].direction, heading(1_000_000, 0));
    assert_eq!(hits, vec![Hit { ball: 1, side: Side::X }]);
}

#[test]
fn player_stays_inside_the_window_whatever_the_keys() {
    let mut world = world_with_player(400_000, 300_000);
    let held = [
        Keys { left: true, right: false, up: true, down: false },
        Keys { left: true, right: false, up: false, down: false },
        Keys { left: false, right: true, up: false, down: true },
        Keys { left: false, right: true, up: false, down: true },
        Keys { left: false, right: false, up: true, down: false },
    ];
    for round in 0..40 {
        let frame = Frame { window: window(), keys: held[round % held.len()], dt: 250_000 };
        tick(&mut world, &frame);
        let p = world.players[0].position;
        assert!(10_000 <= p.x && p.x <= 790_000);
        assert!(35_000 <= p.y && p.y <= 565_000);
    }
}

#[test]
fn same_start_and_same_frames_give_the_same_end() {
    let mut first = world_with_player(88_889, 300_000);
    let words = [(0x1234_5678u32, 0x9abc_def0u32), (7, 0xffff_ffff), (0x8000_0000, 0x8000_0000)];
    for (a, b) in words {
        first.balls.push(ball_from_samples(&window(), a, b));
    }
    let mut second = first.clone();
    let mut log_first = Vec::new();
    let mut log_second = Vec::new();
    for round in 0..200u64 {
        let frame = Frame {
            window: window(),
            keys: Keys {
                left: round % 3 == 0,
                right: round % 5 == 0,
                up: round % 2 == 0,
                down: round % 7 == 0,
            },
            dt: 16_000 + round,
        };
        log_first.push(tick(&mut first, &frame));
        log_second.push(tick(&mut second, &frame));
    }
    assert_eq!(first, second);
    assert_eq!(log_first, log_second);
    assert!(first.balls.iter().all(|b| b.direction.is_unit()));
}
