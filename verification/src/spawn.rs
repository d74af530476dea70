//! Putting the camera, the player and the balls into the world.

use crate::geometry::{
    lemma_sampled_direction_is_unit, sampled_direction, Direction, Point, PointView,
};
use crate::units::{nearest_part, nearest_part_of, NUMBER_OF_BALLS};
use crate::world::{
    Ball, BallView, Camera, CameraView, Player, PlayerView, Window, WindowView, World,
};
use vstd::prelude::*;

verus! {

/// Where the player starts: a ninth of the window's width from its left edge,
/// halfway up, each coordinate rounded to the nearest whole unit.
pub open spec fn player_start(window: WindowView) -> PointView {
    PointView { x: nearest_part(window.width, 9), y: nearest_part(window.height, 2) }
}

/// The ball that two random words give: it starts in the middle of the window
/// and heads where the words' samples point.
pub open spec fn spawned_ball(window: WindowView, a: u32, b: u32) -> BallView {
    BallView { position: window.center(), direction: sampled_direction(a as int, b as int) }
}

/// `ball` is the ball that some pair of random words gives.
pub open spec fn is_spawned_ball(ball: BallView, window: WindowView) -> bool {
    exists|a: u32, b: u32| ball == #[trigger] spawned_ball(window, a, b)
}

/// Whatever the random words were, a ball that they gave starts in the middle
/// of the window, and its heading has length 1 as nearly as whole millionths
/// allow and points neither left nor down.
pub proof fn lemma_spawned_ball(ball: BallView, window: WindowView)
    requires
        is_spawned_ball(ball, window),
    ensures
        ball.position == window.center(),
        ball.direction.is_unit(),
        ball.direction.in_range(),
        ball.direction.x >= 0,
        ball.direction.y >= 0,
{
    let (a, b) = choose|a: u32, b: u32| ball == #[trigger] spawned_ball(window, a, b);
    lemma_sampled_direction_is_unit(a as int, b as int);
}

/// Draws one word from `rand::random::<u32>`, which takes the next 32 bits of
/// the thread's generator. Nothing is claimed of the word: any value may come
/// back, and two calls need not agree. The call panics only where the
/// operating system gives the generator no entropy: when a thread first
/// draws, and when the generator is seeded anew (after it has given out its
/// quota of bytes, or after the process has forked).
#[verifier::external_body]
fn random_word() -> (word: u32) {
    rand::random::<u32>()
}

/// Puts a camera into the world, anchored on the middle of the window.
pub fn spawn_camera(world: &mut World, window: &Window)
    ensures
        final(world)@.cameras == old(world)@.cameras.push(
            CameraView { position: window@.center() },
        ),
        final(world)@.players == old(world)@.players,
        final(world)@.balls == old(world)@.balls,
{
    world.cameras.push(Camera { position: window.center() });
    assert(world@.cameras =~= old(world)@.cameras.push(CameraView { position: window@.center() }));
}

/// Puts a player into the world, a ninth of the window's width from its left
/// edge and halfway up.
pub fn spawn_player(world: &mut World, window: &Window)
    ensures
        final(world)@.cameras == old(world)@.cameras,
        final(world)@.players == old(world)@.players.push(
            PlayerView { position: player_start(window@) },
        ),
        final(world)@.balls == old(world)@.balls,
{
    let position: Point = Point {
        x: nearest_part_of(window.width, 9),
        y: nearest_part_of(window.height, 2),
    };
    world.players.push(Player { position });
    assert(world@.players =~= old(world)@.players.push(
        PlayerView { position: player_start(window@) },
    ));
}

/// Makes the ball that the two random words `a` and `b` give: it starts in
/// the middle of the window and heads where the words' samples point.
pub fn ball_from_samples(window: &Window, a: u32, b: u32) -> (ball: Ball)
    ensures
        ball@ == spawned_ball(window@, a, b),
        is_spawned_ball(ball@, window@),
{
    let ball: Ball = Ball { position: window.center(), direction: Direction::from_samples(a, b) };
    assert(ball@ == spawned_ball(window@, a, b));
    ball
}

/// Puts `NUMBER_OF_BALLS` balls into the world. Each starts in the middle of
/// the window, with a heading of its own drawn at random: two words are drawn
/// for it, the first for the horizontal sample and the second for the
/// vertical one.
pub fn spawn_ball(world: &mut World, window: &Window)
    ensures
        final(world)@.cameras == old(world)@.cameras,
        final(world)@.players == old(world)@.players,
        final(world)@.balls.len() == old(world)@.balls.len() + NUMBER_OF_BALLS,
        final(world)@.balls.take(old(world)@.balls.len() as int) == old(world)@.balls,
        forall|i: int|
            old(world)@.balls.len() <= i < final(world)@.balls.len() ==> is_spawned_ball(
                #[trigger] final(world)@.balls[i],
                window@,
            ),
        forall|i: int|
            old(world)@.balls.len() <= i < final(world)@.balls.len() ==> {
                &&& (#[trigger] final(world)@.balls[i]).position == window@.center()
                &&& final(world)@.balls[i].direction.is_unit()
            },
{
    let ghost balls_before: Seq<Ball> = world.balls@;
    let mut made: usize = 0;
    while made < NUMBER_OF_BALLS
        invariant
            made <= NUMBER_OF_BALLS,
            world.cameras == old(world).cameras,
            world.players == old(world).players,
            world.balls@.len() == balls_before.len() + made,
            world.balls@.take(balls_before.len() as int) == balls_before,
            forall|i: int|
                balls_before.len() <= i < world.balls@.len() ==> is_spawned_ball(
                    (#[trigger] world.balls@[i])@,
                    window@,
                ),
        decreases NUMBER_OF_BALLS - made,
    {
        let a: u32 = random_word();
        let b: u32 = random_word();
        let ball: Ball = ball_from_samples(window, a, b);
        let ghost earlier: Seq<Ball> = world.balls@;
        world.balls.push(ball);
        assert(world.balls@.take(balls_before.len() as int) =~= earlier.take(
            balls_before.len() as int,
        ));
        made = made + 1;
    }
    proof {
        assert(world@.balls.take(old(world)@.balls.len() as int) =~= old(world)@.balls);
        assert forall|i: int|
            old(world)@.balls.len() <= i < world@.balls.len() implies {
            &&& (#[trigger] world@.balls[i]).position == window@.center()
            &&& world@.balls[i].direction.is_unit()
        } by {
            assert(is_spawned_ball(world.balls@[i]@, window@));
            lemma_spawned_ball(world@.balls[i], window@);
        }
    }
}

} // verus!
