//! Contact between the balls and the player.

use crate::geometry::{magnitude, Point, PointView};
use crate::units::{BALL_SIZE, PLAYER_SIZE_HEIGHT, PLAYER_SIZE_WIDTH};
use crate::world::{Ball, BallView, World, WorldView};
use vstd::prelude::*;

verus! {

/// The side of the player on which a ball was found to hit.
#[derive(Clone, Copy, Debug, PartialEq, Eq, Structural)]
pub enum Side {
    X,
    Y,
}

/// The report that a ball has hit the player.
#[derive(Clone, Copy, Debug, PartialEq, Eq, Structural)]
pub struct Hit {
    /// The place of the ball among the world's balls.
    pub ball: usize,
    pub side: Side,
}

/// The square of the distance between two points.
pub open spec fn distance_sq(p: PointView, q: PointView) -> int {
    (p.x - q.x) * (p.x - q.x) + (p.y - q.y) * (p.y - q.y)
}

/// The distance between the two points is less than `reach`.
pub open spec fn closer_than(p: PointView, q: PointView, reach: int) -> bool {
    0 < reach && distance_sq(p, q) < reach * reach
}

/// The ball is looked at for a hit on the player's horizontal extent.
pub open spec fn x_candidate(player: PointView, ball: PointView) -> bool {
    ||| player.x + PLAYER_SIZE_WIDTH / 2 > ball.x + BALL_SIZE / 2
    ||| player.x - PLAYER_SIZE_WIDTH / 2 + BALL_SIZE / 2 < ball.x
}

/// The ball is looked at for a hit on the player's vertical extent.
pub open spec fn y_candidate(player: PointView, ball: PointView) -> bool {
    ||| player.y + PLAYER_SIZE_HEIGHT / 2 > ball.y + BALL_SIZE / 2
    ||| player.y - PLAYER_SIZE_HEIGHT / 2 + BALL_SIZE / 2 < ball.y
}

/// Whether a ball at `ball` hits a player at `player`, and on which side.
///
/// A ball is first looked at for a hit on the horizontal extent; it hits there
/// when the two middles are closer than half the player's width plus the
/// ball's radius. Only a ball that is not looked at there is looked at for a
/// hit on the vertical extent, where half the player's height takes the place
/// of half its width. The player's rectangle is thus treated as a circle
/// whose radius depends on where the ball is.
pub open spec fn collision_side(player: PointView, ball: PointView) -> Option<Side> {
    if x_candidate(player, ball) {
        if closer_than(player, ball, PLAYER_SIZE_WIDTH / 2 + BALL_SIZE / 2) {
            Some(Side::X)
        } else {
            None
        }
    } else if y_candidate(player, ball) {
        if closer_than(player, ball, PLAYER_SIZE_HEIGHT / 2 + BALL_SIZE / 2) {
            Some(Side::Y)
        } else {
            None
        }
    } else {
        None
    }
}

/// The ball after contact with a player at `player` has been resolved: a ball
/// that hits turns back the way it came.
pub open spec fn ball_after_collision(player: PointView, ball: BallView) -> BallView {
    if collision_side(player, ball.position) is Some {
        BallView { position: ball.position, direction: ball.direction.reversed() }
    } else {
        ball
    }
}

/// The hits among `balls`, in the order of the balls.
pub open spec fn hits_among(player: PointView, balls: Seq<BallView>) -> Seq<Hit>
    decreases balls.len(),
{
    if balls.len() == 0 {
        Seq::empty()
    } else {
        let earlier = hits_among(player, balls.drop_last());
        match collision_side(player, balls.last().position) {
            Some(side) => earlier.push(Hit { ball: (balls.len() - 1) as usize, side }),
            None => earlier,
        }
    }
}

/// The world after contact between its balls and its player has been
/// resolved. Where there is not exactly one player, nothing changes.
pub open spec fn collided(world: WorldView) -> WorldView {
    if world.players.len() == 1 {
        WorldView {
            cameras: world.cameras,
            players: world.players,
            balls: world.balls.map_values(
                |b: BallView| ball_after_collision(world.players[0].position, b),
            ),
        }
    } else {
        world
    }
}

/// The hits that resolving contact in `world` reports.
pub open spec fn hits_in(world: WorldView) -> Seq<Hit> {
    if world.players.len() == 1 {
        hits_among(world.players[0].position, world.balls)
    } else {
        Seq::empty()
    }
}

/// No ball is passed over: one that is not looked at on the horizontal
/// extent is always looked at on the vertical one. A ball is looked at on the
/// horizontal extent exactly when its middle lies further to one side of the
/// player's than the ball's radius exceeds half the player's width.
pub proof fn lemma_every_ball_is_looked_at(player: PointView, ball: PointView)
    ensures
        y_candidate(player, ball),
        x_candidate(player, ball) <==> magnitude(ball.x - player.x) > (BALL_SIZE
            - PLAYER_SIZE_WIDTH) / 2,
        collision_side(player, ball) == (if x_candidate(player, ball) {
            if closer_than(player, ball, PLAYER_SIZE_WIDTH / 2 + BALL_SIZE / 2) {
                Some(Side::X)
            } else {
                None
            }
        } else {
            if closer_than(player, ball, PLAYER_SIZE_HEIGHT / 2 + BALL_SIZE / 2) {
                Some(Side::Y)
            } else {
                None
            }
        }),
{
}

/// A ball that hits is within reach of the player, and a ball out of reach of
/// the player's longer half does not hit.
pub proof fn lemma_hit_is_within_reach(player: PointView, ball: PointView)
    ensures
        collision_side(player, ball) == Some(Side::X) ==> closer_than(
            player,
            ball,
            PLAYER_SIZE_WIDTH / 2 + BALL_SIZE / 2,
        ),
        collision_side(player, ball) == Some(Side::Y) ==> closer_than(
            player,
            ball,
            PLAYER_SIZE_HEIGHT / 2 + BALL_SIZE / 2,
        ),
        !closer_than(player, ball, PLAYER_SIZE_HEIGHT / 2 + BALL_SIZE / 2) ==> collision_side(
            player,
            ball,
        ) is None,
{
    let near: int = PLAYER_SIZE_WIDTH / 2 + BALL_SIZE / 2;
    let far: int = PLAYER_SIZE_HEIGHT / 2 + BALL_SIZE / 2;
    assert(near * near < far * far) by (nonlinear_arith)
        requires
            0 < near < far,
    ;
}

/// Decides whether the two points are closer to each other than `reach`.
pub fn is_closer_than(p: &Point, q: &Point, reach: i64) -> (r: bool)
    ensures
        r == closer_than(p@, q@, reach as int),
{
    if reach <= 0 {
        return false;
    }
    let dx: i128 = p.x as i128 - q.x as i128;
    let dy: i128 = p.y as i128 - q.y as i128;
    let bound: i128 = reach as i128;
    if dx >= bound || dx <= -bound || dy >= bound || dy <= -bound {
        assert(dx * dx >= bound * bound || dy * dy >= bound * bound) by (nonlinear_arith)
            requires
                0 <= bound,
                dx >= bound || dx <= -bound || dy >= bound || dy <= -bound,
        ;
        assert(dx * dx >= 0 && dy * dy >= 0) by (nonlinear_arith);
        false
    } else {
        assert(0 <= dx * dx < bound * bound && 0 <= dy * dy < bound * bound && bound * bound
            <= 0x7FFF_FFFF_FFFF_FFFF * 0x7FFF_FFFF_FFFF_FFFF) by (nonlinear_arith)
            requires
                -bound < dx < bound,
                -bound < dy < bound,
                bound <= 0x7FFF_FFFF_FFFF_FFFF,
        ;
        dx * dx + dy * dy < bound * bound
    }
}

/// Decides whether a ball at `ball` hits a player at `player`, and on which side.
pub fn side_of_collision(player: &Point, ball: &Point) -> (r: Option<Side>)
    ensures
        r == collision_side(player@, ball@),
{
    let px: i128 = player.x as i128;
    let py: i128 = player.y as i128;
    let bx: i128 = ball.x as i128;
    let by: i128 = ball.y as i128;
    let half_width: i128 = (PLAYER_SIZE_WIDTH / 2) as i128;
    let half_height: i128 = (PLAYER_SIZE_HEIGHT / 2) as i128;
    let radius: i128 = (BALL_SIZE / 2) as i128;
    if px + half_width > bx + radius || px - half_width + radius < bx {
        if is_closer_than(player, ball, PLAYER_SIZE_WIDTH / 2 + BALL_SIZE / 2) {
            Some(Side::X)
        } else {
            None
        }
    } else if py + half_height > by + radius || py - half_height + radius < by {
        if is_closer_than(player, ball, PLAYER_SIZE_HEIGHT / 2 + BALL_SIZE / 2) {
            Some(Side::Y)
        } else {
            None
        }
    } else {
        None
    }
}

/// Resolves contact between every ball and the player: a ball that hits turns
/// back the way it came, and the hit is reported. Where there is not exactly
/// one player, nothing changes and nothing is reported.
pub fn ball_player_collision(world: &mut World) -> (hits: Vec<Hit>)
    ensures
        final(world)@ == collided(old(world)@),
        hits@ == hits_in(old(world)@),
{
    let mut hits: Vec<Hit> = Vec::new();
    if world.players.len() != 1 {
        return hits;
    }
    let player: Point = world.players[0].position;
    let ghost before: WorldView = world@;
    let ghost balls_before: Seq<Ball> = world.balls@;
    let count: usize = world.balls.len();
    let mut i: usize = 0;
    while i < count
        invariant
            i <= count,
            count == world.balls.len(),
            count == balls_before.len(),
            before.balls == balls_before.map_values(|b: Ball| b@),
            world@.cameras == before.cameras,
            world@.players == before.players,
            before.players.len() == 1,
            player@ == before.players[0].position,
            forall|j: int|
                0 <= j < i ==> (#[trigger] world.balls@[j])@ == ball_after_collision(
                    player@,
                    balls_before[j]@,
                ),
            forall|j: int| i <= j < count ==> #[trigger] world.balls@[j] == balls_before[j],
            hits@ == hits_among(player@, before.balls.take(i as int)),
        decreases count - i,
    {
        let ball: Ball = world.balls[i];
        let verdict: Option<Side> = side_of_collision(&player, &ball.position);
        proof {
            assert(before.balls.take(i + 1).drop_last() =~= before.balls.take(i as int));
            assert(before.balls.take(i + 1).last() == balls_before[i as int]@);
        }
        match verdict {
            Some(side) => {
                hits.push(Hit { ball: i, side });
                world.balls.set(
                    i,
                    Ball { position: ball.position, direction: ball.direction.reverse() },
                );
            },
            None => {},
        }
        i = i + 1;
    }
    proof {
        assert(before.balls.take(count as int) =~= before.balls);
        assert(world@.balls =~= collided(before).balls);
    }
    hits
}

} // verus!
