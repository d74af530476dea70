//! How the player and the balls change place as time passes.

use crate::geometry::{
    lemma_unit_is_in_range, normalized, Direction, DirectionView, Point, PointView,
};
use crate::units::{advance, advanced, BALL_SPEED, PLAYER_SPEED};
use crate::world::{Ball, BallView, Player, PlayerView, World, WorldView};
use vstd::prelude::*;

verus! {

/// Which of the four keys that steer the player are held down.
#[derive(Clone, Copy, Debug, PartialEq, Eq, Structural)]
pub struct Keys {
    pub left: bool,
    pub right: bool,
    pub up: bool,
    pub down: bool,
}

/// What two opposite keys add up to along their axis: 1 where only the key
/// toward larger coordinates is held, -1 where only the other is, else 0.
pub open spec fn axis(toward_less: bool, toward_more: bool) -> int {
    (if toward_more {
        1int
    } else {
        0int
    }) - (if toward_less {
        1int
    } else {
        0int
    })
}

/// The heading that the held keys ask for: the sum of the held keys' axis
/// vectors, scaled to length 1 unless it is zero.
pub open spec fn key_direction(keys: Keys) -> DirectionView {
    normalized(axis(keys.left, keys.right), axis(keys.down, keys.up))
}

/// The position reached from `position` after `dt` microseconds along
/// `direction` at `speed` position units per second.
pub open spec fn moved(position: PointView, direction: DirectionView, speed: int, dt: int)
    -> PointView {
    PointView {
        x: advanced(position.x, direction.x, speed, dt),
        y: advanced(position.y, direction.y, speed, dt),
    }
}

/// The world after its player has moved for `dt` microseconds as the held
/// keys ask. Where there is not exactly one player, nothing changes.
pub open spec fn player_moved(world: WorldView, keys: Keys, dt: int) -> WorldView {
    if world.players.len() == 1 {
        WorldView {
            cameras: world.cameras,
            players: seq![
                PlayerView {
                    position: moved(
                        world.players[0].position,
                        key_direction(keys),
                        PLAYER_SPEED as int,
                        dt,
                    ),
                },
            ],
            balls: world.balls,
        }
    } else {
        world
    }
}

/// The ball after it has travelled for `dt` microseconds along its heading.
pub open spec fn ball_moved(ball: BallView, dt: int) -> BallView {
    BallView {
        position: moved(ball.position, ball.direction, BALL_SPEED as int, dt),
        direction: ball.direction,
    }
}

/// The world after every ball has travelled for `dt` microseconds.
pub open spec fn balls_moved(world: WorldView, dt: int) -> WorldView {
    WorldView {
        cameras: world.cameras,
        players: world.players,
        balls: world.balls.map_values(|b: BallView| ball_moved(b, dt)),
    }
}

impl Keys {
    /// No key is held.
    pub fn none() -> (keys: Keys)
        ensures
            keys == (Keys { left: false, right: false, up: false, down: false }),
    {
        Keys { left: false, right: false, up: false, down: false }
    }

    /// The heading that the held keys ask for.
    pub fn direction(&self) -> (d: Direction)
        ensures
            d@ == key_direction(*self),
            d@.is_unit() || d@ == (DirectionView { x: 0, y: 0 }),
            d@ == (DirectionView { x: 0, y: 0 }) <==> self.left == self.right && self.up
                == self.down,
    {
        let mut x: i32 = 0;
        let mut y: i32 = 0;
        if self.left {
            x = x - 1;
        }
        if self.right {
            x = x + 1;
        }
        if self.up {
            y = y + 1;
        }
        if self.down {
            y = y - 1;
        }
        let d: Direction = Direction::normalized(x, y);
        proof {
            if x != 0 || y != 0 {
                lemma_unit_is_in_range(d@);
            }
        }
        d
    }
}

impl Point {
    /// The position reached from here after `dt` microseconds along
    /// `direction` at `speed` position units per second.
    pub fn travel(&self, direction: &Direction, speed: u32, dt: u64) -> (p: Point)
        ensures
            p@ == moved(self@, direction@, speed as int, dt as int),
    {
        Point {
            x: advance(self.x, direction.x(), speed, dt),
            y: advance(self.y, direction.y(), speed, dt),
        }
    }
}

/// Moves the player for `dt` microseconds as the held keys ask. Where there
/// is not exactly one player, nothing changes.
pub fn player_movement(world: &mut World, keys: Keys, dt: u64)
    ensures
        final(world)@ == player_moved(old(world)@, keys, dt as int),
{
    if world.players.len() == 1 {
        let direction: Direction = keys.direction();
        let position: Point = world.players[0].position.travel(&direction, PLAYER_SPEED, dt);
        world.players.set(0, Player { position });
        assert(world@.players =~= player_moved(old(world)@, keys, dt as int).players);
    }
}

/// Moves every ball for `dt` microseconds along its heading. No heading changes.
pub fn ball_movement(world: &mut World, dt: u64)
    ensures
        final(world)@ == balls_moved(old(world)@, dt as int),
{
    let ghost balls_before: Seq<Ball> = world.balls@;
    let count: usize = world.balls.len();
    let mut i: usize = 0;
    while i < count
        invariant
            i <= count,
            count == world.balls.len(),
            count == balls_before.len(),
            world.cameras == old(world).cameras,
            world.players == old(world).players,
            forall|j: int|
                0 <= j < i ==> (#[trigger] world.balls@[j])@ == ball_moved(
                    balls_before[j]@,
                    dt as int,
                ),
            forall|j: int| i <= j < count ==> #[trigger] world.balls@[j] == balls_before[j],
        decreases count - i,
    {
        let ball: Ball = world.balls[i];
        let position: Point = ball.position.travel(&ball.direction, BALL_SPEED, dt);
        world.balls.set(i, Ball { position, direction: ball.direction });
        i = i + 1;
    }
    proof {
        assert(world@.balls =~= balls_moved(old(world)@, dt as int).balls);
    }
}

} // verus!
