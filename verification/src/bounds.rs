//! The edges of the window: the player is held inside them, and a ball that
//! has gone past one turns back.

use crate::geometry::{Point, PointView};
use crate::units::{BALL_SIZE, PLAYER_SIZE_HEIGHT, PLAYER_SIZE_WIDTH};
use crate::world::{Ball, BallView, Player, PlayerView, Window, WindowView, World, WorldView};
use vstd::prelude::*;

verus! {

/// The coordinate `v` brought into the range from `low` to `high`: a
/// coordinate below `low` becomes `low`; otherwise one above `high` becomes
/// `high`.
pub open spec fn restricted_axis(v: int, low: int, high: int) -> int {
    if v < low {
        low
    } else if v > high {
        high
    } else {
        v
    }
}

/// The position to which a player at `position` is brought back, so that its
/// rectangle lies inside the window.
pub open spec fn restricted(position: PointView, window: WindowView) -> PointView {
    PointView {
        x: restricted_axis(
            position.x,
            PLAYER_SIZE_WIDTH / 2,
            window.width - PLAYER_SIZE_WIDTH / 2,
        ),
        y: restricted_axis(
            position.y,
            PLAYER_SIZE_HEIGHT / 2,
            window.height - PLAYER_SIZE_HEIGHT / 2,
        ),
    }
}

/// The rectangle of a player at `position` lies inside the window.
pub open spec fn contained(position: PointView, window: WindowView) -> bool {
    &&& PLAYER_SIZE_WIDTH / 2 <= position.x <= window.width - PLAYER_SIZE_WIDTH / 2
    &&& PLAYER_SIZE_HEIGHT / 2 <= position.y <= window.height - PLAYER_SIZE_HEIGHT / 2
}

/// The window is large enough to hold the player's rectangle.
pub open spec fn holds_player(window: WindowView) -> bool {
    &&& PLAYER_SIZE_WIDTH <= window.width
    &&& PLAYER_SIZE_HEIGHT <= window.height
}

/// The world after its player has been brought back inside the window. Where
/// there is not exactly one player, nothing changes.
pub open spec fn restricted_world(world: WorldView, window: WindowView) -> WorldView {
    if world.players.len() == 1 {
        WorldView {
            cameras: world.cameras,
            players: seq![PlayerView { position: restricted(world.players[0].position, window) }],
            balls: world.balls,
        }
    } else {
        world
    }
}

/// The middle of the ball is nearer than the ball's radius to the left or the
/// right edge of the window, or beyond it.
pub open spec fn outside_x(position: PointView, window: WindowView) -> bool {
    position.x < BALL_SIZE / 2 || position.x > window.width - BALL_SIZE / 2
}

/// The middle of the ball is nearer than the ball's radius to the lower or the
/// upper edge of the window, or beyond it.
pub open spec fn outside_y(position: PointView, window: WindowView) -> bool {
    position.y < BALL_SIZE / 2 || position.y > window.height - BALL_SIZE / 2
}

/// The ball after the edges of the window have been looked at: on each axis
/// on which the ball is outside, its heading is turned round. The ball is not
/// moved, and whether it was already heading back is not asked.
pub open spec fn reflected(ball: BallView, window: WindowView) -> BallView {
    let across = if outside_x(ball.position, window) {
        ball.direction.flipped_x()
    } else {
        ball.direction
    };
    let along = if outside_y(ball.position, window) {
        across.flipped_y()
    } else {
        across
    };
    BallView { position: ball.position, direction: along }
}

/// The ball after the edges of the window have been looked at `times` times
/// while the ball stays where it is.
pub open spec fn reflected_times(ball: BallView, window: WindowView, times: nat) -> BallView
    decreases times,
{
    if times == 0 {
        ball
    } else {
        reflected(reflected_times(ball, window, (times - 1) as nat), window)
    }
}

/// The world after every ball has been turned back from the edges.
pub open spec fn reflected_world(world: WorldView, window: WindowView) -> WorldView {
    WorldView {
        cameras: world.cameras,
        players: world.players,
        balls: world.balls.map_values(|b: BallView| reflected(b, window)),
    }
}

/// Brings one coordinate into the range from `low` to `high`.
fn restrict_axis(v: i64, low: i64, high: i64) -> (r: i64)
    ensures
        r == restricted_axis(v as int, low as int, high as int),
{
    if v < low {
        low
    } else if v > high {
        high
    } else {
        v
    }
}

impl Player {
    /// Brings the player back so that its rectangle lies inside the window.
    pub fn restrict(&mut self, window: &Window)
        ensures
            final(self)@.position == restricted(old(self)@.position, window@),
            holds_player(window@) ==> contained(final(self)@.position, window@),
    {
        let half_width: i64 = PLAYER_SIZE_WIDTH / 2;
        let half_height: i64 = PLAYER_SIZE_HEIGHT / 2;
        let x: i64 = restrict_axis(self.position.x, half_width, window.width as i64 - half_width);
        let y: i64 = restrict_axis(
            self.position.y,
            half_height,
            window.height as i64 - half_height,
        );
        self.position = Point { x, y };
    }
}

impl Ball {
    /// Turns the ball's heading round on each axis on which the ball is
    /// outside the window.
    pub fn reflect(&mut self, window: &Window)
        ensures
            final(self)@ == reflected(old(self)@, window@),
            final(self)@.direction.norm_sq() == old(self)@.direction.norm_sq(),
    {
        let half: i64 = BALL_SIZE / 2;
        let x: i64 = self.position.x;
        let y: i64 = self.position.y;
        if x < half || x > window.width as i64 - half {
            self.direction = self.direction.flip_x();
        }
        if y < half || y > window.height as i64 - half {
            self.direction = self.direction.flip_y();
        }
        proof {
            lemma_reflection_keeps_length(old(self)@, window@);
        }
    }
}

/// Holds the player inside the window: its position is brought into the range
/// that keeps its rectangle inside, on each axis by itself. Where there is not
/// exactly one player, nothing changes.
pub fn restrict_player_movement(world: &mut World, window: &Window)
    ensures
        final(world)@ == restricted_world(old(world)@, window@),
        old(world)@.players.len() == 1 && holds_player(window@) ==> contained(
            final(world)@.players[0].position,
            window@,
        ),
{
    if world.players.len() == 1 {
        let mut player: Player = world.players[0];
        player.restrict(window);
        world.players.set(0, player);
        assert(world@.players =~= restricted_world(old(world)@, window@).players);
    }
}

/// Turns every ball back from the edges of the window: on each axis on which
/// a ball is outside, its heading is turned round. This is done anew at every
/// call, so a ball that stays outside is turned round each time.
pub fn update_ball_direction(world: &mut World, window: &Window)
    ensures
        final(world)@ == reflected_world(old(world)@, window@),
        forall|i: int|
            #![trigger final(world)@.balls[i]]
            0 <= i < old(world)@.balls.len() ==> final(world)@.balls[i].direction.norm_sq()
                == old(world)@.balls[i].direction.norm_sq(),
{
    let ghost balls_before: Seq<Ball> = world.balls@;
    let count: usize = world.balls.len();
    let mut i: usize = 0;
    while i < count
        invariant
            i <= count,
            count == world.balls.len(),
            count == balls_before.len(),
            world.cameras == old(world).cameras,
            world.players == old(world).players,
            forall|j: int|
                0 <= j < i ==> (#[trigger] world.balls@[j])@ == reflected(
                    balls_before[j]@,
                    window@,
                ),
            forall|j: int| i <= j < count ==> #[trigger] world.balls@[j] == balls_before[j],
        decreases count - i,
    {
        let mut ball: Ball = world.balls[i];
        ball.reflect(window);
        world.balls.set(i, ball);
        i = i + 1;
    }
    proof {
        assert(world@.balls =~= reflected_world(old(world)@, window@).balls);
        let before = old(world)@;
        let after = world@;
        assert forall|i: int| 0 <= i < before.balls.len() implies (#[trigger] after.balls[i])
            .direction.norm_sq() == before.balls[i].direction.norm_sq() by {
            lemma_reflection_keeps_length(before.balls[i], window@);
        }
    }
}

/// A player that has been brought back inside a window large enough to hold
/// it lies inside that window.
pub proof fn lemma_restricted_is_contained(position: PointView, window: WindowView)
    requires
        holds_player(window),
    ensures
        contained(restricted(position, window), window),
{
}

/// To bring a player back inside a window large enough to hold it changes
/// nothing the second time.
pub proof fn lemma_restriction_is_idempotent(position: PointView, window: WindowView)
    requires
        holds_player(window),
    ensures
        restricted(restricted(position, window), window) == restricted(position, window),
{
}

/// To hold the player of a world inside a window large enough to hold it
/// changes nothing the second time.
pub proof fn lemma_restricted_world_is_idempotent(world: WorldView, window: WindowView)
    requires
        holds_player(window),
    ensures
        restricted_world(restricted_world(world, window), window) == restricted_world(
            world,
            window,
        ),
{
    if world.players.len() == 1 {
        let once = restricted_world(world, window);
        lemma_restriction_is_idempotent(world.players[0].position, window);
        assert(restricted_world(once, window).players =~= once.players);
    }
}

/// To turn a ball back from the edges leaves its heading exactly as long as
/// it was; a heading of length 1 stays one.
pub proof fn lemma_reflection_keeps_length(ball: BallView, window: WindowView)
    ensures
        reflected(ball, window).position == ball.position,
        reflected(ball, window).direction.norm_sq() == ball.direction.norm_sq(),
        reflected(ball, window).direction.is_unit() == ball.direction.is_unit(),
        reflected(ball, window).direction.in_range() == ball.direction.in_range(),
{
    let d = ball.direction;
    assert((-d.x) * (-d.x) == d.x * d.x) by (nonlinear_arith);
    assert((-d.y) * (-d.y) == d.y * d.y) by (nonlinear_arith);
}

/// A ball that stays where it is gets back its heading at every second look
/// at the edges: a ball outside an edge is turned round each time, whether or
/// not it was already heading back.
pub proof fn lemma_reflection_twice_restores(ball: BallView, window: WindowView)
    ensures
        reflected(reflected(ball, window), window) == ball,
        outside_x(ball.position, window) ==> reflected(ball, window).direction.x
            == -ball.direction.x,
        !outside_x(ball.position, window) ==> reflected(ball, window).direction.x
            == ball.direction.x,
        outside_y(ball.position, window) ==> reflected(ball, window).direction.y
            == -ball.direction.y,
        !outside_y(ball.position, window) ==> reflected(ball, window).direction.y
            == ball.direction.y,
{
}

/// However often the edges are looked at, the heading of the ball stays
/// exactly as long as it was; a heading of length 1 stays one.
pub proof fn lemma_reflections_keep_length(ball: BallView, window: WindowView, times: nat)
    ensures
        reflected_times(ball, window, times).position == ball.position,
        reflected_times(ball, window, times).direction.norm_sq() == ball.direction.norm_sq(),
        reflected_times(ball, window, times).direction.is_unit() == ball.direction.is_unit(),
    decreases times,
{
    if times > 0 {
        lemma_reflections_keep_length(ball, window, (times - 1) as nat);
        lemma_reflection_keeps_length(
            reflected_times(ball, window, (times - 1) as nat),
            window,
        );
    }
}

} // verus!
