//! One frame of the simulation, and what holds of every run of frames.

use crate::bounds::{
    contained, holds_player, lemma_reflection_keeps_length, reflected_world,
    restrict_player_movement, restricted_world, update_ball_direction,
};
use crate::collision::{ball_player_collision, collided, hits_in, Hit};
use crate::movement::{ball_movement, balls_moved, player_moved, player_movement, Keys};
use crate::world::{Window, WindowView, World, WorldView};
use vstd::prelude::*;

verus! {

/// What one frame is given: the window as it is now, the keys that are held,
/// and the time since the frame before, in microseconds.
#[derive(Clone, Copy, Debug, PartialEq, Eq, Structural)]
pub struct Frame {
    pub window: Window,
    pub keys: Keys,
    pub dt: u64,
}

/// The mathematical content of a [`Frame`].
pub struct FrameView {
    pub window: WindowView,
    pub keys: Keys,
    pub dt: int,
}

impl View for Frame {
    type V = FrameView;

    open spec fn view(&self) -> FrameView {
        FrameView { window: self.window@, keys: self.keys, dt: self.dt as int }
    }
}

/// The world as it is within a frame when contact between balls and player is
/// looked at: the player has moved and has been held inside the window, the
/// balls have moved and have been turned back from the edges, in this order.
pub open spec fn before_collision(world: WorldView, frame: FrameView) -> WorldView {
    reflected_world(
        balls_moved(
            restricted_world(player_moved(world, frame.keys, frame.dt), frame.window),
            frame.dt,
        ),
        frame.window,
    )
}

/// The world after one frame.
pub open spec fn after_frame(world: WorldView, frame: FrameView) -> WorldView {
    collided(before_collision(world, frame))
}

/// The world after a run of frames, the first of them first.
pub open spec fn after_frames(world: WorldView, frames: Seq<FrameView>) -> WorldView
    decreases frames.len(),
{
    if frames.len() == 0 {
        world
    } else {
        after_frame(after_frames(world, frames.drop_last()), frames.last())
    }
}

/// Carries the world through one frame: the player moves and is held inside
/// the window, the balls move and are turned back from the edges, and contact
/// between balls and player is resolved, in this order. Returns the hits.
pub fn tick(world: &mut World, frame: &Frame) -> (hits: Vec<Hit>)
    ensures
        final(world)@ == after_frame(old(world)@, frame@),
        hits@ == hits_in(before_collision(old(world)@, frame@)),
        old(world)@.players.len() == 1 && holds_player(frame@.window) ==> {
            &&& final(world)@.players.len() == 1
            &&& contained(final(world)@.players[0].position, frame@.window)
        },
        final(world)@.balls.len() == old(world)@.balls.len(),
        forall|i: int|
            #![trigger final(world)@.balls[i]]
            0 <= i < old(world)@.balls.len() ==> final(world)@.balls[i].direction.norm_sq()
                == old(world)@.balls[i].direction.norm_sq(),
{
    player_movement(world, frame.keys, frame.dt);
    restrict_player_movement(world, &frame.window);
    ball_movement(world, frame.dt);
    update_ball_direction(world, &frame.window);
    let hits: Vec<Hit> = ball_player_collision(world);
    proof {
        let before = old(world)@;
        let after = world@;
        assert forall|i: int| 0 <= i < before.balls.len() implies (#[trigger] after.balls[i])
            .direction.norm_sq() == before.balls[i].direction.norm_sq() by {
            lemma_frame_keeps_length(before, frame@, i);
        }
    }
    hits
}

/// A frame neither adds nor removes anything.
pub proof fn lemma_frame_keeps_counts(world: WorldView, frame: FrameView)
    ensures
        after_frame(world, frame).cameras == world.cameras,
        after_frame(world, frame).players.len() == world.players.len(),
        after_frame(world, frame).balls.len() == world.balls.len(),
{
}

/// A run of frames neither adds nor removes anything.
pub proof fn lemma_frames_keep_counts(world: WorldView, frames: Seq<FrameView>)
    ensures
        after_frames(world, frames).cameras == world.cameras,
        after_frames(world, frames).players.len() == world.players.len(),
        after_frames(world, frames).balls.len() == world.balls.len(),
    decreases frames.len(),
{
    if frames.len() > 0 {
        lemma_frames_keep_counts(world, frames.drop_last());
        lemma_frame_keeps_counts(after_frames(world, frames.drop_last()), frames.last());
    }
}

/// After a frame whose window is large enough to hold the player, the player
/// lies inside that window, wherever it was before and whichever keys were held.
pub proof fn lemma_player_contained_after_frame(world: WorldView, frame: FrameView)
    requires
        world.players.len() == 1,
        holds_player(frame.window),
    ensures
        after_frame(world, frame).players.len() == 1,
        contained(after_frame(world, frame).players[0].position, frame.window),
{
}

/// After any run of one or more frames, the player lies inside the window of
/// the last frame, if that window is large enough to hold it.
pub proof fn lemma_player_contained_after_frames(world: WorldView, frames: Seq<FrameView>)
    requires
        world.players.len() == 1,
        frames.len() > 0,
        holds_player(frames.last().window),
    ensures
        after_frames(world, frames).players.len() == 1,
        contained(after_frames(world, frames).players[0].position, frames.last().window),
{
    lemma_frames_keep_counts(world, frames.drop_last());
    lemma_player_contained_after_frame(after_frames(world, frames.drop_last()), frames.last());
}

/// A frame leaves the heading of every ball exactly as long as it was; a
/// heading of length 1 stays one.
pub proof fn lemma_frame_keeps_length(world: WorldView, frame: FrameView, i: int)
    requires
        0 <= i < world.balls.len(),
    ensures
        after_frame(world, frame).balls.len() == world.balls.len(),
        after_frame(world, frame).balls[i].direction.norm_sq()
            == world.balls[i].direction.norm_sq(),
        after_frame(world, frame).balls[i].direction.is_unit()
            == world.balls[i].direction.is_unit(),
{
    let moved = balls_moved(
        restricted_world(player_moved(world, frame.keys, frame.dt), frame.window),
        frame.dt,
    );
    assert(moved.balls[i].direction == world.balls[i].direction);
    lemma_reflection_keeps_length(moved.balls[i], frame.window);
    let turned = before_collision(world, frame);
    let d = turned.balls[i].direction;
    assert((-d.x) * (-d.x) == d.x * d.x) by (nonlinear_arith);
    assert((-d.y) * (-d.y) == d.y * d.y) by (nonlinear_arith);
}

/// Through any run of frames, the heading of every ball stays exactly as long
/// as it was at the start; a heading of length 1 stays one.
pub proof fn lemma_frames_keep_length(world: WorldView, frames: Seq<FrameView>, i: int)
    requires
        0 <= i < world.balls.len(),
    ensures
        after_frames(world, frames).balls.len() == world.balls.len(),
        after_frames(world, frames).balls[i].direction.norm_sq()
            == world.balls[i].direction.norm_sq(),
        after_frames(world, frames).balls[i].direction.is_unit()
            == world.balls[i].direction.is_unit(),
    decreases frames.len(),
{
    if frames.len() > 0 {
        lemma_frames_keep_length(world, frames.drop_last(), i);
        lemma_frame_keeps_length(after_frames(world, frames.drop_last()), frames.last(), i);
    }
}

/// The outcome of a run depends on nothing but the world it starts from and
/// the frames it is given: two runs that start alike and are given, frame by
/// frame, the same window, keys and time end alike.
pub proof fn lemma_same_frames_same_outcome(
    first: WorldView,
    second: WorldView,
    frames_of_first: Seq<FrameView>,
    frames_of_second: Seq<FrameView>,
)
    requires
        first == second,
        frames_of_first.len() == frames_of_second.len(),
        forall|i: int|
            0 <= i < frames_of_first.len() ==> frames_of_first[i] == frames_of_second[i],
    ensures
        after_frames(first, frames_of_first) == after_frames(second, frames_of_second),
{
    assert(frames_of_first =~= frames_of_second);
}

} // verus!
