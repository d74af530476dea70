//! The window and the things in it.

use crate::geometry::{Direction, DirectionView, Point, PointView};
use crate::units::{nearest_part, nearest_part_of};
use vstd::prelude::*;

verus! {

/// The extent of the window, in position units. The window's corner is the
/// origin; positions inside it have coordinates between 0 and its extent.
#[derive(Clone, Copy, Debug, PartialEq, Eq, Structural)]
pub struct Window {
    pub width: u32,
    pub height: u32,
}

/// The mathematical extent of a [`Window`].
pub struct WindowView {
    pub width: int,
    pub height: int,
}

impl WindowView {
    /// The middle of the window, each coordinate rounded to the nearest
    /// whole unit.
    pub open spec fn center(self) -> PointView {
        PointView { x: nearest_part(self.width, 2), y: nearest_part(self.height, 2) }
    }
}

impl View for Window {
    type V = WindowView;

    open spec fn view(&self) -> WindowView {
        WindowView { width: self.width as int, height: self.height as int }
    }
}

impl Window {
    /// The middle of the window, each coordinate rounded to the nearest
    /// whole unit.
    pub fn center(&self) -> (p: Point)
        ensures
            p@ == self@.center(),
    {
        Point { x: nearest_part_of(self.width, 2), y: nearest_part_of(self.height, 2) }
    }
}

/// The point on which the view of the scene is anchored.
#[derive(Clone, Copy, Debug, PartialEq, Eq, Structural)]
pub struct Camera {
    pub position: Point,
}

/// The paddle: a rectangle of fixed size, known by the position of its middle.
#[derive(Clone, Copy, Debug, PartialEq, Eq, Structural)]
pub struct Player {
    pub position: Point,
}

/// A ball: a circle of fixed size, known by the position of its middle, that
/// travels at a fixed speed along its heading.
#[derive(Clone, Copy, Debug, PartialEq, Eq)]
pub struct Ball {
    pub position: Point,
    pub direction: Direction,
}

/// The mathematical content of a [`Camera`].
pub struct CameraView {
    pub position: PointView,
}

/// The mathematical content of a [`Player`].
pub struct PlayerView {
    pub position: PointView,
}

/// The mathematical content of a [`Ball`].
pub struct BallView {
    pub position: PointView,
    pub direction: DirectionView,
}

impl View for Camera {
    type V = CameraView;

    open spec fn view(&self) -> CameraView {
        CameraView { position: self.position@ }
    }
}

impl View for Player {
    type V = PlayerView;

    open spec fn view(&self) -> PlayerView {
        PlayerView { position: self.position@ }
    }
}

impl View for Ball {
    type V = BallView;

    open spec fn view(&self) -> BallView {
        BallView { position: self.position@, direction: self.direction@ }
    }
}

/// Everything that is simulated, each kind of thing in the order in which it
/// was put in.
#[derive(Clone, Debug, PartialEq, Eq)]
pub struct World {
    pub cameras: Vec<Camera>,
    pub players: Vec<Player>,
    pub balls: Vec<Ball>,
}

/// The mathematical content of a [`World`].
pub struct WorldView {
    pub cameras: Seq<CameraView>,
    pub players: Seq<PlayerView>,
    pub balls: Seq<BallView>,
}

impl View for World {
    type V = WorldView;

    open spec fn view(&self) -> WorldView {
        WorldView {
            cameras: self.cameras@.map_values(|c: Camera| c@),
            players: self.players@.map_values(|p: Player| p@),
            balls: self.balls@.map_values(|b: Ball| b@),
        }
    }
}

impl World {
    /// A world with nothing in it.
    pub fn new() -> (world: World)
        ensures
            world@ == (WorldView {
                cameras: Seq::empty(),
                players: Seq::empty(),
                balls: Seq::empty(),
            }),
    {
        let world: World = World { cameras: Vec::new(), players: Vec::new(), balls: Vec::new() };
        assert(world@.cameras =~= Seq::empty());
        assert(world@.players =~= Seq::empty());
        assert(world@.balls =~= Seq::empty());
        world
    }
}

} // verus!
