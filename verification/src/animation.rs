//! The animation selector: which clip a velocity calls for.
//!
//! A clip is named by a status and a facing direction. The status follows
//! the velocity; the direction follows it too while the character moves, and
//! is kept from the frame before while it stands, so that an idle character
//! goes on facing the way it last went.

use crate::vector::{Coords, Vector2};
use vstd::math::abs;
use vstd::prelude::*;

verus! {

/// What the character is doing, as far as the animation shows it.
#[derive(Clone, Copy, Debug, PartialEq, Eq, Structural)]
pub enum Status {
    Idle,
    Run,
    Attack,
}

/// One of the four ways the character can face. The `y` axis points down the
/// screen.
#[derive(Clone, Copy, Debug, PartialEq, Eq, Structural)]
pub enum Direction {
    Left,
    Right,
    Up,
    Down,
}

/// A clip: status and facing direction together.
#[derive(Clone, Copy, Debug, PartialEq, Eq, Structural)]
pub struct AnimationDescriptor {
    pub status: Status,
    pub direction: Direction,
}

/// The direction that a velocity heads in: along the axis of its larger
/// component, the horizontal one where the two are equal. Of the zero
/// vector it is `Left`, which no caller relies on.
pub open spec fn heading_spec(velocity: Coords) -> Direction {
    if abs(velocity.x) >= abs(velocity.y) {
        if velocity.x > 0 {
            Direction::Right
        } else {
            Direction::Left
        }
    } else {
        if velocity.y > 0 {
            Direction::Down
        } else {
            Direction::Up
        }
    }
}

/// The clip for a velocity: idle and still facing `previous` at rest, else
/// running and facing where the velocity heads.
pub open spec fn select_spec(velocity: Coords, previous: Direction) -> AnimationDescriptor {
    if velocity == Coords::zero() {
        AnimationDescriptor { status: Status::Idle, direction: previous }
    } else {
        AnimationDescriptor { status: Status::Run, direction: heading_spec(velocity) }
    }
}

impl Status {
    /// The status as it appears in a clip's name.
    pub open spec fn token_spec(self) -> Seq<char> {
        match self {
            Status::Idle => "Idle"@,
            Status::Run => "Run"@,
            Status::Attack => "Attack"@,
        }
    }

    /// The status as it appears in a clip's name.
    pub fn token(self) -> (s: &'static str)
        ensures
            s@ == self.token_spec(),
    {
        match self {
            Status::Idle => "Idle",
            Status::Run => "Run",
            Status::Attack => "Attack",
        }
    }
}

impl Direction {
    /// The direction as it appears in a clip's name.
    pub open spec fn token_spec(self) -> Seq<char> {
        match self {
            Direction::Left => "Left"@,
            Direction::Right => "Right"@,
            Direction::Up => "Up"@,
            Direction::Down => "Down"@,
        }
    }

    /// The step of length one in this direction.
    pub open spec fn facing_spec(self) -> Coords {
        match self {
            Direction::Left => Coords::at(-1, 0),
            Direction::Right => Coords::at(1, 0),
            Direction::Up => Coords::at(0, -1),
            Direction::Down => Coords::at(0, 1),
        }
    }

    /// The direction as it appears in a clip's name.
    pub fn token(self) -> (s: &'static str)
        ensures
            s@ == self.token_spec(),
    {
        match self {
            Direction::Left => "Left",
            Direction::Right => "Right",
            Direction::Up => "Up",
            Direction::Down => "Down",
        }
    }

    /// The step of length one in this direction, such as a blend position
    /// takes.
    pub fn facing(self) -> (v: Vector2)
        ensures
            v@ == self.facing_spec(),
            heading_spec(v@) == self,
    {
        match self {
            Direction::Left => Vector2 { x: -1, y: 0 },
            Direction::Right => Vector2 { x: 1, y: 0 },
            Direction::Up => Vector2 { x: 0, y: -1 },
            Direction::Down => Vector2 { x: 0, y: 1 },
        }
    }
}

impl AnimationDescriptor {
    /// The clip's name: the status followed by the direction.
    pub open spec fn name_spec(self) -> Seq<char> {
        self.status.token_spec() + self.direction.token_spec()
    }

    /// The clip's name, looked up by status and direction.
    pub fn name(&self) -> (s: &'static str)
        ensures
            s@ == self.name_spec(),
    {
        proof {
            reveal_strlit("Idle");
            reveal_strlit("Run");
            reveal_strlit("Attack");
            reveal_strlit("Left");
            reveal_strlit("Right");
            reveal_strlit("Up");
            reveal_strlit("Down");
        }
        let s = match (self.status, self.direction) {
            (Status::Idle, Direction::Left) => {
                proof {
                    reveal_strlit("IdleLeft");
                }
                "IdleLeft"
            },
            (Status::Idle, Direction::Right) => {
                proof {
                    reveal_strlit("IdleRight");
                }
                "IdleRight"
            },
            (Status::Idle, Direction::Up) => {
                proof {
                    reveal_strlit("IdleUp");
                }
                "IdleUp"
            },
            (Status::Idle, Direction::Down) => {
                proof {
                    reveal_strlit("IdleDown");
                }
                "IdleDown"
            },
            (Status::Run, Direction::Left) => {
                proof {
                    reveal_strlit("RunLeft");
                }
                "RunLeft"
            },
            (Status::Run, Direction::Right) => {
                proof {
                    reveal_strlit("RunRight");
                }
                "RunRight"
            },
            (Status::Run, Direction::Up) => {
                proof {
                    reveal_strlit("RunUp");
                }
                "RunUp"
            },
            (Status::Run, Direction::Down) => {
                proof {
                    reveal_strlit("RunDown");
                }
                "RunDown"
            },
            (Status::Attack, Direction::Left) => {
                proof {
                    reveal_strlit("AttackLeft");
                }
                "AttackLeft"
            },
            (Status::Attack, Direction::Right) => {
                proof {
                    reveal_strlit("AttackRight");
                }
                "AttackRight"
            },
            (Status::Attack, Direction::Up) => {
                proof {
                    reveal_strlit("AttackUp");
                }
                "AttackUp"
            },
            (Status::Attack, Direction::Down) => {
                proof {
                    reveal_strlit("AttackDown");
                }
                "AttackDown"
            },
        };
        assert(s@ =~= self.name_spec());
        s
    }
}

/// The direction that a velocity heads in: along the axis of its larger
/// component, the horizontal one where the two are equal.
pub fn heading(velocity: Vector2) -> (direction: Direction)
    ensures
        direction == heading_spec(velocity@),
{
    let x: i64 = velocity.x as i64;
    let y: i64 = velocity.y as i64;
    let ax: i64 = if x < 0 {
        -x
    } else {
        x
    };
    let ay: i64 = if y < 0 {
        -y
    } else {
        y
    };
    if ax >= ay {
        if x > 0 {
            Direction::Right
        } else {
            Direction::Left
        }
    } else {
        if y > 0 {
            Direction::Down
        } else {
            Direction::Up
        }
    }
}

/// Selects the clip for this frame's velocity. At rest the character is idle
/// and keeps facing `previous_direction`; in motion it runs and faces where
/// the velocity heads. The direction to hand in next frame is that of the
/// clip returned.
pub fn select(velocity: Vector2, previous_direction: Direction) -> (selected: AnimationDescriptor)
    ensures
        selected == select_spec(velocity@, previous_direction),
{
    if velocity.is_zero() {
        AnimationDescriptor { status: Status::Idle, direction: previous_direction }
    } else {
        AnimationDescriptor { status: Status::Run, direction: heading(velocity) }
    }
}

/// The selector only ever shows a character idle or running, idle exactly at
/// rest.
pub proof fn lemma_select_status(velocity: Coords, previous: Direction)
    ensures
        select_spec(velocity, previous).status == Status::Idle <==> velocity == Coords::zero(),
        select_spec(velocity, previous).status == Status::Run <==> velocity != Coords::zero(),
{
}

/// Selecting again changes nothing: the same velocity and direction give the
/// same clip, and so does the same velocity with the direction that the
/// first selection returned.
pub proof fn lemma_select_idempotent(velocity: Coords, previous: Direction)
    ensures
        select_spec(velocity, select_spec(velocity, previous).direction) == select_spec(
            velocity,
            previous,
        ),
{
}

/// The facing direction is sticky: after a frame in motion, a frame at rest
/// shows the character idle and still facing where it last went.
pub proof fn lemma_direction_sticks(velocity: Coords, previous: Direction)
    requires
        velocity != Coords::zero(),
    ensures
        select_spec(Coords::zero(), select_spec(velocity, previous).direction) == (
        AnimationDescriptor { status: Status::Idle, direction: heading_spec(velocity) }),
{
}

/// While the character stands, its direction stays whatever it was, frame
/// after frame.
pub proof fn lemma_idle_keeps_direction(previous: Direction)
    ensures
        select_spec(Coords::zero(), previous).direction == previous,
        select_spec(Coords::zero(), previous).status == Status::Idle,
{
}

} // verus!
