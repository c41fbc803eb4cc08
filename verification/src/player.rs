//! The player character: a state machine over the motion model and the
//! animation selector.
//!
//! The character itself touches nothing outside. Each frame the host hands
//! it the sampled input and takes back a [`Request`]; where that asks for a
//! move, the host lets its collision resolver try the velocity and reports
//! what was achieved. The character is generic over the handle to the
//! host's animation player, which it holds from setup on and never looks
//! into.

use crate::animation::{
    heading_spec, select, select_spec, AnimationDescriptor, Direction, Status,
};
use crate::motion::{lemma_step_within_max_speed, step, step_spec, MAX_SPEED};
use crate::vector::{Coords, Vector2};
use vstd::prelude::*;

verus! {

/// What the character is busy with.
#[derive(Clone, Copy, Debug, PartialEq, Eq, Structural)]
pub enum State {
    Move,
    Roll,
    Attack,
}

/// What the character asks of its host at the start of a frame.
#[derive(Clone, Copy, Debug, PartialEq, Eq, Structural)]
pub enum Request {
    /// Try to move with this velocity, sliding along what is in the way,
    /// and report the velocity achieved to `finish_move`.
    MoveAndSlide { desired: Vector2 },
    /// Have the animation player show this clip.
    Play { animation: AnimationDescriptor },
    /// Nothing to do this frame.
    Wait,
}

/// The character as the contracts see it.
pub struct Character<A> {
    pub state: State,
    pub velocity: Coords,
    pub direction: Direction,
    pub animation: Option<A>,
}

impl<A> Character<A> {
    /// A character as it is created: free to move, at rest, facing right,
    /// and not set up yet.
    pub open spec fn initial() -> Character<A> {
        Character {
            state: State::Move,
            velocity: Coords::zero(),
            direction: Direction::Right,
            animation: None,
        }
    }

    /// Whether setup has handed over the animation player.
    pub open spec fn ready(self) -> bool {
        self.animation is Some
    }

    /// The character after setup.
    pub open spec fn set_up(self, animation: A) -> Character<A> {
        Character { animation: Some(animation), ..self }
    }

    /// The character after the start of a frame: only while free to move
    /// does anything change, and then only the velocity, by one step of the
    /// motion model.
    pub open spec fn process(self, input: Coords, dt: nat) -> Character<A> {
        match self.state {
            State::Move => Character { velocity: step_spec(self.velocity, input, dt), ..self },
            State::Attack => self,
            State::Roll => self,
        }
    }

    /// The character after the collision resolver has reported. While free
    /// to move it takes the achieved velocity, turns to face where that
    /// heads, and goes over to the attack if the attack was just pressed.
    /// In any other state the report is ignored.
    pub open spec fn finish_move(self, achieved: Coords, attack_just_pressed: bool) -> Character<A> {
        match self.state {
            State::Move => Character {
                state: if attack_just_pressed {
                    State::Attack
                } else {
                    State::Move
                },
                velocity: achieved,
                direction: select_spec(achieved, self.direction).direction,
                animation: self.animation,
            },
            State::Attack => self,
            State::Roll => self,
        }
    }

    /// The character after the attack clip has ended: free to move again,
    /// and at rest.
    pub open spec fn attack_animation_finished(self) -> Character<A> {
        Character { state: State::Move, velocity: Coords::zero(), ..self }
    }

    /// The clip of the attack, in the direction the character faces.
    pub open spec fn attack_clip(self) -> AnimationDescriptor {
        AnimationDescriptor { status: Status::Attack, direction: self.direction }
    }
}

/// The player character.
pub struct Player<A> {
    state: State,
    velocity: Vector2,
    direction: Direction,
    animation: Option<A>,
}

impl<A> View for Player<A> {
    type V = Character<A>;

    closed spec fn view(&self) -> Character<A> {
        Character {
            state: self.state,
            velocity: self.velocity@,
            direction: self.direction,
            animation: self.animation,
        }
    }
}

impl<A> Player<A> {
    /// Creates the character: free to move, at rest, facing right. It is not
    /// set up until `_ready` has been called.
    pub fn new() -> (player: Self)
        ensures
            player@ == Character::<A>::initial(),
    {
        Player {
            state: State::Move,
            velocity: Vector2::zero(),
            direction: Direction::Right,
            animation: None,
        }
    }

    /// Completes setup by handing over the animation player.
    pub fn _ready(&mut self, animation: A)
        ensures
            final(self)@ == old(self)@.set_up(animation),
            final(self)@.ready(),
    {
        self.animation = Some(animation);
    }

    pub fn is_ready(&self) -> (ready: bool)
        ensures
            ready == self@.ready(),
    {
        self.animation.is_some()
    }

    /// The animation player. Setup has to be complete.
    pub fn animation(&self) -> (animation: &A)
        requires
            self@.ready(),
        ensures
            self@.animation == Some(*animation),
    {
        self.animation.as_ref().unwrap()
    }

    pub fn state(&self) -> (state: State)
        ensures
            state == self@.state,
    {
        self.state
    }

    pub fn velocity(&self) -> (velocity: Vector2)
        ensures
            velocity@ == self@.velocity,
    {
        self.velocity
    }

    pub fn direction(&self) -> (direction: Direction)
        ensures
            direction == self@.direction,
    {
        self.direction
    }

    /// Starts a frame of `dt` microseconds with the directional input
    /// sampled for it, and says what the host is to do. Setup has to be
    /// complete.
    ///
    /// Free to move, the character runs the motion model and asks for the
    /// new velocity to be tried; attacking, it asks for the attack clip;
    /// rolling, it asks for nothing.
    pub fn _process(&mut self, input_vector: Vector2, dt: u32) -> (request: Request)
        requires
            old(self)@.ready(),
        ensures
            final(self)@ == old(self)@.process(input_vector@, dt as nat),
            match old(self)@.state {
                State::Move => request is MoveAndSlide
                    && request->desired@ == final(self)@.velocity,
                State::Attack => request == (Request::Play {
                    animation: old(self)@.attack_clip(),
                }),
                State::Roll => request == Request::Wait,
            },
    {
        match self.state {
            State::Move => Request::MoveAndSlide { desired: self.process_move(input_vector, dt) },
            State::Attack => Request::Play { animation: self.process_attack() },
            State::Roll => {
                self.process_roll();
                Request::Wait
            },
        }
    }

    /// The first half of a frame in which the character is free to move: one
    /// step of the motion model. Returns the velocity to hand to the
    /// collision resolver, which is never faster than `MAX_SPEED`.
    pub fn process_move(&mut self, input_vector: Vector2, dt: u32) -> (desired: Vector2)
        requires
            old(self)@.ready(),
        ensures
            desired@ == step_spec(old(self)@.velocity, input_vector@, dt as nat),
            desired@.norm2() <= MAX_SPEED * MAX_SPEED,
            final(self)@ == (Character { velocity: desired@, ..old(self)@ }),
    {
        self.velocity = step(self.velocity, input_vector, dt);
        self.velocity
    }

    /// The second half of such a frame, once the collision resolver has
    /// said what velocity was achieved. The character keeps that velocity,
    /// faces where it heads, and goes over to the attack if the attack was
    /// just pressed. Returns the clip to show, or `None` where the character
    /// is not free to move, in which case nothing changes.
    pub fn finish_move(&mut self, achieved: Vector2, attack_just_pressed: bool) -> (clip: Option<
        AnimationDescriptor,
    >)
        requires
            old(self)@.ready(),
        ensures
            final(self)@ == old(self)@.finish_move(achieved@, attack_just_pressed),
            clip == if old(self)@.state == State::Move {
                Some(select_spec(achieved@, old(self)@.direction))
            } else {
                None
            },
    {
        match self.state {
            State::Move => {
                let clip = select(achieved, self.direction);
                self.velocity = achieved;
                self.direction = clip.direction;
                if attack_just_pressed {
                    self.state = State::Attack;
                }
                Some(clip)
            },
            _ => None,
        }
    }

    /// A frame of the attack: the clip to show. Input is not looked at, and
    /// nothing changes until the clip has ended.
    pub fn process_attack(&self) -> (clip: AnimationDescriptor)
        requires
            self@.ready(),
        ensures
            clip == self@.attack_clip(),
    {
        AnimationDescriptor { status: Status::Attack, direction: self.direction }
    }

    /// A frame of the roll, which has no behaviour of its own yet.
    pub fn process_roll(&self) {
    }

    /// Takes the notice that the attack clip has ended: the character is
    /// free to move again and at rest, whatever it was doing.
    pub fn attack_animation_finished(&mut self)
        ensures
            final(self)@ == old(self)@.attack_animation_finished(),
    {
        self.state = State::Move;
        self.velocity = Vector2::zero();
    }
}

/// The attack, there and back: from a character free to move, a frame in
/// which the attack was just pressed ends in the attack, still moving as the
/// collision resolver reported; the notice that the clip has ended brings
/// the character back, free to move and at rest, facing as before.
pub proof fn lemma_attack_cycle<A>(
    character: Character<A>,
    input: Coords,
    dt: nat,
    achieved: Coords,
)
    requires
        character.state == State::Move,
    ensures
        character.process(input, dt).state == State::Move,
        character.process(input, dt).finish_move(achieved, true).state == State::Attack,
        character.process(input, dt).finish_move(achieved, true).velocity == achieved,
        character.process(input, dt).finish_move(achieved, true).attack_animation_finished()
            == (Character {
            state: State::Move,
            velocity: Coords::zero(),
            direction: select_spec(achieved, character.direction).direction,
            animation: character.animation,
        }),
{
}

/// A frame without the attack pressed leaves the character free to move.
pub proof fn lemma_move_continues<A>(
    character: Character<A>,
    input: Coords,
    dt: nat,
    achieved: Coords,
)
    requires
        character.state == State::Move,
    ensures
        character.process(input, dt).finish_move(achieved, false).state == State::Move,
        character.process(input, dt).finish_move(achieved, false).velocity == achieved,
{
}

/// While the character is free to move, the velocity it asks the host to
/// try is never faster than the largest speed, whatever velocity the
/// collision resolver reported the frame before.
pub proof fn lemma_desired_within_max_speed<A>(character: Character<A>, input: Coords, dt: nat)
    requires
        character.state == State::Move,
    ensures
        character.process(input, dt).velocity.norm2() <= MAX_SPEED * MAX_SPEED,
{
    lemma_step_within_max_speed(character.velocity, input, dt);
}

/// An attack or a roll is not interrupted: whatever the input, the reported
/// velocity and the attack button, a frame changes nothing. Only the notice
/// that the clip has ended does.
pub proof fn lemma_busy_ignores_input<A>(
    character: Character<A>,
    input: Coords,
    dt: nat,
    achieved: Coords,
    attack_just_pressed: bool,
)
    requires
        character.state != State::Move,
    ensures
        character.process(input, dt) == character,
        character.finish_move(achieved, attack_just_pressed) == character,
{
}

/// The character always faces where it last went: a frame that ends in
/// motion turns it to where the motion heads, and nothing else turns it.
pub proof fn lemma_direction_follows_motion<A>(
    character: Character<A>,
    input: Coords,
    dt: nat,
    achieved: Coords,
    attack_just_pressed: bool,
)
    ensures
        Character::<A>::initial().direction == Direction::Right,
        character.process(input, dt).direction == character.direction,
        character.attack_animation_finished().direction == character.direction,
        character.finish_move(achieved, attack_just_pressed).direction == if character.state
            == State::Move && achieved != Coords::zero() {
            heading_spec(achieved)
        } else {
            character.direction
        },
{
}

/// Setup is never undone: no transition touches the animation player, so a
/// character that is ready stays ready.
pub proof fn lemma_setup_is_kept<A>(
    character: Character<A>,
    input: Coords,
    dt: nat,
    achieved: Coords,
    attack_just_pressed: bool,
)
    ensures
        character.process(input, dt).animation == character.animation,
        character.finish_move(achieved, attack_just_pressed).animation == character.animation,
        character.attack_animation_finished().animation == character.animation,
{
}

} // verus!
