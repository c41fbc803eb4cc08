//! The motion model: how a velocity answers to the directional input over
//! one frame.
//!
//! Velocities are [`Vector2`] values in millionths of a length unit per
//! second, and time is counted in microseconds, so a rate in units per second
//! squared, multiplied by a frame time, is a change of velocity in the same
//! fixed point without any further scaling.

use crate::vector::{
    lemma_components_within, lemma_limited, lemma_moved_toward, lemma_moved_toward_progress,
    lemma_norm2, lemma_scaled_components, lemma_scaled_norm, lemma_scaled_norm1, lemma_shrunk,
    lemma_triangle, Coords, Vector2,
};
use vstd::prelude::*;

verus! {

/// How fast the velocity may turn toward the input, in units per second
/// squared.
pub const ACCELERATION: u64 = 500;

/// How fast the velocity falls off without input, in units per second
/// squared.
pub const FRICTION: u64 = 500;

/// The largest speed, in millionths of a unit per second.
pub const MAX_SPEED: u32 = 80_000_000;

/// The whole of an axis strength: strengths run from nothing, 0, to this.
pub const FULL_STRENGTH: u32 = 1_000_000;

/// The directional input that four axis strengths make: right less left,
/// and, `y` pointing down the screen, down less up.
pub open spec fn input_vector_spec(right: nat, left: nat, down: nat, up: nat) -> Coords {
    Coords::at(right - left, down - up)
}

/// The velocity that an input asks for: full speed in the input's direction,
/// and rest for no input.
pub open spec fn target_velocity_spec(input: Coords) -> Coords {
    input.scaled(MAX_SPEED as nat)
}

/// The largest change of velocity that `dt` microseconds allow under the
/// given input.
pub open spec fn step_size(input: Coords, dt: nat) -> nat {
    if input == Coords::zero() {
        FRICTION as nat * dt
    } else {
        ACCELERATION as nat * dt
    }
}

/// One frame of the motion model. The velocity is first held to the largest
/// speed, then moved toward the target by at most the step size, and a
/// result that rounding pushed past the largest speed is cut back to it.
pub open spec fn step_spec(velocity: Coords, input: Coords, dt: nat) -> Coords {
    velocity.limited(MAX_SPEED as nat).moved_toward(
        target_velocity_spec(input),
        step_size(input, dt),
    ).limited(MAX_SPEED as nat)
}

/// The directional input of a frame from the strengths with which the four
/// directions are pressed, each between nothing and `FULL_STRENGTH`.
pub fn input_vector(right: u32, left: u32, down: u32, up: u32) -> (input: Vector2)
    requires
        right <= FULL_STRENGTH,
        left <= FULL_STRENGTH,
        down <= FULL_STRENGTH,
        up <= FULL_STRENGTH,
    ensures
        input@ == input_vector_spec(right as nat, left as nat, down as nat, up as nat),
{
    Vector2 { x: right as i32 - left as i32, y: down as i32 - up as i32 }
}

/// The velocity that the input asks for: full speed in the input's
/// direction, each component rounded toward zero, and rest for no input.
pub fn target_velocity(input_vector: Vector2) -> (target: Vector2)
    ensures
        target@ == target_velocity_spec(input_vector@),
        target@.norm2() <= MAX_SPEED * MAX_SPEED,
{
    input_vector.with_length(MAX_SPEED)
}

/// Advances the velocity by one frame of `dt` microseconds. With input the
/// velocity moves toward full speed in the input's direction by at most
/// `ACCELERATION * dt`; without input it moves toward rest by at most
/// `FRICTION * dt`. The result is never faster than `MAX_SPEED`.
pub fn step(current_velocity: Vector2, input_vector: Vector2, dt: u32) -> (new_velocity: Vector2)
    ensures
        new_velocity@ == step_spec(current_velocity@, input_vector@, dt as nat),
        new_velocity@.norm2() <= MAX_SPEED * MAX_SPEED,
{
    let start = current_velocity.limit_length(MAX_SPEED);
    let target = target_velocity(input_vector);
    let rate: u64 = if input_vector.is_zero() {
        FRICTION
    } else {
        ACCELERATION
    };
    let delta: u64 = rate * (dt as u64);
    proof {
        lemma_components_within(start@, MAX_SPEED as nat);
        lemma_components_within(target@, MAX_SPEED as nat);
    }
    start.move_toward(target, delta).limit_length(MAX_SPEED)
}

/// Without input the target is rest.
pub proof fn lemma_target_of_no_input()
    ensures
        target_velocity_spec(Coords::zero()) == Coords::zero(),
{
    lemma_norm2(Coords::zero());
}

/// The target is never faster than the largest speed.
pub proof fn lemma_target_within_max_speed(input: Coords)
    ensures
        target_velocity_spec(input).norm2() <= MAX_SPEED * MAX_SPEED,
{
    lemma_scaled_norm(input, MAX_SPEED as nat);
}

/// Under input the target is the largest speed but for rounding: no faster,
/// and, counted along the axes, at most one step short of it. However weak
/// the input, it asks for full speed, and it asks for it on the side of
/// each axis on which the input lies.
pub proof fn lemma_target_is_full_speed(input: Coords)
    requires
        input != Coords::zero(),
    ensures
        target_velocity_spec(input).norm2() <= MAX_SPEED * MAX_SPEED,
        target_velocity_spec(input).norm1() + 1 >= MAX_SPEED,
        input.x >= 0 ==> target_velocity_spec(input).x >= 0,
        input.x <= 0 ==> target_velocity_spec(input).x <= 0,
        input.y >= 0 ==> target_velocity_spec(input).y >= 0,
        input.y <= 0 ==> target_velocity_spec(input).y <= 0,
{
    lemma_scaled_norm(input, MAX_SPEED as nat);
    lemma_scaled_norm1(input, MAX_SPEED as nat);
    lemma_scaled_components(input, MAX_SPEED as nat);
}

/// Whatever the velocity, the input and the frame time, the next velocity is
/// no faster than the largest speed.
pub proof fn lemma_step_within_max_speed(velocity: Coords, input: Coords, dt: nat)
    ensures
        step_spec(velocity, input, dt).norm2() <= MAX_SPEED * MAX_SPEED,
{
    let moved = velocity.limited(MAX_SPEED as nat).moved_toward(
        target_velocity_spec(input),
        step_size(input, dt),
    );
    lemma_limited(moved, MAX_SPEED as nat);
}

/// One frame adds at most the step size to the speed: from a velocity no
/// faster than `m` the next is no faster than `m` plus `ACCELERATION * dt`
/// under input, or plus `FRICTION * dt` without.
pub proof fn lemma_step_gains_at_most(velocity: Coords, input: Coords, dt: nat, m: nat)
    requires
        velocity.norm2() <= m * m,
    ensures
        step_spec(velocity, input, dt).norm2() <= (m + step_size(input, dt)) * (m + step_size(
            input,
            dt,
        )),
{
    let start = velocity.limited(MAX_SPEED as nat);
    let target = target_velocity_spec(input);
    let size = step_size(input, dt);
    let moved = start.moved_toward(target, size);
    lemma_limited(velocity, MAX_SPEED as nat);
    lemma_moved_toward(start, target, size);
    lemma_triangle(start, moved.minus(start), m, size);
    assert(start.plus(moved.minus(start)) == moved);
    lemma_limited(moved, MAX_SPEED as nat);
}

/// Without input the step is a plain move toward rest, and the result lies
/// between rest and the velocity on each axis.
pub proof fn lemma_friction_step(velocity: Coords, dt: nat)
    ensures
        step_spec(velocity, Coords::zero(), dt) == velocity.limited(MAX_SPEED as nat).moved_toward(
            Coords::zero(),
            FRICTION as nat * dt,
        ),
        step_spec(velocity, Coords::zero(), dt).between(
            Coords::zero(),
            velocity.limited(MAX_SPEED as nat),
        ),
        step_spec(velocity, Coords::zero(), dt).between(Coords::zero(), velocity),
{
    let start = velocity.limited(MAX_SPEED as nat);
    let size = FRICTION as nat * dt;
    let moved = start.moved_toward(Coords::zero(), size);
    lemma_target_of_no_input();
    lemma_limited(velocity, MAX_SPEED as nat);
    lemma_moved_toward(start, Coords::zero(), size);
    lemma_shrunk(moved, start);
}

/// Without input the speed never grows: the next velocity is no longer than
/// the last, and points the same way on each axis.
pub proof fn lemma_friction_slows(velocity: Coords, dt: nat)
    ensures
        step_spec(velocity, Coords::zero(), dt).between(Coords::zero(), velocity),
        step_spec(velocity, Coords::zero(), dt).norm2() <= velocity.norm2(),
{
    lemma_friction_step(velocity, dt);
    lemma_shrunk(step_spec(velocity, Coords::zero(), dt), velocity);
}

/// Without input one frame takes at most `FRICTION * dt` off the speed: if
/// the next velocity is no faster than `m`, the last one, itself within the
/// largest speed, was no faster than `m` plus that.
pub proof fn lemma_friction_loses_at_most(velocity: Coords, dt: nat, m: nat)
    requires
        velocity.norm2() <= MAX_SPEED * MAX_SPEED,
        step_spec(velocity, Coords::zero(), dt).norm2() <= m * m,
    ensures
        velocity.norm2() <= (m + FRICTION * dt) * (m + FRICTION * dt),
{
    let size = FRICTION as nat * dt;
    let next = step_spec(velocity, Coords::zero(), dt);
    lemma_friction_step(velocity, dt);
    lemma_moved_toward(velocity, Coords::zero(), size);
    let back = velocity.minus(next);
    lemma_norm2(back);
    lemma_norm2(next.minus(velocity));
    assert(back.norm2() == next.minus(velocity).norm2()) by (nonlinear_arith)
        requires
            back.norm2() == back.x * back.x + back.y * back.y,
            next.minus(velocity).norm2() == (-back.x) * (-back.x) + (-back.y) * (-back.y),
    ;
    lemma_triangle(next, back, m, size);
    assert(next.plus(back) == velocity);
}

/// Without input the velocity comes to rest exactly, and does so in the
/// frame in which the speed left is within `FRICTION * dt`; once at rest it
/// stays there.
pub proof fn lemma_friction_stops(velocity: Coords, dt: nat)
    ensures
        step_spec(velocity, Coords::zero(), dt) == Coords::zero() <==> velocity.limited(
            MAX_SPEED as nat,
        ).norm2() <= (FRICTION * dt) * (FRICTION * dt),
        step_spec(Coords::zero(), Coords::zero(), dt) == Coords::zero(),
{
    let start = velocity.limited(MAX_SPEED as nat);
    let size = FRICTION as nat * dt;
    lemma_friction_step(velocity, dt);
    lemma_friction_step(Coords::zero(), dt);
    lemma_norm2(start);
    lemma_norm2(Coords::zero().minus(start));
    assert(Coords::zero().minus(start).norm2() == start.norm2()) by (nonlinear_arith)
        requires
            start.norm2() == start.x * start.x + start.y * start.y,
            Coords::zero().minus(start).norm2() == (-start.x) * (-start.x) + (-start.y) * (
            -start.y),
    ;
    lemma_moved_toward(start, Coords::zero(), size);
    if start.norm2() > size * size {
        // The move is shorter than the way to rest, so it cannot end there.
        let next = start.moved_toward(Coords::zero(), size);
        if next == Coords::zero() {
            assert(next.minus(start) == Coords::zero().minus(start));
        }
    }
    assert(size * size >= 0) by (nonlinear_arith);
}

/// Without input every frame of at least a microsecond makes a moving
/// velocity strictly slower. Counted along the axes it loses at least
/// `FRICTION * dt - 1`, unless it comes to rest.
pub proof fn lemma_friction_strict(velocity: Coords, dt: nat)
    requires
        dt >= 1,
        velocity != Coords::zero(),
    ensures
        step_spec(velocity, Coords::zero(), dt).norm2() < velocity.norm2(),
        step_spec(velocity, Coords::zero(), dt) == Coords::zero() || step_spec(
            velocity,
            Coords::zero(),
            dt,
        ).norm1() + FRICTION * dt <= velocity.norm1() + 1,
{
    let start = velocity.limited(MAX_SPEED as nat);
    let size = FRICTION as nat * dt;
    let next = step_spec(velocity, Coords::zero(), dt);
    lemma_friction_step(velocity, dt);
    lemma_limited(velocity, MAX_SPEED as nat);
    lemma_norm2(velocity);
    lemma_norm2(next);
    if next != Coords::zero() {
        lemma_moved_toward_progress(start, Coords::zero(), size);
        assert(Coords::zero().minus(next).norm1() == next.norm1());
        assert(Coords::zero().minus(start).norm1() == start.norm1());
        assert(size >= 500) by (nonlinear_arith)
            requires
                size == 500 * dt,
                dt >= 1,
        ;
        lemma_shrunk(next, start);
    }
}

/// The velocity after `frames` frames without input, each of `dt`
/// microseconds.
pub open spec fn coast(velocity: Coords, dt: nat, frames: nat) -> Coords
    decreases frames,
{
    if frames == 0 {
        velocity
    } else {
        step_spec(coast(velocity, dt, (frames - 1) as nat), Coords::zero(), dt)
    }
}

/// Frame after frame without input the speed only goes down: after more
/// frames the velocity is no longer than after fewer.
pub proof fn lemma_coast_slows(velocity: Coords, dt: nat, earlier: nat, later: nat)
    requires
        earlier <= later,
    ensures
        coast(velocity, dt, later).norm2() <= coast(velocity, dt, earlier).norm2(),
        coast(velocity, dt, later).between(Coords::zero(), coast(velocity, dt, earlier)),
    decreases later,
{
    if earlier < later {
        lemma_coast_slows(velocity, dt, earlier, (later - 1) as nat);
        lemma_friction_slows(coast(velocity, dt, (later - 1) as nat), dt);
    }
}

/// A velocity that has come to rest without input stays at rest.
pub proof fn lemma_coast_stays_at_rest(velocity: Coords, dt: nat, earlier: nat, later: nat)
    requires
        earlier <= later,
        coast(velocity, dt, earlier) == Coords::zero(),
    ensures
        coast(velocity, dt, later) == Coords::zero(),
{
    lemma_coast_slows(velocity, dt, earlier, later);
}

/// Without input the velocity does come to rest: counted along the axes it
/// loses at least `FRICTION * dt - 1` a frame, so it is at rest after any
/// number of frames that, at that rate, covers where it began.
pub proof fn lemma_coast_comes_to_rest(velocity: Coords, dt: nat, frames: nat)
    requires
        dt >= 1,
        frames * (FRICTION * dt - 1) >= velocity.norm1(),
    ensures
        coast(velocity, dt, frames) == Coords::zero(),
{
    lemma_coast_loss(velocity, dt, frames);
}

proof fn lemma_coast_loss(velocity: Coords, dt: nat, frames: nat)
    requires
        dt >= 1,
    ensures
        coast(velocity, dt, frames) == Coords::zero() || coast(velocity, dt, frames).norm1()
            + frames * (FRICTION * dt - 1) <= velocity.norm1(),
    decreases frames,
{
    let loss = FRICTION * dt - 1;
    if frames == 0 {
        assert(frames * loss == 0) by (nonlinear_arith)
            requires
                frames == 0,
        ;
    } else {
        let before = coast(velocity, dt, (frames - 1) as nat);
        lemma_coast_loss(velocity, dt, (frames - 1) as nat);
        assert(frames * loss == (frames - 1) * loss + loss) by (nonlinear_arith);
        if before == Coords::zero() {
            lemma_friction_stops(before, dt);
        } else {
            lemma_friction_strict(before, dt);
        }
    }
}

/// Under input a velocity that already heads for the target, no component
/// past it, is not held back by the speed limit: the step is a plain move
/// toward the target, and ends between the velocity and the target on each
/// axis.
pub proof fn lemma_step_toward_target(velocity: Coords, input: Coords, dt: nat)
    requires
        velocity.between(Coords::zero(), target_velocity_spec(input)),
    ensures
        step_spec(velocity, input, dt) == velocity.moved_toward(
            target_velocity_spec(input),
            step_size(input, dt),
        ),
        step_spec(velocity, input, dt).between(velocity, target_velocity_spec(input)),
        step_spec(velocity, input, dt).between(Coords::zero(), target_velocity_spec(input)),
{
    let target = target_velocity_spec(input);
    let size = step_size(input, dt);
    lemma_target_within_max_speed(input);
    lemma_shrunk(velocity, target);
    let moved = velocity.moved_toward(target, size);
    lemma_moved_toward(velocity, target, size);
    lemma_shrunk(moved, target);
}

/// Under input such a velocity gets strictly faster in every frame of at
/// least a microsecond until it is the target, and never passes the target
/// on either axis.
pub proof fn lemma_step_speeds_up(velocity: Coords, input: Coords, dt: nat)
    requires
        dt >= 1,
        input != Coords::zero(),
        velocity.between(Coords::zero(), target_velocity_spec(input)),
        velocity != target_velocity_spec(input),
    ensures
        step_spec(velocity, input, dt).between(velocity, target_velocity_spec(input)),
        velocity.norm2() < step_spec(velocity, input, dt).norm2(),
        step_spec(velocity, input, dt).norm2() <= target_velocity_spec(input).norm2(),
{
    let target = target_velocity_spec(input);
    let size = step_size(input, dt);
    let moved = step_spec(velocity, input, dt);
    lemma_step_toward_target(velocity, input, dt);
    lemma_shrunk(moved, target);
    if moved != target {
        lemma_moved_toward_progress(velocity, target, size);
        assert(size >= 500) by (nonlinear_arith)
            requires
                size == 500 * dt,
                dt >= 1,
        ;
    }
    lemma_shrunk(velocity, moved);
}

/// The velocity after `frames` frames under the same input, each of `dt`
/// microseconds.
pub open spec fn drive(velocity: Coords, input: Coords, dt: nat, frames: nat) -> Coords
    decreases frames,
{
    if frames == 0 {
        velocity
    } else {
        step_spec(drive(velocity, input, dt, (frames - 1) as nat), input, dt)
    }
}

/// Held long enough, an input is obeyed: a velocity that heads for the
/// target comes closer to it by at least `ACCELERATION * dt - 1` a frame,
/// counted along the axes, so it is the target after any number of frames
/// that, at that rate, covers the way there. From then on it stays the
/// target.
pub proof fn lemma_drive_reaches_target(velocity: Coords, input: Coords, dt: nat, frames: nat)
    requires
        dt >= 1,
        input != Coords::zero(),
        velocity.between(Coords::zero(), target_velocity_spec(input)),
        frames * (ACCELERATION * dt - 1) >= target_velocity_spec(input).minus(velocity).norm1(),
    ensures
        drive(velocity, input, dt, frames) == target_velocity_spec(input),
{
    lemma_drive_gain(velocity, input, dt, frames);
}

proof fn lemma_drive_gain(velocity: Coords, input: Coords, dt: nat, frames: nat)
    requires
        dt >= 1,
        input != Coords::zero(),
        velocity.between(Coords::zero(), target_velocity_spec(input)),
    ensures
        drive(velocity, input, dt, frames).between(Coords::zero(), target_velocity_spec(input)),
        drive(velocity, input, dt, frames) == target_velocity_spec(input) || target_velocity_spec(
            input,
        ).minus(drive(velocity, input, dt, frames)).norm1() + frames * (ACCELERATION * dt - 1)
            <= target_velocity_spec(input).minus(velocity).norm1(),
    decreases frames,
{
    let target = target_velocity_spec(input);
    let gain = ACCELERATION * dt - 1;
    if frames == 0 {
        assert(frames * gain == 0) by (nonlinear_arith)
            requires
                frames == 0,
        ;
    } else {
        let before = drive(velocity, input, dt, (frames - 1) as nat);
        lemma_drive_gain(velocity, input, dt, (frames - 1) as nat);
        assert(frames * gain == (frames - 1) * gain + gain) by (nonlinear_arith);
        lemma_step_toward_target(before, input, dt);
        let after = step_spec(before, input, dt);
        if after != target {
            lemma_moved_toward_progress(before, target, step_size(input, dt));
            lemma_moved_toward(before, target, step_size(input, dt));
            if before == target {
                lemma_norm2(target.minus(target));
                assert(step_size(input, dt) * step_size(input, dt) >= 0) by (nonlinear_arith);
            }
        }
    }
}

} // verus!
