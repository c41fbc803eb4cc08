//! The behaviour of a top-down action game's entities, kept apart from the
//! engine that shows them: a player character that runs, stops and attacks,
//! grass that can be cut, and scenery.
//!
//! Nothing here reads input, moves a body or plays a clip. A host does that,
//! frame by frame, and asks this crate what is to happen: it hands over what
//! it sampled and carries out what comes back. All arithmetic is in fixed
//! point, a millionth of a unit to the step and a microsecond to the tick, so
//! that every result is exact and the rules of motion can be proved: the
//! speed limit holds in every frame, the character comes to rest exactly,
//! and an attack runs its course.
//!
//! - [`math`]: integer square roots.
//! - [`vector`]: fixed-point vectors, rescaling and the move toward a target.
//! - [`motion`]: the motion model, one step a frame, and its laws.
//! - [`animation`]: the choice of clip from a velocity.
//! - [`player`]: the character's state machine.
//! - [`grass`]: grass and the effect it leaves when cut.
//! - [`scenery`]: what only stands about.

pub mod animation;
pub mod grass;
pub mod math;
pub mod motion;
pub mod player;
pub mod scenery;
pub mod vector;
