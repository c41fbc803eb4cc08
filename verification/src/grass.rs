//! Grass that can be cut, and the short-lived effect it leaves behind.
//!
//! Neither touches the scene itself. Cut grass says what is to be spawned
//! and where; the host spawns it and removes the grass. The effect says
//! which clip to play, and reports when it is done so that the host can
//! remove it.

use vstd::prelude::*;

verus! {

/// What cut grass asks its host to spawn. Having spawned it, the host
/// removes the grass from the scene.
pub struct Spawn<P> {
    /// The scene to make an instance of.
    pub scene: &'static str,
    /// Where to put the instance.
    pub position: P,
}

/// A tuft of grass.
pub struct Grass {
    name: String,
}

impl Grass {
    /// The scene of the effect that cut grass leaves behind.
    pub open spec fn effect_scene_spec() -> Seq<char> {
        "res://scenes/GrassEffect.tscn"@
    }

    /// The grass's name: empty until setup, `Grass` from then on.
    pub closed spec fn name_spec(&self) -> Seq<char> {
        self.name@
    }

    /// Creates grass that has no name yet.
    pub fn new() -> (grass: Grass)
        ensures
            grass.name_spec() == Seq::<char>::empty(),
    {
        Grass { name: String::new() }
    }

    /// Completes setup: the grass is named.
    pub fn _ready(&mut self)
        ensures
            final(self).name_spec() == "Grass"@,
    {
        self.name = "Grass".to_owned();
    }

    pub fn name(&self) -> (name: &str)
        ensures
            name@ == self.name_spec(),
    {
        self.name.as_str()
    }

    /// A frame of the grass, which stands at `position`. In the frame in
    /// which the attack is pressed the grass is cut: it asks for its effect
    /// at its own position, after which the host removes it. In any other
    /// frame it asks for nothing.
    pub fn _process<P>(&self, attack_just_pressed: bool, position: P) -> (spawn: Option<Spawn<P>>)
        ensures
            spawn is Some <==> attack_just_pressed,
            attack_just_pressed ==> spawn->0.position == position && spawn->0.scene@
                == Self::effect_scene_spec(),
    {
        if attack_just_pressed {
            Some(Spawn { scene: "res://scenes/GrassEffect.tscn", position })
        } else {
            None
        }
    }
}

/// How far the effect has come in its one pass.
#[derive(Clone, Copy, Debug, PartialEq, Eq, Structural)]
pub enum Phase {
    /// Created, not set up yet.
    Spawned,
    /// Set up and playing its clip.
    Playing,
    /// Played: the host is to remove it.
    Finished,
}

/// The effect that cut grass leaves behind. It is generic over the handle
/// to the host's sprite, which it holds from setup on.
pub struct GrassEffect<S> {
    phase: Phase,
    animated_sprite: Option<S>,
}

impl<S> GrassEffect<S> {
    /// How far the effect has come.
    pub closed spec fn phase_spec(&self) -> Phase {
        self.phase
    }

    /// The sprite, from setup on.
    pub closed spec fn sprite_spec(&self) -> Option<S> {
        self.animated_sprite
    }

    /// The clip that the effect plays.
    pub open spec fn clip_spec() -> Seq<char> {
        "Animate"@
    }

    /// Creates the effect, not set up yet.
    pub fn new() -> (effect: Self)
        ensures
            effect.phase_spec() == Phase::Spawned,
            effect.sprite_spec() is None,
    {
        GrassEffect { phase: Phase::Spawned, animated_sprite: None }
    }

    /// Completes setup by handing over the sprite, and returns the clip
    /// that the host is to play on it, once and not looping.
    pub fn _ready(&mut self, animated_sprite: S) -> (clip: &'static str)
        ensures
            clip@ == Self::clip_spec(),
            final(self).sprite_spec() == Some(animated_sprite),
            final(self).phase_spec() == if old(self).phase_spec() == Phase::Finished {
                Phase::Finished
            } else {
                Phase::Playing
            },
    {
        self.animated_sprite = Some(animated_sprite);
        if self.phase == Phase::Spawned {
            self.phase = Phase::Playing;
        }
        "Animate"
    }

    pub fn is_ready(&self) -> (ready: bool)
        ensures
            ready == (self.sprite_spec() is Some),
    {
        self.animated_sprite.is_some()
    }

    /// The sprite. Setup has to be complete.
    pub fn animated_sprite(&self) -> (sprite: &S)
        requires
            self.sprite_spec() is Some,
        ensures
            self.sprite_spec() == Some(*sprite),
    {
        self.animated_sprite.as_ref().unwrap()
    }

    pub fn phase(&self) -> (phase: Phase)
        ensures
            phase == self.phase_spec(),
    {
        self.phase
    }

    /// A frame, in which the effect does nothing.
    pub fn _process(&self) {
    }

    /// Takes the notice that the clip has ended. The effect is done, and the
    /// host removes it.
    pub fn on_animated_sprite_animation_finished(&mut self)
        ensures
            final(self).phase_spec() == Phase::Finished,
            final(self).sprite_spec() == old(self).sprite_spec(),
    {
        self.phase = Phase::Finished;
    }
}

} // verus!
