//! Scenery that stands about and does nothing: it only learns its name at
//! setup.

use vstd::prelude::*;

verus! {

/// A bush.
pub struct Bush {
    name: String,
}

impl Bush {
    /// The bush's name: empty until setup, `Bush` from then on.
    pub closed spec fn name_spec(&self) -> Seq<char> {
        self.name@
    }

    /// Creates a bush that has no name yet.
    pub fn new() -> (bush: Bush)
        ensures
            bush.name_spec() == Seq::<char>::empty(),
    {
        Bush { name: String::new() }
    }

    /// Completes setup: the bush is named.
    pub fn _ready(&mut self)
        ensures
            final(self).name_spec() == "Bush"@,
    {
        self.name = "Bush".to_owned();
    }

    pub fn name(&self) -> (name: &str)
        ensures
            name@ == self.name_spec(),
    {
        self.name.as_str()
    }

    /// A frame, in which a bush does nothing.
    pub fn _process(&self) {
    }
}

/// The world that the scene's entities stand in.
pub struct World {
    name: String,
}

impl World {
    /// The world's name: empty until setup, `World` from then on.
    pub closed spec fn name_spec(&self) -> Seq<char> {
        self.name@
    }

    /// Creates a world that has no name yet.
    pub fn new() -> (world: World)
        ensures
            world.name_spec() == Seq::<char>::empty(),
    {
        World { name: String::new() }
    }

    /// Completes setup: the world is named.
    pub fn _ready(&mut self)
        ensures
            final(self).name_spec() == "World"@,
    {
        self.name = "World".to_owned();
    }

    pub fn name(&self) -> (name: &str)
        ensures
            name@ == self.name_spec(),
    {
        self.name.as_str()
    }

    /// A frame, in which the world does nothing.
    pub fn _process(&self) {
    }
}

} // verus!
