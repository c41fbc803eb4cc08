use action_rpg::grass::{Grass, GrassEffect, Phase};
use action_rpg::scenery::{Bush, World};

#[test]
fn a_bush_is_named_at_setup() {
    let mut bush = Bush::new();
    assert_eq!(bush.name(), "");
    bush._ready();
    assert_eq!(bush.name(), "Bush");
    bush._process();
    assert_eq!(bush.name(), "Bush");
}

#[test]
fn the_world_is_named_at_setup() {
    let mut world = World::new();
    assert_eq!(world.name(), "");
    world._ready();
    assert_eq!(world.name(), "World");
    world._process();
    assert_eq!(world.name(), "World");
}

#[test]
fn grass_is_named_at_setup() {
    let mut grass = Grass::new();
    assert_eq!(grass.name(), "");
    grass._ready();
    assert_eq!(grass.name(), "Grass");
}

#[test]
fn grass_left_alone_asks_for_nothing() {
    let grass = Grass::new();
    assert!(grass._process(false, (10, 20)).is_none());
}

#[test]
fn cut_grass_asks_for_its_effect_where_it_stands() {
    let grass = Grass::new();
    let spawn = grass._process(true, (10, -20)).unwrap();
    assert_eq!(spawn.scene, "res://scenes/GrassEffect.tscn");
    assert_eq!(spawn.position, (10, -20));
}

#[test]
fn the_effect_plays_once_and_is_done() {
    let mut effect: GrassEffect<u8> = GrassEffect::new();
    assert_eq!(effect.phase(), Phase::Spawned);
    assert!(!effect.is_ready());
    assert_eq!(effect._ready(7), "Animate");
    assert!(effect.is_ready());
    assert_eq!(effect.phase(), Phase::Playing);
    assert_eq!(*effect.animated_sprite(), 7);
    effect._process();
    assert_eq!(effect.phase(), Phase::Playing);
    effect.on_animated_sprite_animation_finished();
    assert_eq!(effect.phase(), Phase::Finished);
    assert_eq!(*effect.animated_sprite(), 7);
}

#[test]
fn an_effect_that_is_done_stays_done() {
    let mut effect: GrassEffect<u8> = GrassEffect::new();
    effect.on_animated_sprite_animation_finished();
    assert_eq!(effect.phase(), Phase::Finished);
    effect._ready(1);
    assert_eq!(effect.phase(), Phase::Finished);
    effect.on_animated_sprite_animation_finished();
    assert_eq!(effect.phase(), Phase::Finished);
}
