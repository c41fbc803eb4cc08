use action_rpg::animation::{heading, select, AnimationDescriptor, Direction, Status};
use action_rpg::vector::Vector2;

fn v(x: i32, y: i32) -> Vector2 {
    Vector2::new(x, y)
}

const DIRECTIONS: [Direction; 4] =
    [Direction::Left, Direction::Right, Direction::Up, Direction::Down];

#[test]
fn at_rest_the_character_idles_and_keeps_its_direction() {
    for previous in DIRECTIONS {
        let clip = select(v(0, 0), previous);
        assert_eq!(clip, AnimationDescriptor { status: Status::Idle, direction: previous });
    }
}

#[test]
fn in_motion_the_character_runs_where_the_velocity_heads() {
    for previous in DIRECTIONS {
        assert_eq!(select(v(5, 0), previous).direction, Direction::Right);
        assert_eq!(select(v(-5, 0), previous).direction, Direction::Left);
        assert_eq!(select(v(0, 5), previous).direction, Direction::Down);
        assert_eq!(select(v(0, -5), previous).direction, Direction::Up);
        assert_eq!(select(v(0, -5), previous).status, Status::Run);
        assert_eq!(select(v(1, 0), previous).status, Status::Run);
    }
}

#[test]
fn the_larger_component_decides_the_direction() {
    assert_eq!(heading(v(5, 4)), Direction::Right);
    assert_eq!(heading(v(5, -4)), Direction::Right);
    assert_eq!(heading(v(-5, 4)), Direction::Left);
    assert_eq!(heading(v(4, 5)), Direction::Down);
    assert_eq!(heading(v(-4, 5)), Direction::Down);
    assert_eq!(heading(v(4, -5)), Direction::Up);
    assert_eq!(heading(v(-4, -5)), Direction::Up);
}

#[test]
fn on_a_diagonal_the_horizontal_wins() {
    assert_eq!(heading(v(5, 5)), Direction::Right);
    assert_eq!(heading(v(5, -5)), Direction::Right);
    assert_eq!(heading(v(-5, 5)), Direction::Left);
    assert_eq!(heading(v(-5, -5)), Direction::Left);
}

#[test]
fn heading_at_the_limits() {
    assert_eq!(heading(v(i32::MIN, i32::MAX)), Direction::Left);
    assert_eq!(heading(v(i32::MAX, i32::MIN)), Direction::Up);
    assert_eq!(heading(v(i32::MIN, i32::MIN)), Direction::Left);
    assert_eq!(heading(v(i32::MAX, i32::MAX)), Direction::Right);
}

#[test]
fn selecting_twice_gives_the_same_clip() {
    for velocity in [v(0, 0), v(3, -4), v(-80_000_000, 0), v(1, 1)] {
        for previous in DIRECTIONS {
            let first = select(velocity, previous);
            assert_eq!(select(velocity, previous), first);
            assert_eq!(select(velocity, first.direction), first);
        }
    }
}

#[test]
fn the_direction_sticks_when_the_character_stops() {
    let moving = select(v(-7, 2), Direction::Right);
    assert_eq!(moving, AnimationDescriptor { status: Status::Run, direction: Direction::Left });
    let stopped = select(v(0, 0), moving.direction);
    assert_eq!(stopped, AnimationDescriptor { status: Status::Idle, direction: Direction::Left });
    let still = select(v(0, 0), stopped.direction);
    assert_eq!(still, stopped);
}

#[test]
fn clip_names_are_status_then_direction() {
    let expected = [
        (Status::Idle, Direction::Left, "IdleLeft"),
        (Status::Idle, Direction::Right, "IdleRight"),
        (Status::Idle, Direction::Up, "IdleUp"),
        (Status::Idle, Direction::Down, "IdleDown"),
        (Status::Run, Direction::Left, "RunLeft"),
        (Status::Run, Direction::Right, "RunRight"),
        (Status::Run, Direction::Up, "RunUp"),
        (Status::Run, Direction::Down, "RunDown"),
        (Status::Attack, Direction::Left, "AttackLeft"),
        (Status::Attack, Direction::Right, "AttackRight"),
        (Status::Attack, Direction::Up, "AttackUp"),
        (Status::Attack, Direction::Down, "AttackDown"),
    ];
    for (status, direction, name) in expected {
        let clip = AnimationDescriptor { status, direction };
        assert_eq!(clip.name(), name);
        assert_eq!(format!("{}{}", status.token(), direction.token()), name);
    }
}

#[test]
fn facing_is_a_step_of_length_one() {
    assert_eq!(Direction::Left.facing(), v(-1, 0));
    assert_eq!(Direction::Right.facing(), v(1, 0));
    assert_eq!(Direction::Up.facing(), v(0, -1));
    assert_eq!(Direction::Down.facing(), v(0, 1));
    for direction in DIRECTIONS {
        assert_eq!(heading(direction.facing()), direction);
    }
}
