use grid_puzzle::game_object::animation::{animate_objects, show_frame};
use grid_puzzle::game_object::behaviors::{
    check_for_deadly, check_for_exit, check_for_explosive, check_for_game_over, check_for_liquid,
    check_for_triggers, despawn_volatile_objects, player_count, update_entity_directions,
};
use grid_puzzle::game_object::components::{BlocksMovement, Direction, Movable, Position};
use grid_puzzle::game_object::contacts::{Effect, Outcome};
use grid_puzzle::game_object::object_bundles::{spawn_object_of_type, GridObject};
use grid_puzzle::game_object::object_type::ObjectType;
use grid_puzzle::game_object::travel::{check_for_transporter, move_objects, move_player};
use grid_puzzle::level::Dimensions;

fn at(x: i16, y: i16) -> Position {
    Position { x, y }
}

fn spawn(object_type: ObjectType, x: i16, y: i16) -> GridObject {
    spawn_object_of_type(object_type, at(x, y), Direction::Up)
}

fn facing(object_type: ObjectType, x: i16, y: i16, direction: Direction) -> GridObject {
    spawn_object_of_type(object_type, at(x, y), direction)
}

#[test]
fn kinds_start_with_their_traits() {
    let bare = GridObject::new(at(2, 3));
    assert_eq!(bare.position, at(2, 3));
    assert!(!bare.massive && !bare.pushable && !bare.player && bare.object_type.is_none());
    let typed = |t| GridObject { object_type: Some(t), ..bare };
    let d = Direction::Left;
    let make = |t| spawn_object_of_type(t, at(2, 3), d);
    assert_eq!(
        make(ObjectType::BlueBlock),
        GridObject { massive: true, pushable: true, ..typed(ObjectType::BlueBlock) }
    );
    assert_eq!(
        make(ObjectType::BouncingBall),
        GridObject {
            deadly: true,
            direction: Some(d),
            movable: Some(Movable::Bounce),
            ..typed(ObjectType::BouncingBall)
        }
    );
    assert_eq!(make(ObjectType::Button), GridObject { trigger: true, ..typed(ObjectType::Button) });
    assert_eq!(
        make(ObjectType::Creature1),
        GridObject {
            deadly: true,
            direction: Some(d),
            movable: Some(Movable::FollowRightHand),
            frame: Some(3),
            ..typed(ObjectType::Creature1)
        }
    );
    assert_eq!(make(ObjectType::Exit), GridObject { exit: true, ..typed(ObjectType::Exit) });
    assert_eq!(
        make(ObjectType::Gate),
        GridObject { openable: true, massive: true, frame: Some(0), ..typed(ObjectType::Gate) }
    );
    assert_eq!(make(ObjectType::Mine), GridObject { explosive: true, ..typed(ObjectType::Mine) });
    assert_eq!(make(ObjectType::Player), GridObject { player: true, ..typed(ObjectType::Player) });
    assert_eq!(make(ObjectType::PurpleBlock), typed(ObjectType::PurpleBlock));
    assert_eq!(
        make(ObjectType::Raft),
        GridObject { floatable: true, pushable: true, ..typed(ObjectType::Raft) }
    );
    assert_eq!(make(ObjectType::RedBlock), GridObject { massive: true, ..typed(ObjectType::RedBlock) });
    assert_eq!(
        make(ObjectType::Transporter),
        GridObject {
            transporter: true,
            direction: Some(d),
            blocks_movement: Some(BlocksMovement::Enabled),
            frame: Some(0),
            ..typed(ObjectType::Transporter)
        }
    );
    assert_eq!(
        make(ObjectType::Water),
        GridObject { liquid: true, animatable: Some(3), frame: Some(0), ..typed(ObjectType::Water) }
    );
    assert_eq!(make(ObjectType::YellowBlock), typed(ObjectType::YellowBlock));
    assert_eq!(GridObject::grave(at(2, 3)), GridObject { massive: true, ..bare });
    assert_eq!(GridObject::explosion(at(2, 3)), GridObject { volatile: true, ..bare });
    assert_eq!(GridObject::splash(at(2, 3)), GridObject { floatable: true, volatile: true, ..bare });
    assert_eq!(Effect::Grave.spawn(at(2, 3)), GridObject::grave(at(2, 3)));
    assert_eq!(Effect::Explosion.spawn(at(2, 3)), GridObject::explosion(at(2, 3)));
    assert_eq!(Effect::Splash.spawn(at(2, 3)), GridObject::splash(at(2, 3)));
}

#[test]
fn player_sinks_in_liquid() {
    let water = spawn(ObjectType::Water, 1, 1);
    let mut objects = vec![water, spawn(ObjectType::Player, 1, 1)];
    let outcome = check_for_liquid(&mut objects);
    assert_eq!(outcome, Outcome { effects: 1, player_removed: true });
    assert_eq!(objects, vec![water, GridObject::splash(at(1, 1))]);
}

#[test]
fn nothing_sinks_where_something_floats() {
    let water = spawn(ObjectType::Water, 1, 1);
    let raft = spawn(ObjectType::Raft, 1, 1);
    let player = spawn(ObjectType::Player, 1, 1);
    let block = spawn(ObjectType::BlueBlock, 2, 1);
    let mut objects = vec![player, raft, water, block];
    let outcome = check_for_liquid(&mut objects);
    assert_eq!(outcome, Outcome { effects: 0, player_removed: false });
    assert_eq!(objects, vec![player, GridObject { pushable: false, ..raft }, water, block]);
}

#[test]
fn two_rafts_on_one_cell_stay_pushable() {
    let water = spawn(ObjectType::Water, 1, 1);
    let raft = spawn(ObjectType::Raft, 1, 1);
    let dry = spawn(ObjectType::Raft, 2, 1);
    let mut objects = vec![water, raft, raft, dry];
    let outcome = check_for_liquid(&mut objects);
    assert_eq!(outcome, Outcome { effects: 0, player_removed: false });
    assert_eq!(objects, vec![water, raft, raft, dry]);
}

#[test]
fn a_splash_keeps_the_next_object_afloat() {
    let water = spawn(ObjectType::Water, 1, 1);
    let block = spawn(ObjectType::BlueBlock, 1, 1);
    let mut objects = vec![water, block];
    assert_eq!(check_for_liquid(&mut objects), Outcome { effects: 1, player_removed: false });
    assert_eq!(objects, vec![water, GridObject::splash(at(1, 1))]);
    objects.push(block);
    assert_eq!(check_for_liquid(&mut objects), Outcome { effects: 0, player_removed: false });
    assert_eq!(objects, vec![water, GridObject::splash(at(1, 1)), block]);
    despawn_volatile_objects(&mut objects);
    assert_eq!(objects, vec![water, block]);
}

#[test]
fn every_liquid_in_the_cell_makes_a_splash() {
    let water = spawn(ObjectType::Water, 2, 2);
    let a = spawn(ObjectType::RedBlock, 2, 2);
    let b = spawn(ObjectType::Mine, 2, 2);
    let mut objects = vec![a, water, b, water];
    assert_eq!(check_for_liquid(&mut objects), Outcome { effects: 4, player_removed: false });
    let splash = GridObject::splash(at(2, 2));
    assert_eq!(objects, vec![water, water, splash, splash, splash, splash]);
}

#[test]
fn deadly_contact_leaves_a_grave() {
    let player = spawn(ObjectType::Player, 2, 1);
    let ball = spawn(ObjectType::BouncingBall, 2, 1);
    let far = spawn(ObjectType::Creature1, 3, 1);
    let block = spawn(ObjectType::RedBlock, 2, 1);
    let mut objects = vec![far, player, block, ball];
    assert_eq!(check_for_deadly(&mut objects), Outcome { effects: 1, player_removed: true });
    assert_eq!(objects, vec![far, block, GridObject::grave(at(2, 1))]);
    assert_eq!(player_count(&objects), 0);
    assert!(check_for_game_over(&objects, false));
    assert!(!check_for_game_over(&objects, true));
}

#[test]
fn no_deadly_contact_changes_nothing() {
    let player = spawn(ObjectType::Player, 1, 1);
    let ball = spawn(ObjectType::BouncingBall, 2, 1);
    let mut objects = vec![player, ball];
    assert_eq!(check_for_deadly(&mut objects), Outcome { effects: 0, player_removed: false });
    assert_eq!(objects, vec![player, ball]);
    assert!(!check_for_game_over(&objects, false));
    objects.push(player);
    assert_eq!(player_count(&objects), 2);
    assert!(check_for_game_over(&objects, false));
}

#[test]
fn two_deadly_objects_leave_two_graves() {
    let player = spawn(ObjectType::Player, 1, 1);
    let ball = spawn(ObjectType::BouncingBall, 1, 1);
    let mut objects = vec![ball, player, ball];
    assert_eq!(check_for_deadly(&mut objects), Outcome { effects: 2, player_removed: true });
    assert_eq!(objects, vec![GridObject::grave(at(1, 1)), GridObject::grave(at(1, 1))]);
}

#[test]
fn exit_is_reached_when_the_player_stands_on_it() {
    let exit = spawn(ObjectType::Exit, 3, 3);
    assert!(check_for_exit(&vec![spawn(ObjectType::Player, 3, 3), exit]));
    assert!(check_for_exit(&vec![exit, spawn(ObjectType::RedBlock, 1, 1), spawn(ObjectType::Player, 3, 3)]));
    assert!(!check_for_exit(&vec![spawn(ObjectType::Player, 3, 2), exit]));
    assert!(!check_for_exit(&vec![spawn(ObjectType::BlueBlock, 3, 3), exit]));
    assert!(!check_for_exit(&vec![exit]));
    assert!(!check_for_exit(&Vec::new()));
}

#[test]
fn mine_explodes_with_what_touches_it() {
    let mine = spawn(ObjectType::Mine, 2, 2);
    let idle = spawn(ObjectType::Mine, 1, 1);
    let block = spawn(ObjectType::BlueBlock, 2, 2);
    let other = spawn(ObjectType::RedBlock, 3, 3);
    let mut objects = vec![block, idle, mine, other];
    assert_eq!(check_for_explosive(&mut objects), Outcome { effects: 1, player_removed: false });
    assert_eq!(objects, vec![idle, other, GridObject::explosion(at(2, 2))]);
    despawn_volatile_objects(&mut objects);
    assert_eq!(objects, vec![idle, other]);
}

#[test]
fn player_on_a_mine_is_lost() {
    let mut objects = vec![spawn(ObjectType::Player, 1, 1), spawn(ObjectType::Mine, 1, 1)];
    assert_eq!(check_for_explosive(&mut objects), Outcome { effects: 1, player_removed: true });
    assert_eq!(objects, vec![GridObject::explosion(at(1, 1))]);
}

#[test]
fn two_mines_alone_do_not_explode() {
    let mine = spawn(ObjectType::Mine, 1, 1);
    let mut objects = vec![mine, mine];
    assert_eq!(check_for_explosive(&mut objects), Outcome { effects: 0, player_removed: false });
    assert_eq!(objects, vec![mine, mine]);
}

#[test]
fn gates_open_when_more_triggers_are_pressed_and_close_when_fewer_are() {
    let gate = spawn(ObjectType::Gate, 5, 5);
    let open = GridObject { massive: false, frame: Some(1), ..gate };
    let button_a = spawn(ObjectType::Button, 1, 1);
    let button_b = spawn(ObjectType::Button, 2, 1);
    let block = |x| spawn(ObjectType::BlueBlock, x, 1);
    let mut pressed = 0;

    let mut objects = vec![gate, button_a, button_b, block(3), block(4)];
    check_for_triggers(&mut objects, &mut pressed);
    assert_eq!(pressed, 0);
    assert_eq!(objects[0], gate);

    objects[3] = block(1);
    check_for_triggers(&mut objects, &mut pressed);
    assert_eq!(pressed, 1);
    assert_eq!(objects, vec![open, button_a, button_b, block(1), block(4)]);

    check_for_triggers(&mut objects, &mut pressed);
    assert_eq!(pressed, 1);
    assert_eq!(objects[0], open);

    objects[4] = block(2);
    check_for_triggers(&mut objects, &mut pressed);
    assert_eq!(pressed, 2);
    assert_eq!(objects[0], open);

    objects[3] = block(3);
    check_for_triggers(&mut objects, &mut pressed);
    assert_eq!(pressed, 1);
    assert_eq!(objects, vec![gate, button_a, button_b, block(3), block(2)]);

    check_for_triggers(&mut objects, &mut pressed);
    assert_eq!(pressed, 1);
    assert_eq!(objects[0], gate);

    objects[4] = block(4);
    check_for_triggers(&mut objects, &mut pressed);
    assert_eq!(pressed, 0);
    assert_eq!(objects[0], gate);
}

#[test]
fn equal_count_leaves_gates_alone_whatever_they_are() {
    let gate = spawn(ObjectType::Gate, 5, 5);
    let open = GridObject { massive: false, frame: Some(1), ..gate };
    let button = spawn(ObjectType::Button, 1, 1);
    let player = spawn(ObjectType::Player, 1, 1);
    let mut pressed = 1;
    let mut objects = vec![gate, open, button, player];
    check_for_triggers(&mut objects, &mut pressed);
    assert_eq!(pressed, 1);
    assert_eq!(objects, vec![gate, open, button, player]);
}

#[test]
fn neither_gates_nor_triggers_press_a_trigger() {
    let button = spawn(ObjectType::Button, 1, 1);
    let gate = spawn(ObjectType::Gate, 1, 1);
    let mut pressed = 0;
    let mut objects = vec![button, button, gate];
    check_for_triggers(&mut objects, &mut pressed);
    assert_eq!(pressed, 0);
    assert_eq!(objects, vec![button, button, gate]);
    objects.push(GridObject::splash(at(1, 1)));
    check_for_triggers(&mut objects, &mut pressed);
    assert_eq!(pressed, 2);
    assert!(!objects[2].massive);
}

#[test]
fn gate_without_frames_opens_too() {
    let gate = GridObject { frame: None, ..spawn(ObjectType::Gate, 2, 2) };
    let mut pressed = 3;
    let mut objects = vec![GridObject { massive: false, ..gate }];
    check_for_triggers(&mut objects, &mut pressed);
    assert_eq!(pressed, 0);
    assert_eq!(objects, vec![gate]);
}

#[test]
fn volatile_objects_go() {
    let block = spawn(ObjectType::RedBlock, 1, 1);
    let mut objects = vec![
        GridObject::explosion(at(1, 1)),
        block,
        GridObject::splash(at(2, 2)),
        GridObject::grave(at(3, 3)),
    ];
    despawn_volatile_objects(&mut objects);
    assert_eq!(objects, vec![block, GridObject::grave(at(3, 3))]);
}

#[test]
fn pictures_turn_with_their_objects() {
    let creature = facing(ObjectType::Creature1, 1, 1, Direction::Up);
    let transporter = facing(ObjectType::Transporter, 2, 2, Direction::Down);
    let ball = facing(ObjectType::BouncingBall, 3, 3, Direction::Left);
    let water = spawn(ObjectType::Water, 4, 4);
    let mut objects =
        vec![GridObject { direction: Some(Direction::Left), ..creature }, transporter, ball, water];
    update_entity_directions(&mut objects);
    assert_eq!(objects[0].frame, Some(3));
    assert_eq!(objects[1], GridObject { frame: Some(2), ..transporter });
    assert_eq!(objects[2], ball);
    assert_eq!(objects[3], water);
}

#[test]
fn animated_objects_show_one_of_their_frames() {
    let water = spawn(ObjectType::Water, 1, 1);
    let block = spawn(ObjectType::RedBlock, 2, 2);
    let gate = spawn(ObjectType::Gate, 3, 3);
    let still = GridObject { frame: None, ..water };
    let single = GridObject { animatable: Some(1), frame: Some(7), ..water };
    let mut seen = [false; 3];
    for _ in 0..200 {
        let mut objects = vec![water, block, gate, still, single];
        animate_objects(&mut objects);
        let frame = objects[0].frame.unwrap();
        assert!(frame < 3);
        seen[frame] = true;
        assert_eq!(objects[0], GridObject { frame: Some(frame), ..water });
        assert_eq!(objects[1], block);
        assert_eq!(objects[2], gate);
        assert_eq!(objects[3], still);
        assert_eq!(objects[4], GridObject { frame: Some(0), ..single });
    }
    assert!(seen[0] || seen[1] || seen[2]);
    assert_eq!(show_frame(water, 2), GridObject { frame: Some(2), ..water });
}

#[test]
fn player_pushes_a_block() {
    let dimensions = Dimensions { width: 3, height: 1 };
    let player = spawn(ObjectType::Player, 1, 1);
    let block = spawn(ObjectType::BlueBlock, 2, 1);
    let mut objects = vec![block, player];
    assert!(move_player(&mut objects, &dimensions, (1, 0)));
    assert_eq!(objects, vec![spawn(ObjectType::BlueBlock, 3, 1), spawn(ObjectType::Player, 2, 1)]);
    assert!(!move_player(&mut objects, &dimensions, (1, 0)));
    assert_eq!(objects, vec![spawn(ObjectType::BlueBlock, 3, 1), spawn(ObjectType::Player, 2, 1)]);
    assert!(move_player(&mut objects, &dimensions, (-1, 0)));
    assert_eq!(objects, vec![spawn(ObjectType::BlueBlock, 3, 1), player]);
}

#[test]
fn player_is_stopped_by_a_block_in_front_of_a_wall() {
    let dimensions = Dimensions { width: 3, height: 1 };
    let before = vec![
        spawn(ObjectType::Player, 1, 1),
        spawn(ObjectType::BlueBlock, 2, 1),
        spawn(ObjectType::RedBlock, 3, 1),
    ];
    let mut objects = before.clone();
    assert!(!move_player(&mut objects, &dimensions, (1, 0)));
    assert_eq!(objects, before);
}

#[test]
fn nobody_moves_without_exactly_one_player() {
    let dimensions = Dimensions { width: 3, height: 3 };
    let mut none = vec![spawn(ObjectType::BlueBlock, 2, 2)];
    assert!(!move_player(&mut none, &dimensions, (1, 0)));
    assert_eq!(none, vec![spawn(ObjectType::BlueBlock, 2, 2)]);
    let mut two = vec![spawn(ObjectType::Player, 1, 1), spawn(ObjectType::Player, 2, 2)];
    assert!(!move_player(&mut two, &dimensions, (1, 0)));
    assert_eq!(two, vec![spawn(ObjectType::Player, 1, 1), spawn(ObjectType::Player, 2, 2)]);
}

#[test]
fn player_walks_onto_a_gate_only_when_it_is_open() {
    let dimensions = Dimensions { width: 2, height: 1 };
    let gate = spawn(ObjectType::Gate, 2, 1);
    let mut objects = vec![spawn(ObjectType::Player, 1, 1), gate];
    assert!(!move_player(&mut objects, &dimensions, (1, 0)));
    objects[1] = GridObject { massive: false, frame: Some(1), ..gate };
    assert!(move_player(&mut objects, &dimensions, (1, 0)));
    assert_eq!(objects[0].position, at(2, 1));
}

#[test]
fn bouncing_ball_runs_a_corridor_of_three_and_turns_at_its_ends() {
    let dimensions = Dimensions { width: 3, height: 1 };
    let mut objects = vec![facing(ObjectType::BouncingBall, 1, 1, Direction::Right)];
    let expected = [
        (2, Direction::Right),
        (3, Direction::Right),
        (3, Direction::Left),
        (2, Direction::Left),
        (1, Direction::Left),
        (1, Direction::Right),
        (2, Direction::Right),
    ];
    for (x, direction) in expected {
        move_objects(&mut objects, &dimensions);
        assert_eq!(objects[0].position, at(x, 1));
        assert_eq!(objects[0].direction, Some(direction));
        assert!(1 <= objects[0].position.x && objects[0].position.x <= 3);
    }
}

#[test]
fn bouncing_ball_turns_at_a_wall_and_passes_over_what_is_not_massive() {
    let dimensions = Dimensions { width: 4, height: 1 };
    let wall = spawn(ObjectType::RedBlock, 4, 1);
    let button = spawn(ObjectType::Button, 2, 1);
    let mut objects = vec![wall, facing(ObjectType::BouncingBall, 1, 1, Direction::Right), button];
    let expected = [(2, Direction::Right), (3, Direction::Right), (3, Direction::Left), (2, Direction::Left)];
    for (x, direction) in expected {
        move_objects(&mut objects, &dimensions);
        assert_eq!(objects[1].position, at(x, 1));
        assert_eq!(objects[1].direction, Some(direction));
        assert_eq!(objects[0], wall);
        assert_eq!(objects[2], button);
    }
}

#[test]
fn movers_do_not_push() {
    let dimensions = Dimensions { width: 3, height: 1 };
    let block = spawn(ObjectType::BlueBlock, 2, 1);
    let mut objects = vec![facing(ObjectType::BouncingBall, 1, 1, Direction::Right), block];
    move_objects(&mut objects, &dimensions);
    assert_eq!(objects, vec![facing(ObjectType::BouncingBall, 1, 1, Direction::Left), block]);
}

#[test]
fn movers_pass_through_each_other_and_the_player() {
    let dimensions = Dimensions { width: 3, height: 1 };
    let player = spawn(ObjectType::Player, 2, 1);
    let mut objects = vec![
        facing(ObjectType::BouncingBall, 1, 1, Direction::Right),
        player,
        GridObject { massive: true, ..facing(ObjectType::BouncingBall, 3, 1, Direction::Left) },
    ];
    move_objects(&mut objects, &dimensions);
    assert_eq!(objects[0].position, at(2, 1));
    assert_eq!(objects[1], player);
    assert_eq!(objects[2].position, at(2, 1));
}

#[test]
fn right_hand_follower_goes_round_a_pillar_and_comes_back() {
    let dimensions = Dimensions { width: 3, height: 3 };
    let pillar = spawn(ObjectType::RedBlock, 2, 2);
    let start = facing(ObjectType::Creature1, 1, 1, Direction::Up);
    let mut objects = vec![pillar, start];
    let expected = [
        (2, 1, Direction::Right),
        (3, 1, Direction::Right),
        (3, 2, Direction::Down),
        (3, 3, Direction::Down),
        (2, 3, Direction::Left),
        (1, 3, Direction::Left),
        (1, 2, Direction::Up),
        (1, 1, Direction::Up),
        (2, 1, Direction::Right),
    ];
    for (i, (x, y, direction)) in expected.into_iter().enumerate() {
        move_objects(&mut objects, &dimensions);
        assert_eq!(objects[1].position, at(x, y), "tick {i}");
        assert_eq!(objects[1].direction, Some(direction), "tick {i}");
        assert_eq!(objects[0], pillar);
    }
}

#[test]
fn right_hand_follower_comes_back_to_its_start_on_a_loop() {
    let dimensions = Dimensions { width: 3, height: 3 };
    let pillar = spawn(ObjectType::RedBlock, 2, 2);
    let start = facing(ObjectType::Creature1, 1, 1, Direction::Up);
    let mut objects = vec![start, pillar];
    for _ in 0..8 {
        move_objects(&mut objects, &dimensions);
    }
    assert_eq!(objects, vec![start, pillar]);
}

#[test]
fn right_hand_follower_turns_left_in_a_dead_end() {
    let dimensions = Dimensions { width: 1, height: 2 };
    let mut objects = vec![facing(ObjectType::Creature1, 1, 1, Direction::Up)];
    let expected = [
        (1, 1, Direction::Left),
        (1, 1, Direction::Down),
        (1, 2, Direction::Down),
        (1, 2, Direction::Right),
        (1, 2, Direction::Up),
        (1, 1, Direction::Up),
        (1, 1, Direction::Left),
    ];
    for (x, y, direction) in expected {
        move_objects(&mut objects, &dimensions);
        assert_eq!(objects[0].position, at(x, y));
        assert_eq!(objects[0].direction, Some(direction));
    }
}

#[test]
fn right_hand_follower_that_starts_facing_a_wall_does_not_face_it_again() {
    let dimensions = Dimensions { width: 3, height: 3 };
    let pillar = spawn(ObjectType::RedBlock, 2, 2);
    let start = facing(ObjectType::Creature1, 2, 1, Direction::Up);
    let mut objects = vec![start, pillar];
    for _ in 0..40 {
        move_objects(&mut objects, &dimensions);
        assert_ne!(objects[0], start);
    }
}

#[test]
fn transporter_conveys_what_stands_on_it() {
    let dimensions = Dimensions { width: 3, height: 1 };
    let transporter = facing(ObjectType::Transporter, 1, 1, Direction::Right);
    let block = spawn(ObjectType::BlueBlock, 1, 1);
    let mut objects = vec![transporter, block];
    check_for_transporter(&mut objects, &dimensions);
    assert_eq!(objects, vec![transporter, spawn(ObjectType::BlueBlock, 2, 1)]);
    check_for_transporter(&mut objects, &dimensions);
    assert_eq!(objects, vec![transporter, spawn(ObjectType::BlueBlock, 2, 1)]);
}

#[test]
fn transporter_that_cannot_convey_stops_blocking() {
    let dimensions = Dimensions { width: 2, height: 1 };
    let transporter = facing(ObjectType::Transporter, 1, 1, Direction::Right);
    let player = spawn(ObjectType::Player, 1, 1);
    let wall = spawn(ObjectType::RedBlock, 2, 1);
    let mut objects = vec![player, wall, transporter];
    assert!(!move_player(&mut objects, &dimensions, (0, 1)));
    check_for_transporter(&mut objects, &dimensions);
    assert_eq!(
        objects,
        vec![
            player,
            wall,
            GridObject { blocks_movement: Some(BlocksMovement::Disabled), ..transporter }
        ]
    );
}

#[test]
fn player_on_a_blocking_transporter_cannot_walk_off() {
    let dimensions = Dimensions { width: 3, height: 1 };
    let transporter = facing(ObjectType::Transporter, 2, 1, Direction::Left);
    let mut objects = vec![spawn(ObjectType::Player, 1, 1), transporter];
    assert!(move_player(&mut objects, &dimensions, (1, 0)));
    assert_eq!(objects[0].position, at(2, 1));
    assert_eq!(objects[1].blocks_movement, Some(BlocksMovement::Enabled));
    assert!(!move_player(&mut objects, &dimensions, (1, 0)));
    assert_eq!(objects[0].position, at(2, 1));
    check_for_transporter(&mut objects, &dimensions);
    assert_eq!(objects[0].position, at(1, 1));
}

#[test]
fn an_object_rides_only_once_in_a_tick() {
    let dimensions = Dimensions { width: 3, height: 1 };
    let first = facing(ObjectType::Transporter, 1, 1, Direction::Right);
    let second = facing(ObjectType::Transporter, 2, 1, Direction::Right);
    let block = spawn(ObjectType::BlueBlock, 1, 1);
    let mut objects = vec![first, second, block];
    check_for_transporter(&mut objects, &dimensions);
    assert_eq!(objects[2].position, at(2, 1));
    check_for_transporter(&mut objects, &dimensions);
    assert_eq!(objects[2].position, at(3, 1));
}

#[test]
fn a_transporter_conveys_the_first_of_several() {
    let dimensions = Dimensions { width: 3, height: 1 };
    let transporter = facing(ObjectType::Transporter, 1, 1, Direction::Right);
    let raft = spawn(ObjectType::Raft, 1, 1);
    let block = spawn(ObjectType::BlueBlock, 1, 1);
    let mut objects = vec![raft, transporter, block];
    check_for_transporter(&mut objects, &dimensions);
    assert_eq!(objects, vec![spawn(ObjectType::Raft, 2, 1), transporter, block]);
    check_for_transporter(&mut objects, &dimensions);
    assert_eq!(
        objects,
        vec![spawn(ObjectType::Raft, 2, 1), transporter, spawn(ObjectType::BlueBlock, 2, 1)]
    );
}

#[test]
fn a_transporter_without_direction_does_nothing() {
    let dimensions = Dimensions { width: 3, height: 1 };
    let broken = GridObject { direction: None, ..facing(ObjectType::Transporter, 1, 1, Direction::Right) };
    let block = spawn(ObjectType::BlueBlock, 1, 1);
    let mut objects = vec![broken, block];
    check_for_transporter(&mut objects, &dimensions);
    assert_eq!(objects, vec![broken, block]);
}

#[test]
fn an_object_that_could_not_ride_may_ride_another_transporter() {
    let dimensions = Dimensions { width: 2, height: 2 };
    let stuck = facing(ObjectType::Transporter, 2, 1, Direction::Right);
    let free = facing(ObjectType::Transporter, 2, 1, Direction::Down);
    let block = spawn(ObjectType::BlueBlock, 2, 1);
    let mut objects = vec![stuck, free, block];
    check_for_transporter(&mut objects, &dimensions);
    assert_eq!(
        objects,
        vec![
            GridObject { blocks_movement: Some(BlocksMovement::Disabled), ..stuck },
            free,
            spawn(ObjectType::BlueBlock, 2, 2),
        ]
    );
}

#[test]
fn right_hand_follower_walks_round_a_ring_of_four_cells() {
    let dimensions = Dimensions { width: 2, height: 2 };
    let start = facing(ObjectType::Creature1, 2, 1, Direction::Right);
    let mut objects = vec![start];
    let expected = [
        (2, 2, Direction::Down),
        (1, 2, Direction::Left),
        (1, 1, Direction::Up),
        (2, 1, Direction::Right),
    ];
    for (x, y, direction) in expected {
        move_objects(&mut objects, &dimensions);
        assert_eq!(objects[0].position, at(x, y));
        assert_eq!(objects[0].direction, Some(direction));
    }
    assert_eq!(objects, vec![start]);
}
