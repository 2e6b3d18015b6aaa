use grid_puzzle::editor::{spawn_selected_object, EditorObjectType, NUM_OBJECTS};
use grid_puzzle::game_object::components::{Direction, Position};
use grid_puzzle::game_object::object_bundles::{spawn_object_of_type, GridObject};
use grid_puzzle::game_object::object_type::ObjectType;
use grid_puzzle::level::{Dimensions, Level};
use grid_puzzle::menu::{GameEvent, MenuButton, MenuState};
use grid_puzzle::world::{load_level, relative_level, save_level, spawn_level_objects, World};

fn at(x: i16, y: i16) -> Position {
    Position { x, y }
}

fn spawn(object_type: ObjectType, x: i16, y: i16) -> GridObject {
    spawn_object_of_type(object_type, at(x, y), Direction::Up)
}

#[test]
fn level_starts_with_its_objects_type_by_type() {
    let world = load_level(
        "[General]\nWidth=4\nHeight=3\n[Player]\nPosition=1,1\n[Creature1]\nDirection=Left\nPosition=4,3\n[BlueBlock]\nPosition=2,2;3,2\n[BouncingBall]\nPosition=4,1\n",
    );
    assert_eq!(world.dimensions, Dimensions { width: 4, height: 3 });
    assert_eq!(world.pressed_triggers, 0);
    assert_eq!(
        world.objects,
        vec![
            spawn(ObjectType::BlueBlock, 2, 2),
            spawn(ObjectType::BlueBlock, 3, 2),
            spawn(ObjectType::BouncingBall, 4, 1),
            spawn_object_of_type(ObjectType::Creature1, at(4, 3), Direction::Left),
            spawn(ObjectType::Player, 1, 1),
        ]
    );
    let level = Level::load("[Water]\nPosition=1,1\n");
    assert_eq!(spawn_level_objects(&level), vec![spawn(ObjectType::Water, 1, 1)]);
}

#[test]
fn world_is_saved_with_its_typed_objects_on_the_grid() {
    let world = World {
        dimensions: Dimensions { width: 3, height: 3 },
        objects: vec![
            spawn(ObjectType::RedBlock, 3, 3),
            GridObject::grave(at(2, 2)),
            spawn(ObjectType::Player, 1, 2),
            spawn(ObjectType::RedBlock, 4, 1),
            spawn(ObjectType::RedBlock, 1, 0),
            spawn_object_of_type(ObjectType::Transporter, at(2, 3), Direction::Left),
            GridObject { massive: false, frame: Some(1), ..spawn(ObjectType::Gate, 1, 1) },
            spawn(ObjectType::RedBlock, 1, 3),
        ],
        pressed_triggers: 2,
    };
    assert_eq!(
        save_level(&world).unwrap(),
        "[General]\nWidth=3\nHeight=3\n\
         \n[Gate]\nPosition=1,1\n\
         \n[Player]\nPosition=1,2\n\
         \n[RedBlock]\nPosition=1,3\nPosition=3,3\n\
         \n[Transporter]\nDirection=Left\nPosition=2,3\n"
    );
}

#[test]
fn world_is_saved_only_with_exactly_one_player() {
    let dimensions = Dimensions { width: 2, height: 2 };
    let player = spawn(ObjectType::Player, 1, 1);
    let save = |objects: Vec<GridObject>| save_level(&World { dimensions, objects, pressed_triggers: 0 });
    assert_eq!(save(vec![]), None);
    assert_eq!(save(vec![spawn(ObjectType::RedBlock, 1, 1)]), None);
    assert_eq!(save(vec![player, spawn(ObjectType::Player, 2, 2)]), None);
    assert_eq!(save(vec![spawn(ObjectType::Player, 3, 1)]), None);
    assert_eq!(save(vec![GridObject { object_type: None, ..player }]), None);
    assert_eq!(
        save(vec![player]).unwrap(),
        "[General]\nWidth=2\nHeight=2\n\n[Player]\nPosition=1,1\n"
    );
    assert_eq!(
        save(vec![player, spawn(ObjectType::Player, 3, 1)]).unwrap(),
        "[General]\nWidth=2\nHeight=2\n\n[Player]\nPosition=1,1\n"
    );
}

#[test]
fn saved_world_loads_as_the_same_objects() {
    let text = "[General]\nWidth=5\nHeight=5\n\n[BouncingBall]\nDirection=Down\nPosition=5,1\n\n[Player]\nPosition=1,1\n\n[Water]\nPosition=3,3\nPosition=4,3\n";
    let world = load_level(text);
    assert_eq!(save_level(&world).unwrap(), text);
    let again = load_level(&save_level(&world).unwrap());
    assert_eq!(again.dimensions, world.dimensions);
    assert_eq!(again.objects, world.objects);
}

#[test]
fn relative_level_stays_within_the_list() {
    assert_eq!(relative_level(0, 0, 17), 0);
    assert_eq!(relative_level(0, 1, 17), 1);
    assert_eq!(relative_level(0, -1, 17), 0);
    assert_eq!(relative_level(16, 1, 17), 16);
    assert_eq!(relative_level(16, -1, 17), 15);
    assert_eq!(relative_level(5, 100, 17), 16);
    assert_eq!(relative_level(5, -100, 17), 0);
    assert_eq!(relative_level(5, isize::MAX, 17), 16);
    assert_eq!(relative_level(5, isize::MIN, 17), 0);
    assert_eq!(relative_level(40, 0, 17), 16);
    assert_eq!(relative_level(40, -30, 17), 10);
    assert_eq!(relative_level(0, 0, 1), 0);
    assert_eq!(relative_level(0, 3, 1), 0);
}

#[test]
fn palette_entries() {
    let expected = [
        EditorObjectType::Eraser,
        EditorObjectType::Player,
        EditorObjectType::Exit,
        EditorObjectType::RedBlock,
        EditorObjectType::BlueBlock,
        EditorObjectType::BouncingBallUp,
        EditorObjectType::BouncingBallRight,
        EditorObjectType::BouncingBallDown,
        EditorObjectType::BouncingBallLeft,
        EditorObjectType::Water,
        EditorObjectType::Creature1Up,
        EditorObjectType::Creature1Right,
        EditorObjectType::Creature1Down,
        EditorObjectType::Creature1Left,
        EditorObjectType::Raft,
        EditorObjectType::Gate,
        EditorObjectType::Button,
        EditorObjectType::Mine,
    ];
    assert_eq!(NUM_OBJECTS, 18);
    for (i, entry) in expected.iter().enumerate() {
        assert_eq!(EditorObjectType::try_from(i as i16), Ok(*entry));
    }
    assert_eq!(EditorObjectType::try_from(-1), Err(()));
    assert_eq!(EditorObjectType::try_from(18), Err(()));
    assert_eq!(EditorObjectType::Eraser.get_object_type_and_direction(), None);
    assert_eq!(EditorObjectType::__Last.get_object_type_and_direction(), None);
    assert_eq!(
        EditorObjectType::Player.get_object_type_and_direction(),
        Some((ObjectType::Player, Direction::Up))
    );
    assert_eq!(
        EditorObjectType::BouncingBallDown.get_object_type_and_direction(),
        Some((ObjectType::BouncingBall, Direction::Down))
    );
    assert_eq!(
        EditorObjectType::Creature1Left.get_object_type_and_direction(),
        Some((ObjectType::Creature1, Direction::Left))
    );
    assert_eq!(
        EditorObjectType::Creature1Right.get_object_type_and_direction(),
        Some((ObjectType::Creature1, Direction::Right))
    );
    assert_eq!(
        EditorObjectType::Water.get_object_type_and_direction(),
        Some((ObjectType::Water, Direction::Up))
    );
}

#[test]
fn a_click_replaces_what_stands_on_the_cell() {
    let dimensions = Dimensions { width: 3, height: 3 };
    let block = spawn(ObjectType::RedBlock, 1, 1);
    let mut objects = vec![spawn(ObjectType::Water, 2, 2), block, spawn(ObjectType::Raft, 2, 2)];
    spawn_selected_object(&mut objects, &dimensions, EditorObjectType::Creature1Down, at(2, 2));
    assert_eq!(
        objects,
        vec![block, spawn_object_of_type(ObjectType::Creature1, at(2, 2), Direction::Down)]
    );
    spawn_selected_object(&mut objects, &dimensions, EditorObjectType::Eraser, at(1, 1));
    assert_eq!(
        objects,
        vec![spawn_object_of_type(ObjectType::Creature1, at(2, 2), Direction::Down)]
    );
    spawn_selected_object(&mut objects, &dimensions, EditorObjectType::Player, at(4, 1));
    assert_eq!(objects.len(), 1);
    objects.push(spawn(ObjectType::Mine, 0, 0));
    spawn_selected_object(&mut objects, &dimensions, EditorObjectType::Player, at(0, 0));
    assert_eq!(objects.len(), 1);
}

#[test]
fn menu_choice_goes_round() {
    let mut state = MenuState::default();
    assert_eq!(state, MenuState { is_open: true, selected_button: MenuButton::Start });
    state.move_selected_button(1);
    assert_eq!(state.selected_button, MenuButton::Editor);
    state.move_selected_button(1);
    assert_eq!(state.selected_button, MenuButton::OtherGames);
    state.move_selected_button(1);
    assert_eq!(state.selected_button, MenuButton::Exit);
    state.move_selected_button(1);
    assert_eq!(state.selected_button, MenuButton::Start);
    state.move_selected_button(-1);
    assert_eq!(state.selected_button, MenuButton::Exit);
    state.move_selected_button(-4);
    assert_eq!(state.selected_button, MenuButton::Exit);
    state.move_selected_button(6);
    assert_eq!(state.selected_button, MenuButton::Editor);
    assert!(state.is_open);
    for i in 0..4 {
        assert_eq!(MenuButton::from_index(i).index(), i);
    }
}

#[test]
fn menu_buttons_send_their_events() {
    let press = |button| {
        let mut state = MenuState { is_open: true, selected_button: button };
        let events = state.handle_button_press();
        (events, state.is_open)
    };
    assert_eq!(press(MenuButton::Start), (vec![GameEvent::LoadRelativeLevel(0)], false));
    assert_eq!(
        press(MenuButton::Editor),
        (vec![GameEvent::LoadRelativeLevel(0), GameEvent::ToggleEditor], false)
    );
    assert_eq!(press(MenuButton::OtherGames), (vec![], true));
    assert_eq!(press(MenuButton::Exit), (vec![GameEvent::Exit], true));
}

#[test]
fn exit_opens_the_menu_first_and_quits_from_it() {
    let mut state = MenuState { is_open: false, selected_button: MenuButton::Editor };
    let first = state.on_exit(true);
    assert!(first.close_editor && !first.quit);
    assert!(state.is_open);
    let second = state.on_exit(false);
    assert!(!second.close_editor && second.quit);
    assert!(state.is_open);
    assert_eq!(state.selected_button, MenuButton::Editor);
}

#[test]
fn rules_look_at_the_same_objects() {
    let player = spawn(ObjectType::Player, 2, 2);
    let ball = spawn(ObjectType::BouncingBall, 2, 2);
    let mine = spawn(ObjectType::Mine, 2, 2);
    let exit = spawn(ObjectType::Exit, 2, 2);
    let water = spawn(ObjectType::Water, 1, 1);
    let raft = spawn(ObjectType::Raft, 1, 1);
    let block = spawn(ObjectType::RedBlock, 3, 1);
    let wet = spawn(ObjectType::Water, 3, 1);
    let button = spawn(ObjectType::Button, 3, 3);
    let weight = spawn(ObjectType::BlueBlock, 3, 3);
    let gate = spawn(ObjectType::Gate, 1, 3);
    let mut objects =
        vec![player, ball, mine, exit, water, raft, block, wet, button, weight, gate];
    let mut pressed = 0;
    let outcome = grid_puzzle::run_interaction_rules(&mut objects, &mut pressed);
    assert_eq!(
        outcome,
        grid_puzzle::RulesOutcome {
            level_completed: true,
            player_died: true,
            reload: true,
            effects: true,
        }
    );
    assert_eq!(pressed, 1);
    let explosion = GridObject::explosion(at(2, 2));
    assert_eq!(
        objects,
        vec![
            water,
            GridObject { pushable: false, ..raft },
            wet,
            button,
            weight,
            GridObject { massive: false, frame: Some(1), ..gate },
            GridObject::grave(at(2, 2)),
            explosion,
            explosion,
            explosion,
            GridObject::splash(at(3, 1)),
        ]
    );
}

#[test]
fn quiet_rules_change_nothing() {
    let before = vec![
        spawn(ObjectType::Player, 1, 1),
        spawn(ObjectType::Mine, 2, 1),
        spawn(ObjectType::Water, 3, 1),
        spawn(ObjectType::Gate, 1, 2),
        spawn(ObjectType::Button, 2, 2),
    ];
    let mut objects = before.clone();
    let mut pressed = 0;
    let outcome = grid_puzzle::run_interaction_rules(&mut objects, &mut pressed);
    assert_eq!(
        outcome,
        grid_puzzle::RulesOutcome {
            level_completed: false,
            player_died: false,
            reload: false,
            effects: false,
        }
    );
    assert_eq!(pressed, 0);
    assert_eq!(objects, before);
}

#[test]
fn a_tick_moves_then_rules() {
    let mut world = load_level(
        "[General]\nWidth=4\nHeight=1\n[Player]\nPosition=1,1\n[BlueBlock]\nPosition=2,1\n[Water]\nPosition=3,1\n[Creature1]\nDirection=Left\nPosition=4,1\n",
    );
    let quiet = |moves: Vec<Direction>| grid_puzzle::Intents {
        moves,
        movement_due: false,
        transporter_due: false,
        effects_due: false,
    };
    let outcome = grid_puzzle::tick(&mut world, &quiet(vec![Direction::Right]));
    assert!(outcome.effects && !outcome.reload && !outcome.player_died && !outcome.level_completed);
    assert_eq!(world.dimensions, Dimensions { width: 4, height: 1 });
    assert_eq!(
        world.objects,
        vec![
            spawn_object_of_type(ObjectType::Creature1, at(4, 1), Direction::Left),
            spawn(ObjectType::Player, 2, 1),
            spawn(ObjectType::Water, 3, 1),
            GridObject::splash(at(3, 1)),
        ]
    );

    let due = grid_puzzle::Intents {
        moves: vec![Direction::Up, Direction::Right],
        movement_due: true,
        transporter_due: true,
        effects_due: true,
    };
    let outcome = grid_puzzle::tick(&mut world, &due);
    assert!(outcome.player_died && !outcome.reload && !outcome.effects);
    assert!(!outcome.level_completed);
    assert_eq!(
        world.objects,
        vec![spawn(ObjectType::Water, 3, 1), GridObject::grave(at(3, 1))]
    );
    for object in &world.objects {
        assert!(1 <= object.position.x && object.position.x <= 4 && object.position.y == 1);
    }
}

#[test]
fn a_tick_lets_effects_of_this_tick_stay() {
    let mut world = World {
        dimensions: Dimensions { width: 2, height: 1 },
        objects: vec![
            GridObject::explosion(at(2, 1)),
            spawn(ObjectType::Mine, 1, 1),
            spawn(ObjectType::RedBlock, 1, 1),
        ],
        pressed_triggers: 0,
    };
    let due = grid_puzzle::Intents {
        moves: Vec::new(),
        movement_due: false,
        transporter_due: false,
        effects_due: true,
    };
    grid_puzzle::tick(&mut world, &due);
    assert_eq!(world.objects, vec![GridObject::explosion(at(1, 1))]);
    grid_puzzle::tick(&mut world, &due);
    assert_eq!(world.objects, Vec::new());
}

#[test]
fn a_tick_turns_the_pictures_of_what_turned() {
    let mut world = World {
        dimensions: Dimensions { width: 1, height: 1 },
        objects: vec![spawn_object_of_type(ObjectType::Creature1, at(1, 1), Direction::Up)],
        pressed_triggers: 0,
    };
    let due = grid_puzzle::Intents {
        moves: Vec::new(),
        movement_due: true,
        transporter_due: false,
        effects_due: false,
    };
    grid_puzzle::tick(&mut world, &due);
    assert_eq!(
        world.objects,
        vec![spawn_object_of_type(ObjectType::Creature1, at(1, 1), Direction::Left)]
    );
}

#[test]
fn what_enters_the_cell_of_a_splash_sinks_a_tick_after_the_splash_went() {
    let water = spawn(ObjectType::Water, 1, 1);
    let block = spawn(ObjectType::BlueBlock, 1, 1);
    let mut world = World {
        dimensions: Dimensions { width: 1, height: 1 },
        objects: vec![water, GridObject::splash(at(1, 1)), block],
        pressed_triggers: 0,
    };
    let intents = |effects_due| grid_puzzle::Intents {
        moves: Vec::new(),
        movement_due: false,
        transporter_due: false,
        effects_due,
    };
    let outcome = grid_puzzle::tick(&mut world, &intents(true));
    assert!(!outcome.effects);
    assert_eq!(world.objects, vec![water, block]);
    let outcome = grid_puzzle::tick(&mut world, &intents(true));
    assert!(outcome.effects);
    assert_eq!(world.objects, vec![water, GridObject::splash(at(1, 1))]);
    let outcome = grid_puzzle::tick(&mut world, &intents(false));
    assert!(!outcome.effects);
    assert_eq!(world.objects, vec![water, GridObject::splash(at(1, 1))]);
    grid_puzzle::tick(&mut world, &intents(true));
    assert_eq!(world.objects, vec![water]);
}

#[test]
fn rules_then_pruning_keeps_the_new_effects() {
    let mine = spawn(ObjectType::Mine, 1, 1);
    let block = spawn(ObjectType::RedBlock, 1, 1);
    let old = GridObject::explosion(at(2, 1));
    let grave = GridObject::grave(at(2, 1));
    let mut pressed = 0;
    let mut objects = vec![old, mine, grave, block];
    grid_puzzle::run_rules_then_prune(&mut objects, &mut pressed, true);
    assert_eq!(objects, vec![grave, GridObject::explosion(at(1, 1))]);
    let mut objects = vec![old, mine, grave, block];
    grid_puzzle::run_rules_then_prune(&mut objects, &mut pressed, false);
    assert_eq!(objects, vec![old, grave, GridObject::explosion(at(1, 1))]);
}

#[test]
fn the_only_player_is_found() {
    let player = spawn(ObjectType::Player, 2, 2);
    let block = spawn(ObjectType::RedBlock, 1, 1);
    assert_eq!(grid_puzzle::single_player(&vec![block, player, block]), Some(1));
    assert_eq!(grid_puzzle::single_player(&vec![player]), Some(0));
    assert_eq!(grid_puzzle::single_player(&vec![block]), None);
    assert_eq!(grid_puzzle::single_player(&vec![player, block, player]), None);
    assert_eq!(grid_puzzle::single_player(&Vec::new()), None);
}

#[test]
fn menu_choice_moves_from_any_place_that_stays_in_range() {
    let mut state = MenuState { is_open: false, selected_button: MenuButton::Exit };
    state.move_selected_button(-7);
    assert_eq!(state.selected_button, MenuButton::Start);
    state.move_selected_button(-4);
    assert_eq!(state.selected_button, MenuButton::Start);
    let mut state = MenuState { is_open: false, selected_button: MenuButton::__Last };
    state.move_selected_button(-1);
    assert_eq!(state.selected_button, MenuButton::Exit);
    assert!(!state.is_open);
}
