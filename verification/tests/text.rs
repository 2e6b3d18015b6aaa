use grid_puzzle::game_object::components::{BlocksMovement, Direction, Position};
use grid_puzzle::game_object::contacts::{any_marked_at, resolve_contacts, Effect, Outcome};
use grid_puzzle::game_object::movement::CollisionObject;
use grid_puzzle::game_object::object_bundles::{spawn_object_of_type, GridObject};
use grid_puzzle::game_object::object_type::ObjectType;
use grid_puzzle::game_object::travel::move_among;
use grid_puzzle::level::Dimensions;
use grid_puzzle::text::{chars_of, is_word, position_of, whitespace};

fn at(x: i16, y: i16) -> Position {
    Position { x, y }
}

fn spawn(object_type: ObjectType, x: i16, y: i16) -> GridObject {
    spawn_object_of_type(object_type, at(x, y), Direction::Up)
}

#[test]
fn characters_of_a_text() {
    assert_eq!(chars_of(""), Vec::<char>::new());
    assert_eq!(chars_of("a=1"), vec!['a', '=', '1']);
    assert_eq!(chars_of("h\u{e9}\u{1f600}"), vec!['h', '\u{e9}', '\u{1f600}']);
}

#[test]
fn words_are_compared_character_by_character() {
    assert!(is_word(&chars_of("Width"), "Width"));
    assert!(is_word(&[], ""));
    assert!(!is_word(&chars_of("Width"), "Widths"));
    assert!(!is_word(&chars_of("Widths"), "Width"));
    assert!(!is_word(&chars_of("width"), "Width"));
    assert!(!is_word(&chars_of("Widtg"), "Width"));
}

#[test]
fn first_separator_is_found() {
    assert_eq!(position_of(&chars_of("a=b=c"), '='), 1);
    assert_eq!(position_of(&chars_of("=b"), '='), 0);
    assert_eq!(position_of(&chars_of("abc"), '='), 3);
    assert_eq!(position_of(&[], '='), 0);
}

#[test]
fn white_space_is_what_the_standard_library_calls_so() {
    for code in 0..=0x3100u32 {
        if let Some(c) = char::from_u32(code) {
            assert_eq!(whitespace(c), c.is_whitespace(), "{code:x}");
        }
    }
    assert!(!whitespace('\u{feff}'));
    assert!(!whitespace('\u{10ffff}'));
}

#[test]
fn marked_objects_are_found_by_their_cell() {
    let objects = vec![spawn(ObjectType::Mine, 1, 1), spawn(ObjectType::Raft, 2, 2)];
    assert!(any_marked_at(&objects, &vec![true, false], at(1, 1)));
    assert!(!any_marked_at(&objects, &vec![false, true], at(1, 1)));
    assert!(any_marked_at(&objects, &vec![false, true], at(2, 2)));
    assert!(!any_marked_at(&objects, &vec![true, true], at(1, 2)));
    assert!(!any_marked_at(&Vec::new(), &Vec::new(), at(1, 1)));
}

#[test]
fn contacts_remove_inner_objects_and_outer_ones_on_demand() {
    let a = spawn(ObjectType::Mine, 1, 1);
    let b = spawn(ObjectType::Player, 1, 1);
    let c = spawn(ObjectType::Raft, 2, 1);
    let outer = vec![true, false, true];
    let inner = vec![false, true, false];

    let mut objects = vec![a, b, c];
    let outcome = resolve_contacts(&mut objects, &outer, &inner, false, Effect::Splash);
    assert_eq!(outcome, Outcome { effects: 1, player_removed: true });
    assert_eq!(objects, vec![a, c, GridObject::splash(at(1, 1))]);

    let mut objects = vec![a, b, c];
    let outcome = resolve_contacts(&mut objects, &outer, &inner, true, Effect::Grave);
    assert_eq!(outcome, Outcome { effects: 1, player_removed: true });
    assert_eq!(objects, vec![c, GridObject::grave(at(1, 1))]);

    let mut objects = vec![a, b, c];
    let nothing = vec![false, false, false];
    let outcome = resolve_contacts(&mut objects, &nothing, &inner, true, Effect::Explosion);
    assert_eq!(outcome, Outcome { effects: 0, player_removed: false });
    assert_eq!(objects, vec![a, b, c]);
}

#[test]
fn unmarked_objects_take_no_part_in_a_move() {
    let dimensions = Dimensions { width: 3, height: 1 };
    let wall = spawn(ObjectType::RedBlock, 2, 1);
    let block = spawn(ObjectType::BlueBlock, 2, 1);
    let mut objects = vec![wall, block];
    let mut position = at(1, 1);
    assert!(move_among(&mut objects, &vec![false, true], &mut position, (1, 0), &dimensions, true));
    assert_eq!(position, at(2, 1));
    assert_eq!(objects, vec![wall, spawn(ObjectType::BlueBlock, 3, 1)]);
    let mut position = at(1, 1);
    assert!(!move_among(&mut objects, &vec![true, true], &mut position, (1, 0), &dimensions, true));
    assert_eq!(position, at(1, 1));
    assert_eq!(objects, vec![wall, spawn(ObjectType::BlueBlock, 3, 1)]);
}

#[test]
fn what_the_movement_rules_read_of_an_object() {
    let transporter = spawn_object_of_type(ObjectType::Transporter, at(3, 4), Direction::Left);
    assert_eq!(
        transporter.to_collision(),
        CollisionObject {
            position: at(3, 4),
            pushable: false,
            massive: false,
            blocks_pushes: false,
            blocks_movement: Some(BlocksMovement::Enabled),
        }
    );
    let block = spawn(ObjectType::BlueBlock, 1, 2);
    assert_eq!(
        block.to_collision(),
        CollisionObject {
            position: at(1, 2),
            pushable: true,
            massive: true,
            blocks_pushes: false,
            blocks_movement: None,
        }
    );
    assert!(block.shares_cell(&spawn(ObjectType::Water, 1, 2)));
    assert!(!block.shares_cell(&spawn(ObjectType::Water, 2, 1)));
    assert_eq!(BlocksMovement::default(), BlocksMovement::Enabled);
}
