use grid_puzzle::game_object::components::{BlocksMovement, Direction, Position};
use grid_puzzle::game_object::movement::{move_object, CollisionObject};
use grid_puzzle::level::Dimensions;

fn at(x: i16, y: i16) -> Position {
    Position { x, y }
}

fn plain(x: i16, y: i16) -> CollisionObject {
    CollisionObject {
        position: at(x, y),
        pushable: false,
        massive: false,
        blocks_pushes: false,
        blocks_movement: None,
    }
}

fn block(x: i16, y: i16) -> CollisionObject {
    CollisionObject { pushable: true, massive: true, ..plain(x, y) }
}

fn wall(x: i16, y: i16) -> CollisionObject {
    CollisionObject { massive: true, ..plain(x, y) }
}

fn raft(x: i16, y: i16) -> CollisionObject {
    CollisionObject { pushable: true, ..plain(x, y) }
}

#[test]
fn push_against_massive_block_fails() {
    let dimensions = Dimensions { width: 3, height: 1 };
    let mut player = at(1, 1);
    let mut others = vec![block(2, 1), wall(3, 1)];
    assert!(!move_object(&mut player, (1, 0), &dimensions, &mut others, true));
    assert_eq!(player, at(1, 1));
    assert_eq!(others[0].position, at(2, 1));
    assert_eq!(others[1].position, at(3, 1));
}

#[test]
fn push_into_free_cell_succeeds() {
    let dimensions = Dimensions { width: 3, height: 1 };
    let mut player = at(1, 1);
    let mut others = vec![block(2, 1)];
    assert!(move_object(&mut player, (1, 0), &dimensions, &mut others, true));
    assert_eq!(player, at(2, 1));
    assert_eq!(others[0].position, at(3, 1));
}

#[test]
fn push_off_the_grid_fails() {
    let dimensions = Dimensions { width: 2, height: 1 };
    let mut player = at(1, 1);
    let mut others = vec![block(2, 1)];
    assert!(!move_object(&mut player, (1, 0), &dimensions, &mut others, true));
    assert_eq!(player, at(1, 1));
    assert_eq!(others[0].position, at(2, 1));
}

#[test]
fn move_off_the_grid_fails_in_every_direction() {
    let dimensions = Dimensions { width: 1, height: 1 };
    for delta in [(0, -1), (1, 0), (0, 1), (-1, 0)] {
        let mut mover = at(1, 1);
        let mut others = Vec::new();
        assert!(!move_object(&mut mover, delta, &dimensions, &mut others, true));
        assert_eq!(mover, at(1, 1));
    }
}

#[test]
fn move_in_every_direction() {
    let dimensions = Dimensions { width: 3, height: 3 };
    let expected = [
        (Direction::Up, at(2, 1)),
        (Direction::Right, at(3, 2)),
        (Direction::Down, at(2, 3)),
        (Direction::Left, at(1, 2)),
    ];
    for (direction, target) in expected {
        let mut mover = at(2, 2);
        let mut others = Vec::new();
        assert!(move_object(&mut mover, direction.to_delta(), &dimensions, &mut others, false));
        assert_eq!(mover, target);
    }
}

#[test]
fn chain_of_two_blocks_is_not_pushed() {
    let dimensions = Dimensions { width: 5, height: 1 };
    let mut player = at(1, 1);
    let mut others = vec![block(2, 1), block(3, 1)];
    assert!(!move_object(&mut player, (1, 0), &dimensions, &mut others, true));
    assert_eq!(player, at(1, 1));
    assert_eq!(others[0].position, at(2, 1));
    assert_eq!(others[1].position, at(3, 1));
}

#[test]
fn mover_steps_onto_pushable_that_is_not_massive() {
    let dimensions = Dimensions { width: 3, height: 1 };
    let mut player = at(1, 1);
    let mut others = vec![raft(2, 1), wall(3, 1)];
    assert!(move_object(&mut player, (1, 0), &dimensions, &mut others, true));
    assert_eq!(player, at(2, 1));
    assert_eq!(others[0].position, at(2, 1));
}

#[test]
fn without_pushing_a_block_is_a_wall() {
    let dimensions = Dimensions { width: 3, height: 1 };
    let mut mover = at(1, 1);
    let mut others = vec![block(2, 1)];
    assert!(!move_object(&mut mover, (1, 0), &dimensions, &mut others, false));
    assert_eq!(mover, at(1, 1));
    assert_eq!(others[0].position, at(2, 1));
}

#[test]
fn push_blocker_keeps_block_in_place() {
    let dimensions = Dimensions { width: 3, height: 1 };
    let mut player = at(1, 1);
    let mut others = vec![block(2, 1), CollisionObject { blocks_pushes: true, ..plain(3, 1) }];
    assert!(!move_object(&mut player, (1, 0), &dimensions, &mut others, true));
    assert_eq!(others[0].position, at(2, 1));
}

#[test]
fn all_pushables_at_the_destination_are_pushed() {
    let dimensions = Dimensions { width: 3, height: 3 };
    let mut player = at(2, 3);
    let mut others = vec![raft(2, 2), plain(2, 2), block(2, 2)];
    assert!(move_object(&mut player, (0, -1), &dimensions, &mut others, true));
    assert_eq!(player, at(2, 2));
    assert_eq!(others[0].position, at(2, 1));
    assert_eq!(others[1].position, at(2, 2));
    assert_eq!(others[2].position, at(2, 1));
}

#[test]
fn enabled_blocker_holds_the_mover() {
    let dimensions = Dimensions { width: 3, height: 1 };
    let mut mover = at(2, 1);
    let holder = CollisionObject { blocks_movement: Some(BlocksMovement::Enabled), ..plain(2, 1) };
    let mut others = vec![holder];
    assert!(!move_object(&mut mover, (1, 0), &dimensions, &mut others, true));
    assert_eq!(mover, at(2, 1));
}

#[test]
fn disabled_blocker_lets_go_and_is_enabled_again() {
    let dimensions = Dimensions { width: 3, height: 1 };
    let mut mover = at(2, 1);
    let holder = CollisionObject { blocks_movement: Some(BlocksMovement::Disabled), ..plain(2, 1) };
    let mut others = vec![holder];
    assert!(move_object(&mut mover, (1, 0), &dimensions, &mut others, false));
    assert_eq!(mover, at(3, 1));
    assert_eq!(others[0].blocks_movement, Some(BlocksMovement::Enabled));
}

#[test]
fn nearest_candidate_is_enabled_and_earliest_wins_ties() {
    let dimensions = Dimensions { width: 5, height: 1 };
    let mut mover = at(1, 1);
    let far = CollisionObject { blocks_movement: Some(BlocksMovement::Disabled), ..plain(4, 1) };
    let near = CollisionObject { blocks_movement: Some(BlocksMovement::Disabled), ..plain(2, 1) };
    let tie = CollisionObject { blocks_movement: Some(BlocksMovement::Disabled), ..plain(2, 1) };
    let mut others = vec![far, near, tie];
    assert!(move_object(&mut mover, (1, 0), &dimensions, &mut others, false));
    assert_eq!(others[0].blocks_movement, Some(BlocksMovement::Disabled));
    assert_eq!(others[1].blocks_movement, Some(BlocksMovement::Enabled));
    assert_eq!(others[2].blocks_movement, Some(BlocksMovement::Disabled));
}

#[test]
fn objects_off_the_ray_are_ignored() {
    let dimensions = Dimensions { width: 3, height: 3 };
    let mut mover = at(1, 2);
    let mut others = vec![wall(2, 1), wall(2, 3), wall(1, 1)];
    assert!(move_object(&mut mover, (1, 0), &dimensions, &mut others, true));
    assert_eq!(mover, at(2, 2));
}

#[test]
fn positions_stay_on_the_grid() {
    let dimensions = Dimensions { width: 3, height: 2 };
    for delta in [(0, -1), (1, 0), (0, 1), (-1, 0)] {
        for x in 1..=3 {
            for y in 1..=2 {
                for bx in 1..=3 {
                    for by in 1..=2 {
                        let mut mover = at(x, y);
                        let mut others = vec![block(bx, by), raft(3, 1)];
                        move_object(&mut mover, delta, &dimensions, &mut others, true);
                        assert!(1 <= mover.x && mover.x <= 3 && 1 <= mover.y && mover.y <= 2);
                        for other in &others {
                            assert!(1 <= other.position.x && other.position.x <= 3);
                            assert!(1 <= other.position.y && other.position.y <= 2);
                        }
                    }
                }
            }
        }
    }
}

#[test]
fn mover_at_the_edge_of_the_numbers_does_not_overflow() {
    let dimensions = Dimensions { width: i16::MAX, height: i16::MAX };
    let mut mover = at(i16::MAX, i16::MAX);
    let mut others = vec![block(i16::MAX, i16::MAX - 1)];
    assert!(!move_object(&mut mover, (1, 0), &dimensions, &mut others, true));
    assert!(!move_object(&mut mover, (0, 1), &dimensions, &mut others, true));
    assert!(move_object(&mut mover, (0, -1), &dimensions, &mut others, true));
    assert_eq!(mover, at(i16::MAX, i16::MAX - 1));
    assert_eq!(others[0].position, at(i16::MAX, i16::MAX - 2));
}
