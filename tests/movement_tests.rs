use sokoban::map::{GameMap, MapTile, MovableBlock, Position};
use sokoban::movement::{calc_new_position_after_movement, can_move_to, move_stays_on_grid, MoveDirection};

#[test]
fn test_up() {
    let pos_in = Position { x: 5, y: 5 };
    assert_eq!(Position { x: 5, y: 4 }, calc_new_position_after_movement(&MoveDirection::Up, &pos_in));
}

#[test]
fn test_down() {
    let pos_in = Position { x: 5, y: 5 };
    assert_eq!(Position { x: 5, y: 6 }, calc_new_position_after_movement(&MoveDirection::Down, &pos_in));
}

#[test]
fn test_left() {
    let pos_in = Position { x: 5, y: 5 };
    assert_eq!(Position { x: 4, y: 5 }, calc_new_position_after_movement(&MoveDirection::Left, &pos_in));
}

#[test]
fn test_right() {
    let pos_in = Position { x: 5, y: 5 };
    assert_eq!(Position { x: 6, y: 5 }, calc_new_position_after_movement(&MoveDirection::Right, &pos_in));
}

#[test]
fn test_can_move_to() {
    let map = GameMap::new();
    assert!(can_move_to(&map, &Position { x: 1, y: 0 }, &MoveDirection::Right, false));
}

#[test]
fn test_can_not_move_to() {
    let mut map = GameMap::new();
    map.map[0][1] = MapTile::Wall;
    assert!(!can_move_to(&map, &Position { x: 1, y: 0 }, &MoveDirection::Right, false));
}

#[test]
fn test_can_move_block() {
    let mut map = GameMap::new();
    map.movable_blocks.push(MovableBlock { position: Position { x: 1, y: 0 } });
    assert!(can_move_to(&map, &Position { x: 1, y: 0 }, &MoveDirection::Right, false));
}

#[test]
fn test_cannot_move_block_in_wall() {
    let mut map = GameMap::new();
    map.map[0][2] = MapTile::Wall;
    map.movable_blocks.push(MovableBlock { position: Position { x: 1, y: 0 } });
    assert!(!can_move_to(&map, &Position { x: 1, y: 0 }, &MoveDirection::Right, false));
}

#[test]
fn test_cannot_move_block_in_block() {
    let mut map = GameMap::new();
    map.movable_blocks.push(MovableBlock { position: Position { x: 1, y: 0 } });
    map.movable_blocks.push(MovableBlock { position: Position { x: 2, y: 0 } });
    assert!(!can_move_to(&map, &Position { x: 1, y: 0 }, &MoveDirection::Right, false));
}

#[test]
fn probing_a_block_never_pushes_it() {
    let mut map = GameMap::new();
    map.movable_blocks.push(MovableBlock { position: Position { x: 1, y: 0 } });
    assert!(!can_move_to(&map, &Position { x: 1, y: 0 }, &MoveDirection::Right, true));
}

#[test]
fn move_off_the_grid_is_detected() {
    let map = GameMap::new();
    assert!(!move_stays_on_grid(&map, &MoveDirection::Left));
    assert!(!move_stays_on_grid(&map, &MoveDirection::Up));
    assert!(move_stays_on_grid(&map, &MoveDirection::Right));
    let mut edge = GameMap::new();
    edge.player_position = Position { x: 27, y: 0 };
    edge.movable_blocks.push(MovableBlock { position: Position { x: 28, y: 0 } });
    assert!(move_stays_on_grid(&edge, &MoveDirection::Right));
    edge.player_position = Position { x: 28, y: 0 };
    edge.movable_blocks[0].position = Position { x: 29, y: 0 };
    assert!(!move_stays_on_grid(&edge, &MoveDirection::Right));
}

#[test]
fn steps_at_the_edge_of_the_integer_range() {
    let p = Position { x: i32::MAX, y: 0 };
    assert_eq!(Position { x: i32::MAX, y: -1 }, calc_new_position_after_movement(&MoveDirection::Up, &p));
    let q = calc_new_position_after_movement(&MoveDirection::Left, &p);
    assert_eq!(p, calc_new_position_after_movement(&MoveDirection::Right, &q));
}
