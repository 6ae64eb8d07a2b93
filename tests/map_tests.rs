use sokoban::map::{GameMap, MapTile, MovableBlock, Position, MAX_MAP_DIM};
use sokoban::movement::MoveDirection;

#[test]
fn test_get_new_map() {
    let map_to_test = GameMap::new();
    assert_eq!(true, map_to_test.movable_blocks.is_empty());
    assert_eq!(0, map_to_test.movable_blocks_in_final_position);
    assert_eq!(0, map_to_test.id);
    for y in 0..MAX_MAP_DIM {
        for x in 0..MAX_MAP_DIM {
            assert_eq!(
                MapTile::Space,
                map_to_test.get_tile_type_for_position(&Position { x: x as i32, y: y as i32 })
            );
        }
    }
}

#[test]
fn test_is_movable_block_at() {
    let mut map = GameMap::new();
    map.movable_blocks.push(MovableBlock { position: Position { x: 5, y: 5 } });
    assert_eq!(true, map.is_movable_block_at(&Position { x: 5, y: 5 }));
}

#[test]
fn test_parse_map_block() {
    let mut map = GameMap::new();
    let first_line = String::from(" X@*.");
    let second_line = String::from("X");
    let mut block_input: Vec<&str> = Vec::new();
    block_input.push(&first_line);
    block_input.push(&second_line);
    map.parse_map_block(&block_input);

    assert_eq!(true, map.is_movable_block_at(&Position { x: 3, y: 0 }));
    assert_eq!(MapTile::Space, map.get_tile_type_for_position(&Position { x: 0, y: 0 }));
    assert_eq!(MapTile::Wall, map.get_tile_type_for_position(&Position { x: 1, y: 0 }));
    assert_eq!(MapTile::Wall, map.get_tile_type_for_position(&Position { x: 0, y: 1 }));
    assert_eq!(MapTile::TargetZone, map.get_tile_type_for_position(&Position { x: 4, y: 0 }));
    assert_eq!(Position { x: 2, y: 0 }, map.player_position);
}

#[test]
fn test_move_movable_block() {
    let mut block = MovableBlock { position: Position { x: 5, y: 6 } };
    block.move_to(&MoveDirection::Up);
    assert_eq!(Position { x: 5, y: 5 }, block.position);
}

#[test]
fn test_get_movable_block_at_sucess() {
    let mut map = GameMap::new();
    let block = MovableBlock { position: Position { y: 7, x: 5 } };
    map.movable_blocks.push(block);
    let result = map.get_movable_block_at(&Position { y: 7, x: 5 });
    assert_eq!(result.unwrap(), &MovableBlock { position: Position { y: 7, x: 5 } });
}

#[test]
fn test_get_movable_block_at_failure() {
    let mut map = GameMap::new();
    let result = map.get_movable_block_at(&Position { x: 0, y: 0 });
    assert_eq!(result.is_none(), true);
}

#[test]
fn get_movable_block_at_moves_the_block_in_place() {
    let mut map = GameMap::new();
    map.movable_blocks.push(MovableBlock { position: Position { x: 1, y: 1 } });
    map.movable_blocks.push(MovableBlock { position: Position { x: 2, y: 1 } });
    if let Some(block) = map.get_movable_block_at(&Position { x: 2, y: 1 }) {
        block.move_to(&MoveDirection::Down);
    }
    assert_eq!(Position { x: 1, y: 1 }, map.movable_blocks[0].position);
    assert_eq!(Position { x: 2, y: 2 }, map.movable_blocks[1].position);
}

#[test]
fn parse_single_line_keeps_last_player_and_unknown_chars_as_space() {
    let mut map = GameMap::new();
    map.parse_single_line("@a&*@.", 3);
    assert_eq!(Position { x: 4, y: 3 }, map.player_position);
    assert_eq!(MapTile::Space, map.get_tile_type_for_position(&Position { x: 1, y: 3 }));
    assert_eq!(MapTile::Space, map.get_tile_type_for_position(&Position { x: 2, y: 3 }));
    assert_eq!(MapTile::Space, map.get_tile_type_for_position(&Position { x: 3, y: 3 }));
    assert_eq!(MapTile::TargetZone, map.get_tile_type_for_position(&Position { x: 5, y: 3 }));
    assert_eq!(vec![MovableBlock { position: Position { x: 3, y: 3 } }], map.movable_blocks);
    assert_eq!(0, map.movable_blocks_in_final_position);
}

#[test]
fn from_rows_builds_a_numbered_level() {
    let rows: Vec<&str> = vec!["XXXX", "X*.X", "X@ X"];
    let map = GameMap::from_rows(&rows, 7);
    assert_eq!(7, map.id);
    assert_eq!(Position { x: 1, y: 2 }, map.player_position);
    assert_eq!(vec![MovableBlock { position: Position { x: 1, y: 1 } }], map.movable_blocks);
    assert_eq!(MapTile::TargetZone, map.get_tile_type_for_position(&Position { x: 2, y: 1 }));
    assert_eq!(MapTile::Wall, map.get_tile_type_for_position(&Position { x: 3, y: 2 }));
    assert_eq!(MapTile::Space, map.get_tile_type_for_position(&Position { x: 0, y: 3 }));
}
