use sokoban::drawing::terrain_rows;
use sokoban::input::{GameCommand, InputAction, Key};
use sokoban::map::{GameMap, MapTile};
use sokoban::movement::MoveDirection;

#[test]
fn arrow_keys_ask_for_moves() {
    let cases = [
        (Key::Up, MoveDirection::Up),
        (Key::Down, MoveDirection::Down),
        (Key::Left, MoveDirection::Left),
        (Key::Right, MoveDirection::Right),
    ];
    for (key, dir) in cases {
        assert_eq!(
            InputAction { movement_command: Some(dir), game_command: None },
            InputAction::from_key(key)
        );
    }
}

#[test]
fn letter_keys_ask_for_commands() {
    let cases = [
        (Key::Char('q'), GameCommand::Quit),
        (Key::Esc, GameCommand::Quit),
        (Key::Char('p'), GameCommand::PreviousMap),
        (Key::Char('n'), GameCommand::NextMap),
        (Key::Char('r'), GameCommand::Reset),
    ];
    for (key, cmd) in cases {
        assert_eq!(
            InputAction { movement_command: None, game_command: Some(cmd) },
            InputAction::from_key(key)
        );
    }
    assert!(InputAction::from_key(Key::Char('q')).movement_command.is_none());
}

#[test]
fn other_keys_ask_for_nothing() {
    for key in [Key::Char('x'), Key::Other] {
        assert_eq!(
            InputAction { movement_command: None, game_command: None },
            InputAction::from_key(key)
        );
    }
}

#[test]
fn terrain_rows_stop_after_the_first_blank_row() {
    let mut map = GameMap::new();
    map.map[0][0] = MapTile::Wall;
    map.map[1][2] = MapTile::TargetZone;
    let (rows, map_dim) = terrain_rows(&map);
    assert_eq!(3, rows.len());
    assert_eq!(2, map_dim);
    let first: String = rows[0].iter().collect();
    let second: String = rows[1].iter().collect();
    assert_eq!(format!("X{}", " ".repeat(29)), first);
    assert_eq!(format!("  .{}", " ".repeat(27)), second);
    assert!(rows[2].iter().all(|c| *c == ' '));
}

#[test]
fn terrain_rows_of_a_full_grid() {
    let mut map = GameMap::new();
    for y in 0..30 {
        map.map[y][0] = MapTile::Wall;
    }
    let (rows, map_dim) = terrain_rows(&map);
    assert_eq!(30, rows.len());
    assert_eq!(0, map_dim);
}
