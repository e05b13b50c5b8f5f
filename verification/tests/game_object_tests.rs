use rusty_ache::component::{Component, ComponentError, Sprite};
use rusty_ache::game_object::{GameObject, GameObjectError};
use rusty_ache::position::Position;

fn create_test_game_object() -> GameObject {
    let position = Position { x: 0, y: 0, z: 0, is_relative: false };
    let components: Vec<Component> = vec![Component::Sprite(Sprite::new(None, false, (0, 0)))];
    GameObject::new(components, None, position)
}

#[test]
fn test_new() {
    let position = Position { x: 10, y: 20, z: 30, is_relative: true };
    let components: Vec<Component> = vec![Component::Sprite(Sprite::new(None, false, (0, 0)))];

    let game_object = GameObject::new(components, None, position);

    assert_eq!(game_object.components.len(), 1);
    assert_eq!(game_object.position.x, 10);
    assert_eq!(game_object.position.y, 20);
    assert_eq!(game_object.position.z, 30);
}

#[test]
fn test_add_component_increases_component_count() {
    let mut game_object = create_test_game_object();
    let initial_count = game_object.components.len();

    let new_component = Component::Sprite(Sprite::new(None, false, (0, 0)));
    let result = game_object.add_component(new_component);

    assert!(result.is_ok());
    assert_eq!(game_object.components.len(), initial_count + 1);
}

#[test]
fn test_remove_component_valid_index() {
    let mut game_object = create_test_game_object();
    let initial_count = game_object.components.len();

    let result = game_object.remove_component(0);

    assert!(result.is_ok());
    assert_eq!(game_object.components.len(), initial_count - 1);
}

#[test]
fn test_remove_component_invalid_index() {
    let mut game_object = create_test_game_object();
    let component_count = game_object.components.len();

    let result = game_object.remove_component(component_count + 10);

    assert!(result.is_err());
    match result {
        Err(GameObjectError::ComponentError(ComponentError::InvalidIndex(msg))) => {
            assert!(msg.contains("out of bounds"));
        }
        _ => panic!("Expected InvalidIndex error"),
    }
}

#[test]
fn test_get_position() {
    let position = Position { x: 15, y: 25, z: 35, is_relative: false };
    let game_object = GameObject::new(vec![], None, position);

    let result = game_object.get_position();

    assert!(result.is_ok());
    if let Ok(pos) = result {
        assert_eq!(pos.x, 15);
        assert_eq!(pos.y, 25);
        assert_eq!(pos.z, 35);
    }
}

#[test]
fn test_update_position() {
    let mut game_object = create_test_game_object();
    let new_position = Position { x: 100, y: 200, z: 300, is_relative: false };

    let result = game_object.update_position(new_position);

    assert!(result.is_ok());
    assert_eq!(game_object.position.x, 100);
    assert_eq!(game_object.position.y, 200);
    assert_eq!(game_object.position.z, 300);
}

#[test]
fn test_new_empty_components_list() {
    let position = Position { x: 0, y: 0, z: 0, is_relative: true };
    let game_object = GameObject::new(vec![], None, position);

    assert_eq!(game_object.components.len(), 0);
}

#[test]
fn test_remove_all_components() {
    let mut game_object = create_test_game_object();
    let component_count = game_object.components.len();

    for _ in 0..component_count {
        let result = game_object.remove_component(0);
        assert!(result.is_ok());
    }

    assert_eq!(game_object.components.len(), 0);
}

#[test]
fn test_add_position_moves_x_and_y() {
    let mut game_object = create_test_game_object();

    game_object.add_position((3, -4));

    assert_eq!(game_object.position.x, 3);
    assert_eq!(game_object.position.y, -4);
    assert_eq!(game_object.position.z, 0);
}
