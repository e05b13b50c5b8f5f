//! The core game object entity.
//!
//! A `GameObject` is an identity-free aggregate: an ordered component list,
//! an optional behavior script, and a mutable world position. It is owned
//! exclusively by whichever container holds it.

use crate::component::{Component, ComponentError};
use crate::position::Position;
use crate::script::MyScript;
use vstd::prelude::*;

verus! {

/// Errors that can arise at the GameObject level.
pub enum GameObjectError {
    /// Represents an error originating from a component operation.
    ComponentError(ComponentError),
    /// Error related to unique identifier (UID) management.
    UIDError(String),
    /// Position-related errors.
    PositionError(String),
    /// Catch-all variant for unknown or unexpected errors.
    UnknownError(String),
}

/// The primary game object structure holding components, optional script,
/// and position.
pub struct GameObject {
    pub components: Vec<Component>,
    pub script: Option<MyScript>,
    pub position: Position,
}

impl GameObject {
    /// Constructs a new game object from components, script, and position.
    pub fn new(components: Vec<Component>, script: Option<MyScript>, position: Position) -> (r:
        Self)
        ensures
            r.components == components,
            r.script == script,
            r.position == position,
    {
        GameObject { components, script, position }
    }

    /// Adds a component to the end of the component list. Always succeeds.
    pub fn add_component(&mut self, component: Component) -> (r: Result<(), GameObjectError>)
        ensures
            r is Ok,
            final(self).components@ == old(self).components@.push(component),
            final(self).script == old(self).script,
            final(self).position == old(self).position,
    {
        self.components.push(component);
        Ok(())
    }

    /// Gets a reference to the current position.
    pub fn get_position(&self) -> (r: Result<&Position, GameObjectError>)
        ensures
            r == Result::<&Position, GameObjectError>::Ok(&self.position),
    {
        Ok(&self.position)
    }

    /// Removes the component at the given index, or returns an error if the
    /// index is out of bounds; the object is then left unchanged.
    pub fn remove_component(&mut self, component_id: usize) -> (r: Result<(), GameObjectError>)
        ensures
            component_id < old(self).components@.len() ==> {
                &&& r is Ok
                &&& final(self).components@ == old(self).components@.remove(component_id as int)
            },
            component_id >= old(self).components@.len() ==> {
                &&& r matches Err(GameObjectError::ComponentError(ComponentError::InvalidIndex(_)))
                &&& final(self).components@ == old(self).components@
            },
            final(self).script == old(self).script,
            final(self).position == old(self).position,
    {
        if component_id >= self.components.len() {
            return Err(
                GameObjectError::ComponentError(
                    ComponentError::InvalidIndex("component id is out of bounds".to_string()),
                ),
            );
        }
        self.components.remove(component_id);
        Ok(())
    }

    /// Updates the position of the game object.
    pub fn update_position(&mut self, position: Position) -> (r: Result<(), GameObjectError>)
        ensures
            r is Ok,
            final(self).position == position,
            final(self).components == old(self).components,
            final(self).script == old(self).script,
    {
        self.position = position;
        Ok(())
    }

    /// Adds a relative (x, y) offset to the current position.
    pub fn add_position(&mut self, vec: (i32, i32))
        requires
            i32::MIN <= old(self).position.x + vec.0 <= i32::MAX,
            i32::MIN <= old(self).position.y + vec.1 <= i32::MAX,
        ensures
            final(self).position.x == old(self).position.x + vec.0,
            final(self).position.y == old(self).position.y + vec.1,
            final(self).position.z == old(self).position.z,
            final(self).position.is_relative == old(self).position.is_relative,
            final(self).components == old(self).components,
            final(self).script == old(self).script,
    {
        self.position.x = self.position.x + vec.0;
        self.position.y = self.position.y + vec.1;
    }

    /// Runs the associated script action on the game object. Reserved
    /// behavior hook; does nothing at present.
    pub fn run_action(&self) {
    }
}

} // verus!
