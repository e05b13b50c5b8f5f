//! Behavior scripts attachable to game objects.
//!
//! Scripts encapsulate game logic that modifies a game object's state once
//! per invocation. They are outside the compositor's scope: the core only
//! needs a mutable position per object.

use crate::game_object::GameObject;
use crate::position::Position;
use vstd::prelude::*;

verus! {

/// Trait representing a script that can be attached to a game object.
///
/// Implementors define an `action` performed on a mutable game object
/// reference and a constructor taking an initial `is_downed` state. Each
/// implementor also states, as `action_spec`, what its action does.
pub trait Script: Sized {
    /// What one invocation of the action does: the next script state and the
    /// updated game object.
    spec fn action_spec(self, game_object: GameObject) -> (Self, GameObject);

    /// The script state produced by the constructor.
    spec fn new_spec(is_downed: bool) -> Self;

    /// Apply the script's action on the given mutable game object reference.
    fn action(&mut self, game_object: &mut GameObject)
        ensures
            (*final(self), *final(game_object)) == old(self).action_spec(*old(game_object)),
    ;

    /// Construct a new instance of the script.
    fn new(is_downed: bool) -> (r: Self)
        ensures
            r == Self::new_spec(is_downed),
    ;
}

/// One world unit downward, wrapping at the bottom of the coordinate range.
pub open spec fn step_down(y: i32) -> i32 {
    if y == i32::MIN {
        i32::MAX
    } else {
        (y - 1) as i32
    }
}

/// One world unit upward, wrapping at the top of the coordinate range.
pub open spec fn step_up(y: i32) -> i32 {
    if y == i32::MAX {
        i32::MIN
    } else {
        (y + 1) as i32
    }
}

/// A bobbing script: alternately moves its object one world unit down and
/// one unit up.
pub struct MyScript {
    pub is_downed: bool,
}

impl Script for MyScript {
    open spec fn action_spec(self, game_object: GameObject) -> (Self, GameObject) {
        (
            MyScript { is_downed: !self.is_downed },
            GameObject {
                position: Position {
                    x: game_object.position.x,
                    y: if self.is_downed {
                        step_up(game_object.position.y)
                    } else {
                        step_down(game_object.position.y)
                    },
                    z: game_object.position.z,
                    is_relative: game_object.position.is_relative,
                },
                ..game_object
            },
        )
    }

    open spec fn new_spec(is_downed: bool) -> MyScript {
        MyScript { is_downed }
    }

    fn action(&mut self, game_object: &mut GameObject) {
        if !self.is_downed {
            let y = game_object.position.y;
            game_object.position.y = if y == i32::MIN {
                i32::MAX
            } else {
                y - 1
            };
            self.is_downed = true;
        } else {
            let y = game_object.position.y;
            game_object.position.y = if y == i32::MAX {
                i32::MIN
            } else {
                y + 1
            };
            self.is_downed = false;
        }
    }

    fn new(is_downed: bool) -> MyScript {
        MyScript { is_downed }
    }
}

} // verus!
