//! Components attachable to game objects.
//!
//! A component is a closed tagged variant: a visual sprite, an (inert)
//! velocity, or a behavior-script marker. Only sprite components participate
//! in compositing; the compositor matches on the variants exhaustively, so no
//! run-time type inspection is needed.

use crate::bitmap::Bitmap;
use vstd::prelude::*;

verus! {

/// Errors that can occur when handling components.
pub enum ComponentError {
    /// Component already exists.
    Exist(Box<Component>),
    /// Operation could not be applied on component.
    CannotApply(String),
    /// An unknown error occurred.
    UnknownError(String),
    /// Invalid index was provided.
    InvalidIndex(String),
}

/// Enum identifying types of components supported.
#[derive(Debug, Eq, PartialEq, Clone)]
pub enum ComponentType {
    Sprite,
    Velocity,
    Action,
}

/// A visual component: an optional decoded image, a shadow flag, and a
/// per-sprite draw offset applied before projection.
pub struct Sprite {
    /// The decoded image, if one was attached. A sprite with no image is
    /// excluded from compositing.
    pub image: Option<Bitmap>,
    /// Whether the sprite casts a drop shadow while painted.
    pub shadow: bool,
    /// Pixel displacement applied to the owning object's position before
    /// projecting the sprite.
    pub offset: (i32, i32),
}

impl Sprite {
    /// Creates a sprite component from an optional image, a shadow flag and
    /// a draw offset.
    pub fn new(image: Option<Bitmap>, shadow: bool, offset: (i32, i32)) -> (r: Self)
        ensures
            r.image == image,
            r.shadow == shadow,
            r.offset == offset,
    {
        Sprite { image, shadow, offset }
    }

    /// Returns the component's type identifier.
    pub fn get_component_type(&self) -> (r: ComponentType)
        ensures
            r == ComponentType::Sprite,
    {
        ComponentType::Sprite
    }

    /// Returns the sprite image if available.
    pub fn get_sprite_unchecked(&self) -> (r: &Option<Bitmap>)
        ensures
            r == &self.image,
    {
        &self.image
    }

    /// Indicates whether the component casts shadows.
    pub fn get_shadow_unchecked(&self) -> (r: bool)
        ensures
            r == self.shadow,
    {
        self.shadow
    }

    /// Returns the sprite offset.
    pub fn get_sprite_offset_unchecked(&self) -> (r: Option<(i32, i32)>)
        ensures
            r == Some(self.offset),
    {
        Some(self.offset)
    }
}

/// Component storing velocity in x and y directions. Currently inert;
/// reserved for future per-tick motion.
pub struct Velocity {
    pub _x: usize,
    pub _y: usize,
    pub _component_type: ComponentType,
}

impl Velocity {
    /// Constructs a new `Velocity` component with zero initial velocity.
    pub fn _new() -> (r: Self)
        ensures
            r._x == 0,
            r._y == 0,
            r._component_type == ComponentType::Velocity,
    {
        Velocity { _x: 0, _y: 0, _component_type: ComponentType::Velocity }
    }

    /// Updates the velocity components to new values.
    pub fn _update(&mut self, x: usize, y: usize)
        ensures
            final(self)._x == x,
            final(self)._y == y,
            final(self)._component_type == old(self)._component_type,
    {
        self._x = x;
        self._y = y;
    }

    /// Returns the component type identifier as `ComponentType::Velocity`.
    pub fn get_component_type(&self) -> (r: ComponentType)
        ensures
            r == ComponentType::Velocity,
    {
        ComponentType::Velocity
    }
}

/// A capability attached to a game object. The closed set of variants
/// replaces type-erased downcasting: consumers match exhaustively.
pub enum Component {
    /// A drawable sprite.
    Sprite(Sprite),
    /// An inert velocity.
    Velocity(Velocity),
    /// A marker for script-driven behavior, out of the compositor's scope.
    Script,
}

impl Component {
    /// The type identifier of the wrapped component.
    pub open spec fn spec_component_type(self) -> ComponentType {
        match self {
            Component::Sprite(_) => ComponentType::Sprite,
            Component::Velocity(_) => ComponentType::Velocity,
            Component::Script => ComponentType::Action,
        }
    }

    /// Returns the component's type identifier.
    pub fn get_component_type(&self) -> (r: ComponentType)
        ensures
            r == self.spec_component_type(),
    {
        match self {
            Component::Sprite(_) => ComponentType::Sprite,
            Component::Velocity(_) => ComponentType::Velocity,
            Component::Script => ComponentType::Action,
        }
    }

    /// The sprite inside this component, if it is one.
    pub fn as_sprite(&self) -> (r: Option<&Sprite>)
        ensures
            match self {
                Component::Sprite(s) => r == Some(s),
                _ => r is None,
            },
    {
        match self {
            Component::Sprite(s) => Some(s),
            _ => None,
        }
    }

    /// The velocity inside this component, if it is one.
    pub fn as_velocity(&self) -> (r: Option<&Velocity>)
        ensures
            match self {
                Component::Velocity(v) => r == Some(v),
                _ => r is None,
            },
    {
        match self {
            Component::Velocity(v) => Some(v),
            _ => None,
        }
    }
}

} // verus!
