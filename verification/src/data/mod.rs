//! Data entities
//!
//! These are the data structures used to represent a BulletML script.

pub mod data;
pub mod expression;

pub use self::data::{
    Accel, Action, Bullet, BulletML, Change, ChangeDirection, ChangeSpeed, Direction,
    DirectionKind, Element, EntityError, EntityLookup, EntityRef, Fire, Horizontal, Orientation,
    Param, Reference, Repeat, Speed, Step, Term, Times, Vanish, Vertical, Wait,
};
pub use self::expression::{Expression, ExpressionContext, ExpressionError};
pub use crate::value::Value;
