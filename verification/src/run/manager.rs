//! What the host game does for one bullet.

use crate::data::ExpressionContext;
use crate::value::Value;
use vstd::prelude::*;

verus! {

/// The implementation of a bullet.
///
/// This trait is driven by the `Runner` structure to perform the actions
/// indicated by the BulletML script.
pub trait BulletManager: ExpressionContext {
    /// Create a new, simple, bullet.
    fn new_simple(&mut self, direction: Value, speed: Value);

    /// Create a new bullet.
    fn new(&mut self, direction: Value, speed: Value);

    /// The turn of the simulation.
    fn turn(&self) -> u32;

    /// The current direction of the bullet.
    fn direction(&self) -> Value;

    /// The direction the bullet should aim for.
    fn aim_direction(&self) -> Value;

    /// The current speed of the bullet.
    fn speed(&self) -> Value;

    /// The current `x`-axis speed of the bullet.
    fn speed_x(&self) -> Value;

    /// The current `y`-axis speed of the bullet.
    fn speed_y(&self) -> Value;

    /// The default speed of the bullet.
    fn default_speed(&self) -> Value;

    /// Destroy the bullet.
    fn vanish(&mut self);

    /// Change the direction of the bullet.
    fn change_direction(&mut self, degrees: Value);

    /// Change the speed of the bullet.
    fn change_speed(&mut self, speed: Value);

    /// Accelerate the bullet along the `x` axis.
    fn accel_x(&mut self, amount: Value);

    /// Accelerate the bullet along the `y` axis.
    fn accel_y(&mut self, amount: Value);
}

} // verus!
