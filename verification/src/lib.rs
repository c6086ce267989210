//! BulletML
//!
//! The runtime core of a BulletML interpreter: expressions, the lowering of a
//! script into an action tree, and the per-frame runner of one bullet.

pub mod data;
pub mod run;
pub mod value;
