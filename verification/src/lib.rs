//! A 3×3×3 twisty-puzzle engine: facelet state, the eighteen face moves,
//! move notation, and scramble generation and validation.

pub mod color;
pub mod move_code;
pub mod move_utils;
pub mod notation;
pub mod optimized_cube;
pub mod permutation;
pub mod scramble;
pub mod scramble_utils;

pub use color::{CubeColor, CubeColors};
pub use move_code::MoveCode;
pub use move_utils::MoveUtils;
pub use optimized_cube::OptimizedCube;
pub use scramble::ScrambleRng;
pub use scramble_utils::{AlgorithmPatterns, ScrambleUtils};
