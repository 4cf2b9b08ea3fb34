//! A compiler from WASM compute kernels to SPIR-V modules for Vulkan.
//!
//! A kernel is a WASM function whose global 0 stands for the id of the
//! thread and whose memory stands for a storage buffer of 32-bit words.  The
//! instructions of each function are translated into a tree ([`tree`]), and
//! the trees are lowered to SPIR-V ([`spirv`]).  Every executable function
//! comes with a contract that says, over mathematical values, what it
//! computes; [`lowering`] and [`wasm`] hold what the contracts speak of, and
//! [`laws`] what holds of every module that is given out.

pub mod model;
pub mod builder;
pub mod index_map;
pub mod bytes;
pub mod error;
pub mod ir;
pub mod wasm;
pub mod analysis;
pub mod walk;
pub mod lowering;
pub mod steady;
pub mod sound;
pub mod ids;
pub mod targets;
pub mod preserve;
pub mod unique;
pub mod branches;
pub mod frame;
pub mod ends;
pub mod spirv;
pub mod tree;
pub mod scope;
pub mod laws;
