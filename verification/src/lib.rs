//! Structural type model of a binary interface-description format: the closed
//! set of wire types, the numeric codes of the built-in constructors, a
//! registry that maps type identities to their definitions, and the expansion
//! of indirection nodes through that registry.

pub mod candid_type;
pub mod env;
pub mod opcode;
pub mod types;
pub mod unroll;

pub use crate::candid_type::{get_type, CandidType};
pub use crate::env::{env_add, find_type, show_env, TypeEnv};
pub use crate::opcode::{InvalidOpcode, Opcode};
pub use crate::types::{is_primitive, Field, Type, TypeId};
pub use crate::unroll::{try_unroll, unroll};
