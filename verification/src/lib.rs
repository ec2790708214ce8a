use vstd::prelude::*;

pub mod assignment_comm;
pub mod authority;
pub mod collaboration;
pub mod ids;
pub mod model;
pub mod process;
pub mod runtime;
pub mod text;

