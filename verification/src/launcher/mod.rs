//! The launcher that stands in for a Python interpreter: it runs itself again inside a
//! sandbox, and there hands over to the interpreter.

pub mod argv;
pub mod conda_meta;
pub mod course;
pub mod location;
pub mod machine;
pub mod prefix;
pub mod profile;
pub mod steps;
