//! The core of a manager for development environments that run as containers
//! whose names carry a fixed prefix: the instances.
//!
//! The library performs no input or output. For each operation it says what
//! to ask of the container runtime and what the runtime's answers mean:
//!
//! - [`naming`]: the names of instances and of their containers;
//! - [`projection`]: from the runtime's container records to instances and
//!   their port ranges;
//! - [`lifecycle`]: starting, stopping and restarting, one or many at a time;
//! - [`stream`]: relaying logs and consoles;
//! - [`forward`] and [`tunnel`]: forwarding ports into an instance;
//! - [`instances`]: the manager that ties these together;
//! - [`widgets`] and [`update`]: what the front ends share.

use vstd::prelude::*;

pub mod error;
pub mod forward;
pub mod instances;
pub mod lifecycle;
pub mod naming;
pub mod projection;
pub mod stream;
pub mod text;
pub mod tunnel;
pub mod update;
pub mod widgets;
