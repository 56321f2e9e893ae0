//! The graphics library: command-buffer builders, packet patches, sizing
//! probes, shader objects, register defaults and driver calls.
pub mod bindings;
pub mod builders;
pub mod data;
pub mod defaults;
pub mod driver;
pub mod effects;
pub mod fields;
pub mod laws;
pub mod packet;
pub mod patch;
pub mod patched;
pub mod reg_defaults;
pub mod registers;
pub mod registrations;
pub mod runs;
pub mod segment;
pub mod shader;
pub mod sizes;
pub mod submit;
pub mod trace;
pub mod windows;
