//! High-level emulation of a console's system libraries: guest memory, the
//! kernel state the libraries share, the export registry, and the exports.
use vstd::prelude::*;

pub mod agc;
pub mod bytes;
pub mod context;
pub mod events;
pub mod libraries;
pub mod libsce_agc;
pub mod libsce_ampr;
pub mod libsce_audio_in;
pub mod libsce_audio_out2;
pub mod libsce_audio_propagation;
pub mod libsce_content_export;
pub mod libsce_coredump;
pub mod libsce_dialog_misc;
pub mod libsce_fiber;
pub mod libsce_http;
pub mod libsce_ime_dialog;
pub mod mem;
pub mod outcomes;
pub mod pace;
pub mod registry;
pub mod rows;
pub mod table;
pub mod text;

verus! {

} // verus!
