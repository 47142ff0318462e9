//! Build-time metadata generation: collected facts are merged into an ordered registry of typed
//! constants, filtered by a deny list, and written out as a source module together with version
//! definitions, a function printing every constant, and re-run directives for the host build.

pub mod ci;
pub mod emit;
pub mod keyorder;
pub mod registry;
pub mod shadow;
pub mod text;
pub mod trigger;
pub mod version;
