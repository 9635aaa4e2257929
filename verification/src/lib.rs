//! IP-XACT (IEEE 1685) component descriptions for the public modules of a
//! Veryl project.
pub mod text;
pub mod metadata;
pub mod bounds;
pub mod model;
pub mod xml;
pub mod builder;
pub mod command;
pub mod laws;
