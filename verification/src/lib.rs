//! Encoder for the RDM mesh container: a single-pass writer that lays a model out
//! as one byte image whose pointer fields are offsets into the image itself.

pub mod buffer;
pub mod error;
pub mod model;
pub mod vertex;
pub mod image;
pub mod rdm_writer;
pub mod laws;
