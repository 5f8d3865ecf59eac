//! Resolves exported symbols of loaded modules by walking the loader's module
//! list and each module's executable-image headers, modelled over byte buffers.

pub mod bytes;
pub mod directory;
pub mod section;
pub mod headers;
pub mod export;

pub mod loader;
pub mod resolve;
pub mod image_view;
pub mod laws;
