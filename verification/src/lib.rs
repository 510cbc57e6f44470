//! Verified core of ThinFlux, an asset optimiser for PNG, JPEG, WebP and PDF files.
//!
//! The library decides; the program around it reads and writes the files. Routing
//! by extension, the directory scan's filter, the quality scales, the PDF engine's
//! image re-encoding and its size rules are proved against their contracts; the
//! codecs (`image`, `oxipng`, `lopdf`) are called through trusted wrappers whose
//! contracts say what their sources show, and whose preconditions keep out the
//! inputs on which those sources panic.

pub mod text;
pub mod path;
pub mod format;
pub mod router;
pub mod jpeg;
pub mod engines;
pub mod pdf_model;
pub mod pdf_image;
pub mod pdf;
pub mod laws;
