//! Generation of random version-4 identifiers, their textual styles,
//! duplicate repair and assembly of the final output text.

pub mod batch;
pub mod ident;
pub mod laws;
pub mod output;
pub mod pipeline;
pub mod style;
