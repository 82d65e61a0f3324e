//! A test-paper generator: a project model (header, settings, a list of
//! questions), a text project-file codec that round-trips every project,
//! and a deterministic PDF composition pipeline that lays the paper out as
//! a plan of renderable elements.

pub mod chars;
pub mod codec;
pub mod elements;
pub mod errors;
pub mod locale;
pub mod model;
pub mod navigate;
pub mod numbers;
pub mod parse;
pub mod pdfgen;
pub mod roundtrip;
pub mod shuffle;
pub mod stats;

pub use codec::serialize_project;
pub use errors::GenError;
pub use locale::Language;
pub use locale::PaperSize;
pub use model::Project;
pub use model::Question;
pub use parse::parse_project;
pub use pdfgen::generate_plan;
