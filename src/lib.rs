//! Content-fitting label rendering and printer paper-size resolution.
//!
//! The library holds the decisions of the label pipeline: the rendering of a
//! template into markup, the job that drives a layout engine from markup to an
//! exactly sized page artifact, the conversion of a measured label box into
//! physical dimensions, the matching of a label height against a printer
//! driver's paper catalog, and the arguments of the print command. The
//! surrounding program performs the engine calls, the file system work and the
//! printing.

pub mod artifact;
pub mod catalog;
pub mod error;
pub mod outside;
pub mod print;
pub mod producer;
pub mod scan;
pub mod template;
pub mod text;
pub mod units;

pub use artifact::PDF;
pub use catalog::{DEFAULT_PAPER_NAME, page_size_attribute_for_height, resolve_paper_name};
pub use error::LabelError;
pub use print::print_arguments;
pub use producer::{JobAction, JobEvent, ProducerJob, Stage};
pub use template::{make_html, template_path};
pub use units::{Measurement, PhysicalDimensions, physical_dimensions};
