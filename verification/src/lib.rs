//! OpenCAD core logic: validation reports, transactions, units and
//! expressions, document history, file checksums, command-line parsing,
//! review-image composition, the binary STL layout and the topology helpers
//! of drawing and sketching.

pub mod text;
pub mod error;
pub mod validation;
pub mod transaction;
pub mod units;
pub mod document;
pub mod history;
pub mod id;
pub mod component;
pub mod args;
pub mod image;
pub mod font;
pub mod review;
pub mod animate;
pub mod parameters;
pub mod stl;
pub mod checksums;
pub mod hidden_line;
pub mod topology;
pub mod smoke;
pub mod plugin;
pub mod sketch_loop;
pub mod refs;
pub mod export;
pub mod container;
