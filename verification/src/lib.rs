//! QR code generation.
//!
//! A byte string is analysed for its most compact encoding mode, packed into
//! a padded bit stream, protected with Reed-Solomon codewords, laid out on a
//! square matrix of modules around the fixed function patterns, masked with
//! the mask of least penalty and finally labelled with format and version
//! information.
pub mod bits;
pub mod builder;
pub mod census;
pub mod coverage;
pub mod data;
pub mod error;
pub mod ec;
pub mod ec_level;
pub mod frame;
pub mod info;
pub mod laws;
pub mod layout;
pub mod mask;
pub mod matrix;
pub mod mode;
pub mod qr;
pub mod render;
pub mod table_laws;
pub mod tables;
pub mod version;
pub mod zigzag;

pub use bits::BitVec;
pub use builder::QrBuilder;
pub use ec_level::ECLevel;
pub use error::Error;
pub use mask::Mask;
pub use matrix::{Matrix, Module};
pub use mode::Mode;
pub use qr::Qr;
pub use render::{Color, ParseColorError, StringRenderer, SvgRenderer};
pub use version::Version;
