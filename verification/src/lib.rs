//! A help-text renderer: rows of command descriptors are aligned into
//! columns, and each description is word-wrapped to a fixed width with a
//! hyphenation fallback for tokens that carry no break opportunity.

pub mod enums;
pub mod text;
pub mod wrap;
pub mod builder;
pub mod laws;

pub use builder::ColumnWidths;
pub use builder::Command;
pub use builder::HelpMessageBuilder;
pub use enums::DASHED;
pub use enums::Parameter;
