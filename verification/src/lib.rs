//! A line-oriented Markdown-to-HTML conversion engine for static blog
//! rendering.
//!
//! The engine takes a document as an ordered sequence of pre-trimmed text
//! lines and produces a single string of HTML fragments.  It recognises
//! fenced code blocks (emitted verbatim), a fixed table of line markers
//! (headings, list items, blockquotes), and an ordered list of inline style
//! rules (bold, italic, inline code, images, links).  Every transformation
//! is specified over sequences of characters and proved against that
//! specification.

pub mod classify;
pub mod laws;
pub mod parser;
pub mod site;
pub mod style;
pub mod text;

pub use classify::LineKind;
pub use parser::Parser;
pub use site::Config;
pub use site::Renderer;
pub use style::StyleRule;
