//! A small markup-building library: a tree of tag elements and text leaves
//! is grown through fluent builder calls, then rendered as indented markup
//! text, optionally decorated with terminal color markers.

pub mod attrs;
pub mod classify;
pub mod node;
pub mod render;
pub mod style;

pub use classify::is_inline;
pub use classify::is_self_closing;
pub use node::Node;
pub use node::NodeV;
pub use node::Tag;
pub use node::TagV;
pub use node::Text;
