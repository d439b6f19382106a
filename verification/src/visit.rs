//! Traversal of syntax trees.
//!
//! A [`Visitor`] has one method per kind of node. Each says what it does to
//! the visitor as a function of the node (`after_*`), which the implementor
//! defines. A visitor method that traverses its node's children calls the
//! matching `walk_*` function, which visits the children in source order.

pub mod visitable;
pub mod visitor;
pub mod walk;

pub use visitable::{visited_all, Visitable};
pub use visitor::Visitor;
pub use walk::{
    walk_array, walk_comment_block, walk_enum, walk_field, walk_map, walk_message, walk_package,
    walk_schema, walk_type, walk_unit_variant,
};
