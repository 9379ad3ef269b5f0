//! Template resolution and two-way binding synthesis for a declarative UI
//! compiler stage: a parsed node tree becomes a resolved widget model.

pub mod binding;
pub mod error;
pub mod laws;
pub mod prop_items;
pub mod props;
pub mod role;
pub mod style;
pub mod template;
pub mod widget;
pub mod widget_type;
