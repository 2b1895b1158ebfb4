//! Cursor-location, local-variable and Lombok analysis for Java sources.
pub mod access_flags;
pub mod expression_typing;
pub mod extractor;
pub mod flow;
pub mod index;
pub mod injection;
pub mod inlay_hints;
pub mod intrinsics;
pub mod locals;
pub mod location;
pub mod lombok;
pub mod parse;
pub mod promotion;
pub mod semantic;
pub mod source_view;
pub mod syntax;
pub mod synthetic;
pub mod text;
pub mod text_map;
pub mod type_facts;
pub mod type_names;
