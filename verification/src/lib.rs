//! Markdown documents as trees of typed nodes, with styled lines for their
//! code blocks.

pub mod builder;
pub mod dashboard;
pub mod document;
pub mod event;
pub mod markdown;
pub mod nesting;
pub mod router;
pub mod syntax;
pub mod token;
pub mod viewer;
