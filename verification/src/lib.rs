//! Verified core of a WYSIWYG page editor.
//!
//! A page is a layout document: a forest of widgets, addressed by id, with
//! ordered roots and ordered children.  This crate holds
//!
//! - the document and its editing operations ([`serialization`]), with
//!   their meaning as functions on a mathematical model ([`model`]) and the
//!   laws that hold of them ([`edits`], [`removal`], [`forest`]);
//! - the check that a document is structurally sound ([`validation`]);
//! - the JSON form of a document ([`codec`], [`json`]);
//! - the undo and redo history ([`history`]) and the decisions of the
//!   editor ([`editor`]);
//! - widget configurations ([`widget`], [`strmap`]), the registry of widget
//!   types ([`registry`]), the standard widget types ([`widgets`]) and
//!   themes ([`theme`]).
//!
//! Every function is verified against its contract with Verus.  What is
//! taken on trust of other crates is marked `external_body`, or given by an
//! `assume_specification`, and says in its documentation what it claims.

pub mod codec;
pub mod editor;
pub mod edits;
pub mod error;
pub mod forest;
pub mod history;
pub mod json;
pub mod model;
pub mod registry;
pub mod removal;
pub mod serialization;
pub mod strmap;
pub mod theme;
pub mod validation;
pub mod widget;
pub mod widgets;

pub use crate::error::Error;
pub use crate::history::{History, MAX_HISTORY};
pub use crate::json::JsonValue;
pub use crate::model::Fault;
pub use crate::registry::{WidgetInfo, WidgetRegistry};
pub use crate::serialization::{Layout, LayoutNode, SerializedLayout};
pub use crate::strmap::StrMap;
pub use crate::theme::{DefaultTheme, Theme, ThemeConfig};
pub use crate::widget::{Widget, WidgetConfig, WidgetId};
