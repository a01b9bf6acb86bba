//! Typed parser for Apple scripting definition (`.sdef`) XML files.
//!
//! Apple's scriptable macOS applications describe their AppleScript-visible
//! commands, classes, and enumerations in an XML file ending in `.sdef`. This
//! crate parses such files into a typed AST and writes the AST back out.
//!
//! # Lenient vs strict parsing
//!
//! [`Dictionary::parse`] (also reached through `str::parse`) tolerates
//! unknown XML elements: anything outside the modelled DTD subset is passed
//! over, for forward compatibility against future Apple additions.
//!
//! [`Dictionary::from_str_strict`] first runs a pass that rejects any element
//! name this crate does not model, any `<xi:include>` directive and any
//! out-of-range value of a closed-enumeration attribute.
//!
//! # Layout
//!
//! The AST types live in [`dictionary`], [`command`], [`class`], [`decl`],
//! [`metadata`] and [`typeref`]. Reading goes from the text to a stream of
//! events ([`events`]), whose element structure [`document`] describes and
//! [`xmlmap`] maps onto fields; [`strict`] holds the strict-mode pass and
//! [`emit`] the writer.

pub mod class;
pub mod command;
pub mod decl;
pub mod dictionary;
pub mod document;
pub mod emit;
pub mod error;
pub mod events;
pub mod metadata;
pub mod readback;
pub mod strict;
pub mod text;
pub mod typeref;
pub mod xmlmap;
pub mod yorn;

pub use class::{Accessor, AccessorStyle, Class, ClassExtension, Contents, Element, RespondsTo};
pub use command::{Command, CommandResult, DirectParameter, Event, Parameter};
pub use decl::{Enumeration, Enumerator, Property, RecordType, ValueType};
pub use dictionary::{Dictionary, Suite};
pub use error::Error;
pub use metadata::{Access, AccessGroup, Cocoa, CocoaBooleanValue, Documentation, Synonym, Xref};
pub use strict::{known_elements, validate_strict};
pub use typeref::TypeRef;
