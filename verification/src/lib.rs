//! Interactions with Protobuf messages and gRPC services, for contract tests.
//!
//! A configuration gives matching rule definitions for the fields of a message. Together with the
//! descriptors of the Protobuf file it makes an interaction: the message in its binary form, the
//! matching rules and generators of its fields by their paths, and a text that shows the message.
//!
//! - [`process`] is the entry: what a configuration asks for, and what is stored with a pact file.
//! - [`protobuf`] and [`services`] make the interactions for messages and for methods of services.
//! - [`fields`] builds the fields of a message, [`rules`] collects their rules and generators.
//! - [`message_builder`], [`encoding`] and [`markup`] hold a message, write it in the format of
//!   [`wire`], and show it; [`decoding`] says how values are read back.
//! - [`matching`], [`path`], [`value`] and [`digest`] call the crates that read matching rule
//!   definitions, print paths and values, and make digests.
//!
//! The laws say what holds of every input. [`lookup_laws`], [`number_laws`], [`path_laws`] and
//! [`error_laws`] are about what is found, read and said; [`field_laws`], [`collect_laws`],
//! [`build_laws`] and [`part_laws`] about how messages are built; [`wire_laws`] and [`markup_laws`]
//! about how they are written and shown; [`outcome_laws`] and [`interaction_laws`] about
//! interactions; and [`view_laws`] about the models that all of them speak of.
pub mod build_laws;
pub mod collect_laws;
pub mod decimal;
pub mod decoding;
pub mod descriptors;
pub mod digest;
pub mod encoding;
pub mod error;
pub mod error_laws;
pub mod field_laws;
pub mod fields;
pub mod files;
pub mod interaction;
pub mod interaction_laws;
pub mod lookup_laws;
pub mod markup;
pub mod markup_laws;
pub mod matching;
pub mod message_builder;
pub mod number_laws;
pub mod outcome_laws;
pub mod part_laws;
pub mod path;
pub mod path_laws;
pub mod process;
pub mod protobuf;
pub mod rules;
pub mod services;
pub mod text;
pub mod text_map;
pub mod utils;
pub mod value;
pub mod view_laws;
pub mod wire;
pub mod wire_laws;
