//! Front end and wire-format code generator for a protobuf-style interface
//! language.
//!
//! The front end turns a sequence of located tokens into a declaration tree.
//! The generator turns each message of the tree into the instructions that
//! write a value of it in the protobuf binary encoding.
//!
//! * [`lexems`]: located tokens, the input of the parser.
//! * [`package`]: the declaration tree that the parser builds.
//! * [`error`]: the errors of both parts.
//! * [`grammar`]: the grammar, as recursive-descent specification functions.
//! * [`machine`]: the tasks of the parser and the table that drives them.
//! * [`sound`]: the proof that the table follows the grammar.
//! * [`syntax`]: the iterative, stack-driven parser.
//! * [`scope`]: resolution of dotted type references along a scope chain.
//! * [`wire`]: wire types and tag arithmetic.
//! * [`encode`]: the instructions that write one field, and what they write.
//! * [`order`]: the order in which the fields of a message are written.
//! * [`compiler`]: the generator of the encode procedure of a message.
//! * [`views`]: element-wise views of sequences, used by all of the above.

pub mod views;
pub mod lexems;
pub mod error;
pub mod package;
pub mod grammar;
pub mod machine;
pub mod sound;
pub mod syntax;
pub mod scope;
pub mod wire;
pub mod encode;
pub mod order;
pub mod compiler;
