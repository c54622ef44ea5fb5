//! A parser for Redcode loadfiles in the ICWS '88 and '94 dialects.
//!
//! A loadfile is a sequence of lines, each an instruction, a comment, one of
//! the pseudo-ops `ORG`, `PIN` and `END`, or empty.  Keywords are read without
//! regard to case.  The grammar is stated as functions on sequences of bytes;
//! the parsers are proved to compute them.

pub mod line_parser;
pub mod loadfile_parser;
pub mod loadfile_primitives;
