//! A line-oriented text reflow engine: reads text line by line and re-emits
//! it reformatted — trailing-whitespace handling, fixed-width wrapping with
//! or without word breaks, preserved hanging indentation for bulleted list
//! items, paragraph-aware re-wrapping that joins short lines, and an ordered
//! pipeline of regular-expression substitutions applied before formatting.
//!
//! The formatting core is a per-character state machine, specified by the
//! spec functions in `wrap` and `pipeline` and proved to match them; the
//! laws that hold of whole runs stand in `laws`.

pub mod chars;
pub mod config;
pub mod laws;
pub mod pipeline;
pub mod subst;
pub mod wrap;
