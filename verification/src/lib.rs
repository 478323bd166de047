//! Verified core of a continuous-benchmarking pipeline.
//!
//! Raw harness output is read by an [`adapter`] into [`reading`]s, the
//! iterations of a run are [`collect`]ed, their metrics are folded into one
//! result ([`fold`], [`reduce`]) and put into a [`report`]. A new value is
//! then held against the [`boundary`] of its measure, which is drawn from
//! the history of the measure as its [`threshold`] says, and a value
//! outside raises an [`alert`].
//!
//! Nothing here computes in floating point. Measurements are carried as the
//! bit patterns of finite doubles ([`number`]) and ordered by them, decimal
//! text stays text ([`literal`]), and where a mean or a deviation is needed
//! the functions say exactly what it is to be computed from and leave the
//! arithmetic to their caller. Nothing here runs a command or reads a clock
//! either: the functions decide, and their caller acts ([`run`]).

pub mod adapter;
pub mod alert;
pub mod boundary;
pub mod cli;
pub mod collect;
pub mod fold;
pub mod literal;
pub mod metric;
pub mod model;
pub mod number;
pub mod reading;
pub mod reduce;
pub mod report;
pub mod run;
pub mod text;
pub mod threshold;
pub mod time;
pub mod version;
