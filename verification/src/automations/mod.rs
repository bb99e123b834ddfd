//! Flowchart automations: the expression language of their blocks, their
//! graphs, and the engine that runs them.

pub mod api;
pub mod coerce;
pub mod cycles;
pub mod dry_run;
pub mod expr;
pub mod flow;
pub mod forecast;
pub mod functions;
pub mod graph;
pub mod host;
pub mod lexer;
pub mod node;
pub mod parser;
pub mod tick;
pub mod types;
