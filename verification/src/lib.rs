//! Course requirements, from catalogue prose to a schedule.
//!
//! A course description is searched for its requirement clauses
//! ([`extractor`]). A clause is split into words ([`lexer`]) and parsed by
//! a grammar ([`grammar`], [`parser`]) whose actions ([`actions`],
//! [`builder`]) build a requirement expression ([`expr`], written out by
//! [`json`]). A catalogue of courses with their requirement trees
//! ([`course`], [`catalog`]) becomes a dependency graph
//! ([`course_graph`], kept in the graph of [`digraph`]), on which the
//! scheduler ([`scheduler`]) weighs the nodes for the wanted courses and
//! lays them out in sets of courses ([`course_set`]). [`scraper`] is a
//! second, simpler reader of requirement sentences, which goes by their
//! words alone.
//!
//! Every function is verified against its contract. The contracts of the
//! few functions that call another crate are stated and not proved; they
//! stand in [`digraph`], [`course_set`], [`extractor`], [`json`] and
//! [`text`].

pub mod text;
pub mod course;
pub mod catalog;
pub mod digraph;
pub mod course_graph;
pub mod course_set;
pub mod scheduler;
pub mod expr;
pub mod json;
pub mod actions;
pub mod lexer;
pub mod grammar;
pub mod builder;
pub mod typing;
pub mod parser;
pub mod extractor;
pub mod scraper;
