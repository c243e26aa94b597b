//! Analysis of the class structure of a knowledge graph.
//!
//! The library builds the graph of class relations, orders the classes by
//! their distance from a root, ranks classes and edges by random walks,
//! prunes the classes round by round, analyses and scores the predicates
//! of a class, and writes out the updates that apply what was decided. It
//! also holds the text and page helpers of the web interface around it.

pub mod builder;
pub mod cache;
pub mod graph;
pub mod history;
pub mod item;
pub mod mutate;
pub mod order;
pub mod predicates;
pub mod preprocess;
pub mod probability;
pub mod prune;
pub mod queries;
pub mod reach;
pub mod scores;
pub mod store;
pub mod text;
pub mod utils;
pub mod walk;
pub mod web_ui;
