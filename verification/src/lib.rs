//! Rule resolution and content assembly for multilingual liturgical slide
//! presentations.
//!
//! A presentation is a sequence of slides rendered in several languages.
//! Most slides carry their own text. A dynamic slide takes its text from a
//! gitsawe, an appointed liturgical reading, which the rules of the library
//! select for the day at hand.
//!
//! The way from data to rendering, one module for each step:
//!
//! - [`predicate`]: the context of a run and the conditions that rules put
//!   on it;
//! - [`matcher`]: the rules that apply to a presentation or to a slide;
//! - [`resolver`]: the one rule among them that wins;
//! - [`content`]: the gitsawe that the winning rule appoints, and its
//!   verses;
//! - [`layout`]: the template and the block layout that a slide renders
//!   into;
//! - [`substitute`]: variables in place of their placeholders;
//! - [`assemble`]: the render-ready form of one slide;
//! - [`presentation`]: all slides of a presentation, in order.
//!
//! [`model`] holds the records, [`error`] the failures, and [`laws`] what
//! has been proved of the whole. [`index`], [`arrange`] and [`text`] are
//! the tools the steps share: lookup by key, arrangement by an integer key,
//! and lexicographic order.
//!
//! Every function is a pure function of its arguments. Contracts are
//! stated over the mathematical model of each record, which its
//! `deep_view` gives.

pub mod arrange;
pub mod assemble;
pub mod content;
pub mod error;
pub mod greeting;
pub mod index;
pub mod laws;
pub mod layout;
pub mod matcher;
pub mod model;
pub mod predicate;
pub mod presentation;
pub mod resolver;
pub mod substitute;
pub mod text;
