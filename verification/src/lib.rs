//! The verified core of a terminal front end for a fleet of agent sessions.

pub mod activity;
pub mod announcing;
pub mod board;
pub mod canvas;
pub mod color;
pub mod commands;
pub mod copying;
pub mod cycle;
pub mod details;
pub mod effects;
pub mod finding;
pub mod fonts;
pub mod frame;
pub mod geometry;
pub mod gestures;
pub mod glyph;
pub mod grid;
pub mod input;
pub mod keeping;
pub mod keys;
pub mod lettering;
pub mod listing;
pub mod lists;
pub mod machines;
pub mod marking;
pub mod matching;
pub mod menu;
pub mod mouse;
pub mod moves;
pub mod noticing;
pub mod notify;
pub mod opening;
pub mod overview;
pub mod paint;
pub mod pointing;
pub mod popups;
pub mod prompts;
pub mod reporting;
pub mod rosters;
pub mod running;
pub mod screen;
pub mod scroll;
pub mod search;
pub mod seqs;
pub mod shell;
pub mod showing;
pub mod status;
pub mod steering;
pub mod strip;
pub mod strokes;
pub mod tabs;
pub mod telling;
pub mod text;
pub mod triage;
pub mod triaging;
pub mod typing;
pub mod windows;
pub mod wording;
pub mod words;
