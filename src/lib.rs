//! Turns a parsed markdown document into slides and lays out the terminal
//! commands that paint one slide.
pub mod draw;
pub mod elements;
pub mod parse;
pub mod slide;
pub mod tree;
