//! A minimal HTTP URL parser: one text string in, either its five
//! components or a classified failure out.

pub mod pattern;
pub mod theorems;
pub mod url;
