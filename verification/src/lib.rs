//! Text search across files of any format: the search core, the text cache
//! and the state of the terminal interface.

pub mod doubles;
pub mod extensions;
pub mod folding;
pub mod index;
pub mod laws;
pub mod matching;
pub mod ocr_models;
pub mod paths;
pub mod places;
pub mod ranking;
pub mod search;
pub mod text;
pub mod tui;
pub mod types;
pub mod ui;
pub mod vision_llm;
