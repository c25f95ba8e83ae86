//! What the library promises, said of plain inputs and results: of the fields that
//! a value holds, of the settings as they stand, and of the steps that follow.
pub mod text;
pub mod fields;
pub mod dc;
pub mod choice;
pub mod douban;
pub mod refresh;
