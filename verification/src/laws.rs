//! What the library promises, told without the words in which its functions are
//! specified: each law takes what a contract says of some inputs and results, and
//! concludes in terms of plain fields, numbers and characters.

pub mod amounts;
pub mod decision;
pub mod health;
pub mod journal;
pub mod prompt;
pub mod run;
pub mod spending;
pub mod wording;
