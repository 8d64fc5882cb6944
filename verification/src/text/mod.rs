//! Text as sequences of characters: the vocabulary the filters are stated in.
//!
//! Every function here comes with a spec function of the same module that says what it
//! computes on `Seq<char>`. The executable versions work on `&[char]`.
pub mod chars;
pub mod compose;
pub mod number;
pub mod search;
pub mod select;
pub mod split;
pub mod utf8;
