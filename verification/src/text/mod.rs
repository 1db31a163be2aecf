//! Text handling: every operation works on the characters of a string and has
//! a contract over `Seq<char>`.

pub mod bytes;
pub mod case;
pub mod cat;
pub mod chars;
pub mod class;
pub mod find;
pub mod list;
pub mod number;
pub mod order;
pub mod percent;
pub mod replace;
pub mod split;
pub mod table;
pub mod trim;
