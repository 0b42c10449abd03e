//! Input prompting for text games: normalising answer lines, splitting them,
//! reading numbers, and deciding for each attempt whether the answer is
//! accepted or which corrective message is due.
pub mod answer;
pub mod instructions;
pub mod number;
pub mod text;
