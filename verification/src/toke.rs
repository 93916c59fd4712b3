use vstd::prelude::*;

verus! {

/// A wider token vocabulary than the scanner produces today: beside
/// the symbols it has a reserved word for each of `let`, `in`,
/// `where`, `if`, `then` and `else`, and a 64-bit integer literal. It
/// names the shape a downstream parser would consume once the grammar
/// grows that far.
#[derive(Debug, PartialEq)]
pub enum Token {
    Illegal(usize),
    EndOfFile(usize),

    Assign(usize),   // =
    Plus(usize),     // +
    Minus(usize),    // -
    Asterisk(usize), // *
    Slash(usize),    // /
    Colon(usize),    // :
    Dot(usize),      // .
    LT(usize),       // <
    GT(usize),       // >
    LParen(usize),   // (
    RParen(usize),   // )
    LBrace(usize),   // {
    RBrace(usize),   // }

    Identifier(usize, String),
    Integer(usize, i64),

    Let(usize),   // let
    In(usize),    // in
    Where(usize), // where
    If(usize),    // if
    Then(usize),  // then
    Else(usize),  // else
}

} // verus!
