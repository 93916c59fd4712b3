use vstd::prelude::*;

verus! {

/// One lexical unit of the micro expression language.
///
/// Every variant carries the offset of its first character, counted in
/// Unicode scalar values from the start of the input. Literal and
/// identifier variants additionally carry the decoded value. `Illegal`
/// and `EndOfFile` are sentinels: the former marks an unrecognized
/// character or an out-of-range integer literal, the latter marks the
/// end of input and is re-observable forever.
#[derive(Debug, PartialEq)]
pub enum Lexeme {
    Illegal(usize),
    EndOfFile(usize),

    Assign(usize),   // =
    Plus(usize),     // +
    Minus(usize),    // -
    Asterisk(usize), // *
    Bang(usize),     // !
    Slash(usize),    // /
    Colon(usize),    // :
    Dot(usize),      // .
    LT(usize),       // <
    GT(usize),       // >
    LE(usize),       // <=
    GE(usize),       // >=
    EQ(usize),       // ==
    NE(usize),       // !=
    LParen(usize),   // (
    RParen(usize),   // )
    LBrace(usize),   // {
    RBrace(usize),   // }
    Let(usize),      // let

    Integer(usize, i32),
    Boolean(usize, bool),

    Identifier(usize, String),
}

/// The mathematical shape of a `Lexeme`: positions as `nat`, the integer
/// value as `int`, the identifier text as a sequence of characters.
/// Contracts and lemmas speak of this model through `Lexeme::view`.
#[allow(inconsistent_fields)]
pub enum LexemeModel {
    Illegal { pos: nat },
    EndOfFile { pos: nat },
    Assign { pos: nat },
    Plus { pos: nat },
    Minus { pos: nat },
    Asterisk { pos: nat },
    Bang { pos: nat },
    Slash { pos: nat },
    Colon { pos: nat },
    Dot { pos: nat },
    LT { pos: nat },
    GT { pos: nat },
    LE { pos: nat },
    GE { pos: nat },
    EQ { pos: nat },
    NE { pos: nat },
    LParen { pos: nat },
    RParen { pos: nat },
    LBrace { pos: nat },
    RBrace { pos: nat },
    Let { pos: nat },
    Integer { pos: nat, value: int },
    Boolean { pos: nat, value: bool },
    Identifier { pos: nat, text: Seq<char> },
}

impl LexemeModel {
    /// The start offset the token reports, whatever its variant.
    pub open spec fn pos(self) -> nat {
        match self {
            LexemeModel::Illegal { pos } => pos,
            LexemeModel::EndOfFile { pos } => pos,
            LexemeModel::Assign { pos } => pos,
            LexemeModel::Plus { pos } => pos,
            LexemeModel::Minus { pos } => pos,
            LexemeModel::Asterisk { pos } => pos,
            LexemeModel::Bang { pos } => pos,
            LexemeModel::Slash { pos } => pos,
            LexemeModel::Colon { pos } => pos,
            LexemeModel::Dot { pos } => pos,
            LexemeModel::LT { pos } => pos,
            LexemeModel::GT { pos } => pos,
            LexemeModel::LE { pos } => pos,
            LexemeModel::GE { pos } => pos,
            LexemeModel::EQ { pos } => pos,
            LexemeModel::NE { pos } => pos,
            LexemeModel::LParen { pos } => pos,
            LexemeModel::RParen { pos } => pos,
            LexemeModel::LBrace { pos } => pos,
            LexemeModel::RBrace { pos } => pos,
            LexemeModel::Let { pos } => pos,
            LexemeModel::Integer { pos, .. } => pos,
            LexemeModel::Boolean { pos, .. } => pos,
            LexemeModel::Identifier { pos, .. } => pos,
        }
    }
}

impl View for Lexeme {
    type V = LexemeModel;

    open spec fn view(&self) -> LexemeModel {
        match self {
            Lexeme::Illegal(p) => LexemeModel::Illegal { pos: *p as nat },
            Lexeme::EndOfFile(p) => LexemeModel::EndOfFile { pos: *p as nat },
            Lexeme::Assign(p) => LexemeModel::Assign { pos: *p as nat },
            Lexeme::Plus(p) => LexemeModel::Plus { pos: *p as nat },
            Lexeme::Minus(p) => LexemeModel::Minus { pos: *p as nat },
            Lexeme::Asterisk(p) => LexemeModel::Asterisk { pos: *p as nat },
            Lexeme::Bang(p) => LexemeModel::Bang { pos: *p as nat },
            Lexeme::Slash(p) => LexemeModel::Slash { pos: *p as nat },
            Lexeme::Colon(p) => LexemeModel::Colon { pos: *p as nat },
            Lexeme::Dot(p) => LexemeModel::Dot { pos: *p as nat },
            Lexeme::LT(p) => LexemeModel::LT { pos: *p as nat },
            Lexeme::GT(p) => LexemeModel::GT { pos: *p as nat },
            Lexeme::LE(p) => LexemeModel::LE { pos: *p as nat },
            Lexeme::GE(p) => LexemeModel::GE { pos: *p as nat },
            Lexeme::EQ(p) => LexemeModel::EQ { pos: *p as nat },
            Lexeme::NE(p) => LexemeModel::NE { pos: *p as nat },
            Lexeme::LParen(p) => LexemeModel::LParen { pos: *p as nat },
            Lexeme::RParen(p) => LexemeModel::RParen { pos: *p as nat },
            Lexeme::LBrace(p) => LexemeModel::LBrace { pos: *p as nat },
            Lexeme::RBrace(p) => LexemeModel::RBrace { pos: *p as nat },
            Lexeme::Let(p) => LexemeModel::Let { pos: *p as nat },
            Lexeme::Integer(p, v) => LexemeModel::Integer { pos: *p as nat, value: *v as int },
            Lexeme::Boolean(p, v) => LexemeModel::Boolean { pos: *p as nat, value: *v },
            Lexeme::Identifier(p, s) => LexemeModel::Identifier { pos: *p as nat, text: s@ },
        }
    }
}

} // verus!
