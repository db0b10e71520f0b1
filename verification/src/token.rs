//! The lexical and syntactic units the scanner produces.

use vstd::prelude::*;

verus! {

/// The mathematical shape of a token: the same structure as [`Token`], with
/// scanned text abstracted to byte sequences.
pub enum TokenView {
    Reg(Seq<u8>),
    Comma,
    Instruction { name: Seq<u8>, left: Box<TokenView>, right: Option<Box<TokenView>> },
    Num(u8),
    Illegal,
}

/// One unit pulled from the scanner. `Reg` is a bare register mention,
/// `Comma` a separator, `Num` an immediate already clamped to 0..=255,
/// `Instruction` a fully formed instruction with its operands consumed, and
/// `Illegal` the sentinel for unrecognized input. Scanned words are kept as
/// the raw bytes of the source text.
#[derive(Debug, PartialEq, Eq)]
pub enum Token {
    Reg(Vec<u8>),
    Comma,
    Instruction { name: Vec<u8>, left: Box<Token>, right: Option<Box<Token>> },
    Num(u8),
    Illegal,
}

impl Token {
    /// The token's view, with every scanned word taken to its byte sequence.
    pub open spec fn deep(self) -> TokenView
        decreases self,
    {
        match self {
            Token::Reg(w) => TokenView::Reg(w@),
            Token::Comma => TokenView::Comma,
            Token::Instruction { name, left, right } => TokenView::Instruction {
                name: name@,
                left: Box::new((*left).deep()),
                right: match right {
                    Option::None => Option::None,
                    Option::Some(t) => Option::Some(Box::new((*t).deep())),
                },
            },
            Token::Num(v) => TokenView::Num(v),
            Token::Illegal => TokenView::Illegal,
        }
    }
}

/// The view of an optional right operand.
pub open spec fn right_view(r: Option<Box<Token>>) -> Option<Box<TokenView>>
    decreases r,
{
    match r {
        Option::None => Option::None,
        Option::Some(t) => Option::Some(Box::new((*t).deep())),
    }
}

impl View for Token {
    type V = TokenView;

    open spec fn view(&self) -> TokenView {
        self.deep()
    }
}

} // verus!
