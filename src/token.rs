use vstd::prelude::*;
use vstd::string::StringSliceAdditionalSpecFns;

verus! {

/// The byte `>`.
pub const GREATER_THAN: u8 = 62;

/// The byte `<`.
pub const LESS_THAN: u8 = 60;

/// The byte `+`.
pub const PLUS: u8 = 43;

/// The byte `-`.
pub const MINUS: u8 = 45;

/// The byte `.`.
pub const PERIOD: u8 = 46;

/// The byte `,`.
pub const COMMA: u8 = 44;

/// The byte `[`.
pub const OPEN_BRACKET: u8 = 91;

/// The byte `]`.
pub const CLOSE_BRACKET: u8 = 93;

/// One instruction of a program. Every source byte maps to exactly one of
/// these; bytes without a meaning become `Comment`.
#[derive(PartialEq, Eq, Structural, Debug, Clone, Copy)]
pub enum BrainfuckToken {
    IncrementPointer,
    DecrementPointer,
    IncrementValue,
    DecrementValue,
    PrintPointer,
    GetCharacterInput,
    StartLoop,
    EndLoop,
    Comment,
}

/// The instruction that the byte `b` stands for.
pub open spec fn token_of(b: u8) -> BrainfuckToken {
    if b == GREATER_THAN {
        BrainfuckToken::IncrementPointer
    } else if b == LESS_THAN {
        BrainfuckToken::DecrementPointer
    } else if b == PLUS {
        BrainfuckToken::IncrementValue
    } else if b == MINUS {
        BrainfuckToken::DecrementValue
    } else if b == PERIOD {
        BrainfuckToken::PrintPointer
    } else if b == COMMA {
        BrainfuckToken::GetCharacterInput
    } else if b == OPEN_BRACKET {
        BrainfuckToken::StartLoop
    } else if b == CLOSE_BRACKET {
        BrainfuckToken::EndLoop
    } else {
        BrainfuckToken::Comment
    }
}

/// The instructions of a program text: one per byte, in order.
pub open spec fn tokens_of(text: Seq<u8>) -> Seq<BrainfuckToken> {
    text.map_values(|b: u8| token_of(b))
}

impl From<&u8> for BrainfuckToken {
    fn from(token: &u8) -> (r: Self)
        ensures
            r == token_of(*token),
    {
        match *token {
            OPEN_BRACKET => BrainfuckToken::StartLoop,
            CLOSE_BRACKET => BrainfuckToken::EndLoop,
            GREATER_THAN => BrainfuckToken::IncrementPointer,
            LESS_THAN => BrainfuckToken::DecrementPointer,
            PLUS => BrainfuckToken::IncrementValue,
            MINUS => BrainfuckToken::DecrementValue,
            PERIOD => BrainfuckToken::PrintPointer,
            COMMA => BrainfuckToken::GetCharacterInput,
            _ => BrainfuckToken::Comment,
        }
    }
}

impl vstd::std_specs::convert::FromSpecImpl<&u8> for BrainfuckToken {
    open spec fn obeys_from_spec() -> bool {
        true
    }

    open spec fn from_spec(v: &u8) -> Self {
        token_of(*v)
    }
}

impl BrainfuckToken {
    /// Tokenizes a program text: the result has one instruction per byte of
    /// the text, each one given by that byte alone.
    pub fn generate_tokens(to_tokenize: &str) -> (r: Vec<BrainfuckToken>)
        ensures
            r@ == tokens_of(to_tokenize.spec_bytes()),
            r@.len() == to_tokenize.spec_bytes().len(),
            forall|i: int|
                0 <= i < r@.len() ==> #[trigger] r@[i] == token_of(to_tokenize.spec_bytes()[i]),
    {
        let bytes = to_tokenize.as_bytes();
        let mut tokens: Vec<BrainfuckToken> = Vec::with_capacity(bytes.len());
        let mut i: usize = 0;
        while i < bytes.len()
            invariant
                i <= bytes@.len(),
                bytes@ == to_tokenize.spec_bytes(),
                tokens@ == tokens_of(bytes@.subrange(0, i as int)),
            decreases bytes@.len() - i,
        {
            tokens.push(BrainfuckToken::from(&bytes[i]));
            i += 1;
            assert(tokens@ =~= tokens_of(bytes@.subrange(0, i as int)));
        }
        assert(bytes@.subrange(0, i as int) =~= bytes@);
        tokens
    }
}

} // verus!
