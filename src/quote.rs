//! Quote kinds and the spans that matched quote characters delimit.
use vstd::prelude::*;

verus! {

pub const SINGLE_QUOTE: char = '\'';

pub const DOUBLE_QUOTE: char = '"';

pub const BACK_SLASH: char = '\\';

/// The two quoting modes.
#[derive(Debug, PartialEq, Eq, Clone, Copy, Structural)]
pub enum QuoteType {
    Single,
    Double,
}

/// The quote kind that `c` opens, if `c` is a quote character.
pub open spec fn quote_kind(c: char) -> Option<QuoteType> {
    if c == SINGLE_QUOTE {
        Some(QuoteType::Single)
    } else if c == DOUBLE_QUOTE {
        Some(QuoteType::Double)
    } else {
        None
    }
}

impl QuoteType {
    /// The quote kind of `c`, if it is a quote character.
    pub fn of_char(c: char) -> (r: Option<QuoteType>)
        ensures
            r == quote_kind(c),
    {
        if c == SINGLE_QUOTE {
            Some(QuoteType::Single)
        } else if c == DOUBLE_QUOTE {
            Some(QuoteType::Double)
        } else {
            None
        }
    }
}

/// The character offsets of a matched opening and closing quote.
#[derive(Debug, Clone, Copy, PartialEq, Eq, Structural)]
pub enum QuotePosition {
    SingleQuote(usize, usize),
    DoubleQuote(usize, usize),
}

impl QuotePosition {
    pub open spec fn lo(self) -> int {
        match self {
            QuotePosition::SingleQuote(s, _) => s as int,
            QuotePosition::DoubleQuote(s, _) => s as int,
        }
    }

    pub open spec fn hi(self) -> int {
        match self {
            QuotePosition::SingleQuote(_, e) => e as int,
            QuotePosition::DoubleQuote(_, e) => e as int,
        }
    }

    pub open spec fn is_double(self) -> bool {
        self is DoubleQuote
    }

    /// Whether offset `idx` lies strictly between the two quote characters.
    pub open spec fn encloses(self, idx: int) -> bool {
        self.lo() < idx < self.hi()
    }

    /// The span of kind `kind` from `start` to `end`.
    pub open spec fn spec_new(kind: QuoteType, start: usize, end: usize) -> QuotePosition {
        match kind {
            QuoteType::Single => QuotePosition::SingleQuote(start, end),
            QuoteType::Double => QuotePosition::DoubleQuote(start, end),
        }
    }

    pub fn new(kind: QuoteType, start: usize, end: usize) -> (r: QuotePosition)
        ensures
            r == QuotePosition::spec_new(kind, start, end),
    {
        match kind {
            QuoteType::Single => QuotePosition::SingleQuote(start, end),
            QuoteType::Double => QuotePosition::DoubleQuote(start, end),
        }
    }

    /// Offset of the opening quote.
    pub fn start(&self) -> (r: usize)
        ensures
            r == self.lo(),
    {
        match self {
            QuotePosition::SingleQuote(start, _) | QuotePosition::DoubleQuote(start, _) => *start,
        }
    }

    /// Offset of the closing quote.
    pub fn end(&self) -> (r: usize)
        ensures
            r == self.hi(),
    {
        match self {
            QuotePosition::SingleQuote(_, end) | QuotePosition::DoubleQuote(_, end) => *end,
        }
    }

    pub fn is_doulbe_quote(&self) -> (r: bool)
        ensures
            r == self.is_double(),
    {
        matches!(self, QuotePosition::DoubleQuote(_, _))
    }
}

} // verus!
