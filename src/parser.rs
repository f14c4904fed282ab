//! The lexical parser: a line becomes a command name, its arguments and at
//! most one output redirection.
//!
//! Parsing runs in three phases. A scan first finds the matched quote spans
//! (`quote_scan`); argument emission then walks the line once more and, for
//! each character, asks which span (if any) strictly encloses it
//! (`arg_scan`); finally the first redirection operator and its target are
//! taken out of the argument list (`spec_parse`).
use vstd::prelude::*;

use crate::error::ShellError;
use crate::quote::{quote_kind, QuotePosition, QuoteType, BACK_SLASH, DOUBLE_QUOTE, SINGLE_QUOTE};
use crate::redirection::{redirection_of, RedirectionContext, RedirectionType};
use crate::text::{chars_of, string_of, views};

verus! {

/// The state of the quote scan after a prefix of the line.
pub struct QuoteScan {
    /// The kind and offset of the quote that is open, if any.
    pub open: Option<(QuoteType, usize)>,
    /// Whether the next character is escaped by a backslash.
    pub escape: bool,
    /// The spans closed so far, in order.
    pub spans: Seq<QuotePosition>,
}

/// The quote scan over the first `i` characters of `s`.
pub open spec fn quote_scan(s: Seq<char>, i: nat) -> QuoteScan
    decreases i,
{
    if i == 0 {
        QuoteScan { open: None, escape: false, spans: Seq::empty() }
    } else {
        let st = quote_scan(s, (i - 1) as nat);
        let c = s[i - 1];
        let idx = (i - 1) as usize;
        if st.escape {
            QuoteScan { escape: false, ..st }
        } else if c == BACK_SLASH {
            QuoteScan { escape: true, ..st }
        } else {
            match quote_kind(c) {
                Some(k) => match st.open {
                    Some((q, start)) => if q == k {
                        QuoteScan {
                            open: None,
                            escape: false,
                            spans: st.spans.push(QuotePosition::spec_new(q, start, idx)),
                        }
                    } else {
                        st
                    },
                    None => QuoteScan { open: Some((k, idx)), ..st },
                },
                None => st,
            }
        }
    }
}

/// The quote spans of `s`, or `None` when a quote is left open at the end.
pub open spec fn spec_quote_positions(s: Seq<char>) -> Option<Seq<QuotePosition>> {
    let st = quote_scan(s, s.len());
    if st.open is Some {
        None
    } else {
        Some(st.spans)
    }
}

/// The first span at or after position `k` of `spans` that strictly encloses `idx`.
pub open spec fn enclosing_from(spans: Seq<QuotePosition>, idx: int, k: int) -> Option<
    QuotePosition,
>
    decreases spans.len() - k,
{
    if k < 0 || k >= spans.len() {
        None
    } else if spans[k].encloses(idx) {
        Some(spans[k])
    } else {
        enclosing_from(spans, idx, k + 1)
    }
}

/// The first span of `spans` that strictly encloses `idx`.
pub open spec fn enclosing(spans: Seq<QuotePosition>, idx: int) -> Option<QuotePosition> {
    enclosing_from(spans, idx, 0)
}

/// The state of argument emission after a prefix of the line.
pub struct ArgScan {
    pub escape: bool,
    pub current: Seq<char>,
    pub args: Seq<Seq<char>>,
}

/// Ends the current argument; an empty one is not emitted.
pub open spec fn finish_arg(st: ArgScan) -> ArgScan {
    if st.current.len() > 0 {
        ArgScan { current: Seq::empty(), args: st.args.push(st.current), ..st }
    } else {
        st
    }
}

/// One character strictly inside a quote span. Inside double quotes a
/// backslash escapes only `"` and `\`; inside single quotes nothing is special.
pub open spec fn quoted_step(st: ArgScan, c: char, double: bool) -> ArgScan {
    if c == BACK_SLASH && double && !st.escape {
        ArgScan { escape: true, ..st }
    } else if st.escape {
        if c == DOUBLE_QUOTE || c == BACK_SLASH {
            ArgScan { escape: false, current: st.current.push(c), ..st }
        } else {
            ArgScan { escape: false, current: st.current.push(BACK_SLASH).push(c), ..st }
        }
    } else {
        ArgScan { current: st.current.push(c), ..st }
    }
}

/// One character outside every quote span. A backslash escapes the next
/// character (a final one is dropped), a space ends the argument and
/// unescaped quote characters contribute nothing.
pub open spec fn plain_step(st: ArgScan, c: char, last: bool) -> ArgScan {
    if c == BACK_SLASH && !st.escape && !last {
        ArgScan { escape: true, ..st }
    } else if c == ' ' && !st.escape {
        finish_arg(st)
    } else if (c != SINGLE_QUOTE && c != DOUBLE_QUOTE && c != BACK_SLASH) || st.escape {
        ArgScan { escape: false, current: st.current.push(c), ..st }
    } else {
        st
    }
}

/// Argument emission over the first `i` characters of `s`, given its quote spans.
pub open spec fn arg_scan(spans: Seq<QuotePosition>, s: Seq<char>, i: nat) -> ArgScan
    decreases i,
{
    if i == 0 {
        ArgScan { escape: false, current: Seq::empty(), args: Seq::empty() }
    } else {
        let st = arg_scan(spans, s, (i - 1) as nat);
        let idx = i - 1;
        match enclosing(spans, idx) {
            Some(p) => quoted_step(st, s[idx], p.is_double()),
            None => plain_step(st, s[idx], idx == s.len() - 1),
        }
    }
}

/// The arguments that emission produces from `s` with the quote spans `spans`.
pub open spec fn spec_parse_args(spans: Seq<QuotePosition>, s: Seq<char>) -> Seq<Seq<char>> {
    finish_arg(arg_scan(spans, s, s.len())).args
}

/// The position of the first redirection operator at or after `k`.
pub open spec fn first_redirection_from(args: Seq<Seq<char>>, k: int) -> Option<int>
    decreases args.len() - k,
{
    if k < 0 || k >= args.len() {
        None
    } else if redirection_of(args[k]) is Some {
        Some(k)
    } else {
        first_redirection_from(args, k + 1)
    }
}

pub open spec fn first_redirection(args: Seq<Seq<char>>) -> Option<int> {
    first_redirection_from(args, 0)
}

/// What redirection extraction makes of an argument list: the remaining
/// arguments and the target with its redirection, or the error.
pub open spec fn spec_extract_redirection(args: Seq<Seq<char>>) -> Result<
    (Seq<Seq<char>>, Option<(Seq<char>, RedirectionType)>),
    ShellError,
> {
    match first_redirection(args) {
        None => Ok((args, None)),
        Some(p) => if p + 1 >= args.len() {
            Err(ShellError::MissingRedirectionTarget)
        } else {
            Ok((args.remove(p).remove(p), Some((args[p + 1], redirection_of(args[p])->Some_0))))
        },
    }
}

/// The full parse of a line: all words (command name first) and the redirection.
pub open spec fn spec_parse(s: Seq<char>) -> Result<
    (Seq<Seq<char>>, Option<(Seq<char>, RedirectionType)>),
    ShellError,
> {
    match spec_quote_positions(s) {
        None => Err(ShellError::MissingClosingQuote),
        Some(spans) => spec_extract_redirection(spec_parse_args(spans, s)),
    }
}

/// A command name with its arguments. A blank line gives an empty name and
/// no arguments.
#[derive(Debug)]
pub struct ParsedCommand(pub String, pub Vec<String>);

impl ParsedCommand {
    pub fn new(command: &str, args: Vec<String>) -> (r: Self)
        ensures
            r.0@ == command@,
            r.1@ == args@,
    {
        ParsedCommand(String::from_str(command), args)
    }

    pub fn args(&self) -> (r: &[String])
        ensures
            r@ == self.1@,
    {
        self.1.as_slice()
    }

    pub fn command(&self) -> (r: &str)
        ensures
            r@ == self.0@,
    {
        self.0.as_str()
    }

    /// Whether the line held no words at all.
    pub fn is_blank(&self) -> (r: bool)
        ensures
            r == (self.0@.len() == 0),
    {
        self.0.as_str().is_empty()
    }
}

/// Argument emission in progress: the pending escape, the argument being
/// built and the arguments finished so far.
pub struct ParserState {
    pub escape_next: bool,
    pub current_arg: Vec<char>,
    pub parsed_args: Vec<String>,
}

impl ParserState {
    pub open spec fn view(&self) -> ArgScan {
        ArgScan {
            escape: self.escape_next,
            current: self.current_arg@,
            args: views(self.parsed_args@),
        }
    }

    pub fn new() -> (r: Self)
        ensures
            !r.escape_next,
            r.current_arg@.len() == 0,
            r.parsed_args@.len() == 0,
    {
        ParserState { escape_next: false, current_arg: Vec::new(), parsed_args: Vec::new() }
    }

    /// Ends the current argument, unless it is empty.
    pub fn finalize_arg(&mut self)
        ensures
            final(self).view() == finish_arg(old(self).view()),
    {
        if self.current_arg.len() > 0 {
            let ghost before = self.view();
            let arg = string_of(&self.current_arg);
            self.parsed_args.push(arg);
            self.current_arg = Vec::new();
            assert(views(self.parsed_args@) =~= before.args.push(before.current));
            assert(self.current_arg@ =~= Seq::<char>::empty());
        }
    }

    /// One character strictly inside a quote span.
    pub fn handle_quote(&mut self, c: char, double: bool)
        ensures
            final(self).view() == quoted_step(old(self).view(), c, double),
    {
        if c == BACK_SLASH && double && !self.escape_next {
            self.escape_next = true;
        } else if self.escape_next {
            if c == DOUBLE_QUOTE || c == BACK_SLASH {
                self.current_arg.push(c);
            } else {
                self.current_arg.push(BACK_SLASH);
                self.current_arg.push(c);
            }
            self.escape_next = false;
        } else {
            self.current_arg.push(c);
        }
    }

    /// One character outside every quote span; `last` tells whether it ends the line.
    pub fn handle_regular(&mut self, c: char, last: bool)
        ensures
            final(self).view() == plain_step(old(self).view(), c, last),
    {
        if c == BACK_SLASH && !self.escape_next && !last {
            self.escape_next = true;
        } else if c == ' ' && !self.escape_next {
            self.finalize_arg();
        } else if (c != SINGLE_QUOTE && c != DOUBLE_QUOTE && c != BACK_SLASH) || self.escape_next {
            self.current_arg.push(c);
            self.escape_next = false;
        }
    }
}

/// The line parser.
pub struct InputParser;

impl InputParser {
    pub fn new() -> Self {
        InputParser
    }

    /// The matched quote spans of `args`, in order, or `MissingClosingQuote`
    /// when a quote is still open at the end of the line.
    pub fn quote_positions(&self, args: &str) -> (r: Result<Vec<QuotePosition>, ShellError>)
        ensures
            match spec_quote_positions(args@) {
                Some(spans) => r is Ok && r->Ok_0@ == spans,
                None => r == Err::<Vec<QuotePosition>, ShellError>(ShellError::MissingClosingQuote),
            },
    {
        let chars = chars_of(args);
        let mut opening_quote: Option<(QuoteType, usize)> = None;
        let mut escape_next_quote = false;
        let mut quote_positions: Vec<QuotePosition> = Vec::new();
        let mut idx: usize = 0;
        while idx < chars.len()
            invariant
                idx <= chars@.len(),
                chars@ == args@,
                ({
                    let st = quote_scan(args@, idx as nat);
                    st.open == opening_quote && st.escape == escape_next_quote && st.spans
                        == quote_positions@
                }),
            decreases chars@.len() - idx,
        {
            let c = chars[idx];
            if escape_next_quote {
                escape_next_quote = false;
            } else if c == BACK_SLASH {
                escape_next_quote = true;
            } else {
                match QuoteType::of_char(c) {
                    Some(kind) => match opening_quote {
                        Some((quote, start)) => {
                            if quote == kind {
                                quote_positions.push(QuotePosition::new(quote, start, idx));
                                opening_quote = None;
                            }
                        },
                        None => {
                            opening_quote = Some((kind, idx));
                        },
                    },
                    None => {},
                }
            }
            idx += 1;
        }
        if opening_quote.is_some() {
            return Err(ShellError::MissingClosingQuote);
        }
        Ok(quote_positions)
    }

    /// The first span of `spans` that strictly encloses offset `idx`.
    fn enclosing_span(spans: &[QuotePosition], idx: usize) -> (r: Option<QuotePosition>)
        ensures
            r == enclosing(spans@, idx as int),
    {
        let mut k: usize = 0;
        while k < spans.len()
            invariant
                k <= spans@.len(),
                enclosing(spans@, idx as int) == enclosing_from(spans@, idx as int, k as int),
            decreases spans@.len() - k,
        {
            let p = spans[k];
            if p.start() < idx && idx < p.end() {
                return Some(p);
            }
            k += 1;
        }
        None
    }

    /// The arguments of `args`, read with the quote spans `quote_positions`.
    pub fn parse_args(&self, quote_positions: &[QuotePosition], args: &str) -> (r: Vec<String>)
        ensures
            views(r@) == spec_parse_args(quote_positions@, args@),
    {
        let chars = chars_of(args);
        let n = chars.len();
        let mut state = ParserState::new();
        assert(state.view() == arg_scan(quote_positions@, args@, 0)) by {
            assert(state.view().current =~= Seq::<char>::empty());
            assert(state.view().args =~= Seq::<Seq<char>>::empty());
        }
        let mut idx: usize = 0;
        while idx < n
            invariant
                n == chars@.len(),
                idx <= n,
                chars@ == args@,
                state.view() == arg_scan(quote_positions@, args@, idx as nat),
            decreases n - idx,
        {
            let c = chars[idx];
            match InputParser::enclosing_span(quote_positions, idx) {
                Some(p) => state.handle_quote(c, p.is_doulbe_quote()),
                None => state.handle_regular(c, idx == n - 1),
            }
            idx += 1;
        }
        state.finalize_arg();
        state.parsed_args
    }

    /// Takes the first redirection operator and its target out of `args`.
    pub fn parse_redirection(&self, args: &mut Vec<String>) -> (r: Result<
        Option<RedirectionContext>,
        ShellError,
    >)
        ensures
            match spec_extract_redirection(views(old(args)@)) {
                Ok((rest, red)) => r is Ok && views(final(args)@) == rest && match red {
                    None => r->Ok_0 is None,
                    Some((path, kind)) => r->Ok_0 is Some && r->Ok_0->Some_0.path@ == path
                        && r->Ok_0->Some_0.redirection_type == kind,
                },
                Err(e) => r == Err::<Option<RedirectionContext>, ShellError>(e),
            },
    {
        let ghost a = views(args@);
        let mut k: usize = 0;
        while k < args.len()
            invariant
                k <= args@.len(),
                a == views(args@),
                a == views(old(args)@),
                first_redirection(a) == first_redirection_from(a, k as int),
            decreases args@.len() - k,
        {
            assert(a[k as int] == args@[k as int]@);
            match RedirectionType::from_token(args[k].as_str()) {
                Some(kind) => {
                    if k + 1 >= args.len() {
                        return Err(ShellError::MissingRedirectionTarget);
                    }
                    assert(a[k + 1] == args@[k + 1]@);
                    let _operator = args.remove(k);
                    let target = args.remove(k);
                    assert(views(args@) =~= a.remove(k as int).remove(k as int));
                    assert(target@ == a[k + 1]);
                    return Ok(Some(RedirectionContext::new(target, kind)));
                },
                None => {},
            }
            k += 1;
        }
        Ok(None)
    }

    /// Parses one line: its command name, arguments and redirection. A blank
    /// line gives a blank command.
    pub fn parse(&self, input: &str) -> (r: Result<
        (ParsedCommand, Option<RedirectionContext>),
        ShellError,
    >)
        ensures
            match spec_parse(input@) {
                Ok((words, red)) => r is Ok && ({
                    let (cmd, rr) = r->Ok_0;
                    &&& words.len() == 0 ==> cmd.0@.len() == 0 && cmd.1@.len() == 0
                    &&& words.len() > 0 ==> cmd.0@ == words[0] && views(cmd.1@)
                        == words.drop_first()
                    &&& match red {
                        None => rr is None,
                        Some((path, kind)) => rr is Some && rr->Some_0.path@ == path
                            && rr->Some_0.redirection_type == kind,
                    }
                }),
                Err(e) => r is Err && r->Err_0 == e,
            },
    {
        let quote_positions = self.quote_positions(input)?;
        let mut parsed_args = self.parse_args(quote_positions.as_slice(), input);
        let redirection = self.parse_redirection(&mut parsed_args)?;
        if parsed_args.len() == 0 {
            return Ok((ParsedCommand(String::new(), parsed_args), redirection));
        }
        let ghost before = views(parsed_args@);
        let command = parsed_args.remove(0);
        assert(views(parsed_args@) =~= before.drop_first());
        Ok((ParsedCommand(command, parsed_args), redirection))
    }
}

} // verus!

verus! {

/// Parsing a line either succeeds with every quote of the line closed, or
/// fails because a quote is left open; the one other failure, a redirection
/// operator without a target, is set aside.
pub proof fn lemma_quote_balance(s: Seq<char>)
    requires
        spec_parse(s) != Err::<(Seq<Seq<char>>, Option<(Seq<char>, RedirectionType)>), ShellError>(
            ShellError::MissingRedirectionTarget,
        ),
    ensures
        spec_parse(s) is Ok ==> quote_scan(s, s.len()).open is None,
        spec_parse(s) is Err ==> spec_parse(s) == Err::<
            (Seq<Seq<char>>, Option<(Seq<char>, RedirectionType)>),
            ShellError,
        >(ShellError::MissingClosingQuote),
        spec_parse(s) == Err::<(Seq<Seq<char>>, Option<(Seq<char>, RedirectionType)>), ShellError>(
            ShellError::MissingClosingQuote,
        ) <==> quote_scan(s, s.len()).open is Some,
{
}

} // verus!
