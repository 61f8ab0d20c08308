//! Quote/escape tokenizer: turns one raw input line into the ordered sequence
//! of shell words.
//!
//! The mathematical model is a character-by-character state machine
//! ([`LexState`], [`lex_step`]); the executable [`Parser`] mirrors it field by
//! field and is proved to follow it exactly.
use crate::strutil::push_char;
use vstd::prelude::*;
use vstd::string::*;

verus! {

/// Abstract tokenizer state: finished tokens, the token being built, and the
/// three quoting/escaping flags.
#[verifier::ext_equal]
pub struct LexState {
    pub tokens: Seq<Seq<char>>,
    pub cur: Seq<char>,
    pub in_single: bool,
    pub in_double: bool,
    pub escape_next: bool,
}

pub open spec fn lex_init() -> LexState {
    LexState {
        tokens: Seq::empty(),
        cur: Seq::empty(),
        in_single: false,
        in_double: false,
        escape_next: false,
    }
}

/// Whitespace that separates tokens outside of quotes.
pub open spec fn is_blank(c: char) -> bool {
    c == ' ' || c == '\t' || c == '\n'
}

/// Whether the sequence holds any such whitespace character.
pub open spec fn has_blank(s: Seq<char>) -> bool {
    exists|i: int| 0 <= i < s.len() && is_blank(#[trigger] s[i])
}

/// What an escaped character contributes to the current token: inside double
/// quotes only `\`, `"`, `$`, a backquote and a newline drop their backslash;
/// any other character keeps it. Outside quotes the backslash is always
/// dropped.
pub open spec fn escaped_emission(in_double: bool, c: char) -> Seq<char> {
    if in_double {
        if c == '\\' || c == '"' || c == '$' || c == '`' || c == '\n' {
            seq![c]
        } else {
            seq!['\\', c]
        }
    } else {
        seq![c]
    }
}

/// One transition of the tokenizer state machine on character `c`.
pub open spec fn lex_step(st: LexState, c: char) -> LexState {
    if st.escape_next {
        LexState {
            tokens: st.tokens,
            cur: st.cur + escaped_emission(st.in_double, c),
            in_single: st.in_single,
            in_double: st.in_double,
            escape_next: false,
        }
    } else if c == '\\' {
        if st.in_double || !st.in_single {
            LexState {
                tokens: st.tokens,
                cur: st.cur,
                in_single: st.in_single,
                in_double: st.in_double,
                escape_next: true,
            }
        } else {
            LexState {
                tokens: st.tokens,
                cur: st.cur.push('\\'),
                in_single: st.in_single,
                in_double: st.in_double,
                escape_next: false,
            }
        }
    } else if c == '\'' && !st.in_double {
        LexState {
            tokens: st.tokens,
            cur: st.cur,
            in_single: !st.in_single,
            in_double: st.in_double,
            escape_next: false,
        }
    } else if c == '"' && !st.in_single {
        LexState {
            tokens: st.tokens,
            cur: st.cur,
            in_single: st.in_single,
            in_double: !st.in_double,
            escape_next: false,
        }
    } else if is_blank(c) && !st.in_single && !st.in_double {
        if st.cur.len() == 0 {
            st
        } else {
            LexState {
                tokens: st.tokens.push(st.cur),
                cur: Seq::empty(),
                in_single: st.in_single,
                in_double: st.in_double,
                escape_next: false,
            }
        }
    } else {
        LexState {
            tokens: st.tokens,
            cur: st.cur.push(c),
            in_single: st.in_single,
            in_double: st.in_double,
            escape_next: false,
        }
    }
}

/// The state after running the machine over all of `s`, starting from
/// [`lex_init`].
pub open spec fn lex_run(s: Seq<char>) -> LexState
    decreases s.len(),
{
    if s.len() == 0 {
        lex_init()
    } else {
        lex_step(lex_run(s.drop_last()), s.last())
    }
}

/// End of input: a non-empty pending token is flushed, quote and escape state
/// is discarded silently.
pub open spec fn lex_finish(st: LexState) -> Seq<Seq<char>> {
    if st.cur.len() == 0 {
        st.tokens
    } else {
        st.tokens.push(st.cur)
    }
}

/// The tokens of a whole input line.
pub open spec fn tokens_of(input: Seq<char>) -> Seq<Seq<char>> {
    lex_finish(lex_run(input))
}

/// Executable tokenizer state, field for field the machine's state.
pub struct Parser {
    args: Vec<String>,
    current_arg: String,
    in_single: bool,
    in_double: bool,
    escape_next: bool,
}

impl View for Parser {
    type V = LexState;

    closed spec fn view(&self) -> LexState {
        LexState {
            tokens: self.args.deep_view(),
            cur: self.current_arg@,
            in_single: self.in_single,
            in_double: self.in_double,
            escape_next: self.escape_next,
        }
    }
}

impl Parser {
    pub fn new() -> (p: Parser)
        ensures
            p@ == lex_init(),
    {
        let p = Parser {
            args: Vec::new(),
            current_arg: String::new(),
            in_single: false,
            in_double: false,
            escape_next: false,
        };
        proof {
            assert(p@ =~= lex_init());
        }
        p
    }

    fn handle_escaped_char(&mut self, c: char)
        requires
            old(self)@.escape_next,
        ensures
            final(self)@ == lex_step(old(self)@, c),
    {
        if self.in_double {
            if c == '\\' || c == '"' || c == '$' || c == '`' || c == '\n' {
                push_char(&mut self.current_arg, c);
            } else {
                push_char(&mut self.current_arg, '\\');
                push_char(&mut self.current_arg, c);
            }
        } else {
            push_char(&mut self.current_arg, c);
        }
        self.escape_next = false;
        proof {
            assert(self.current_arg@ =~= old(self)@.cur + escaped_emission(
                old(self)@.in_double,
                c,
            ));
            assert(self@ =~= lex_step(old(self)@, c));
        }
    }

    fn handle_backslash(&mut self)
        requires
            !old(self)@.escape_next,
        ensures
            final(self)@ == lex_step(old(self)@, '\\'),
    {
        if self.in_double || !self.in_single {
            self.escape_next = true;
        } else {
            push_char(&mut self.current_arg, '\\');
        }
        proof {
            assert(self@ =~= lex_step(old(self)@, '\\'));
        }
    }

    /// Flushes the pending token on unquoted whitespace; inside quotes the
    /// whitespace character itself is kept.
    fn handle_whitespace(&mut self, c: char)
        requires
            !old(self)@.escape_next,
            is_blank(c),
        ensures
            final(self)@ == lex_step(old(self)@, c),
    {
        if !self.in_single && !self.in_double {
            if !self.current_arg.as_str().is_empty() {
                let mut token = String::new();
                core::mem::swap(&mut token, &mut self.current_arg);
                self.args.push(token);
            }
        } else {
            push_char(&mut self.current_arg, c);
        }
        proof {
            assert(self@ =~= lex_step(old(self)@, c));
        }
    }

    fn handle_regular_char(&mut self, c: char)
        requires
            !old(self)@.escape_next,
            c != '\\',
        ensures
            final(self)@ == lex_step(old(self)@, c),
    {
        if c == '\'' {
            if !self.in_double {
                self.in_single = !self.in_single;
            } else {
                push_char(&mut self.current_arg, '\'');
            }
        } else if c == '"' {
            if !self.in_single {
                self.in_double = !self.in_double;
            } else {
                push_char(&mut self.current_arg, '"');
            }
        } else if c == ' ' || c == '\t' || c == '\n' {
            self.handle_whitespace(c);
        } else {
            push_char(&mut self.current_arg, c);
        }
        proof {
            assert(self@ =~= lex_step(old(self)@, c));
        }
    }

    fn process_char(&mut self, c: char)
        ensures
            final(self)@ == lex_step(old(self)@, c),
    {
        if self.escape_next {
            self.handle_escaped_char(c);
        } else if c == '\\' {
            self.handle_backslash();
        } else {
            self.handle_regular_char(c);
        }
    }

    fn finish_parsing(self) -> (r: Vec<String>)
        ensures
            r.deep_view() == lex_finish(self@),
    {
        let mut this = self;
        if !this.current_arg.as_str().is_empty() {
            this.args.push(this.current_arg);
        }
        proof {
            assert(this.args.deep_view() =~= lex_finish(self@));
        }
        this.args
    }

    pub fn parse(self, input: &str) -> (r: Vec<String>)
        requires
            self@ == lex_init(),
        ensures
            r.deep_view() == tokens_of(input@),
    {
        let mut this = self;
        let n = input.unicode_len();
        let mut i: usize = 0;
        while i < n
            invariant
                n == input@.len(),
                i <= n,
                this@ == lex_run(input@.take(i as int)),
            decreases n - i,
        {
            let c = input.get_char(i);
            this.process_char(c);
            proof {
                let pre = input@.take(i as int);
                let post = input@.take(i as int + 1);
                assert(post.drop_last() =~= pre);
                assert(post.last() == c);
            }
            i += 1;
        }
        proof {
            assert(input@.take(n as int) =~= input@);
        }
        this.finish_parsing()
    }
}

/// Tokenizes one input line: resolves single/double quotes and backslash
/// escapes, splits on unquoted whitespace, and drops empty tokens.
pub fn parse_arguments(input: &str) -> (r: Vec<String>)
    ensures
        r.deep_view() == tokens_of(input@),
{
    let parser = Parser::new();
    parser.parse(input)
}

} // verus!
