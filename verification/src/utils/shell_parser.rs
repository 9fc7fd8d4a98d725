//! Splits a command line into arguments, with quotes, escapes and fenced
//! code blocks.

use crate::text::{find, find_from, from_chars, has_at, lemma_find_from, matches_at, string_of, to_chars};
use vstd::prelude::*;

verus! {

/// The quoting that the parser is inside of.
#[derive(Copy, Clone, PartialEq, Eq, Structural)]
pub enum Quote {
    Unquoted,
    SingleQuoted,
    DoubleQuoted,
}

impl Quote {
    /// The character that opens this quoting, as spec text.
    pub open spec fn mark(self) -> Option<Seq<char>> {
        match self {
            Quote::Unquoted => None,
            Quote::SingleQuoted => Some(seq!['\'']),
            Quote::DoubleQuoted => Some(seq!['"']),
        }
    }

    /// The text that opens this quoting; `None` outside quotes.
    pub fn to_str(&self) -> (r: Option<&'static str>)
        ensures
            r.is_some() == self.mark().is_some(),
            r matches Some(s) ==> s@ == self.mark().unwrap(),
    {
        match self {
            Quote::Unquoted => None,
            Quote::SingleQuoted => {
                proof {
                    reveal_strlit("'");
                }
                assert("'"@ =~= seq!['\'']);
                Some("'")
            },
            Quote::DoubleQuoted => {
                proof {
                    reveal_strlit("\"");
                }
                assert("\""@ =~= seq!['"']);
                Some("\"")
            },
        }
    }
}

/// Where the parser stands between two characters.
#[derive(Copy, Clone, PartialEq, Eq, Structural)]
pub enum ParseState {
    /// Between arguments.
    Start,
    /// Inside an argument.
    Arg(Quote),
    /// Behind a backslash.
    Escape(Quote),
}

/// The three backticks that open and close a code block.
pub open spec fn fence() -> Seq<char> {
    seq!['`', '`', '`']
}

/// Where the fence stands that closes the code block opening at `pos`, if
/// a block opens there: with markdown on, at the start of the text or
/// behind a space or a newline, a fence that another fence follows.
pub open spec fn block_close(
    markdown: bool,
    text: Seq<char>,
    pos: int,
    prev: Option<char>,
) -> Option<int> {
    if markdown && (prev is None || prev == Some('\n') || prev == Some(' ')) && matches_at(
        text,
        fence(),
        pos,
    ) {
        find_from(text, fence(), pos + 3)
    } else {
        None
    }
}

/// The argument that a code block gives. Where a space or a newline
/// follows the opening fence, it is what stands between the fences;
/// otherwise the whole block, fences included.
pub open spec fn block_arg(text: Seq<char>, pos: int, close: int) -> Seq<char> {
    if text[pos + 3] == '\n' || text[pos + 3] == ' ' {
        text.subrange(pos + 3, close)
    } else {
        text.subrange(pos, close + 3)
    }
}

/// One character outside a code block: the arguments, the argument being
/// built and the state after it.
pub open spec fn step(state: ParseState, c: char, args: Seq<Seq<char>>, arg: Seq<char>) -> (
    Seq<Seq<char>>,
    Seq<char>,
    ParseState,
) {
    match state {
        ParseState::Start => {
            if c == '\'' {
                (args, arg, ParseState::Arg(Quote::SingleQuoted))
            } else if c == '"' {
                (args, arg, ParseState::Arg(Quote::DoubleQuoted))
            } else if c == '\\' {
                (args, arg, ParseState::Escape(Quote::Unquoted))
            } else if c == '\t' || c == ' ' {
                (args, arg, ParseState::Start)
            } else {
                (args, arg.push(c), ParseState::Arg(Quote::Unquoted))
            }
        },
        ParseState::Arg(quote) => {
            if c == '\'' && quote == Quote::SingleQuoted {
                (args, arg, ParseState::Arg(Quote::Unquoted))
            } else if c == '"' && quote == Quote::DoubleQuoted {
                (args, arg, ParseState::Arg(Quote::Unquoted))
            } else if c == ' ' && quote == Quote::Unquoted {
                (args.push(arg), Seq::empty(), ParseState::Start)
            } else if c == '\\' {
                (args, arg, ParseState::Escape(quote))
            } else {
                (args, arg.push(c), ParseState::Arg(quote))
            }
        },
        ParseState::Escape(quote) => (args, arg.push(c), ParseState::Arg(quote)),
    }
}

/// The argument that is open when the text ends: an open quote stays in
/// front of it, and a trailing backslash behind it.
pub open spec fn last_arg(quote: Quote, arg: Seq<char>, escape: bool) -> Seq<char> {
    let body = if escape {
        arg.push('\\')
    } else {
        arg
    };
    match quote.mark() {
        None => body,
        Some(m) => m + body,
    }
}

/// The arguments once the text has ended.
pub open spec fn finish(args: Seq<Seq<char>>, arg: Seq<char>, state: ParseState) -> Seq<
    Seq<char>,
> {
    match state {
        ParseState::Start => args,
        ParseState::Arg(quote) => args.push(last_arg(quote, arg, false)),
        ParseState::Escape(quote) => args.push(last_arg(quote, arg, true)),
    }
}

/// The arguments that the rest of `text` gives, read from `pos` on with
/// `prev` the character read last. A code block is taken whole, together
/// with the one character behind its closing fence.
pub open spec fn parse_from(
    markdown: bool,
    text: Seq<char>,
    args: Seq<Seq<char>>,
    arg: Seq<char>,
    state: ParseState,
    pos: int,
    prev: Option<char>,
) -> Seq<Seq<char>>
    decreases text.len() - pos,
{
    if pos < 0 || pos >= text.len() {
        finish(args, arg, state)
    } else {
        let close = if state == ParseState::Start {
            block_close(markdown, text, pos, prev)
        } else {
            None
        };
        match close {
            Some(close) => {
                proof {
                    lemma_find_from(text, fence(), pos + 3);
                }
                parse_from(
                    markdown,
                    text,
                    args.push(block_arg(text, pos, close)),
                    arg,
                    ParseState::Start,
                    if close + 4 <= text.len() {
                        close + 4
                    } else {
                        text.len() as int
                    },
                    if close + 3 < text.len() {
                        Some(text[close + 3])
                    } else {
                        None
                    },
                )
            },
            None => {
                let (args1, arg1, state1) = step(state, text[pos], args, arg);
                parse_from(markdown, text, args1, arg1, state1, pos + 1, Some(text[pos]))
            },
        }
    }
}

/// The arguments of a command line.
pub open spec fn parse_args(markdown: bool, text: Seq<char>) -> Seq<Seq<char>> {
    parse_from(markdown, text, Seq::empty(), Seq::empty(), ParseState::Start, 0, None)
}

fn push_arg(args: &mut Vec<String>, s: String)
    ensures
        final(args).deep_view() == old(args).deep_view().push(s@),
{
    args.push(s);
    assert(args.deep_view() =~= old(args).deep_view().push(s@));
}

fn quoted(quote: Quote, arg: &Vec<char>, escape: bool) -> (s: String)
    ensures
        s@ == last_arg(quote, arg@, escape),
{
    let mut out: Vec<char> = Vec::new();
    match quote {
        Quote::Unquoted => {},
        Quote::SingleQuoted => {
            out.push('\'');
        },
        Quote::DoubleQuoted => {
            out.push('"');
        },
    }
    let ghost head = out@;
    crate::text::extend_chars(&mut out, arg);
    if escape {
        out.push('\\');
    }
    proof {
        let body = if escape {
            arg@.push('\\')
        } else {
            arg@
        };
        assert(out@ =~= head + body);
        match quote.mark() {
            None => {
                assert(head =~= Seq::<char>::empty());
                assert(head + body =~= body);
            },
            Some(m) => {
                assert(head =~= m);
            },
        }
    }
    string_of(&out)
}

/// Splits `text` into arguments. Blanks part them; single and double
/// quotes hold blanks together; a backslash takes the next character as it
/// is. With `markdown` on, a fenced code block is one argument.
pub fn parse_shell_args(markdown: bool, text: &str) -> (args: Vec<String>)
    ensures
        args.deep_view() == parse_args(markdown, text@),
{
    let chars = to_chars(text);
    let mut ticks: Vec<char> = Vec::new();
    ticks.push('`');
    ticks.push('`');
    ticks.push('`');
    assert(ticks@ =~= fence());
    let mut args: Vec<String> = Vec::new();
    let mut arg: Vec<char> = Vec::new();
    let mut state = ParseState::Start;
    let mut pos: usize = 0;
    let mut prev: Option<char> = None;
    assert(args.deep_view() =~= Seq::<Seq<char>>::empty());
    while pos < chars.len()
        invariant
            pos <= chars.len(),
            chars@ == text@,
            ticks@ == fence(),
            parse_from(markdown, text@, args.deep_view(), arg@, state, pos as int, prev)
                == parse_args(markdown, text@),
        decreases chars.len() - pos,
    {
        let c = chars[pos];
        let mut close: Option<usize> = None;
        if markdown && c == '`' {
            let at_start = match state {
                ParseState::Start => true,
                _ => false,
            };
            let after_blank = match prev {
                None => true,
                Some(p) => p == '\n' || p == ' ',
            };
            if at_start && after_blank && has_at(&chars, pos, &ticks) {
                close = find(&chars, &ticks, pos + 3);
            }
        }
        proof {
            if c != '`' {
                assert(!matches_at(text@, fence(), pos as int)) by {
                    if matches_at(text@, fence(), pos as int) {
                        assert(text@.subrange(pos as int, pos + 3)[0] == fence()[0]);
                    }
                }
            }
            lemma_find_from(text@, fence(), pos + 3);
        }
        match close {
            Some(end) => {
                let piece = if chars[pos + 3] == '\n' || chars[pos + 3] == ' ' {
                    from_chars(&chars, pos + 3, end)
                } else {
                    from_chars(&chars, pos, end + 3)
                };
                push_arg(&mut args, piece);
                prev = if end + 3 < chars.len() {
                    Some(chars[end + 3])
                } else {
                    None
                };
                pos = if end + 3 < chars.len() {
                    end + 4
                } else {
                    chars.len()
                };
                state = ParseState::Start;
            },
            None => {
                match state {
                    ParseState::Start => {
                        if c == '\'' {
                            state = ParseState::Arg(Quote::SingleQuoted);
                        } else if c == '"' {
                            state = ParseState::Arg(Quote::DoubleQuoted);
                        } else if c == '\\' {
                            state = ParseState::Escape(Quote::Unquoted);
                        } else if c == '\t' || c == ' ' {
                        } else {
                            arg.push(c);
                            state = ParseState::Arg(Quote::Unquoted);
                        }
                    },
                    ParseState::Arg(quote) => {
                        if c == '\'' && quote == Quote::SingleQuoted {
                            state = ParseState::Arg(Quote::Unquoted);
                        } else if c == '"' && quote == Quote::DoubleQuoted {
                            state = ParseState::Arg(Quote::Unquoted);
                        } else if c == ' ' && quote == Quote::Unquoted {
                            let done = string_of(&arg);
                            push_arg(&mut args, done);
                            arg = Vec::new();
                            state = ParseState::Start;
                        } else if c == '\\' {
                            state = ParseState::Escape(quote);
                        } else {
                            arg.push(c);
                        }
                    },
                    ParseState::Escape(quote) => {
                        arg.push(c);
                        state = ParseState::Arg(quote);
                    },
                }
                prev = Some(c);
                pos += 1;
            },
        }
    }
    match state {
        ParseState::Start => {},
        ParseState::Arg(quote) => {
            let last = quoted(quote, &arg, false);
            push_arg(&mut args, last);
        },
        ParseState::Escape(quote) => {
            let last = quoted(quote, &arg, true);
            push_arg(&mut args, last);
        },
    }
    args
}

} // verus!
