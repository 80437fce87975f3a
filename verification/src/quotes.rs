use vstd::prelude::*;

use crate::lexer::{is_shell_space, LexerState};
use crate::text::chars_to_string;

verus! {

/// One pipe-delimited segment of a raw line, as the quote splitter sees
/// it: its words in order, and the output and error redirect files it
/// named, each with its append flag.
#[derive(Debug, Clone)]
pub struct Token {
    pub content: Vec<String>,
    pub redirect: Option<String>,
    pub redirect_err: Option<String>,
    pub append_out: bool,
    pub append_err: bool,
}

/// Mathematical counterpart of `Token`.
#[verifier::ext_equal]
pub struct SpecLineToken {
    pub content: Seq<Seq<char>>,
    pub redirect: Option<Seq<char>>,
    pub redirect_err: Option<Seq<char>>,
    pub append_out: bool,
    pub append_err: bool,
}

impl View for Token {
    type V = SpecLineToken;

    open spec fn view(&self) -> SpecLineToken {
        SpecLineToken {
            content: self.content.deep_view(),
            redirect: self.redirect.deep_view(),
            redirect_err: self.redirect_err.deep_view(),
            append_out: self.append_out,
            append_err: self.append_err,
        }
    }
}

impl DeepView for Token {
    type V = SpecLineToken;

    open spec fn deep_view(&self) -> SpecLineToken {
        self.view()
    }
}

/// A segment with nothing in it yet.
pub open spec fn empty_line_token() -> SpecLineToken {
    SpecLineToken {
        content: Seq::empty(),
        redirect: Option::None,
        redirect_err: Option::None,
        append_out: false,
        append_err: false,
    }
}

impl Token {
    /// A fresh, empty segment.
    pub fn new() -> (t: Self)
        ensures
            t@ == empty_line_token(),
    {
        let t = Token {
            content: Vec::new(),
            redirect: None,
            redirect_err: None,
            append_out: false,
            append_err: false,
        };
        proof {
            assert(t@ =~= empty_line_token());
        }
        t
    }

    /// Appends one word to the segment.
    pub fn add_content(&mut self, content: String)
        ensures
            final(self)@ == (SpecLineToken {
                content: old(self)@.content.push(content@),
                ..old(self)@
            }),
    {
        let ghost cg = content@;
        self.content.push(content);
        proof {
            assert(self@ =~= (SpecLineToken { content: old(self)@.content.push(cg), ..old(self)@ }));
        }
    }

    /// Records the file standard output is redirected to.
    pub fn set_redirect(&mut self, redirect: String)
        ensures
            final(self)@ == (SpecLineToken {
                redirect: Option::Some(redirect@),
                ..old(self)@
            }),
    {
        let ghost rg = redirect@;
        self.redirect = Some(redirect);
        proof {
            assert(self@ =~= (SpecLineToken { redirect: Option::Some(rg), ..old(self)@ }));
        }
    }

    /// Records the file standard error is redirected to.
    pub fn set_redirect_err(&mut self, redirect_err: String)
        ensures
            final(self)@ == (SpecLineToken {
                redirect_err: Option::Some(redirect_err@),
                ..old(self)@
            }),
    {
        let ghost rg = redirect_err@;
        self.redirect_err = Some(redirect_err);
        proof {
            assert(self@ =~= (SpecLineToken { redirect_err: Option::Some(rg), ..old(self)@ }));
        }
    }
}

/// Where a flushed word goes: into the pending output or error redirect
/// slot when one of those is being read, else onto the word list; an
/// empty buffer goes nowhere.
pub open spec fn flush_buf(
    tok: SpecLineToken,
    buf: Seq<char>,
    redirect: bool,
    redirect_err: bool,
) -> (SpecLineToken, bool, bool) {
    if buf.len() == 0 {
        (tok, redirect, redirect_err)
    } else if redirect {
        ((SpecLineToken { redirect: Option::Some(buf), ..tok }), false, redirect_err)
    } else if redirect_err {
        ((SpecLineToken { redirect_err: Option::Some(buf), ..tok }), redirect, false)
    } else {
        ((SpecLineToken { content: tok.content.push(buf), ..tok }), redirect, redirect_err)
    }
}

/// Where the buffer goes at end of input: like `flush_buf`, but the
/// word, even an empty one, is always recorded.
pub open spec fn final_token(
    tok: SpecLineToken,
    buf: Seq<char>,
    redirect: bool,
    redirect_err: bool,
) -> SpecLineToken {
    if redirect {
        SpecLineToken { redirect: Option::Some(buf), ..tok }
    } else if redirect_err {
        SpecLineToken { redirect_err: Option::Some(buf), ..tok }
    } else {
        SpecLineToken { content: tok.content.push(buf), ..tok }
    }
}

/// The effect of one unquoted `>`: a second `>` in a row turns the
/// pending redirect into an append; otherwise a buffer ending in `1` or
/// `2` names the descriptor being redirected, an empty buffer starts a
/// plain output redirect, and whatever is left of the buffer becomes a
/// word.
pub open spec fn step_redirect_marker(
    tok: SpecLineToken,
    buf: Seq<char>,
    redirect: bool,
    redirect_err: bool,
) -> (SpecLineToken, Seq<char>, bool, bool) {
    if redirect {
        ((SpecLineToken { append_out: true, ..tok }), buf, redirect, redirect_err)
    } else if redirect_err {
        ((SpecLineToken { append_err: true, ..tok }), buf, redirect, redirect_err)
    } else {
        let (tok1, buf1, red1, rederr1) = if buf.len() > 0 {
            if buf.last() == '1' {
                (
                    (SpecLineToken { append_out: false, ..tok }),
                    buf.drop_last(),
                    true,
                    redirect_err,
                )
            } else if buf.last() == '2' {
                (
                    (SpecLineToken { append_err: false, ..tok }),
                    buf.drop_last(),
                    redirect,
                    true,
                )
            } else {
                (tok, buf, redirect, redirect_err)
            }
        } else {
            ((SpecLineToken { append_out: false, ..tok }), buf, true, redirect_err)
        };
        let tok2 = if buf1.len() > 0 {
            SpecLineToken { content: tok1.content.push(buf1), ..tok1 }
        } else {
            tok1
        };
        (tok2, Seq::empty(), red1, rederr1)
    }
}

/// One full run of the quote splitter over `cs` from position `i`: the
/// same quoting states as the lexer, but words grouped into
/// pipe-delimited segments, with `>`-redirects folded into each
/// segment's redirect slots.
pub open spec fn split_from(
    cs: Seq<char>,
    i: int,
    st: LexerState,
    buf: Seq<char>,
    tok: SpecLineToken,
    res: Seq<SpecLineToken>,
    redirect: bool,
    redirect_err: bool,
) -> Seq<SpecLineToken>
    decreases cs.len() - i,
    when 0 <= i <= cs.len()
{
    if i == cs.len() {
        res.push(final_token(tok, buf, redirect, redirect_err))
    } else {
        let c = cs[i];
        match st {
            LexerState::Normal => {
                if is_shell_space(c) || c == '|' {
                    let (t2, r1, r2) = flush_buf(tok, buf, redirect, redirect_err);
                    if c == '|' {
                        split_from(
                            cs,
                            i + 1,
                            LexerState::Normal,
                            Seq::empty(),
                            empty_line_token(),
                            res.push(t2),
                            r1,
                            r2,
                        )
                    } else {
                        split_from(cs, i + 1, LexerState::Normal, Seq::empty(), t2, res, r1, r2)
                    }
                } else if c == '\'' {
                    split_from(cs, i + 1, LexerState::SingleQuote, buf, tok, res, redirect, redirect_err)
                } else if c == '"' {
                    split_from(cs, i + 1, LexerState::DoubleQuote, buf, tok, res, redirect, redirect_err)
                } else if c == '\\' {
                    split_from(cs, i + 1, LexerState::Escaping, buf, tok, res, redirect, redirect_err)
                } else if c == '>' {
                    let (t2, b2, r1, r2) = step_redirect_marker(tok, buf, redirect, redirect_err);
                    split_from(cs, i + 1, LexerState::Normal, b2, t2, res, r1, r2)
                } else {
                    split_from(cs, i + 1, LexerState::Normal, buf.push(c), tok, res, redirect, redirect_err)
                }
            },
            LexerState::SingleQuote => {
                if c == '\'' {
                    split_from(cs, i + 1, LexerState::Normal, buf, tok, res, redirect, redirect_err)
                } else {
                    split_from(cs, i + 1, LexerState::SingleQuote, buf.push(c), tok, res, redirect, redirect_err)
                }
            },
            LexerState::DoubleQuote => {
                if c == '"' {
                    split_from(cs, i + 1, LexerState::Normal, buf, tok, res, redirect, redirect_err)
                } else if c == '\\' {
                    split_from(cs, i + 1, LexerState::DoubleQuoteEscaping, buf, tok, res, redirect, redirect_err)
                } else {
                    split_from(cs, i + 1, LexerState::DoubleQuote, buf.push(c), tok, res, redirect, redirect_err)
                }
            },
            LexerState::DoubleQuoteEscaping => {
                if c == '"' || c == '\\' {
                    split_from(cs, i + 1, LexerState::DoubleQuote, buf.push(c), tok, res, redirect, redirect_err)
                } else {
                    split_from(cs, i + 1, LexerState::DoubleQuote, buf.push('\\').push(c), tok, res, redirect, redirect_err)
                }
            },
            LexerState::Escaping => {
                split_from(cs, i + 1, LexerState::Normal, buf.push(c), tok, res, redirect, redirect_err)
            },
        }
    }
}

/// The segments of a whole raw line.
pub open spec fn split_spec(cs: Seq<char>) -> Seq<SpecLineToken> {
    split_from(cs, 0, LexerState::Normal, Seq::empty(), empty_line_token(), Seq::empty(), false, false)
}

/// Flushes the word buffer into the segment, as `flush_buf` states, and
/// empties the buffer.
fn flush_word(token: &mut Token, buf: &mut Vec<char>, redirect: &mut bool, redirect_err: &mut bool)
    ensures
        final(token)@ == flush_buf(old(token)@, old(buf)@, *old(redirect), *old(redirect_err)).0,
        *final(redirect) == flush_buf(old(token)@, old(buf)@, *old(redirect), *old(redirect_err)).1,
        *final(redirect_err) == flush_buf(
            old(token)@,
            old(buf)@,
            *old(redirect),
            *old(redirect_err),
        ).2,
        final(buf)@ == Seq::<char>::empty(),
{
    if buf.len() > 0 {
        let w = chars_to_string(buf);
        if *redirect {
            token.set_redirect(w);
            *redirect = false;
        } else if *redirect_err {
            token.set_redirect_err(w);
            *redirect_err = false;
        } else {
            token.add_content(w);
        }
    }
    buf.clear();
}

/// Splits a raw line into pipe-delimited segments, resolving quoting
/// and escaping, exactly as `split_spec` states: unquoted whitespace
/// separates words, adjacent quoted and unquoted fragments join into one
/// word, `|` closes a segment, and unquoted `>` markers (with an
/// optional `1`/`2` stuck to the word before, or doubled for appending)
/// fill the segment's redirect slots.
pub fn split_quotes(line: &str) -> (r: Vec<Token>)
    ensures
        r.deep_view() == split_spec(line@),
{
    let n: usize = line.unicode_len();
    let mut token = Token::new();
    let mut state = LexerState::Normal;
    let mut string: Vec<char> = Vec::new();
    let mut res: Vec<Token> = Vec::new();
    let mut redirect = false;
    let mut redirect_err = false;
    let mut i: usize = 0;
    proof {
        assert(res.deep_view() =~= Seq::<SpecLineToken>::empty());
    }
    while i < n
        invariant
            0 <= i <= n,
            n == line@.len(),
            split_spec(line@) == split_from(
                line@,
                i as int,
                state,
                string@,
                token@,
                res.deep_view(),
                redirect,
                redirect_err,
            ),
        decreases n - i,
    {
        let ch = line.get_char(i);
        match state {
            LexerState::Normal => {
                if crate::lexer::shell_space(ch) || ch == '|' {
                    flush_word(&mut token, &mut string, &mut redirect, &mut redirect_err);
                    if ch == '|' {
                        let ghost tg = token;
                        let ghost pre = res@;
                        res.push(token);
                        proof {
                            crate::lemma_deep_view_push(pre, tg);
                        }
                        token = Token::new();
                    }
                } else if ch == '\'' {
                    state = LexerState::SingleQuote;
                } else if ch == '"' {
                    state = LexerState::DoubleQuote;
                } else if ch == '\\' {
                    state = LexerState::Escaping;
                } else if ch == '>' {
                    if redirect {
                        token.append_out = true;
                    } else if redirect_err {
                        token.append_err = true;
                    } else {
                        if string.len() > 0 {
                            let last = string[string.len() - 1];
                            if last == '1' {
                                let _ = string.pop();
                                redirect = true;
                                token.append_out = false;
                            } else if last == '2' {
                                let _ = string.pop();
                                redirect_err = true;
                                token.append_err = false;
                            }
                        } else {
                            redirect = true;
                            token.append_out = false;
                        }
                        if string.len() > 0 {
                            let w = chars_to_string(&string);
                            token.add_content(w);
                        }
                        string.clear();
                    }
                } else {
                    string.push(ch);
                }
            },
            LexerState::SingleQuote => {
                if ch == '\'' {
                    state = LexerState::Normal;
                } else {
                    string.push(ch);
                }
            },
            LexerState::DoubleQuote => {
                if ch == '"' {
                    state = LexerState::Normal;
                } else if ch == '\\' {
                    state = LexerState::DoubleQuoteEscaping;
                } else {
                    string.push(ch);
                }
            },
            LexerState::DoubleQuoteEscaping => {
                if ch == '"' || ch == '\\' {
                    string.push(ch);
                } else {
                    string.push('\\');
                    string.push(ch);
                }
                state = LexerState::DoubleQuote;
            },
            LexerState::Escaping => {
                string.push(ch);
                state = LexerState::Normal;
            },
        }
        i += 1;
    }
    let w = chars_to_string(&string);
    if redirect {
        token.set_redirect(w);
    } else if redirect_err {
        token.set_redirect_err(w);
    } else {
        token.add_content(w);
    }
    let ghost tg = token;
    let ghost pre = res@;
    res.push(token);
    proof {
        crate::lemma_deep_view_push(pre, tg);
    }
    res
}

} // verus!
