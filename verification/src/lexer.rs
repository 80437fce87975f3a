use vstd::prelude::*;

verus! {

/// A raw lexical token produced by `tokenize_line`. Ordering within the
/// token sequence is significant and preserved.
#[derive(Debug, Clone, PartialEq)]
pub enum RawToken {
    Word(String),
    Pipe,
    /// A bare small integer that stood immediately before a redirection
    /// operator, as in `2>err`.
    IoNumber(u8),
    Redirect(RedirectOp),
}

/// A redirection operator.
#[derive(Debug, Clone, Copy, PartialEq, Eq, Structural)]
pub enum RedirectOp {
    /// `>`
    Out,
    /// `>>`
    OutAppend,
    /// `<`
    In,
    /// `<<`
    Heredoc,
    /// `>&`
    DupOut,
    /// `<&`
    DupIn,
}

/// A malformed input line: end of input was reached while still inside a
/// quoted region or right after a backslash.
#[derive(Debug, Clone, Copy, PartialEq, Eq, Structural)]
pub enum LexError {
    UnterminatedSingleQuote,
    UnterminatedDoubleQuote,
    TrailingEscape,
}

/// The lexer's state machine states.
#[derive(Debug, Clone, Copy, PartialEq, Eq, Structural)]
pub enum LexerState {
    Normal,
    DoubleQuote,
    SingleQuote,
    Escaping,
    DoubleQuoteEscaping,
}

/// Mathematical counterpart of `RawToken`: a word is its character
/// sequence.
#[verifier::ext_equal]
pub enum SpecToken {
    Word(Seq<char>),
    Pipe,
    IoNumber(u8),
    Redirect(RedirectOp),
}

impl RawToken {
    /// An explicit copy with a contract; the derived `Clone` carries none.
    pub fn duplicate(&self) -> (t: RawToken)
        ensures
            t@ == self@,
    {
        match self {
            RawToken::Word(w) => RawToken::Word(w.clone()),
            RawToken::Pipe => RawToken::Pipe,
            RawToken::IoNumber(n) => RawToken::IoNumber(*n),
            RawToken::Redirect(op) => RawToken::Redirect(*op),
        }
    }
}

impl View for RawToken {
    type V = SpecToken;

    open spec fn view(&self) -> SpecToken {
        match self {
            RawToken::Word(w) => SpecToken::Word(w@),
            RawToken::Pipe => SpecToken::Pipe,
            RawToken::IoNumber(n) => SpecToken::IoNumber(*n),
            RawToken::Redirect(op) => SpecToken::Redirect(*op),
        }
    }
}

impl DeepView for RawToken {
    type V = SpecToken;

    open spec fn deep_view(&self) -> SpecToken {
        self.view()
    }
}

/// The characters with the Unicode `White_Space` property: those that
/// separate words in an unquoted context.
pub open spec fn is_shell_space(c: char) -> bool {
    ||| c as u32 == 0x20
    ||| (0x09 <= c as u32 && c as u32 <= 0x0d)
    ||| c as u32 == 0x85
    ||| c as u32 == 0xa0
    ||| c as u32 == 0x1680
    ||| (0x2000 <= c as u32 && c as u32 <= 0x200a)
    ||| c as u32 == 0x2028
    ||| c as u32 == 0x2029
    ||| c as u32 == 0x202f
    ||| c as u32 == 0x205f
    ||| c as u32 == 0x3000
}

/// Executable test for `is_shell_space`.
pub fn shell_space(c: char) -> (r: bool)
    ensures
        r == is_shell_space(c),
{
    let u: u32 = c as u32;
    u == 0x20 || (0x09 <= u && u <= 0x0d) || u == 0x85 || u == 0xa0 || u == 0x1680 || (0x2000 <= u
        && u <= 0x200a) || u == 0x2028 || u == 0x2029 || u == 0x202f || u == 0x205f || u == 0x3000
}

pub open spec fn is_ascii_digit(c: char) -> bool {
    0x30 <= c as u32 && c as u32 <= 0x39
}

pub open spec fn digit_value(c: char) -> nat {
    (c as u32 - 0x30) as nat
}

pub open spec fn all_ascii_digits(s: Seq<char>) -> bool {
    forall|i: int| 0 <= i < s.len() ==> is_ascii_digit(#[trigger] s[i])
}

/// The numeric value of a sequence of ASCII digits.
pub open spec fn digits_value(s: Seq<char>) -> nat
    decreases s.len(),
{
    if s.len() == 0 {
        0
    } else {
        digits_value(s.drop_last()) * 10 + digit_value(s.last())
    }
}

/// A word that stands immediately before a redirection operator is
/// reclassified as an io-number when it consists solely of ASCII digits
/// and names a small descriptor.
pub open spec fn is_io_number(s: Seq<char>) -> bool {
    s.len() > 0 && all_ascii_digits(s) && digits_value(s) <= 255
}

/// How a word flushed by a redirection operator is classified.
pub open spec fn classify_word(s: Seq<char>) -> SpecToken {
    if is_io_number(s) {
        SpecToken::IoNumber(digits_value(s) as u8)
    } else {
        SpecToken::Word(s)
    }
}

/// Append the buffered word, if any, as a plain `Word` token.
pub open spec fn flush_plain(buf: Seq<char>, toks: Seq<SpecToken>) -> Seq<SpecToken> {
    if buf.len() == 0 {
        toks
    } else {
        toks.push(SpecToken::Word(buf))
    }
}

/// Append the buffered word, if any, classified through the io-number
/// recognizer (this flush happens only at a redirection operator).
pub open spec fn flush_at_redirect(buf: Seq<char>, toks: Seq<SpecToken>) -> Seq<SpecToken> {
    if buf.len() == 0 {
        toks
    } else {
        toks.push(classify_word(buf))
    }
}

/// Which operator a redirection introducer selects, given the character
/// after it; the second component says whether that character is consumed.
pub open spec fn redirect_op_of(first: char, next: Option<char>) -> (RedirectOp, bool) {
    if first == '>' {
        match next {
            Option::Some(c) => if c == '>' {
                (RedirectOp::OutAppend, true)
            } else if c == '&' {
                (RedirectOp::DupOut, true)
            } else {
                (RedirectOp::Out, false)
            },
            Option::None => (RedirectOp::Out, false),
        }
    } else {
        match next {
            Option::Some(c) => if c == '<' {
                (RedirectOp::Heredoc, true)
            } else if c == '&' {
                (RedirectOp::DupIn, true)
            } else {
                (RedirectOp::In, false)
            },
            Option::None => (RedirectOp::In, false),
        }
    }
}

/// One full run of the lexer state machine over `cs` from position `i`,
/// carrying the current word buffer and the tokens already emitted. This
/// is the specification `tokenize_line` is proved against.
pub open spec fn lex_from(
    cs: Seq<char>,
    i: int,
    st: LexerState,
    buf: Seq<char>,
    toks: Seq<SpecToken>,
) -> Result<Seq<SpecToken>, LexError>
    decreases cs.len() - i,
    when 0 <= i <= cs.len()
{
    if i == cs.len() {
        match st {
            LexerState::Normal => Result::Ok(flush_plain(buf, toks)),
            LexerState::SingleQuote => Result::Err(LexError::UnterminatedSingleQuote),
            LexerState::DoubleQuote => Result::Err(LexError::UnterminatedDoubleQuote),
            LexerState::DoubleQuoteEscaping => Result::Err(LexError::UnterminatedDoubleQuote),
            LexerState::Escaping => Result::Err(LexError::TrailingEscape),
        }
    } else {
        let c = cs[i];
        match st {
            LexerState::Normal => {
                if is_shell_space(c) {
                    lex_from(cs, i + 1, LexerState::Normal, Seq::empty(), flush_plain(buf, toks))
                } else if c == '|' {
                    lex_from(
                        cs,
                        i + 1,
                        LexerState::Normal,
                        Seq::empty(),
                        flush_plain(buf, toks).push(SpecToken::Pipe),
                    )
                } else if c == '>' || c == '<' {
                    let next = if i + 1 < cs.len() {
                        Option::Some(cs[i + 1])
                    } else {
                        Option::None
                    };
                    let (op, took_next) = redirect_op_of(c, next);
                    let j = if took_next {
                        i + 2
                    } else {
                        i + 1
                    };
                    lex_from(
                        cs,
                        j,
                        LexerState::Normal,
                        Seq::empty(),
                        flush_at_redirect(buf, toks).push(SpecToken::Redirect(op)),
                    )
                } else if c == '\'' {
                    lex_from(cs, i + 1, LexerState::SingleQuote, buf, toks)
                } else if c == '"' {
                    lex_from(cs, i + 1, LexerState::DoubleQuote, buf, toks)
                } else if c == '\\' {
                    lex_from(cs, i + 1, LexerState::Escaping, buf, toks)
                } else {
                    lex_from(cs, i + 1, LexerState::Normal, buf.push(c), toks)
                }
            },
            LexerState::SingleQuote => {
                if c == '\'' {
                    lex_from(cs, i + 1, LexerState::Normal, buf, toks)
                } else {
                    lex_from(cs, i + 1, LexerState::SingleQuote, buf.push(c), toks)
                }
            },
            LexerState::DoubleQuote => {
                if c == '"' {
                    lex_from(cs, i + 1, LexerState::Normal, buf, toks)
                } else if c == '\\' {
                    lex_from(cs, i + 1, LexerState::DoubleQuoteEscaping, buf, toks)
                } else {
                    lex_from(cs, i + 1, LexerState::DoubleQuote, buf.push(c), toks)
                }
            },
            LexerState::Escaping => {
                lex_from(cs, i + 1, LexerState::Normal, buf.push(c), toks)
            },
            LexerState::DoubleQuoteEscaping => {
                if c == '"' || c == '\\' || c == '$' || c == '`' {
                    lex_from(cs, i + 1, LexerState::DoubleQuote, buf.push(c), toks)
                } else {
                    lex_from(cs, i + 1, LexerState::DoubleQuote, buf.push('\\').push(c), toks)
                }
            },
        }
    }
}

/// The tokens of a whole input line, or the lexical error it contains.
pub open spec fn lex_spec(cs: Seq<char>) -> Result<Seq<SpecToken>, LexError> {
    lex_from(cs, 0, LexerState::Normal, Seq::empty(), Seq::empty())
}

/// Reads a word that consists solely of ASCII digits and names a small
/// descriptor number; returns that number, or `None` for any other word.
pub fn parse_io_number(word: &str) -> (r: Option<u8>)
    ensures
        r matches Some(v) ==> is_io_number(word@) && v as nat == digits_value(word@),
        r is None ==> !is_io_number(word@),
{
    let n: usize = word.unicode_len();
    let mut i: usize = 0;
    let mut digits_only = true;
    // The running value of the digits read so far, saturated at 256 so
    // that any descriptor number over 255 is recognized as too large.
    let mut val: u32 = 0;
    while i < n
        invariant
            0 <= i <= n,
            n == word@.len(),
            digits_only == all_ascii_digits(word@.subrange(0, i as int)),
            digits_only ==> val as nat == (if digits_value(word@.subrange(0, i as int)) <= 255 {
                digits_value(word@.subrange(0, i as int))
            } else {
                256nat
            }),
            val <= 256,
        decreases n - i,
    {
        let c = word.get_char(i);
        proof {
            assert(word@.subrange(0, i as int + 1).drop_last() =~= word@.subrange(0, i as int));
            assert(word@.subrange(0, i as int + 1).last() == c);
        }
        let u: u32 = c as u32;
        if 0x30 <= u && u <= 0x39 {
            let d: u32 = u - 0x30;
            val = val * 10 + d;
            if val > 255 {
                val = 256;
            }
        } else {
            digits_only = false;
        }
        i += 1;
    }
    proof {
        assert(word@.subrange(0, n as int) =~= word@);
    }
    if n > 0 && digits_only && val <= 255 {
        Some(val as u8)
    } else {
        None
    }
}

/// Recognizes a word that consists solely of ASCII digits and fits a small
/// descriptor number, reclassifying it as an io-number; any other word
/// stays a plain word.
fn parse_word(word: &str) -> (t: RawToken)
    ensures
        t@ == classify_word(word@),
{
    match parse_io_number(word) {
        Some(fd) => RawToken::IoNumber(fd),
        None => RawToken::Word(word.to_owned()),
    }
}

/// Selects the redirection operator introduced by `first_char` (`>` or
/// `<`), greedily consuming a possible second character; the second
/// component of the result says whether `next` was consumed.
fn parse_redirect_op(first_char: char, next: Option<char>) -> (r: (RedirectOp, bool))
    requires
        first_char == '>' || first_char == '<',
    ensures
        r == redirect_op_of(first_char, next),
{
    if first_char == '>' {
        match next {
            Option::Some(c) => {
                if c == '>' {
                    (RedirectOp::OutAppend, true)
                } else if c == '&' {
                    (RedirectOp::DupOut, true)
                } else {
                    (RedirectOp::Out, false)
                }
            },
            Option::None => (RedirectOp::Out, false),
        }
    } else {
        match next {
            Option::Some(c) => {
                if c == '<' {
                    (RedirectOp::Heredoc, true)
                } else if c == '&' {
                    (RedirectOp::DupIn, true)
                } else {
                    (RedirectOp::In, false)
                }
            },
            Option::None => (RedirectOp::In, false),
        }
    }
}

/// Converts a raw input line into its token sequence, resolving quoting
/// and escaping exactly as `lex_spec` states: unquoted whitespace
/// separates words, quotes and backslashes group and escape characters,
/// `|` marks a pipe, `>`-like and `<`-like operators become redirection
/// tokens, and a digits-only word immediately before a redirection
/// operator becomes an io-number. End of input inside a quoted region or
/// right after a backslash is a lexical error.
pub fn tokenize_line(line: &str) -> (r: Result<Vec<RawToken>, LexError>)
    ensures
        r matches Ok(toks) ==> lex_spec(line@) == Ok::<Seq<SpecToken>, LexError>(toks.deep_view()),
        r matches Err(e) ==> lex_spec(line@) == Err::<Seq<SpecToken>, LexError>(e),
{
    let n: usize = line.unicode_len();
    let mut tokens: Vec<RawToken> = Vec::new();
    let mut current_word = String::new();
    let mut state = LexerState::Normal;
    let mut i: usize = 0;
    proof {
        assert(tokens.deep_view() =~= Seq::<SpecToken>::empty());
    }
    while i < n
        invariant
            0 <= i <= n,
            n == line@.len(),
            lex_spec(line@) == lex_from(
                line@,
                i as int,
                state,
                current_word@,
                tokens.deep_view(),
            ),
        decreases n - i,
    {
        let ch = line.get_char(i);
        match state {
            LexerState::Normal => {
                if shell_space(ch) {
                    if !current_word.as_str().is_empty() {
                        let tok = RawToken::Word(current_word);
                        let ghost tg = tok;
                        let ghost pre = tokens@;
                        tokens.push(tok);
                        proof {
                            crate::lemma_deep_view_push(pre, tg);
                        }
                    }
                    current_word = String::new();
                    i += 1;
                } else if ch == '|' {
                    if !current_word.as_str().is_empty() {
                        let tok = RawToken::Word(current_word);
                        let ghost tg = tok;
                        let ghost pre = tokens@;
                        tokens.push(tok);
                        proof {
                            crate::lemma_deep_view_push(pre, tg);
                        }
                    }
                    current_word = String::new();
                    let ghost pre = tokens@;
                    tokens.push(RawToken::Pipe);
                    proof {
                        crate::lemma_deep_view_push(pre, RawToken::Pipe);
                    }
                    i += 1;
                } else if ch == '>' || ch == '<' {
                    if !current_word.as_str().is_empty() {
                        let tok = parse_word(current_word.as_str());
                        let ghost tg = tok;
                        let ghost pre = tokens@;
                        tokens.push(tok);
                        proof {
                            crate::lemma_deep_view_push(pre, tg);
                        }
                    }
                    current_word = String::new();
                    let next = if i + 1 < n {
                        Some(line.get_char(i + 1))
                    } else {
                        None
                    };
                    let (op, took_next) = parse_redirect_op(ch, next);
                    let ghost pre = tokens@;
                    tokens.push(RawToken::Redirect(op));
                    proof {
                        crate::lemma_deep_view_push(pre, RawToken::Redirect(op));
                    }
                    if took_next {
                        i += 2;
                    } else {
                        i += 1;
                    }
                } else if ch == '\'' {
                    state = LexerState::SingleQuote;
                    i += 1;
                } else if ch == '"' {
                    state = LexerState::DoubleQuote;
                    i += 1;
                } else if ch == '\\' {
                    state = LexerState::Escaping;
                    i += 1;
                } else {
                    crate::text::push_char(&mut current_word, ch);
                    i += 1;
                }
            },
            LexerState::SingleQuote => {
                if ch == '\'' {
                    state = LexerState::Normal;
                } else {
                    crate::text::push_char(&mut current_word, ch);
                }
                i += 1;
            },
            LexerState::DoubleQuote => {
                if ch == '"' {
                    state = LexerState::Normal;
                } else if ch == '\\' {
                    state = LexerState::DoubleQuoteEscaping;
                } else {
                    crate::text::push_char(&mut current_word, ch);
                }
                i += 1;
            },
            LexerState::Escaping => {
                crate::text::push_char(&mut current_word, ch);
                state = LexerState::Normal;
                i += 1;
            },
            LexerState::DoubleQuoteEscaping => {
                if ch == '"' || ch == '\\' || ch == '$' || ch == '`' {
                    crate::text::push_char(&mut current_word, ch);
                } else {
                    crate::text::push_char(&mut current_word, '\\');
                    crate::text::push_char(&mut current_word, ch);
                }
                state = LexerState::DoubleQuote;
                i += 1;
            },
        }
    }
    match state {
        LexerState::Normal => {
            if !current_word.as_str().is_empty() {
                let tok = RawToken::Word(current_word);
                let ghost tg = tok;
                let ghost pre = tokens@;
                tokens.push(tok);
                proof {
                    crate::lemma_deep_view_push(pre, tg);
                }
            }
            Ok(tokens)
        },
        LexerState::SingleQuote => Err(LexError::UnterminatedSingleQuote),
        LexerState::DoubleQuote => Err(LexError::UnterminatedDoubleQuote),
        LexerState::DoubleQuoteEscaping => Err(LexError::UnterminatedDoubleQuote),
        LexerState::Escaping => Err(LexError::TrailingEscape),
    }
}

} // verus!

verus! {

/// A character that the lexer copies into the current word unchanged
/// when it stands unquoted.
pub open spec fn is_plain_char(c: char) -> bool {
    &&& !is_shell_space(c)
    &&& c != '|'
    &&& c != '>'
    &&& c != '<'
    &&& c != '\''
    &&& c != '"'
    &&& c != '\\'
}

proof fn lemma_single_quote_body(
    cs: Seq<char>,
    i: int,
    body: Seq<char>,
    buf: Seq<char>,
    toks: Seq<SpecToken>,
)
    requires
        0 <= i,
        i + body.len() + 1 <= cs.len(),
        cs[i + body.len()] == '\'',
        forall|j: int| 0 <= j < body.len() ==> cs[i + j] == body[j],
        forall|j: int| 0 <= j < body.len() ==> body[j] != '\'',
    ensures
        lex_from(cs, i, LexerState::SingleQuote, buf, toks) == lex_from(
            cs,
            i + body.len() + 1,
            LexerState::Normal,
            buf + body,
            toks,
        ),
    decreases body.len(),
{
    if body.len() == 0 {
        assert(cs[i] == '\'');
        assert(buf + body =~= buf);
    } else {
        assert(cs[i] == body[0]);
        assert(body[0] != '\'');
        lemma_single_quote_body(cs, i + 1, body.drop_first(), buf.push(body[0]), toks);
        assert(buf.push(body[0]) + body.drop_first() =~= buf + body);
    }
}

/// A single-quoted fragment only extends the word being built: lexing
/// `'body'` from the normal state appends `body` to the current word
/// buffer, emits no token, and returns to the normal state. Adjacent
/// fragments therefore concatenate with no inserted separator.
pub proof fn lemma_quoted_fragment_extends_word(
    cs: Seq<char>,
    i: int,
    body: Seq<char>,
    buf: Seq<char>,
    toks: Seq<SpecToken>,
)
    requires
        0 <= i,
        i + body.len() + 2 <= cs.len(),
        cs[i] == '\'',
        cs[i + body.len() + 1] == '\'',
        forall|j: int| 0 <= j < body.len() ==> cs[i + 1 + j] == body[j],
        forall|j: int| 0 <= j < body.len() ==> body[j] != '\'',
    ensures
        lex_from(cs, i, LexerState::Normal, buf, toks) == lex_from(
            cs,
            i + body.len() + 2,
            LexerState::Normal,
            buf + body,
            toks,
        ),
{
    assert(!is_shell_space('\''));
    lemma_single_quote_body(cs, i + 1, body, buf, toks);
}

/// An unquoted fragment of plain characters likewise only extends the
/// word being built, emitting no token.
pub proof fn lemma_plain_fragment_extends_word(
    cs: Seq<char>,
    i: int,
    body: Seq<char>,
    buf: Seq<char>,
    toks: Seq<SpecToken>,
)
    requires
        0 <= i,
        i + body.len() <= cs.len(),
        forall|j: int| 0 <= j < body.len() ==> cs[i + j] == body[j],
        forall|j: int| 0 <= j < body.len() ==> is_plain_char(#[trigger] body[j]),
    ensures
        lex_from(cs, i, LexerState::Normal, buf, toks) == lex_from(
            cs,
            i + body.len(),
            LexerState::Normal,
            buf + body,
            toks,
        ),
    decreases body.len(),
{
    if body.len() == 0 {
        assert(buf + body =~= buf);
    } else {
        assert(cs[i] == body[0]);
        assert(is_plain_char(body[0]));
        lemma_plain_fragment_extends_word(cs, i + 1, body.drop_first(), buf.push(body[0]), toks);
        assert(buf.push(body[0]) + body.drop_first() =~= buf + body);
    }
}

/// Adjacent quoted and unquoted word fragments concatenate into a single
/// word: a whole line `'b1'b2` — a single-quoted fragment directly
/// followed by plain characters — lexes to exactly one word holding both
/// fragments' characters, with nothing inserted between them.
pub proof fn lemma_adjacent_fragments_one_word(b1: Seq<char>, b2: Seq<char>)
    requires
        b1.len() + b2.len() > 0,
        forall|j: int| 0 <= j < b1.len() ==> #[trigger] b1[j] != '\'',
        forall|j: int| 0 <= j < b2.len() ==> is_plain_char(#[trigger] b2[j]),
    ensures
        lex_spec(seq!['\''] + b1 + seq!['\''] + b2) == Ok::<Seq<SpecToken>, LexError>(
            seq![SpecToken::Word(b1 + b2)],
        ),
{
    let cs = seq!['\''] + b1 + seq!['\''] + b2;
    assert(cs.len() == b1.len() + b2.len() + 2);
    assert(cs[0] == '\'');
    assert(cs[b1.len() as int + 1] == '\'');
    assert forall|j: int| 0 <= j < b1.len() implies cs[1 + j] == b1[j] by {}
    assert forall|j: int| 0 <= j < b2.len() implies cs[b1.len() as int + 2 + j] == b2[j] by {}
    lemma_quoted_fragment_extends_word(cs, 0, b1, Seq::empty(), Seq::empty());
    lemma_plain_fragment_extends_word(cs, b1.len() as int + 2, b2, Seq::empty() + b1, Seq::empty());
    assert(Seq::empty() + b1 + b2 =~= b1 + b2);
    assert((b1 + b2).len() > 0);
    assert(flush_plain(b1 + b2, Seq::empty()) =~= seq![SpecToken::Word(b1 + b2)]);
}

/// Un-quoted runs of whitespace collapse to single token separators:
/// however long the run, its whole effect is one flush of the current
/// word, and the lexer stands after the run exactly as after one space.
pub proof fn lemma_whitespace_run_collapses(
    cs: Seq<char>,
    i: int,
    k: int,
    buf: Seq<char>,
    toks: Seq<SpecToken>,
)
    requires
        0 <= i,
        1 <= k,
        i + k <= cs.len(),
        forall|j: int| 0 <= j < k ==> is_shell_space(#[trigger] cs[i + j]),
    ensures
        lex_from(cs, i, LexerState::Normal, buf, toks) == lex_from(
            cs,
            i + k,
            LexerState::Normal,
            Seq::empty(),
            flush_plain(buf, toks),
        ),
    decreases k,
{
    assert(is_shell_space(cs[i + 0]));
    if k == 1 {
    } else {
        assert forall|j: int| 0 <= j < k - 1 implies is_shell_space(#[trigger] cs[i + 1 + j]) by {
            assert(is_shell_space(cs[i + (j + 1)]));
        }
        lemma_whitespace_run_collapses(cs, i + 1, k - 1, Seq::empty(), flush_plain(buf, toks));
    }
}

} // verus!
