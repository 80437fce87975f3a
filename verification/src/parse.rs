use vstd::prelude::*;

use crate::lexer::{
    digits_value, is_io_number, parse_io_number, RawToken, RedirectOp, SpecToken,
};

verus! {

/// One simple command: its argument vector (`argv[0]` is the command
/// name) and its redirections in the order they were written. That order
/// decides the semantics: redirections are applied left to right, each
/// later one overriding the effect of an earlier one on the same
/// descriptor.
#[derive(Debug, Clone, PartialEq)]
pub struct Command {
    pub argv: Vec<String>,
    pub redirections: Vec<Redirection>,
}

/// One redirection directive. `src_fd` of `None` means the operator's
/// conventional default descriptor: 1 for output operators, 0 for input
/// operators.
#[derive(Debug, Clone, PartialEq)]
pub struct Redirection {
    pub src_fd: Option<u8>,
    pub op: RedirectOp,
    pub target: RedirectTarget,
}

/// What a redirection points at.
#[derive(Debug, Clone, PartialEq)]
pub enum RedirectTarget {
    /// `> file`
    File(String),
    /// `2>&1`
    Fd(u8),
    /// `2>&-`
    Close,
    /// Heredoc body; parsed but not materialized by the executor.
    Heredoc(String),
}

/// A whole command line: a single simple command when no pipe was found,
/// else the pipe-delimited stages in left-to-right execution order.
#[derive(Debug, Clone, PartialEq)]
pub enum CommandType {
    Simple(Command),
    Pipeline(Vec<Command>),
}

/// A malformed token sequence; fatal to the command line it came from.
#[derive(Debug, Clone, Copy, PartialEq, Eq, Structural)]
pub enum ParseError {
    /// An io-number not immediately followed by a redirection operator.
    IoNumberWithoutRedirect,
    /// A redirection operator at the end of the command, with no target.
    MissingRedirectTarget,
    /// A redirection operator followed by something other than a word.
    InvalidRedirectTarget,
    /// A pipe token inside a simple command.
    UnexpectedPipe,
}

/// Mathematical counterpart of `RedirectTarget`.
#[verifier::ext_equal]
pub enum SpecTarget {
    File(Seq<char>),
    Fd(u8),
    Close,
    Heredoc(Seq<char>),
}

/// Mathematical counterpart of `Redirection`.
#[verifier::ext_equal]
pub struct SpecRedirection {
    pub src_fd: Option<u8>,
    pub op: RedirectOp,
    pub target: SpecTarget,
}

/// Mathematical counterpart of `Command`.
#[verifier::ext_equal]
pub struct SpecCommand {
    pub argv: Seq<Seq<char>>,
    pub redirections: Seq<SpecRedirection>,
}

/// Mathematical counterpart of `CommandType`.
#[verifier::ext_equal]
pub enum SpecCommandType {
    Simple(SpecCommand),
    Pipeline(Seq<SpecCommand>),
}

impl View for RedirectTarget {
    type V = SpecTarget;

    open spec fn view(&self) -> SpecTarget {
        match self {
            RedirectTarget::File(p) => SpecTarget::File(p@),
            RedirectTarget::Fd(n) => SpecTarget::Fd(*n),
            RedirectTarget::Close => SpecTarget::Close,
            RedirectTarget::Heredoc(b) => SpecTarget::Heredoc(b@),
        }
    }
}

impl DeepView for RedirectTarget {
    type V = SpecTarget;

    open spec fn deep_view(&self) -> SpecTarget {
        self.view()
    }
}

impl View for Redirection {
    type V = SpecRedirection;

    open spec fn view(&self) -> SpecRedirection {
        SpecRedirection { src_fd: self.src_fd, op: self.op, target: self.target@ }
    }
}

impl DeepView for Redirection {
    type V = SpecRedirection;

    open spec fn deep_view(&self) -> SpecRedirection {
        self.view()
    }
}

impl View for Command {
    type V = SpecCommand;

    open spec fn view(&self) -> SpecCommand {
        SpecCommand { argv: self.argv.deep_view(), redirections: self.redirections.deep_view() }
    }
}

impl DeepView for Command {
    type V = SpecCommand;

    open spec fn deep_view(&self) -> SpecCommand {
        self.view()
    }
}

impl View for CommandType {
    type V = SpecCommandType;

    open spec fn view(&self) -> SpecCommandType {
        match self {
            CommandType::Simple(c) => SpecCommandType::Simple(c@),
            CommandType::Pipeline(cs) => SpecCommandType::Pipeline(cs.deep_view()),
        }
    }
}

impl DeepView for CommandType {
    type V = SpecCommandType;

    open spec fn deep_view(&self) -> SpecCommandType {
        self.view()
    }
}

/// The one-character word `-`, which closes a descriptor.
pub open spec fn is_dash(w: Seq<char>) -> bool {
    w.len() == 1 && w[0] == '-'
}

/// How the word after a redirection operator is read: `-` closes the
/// descriptor, a small number duplicates that descriptor, anything else
/// names a file.
pub open spec fn target_of_word(w: Seq<char>) -> SpecTarget {
    if is_dash(w) {
        SpecTarget::Close
    } else if is_io_number(w) {
        SpecTarget::Fd(digits_value(w) as u8)
    } else {
        SpecTarget::File(w)
    }
}

/// The target a token supplies, if it can supply one: only words can.
pub open spec fn target_of_token(t: SpecToken) -> Option<SpecTarget> {
    match t {
        SpecToken::Word(w) => Option::Some(target_of_word(w)),
        _ => Option::None,
    }
}

/// One run of the simple-command builder over `toks` from position `i`:
/// words join the argument vector, redirection operators (with their
/// optional io-number prefix) join the redirection list, in order.
pub open spec fn parse_simple_from(
    toks: Seq<SpecToken>,
    i: int,
    argv: Seq<Seq<char>>,
    redirs: Seq<SpecRedirection>,
) -> Result<SpecCommand, ParseError>
    decreases toks.len() - i,
    when 0 <= i <= toks.len()
{
    if i == toks.len() {
        Result::Ok(SpecCommand { argv, redirections: redirs })
    } else {
        match toks[i] {
            SpecToken::Word(w) => parse_simple_from(toks, i + 1, argv.push(w), redirs),
            SpecToken::IoNumber(fd) => {
                if i + 1 < toks.len() && toks[i + 1] is Redirect {
                    if i + 2 < toks.len() {
                        match target_of_token(toks[i + 2]) {
                            Option::Some(t) => parse_simple_from(
                                toks,
                                i + 3,
                                argv,
                                redirs.push(
                                    SpecRedirection {
                                        src_fd: Option::Some(fd),
                                        op: toks[i + 1]->Redirect_0,
                                        target: t,
                                    },
                                ),
                            ),
                            Option::None => Result::Err(ParseError::InvalidRedirectTarget),
                        }
                    } else {
                        Result::Err(ParseError::MissingRedirectTarget)
                    }
                } else {
                    Result::Err(ParseError::IoNumberWithoutRedirect)
                }
            },
            SpecToken::Redirect(op) => {
                if i + 1 < toks.len() {
                    match target_of_token(toks[i + 1]) {
                        Option::Some(t) => parse_simple_from(
                            toks,
                            i + 2,
                            argv,
                            redirs.push(
                                SpecRedirection { src_fd: Option::None, op, target: t },
                            ),
                        ),
                        Option::None => Result::Err(ParseError::InvalidRedirectTarget),
                    }
                } else {
                    Result::Err(ParseError::MissingRedirectTarget)
                }
            },
            SpecToken::Pipe => Result::Err(ParseError::UnexpectedPipe),
        }
    }
}

/// The simple command a pipe-free token sequence denotes.
pub open spec fn parse_simple_spec(toks: Seq<SpecToken>) -> Result<SpecCommand, ParseError> {
    parse_simple_from(toks, 0, Seq::empty(), Seq::empty())
}

/// Splits a token sequence on pipe markers into groups; empty groups are
/// dropped.
pub open spec fn groups_from(
    toks: Seq<SpecToken>,
    i: int,
    cur: Seq<SpecToken>,
    acc: Seq<Seq<SpecToken>>,
) -> Seq<Seq<SpecToken>>
    decreases toks.len() - i,
    when 0 <= i <= toks.len()
{
    if i == toks.len() {
        if cur.len() == 0 {
            acc
        } else {
            acc.push(cur)
        }
    } else if toks[i] is Pipe {
        groups_from(
            toks,
            i + 1,
            Seq::empty(),
            if cur.len() == 0 {
                acc
            } else {
                acc.push(cur)
            },
        )
    } else {
        groups_from(toks, i + 1, cur.push(toks[i]), acc)
    }
}

/// The pipe-delimited groups of a token sequence.
pub open spec fn pipe_groups(toks: Seq<SpecToken>) -> Seq<Seq<SpecToken>> {
    groups_from(toks, 0, Seq::empty(), Seq::empty())
}

/// Parses each group in order into a simple command; the first malformed
/// group decides the error.
pub open spec fn parse_groups_from(
    gs: Seq<Seq<SpecToken>>,
    k: int,
    acc: Seq<SpecCommand>,
) -> Result<Seq<SpecCommand>, ParseError>
    decreases gs.len() - k,
    when 0 <= k <= gs.len()
{
    if k == gs.len() {
        Result::Ok(acc)
    } else {
        match parse_simple_spec(gs[k]) {
            Result::Ok(c) => parse_groups_from(gs, k + 1, acc.push(c)),
            Result::Err(e) => Result::Err(e),
        }
    }
}

/// The command structure a whole token sequence denotes: its pipe groups,
/// each parsed as a simple command; a single group makes a simple command,
/// any other number a pipeline.
pub open spec fn parse_command_spec(toks: Seq<SpecToken>) -> Result<
    SpecCommandType,
    ParseError,
> {
    match parse_groups_from(pipe_groups(toks), 0, Seq::empty()) {
        Result::Ok(cmds) => if cmds.len() == 1 {
            Result::Ok(SpecCommandType::Simple(cmds[0]))
        } else {
            Result::Ok(SpecCommandType::Pipeline(cmds))
        },
        Result::Err(e) => Result::Err(e),
    }
}

/// Reads the token after a redirection operator as that redirection's
/// target.
fn parse_redirect_target(token: &RawToken) -> (r: Result<RedirectTarget, ParseError>)
    ensures
        r matches Ok(t) ==> target_of_token(token@) == Option::Some(t@),
        r matches Err(e) ==> target_of_token(token@) is None && e
            == ParseError::InvalidRedirectTarget,
{
    match token {
        RawToken::Word(w) => {
            if w.as_str().unicode_len() == 1 && w.as_str().get_char(0) == '-' {
                Ok(RedirectTarget::Close)
            } else {
                match parse_io_number(w.as_str()) {
                    Some(fd) => Ok(RedirectTarget::Fd(fd)),
                    None => Ok(RedirectTarget::File(w.clone())),
                }
            }
        },
        _ => Err(ParseError::InvalidRedirectTarget),
    }
}

/// Builds one simple command from a pipe-free token run: words become the
/// argument vector, each redirection operator (optionally prefixed by an
/// io-number naming the source descriptor) and its target word become one
/// `Redirection`, in written order. Any other arrangement is a parse
/// error.
pub fn parse_simple_command(tokens: &[RawToken]) -> (r: Result<Command, ParseError>)
    ensures
        r matches Ok(c) ==> parse_simple_spec(tokens.deep_view()) == Ok::<
            SpecCommand,
            ParseError,
        >(c@),
        r matches Err(e) ==> parse_simple_spec(tokens.deep_view()) == Err::<
            SpecCommand,
            ParseError,
        >(e),
{
    let n: usize = tokens.len();
    let mut argv: Vec<String> = Vec::new();
    let mut redirections: Vec<Redirection> = Vec::new();
    let mut i: usize = 0;
    proof {
        assert(argv.deep_view() =~= Seq::<Seq<char>>::empty());
        assert(redirections.deep_view() =~= Seq::<SpecRedirection>::empty());
    }
    while i < n
        invariant
            0 <= i <= n,
            n == tokens.deep_view().len(),
            n == tokens@.len(),
            parse_simple_spec(tokens.deep_view()) == parse_simple_from(
                tokens.deep_view(),
                i as int,
                argv.deep_view(),
                redirections.deep_view(),
            ),
        decreases n - i,
    {
        match &tokens[i] {
            RawToken::Word(w) => {
                let ghost pre = argv@;
                argv.push(w.clone());
                proof {
                    crate::lemma_deep_view_push(pre, *w);
                }
                i += 1;
            },
            RawToken::IoNumber(fd) => {
                if i + 1 < n {
                    let is_redirect = match &tokens[i + 1] {
                        RawToken::Redirect(_) => true,
                        _ => false,
                    };
                    if is_redirect {
                        if i + 2 < n {
                            let op = match &tokens[i + 1] {
                                RawToken::Redirect(op) => *op,
                                _ => RedirectOp::Out,
                            };
                            match parse_redirect_target(&tokens[i + 2]) {
                                Ok(target) => {
                                    let redir = Redirection {
                                        src_fd: Some(*fd),
                                        op,
                                        target,
                                    };
                                    let ghost rg = redir;
                                    let ghost pre = redirections@;
                                    redirections.push(redir);
                                    proof {
                                        crate::lemma_deep_view_push(pre, rg);
                                    }
                                    i += 3;
                                },
                                Err(e) => {
                                    return Err(e);
                                },
                            }
                        } else {
                            return Err(ParseError::MissingRedirectTarget);
                        }
                    } else {
                        return Err(ParseError::IoNumberWithoutRedirect);
                    }
                } else {
                    return Err(ParseError::IoNumberWithoutRedirect);
                }
            },
            RawToken::Redirect(op) => {
                if i + 1 < n {
                    match parse_redirect_target(&tokens[i + 1]) {
                        Ok(target) => {
                            let redir = Redirection { src_fd: None, op: *op, target };
                            let ghost rg = redir;
                            let ghost pre = redirections@;
                            redirections.push(redir);
                            proof {
                                crate::lemma_deep_view_push(pre, rg);
                            }
                            i += 2;
                        },
                        Err(e) => {
                            return Err(e);
                        },
                    }
                } else {
                    return Err(ParseError::MissingRedirectTarget);
                }
            },
            RawToken::Pipe => {
                return Err(ParseError::UnexpectedPipe);
            },
        }
    }
    Ok(Command { argv, redirections })
}

/// Splits the token sequence on pipe markers and parses each group,
/// yielding a single simple command or a pipeline of stages in
/// left-to-right execution order, exactly as `parse_command_spec` states.
pub fn parse_command(tokens: &[RawToken]) -> (r: Result<CommandType, ParseError>)
    ensures
        r matches Ok(ct) ==> parse_command_spec(tokens.deep_view()) == Ok::<
            SpecCommandType,
            ParseError,
        >(ct@),
        r matches Err(e) ==> parse_command_spec(tokens.deep_view()) == Err::<
            SpecCommandType,
            ParseError,
        >(e),
{
    let n: usize = tokens.len();
    let mut groups: Vec<Vec<RawToken>> = Vec::new();
    let mut current_tokens: Vec<RawToken> = Vec::new();
    let mut i: usize = 0;
    proof {
        assert(groups.deep_view() =~= Seq::<Seq<SpecToken>>::empty());
        assert(current_tokens.deep_view() =~= Seq::<SpecToken>::empty());
    }
    while i < n
        invariant
            0 <= i <= n,
            n == tokens.deep_view().len(),
            n == tokens@.len(),
            pipe_groups(tokens.deep_view()) == groups_from(
                tokens.deep_view(),
                i as int,
                current_tokens.deep_view(),
                groups.deep_view(),
            ),
        decreases n - i,
    {
        let is_pipe = match &tokens[i] {
            RawToken::Pipe => true,
            _ => false,
        };
        if is_pipe {
            if current_tokens.len() > 0 {
                let ghost gg = current_tokens;
                let ghost pre = groups@;
                groups.push(current_tokens);
                proof {
                    crate::lemma_deep_view_push(pre, gg);
                }
                current_tokens = Vec::new();
            }
            proof {
                assert(current_tokens.deep_view() =~= Seq::<SpecToken>::empty());
            }
        } else {
            let tok = tokens[i].duplicate();
            let ghost tg = tok;
            let ghost pre = current_tokens@;
            current_tokens.push(tok);
            proof {
                crate::lemma_deep_view_push(pre, tg);
            }
        }
        i += 1;
    }
    if current_tokens.len() > 0 {
        let ghost gg = current_tokens;
        let ghost pre = groups@;
        groups.push(current_tokens);
        proof {
            crate::lemma_deep_view_push(pre, gg);
        }
    }
    let g: usize = groups.len();
    let mut commands: Vec<Command> = Vec::new();
    let mut k: usize = 0;
    proof {
        assert(commands.deep_view() =~= Seq::<SpecCommand>::empty());
    }
    while k < g
        invariant
            0 <= k <= g,
            g == groups.deep_view().len(),
            g == groups@.len(),
            pipe_groups(tokens.deep_view()) == groups.deep_view(),
            parse_groups_from(groups.deep_view(), 0, Seq::<SpecCommand>::empty()) == parse_groups_from(
                groups.deep_view(),
                k as int,
                commands.deep_view(),
            ),
        decreases g - k,
    {
        let grp: &Vec<RawToken> = &groups[k];
        let grp_slice: &[RawToken] = grp.as_slice();
        proof {
            assert(grp_slice.deep_view() =~= grp.deep_view());
            assert(grp.deep_view() =~= groups.deep_view()[k as int]);
        }
        match parse_simple_command(grp_slice) {
            Ok(c) => {
                let ghost cg = c;
                let ghost pre = commands@;
                commands.push(c);
                proof {
                    crate::lemma_deep_view_push(pre, cg);
                }
            },
            Err(e) => {
                return Err(e);
            },
        }
        k += 1;
    }
    if commands.len() == 1 {
        let c = match commands.pop() {
            Some(c) => c,
            None => {
                return Err(ParseError::UnexpectedPipe);
            },
        };
        Ok(CommandType::Simple(c))
    } else {
        Ok(CommandType::Pipeline(commands))
    }
}

} // verus!

verus! {

proof fn lemma_groups_advance_no_pipe(
    ts: Seq<SpecToken>,
    i: int,
    j: int,
    cur: Seq<SpecToken>,
    acc: Seq<Seq<SpecToken>>,
)
    requires
        0 <= i <= j <= ts.len(),
        forall|m: int| i <= m < j ==> !((#[trigger] ts[m]) is Pipe),
    ensures
        groups_from(ts, i, cur, acc) == groups_from(ts, j, cur + ts.subrange(i, j), acc),
    decreases j - i,
{
    if i == j {
        assert(cur + ts.subrange(i, j) =~= cur);
    } else {
        assert(!(ts[i] is Pipe));
        lemma_groups_advance_no_pipe(ts, i + 1, j, cur.push(ts[i]), acc);
        assert(cur.push(ts[i]) + ts.subrange(i + 1, j) =~= cur + ts.subrange(i, j));
    }
}

proof fn lemma_parse_simple_all_words(
    ts: Seq<SpecToken>,
    i: int,
    argv: Seq<Seq<char>>,
    redirs: Seq<SpecRedirection>,
)
    requires
        0 <= i <= ts.len(),
        forall|m: int| i <= m < ts.len() ==> (#[trigger] ts[m]) is Word,
    ensures
        parse_simple_from(ts, i, argv, redirs) == Ok::<SpecCommand, ParseError>(
            SpecCommand {
                argv: argv + ts.subrange(i, ts.len() as int).map_values(
                    |t: SpecToken| t->Word_0,
                ),
                redirections: redirs,
            },
        ),
    decreases ts.len() - i,
{
    if i == ts.len() {
        assert(argv + ts.subrange(i, ts.len() as int).map_values(|t: SpecToken| t->Word_0)
            =~= argv);
    } else {
        assert(ts[i] is Word);
        lemma_parse_simple_all_words(ts, i + 1, argv.push(ts[i]->Word_0), redirs);
        assert(argv.push(ts[i]->Word_0) + ts.subrange(i + 1, ts.len() as int).map_values(
            |t: SpecToken| t->Word_0,
        ) =~= argv + ts.subrange(i, ts.len() as int).map_values(|t: SpecToken| t->Word_0));
    }
}

/// Round-trip: a redirection-free, pipe-free token sequence — one of at
/// least one word token and nothing else — always parses to a simple
/// command whose argument vector is exactly the word tokens in order and
/// whose redirection list is empty.
pub proof fn lemma_words_round_trip(ts: Seq<SpecToken>)
    requires
        ts.len() > 0,
        forall|m: int| 0 <= m < ts.len() ==> (#[trigger] ts[m]) is Word,
    ensures
        parse_command_spec(ts) == Ok::<SpecCommandType, ParseError>(
            SpecCommandType::Simple(
                SpecCommand {
                    argv: ts.map_values(|t: SpecToken| t->Word_0),
                    redirections: Seq::empty(),
                },
            ),
        ),
{
    lemma_groups_advance_no_pipe(ts, 0, ts.len() as int, Seq::empty(), Seq::empty());
    assert(Seq::<SpecToken>::empty() + ts.subrange(0, ts.len() as int) =~= ts);
    let gs = pipe_groups(ts);
    assert(gs == groups_from(ts, ts.len() as int, ts, Seq::empty()));
    assert(gs =~= seq![ts]);
    lemma_parse_simple_all_words(ts, 0, Seq::empty(), Seq::empty());
    assert(ts.subrange(0, ts.len() as int) =~= ts);
    let words = ts.map_values(|t: SpecToken| t->Word_0);
    assert(Seq::<Seq<char>>::empty() + ts.subrange(0, ts.len() as int).map_values(
        |t: SpecToken| t->Word_0,
    ) =~= words);
    let cmd = SpecCommand { argv: words, redirections: Seq::empty() };
    assert(parse_simple_spec(ts) == Ok::<SpecCommand, ParseError>(cmd));
    assert(parse_groups_from(gs, 0, Seq::empty()) == parse_groups_from(
        gs,
        1,
        Seq::<SpecCommand>::empty().push(cmd),
    ));
    assert(parse_groups_from(gs, 1, Seq::<SpecCommand>::empty().push(cmd))
        == Ok::<Seq<SpecCommand>, ParseError>(Seq::<SpecCommand>::empty().push(cmd)));
    assert(Seq::<SpecCommand>::empty().push(cmd)[0] == cmd);
}

/// A token sequence containing exactly one pipe marker, with at least one
/// token on each side, always parses to a pipeline of exactly two
/// commands, each parsed from its own side of the pipe.
pub proof fn lemma_single_pipe_two_stages(
    ts: Seq<SpecToken>,
    p: int,
    c1: SpecCommand,
    c2: SpecCommand,
)
    requires
        0 < p < ts.len() - 1,
        ts[p] is Pipe,
        forall|m: int| 0 <= m < ts.len() && m != p ==> !((#[trigger] ts[m]) is Pipe),
        parse_simple_spec(ts.subrange(0, p)) == Ok::<SpecCommand, ParseError>(c1),
        parse_simple_spec(ts.subrange(p + 1, ts.len() as int)) == Ok::<SpecCommand, ParseError>(
            c2,
        ),
    ensures
        parse_command_spec(ts) == Ok::<SpecCommandType, ParseError>(
            SpecCommandType::Pipeline(seq![c1, c2]),
        ),
{
    let left = ts.subrange(0, p);
    let right = ts.subrange(p + 1, ts.len() as int);
    lemma_groups_advance_no_pipe(ts, 0, p, Seq::empty(), Seq::empty());
    assert(Seq::<SpecToken>::empty() + left =~= left);
    assert(left.len() > 0);
    assert(groups_from(ts, p, left, Seq::empty()) == groups_from(
        ts,
        p + 1,
        Seq::empty(),
        Seq::<Seq<SpecToken>>::empty().push(left),
    ));
    lemma_groups_advance_no_pipe(
        ts,
        p + 1,
        ts.len() as int,
        Seq::empty(),
        Seq::<Seq<SpecToken>>::empty().push(left),
    );
    assert(Seq::<SpecToken>::empty() + right =~= right);
    assert(right.len() > 0);
    let gs = pipe_groups(ts);
    assert(gs == Seq::<Seq<SpecToken>>::empty().push(left).push(right));
    assert(gs.len() == 2 && gs[0] == left && gs[1] == right);
    assert(parse_groups_from(gs, 0, Seq::empty()) == parse_groups_from(
        gs,
        1,
        Seq::<SpecCommand>::empty().push(c1),
    ));
    assert(parse_groups_from(gs, 1, Seq::<SpecCommand>::empty().push(c1))
        == parse_groups_from(gs, 2, Seq::<SpecCommand>::empty().push(c1).push(c2)));
    assert(parse_groups_from(gs, 2, Seq::<SpecCommand>::empty().push(c1).push(c2))
        == Ok::<Seq<SpecCommand>, ParseError>(Seq::<SpecCommand>::empty().push(c1).push(c2)));
    assert(Seq::<SpecCommand>::empty().push(c1).push(c2) =~= seq![c1, c2]);
}

} // verus!
