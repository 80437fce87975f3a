use vstd::prelude::*;

use crate::lexer::RedirectOp;
use crate::parse::{Command, Redirection, RedirectTarget, SpecRedirection, SpecTarget};

verus! {

/// One standard-stream slot of an execution context: what the stream
/// will be connected to when the stage runs. The surrounding process
/// materializes these — it opens the files, creates the pipes and hands
/// the ends over — exactly as planned here.
#[derive(Debug, Clone, PartialEq)]
pub enum StreamHandle {
    /// A duplicate of the shell's own standard stream.
    Inherited,
    /// The file at this path, opened read-only.
    ReadFile(String),
    /// The file at this path, opened write+create: truncated when the
    /// flag is false, appended to when it is true.
    WriteFile(String, bool),
    /// The read end of the numbered pipe.
    PipeRead(usize),
    /// The write end of the numbered pipe.
    PipeWrite(usize),
}

/// Mathematical counterpart of `StreamHandle`.
#[verifier::ext_equal]
pub enum SpecStream {
    Inherited,
    ReadFile(Seq<char>),
    WriteFile(Seq<char>, bool),
    PipeRead(int),
    PipeWrite(int),
}

impl View for StreamHandle {
    type V = SpecStream;

    open spec fn view(&self) -> SpecStream {
        match self {
            StreamHandle::Inherited => SpecStream::Inherited,
            StreamHandle::ReadFile(p) => SpecStream::ReadFile(p@),
            StreamHandle::WriteFile(p, a) => SpecStream::WriteFile(p@, *a),
            StreamHandle::PipeRead(k) => SpecStream::PipeRead(*k as int),
            StreamHandle::PipeWrite(k) => SpecStream::PipeWrite(*k as int),
        }
    }
}

impl StreamHandle {
    /// An explicit copy with a contract; the derived `Clone` carries
    /// none.
    pub fn duplicate(&self) -> (h: StreamHandle)
        ensures
            h@ == self@,
    {
        match self {
            StreamHandle::Inherited => StreamHandle::Inherited,
            StreamHandle::ReadFile(p) => StreamHandle::ReadFile(p.clone()),
            StreamHandle::WriteFile(p, a) => StreamHandle::WriteFile(p.clone(), *a),
            StreamHandle::PipeRead(k) => StreamHandle::PipeRead(*k),
            StreamHandle::PipeWrite(k) => StreamHandle::PipeWrite(*k),
        }
    }
}

/// The three standard stream handles of the command being prepared:
/// created fresh for the top-level line, mutated by redirection
/// application, and handed to whichever handler executes the stage.
#[derive(Debug, Clone, PartialEq)]
pub struct ExecutionContext {
    pub stdin: StreamHandle,
    pub stdout: StreamHandle,
    pub stderr: StreamHandle,
}

/// Mathematical counterpart of `ExecutionContext`.
#[verifier::ext_equal]
pub struct SpecContext {
    pub stdin: SpecStream,
    pub stdout: SpecStream,
    pub stderr: SpecStream,
}

impl View for ExecutionContext {
    type V = SpecContext;

    open spec fn view(&self) -> SpecContext {
        SpecContext { stdin: self.stdin@, stdout: self.stdout@, stderr: self.stderr@ }
    }
}

/// The top-level context: every stream a duplicate of the shell's own.
pub open spec fn initial_context() -> SpecContext {
    SpecContext {
        stdin: SpecStream::Inherited,
        stdout: SpecStream::Inherited,
        stderr: SpecStream::Inherited,
    }
}

impl ExecutionContext {
    /// The context a top-level command line starts from: duplicates of
    /// the process's real standard streams.
    pub fn new() -> (ctx: Self)
        ensures
            ctx@ == initial_context(),
    {
        let ctx = ExecutionContext {
            stdin: StreamHandle::Inherited,
            stdout: StreamHandle::Inherited,
            stderr: StreamHandle::Inherited,
        };
        proof {
            assert(ctx@ =~= initial_context());
        }
        ctx
    }
}

/// The stream a modeled descriptor number names in a context.
pub open spec fn stream_of(ctx: SpecContext, fd: int) -> SpecStream {
    if fd == 0 {
        ctx.stdin
    } else if fd == 1 {
        ctx.stdout
    } else {
        ctx.stderr
    }
}

/// The context with one modeled descriptor's stream replaced.
pub open spec fn set_stream(ctx: SpecContext, fd: int, h: SpecStream) -> SpecContext {
    if fd == 0 {
        SpecContext { stdin: h, ..ctx }
    } else if fd == 1 {
        SpecContext { stdout: h, ..ctx }
    } else {
        SpecContext { stderr: h, ..ctx }
    }
}

/// The effect of one redirection on the context. Output operators open
/// the target file for writing (truncating or appending) on the named
/// descriptor, 1 by default; the input operator opens it for reading on
/// descriptor 0 by default; a duplication makes the source descriptor an
/// alias of the target descriptor's stream as it stands at this moment,
/// not tracking later changes. Only descriptors 0, 1 and 2 are modeled;
/// a redirection naming any other descriptor has no effect here, and a
/// heredoc is parsed but not materialized.
pub open spec fn apply_redirection_spec(ctx: SpecContext, r: SpecRedirection) -> SpecContext {
    match r.op {
        RedirectOp::Out | RedirectOp::OutAppend => {
            let fd: int = match r.src_fd {
                Option::Some(n) => n as int,
                Option::None => 1,
            };
            match r.target {
                SpecTarget::File(p) => if fd <= 2 {
                    set_stream(ctx, fd, SpecStream::WriteFile(p, r.op is OutAppend))
                } else {
                    ctx
                },
                _ => ctx,
            }
        },
        RedirectOp::In => {
            let fd: int = match r.src_fd {
                Option::Some(n) => n as int,
                Option::None => 0,
            };
            match r.target {
                SpecTarget::File(p) => if fd <= 2 {
                    set_stream(ctx, fd, SpecStream::ReadFile(p))
                } else {
                    ctx
                },
                _ => ctx,
            }
        },
        RedirectOp::DupOut | RedirectOp::DupIn => {
            match r.src_fd {
                Option::Some(s) => match r.target {
                    SpecTarget::Fd(m) => if s <= 2 && m <= 2 {
                        set_stream(ctx, s as int, stream_of(ctx, m as int))
                    } else {
                        ctx
                    },
                    _ => ctx,
                },
                Option::None => ctx,
            }
        },
        RedirectOp::Heredoc => ctx,
    }
}

/// Redirections applied left to right, each later one overriding the
/// effect of an earlier one on the same descriptor.
pub open spec fn apply_redirections_spec(
    ctx: SpecContext,
    rs: Seq<SpecRedirection>,
) -> SpecContext
    decreases rs.len(),
{
    if rs.len() == 0 {
        ctx
    } else {
        apply_redirection_spec(apply_redirections_spec(ctx, rs.drop_last()), rs.last())
    }
}

/// Reads the stream a modeled descriptor currently names, as a fresh
/// handle.
fn stream_dup(context: &ExecutionContext, fd: u8) -> (h: StreamHandle)
    requires
        fd <= 2,
    ensures
        h@ == stream_of(context@, fd as int),
{
    if fd == 0 {
        context.stdin.duplicate()
    } else if fd == 1 {
        context.stdout.duplicate()
    } else {
        context.stderr.duplicate()
    }
}

/// Replaces the stream a modeled descriptor names.
fn stream_set(context: &mut ExecutionContext, fd: u8, h: StreamHandle)
    requires
        fd <= 2,
    ensures
        final(context)@ == set_stream(old(context)@, fd as int, h@),
{
    if fd == 0 {
        context.stdin = h;
    } else if fd == 1 {
        context.stdout = h;
    } else {
        context.stderr = h;
    }
    proof {
        assert(context@ =~= set_stream(old(context)@, fd as int, h@));
    }
}

/// Applies one redirection to the context, exactly as
/// `apply_redirection_spec` states.
fn apply_redirection(context: &mut ExecutionContext, r: &Redirection)
    ensures
        final(context)@ == apply_redirection_spec(old(context)@, r@),
{
    match r.op {
        RedirectOp::Out | RedirectOp::OutAppend => {
            let fd: u8 = match r.src_fd {
                Some(n) => n,
                None => 1,
            };
            match &r.target {
                RedirectTarget::File(p) => {
                    if fd <= 2 {
                        let append = match r.op {
                            RedirectOp::OutAppend => true,
                            _ => false,
                        };
                        stream_set(context, fd, StreamHandle::WriteFile(p.clone(), append));
                    }
                },
                _ => {},
            }
        },
        RedirectOp::In => {
            let fd: u8 = match r.src_fd {
                Some(n) => n,
                None => 0,
            };
            match &r.target {
                RedirectTarget::File(p) => {
                    if fd <= 2 {
                        stream_set(context, fd, StreamHandle::ReadFile(p.clone()));
                    }
                },
                _ => {},
            }
        },
        RedirectOp::DupOut | RedirectOp::DupIn => {
            match r.src_fd {
                Some(s) => {
                    match &r.target {
                        RedirectTarget::Fd(m) => {
                            if s <= 2 && *m <= 2 {
                                let h = stream_dup(context, *m);
                                stream_set(context, s, h);
                            }
                        },
                        _ => {},
                    }
                },
                None => {},
            }
        },
        RedirectOp::Heredoc => {},
    }
}

/// Applies a command's redirections to the context in the order they
/// were written, exactly as `apply_redirections_spec` states: each later
/// redirection overrides the effect of an earlier one on the same
/// descriptor.
pub fn apply_redirections(command: &Command, context: &mut ExecutionContext)
    ensures
        final(context)@ == apply_redirections_spec(
            old(context)@,
            command@.redirections,
        ),
{
    let n: usize = command.redirections.len();
    let mut i: usize = 0;
    proof {
        assert(command@.redirections.subrange(0, 0) =~= Seq::<SpecRedirection>::empty());
    }
    while i < n
        invariant
            0 <= i <= n,
            n == command@.redirections.len(),
            context@ == apply_redirections_spec(
                old(context)@,
                command@.redirections.subrange(0, i as int),
            ),
        decreases n - i,
    {
        let ghost rs = command@.redirections;
        proof {
            assert(rs.subrange(0, i as int + 1).drop_last() =~= rs.subrange(0, i as int));
            assert(rs.subrange(0, i as int + 1).last() == rs[i as int]);
            assert(command.redirections@[i as int]@ == rs[i as int]);
        }
        apply_redirection(context, &command.redirections[i]);
        i += 1;
    }
    proof {
        assert(command@.redirections.subrange(0, n as int) =~= command@.redirections);
    }
}

/// The wiring of pipeline stage `i` of `n`, before the stage's own
/// redirections: stage 0 reads the context's own input and every later
/// stage reads the pipe its predecessor writes; every stage but the last
/// writes the next pipe and the last writes the context's own output;
/// every stage shares the context's error stream.
pub open spec fn stage_context_spec(base: SpecContext, i: int, n: int) -> SpecContext {
    SpecContext {
        stdin: if i == 0 {
            base.stdin
        } else {
            SpecStream::PipeRead(i - 1)
        },
        stdout: if i < n - 1 {
            SpecStream::PipeWrite(i)
        } else {
            base.stdout
        },
        stderr: base.stderr,
    }
}

/// Builds the wiring of one pipeline stage.
pub fn stage_context(base: &ExecutionContext, i: usize, n: usize) -> (ctx: ExecutionContext)
    requires
        i < n,
    ensures
        ctx@ == stage_context_spec(base@, i as int, n as int),
{
    let ctx = ExecutionContext {
        stdin: if i == 0 {
            base.stdin.duplicate()
        } else {
            StreamHandle::PipeRead(i - 1)
        },
        stdout: if i < n - 1 {
            StreamHandle::PipeWrite(i)
        } else {
            base.stdout.duplicate()
        },
        stderr: base.stderr.duplicate(),
    };
    proof {
        assert(ctx@ =~= stage_context_spec(base@, i as int, n as int));
    }
    ctx
}

/// The context every stage of a pipeline runs with: its wiring with its
/// own redirections applied on top.
pub open spec fn stage_plan_spec(base: SpecContext, cmds: Seq<crate::parse::SpecCommand>, i: int) -> SpecContext {
    apply_redirections_spec(stage_context_spec(base, i, cmds.len() as int), cmds[i].redirections)
}

/// Plans a whole pipeline: for each stage, its wiring — pipes between
/// consecutive stages, the context's own streams at the two ends — with
/// the stage's own redirections applied on top, in order.
pub fn plan_pipeline(commands: &Vec<Command>, base: &ExecutionContext) -> (plans: Vec<
    ExecutionContext,
>)
    ensures
        plans@.len() == commands@.len(),
        forall|i: int|
            0 <= i < commands@.len() ==> (#[trigger] plans@[i])@ == stage_plan_spec(
                base@,
                commands.deep_view(),
                i,
            ),
{
    let n: usize = commands.len();
    let mut plans: Vec<ExecutionContext> = Vec::new();
    let mut i: usize = 0;
    while i < n
        invariant
            0 <= i <= n,
            n == commands@.len(),
            n == commands.deep_view().len(),
            plans@.len() == i,
            forall|j: int|
                0 <= j < i ==> (#[trigger] plans@[j])@ == stage_plan_spec(
                    base@,
                    commands.deep_view(),
                    j,
                ),
        decreases n - i,
    {
        let mut ctx = stage_context(base, i, n);
        apply_redirections(&commands[i], &mut ctx);
        proof {
            assert(commands.deep_view()[i as int] == commands@[i as int]@);
        }
        plans.push(ctx);
        i += 1;
    }
    plans
}

/// The exit status a pipeline reports, given its stages' own exit codes
/// in launch order: that of the last stage alone; an empty pipeline
/// reports success.
pub open spec fn pipeline_code(codes: Seq<i32>) -> i32 {
    if codes.len() == 0 {
        0
    } else {
        codes.last()
    }
}

/// A pipeline's reported exit status is that of its last stage only;
/// earlier stages' failures do not propagate.
pub fn pipeline_exit_code(stage_codes: &Vec<i32>) -> (code: i32)
    ensures
        code == pipeline_code(stage_codes@),
{
    if stage_codes.len() == 0 {
        0
    } else {
        stage_codes[stage_codes.len() - 1]
    }
}

proof fn lemma_apply_redirections_push(
    ctx: SpecContext,
    rs: Seq<SpecRedirection>,
    r: SpecRedirection,
)
    ensures
        apply_redirections_spec(ctx, rs.push(r)) == apply_redirection_spec(
            apply_redirections_spec(ctx, rs),
            r,
        ),
{
    assert(rs.push(r).drop_last() =~= rs);
    assert(rs.push(r).last() == r);
}

/// Later redirections override earlier ones on the same descriptor: a
/// final output redirection of descriptor 1 to a file decides standard
/// output by itself, whatever the earlier redirections — an earlier
/// `2>&1` among them — did to it.
pub proof fn lemma_last_redirection_wins_stdout(
    ctx: SpecContext,
    rs: Seq<SpecRedirection>,
    r: SpecRedirection,
)
    requires
        r.src_fd is None || r.src_fd == Option::Some(1u8),
        r.op == RedirectOp::Out || r.op == RedirectOp::OutAppend,
        r.target is File,
    ensures
        apply_redirections_spec(ctx, rs.push(r)).stdout == SpecStream::WriteFile(
            r.target->File_0,
            r.op is OutAppend,
        ),
{
    lemma_apply_redirections_push(ctx, rs, r);
}

/// The concrete overriding case: `2>&1` followed by `> file`. The dup
/// captures the output stream as it stood, so standard error aliases the
/// old standard output; the later file redirection then replaces
/// standard output alone — its effect on descriptor 1 fully overrides
/// the earlier pair's.
pub proof fn lemma_dup_then_redirect_stdout(
    ctx: SpecContext,
    r1: SpecRedirection,
    r2: SpecRedirection,
    p: Seq<char>,
)
    requires
        r1 == (SpecRedirection {
            src_fd: Option::Some(2u8),
            op: RedirectOp::DupOut,
            target: SpecTarget::Fd(1),
        }),
        r2 == (SpecRedirection {
            src_fd: Option::None,
            op: RedirectOp::Out,
            target: SpecTarget::File(p),
        }),
    ensures
        apply_redirections_spec(ctx, seq![r1, r2]).stdin == ctx.stdin,
        apply_redirections_spec(ctx, seq![r1, r2]).stdout == SpecStream::WriteFile(p, false),
        apply_redirections_spec(ctx, seq![r1, r2]).stderr == ctx.stdout,
{
    let s = seq![r1, r2];
    assert(s.drop_last() =~= seq![r1]);
    assert(s.last() == r2);
    assert(seq![r1].drop_last() =~= Seq::<SpecRedirection>::empty());
    assert(seq![r1].last() == r1);
    let mid = apply_redirection_spec(ctx, r1);
    assert(mid == SpecContext { stderr: ctx.stdout, ..ctx });
    assert(apply_redirections_spec(ctx, Seq::<SpecRedirection>::empty()) == ctx);
    assert(apply_redirections_spec(ctx, seq![r1]) == mid);
    assert(apply_redirections_spec(ctx, s) == apply_redirection_spec(mid, r2));
    assert(apply_redirection_spec(mid, r2) == set_stream(mid, 1, SpecStream::WriteFile(p, false)));
}

/// A two-stage pipeline's wiring and status: the first stage writes the
/// pipe whose read end the second stage reads; the second stage writes
/// the context's own output; and the pipeline's reported exit code is
/// the second stage's alone, whatever the first stage's was.
pub proof fn lemma_two_stage_pipeline(base: SpecContext, codes: Seq<i32>)
    requires
        codes.len() == 2,
    ensures
        stage_context_spec(base, 0, 2).stdout == SpecStream::PipeWrite(0),
        stage_context_spec(base, 1, 2).stdin == SpecStream::PipeRead(0),
        stage_context_spec(base, 0, 2).stdin == base.stdin,
        stage_context_spec(base, 1, 2).stdout == base.stdout,
        pipeline_code(codes) == codes[1],
{
}

} // verus!
