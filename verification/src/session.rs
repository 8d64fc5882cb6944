//! Sessions: what a wrapped command has to do next.
//!
//! A tool is driven in steps. A step says what to print, what to record, and whether to run a
//! command, to finish or to give up. Whoever drives the session runs the command and hands its
//! outcome back; everything that is decided on the way is decided here.
use crate::text::chars;
use crate::text::compose;
use vstd::prelude::*;

verus! {

/// A command to run.
#[derive(Debug, PartialEq, Eq)]
pub struct CommandLine {
    /// The program, by name.
    pub program: String,
    /// Its arguments.
    pub args: Vec<String>,
    /// Environment variables set for it, on top of the inherited ones.
    pub env: Vec<(String, String)>,
}

/// The model of a command line.
#[verifier::ext_equal]
pub struct CommandView {
    /// The program.
    pub program: Seq<char>,
    /// Its arguments.
    pub args: Seq<Seq<char>>,
    /// Environment variables set for it.
    pub env: Seq<(Seq<char>, Seq<char>)>,
}

impl View for CommandLine {
    type V = CommandView;

    open spec fn view(&self) -> CommandView {
        CommandView {
            program: self.program@,
            args: self.args.deep_view(),
            env: self.env.deep_view(),
        }
    }
}

/// `cmd` with one more argument.
pub open spec fn with_arg(cmd: CommandView, arg: Seq<char>) -> CommandView {
    CommandView { args: cmd.args.push(arg), ..cmd }
}

/// `cmd` with more arguments.
pub open spec fn with_args(cmd: CommandView, args: Seq<Seq<char>>) -> CommandView {
    CommandView { args: cmd.args + args, ..cmd }
}

impl CommandLine {
    /// The program alone.
    pub fn new(program: &str) -> (r: Self)
        ensures
            r@ == (CommandView { program: program@, args: Seq::empty(), env: Seq::empty() }),
    {
        let cmd = CommandLine { program: program.to_string(), args: Vec::new(), env: Vec::new() };
        assert(cmd.args.deep_view() == Seq::<Seq<char>>::empty());
        assert(cmd.env.deep_view() == Seq::<(Seq<char>, Seq<char>)>::empty());
        cmd
    }

    /// Adds an argument.
    pub fn arg(self, arg: &str) -> (r: Self)
        ensures
            r@ == with_arg(self@, arg@),
    {
        let mut cmd = self;
        compose::push_str(&mut cmd.args, arg);
        cmd
    }

    /// Adds all of `args`.
    pub fn args(self, args: &[String]) -> (r: Self)
        ensures
            r@ == with_args(self@, args.deep_view()),
    {
        let mut cmd = self;
        compose::extend(&mut cmd.args, args);
        cmd
    }

    /// Sets an environment variable.
    pub fn env(self, name: &str, value: &str) -> (r: Self)
        ensures
            r@ == (CommandView { env: self@.env.push((name@, value@)), ..self@ }),
    {
        let mut cmd = self;
        cmd.env.push((name.to_string(), value.to_string()));
        assert(cmd.env.deep_view() == self.env.deep_view().push((name@, value@)));
        cmd
    }
}

/// What running a command brought.
#[derive(Debug)]
pub struct CaptureResult {
    /// What it wrote to standard output. Of a streamed command: what the filter let through.
    pub stdout: String,
    /// What it wrote to standard error.
    pub stderr: String,
    /// Both streams together, as they are recorded.
    pub combined: String,
    /// Its exit code.
    pub exit_code: i32,
}

/// The model of what a command brought.
pub struct CaptureView {
    /// Standard output.
    pub stdout: Seq<char>,
    /// Standard error.
    pub stderr: Seq<char>,
    /// Both together.
    pub combined: Seq<char>,
    /// The exit code.
    pub exit_code: int,
}

impl View for CaptureResult {
    type V = CaptureView;

    open spec fn view(&self) -> CaptureView {
        CaptureView {
            stdout: self.stdout@,
            stderr: self.stderr@,
            combined: self.combined@,
            exit_code: self.exit_code as int,
        }
    }
}

impl CaptureResult {
    /// Whether the command succeeded.
    pub fn success(&self) -> (r: bool)
        ensures
            r == (self@.exit_code == 0),
    {
        self.exit_code == 0
    }
}

/// What running a command brought, or that it could not be started.
pub open spec fn captured(r: Option<CaptureResult>) -> Option<CaptureView> {
    match r {
        Some(c) => Some(c@),
        None => None,
    }
}

/// A piece of output.
#[derive(Debug, PartialEq, Eq)]
pub enum Chunk {
    /// To standard output.
    Stdout(String),
    /// To standard error.
    Stderr(String),
    /// A warning that a tool's output was understood in part only: the tool, and why.
    Degraded(String, String),
    /// A warning that a tool's output was not understood: the tool, and why.
    NotUnderstood(String, String),
}

/// The model of a piece of output.
pub enum ChunkView {
    /// To standard output.
    Stdout(Seq<char>),
    /// To standard error.
    Stderr(Seq<char>),
    /// A warning that a tool's output was understood in part only: the tool, and why.
    Degraded(Seq<char>, Seq<char>),
    /// A warning that a tool's output was not understood: the tool, and why.
    NotUnderstood(Seq<char>, Seq<char>),
}

impl View for Chunk {
    type V = ChunkView;

    open spec fn view(&self) -> ChunkView {
        match self {
            Chunk::Stdout(s) => ChunkView::Stdout(s@),
            Chunk::Stderr(s) => ChunkView::Stderr(s@),
            Chunk::Degraded(tool, reason) => ChunkView::Degraded(tool@, reason@),
            Chunk::NotUnderstood(tool, reason) => ChunkView::NotUnderstood(tool@, reason@),
        }
    }
}

/// The model of a sequence of pieces.
pub open spec fn chunks(v: Seq<Chunk>) -> Seq<ChunkView> {
    v.map_values(|c: Chunk| c@)
}

/// A line on standard output.
pub open spec fn out_line(s: Seq<char>) -> ChunkView {
    ChunkView::Stdout(s + "\n"@)
}

/// A line on standard error.
pub open spec fn err_line(s: Seq<char>) -> ChunkView {
    ChunkView::Stderr(s + "\n"@)
}

/// A note on standard error, where it is wanted.
pub open spec fn noted(wanted: bool, note: Seq<char>) -> Seq<ChunkView> {
    if wanted {
        seq![err_line(note)]
    } else {
        Seq::empty()
    }
}

/// The text on a line of standard error, unless it is blank.
pub open spec fn unless_blank(printed: Seq<ChunkView>, s: Seq<char>) -> Seq<ChunkView> {
    if chars::is_blank(s) {
        printed
    } else {
        printed.push(err_line(s))
    }
}

/// What a step prints.
#[derive(Debug, PartialEq, Eq)]
pub struct Printed {
    /// The pieces, in order.
    pub chunks: Vec<Chunk>,
}

impl View for Printed {
    type V = Seq<ChunkView>;

    open spec fn view(&self) -> Seq<ChunkView> {
        chunks(self.chunks@)
    }
}

impl Printed {
    /// Nothing.
    pub fn nothing() -> (r: Self)
        ensures
            r@ == Seq::<ChunkView>::empty(),
    {
        let p = Printed { chunks: Vec::new() };
        assert(p@ == Seq::<ChunkView>::empty());
        p
    }

    /// One line on standard output.
    pub fn line(s: &str) -> (r: Self)
        ensures
            r@ == seq![out_line(s@)],
    {
        let mut p = Self::nothing();
        p.outln(s);
        assert(p@ == seq![out_line(s@)]);
        p
    }

    /// A note on standard error, where it is wanted.
    pub fn noted(wanted: bool, note: &str) -> (r: Self)
        ensures
            r@ == noted(wanted, note@),
    {
        let mut p = Self::nothing();
        if wanted {
            p.errln(note);
        }
        p
    }

    /// Prints a line to standard error, unless it is blank.
    pub fn errln_unless_blank(&mut self, s: &str)
        ensures
            final(self)@ == unless_blank(old(self)@, s@),
    {
        let t = chars::to_chars(s);
        if !chars::blank(t.as_slice()) {
            self.errln(s);
        }
    }

    /// Prints to standard output.
    pub fn out(&mut self, s: &str)
        ensures
            final(self)@ == old(self)@.push(ChunkView::Stdout(s@)),
    {
        self.chunks.push(Chunk::Stdout(s.to_string()));
        assert(self@ == old(self)@.push(ChunkView::Stdout(s@)));
    }

    /// Prints a line to standard output.
    pub fn outln(&mut self, s: &str)
        ensures
            final(self)@ == old(self)@.push(out_line(s@)),
    {
        let mut t = s.to_string();
        t.append("\n");
        self.chunks.push(Chunk::Stdout(t));
        assert(self@ == old(self)@.push(out_line(s@)));
    }

    /// Prints to standard error.
    pub fn err(&mut self, s: &str)
        ensures
            final(self)@ == old(self)@.push(ChunkView::Stderr(s@)),
    {
        self.chunks.push(Chunk::Stderr(s.to_string()));
        assert(self@ == old(self)@.push(ChunkView::Stderr(s@)));
    }

    /// Warns that a tool's output was understood in part only.
    pub fn degraded(&mut self, tool: &str, reason: &str)
        ensures
            final(self)@ == old(self)@.push(ChunkView::Degraded(tool@, reason@)),
    {
        self.chunks.push(Chunk::Degraded(tool.to_string(), reason.to_string()));
        assert(self@ == old(self)@.push(ChunkView::Degraded(tool@, reason@)));
    }

    /// Warns that a tool's output was not understood.
    pub fn not_understood(&mut self, tool: &str, reason: &str)
        ensures
            final(self)@ == old(self)@.push(ChunkView::NotUnderstood(tool@, reason@)),
    {
        self.chunks.push(Chunk::NotUnderstood(tool.to_string(), reason.to_string()));
        assert(self@ == old(self)@.push(ChunkView::NotUnderstood(tool@, reason@)));
    }

    /// Prints a line to standard error.
    pub fn errln(&mut self, s: &str)
        ensures
            final(self)@ == old(self)@.push(err_line(s@)),
    {
        let mut t = s.to_string();
        t.append("\n");
        self.chunks.push(Chunk::Stderr(t));
        assert(self@ == old(self)@.push(err_line(s@)));
    }
}

/// What is recorded of a filtered command.
#[derive(Debug, PartialEq, Eq)]
pub struct Record {
    /// The command as the user would have run it.
    pub original: String,
    /// The command as it was run.
    pub rewritten: String,
    /// The output before filtering.
    pub input: String,
    /// The output after filtering.
    pub output: String,
}

/// The model of a record.
pub struct RecordView {
    /// The command as the user would have run it.
    pub original: Seq<char>,
    /// The command as it was run.
    pub rewritten: Seq<char>,
    /// The output before filtering.
    pub input: Seq<char>,
    /// The output after filtering.
    pub output: Seq<char>,
}

impl View for Record {
    type V = RecordView;

    open spec fn view(&self) -> RecordView {
        RecordView {
            original: self.original@,
            rewritten: self.rewritten@,
            input: self.input@,
            output: self.output@,
        }
    }
}

impl Record {
    /// A record of the four texts.
    pub fn new(original: &str, rewritten: &str, input: &str, output: &str) -> (r: Self)
        ensures
            r@ == (RecordView {
                original: original@,
                rewritten: rewritten@,
                input: input@,
                output: output@,
            }),
    {
        Record {
            original: original.to_string(),
            rewritten: rewritten.to_string(),
            input: input.to_string(),
            output: output.to_string(),
        }
    }
}

/// How a command is run.
#[derive(Debug, Clone, Copy, PartialEq, Eq)]
pub enum RunMode {
    /// Its output is captured.
    Captured,
    /// Its output is captured while it reads the user's input.
    Interactive,
    /// Its output passes through the line filter while it reads the user's input.
    Streamed,
}

/// How a session goes on.
#[derive(Debug)]
pub enum Next<S> {
    /// Run a command, then resume at `stage` with its outcome.
    Run {
        /// The command.
        command: CommandLine,
        /// How to run it.
        mode: RunMode,
        /// Where to resume.
        stage: S,
    },
    /// Finish with this exit code.
    Done(i32),
    /// Give up with this message.
    Fail(String),
}

/// The model of how a session goes on.
#[verifier::ext_equal]
pub enum NextView<V> {
    /// Run a command.
    Run {
        /// The command.
        command: CommandView,
        /// How to run it.
        mode: RunMode,
        /// Where to resume.
        stage: V,
    },
    /// Finish.
    Done(int),
    /// Give up.
    Fail(Seq<char>),
}

impl<S: View> View for Next<S> {
    type V = NextView<S::V>;

    open spec fn view(&self) -> NextView<S::V> {
        match self {
            Next::Run { command, mode, stage } => NextView::Run {
                command: command@,
                mode: *mode,
                stage: stage@,
            },
            Next::Done(code) => NextView::Done(*code as int),
            Next::Fail(message) => NextView::Fail(message@),
        }
    }
}

/// One step of a session.
#[derive(Debug)]
pub struct Step<S> {
    /// What to print.
    pub printed: Printed,
    /// What to record, if anything.
    pub record: Option<Record>,
    /// How to go on.
    pub next: Next<S>,
}

/// The model of a step.
#[verifier::ext_equal]
pub struct StepView<V> {
    /// What to print.
    pub printed: Seq<ChunkView>,
    /// What to record, if anything.
    pub record: Option<RecordView>,
    /// How to go on.
    pub next: NextView<V>,
}

impl<S: View> View for Step<S> {
    type V = StepView<S::V>;

    open spec fn view(&self) -> StepView<S::V> {
        StepView {
            printed: self.printed@,
            record: match self.record {
                Some(r) => Some(r@),
                None => None,
            },
            next: self.next@,
        }
    }
}

/// A step that runs a command and prints nothing.
pub open spec fn runs<V>(command: CommandView, stage: V) -> StepView<V> {
    StepView {
        printed: Seq::empty(),
        record: None,
        next: NextView::Run { command, mode: RunMode::Captured, stage },
    }
}

/// A step that finishes.
pub open spec fn finishes<V>(
    printed: Seq<ChunkView>,
    record: Option<RecordView>,
    code: int,
) -> StepView<V> {
    StepView { printed, record, next: NextView::Done(code) }
}

/// A step that gives up.
pub open spec fn fails<V>(message: Seq<char>) -> StepView<V> {
    StepView { printed: Seq::empty(), record: None, next: NextView::Fail(message) }
}

impl<S: View> Step<S> {
    /// Runs a command.
    pub fn run(command: CommandLine, stage: S) -> (r: Self)
        ensures
            r@ == runs(command@, stage@),
    {
        Step {
            printed: Printed::nothing(),
            record: None,
            next: Next::Run { command, mode: RunMode::Captured, stage },
        }
    }

    /// Prints, then runs a command.
    pub fn print_and_run(printed: Printed, command: CommandLine, mode: RunMode, stage: S) -> (r:
        Self)
        ensures
            r@ == (StepView {
                printed: printed@,
                record: None,
                next: NextView::Run { command: command@, mode, stage: stage@ },
            }),
    {
        Step { printed, record: None, next: Next::Run { command, mode, stage } }
    }

    /// Prints and finishes.
    pub fn done(printed: Printed, exit_code: i32) -> (r: Self)
        ensures
            r@ == finishes::<S::V>(printed@, None, exit_code as int),
    {
        Step { printed, record: None, next: Next::Done(exit_code) }
    }

    /// Prints, records and finishes.
    pub fn record(printed: Printed, record: Record, exit_code: i32) -> (r: Self)
        ensures
            r@ == finishes::<S::V>(printed@, Some(record@), exit_code as int),
    {
        Step { printed, record: Some(record), next: Next::Done(exit_code) }
    }

    /// Gives up.
    pub fn fail(message: &str) -> (r: Self)
        ensures
            r@ == fails::<S::V>(message@),
    {
        Step { printed: Printed::nothing(), record: None, next: Next::Fail(message.to_string()) }
    }
}

/// A line ends with one line feed, and goes to the stream that it is meant for.
pub proof fn law_lines_printed(s: Seq<char>)
    ensures
        out_line(s) == ChunkView::Stdout(s.push('\n')),
        err_line(s) == ChunkView::Stderr(s.push('\n')),
{
    reveal_strlit("\n");
    assert(s + "\n"@ == s.push('\n'));
}

} // verus!
