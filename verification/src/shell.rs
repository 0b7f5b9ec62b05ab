//! The interpreter's state and its decisions: the variable table, the table of
//! background jobs, and what to run for a parsed line.

use vstd::prelude::*;
use vstd::string::StringExecFns;
use crate::builtins::{builtin_of, Builtins, Handler};
use crate::parser::{
    command_views, parse_spec, redirection_views, CommandLine, CommandLineView, ParseError,
    Parser, Redirection, RedirectionType, RedirectionView, SimpleCommand, SimpleCommandView,
};
use crate::string_map::StringMap;
use crate::text::{
    chars_of, clone_strings, decimal, decimal_spec, signed_decimal, signed_decimal_spec,
    slice_of, starts_with, starts_with_spec, str_eq, string_of, texts, trim, trim_spec,
};

verus! {

/// A background process that the interpreter tracks.
#[derive(Debug, Clone, Copy, PartialEq, Eq, Structural)]
pub struct Job {
    /// The number shown when the job was started, counted from 1.
    pub display_id: usize,
    /// The process id that the operating system gave.
    pub pid: u32,
}

/// What a non-blocking wait on a job found.
#[derive(Debug, Clone, Copy, PartialEq, Eq, Structural)]
pub enum PollStatus {
    /// The process has not terminated.
    Running,
    /// The process has terminated.
    Exited,
    /// The wait itself failed.
    Failed,
}

/// The jobs among the first `n` that stay in the table after a poll: those
/// that are still running, in their order.
pub open spec fn kept_jobs(jobs: Seq<Job>, statuses: Seq<PollStatus>, n: nat) -> Seq<Job>
    decreases n,
{
    if n == 0 {
        Seq::empty()
    } else {
        let before = kept_jobs(jobs, statuses, (n - 1) as nat);
        if statuses[n - 1] == PollStatus::Running {
            before.push(jobs[n - 1])
        } else {
            before
        }
    }
}

/// The process ids among the first `n` jobs that a poll reports as done:
/// those of the jobs that have terminated, in their order.
pub open spec fn done_pids(jobs: Seq<Job>, statuses: Seq<PollStatus>, n: nat) -> Seq<u32>
    decreases n,
{
    if n == 0 {
        Seq::empty()
    } else {
        let before = done_pids(jobs, statuses, (n - 1) as nat);
        if statuses[n - 1] == PollStatus::Exited {
            before.push(jobs[n - 1].pid)
        } else {
            before
        }
    }
}

/// How many of the first `n` statuses equal `status`.
pub open spec fn count_status(statuses: Seq<PollStatus>, status: PollStatus, n: nat) -> nat
    decreases n,
{
    if n == 0 {
        0
    } else {
        count_status(statuses, status, (n - 1) as nat) + if statuses[n - 1] == status {
            1nat
        } else {
            0nat
        }
    }
}

/// A poll keeps exactly the running jobs and reports exactly the terminated
/// ones, each once; a job whose wait failed is dropped without a report.
pub proof fn lemma_poll_partitions(jobs: Seq<Job>, statuses: Seq<PollStatus>, n: nat)
    requires
        n <= jobs.len(),
        jobs.len() == statuses.len(),
    ensures
        kept_jobs(jobs, statuses, n).len() == count_status(statuses, PollStatus::Running, n),
        done_pids(jobs, statuses, n).len() == count_status(statuses, PollStatus::Exited, n),
        count_status(statuses, PollStatus::Running, n) + count_status(
            statuses,
            PollStatus::Exited,
            n,
        ) + count_status(statuses, PollStatus::Failed, n) == n,
    decreases n,
{
    if n > 0 {
        lemma_poll_partitions(jobs, statuses, (n - 1) as nat);
    }
}

/// A job that is found terminated does not stay in the table: every job that
/// a poll keeps was running.
pub proof fn lemma_kept_jobs_were_running(
    jobs: Seq<Job>,
    statuses: Seq<PollStatus>,
    n: nat,
    k: int,
) -> (i: int)
    requires
        n <= jobs.len(),
        jobs.len() == statuses.len(),
        0 <= k < kept_jobs(jobs, statuses, n).len(),
    ensures
        0 <= i < n,
        statuses[i] == PollStatus::Running,
        kept_jobs(jobs, statuses, n)[k] == jobs[i],
    decreases n,
{
    let before = kept_jobs(jobs, statuses, (n - 1) as nat);
    if statuses[n - 1] == PollStatus::Running && k == before.len() {
        n - 1
    } else {
        lemma_kept_jobs_were_running(jobs, statuses, (n - 1) as nat, k)
    }
}

/// Polling a table whose only job has terminated empties the table and
/// reports that job once.
pub proof fn lemma_poll_single_exited(job: Job)
    ensures
        kept_jobs(seq![job], seq![PollStatus::Exited], 1) == Seq::<Job>::empty(),
        done_pids(seq![job], seq![PollStatus::Exited], 1) == seq![job.pid],
{
    reveal_with_fuel(kept_jobs, 2);
    reveal_with_fuel(done_pids, 2);
    assert(done_pids(seq![job], seq![PollStatus::Exited], 1) =~= seq![job.pid]);
}

/// Polling a table in which every job is still running changes nothing and
/// reports nothing, so a completion is never reported twice.
pub proof fn lemma_poll_all_running(jobs: Seq<Job>, statuses: Seq<PollStatus>, n: nat)
    requires
        n <= jobs.len(),
        jobs.len() == statuses.len(),
        forall|i: int| 0 <= i < statuses.len() ==> statuses[i] == PollStatus::Running,
    ensures
        kept_jobs(jobs, statuses, n) == jobs.subrange(0, n as int),
        done_pids(jobs, statuses, n) == Seq::<u32>::empty(),
    decreases n,
{
    if n > 0 {
        lemma_poll_all_running(jobs, statuses, (n - 1) as nat);
        assert(jobs.subrange(0, n - 1).push(jobs[n - 1]) =~= jobs.subrange(0, n as int));
    } else {
        assert(jobs.subrange(0, 0) =~= Seq::<Job>::empty());
    }
}

/// The line that announces a background job: `[<display id>] <pid>`.
pub open spec fn job_announcement_spec(job: Job) -> Seq<char> {
    "["@ + decimal_spec(job.display_id as nat) + "] "@ + decimal_spec(job.pid as nat)
}

/// The line that reports a finished job: `[<pid>] Done`.
pub open spec fn done_message_spec(pid: u32) -> Seq<char> {
    "["@ + decimal_spec(pid as nat) + "] Done"@
}

/// The line that announces a background job.
pub fn job_announcement(job: &Job) -> (r: String)
    ensures
        r@ == job_announcement_spec(*job),
{
    let id = decimal(job.display_id);
    let pid = decimal(job.pid as usize);
    String::from_str("[").concat(id.as_str()).concat("] ").concat(pid.as_str())
}

/// The line that reports a finished job.
pub fn done_message(pid: u32) -> (r: String)
    ensures
        r@ == done_message_spec(pid),
{
    let pid_text = decimal(pid as usize);
    String::from_str("[").concat(pid_text.as_str()).concat("] Done")
}

/// Where a process reads its standard input from.
#[derive(Debug)]
pub enum StdinSource {
    /// The interpreter's own standard input.
    Inherit,
    /// The null device.
    Null,
    /// The named file, opened for reading.
    File(String),
}

/// Where a process writes its standard output to.
#[derive(Debug)]
pub enum StdoutTarget {
    /// The interpreter's own standard output.
    Inherit,
    /// The named file, created or truncated.
    Truncate(String),
    /// The named file, created if absent and appended to.
    Append(String),
}

/// The mathematical value of a [`StdinSource`].
pub enum StdinView {
    Inherit,
    Null,
    File(Seq<char>),
}

/// The mathematical value of a [`StdoutTarget`].
pub enum StdoutView {
    Inherit,
    Truncate(Seq<char>),
    Append(Seq<char>),
}

impl View for StdinSource {
    type V = StdinView;

    open spec fn view(&self) -> StdinView {
        match self {
            StdinSource::Inherit => StdinView::Inherit,
            StdinSource::Null => StdinView::Null,
            StdinSource::File(f) => StdinView::File(f@),
        }
    }
}

impl View for StdoutTarget {
    type V = StdoutView;

    open spec fn view(&self) -> StdoutView {
        match self {
            StdoutTarget::Inherit => StdoutView::Inherit,
            StdoutTarget::Truncate(f) => StdoutView::Truncate(f@),
            StdoutTarget::Append(f) => StdoutView::Append(f@),
        }
    }
}

/// The standard input after the first `n` redirections were applied in
/// order: the file of the last input redirection among them, if there is one.
pub open spec fn stdin_after(redirections: Seq<RedirectionView>, n: nat) -> StdinView
    decreases n,
{
    if n == 0 {
        StdinView::Inherit
    } else if redirections[n - 1].redir_type == RedirectionType::Input {
        StdinView::File(redirections[n - 1].filename)
    } else {
        stdin_after(redirections, (n - 1) as nat)
    }
}

/// The standard output after the first `n` redirections were applied in
/// order: the file of the last output or append redirection among them, if
/// there is one.
pub open spec fn stdout_after(redirections: Seq<RedirectionView>, n: nat) -> StdoutView
    decreases n,
{
    if n == 0 {
        StdoutView::Inherit
    } else if redirections[n - 1].redir_type == RedirectionType::Output {
        StdoutView::Truncate(redirections[n - 1].filename)
    } else if redirections[n - 1].redir_type == RedirectionType::Append {
        StdoutView::Append(redirections[n - 1].filename)
    } else {
        stdout_after(redirections, (n - 1) as nat)
    }
}

/// Redirections of one stream do not touch the other: an input redirection
/// leaves standard output as it was, and an output or append redirection
/// leaves standard input as it was; the last redirection of a stream wins.
pub proof fn lemma_last_redirection_wins(redirections: Seq<RedirectionView>, r: RedirectionView)
    ensures
        stdin_after(redirections.push(r), redirections.len() + 1) == match r.redir_type {
            RedirectionType::Input => StdinView::File(r.filename),
            _ => stdin_after(redirections, redirections.len()),
        },
        stdout_after(redirections.push(r), redirections.len() + 1) == match r.redir_type {
            RedirectionType::Input => stdout_after(redirections, redirections.len()),
            RedirectionType::Output => StdoutView::Truncate(r.filename),
            RedirectionType::Append => StdoutView::Append(r.filename),
        },
{
    let pushed = redirections.push(r);
    lemma_streams_of_prefix(redirections, pushed, redirections.len());
}

/// What the first `n` redirections do depends on those redirections alone.
proof fn lemma_streams_of_prefix(a: Seq<RedirectionView>, b: Seq<RedirectionView>, n: nat)
    requires
        n <= a.len(),
        n <= b.len(),
        forall|i: int| 0 <= i < n ==> a[i] == b[i],
    ensures
        stdin_after(a, n) == stdin_after(b, n),
        stdout_after(a, n) == stdout_after(b, n),
    decreases n,
{
    if n > 0 {
        lemma_streams_of_prefix(a, b, (n - 1) as nat);
    }
}

/// What to start for an external command.
#[derive(Debug)]
pub struct SpawnPlan {
    /// The program to run.
    pub program: String,
    /// Its arguments, without the program's name.
    pub args: Vec<String>,
    /// The variables of the child: all that the shell holds.
    pub env: Vec<(String, String)>,
    /// The files to open, in this order.
    pub redirections: Vec<Redirection>,
    /// The child's standard input once every redirection is applied.
    pub stdin: StdinSource,
    /// The child's standard output once every redirection is applied.
    pub stdout: StdoutTarget,
    /// Whether the child runs in the background, without being waited for.
    pub background: bool,
}

/// Whether a list of pairs holds exactly the bindings of `env`, each key once.
pub open spec fn pairs_hold(pairs: Seq<(String, String)>, env: Map<Seq<char>, Seq<char>>) -> bool {
    &&& forall|i: int|
        0 <= i < pairs.len() ==> env.contains_key(#[trigger] pairs[i].0@) && env[pairs[i].0@]
            == pairs[i].1@
    &&& forall|k: Seq<char>|
        env.contains_key(k) ==> exists|i: int| 0 <= i < pairs.len() && #[trigger] pairs[i].0@ == k
    &&& forall|i: int, j: int| 0 <= i < j < pairs.len() ==> pairs[i].0@ != pairs[j].0@
}

/// Where a pipeline stage reads from.
#[derive(Debug, Clone, Copy, PartialEq, Eq, Structural)]
pub enum StageInput {
    /// The interpreter's own standard input.
    Inherit,
    /// The standard output of the stage before.
    PreviousStage,
}

/// Where a pipeline stage writes to.
#[derive(Debug, Clone, Copy, PartialEq, Eq, Structural)]
pub enum StageOutput {
    /// The interpreter's own standard output.
    Inherit,
    /// A pipe that the next stage reads.
    Piped,
}

/// What to start for one stage of a pipeline. Standard error is always the
/// interpreter's own.
#[derive(Debug)]
pub struct StagePlan {
    pub program: String,
    pub args: Vec<String>,
    pub env: Vec<(String, String)>,
    pub stdin: StageInput,
    pub stdout: StageOutput,
}

/// What the interpreter does for a parsed line.
#[derive(Debug)]
pub enum Action {
    /// Nothing: the command has no words.
    Nothing,
    /// Carry out a builtin against the shell's state.
    Builtin(Handler),
    /// Start an external command.
    Spawn(SpawnPlan),
    /// Start every stage of a pipeline, then wait for each in turn.
    Pipeline(Vec<StagePlan>),
}

/// Whether `plan` is what is to be started for the external command `cmd`
/// by a shell with the variables `env`.
pub open spec fn spawn_plan_matches(
    plan: SpawnPlan,
    cmd: SimpleCommandView,
    background: bool,
    env: Map<Seq<char>, Seq<char>>,
) -> bool {
    &&& plan.program@ == cmd.args[0]
    &&& texts(plan.args@) == cmd.args.subrange(1, cmd.args.len() as int)
    &&& pairs_hold(plan.env@, env)
    &&& redirection_views(plan.redirections@) == cmd.redirections
    &&& plan.stdin@ == if background {
        StdinView::Null
    } else {
        stdin_after(cmd.redirections, cmd.redirections.len())
    }
    &&& plan.stdout@ == stdout_after(cmd.redirections, cmd.redirections.len())
    &&& plan.background == background
}

/// Whether `stages` is what is to be started for the pipeline `commands` by
/// a shell with the variables `env`.
pub open spec fn stage_plans_match(
    stages: Seq<StagePlan>,
    commands: Seq<SimpleCommandView>,
    env: Map<Seq<char>, Seq<char>>,
) -> bool {
    &&& stages.len() == commands.len()
    &&& forall|i: int|
        0 <= i < stages.len() ==> {
            &&& (#[trigger] stages[i]).program@ == commands[i].args[0]
            &&& texts(stages[i].args@) == commands[i].args.subrange(
                1,
                commands[i].args.len() as int,
            )
            &&& pairs_hold(stages[i].env@, env)
            &&& stages[i].stdin == if i == 0 {
                StageInput::Inherit
            } else {
                StageInput::PreviousStage
            }
            &&& stages[i].stdout == if i == stages.len() - 1 {
                StageOutput::Inherit
            } else {
                StageOutput::Piped
            }
        }
}

/// Whether `action` is what the interpreter does for the command `cmd`: a
/// command whose name is that of a builtin is carried out as that builtin
/// with the remaining words as arguments, whether or not it was put in the
/// background; any other command is started as an external process.
pub open spec fn command_action_matches(
    action: Action,
    cmd: SimpleCommandView,
    background: bool,
    env: Map<Seq<char>, Seq<char>>,
) -> bool {
    if cmd.args.len() == 0 {
        action is Nothing
    } else {
        match builtin_of(cmd.args[0]) {
            Some(kind) => action matches Action::Builtin(h) && h.kind == kind && texts(h.args@)
                == cmd.args.subrange(1, cmd.args.len() as int),
            None => action matches Action::Spawn(plan) && spawn_plan_matches(
                plan,
                cmd,
                background,
                env,
            ),
        }
    }
}

/// Whether `action` is what the interpreter does for the parsed line `line`.
/// The stages of a pipeline are always started as external processes.
pub open spec fn action_matches(
    action: Action,
    line: CommandLineView,
    env: Map<Seq<char>, Seq<char>>,
) -> bool {
    match line {
        CommandLineView::Simple(cmd) => command_action_matches(action, cmd, false, env),
        CommandLineView::Background(cmd) => command_action_matches(action, cmd, true, env),
        CommandLineView::Pipeline(commands) => if commands.len() == 0 {
            action is Nothing
        } else {
            action matches Action::Pipeline(stages) && stage_plans_match(stages@, commands, env)
        },
    }
}

/// The text with which a line that does not parse is refused.
pub open spec fn parse_failure_spec(e: ParseError) -> Seq<char> {
    "Parse error: "@ + e.message_spec()
}

/// The directory that `cd` goes to: the home directory for an empty path and
/// for `~`, a path below it for `~/...`, else the path itself. Without a home
/// directory the root stands in for it.
pub open spec fn directory_target_spec(path: Seq<char>, home: Option<Seq<char>>) -> Seq<char> {
    let base = match home {
        Some(h) => h,
        None => "/"@,
    };
    if path.len() == 0 || path == "~"@ {
        base
    } else if starts_with_spec(path, "~/"@) {
        base + "/"@ + path.subrange(2, path.len() as int)
    } else {
        path
    }
}

/// The directory that `cd` goes to for `path`, `home` being the value of
/// `HOME` where it is set.
pub fn directory_target(path: &str, home: Option<&str>) -> (r: String)
    ensures
        r@ == directory_target_spec(
            path@,
            match home {
                Some(h) => Some(h@),
                None => None,
            },
        ),
{
    let base = match home {
        Some(h) => String::from_str(h),
        None => String::from_str("/"),
    };
    proof {
        reveal_strlit("~/");
    }
    if path.unicode_len() == 0 || str_eq(path, "~") {
        base
    } else if starts_with(path, "~/") {
        let cs = chars_of(path);
        let rest = string_of(&slice_of(&cs, 2, cs.len()));
        base.concat("/").concat(rest.as_str())
    } else {
        String::from_str(path)
    }
}

/// The command on a line of a script: the line without surrounding
/// whitespace, or nothing for a blank line and for a comment, which starts
/// with `#`.
pub open spec fn script_line_spec(line: Seq<char>) -> Option<Seq<char>> {
    let t = trim_spec(line);
    if t.len() == 0 || t[0] == '#' {
        None
    } else {
        Some(t)
    }
}

/// The command on a line of a script, if the line holds one.
pub fn script_line(line: &str) -> (r: Option<String>)
    ensures
        match r {
            Some(t) => script_line_spec(line@) == Some(t@),
            None => script_line_spec(line@) is None,
        },
{
    let t = trim(line);
    let cs = chars_of(t.as_str());
    if cs.len() == 0 || cs[0] == '#' {
        None
    } else {
        Some(t)
    }
}

/// The command on a line typed at the prompt: the line without surrounding
/// whitespace, or nothing for a blank line.
pub fn interactive_line(line: &str) -> (r: Option<String>)
    ensures
        match r {
            Some(t) => t@ == trim_spec(line@) && t@.len() > 0,
            None => trim_spec(line@).len() == 0,
        },
{
    let t = trim(line);
    if t.as_str().unicode_len() == 0 {
        None
    } else {
        Some(t)
    }
}

/// What is reported of a foreground command that has ended: nothing where it
/// succeeded, else its exit code, or that a signal ended it.
pub open spec fn exit_report_spec(success: bool, code: Option<i32>) -> Option<Seq<char>> {
    if success {
        None
    } else {
        match code {
            Some(c) => Some("Command exited with code "@ + signed_decimal_spec(c as int)),
            None => Some("Command terminated by signal"@),
        }
    }
}

/// What is reported of a foreground command that has ended.
pub fn exit_report(success: bool, code: Option<i32>) -> (r: Option<String>)
    ensures
        match r {
            Some(t) => exit_report_spec(success, code) == Some(t@),
            None => exit_report_spec(success, code) is None,
        },
{
    if success {
        None
    } else {
        match code {
            Some(c) => {
                let digits = signed_decimal(c);
                Some(String::from_str("Command exited with code ").concat(digits.as_str()))
            },
            None => Some(String::from_str("Command terminated by signal")),
        }
    }
}

/// The search path given to a shell whose surroundings set none.
pub const DEFAULT_PATH: &'static str = "/usr/local/bin:/usr/bin:/bin";

/// The prompt shown where `PS1` is unset.
pub const DEFAULT_PROMPT: &'static str = "aish$ ";

/// The variable map after the bindings of `vars` up to index `n` were set in
/// order on the empty map.
pub open spec fn initial_bindings(vars: Seq<(String, String)>, n: nat) -> Map<
    Seq<char>,
    Seq<char>,
>
    decreases n,
{
    if n == 0 {
        Map::empty()
    } else {
        initial_bindings(vars, (n - 1) as nat).insert(vars[n - 1].0@, vars[n - 1].1@)
    }
}

/// `env` with `key` bound to `value` unless `key` is bound already.
pub open spec fn with_default(
    env: Map<Seq<char>, Seq<char>>,
    key: Seq<char>,
    value: Seq<char>,
) -> Map<Seq<char>, Seq<char>> {
    if env.contains_key(key) {
        env
    } else {
        env.insert(key, value)
    }
}

/// The variables with which a shell starts: those handed in, with defaults
/// for `PATH` and `PS1` where they are missing.
pub open spec fn initial_environment(vars: Seq<(String, String)>) -> Map<Seq<char>, Seq<char>> {
    with_default(
        with_default(initial_bindings(vars, vars.len()), "PATH"@, DEFAULT_PATH@),
        "PS1"@,
        DEFAULT_PROMPT@,
    )
}

/// The interpreter's state.
#[derive(Debug)]
pub struct Shell {
    /// The variables, as builtins and expansion see them and as children inherit them.
    pub env_vars: StringMap,
    /// The background jobs that have not been seen to terminate, oldest first.
    pub background_jobs: Vec<Job>,
    /// Whether the interpreter was asked to stop.
    pub exit_requested: bool,
    pub parser: Parser,
}

impl Shell {
    /// A shell that starts with the given variables, with no job and no
    /// request to exit.
    pub fn new(vars: &Vec<(String, String)>) -> (s: Shell)
        ensures
            s.env_vars@ == initial_environment(vars@),
            s.background_jobs@.len() == 0,
            !s.exit_requested,
    {
        let mut env = StringMap::new();
        let mut i: usize = 0;
        while i < vars.len()
            invariant
                i <= vars@.len(),
                env@ == initial_bindings(vars@, i as nat),
            decreases vars@.len() - i,
        {
            env.set(vars[i].0.clone(), vars[i].1.clone());
            i += 1;
        }
        if !env.contains_key("PATH") {
            env.set(String::from_str("PATH"), String::from_str(DEFAULT_PATH));
        }
        if !env.contains_key("PS1") {
            env.set(String::from_str("PS1"), String::from_str(DEFAULT_PROMPT));
        }
        Shell {
            env_vars: env,
            background_jobs: Vec::new(),
            exit_requested: false,
            parser: Parser::new(),
        }
    }

    /// Binds a variable.
    pub fn set_env_var(&mut self, key: String, value: String)
        ensures
            final(self).env_vars@ == old(self).env_vars@.insert(key@, value@),
            final(self).background_jobs == old(self).background_jobs,
            final(self).exit_requested == old(self).exit_requested,
    {
        self.env_vars.set(key, value);
    }

    /// The value of a variable, or `None` where it is unset.
    pub fn get_env_var(&self, key: &str) -> (r: Option<&String>)
        ensures
            match r {
                Some(v) => self.env_vars@.contains_key(key@) && v@ == self.env_vars@[key@],
                None => !self.env_vars@.contains_key(key@),
            },
    {
        self.env_vars.get(key)
    }

    /// Unbinds a variable.
    pub fn unset_env_var(&mut self, key: &str)
        ensures
            final(self).env_vars@ == old(self).env_vars@.remove(key@),
            final(self).background_jobs == old(self).background_jobs,
            final(self).exit_requested == old(self).exit_requested,
    {
        self.env_vars.remove(key);
    }

    /// Asks the interpreter to stop after the current line.
    pub fn request_exit(&mut self)
        ensures
            final(self).exit_requested,
            final(self).env_vars@ == old(self).env_vars@,
            final(self).background_jobs == old(self).background_jobs,
    {
        self.exit_requested = true;
    }

    /// The prompt: the value of `PS1`, or the default where it is unset.
    pub fn get_prompt(&self) -> (r: String)
        ensures
            r@ == if self.env_vars@.contains_key("PS1"@) {
                self.env_vars@["PS1"@]
            } else {
                DEFAULT_PROMPT@
            },
    {
        match self.env_vars.get("PS1") {
            Some(p) => p.clone(),
            None => String::from_str(DEFAULT_PROMPT),
        }
    }

    /// What to start for an external command: the program with its
    /// arguments, every variable of the shell, the redirections in their
    /// order, and the standard streams they leave. A background command reads
    /// from the null device whatever was redirected.
    pub fn execute_external_command(&self, cmd: &SimpleCommand, background: bool) -> (plan:
        SpawnPlan)
        requires
            cmd.args@.len() >= 1,
        ensures
            plan.program@ == cmd.args@[0]@,
            texts(plan.args@) == texts(cmd.args@).subrange(1, cmd.args@.len() as int),
            pairs_hold(plan.env@, self.env_vars@),
            redirection_views(plan.redirections@) == redirection_views(cmd.redirections@),
            plan.stdin@ == if background {
                StdinView::Null
            } else {
                stdin_after(redirection_views(cmd.redirections@), cmd.redirections@.len())
            },
            plan.stdout@ == stdout_after(
                redirection_views(cmd.redirections@),
                cmd.redirections@.len(),
            ),
            plan.background == background,
    {
        let ghost all = redirection_views(cmd.redirections@);
        let mut redirections: Vec<Redirection> = Vec::new();
        let mut stdin = StdinSource::Inherit;
        let mut stdout = StdoutTarget::Inherit;
        let mut i: usize = 0;
        while i < cmd.redirections.len()
            invariant
                all == redirection_views(cmd.redirections@),
                i <= cmd.redirections@.len(),
                redirections@.len() == i,
                forall|k: int| 0 <= k < i ==> (#[trigger] redirections@[k])@ == all[k],
                stdin@ == stdin_after(all, i as nat),
                stdout@ == stdout_after(all, i as nat),
            decreases cmd.redirections@.len() - i,
        {
            let r = &cmd.redirections[i];
            assert(all[i as int] == r@);
            match r.redir_type {
                RedirectionType::Input => {
                    stdin = StdinSource::File(r.filename.clone());
                },
                RedirectionType::Output => {
                    stdout = StdoutTarget::Truncate(r.filename.clone());
                },
                RedirectionType::Append => {
                    stdout = StdoutTarget::Append(r.filename.clone());
                },
            }
            redirections.push(Redirection { redir_type: r.redir_type, filename: r.filename.clone() });
            i += 1;
        }
        assert(redirection_views(redirections@) =~= all);
        if background {
            stdin = StdinSource::Null;
        }
        SpawnPlan {
            program: cmd.args[0].clone(),
            args: clone_strings(&cmd.args, 1),
            env: self.env_vars.to_pairs(),
            redirections,
            stdin,
            stdout,
            background,
        }
    }

    /// What to start for a pipeline, stage by stage: the first stage reads
    /// the interpreter's input, the last writes the interpreter's output, and
    /// between two stages runs a pipe. Every stage gets every variable of the
    /// shell.
    pub fn execute_pipeline(&self, commands: &Vec<SimpleCommand>) -> (stages: Vec<StagePlan>)
        requires
            forall|i: int| 0 <= i < commands@.len() ==> (#[trigger] commands@[i]).args@.len() >= 1,
        ensures
            stages@.len() == commands@.len(),
            forall|i: int|
                0 <= i < stages@.len() ==> {
                    &&& (#[trigger] stages@[i]).program@ == commands@[i].args@[0]@
                    &&& texts(stages@[i].args@) == texts(commands@[i].args@).subrange(
                        1,
                        commands@[i].args@.len() as int,
                    )
                    &&& pairs_hold(stages@[i].env@, self.env_vars@)
                    &&& stages@[i].stdin == if i == 0 {
                        StageInput::Inherit
                    } else {
                        StageInput::PreviousStage
                    }
                    &&& stages@[i].stdout == if i == stages@.len() - 1 {
                        StageOutput::Inherit
                    } else {
                        StageOutput::Piped
                    }
                },
    {
        let mut stages: Vec<StagePlan> = Vec::new();
        let n: usize = commands.len();
        let mut i: usize = 0;
        while i < n
            invariant
                n == commands@.len(),
                i <= n,
                stages@.len() == i,
                forall|k: int|
                    0 <= k < commands@.len() ==> (#[trigger] commands@[k]).args@.len() >= 1,
                forall|k: int|
                    0 <= k < i ==> {
                        &&& (#[trigger] stages@[k]).program@ == commands@[k].args@[0]@
                        &&& texts(stages@[k].args@) == texts(commands@[k].args@).subrange(
                            1,
                            commands@[k].args@.len() as int,
                        )
                        &&& pairs_hold(stages@[k].env@, self.env_vars@)
                        &&& stages@[k].stdin == if k == 0 {
                            StageInput::Inherit
                        } else {
                            StageInput::PreviousStage
                        }
                        &&& stages@[k].stdout == if k == n - 1 {
                            StageOutput::Inherit
                        } else {
                            StageOutput::Piped
                        }
                    },
            decreases n - i,
        {
            let cmd = &commands[i];
            let stage = StagePlan {
                program: cmd.args[0].clone(),
                args: clone_strings(&cmd.args, 1),
                env: self.env_vars.to_pairs(),
                stdin: if i == 0 {
                    StageInput::Inherit
                } else {
                    StageInput::PreviousStage
                },
                stdout: if i == n - 1 {
                    StageOutput::Inherit
                } else {
                    StageOutput::Piped
                },
            };
            stages.push(stage);
            i += 1;
        }
        stages
    }

    /// What to do for one command: a builtin where its name is one, else an
    /// external process.
    pub fn execute_simple_command(&self, cmd: &SimpleCommand, background: bool) -> (action:
        Action)
        ensures
            command_action_matches(action, cmd@, background, self.env_vars@),
    {
        if cmd.args.len() == 0 {
            return Action::Nothing;
        }
        assert(cmd@.args[0] == cmd.args@[0]@);
        match Builtins::kind_of(cmd.args[0].as_str()) {
            Some(kind) => Action::Builtin(Handler { kind, args: clone_strings(&cmd.args, 1) }),
            None => Action::Spawn(self.execute_external_command(cmd, background)),
        }
    }

    /// What to do for a parsed line.
    pub fn execute_command_line(&self, command_line: &CommandLine) -> (action: Action)
        requires
            command_line matches CommandLine::Pipeline(commands) ==> forall|i: int|
                0 <= i < commands@.len() ==> (#[trigger] commands@[i]).args@.len() >= 1,
        ensures
            action_matches(action, command_line@, self.env_vars@),
    {
        match command_line {
            CommandLine::Simple(cmd) => self.execute_simple_command(cmd, false),
            CommandLine::Background(cmd) => self.execute_simple_command(cmd, true),
            CommandLine::Pipeline(commands) => {
                if commands.len() == 0 {
                    return Action::Nothing;
                }
                let stages = self.execute_pipeline(commands);
                proof {
                    let views = command_views(commands@);
                    assert forall|i: int| 0 <= i < stages@.len() implies {
                        &&& (#[trigger] stages@[i]).program@ == views[i].args[0]
                        &&& texts(stages@[i].args@) == views[i].args.subrange(
                            1,
                            views[i].args.len() as int,
                        )
                    } by {
                        assert(views[i] == commands@[i]@);
                        assert(views[i].args[0] == commands@[i].args@[0]@);
                    }
                }
                Action::Pipeline(stages)
            },
        }
    }

    /// Parses a line against the shell's variables and says what to do for
    /// it. A line that does not parse is refused with the reason.
    pub fn execute_line(&mut self, line: &str) -> (r: Result<Action, String>)
        ensures
            final(self).env_vars@ == old(self).env_vars@,
            final(self).background_jobs == old(self).background_jobs,
            final(self).exit_requested == old(self).exit_requested,
            match r {
                Ok(action) => parse_spec(line@, old(self).env_vars@) matches Ok(parsed)
                    && action_matches(action, parsed, old(self).env_vars@),
                Err(text) => exists|e: ParseError|
                    parse_spec(line@, old(self).env_vars@) == Err::<
                        CommandLineView,
                        crate::parser::ParseErrorView,
                    >(e@) && text@ == #[trigger] parse_failure_spec(e),
            },
    {
        match self.parser.parse(line, &self.env_vars) {
            Ok(command_line) => {
                proof {
                    if command_line is Pipeline {
                        let commands = command_line->Pipeline_0;
                        assert forall|i: int| 0 <= i < commands@.len() implies (
                        #[trigger] commands@[i]).args@.len() >= 1 by {
                            assert(command_views(commands@)[i] == commands@[i]@);
                        }
                    }
                }
                Ok(self.execute_command_line(&command_line))
            },
            Err(e) => {
                let text = String::from_str("Parse error: ").concat(e.message().as_str());
                assert(text@ == parse_failure_spec(e));
                Err(text)
            },
        }
    }

    /// Records a process that was started in the background and gives it the
    /// next display number: one more than the number of jobs in the table.
    pub fn register_job(&mut self, pid: u32) -> (job: Job)
        requires
            old(self).background_jobs@.len() < usize::MAX,
        ensures
            job == (Job { display_id: (old(self).background_jobs@.len() + 1) as usize, pid }),
            final(self).background_jobs@ == old(self).background_jobs@.push(job),
            final(self).env_vars@ == old(self).env_vars@,
            final(self).exit_requested == old(self).exit_requested,
    {
        let job = Job { display_id: self.background_jobs.len() + 1, pid };
        self.background_jobs.push(job);
        job
    }

    /// Takes note of one poll of every job, `statuses[i]` being what the wait
    /// on job `i` found: the running jobs stay, the others leave the table,
    /// and for each terminated job one line is returned to be shown.
    pub fn cleanup_background_jobs(&mut self, statuses: &Vec<PollStatus>) -> (lines: Vec<String>)
        requires
            statuses@.len() == old(self).background_jobs@.len(),
        ensures
            final(self).background_jobs@ == kept_jobs(
                old(self).background_jobs@,
                statuses@,
                statuses@.len(),
            ),
            texts(lines@) == done_pids(
                old(self).background_jobs@,
                statuses@,
                statuses@.len(),
            ).map_values(|pid: u32| done_message_spec(pid)),
            final(self).env_vars@ == old(self).env_vars@,
            final(self).exit_requested == old(self).exit_requested,
    {
        let ghost jobs = self.background_jobs@;
        let mut kept: Vec<Job> = Vec::new();
        let mut lines: Vec<String> = Vec::new();
        let mut i: usize = 0;
        assert(texts(lines@) =~= done_pids(jobs, statuses@, 0).map_values(
            |pid: u32| done_message_spec(pid),
        ));
        while i < statuses.len()
            invariant
                jobs == self.background_jobs@,
                *self == *old(self),
                statuses@.len() == jobs.len(),
                i <= statuses@.len(),
                kept@ == kept_jobs(jobs, statuses@, i as nat),
                texts(lines@) == done_pids(jobs, statuses@, i as nat).map_values(
                    |pid: u32| done_message_spec(pid),
                ),
            decreases statuses@.len() - i,
        {
            let ghost before = lines@;
            let job = self.background_jobs[i];
            match statuses[i] {
                PollStatus::Running => {
                    kept.push(job);
                },
                PollStatus::Exited => {
                    lines.push(done_message(job.pid));
                    assert(texts(lines@) =~= texts(before).push(done_message_spec(job.pid)));
                    assert(done_pids(jobs, statuses@, (i + 1) as nat).map_values(
                        |pid: u32| done_message_spec(pid),
                    ) =~= done_pids(jobs, statuses@, i as nat).map_values(
                        |pid: u32| done_message_spec(pid),
                    ).push(done_message_spec(job.pid)));
                },
                PollStatus::Failed => {},
            }
            i += 1;
        }
        self.background_jobs = kept;
        lines
    }

    /// Empties the job table for shutdown and hands out every job that was in
    /// it, to be terminated and waited for.
    pub fn cleanup_all_jobs(&mut self) -> (jobs: Vec<Job>)
        ensures
            jobs@ == old(self).background_jobs@,
            final(self).background_jobs@.len() == 0,
            final(self).env_vars@ == old(self).env_vars@,
            final(self).exit_requested == old(self).exit_requested,
    {
        let mut jobs: Vec<Job> = Vec::new();
        core::mem::swap(&mut self.background_jobs, &mut jobs);
        jobs
    }
}

} // verus!
