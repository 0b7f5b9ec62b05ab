//! The commands that the interpreter carries out itself.

use vstd::prelude::*;
use vstd::string::StringExecFns;
use crate::shell::Shell;
use crate::text::{chars_of, slice_of, split, split_spec, str_eq, string_of, texts};

verus! {

/// The builtin commands.
#[derive(Debug, Clone, Copy, PartialEq, Eq, Structural)]
pub enum BuiltinKind {
    Exit,
    Cd,
    Pwd,
    Echo,
    Export,
    Unset,
    Env,
    Type,
    Help,
    History,
}

/// The builtin that a command name stands for, if it stands for one.
pub open spec fn builtin_of(name: Seq<char>) -> Option<BuiltinKind> {
    if name == "exit"@ {
        Some(BuiltinKind::Exit)
    } else if name == "cd"@ {
        Some(BuiltinKind::Cd)
    } else if name == "pwd"@ {
        Some(BuiltinKind::Pwd)
    } else if name == "echo"@ {
        Some(BuiltinKind::Echo)
    } else if name == "export"@ {
        Some(BuiltinKind::Export)
    } else if name == "unset"@ {
        Some(BuiltinKind::Unset)
    } else if name == "env"@ {
        Some(BuiltinKind::Env)
    } else if name == "type"@ {
        Some(BuiltinKind::Type)
    } else if name == "help"@ {
        Some(BuiltinKind::Help)
    } else if name == "history"@ {
        Some(BuiltinKind::History)
    } else {
        None
    }
}

/// A builtin bound to its arguments, to be carried out against the shell's state.
#[derive(Debug)]
pub struct Handler {
    pub kind: BuiltinKind,
    pub args: Vec<String>,
}

/// The registry of builtin commands.
#[derive(Debug)]
pub struct Builtins;

/// The character that an escape letter stands for, if it is one.
pub open spec fn escaped_char(c: char) -> Option<char> {
    if c == 'n' {
        Some('\n')
    } else if c == 't' {
        Some('\t')
    } else if c == 'r' {
        Some('\r')
    } else if c == '\\' {
        Some('\\')
    } else if c == '"' {
        Some('"')
    } else if c == '\'' {
        Some('\'')
    } else {
        None
    }
}

/// `s` from position `i` on with its escape sequences replaced, appended to
/// `out`. A backslash before any other character, or at the end, stays.
pub open spec fn unescape_from(s: Seq<char>, i: int, out: Seq<char>) -> Seq<char>
    decreases s.len() - i,
{
    if i < 0 || i >= s.len() {
        out
    } else if s[i] != '\\' {
        unescape_from(s, i + 1, out.push(s[i]))
    } else if i + 1 >= s.len() {
        out.push('\\')
    } else {
        match escaped_char(s[i + 1]) {
            Some(c) => unescape_from(s, i + 2, out.push(c)),
            None => unescape_from(s, i + 2, out.push('\\').push(s[i + 1])),
        }
    }
}

/// `s` with `\n`, `\t`, `\r`, `\\`, `\"` and `\'` replaced by the characters
/// they stand for.
pub open spec fn unescape_spec(s: Seq<char>) -> Seq<char> {
    unescape_from(s, 0, Seq::empty())
}

/// The value of a decimal digit, if `c` is one.
pub open spec fn digit_value(c: char) -> Option<int> {
    if c == '0' {
        Some(0)
    } else if c == '1' {
        Some(1)
    } else if c == '2' {
        Some(2)
    } else if c == '3' {
        Some(3)
    } else if c == '4' {
        Some(4)
    } else if c == '5' {
        Some(5)
    } else if c == '6' {
        Some(6)
    } else if c == '7' {
        Some(7)
    } else if c == '8' {
        Some(8)
    } else if c == '9' {
        Some(9)
    } else {
        None
    }
}

/// Whether every character of `s` is a decimal digit.
pub open spec fn all_digits(s: Seq<char>) -> bool {
    forall|i: int| 0 <= i < s.len() ==> digit_value(#[trigger] s[i]) is Some
}

/// The number that a string of decimal digits writes.
pub open spec fn digits_value(s: Seq<char>) -> int
    decreases s.len(),
{
    if s.len() == 0 {
        0
    } else {
        digits_value(s.drop_last()) * 10 + match digit_value(s.last()) {
            Some(d) => d,
            None => 0,
        }
    }
}

/// The number that `s` writes as a 32-bit integer: an optional sign and then
/// one or more decimal digits, where the number fits.
pub open spec fn parse_i32_spec(s: Seq<char>) -> Option<i32> {
    let signed = s.len() > 0 && (s[0] == '-' || s[0] == '+');
    let digits = if signed {
        s.subrange(1, s.len() as int)
    } else {
        s
    };
    let value = if s.len() > 0 && s[0] == '-' {
        -digits_value(digits)
    } else {
        digits_value(digits)
    };
    if digits.len() > 0 && all_digits(digits) && i32::MIN <= value <= i32::MAX {
        Some(value as i32)
    } else {
        None
    }
}

/// A number does not shrink when digits are appended.
proof fn lemma_digits_value_prefix(s: Seq<char>, i: int)
    requires
        0 <= i <= s.len(),
    ensures
        0 <= digits_value(s.subrange(0, i)) <= digits_value(s),
    decreases s.len() - i,
{
    lemma_digits_value_nonnegative(s.subrange(0, i));
    if i < s.len() {
        assert(s.subrange(0, i + 1).drop_last() =~= s.subrange(0, i));
        lemma_digits_value_prefix(s, i + 1);
    } else {
        assert(s.subrange(0, i) =~= s);
    }
}

proof fn lemma_digits_value_nonnegative(s: Seq<char>)
    ensures
        0 <= digits_value(s),
    decreases s.len(),
{
    if s.len() > 0 {
        lemma_digits_value_nonnegative(s.drop_last());
    }
}

/// The value of a decimal digit, if `c` is one.
fn digit_of(c: char) -> (r: Option<i64>)
    ensures
        match r {
            Some(d) => digit_value(c) == Some(d as int) && 0 <= d <= 9,
            None => digit_value(c) is None,
        },
{
    if c == '0' {
        Some(0)
    } else if c == '1' {
        Some(1)
    } else if c == '2' {
        Some(2)
    } else if c == '3' {
        Some(3)
    } else if c == '4' {
        Some(4)
    } else if c == '5' {
        Some(5)
    } else if c == '6' {
        Some(6)
    } else if c == '7' {
        Some(7)
    } else if c == '8' {
        Some(8)
    } else if c == '9' {
        Some(9)
    } else {
        None
    }
}

/// Reads a 32-bit integer: an optional sign and then decimal digits.
pub fn parse_i32(s: &str) -> (r: Option<i32>)
    ensures
        r == parse_i32_spec(s@),
{
    let cs = chars_of(s);
    let negative = cs.len() > 0 && cs[0] == '-';
    let signed = cs.len() > 0 && (cs[0] == '-' || cs[0] == '+');
    let start: usize = if signed {
        1
    } else {
        0
    };
    let ghost digits = cs@.subrange(start as int, cs@.len() as int);
    if cs.len() == start {
        return None;
    }
    assert(!signed ==> digits =~= cs@);
    let mut acc: i64 = 0;
    let mut i: usize = start;
    assert(digits.subrange(0, 0) =~= Seq::<char>::empty());
    while i < cs.len()
        invariant
            cs@ == s@,
            start <= i <= cs@.len(),
            negative == (cs@.len() > 0 && cs@[0] == '-'),
            signed == (cs@.len() > 0 && (cs@[0] == '-' || cs@[0] == '+')),
            start == if signed {
                1int
            } else {
                0int
            },
            digits == cs@.subrange(start as int, cs@.len() as int),
            !signed ==> digits == cs@,
            all_digits(digits.subrange(0, i - start)),
            acc == digits_value(digits.subrange(0, i - start)),
            0 <= acc <= 2147483648,
        decreases cs@.len() - i,
    {
        let ghost prefix = digits.subrange(0, i - start);
        let ghost longer = digits.subrange(0, i + 1 - start);
        assert(longer.drop_last() =~= prefix);
        assert(longer.last() == cs@[i as int]);
        match digit_of(cs[i]) {
            Some(d) => {
                acc = acc * 10 + d;
                assert(acc == digits_value(longer));
                assert(all_digits(longer)) by {
                    assert forall|k: int| 0 <= k < longer.len() implies digit_value(
                        #[trigger] longer[k],
                    ) is Some by {
                        if k < prefix.len() {
                            assert(longer[k] == prefix[k]);
                        }
                    }
                }
                if acc > 2147483648 {
                    proof {
                        lemma_digits_value_prefix(digits, i + 1 - start);
                        assert(digits_value(digits) > 2147483648);
                    }
                    return None;
                }
            },
            None => {
                assert(digit_value(digits[i - start]) is None);
                return None;
            },
        }
        i += 1;
    }
    assert(digits.subrange(0, i - start) =~= digits);
    if negative {
        Some((-acc) as i32)
    } else if acc > 2147483647 {
        None
    } else {
        Some(acc as i32)
    }
}

/// What a builtin asks of the surroundings: the library decides, the
/// driver of the shell performs.
#[derive(Debug)]
pub enum Effect {
    /// Write the text and a newline to standard output.
    PrintLine(String),
    /// Write the text to standard output without a newline, and flush.
    Print(String),
    /// Write the text and a newline to standard error.
    PrintErrorLine(String),
    /// Set a variable in the environment of the process.
    SetOsVar(String, String),
    /// Remove a variable from the environment of the process.
    RemoveOsVar(String),
    /// End the process at once with this code.
    ExitProcess(i32),
    /// Change the working directory as `cd` does for this path.
    ChangeDirectory(String),
    /// Write the working directory to standard output.
    PrintWorkingDirectory,
    /// Write the environment of the process to standard output, sorted by name.
    PrintOsEnvironment,
    /// Look the command up on the search path and write where it is found.
    Locate(String),
}

/// The mathematical value of an [`Effect`].
pub enum EffectView {
    PrintLine(Seq<char>),
    Print(Seq<char>),
    PrintErrorLine(Seq<char>),
    SetOsVar(Seq<char>, Seq<char>),
    RemoveOsVar(Seq<char>),
    ExitProcess(i32),
    ChangeDirectory(Seq<char>),
    PrintWorkingDirectory,
    PrintOsEnvironment,
    Locate(Seq<char>),
}

impl View for Effect {
    type V = EffectView;

    open spec fn view(&self) -> EffectView {
        match self {
            Effect::PrintLine(t) => EffectView::PrintLine(t@),
            Effect::Print(t) => EffectView::Print(t@),
            Effect::PrintErrorLine(t) => EffectView::PrintErrorLine(t@),
            Effect::SetOsVar(k, v) => EffectView::SetOsVar(k@, v@),
            Effect::RemoveOsVar(k) => EffectView::RemoveOsVar(k@),
            Effect::ExitProcess(c) => EffectView::ExitProcess(*c),
            Effect::ChangeDirectory(p) => EffectView::ChangeDirectory(p@),
            Effect::PrintWorkingDirectory => EffectView::PrintWorkingDirectory,
            Effect::PrintOsEnvironment => EffectView::PrintOsEnvironment,
            Effect::Locate(c) => EffectView::Locate(c@),
        }
    }
}

/// The values of a list of effects.
pub open spec fn effect_views(v: Seq<Effect>) -> Seq<EffectView> {
    v.map_values(|e: Effect| e@)
}

/// Appends an effect.
fn emit(effects: &mut Vec<Effect>, e: Effect)
    ensures
        effect_views(final(effects)@) == effect_views(old(effects)@).push(e@),
{
    effects.push(e);
    assert(effect_views(effects@) =~= effect_views(old(effects)@).push(e@));
}

/// The code with which `exit` ends the shell: 0 without an argument, else the
/// number that the first argument writes, or 1 where it writes none.
pub open spec fn exit_code_spec(args: Seq<Seq<char>>) -> i32 {
    if args.len() == 0 {
        0
    } else {
        match parse_i32_spec(args[0]) {
            Some(c) => c,
            None => 1,
        }
    }
}

/// Whether `arg` is one of the options of `echo`.
pub open spec fn is_echo_flag(arg: Seq<char>) -> bool {
    arg == "-n"@ || arg == "-e"@ || arg == "-E"@
}

/// The number of options with which the arguments of `echo` start, counted
/// from index `i`.
pub open spec fn echo_flag_run(args: Seq<Seq<char>>, i: int) -> nat
    decreases args.len() - i,
{
    if 0 <= i < args.len() && is_echo_flag(args[i]) {
        1 + echo_flag_run(args, i + 1)
    } else {
        0
    }
}

/// Whether `echo` ends its output with a newline: unless `-n` is among the
/// first `n` arguments.
pub open spec fn echo_newline(args: Seq<Seq<char>>, n: nat) -> bool
    decreases n,
{
    if n == 0 {
        true
    } else {
        args[n - 1] != "-n"@ && echo_newline(args, (n - 1) as nat)
    }
}

/// Whether `echo` interprets escape sequences: as the last of `-e` and `-E`
/// among the first `n` arguments says, and not where there is neither.
pub open spec fn echo_escapes(args: Seq<Seq<char>>, n: nat) -> bool
    decreases n,
{
    if n == 0 {
        false
    } else if args[n - 1] == "-e"@ {
        true
    } else if args[n - 1] == "-E"@ {
        false
    } else {
        echo_escapes(args, (n - 1) as nat)
    }
}

/// The arguments from index `start` up to, not including, index `n`, joined
/// by single spaces, each with its escape sequences replaced where `escapes` holds.
pub open spec fn echo_join(args: Seq<Seq<char>>, start: int, n: int, escapes: bool) -> Seq<char>
    decreases n - start,
{
    if n <= start {
        Seq::empty()
    } else {
        let piece = if escapes {
            unescape_spec(args[n - 1])
        } else {
            args[n - 1]
        };
        if n - 1 == start {
            piece
        } else {
            echo_join(args, start, n - 1, escapes).push(' ') + piece
        }
    }
}

/// What `echo` writes.
pub open spec fn echo_effect(args: Seq<Seq<char>>) -> EffectView {
    let flags = echo_flag_run(args, 0);
    let text = echo_join(args, flags as int, args.len() as int, echo_escapes(args, flags));
    if echo_newline(args, flags) {
        EffectView::PrintLine(text)
    } else {
        EffectView::Print(text)
    }
}

/// The options of `echo` end within its arguments.
pub proof fn lemma_echo_flag_run_bound(args: Seq<Seq<char>>, i: int)
    requires
        0 <= i <= args.len(),
    ensures
        i + echo_flag_run(args, i) <= args.len(),
    decreases args.len() - i,
{
    if i < args.len() && is_echo_flag(args[i]) {
        lemma_echo_flag_run_bound(args, i + 1);
    }
}

/// The number of characters of `s` from `i` up to the next `c` or the end.
pub open spec fn run_before(s: Seq<char>, c: char, i: int) -> nat
    decreases s.len() - i,
{
    if 0 <= i < s.len() && s[i] != c {
        1 + run_before(s, c, i + 1)
    } else {
        0
    }
}

/// The characters before the next `c` end within the string, and none of them is `c`.
pub proof fn lemma_run_before(s: Seq<char>, c: char, i: int)
    requires
        0 <= i <= s.len(),
    ensures
        i + run_before(s, c, i) <= s.len(),
        i + run_before(s, c, i) < s.len() ==> s[i + run_before(s, c, i)] == c,
        forall|k: int| i <= k < i + run_before(s, c, i) ==> s[k] != c,
    decreases s.len() - i,
{
    if i < s.len() && s[i] != c {
        lemma_run_before(s, c, i + 1);
    }
}

/// What `export` does for one argument: `NAME=VALUE`, split at the first
/// `=`, binds the variable in the shell and in the process; a bare `NAME`
/// hands the shell's binding on to the process, or reports that there is none.
pub open spec fn export_step(env: Map<Seq<char>, Seq<char>>, arg: Seq<char>) -> (
    Map<Seq<char>, Seq<char>>,
    EffectView,
) {
    let n = run_before(arg, '=', 0) as int;
    if n < arg.len() {
        let key = arg.subrange(0, n);
        let value = arg.subrange(n + 1, arg.len() as int);
        (env.insert(key, value), EffectView::SetOsVar(key, value))
    } else if env.contains_key(arg) {
        (env, EffectView::SetOsVar(arg, env[arg]))
    } else {
        (env, EffectView::PrintErrorLine("export: "@ + arg + ": not found"@))
    }
}

/// What `export` does for its arguments from index `i` on, given the
/// variables and the effects so far.
pub open spec fn export_from(
    env: Map<Seq<char>, Seq<char>>,
    args: Seq<Seq<char>>,
    i: int,
    effects: Seq<EffectView>,
) -> (Map<Seq<char>, Seq<char>>, Seq<EffectView>)
    decreases args.len() - i,
{
    if i < 0 || i >= args.len() {
        (env, effects)
    } else {
        let (next, effect) = export_step(env, args[i]);
        export_from(next, args, i + 1, effects.push(effect))
    }
}

/// In `NAME=VALUE`, where the name holds no `=`, the name ends at the first `=`.
proof fn lemma_assignment_splits(name: Seq<char>, value: Seq<char>, i: int)
    requires
        !name.contains('='),
        0 <= i <= name.len(),
    ensures
        run_before(name + seq!['='] + value, '=', i) == name.len() - i,
    decreases name.len() - i,
{
    let arg = name + seq!['='] + value;
    if i < name.len() {
        assert(arg[i] == name[i]);
        assert(name.contains(name[i]));
        lemma_assignment_splits(name, value, i + 1);
    } else {
        assert(arg[i] == '=');
    }
}

/// Exporting `NAME=VALUE` binds the name to the value in the shell and asks
/// for the same in the process; unsetting the name afterwards removes it
/// from the shell and asks for its removal from the process.
pub proof fn lemma_export_then_unset(
    env: Map<Seq<char>, Seq<char>>,
    name: Seq<char>,
    value: Seq<char>,
)
    requires
        !name.contains('='),
    ensures
        ({
            let exported = export_from(env, seq![name + seq!['='] + value], 0, Seq::empty());
            let unset = unset_from(exported.0, seq![name], 0, Seq::empty());
            &&& exported.0 == env.insert(name, value)
            &&& exported.0.contains_key(name) && exported.0[name] == value
            &&& exported.1 == seq![EffectView::SetOsVar(name, value)]
            &&& unset.0 == env.remove(name)
            &&& !unset.0.contains_key(name)
            &&& unset.1 == seq![EffectView::RemoveOsVar(name)]
        }),
{
    let arg = name + seq!['='] + value;
    lemma_assignment_splits(name, value, 0);
    assert(arg.subrange(0, name.len() as int) =~= name);
    assert(arg.subrange(name.len() as int + 1, arg.len() as int) =~= value);
    reveal_with_fuel(export_from, 2);
    reveal_with_fuel(unset_from, 2);
    let exported = export_from(env, seq![arg], 0, Seq::empty());
    assert(exported.1 =~= seq![EffectView::SetOsVar(name, value)]);
    let unset = unset_from(exported.0, seq![name], 0, Seq::empty());
    assert(unset.0 =~= env.remove(name));
    assert(unset.1 =~= seq![EffectView::RemoveOsVar(name)]);
}

/// What `unset` does for its arguments from index `i` on: each names a
/// variable that leaves the shell and the process.
pub open spec fn unset_from(
    env: Map<Seq<char>, Seq<char>>,
    args: Seq<Seq<char>>,
    i: int,
    effects: Seq<EffectView>,
) -> (Map<Seq<char>, Seq<char>>, Seq<EffectView>)
    decreases args.len() - i,
{
    if i < 0 || i >= args.len() {
        (env, effects)
    } else {
        unset_from(
            env.remove(args[i]),
            args,
            i + 1,
            effects.push(EffectView::RemoveOsVar(args[i])),
        )
    }
}

/// What `type` writes for its arguments from index `i` on: a builtin is
/// named as one, any other command is looked up on the search path.
pub open spec fn type_from(args: Seq<Seq<char>>, i: int, effects: Seq<EffectView>) -> Seq<
    EffectView,
>
    decreases args.len() - i,
{
    if i < 0 || i >= args.len() {
        effects
    } else if builtin_of(args[i]) is Some {
        type_from(
            args,
            i + 1,
            effects.push(EffectView::PrintLine(args[i] + " is a shell builtin"@)),
        )
    } else {
        type_from(args, i + 1, effects.push(EffectView::Locate(args[i])))
    }
}

/// The lines that `help` writes.
pub open spec fn help_lines() -> Seq<Seq<char>> {
    seq![
        "aish - A simple shell"@,
        "Built-in commands:"@,
        "  exit [n]     - Exit the shell with optional exit code"@,
        "  cd [dir]     - Change directory to dir (or home if no dir)"@,
        "  pwd          - Print current working directory"@,
        "  echo [args]  - Display arguments"@,
        "  export VAR=value - Set environment variable"@,
        "  unset VAR    - Unset environment variable"@,
        "  env          - Display environment variables"@,
        "  type command - Display information about command type"@,
        "  help         - Display this help message"@,
        "  history      - Display command history"@,
        ""@,
        "Features:"@,
        "  - Command execution"@,
        "  - I/O redirection (>, <, >>)"@,
        "  - Pipes (|)"@,
        "  - Background processes (&)"@,
        "  - Variable expansion ($VAR, ${VAR})"@,
        "  - Command history (arrow keys)"@,
        "  - Tab completion"@,
    ]
}

/// The lines that `history` writes.
pub open spec fn history_lines() -> Seq<Seq<char>> {
    seq![
        "History functionality would be implemented here"@,
        "Use arrow keys to navigate through command history"@,
    ]
}

/// The effects of a builtin, given its arguments and the shell's variables.
pub open spec fn builtin_effects(
    kind: BuiltinKind,
    args: Seq<Seq<char>>,
    env: Map<Seq<char>, Seq<char>>,
) -> Seq<EffectView> {
    match kind {
        BuiltinKind::Exit => if exit_code_spec(args) != 0 {
            seq![EffectView::ExitProcess(exit_code_spec(args))]
        } else {
            Seq::empty()
        },
        BuiltinKind::Cd => seq![
            EffectView::ChangeDirectory(
                if args.len() == 0 {
                    Seq::empty()
                } else {
                    args[0]
                },
            ),
        ],
        BuiltinKind::Pwd => seq![EffectView::PrintWorkingDirectory],
        BuiltinKind::Echo => seq![echo_effect(args)],
        BuiltinKind::Export => if args.len() == 0 {
            seq![EffectView::PrintOsEnvironment]
        } else {
            export_from(env, args, 0, Seq::empty()).1
        },
        BuiltinKind::Unset => unset_from(env, args, 0, Seq::empty()).1,
        BuiltinKind::Env => seq![EffectView::PrintOsEnvironment],
        BuiltinKind::Type => if args.len() == 0 {
            seq![EffectView::PrintErrorLine("type: usage: type [-afptP] name [name ...]"@)]
        } else {
            type_from(args, 0, Seq::empty())
        },
        BuiltinKind::Help => help_lines().map_values(|l: Seq<char>| EffectView::PrintLine(l)),
        BuiltinKind::History => history_lines().map_values(
            |l: Seq<char>| EffectView::PrintLine(l),
        ),
    }
}

/// The shell's variables after a builtin: only `export` and `unset` change them.
pub open spec fn builtin_env(
    kind: BuiltinKind,
    args: Seq<Seq<char>>,
    env: Map<Seq<char>, Seq<char>>,
) -> Map<Seq<char>, Seq<char>> {
    match kind {
        BuiltinKind::Export => export_from(env, args, 0, Seq::empty()).0,
        BuiltinKind::Unset => unset_from(env, args, 0, Seq::empty()).0,
        _ => env,
    }
}

impl Builtins {
    /// The registry.
    pub fn new() -> Builtins {
        Builtins
    }

    /// Whether `command` names a builtin.
    pub fn is_builtin(command: &str) -> (r: bool)
        ensures
            r == builtin_of(command@) is Some,
    {
        Builtins::kind_of(command).is_some()
    }

    /// The builtin that `command` names.
    pub fn kind_of(command: &str) -> (r: Option<BuiltinKind>)
        ensures
            r == builtin_of(command@),
    {
        if str_eq(command, "exit") {
            Some(BuiltinKind::Exit)
        } else if str_eq(command, "cd") {
            Some(BuiltinKind::Cd)
        } else if str_eq(command, "pwd") {
            Some(BuiltinKind::Pwd)
        } else if str_eq(command, "echo") {
            Some(BuiltinKind::Echo)
        } else if str_eq(command, "export") {
            Some(BuiltinKind::Export)
        } else if str_eq(command, "unset") {
            Some(BuiltinKind::Unset)
        } else if str_eq(command, "env") {
            Some(BuiltinKind::Env)
        } else if str_eq(command, "type") {
            Some(BuiltinKind::Type)
        } else if str_eq(command, "help") {
            Some(BuiltinKind::Help)
        } else if str_eq(command, "history") {
            Some(BuiltinKind::History)
        } else {
            None
        }
    }

    /// Looks a command up: the builtin bound to `args` where `command` names
    /// one, else `None`.
    pub fn execute(&self, command: &str, args: &[String]) -> (r: Option<Handler>)
        ensures
            match r {
                Some(h) => builtin_of(command@) == Some(h.kind) && texts(h.args@) == texts(args@),
                None => builtin_of(command@) is None,
            },
    {
        match Builtins::kind_of(command) {
            Some(kind) => {
                let mut copy: Vec<String> = Vec::new();
                let mut i: usize = 0;
                while i < args.len()
                    invariant
                        i <= args@.len(),
                        copy@.len() == i,
                        forall|k: int| 0 <= k < i ==> copy@[k]@ == args@[k]@,
                    decreases args@.len() - i,
                {
                    copy.push(args[i].clone());
                    i += 1;
                }
                assert(texts(copy@) =~= texts(args@));
                Some(Handler { kind, args: copy })
            },
            None => None,
        }
    }

    /// Replaces the escape sequences of `input` by the characters they stand for.
    pub fn interpret_escape_sequences(input: &str) -> (r: String)
        ensures
            r@ == unescape_spec(input@),
    {
        let cs = chars_of(input);
        let mut out = String::new();
        let mut i: usize = 0;
        while i < cs.len()
            invariant
                cs@ == input@,
                i <= cs@.len(),
                unescape_from(cs@, i as int, out@) == unescape_spec(input@),
            decreases cs@.len() - i,
        {
            let c = cs[i];
            if c != '\\' {
                out.push(c);
                i += 1;
            } else if i + 1 >= cs.len() {
                out.push('\\');
                i += 1;
            } else {
                let next = cs[i + 1];
                if next == 'n' {
                    out.push('\n');
                } else if next == 't' {
                    out.push('\t');
                } else if next == 'r' {
                    out.push('\r');
                } else if next == '\\' {
                    out.push('\\');
                } else if next == '"' {
                    out.push('"');
                } else if next == '\'' {
                    out.push('\'');
                } else {
                    out.push('\\');
                    out.push(next);
                }
                i += 2;
            }
        }
        out
    }
}

/// Whether `arg` is one of the options of `echo`.
fn echo_flag(arg: &str) -> (r: bool)
    ensures
        r == is_echo_flag(arg@),
{
    str_eq(arg, "-n") || str_eq(arg, "-e") || str_eq(arg, "-E")
}

/// The candidates for a command on a search path: for each directory that
/// the colons of the path separate, the command's name below it.
pub open spec fn path_candidates_spec(path_var: Seq<char>, command: Seq<char>) -> Seq<Seq<char>> {
    split_spec(path_var, ':').map_values(|dir: Seq<char>| dir + "/"@ + command)
}

/// The candidates for `command` on the search path `path_var`, in the order
/// in which they are to be tried.
pub fn path_candidates(path_var: &str, command: &str) -> (r: Vec<String>)
    ensures
        texts(r@) == path_candidates_spec(path_var@, command@),
{
    let dirs = split(path_var, ':');
    let mut r: Vec<String> = Vec::new();
    let mut i: usize = 0;
    while i < dirs.len()
        invariant
            i <= dirs@.len(),
            r@.len() == i,
            forall|k: int| 0 <= k < i ==> r@[k]@ == dirs@[k]@ + "/"@ + command@,
        decreases dirs@.len() - i,
    {
        r.push(dirs[i].clone().concat("/").concat(command));
        i += 1;
    }
    assert(texts(r@) =~= texts(dirs@).map_values(|dir: Seq<char>| dir + "/"@ + command@));
    r
}

/// What `type` writes of a command that was looked up on the search path.
pub open spec fn located_message_spec(command: Seq<char>, found: Option<Seq<char>>) -> Seq<char> {
    match found {
        Some(path) => command + " is "@ + path,
        None => command + ": not found"@,
    }
}

/// What `type` writes of `command`, `found` being where it was found, if anywhere.
pub fn located_message(command: &str, found: Option<&str>) -> (r: String)
    ensures
        r@ == located_message_spec(
            command@,
            match found {
                Some(p) => Some(p@),
                None => None,
            },
        ),
{
    match found {
        Some(path) => String::from_str(command).concat(" is ").concat(path),
        None => String::from_str(command).concat(": not found"),
    }
}

impl Builtins {
    /// `exit`: asks the shell to stop, and where the code is not 0 ends the
    /// process at once.
    pub fn exit(args: &Vec<String>, shell: &mut Shell) -> (effects: Vec<Effect>)
        ensures
            effect_views(effects@) == builtin_effects(
                BuiltinKind::Exit,
                texts(args@),
                old(shell).env_vars@,
            ),
            final(shell).exit_requested,
            final(shell).env_vars@ == old(shell).env_vars@,
            final(shell).background_jobs == old(shell).background_jobs,
    {
        let exit_code: i32 = if args.len() == 0 {
            0
        } else {
            match parse_i32(args[0].as_str()) {
                Some(c) => c,
                None => 1,
            }
        };
        shell.request_exit();
        let mut effects: Vec<Effect> = Vec::new();
        assert(effect_views(effects@) =~= Seq::<EffectView>::empty());
        if exit_code != 0 {
            emit(&mut effects, Effect::ExitProcess(exit_code));
            assert(effect_views(effects@) =~= seq![EffectView::ExitProcess(exit_code)]);
        }
        effects
    }

    /// `cd`: goes to the first argument, or home without one.
    pub fn cd(args: &Vec<String>) -> (effects: Vec<Effect>)
        ensures
            effect_views(effects@) == seq![
                EffectView::ChangeDirectory(
                    if args@.len() == 0 {
                        Seq::empty()
                    } else {
                        args@[0]@
                    },
                ),
            ],
    {
        let path = if args.len() == 0 {
            String::new()
        } else {
            args[0].clone()
        };
        let mut effects: Vec<Effect> = Vec::new();
        let ghost target = path@;
        emit(&mut effects, Effect::ChangeDirectory(path));
        assert(effect_views(effects@) =~= seq![EffectView::ChangeDirectory(target)]);
        effects
    }

    /// `echo`: writes its arguments, joined by spaces. Leading `-n` leaves
    /// the newline out, `-e` turns the escape sequences on and `-E` off.
    pub fn echo(args: &Vec<String>) -> (effect: Effect)
        ensures
            effect@ == echo_effect(texts(args@)),
    {
        let ghost a = texts(args@);
        let mut newline = true;
        let mut escapes = false;
        let mut i: usize = 0;
        while i < args.len() && echo_flag(args[i].as_str())
            invariant
                a == texts(args@),
                i <= args@.len(),
                echo_flag_run(a, 0) == i + echo_flag_run(a, i as int),
                newline == echo_newline(a, i as nat),
                escapes == echo_escapes(a, i as nat),
            decreases args@.len() - i,
        {
            assert(a[i as int] == args@[i as int]@);
            if str_eq(args[i].as_str(), "-n") {
                proof {
                    reveal_strlit("-n");
                    reveal_strlit("-e");
                    reveal_strlit("-E");
                    assert("-n"@[1] != "-e"@[1]);
                    assert("-n"@[1] != "-E"@[1]);
                }
                newline = false;
            } else if str_eq(args[i].as_str(), "-e") {
                escapes = true;
            } else {
                escapes = false;
            }
            i += 1;
        }
        assert(i < args@.len() ==> a[i as int] == args@[i as int]@);
        let start: usize = i;
        let mut out = String::new();
        while i < args.len()
            invariant
                a == texts(args@),
                start <= i <= args@.len(),
                out@ == echo_join(a, start as int, i as int, escapes),
            decreases args@.len() - i,
        {
            assert(a[i as int] == args@[i as int]@);
            let ghost before = out@;
            if i > start {
                out.push(' ');
            }
            if escapes {
                let piece = Builtins::interpret_escape_sequences(args[i].as_str());
                out.append(piece.as_str());
            } else {
                out.append(args[i].as_str());
            }
            proof {
                if i == start {
                    assert(Seq::<char>::empty() + a[i as int] =~= a[i as int]);
                    assert(Seq::<char>::empty() + unescape_spec(a[i as int]) =~= unescape_spec(
                        a[i as int],
                    ));
                }
            }
            i += 1;
        }
        if newline {
            Effect::PrintLine(out)
        } else {
            Effect::Print(out)
        }
    }

    /// `export`: without arguments shows the environment; else binds each
    /// `NAME=VALUE` in the shell and in the process, and hands each bare
    /// `NAME` that the shell knows on to the process.
    pub fn export(args: &Vec<String>, shell: &mut Shell) -> (effects: Vec<Effect>)
        ensures
            effect_views(effects@) == builtin_effects(
                BuiltinKind::Export,
                texts(args@),
                old(shell).env_vars@,
            ),
            final(shell).env_vars@ == builtin_env(
                BuiltinKind::Export,
                texts(args@),
                old(shell).env_vars@,
            ),
            final(shell).exit_requested == old(shell).exit_requested,
            final(shell).background_jobs == old(shell).background_jobs,
    {
        let ghost a = texts(args@);
        let mut effects: Vec<Effect> = Vec::new();
        assert(effect_views(effects@) =~= Seq::<EffectView>::empty());
        if args.len() == 0 {
            emit(&mut effects, Effect::PrintOsEnvironment);
            assert(effect_views(effects@) =~= seq![EffectView::PrintOsEnvironment]);
            return effects;
        }
        let mut i: usize = 0;
        while i < args.len()
            invariant
                a == texts(args@),
                i <= args@.len(),
                shell.exit_requested == old(shell).exit_requested,
                shell.background_jobs == old(shell).background_jobs,
                export_from(shell.env_vars@, a, i as int, effect_views(effects@)) == export_from(
                    old(shell).env_vars@,
                    a,
                    0,
                    Seq::empty(),
                ),
            decreases args@.len() - i,
        {
            assert(a[i as int] == args@[i as int]@);
            let cs = chars_of(args[i].as_str());
            let mut j: usize = 0;
            while j < cs.len() && cs[j] != '='
                invariant
                    j <= cs@.len(),
                    run_before(cs@, '=', 0) == j + run_before(cs@, '=', j as int),
                decreases cs@.len() - j,
            {
                j += 1;
            }
            if j < cs.len() {
                let key = string_of(&slice_of(&cs, 0, j));
                let value = string_of(&slice_of(&cs, j + 1, cs.len()));
                shell.set_env_var(key.clone(), value.clone());
                emit(&mut effects, Effect::SetOsVar(key, value));
            } else {
                match shell.get_env_var(args[i].as_str()) {
                    Some(v) => {
                        let value = v.clone();
                        emit(&mut effects, Effect::SetOsVar(args[i].clone(), value));
                    },
                    None => {
                        let line = String::from_str("export: ").concat(args[i].as_str()).concat(
                            ": not found",
                        );
                        emit(&mut effects, Effect::PrintErrorLine(line));
                    },
                }
            }
            i += 1;
        }
        effects
    }

    /// `unset`: removes each named variable from the shell and from the process.
    pub fn unset(args: &Vec<String>, shell: &mut Shell) -> (effects: Vec<Effect>)
        ensures
            effect_views(effects@) == builtin_effects(
                BuiltinKind::Unset,
                texts(args@),
                old(shell).env_vars@,
            ),
            final(shell).env_vars@ == builtin_env(
                BuiltinKind::Unset,
                texts(args@),
                old(shell).env_vars@,
            ),
            final(shell).exit_requested == old(shell).exit_requested,
            final(shell).background_jobs == old(shell).background_jobs,
    {
        let ghost a = texts(args@);
        let mut effects: Vec<Effect> = Vec::new();
        assert(effect_views(effects@) =~= Seq::<EffectView>::empty());
        let mut i: usize = 0;
        while i < args.len()
            invariant
                a == texts(args@),
                i <= args@.len(),
                shell.exit_requested == old(shell).exit_requested,
                shell.background_jobs == old(shell).background_jobs,
                unset_from(shell.env_vars@, a, i as int, effect_views(effects@)) == unset_from(
                    old(shell).env_vars@,
                    a,
                    0,
                    Seq::empty(),
                ),
            decreases args@.len() - i,
        {
            assert(a[i as int] == args@[i as int]@);
            shell.unset_env_var(args[i].as_str());
            emit(&mut effects, Effect::RemoveOsVar(args[i].clone()));
            i += 1;
        }
        effects
    }

    /// `type`: says of each argument whether it is a builtin, and asks for
    /// the others to be looked up on the search path.
    pub fn type_command(args: &Vec<String>) -> (effects: Vec<Effect>)
        ensures
            effect_views(effects@) == if args@.len() == 0 {
                seq![EffectView::PrintErrorLine("type: usage: type [-afptP] name [name ...]"@)]
            } else {
                type_from(texts(args@), 0, Seq::empty())
            },
    {
        let ghost a = texts(args@);
        let mut effects: Vec<Effect> = Vec::new();
        assert(effect_views(effects@) =~= Seq::<EffectView>::empty());
        if args.len() == 0 {
            let usage = String::from_str("type: usage: type [-afptP] name [name ...]");
            emit(&mut effects, Effect::PrintErrorLine(usage));
            assert(effect_views(effects@) =~= seq![
                EffectView::PrintErrorLine("type: usage: type [-afptP] name [name ...]"@),
            ]);
            return effects;
        }
        let mut i: usize = 0;
        while i < args.len()
            invariant
                a == texts(args@),
                i <= args@.len(),
                type_from(a, i as int, effect_views(effects@)) == type_from(a, 0, Seq::empty()),
            decreases args@.len() - i,
        {
            assert(a[i as int] == args@[i as int]@);
            if Builtins::is_builtin(args[i].as_str()) {
                let line = args[i].clone().concat(" is a shell builtin");
                emit(&mut effects, Effect::PrintLine(line));
            } else {
                emit(&mut effects, Effect::Locate(args[i].clone()));
            }
            i += 1;
        }
        effects
    }

    /// `help`: describes the builtins and the shell's features.
    pub fn help() -> (effects: Vec<Effect>)
        ensures
            effect_views(effects@) == help_lines().map_values(
                |l: Seq<char>| EffectView::PrintLine(l),
            ),
    {
        let mut e: Vec<Effect> = Vec::new();
        e.push(Effect::PrintLine(String::from_str("aish - A simple shell")));
        e.push(Effect::PrintLine(String::from_str("Built-in commands:")));
        e.push(
            Effect::PrintLine(
                String::from_str("  exit [n]     - Exit the shell with optional exit code"),
            ),
        );
        e.push(
            Effect::PrintLine(
                String::from_str("  cd [dir]     - Change directory to dir (or home if no dir)"),
            ),
        );
        e.push(
            Effect::PrintLine(String::from_str("  pwd          - Print current working directory")),
        );
        e.push(Effect::PrintLine(String::from_str("  echo [args]  - Display arguments")));
        e.push(
            Effect::PrintLine(String::from_str("  export VAR=value - Set environment variable")),
        );
        e.push(Effect::PrintLine(String::from_str("  unset VAR    - Unset environment variable")));
        e.push(
            Effect::PrintLine(String::from_str("  env          - Display environment variables")),
        );
        e.push(
            Effect::PrintLine(
                String::from_str("  type command - Display information about command type"),
            ),
        );
        e.push(Effect::PrintLine(String::from_str("  help         - Display this help message")));
        e.push(Effect::PrintLine(String::from_str("  history      - Display command history")));
        e.push(Effect::PrintLine(String::from_str("")));
        e.push(Effect::PrintLine(String::from_str("Features:")));
        e.push(Effect::PrintLine(String::from_str("  - Command execution")));
        e.push(Effect::PrintLine(String::from_str("  - I/O redirection (>, <, >>)")));
        e.push(Effect::PrintLine(String::from_str("  - Pipes (|)")));
        e.push(Effect::PrintLine(String::from_str("  - Background processes (&)")));
        e.push(Effect::PrintLine(String::from_str("  - Variable expansion ($VAR, ${VAR})")));
        e.push(Effect::PrintLine(String::from_str("  - Command history (arrow keys)")));
        e.push(Effect::PrintLine(String::from_str("  - Tab completion")));
        assert(effect_views(e@) =~= help_lines().map_values(
            |l: Seq<char>| EffectView::PrintLine(l),
        ));
        e
    }

    /// `history`: says where the history is to be found.
    pub fn history() -> (effects: Vec<Effect>)
        ensures
            effect_views(effects@) == history_lines().map_values(
                |l: Seq<char>| EffectView::PrintLine(l),
            ),
    {
        let mut e: Vec<Effect> = Vec::new();
        e.push(
            Effect::PrintLine(String::from_str("History functionality would be implemented here")),
        );
        e.push(
            Effect::PrintLine(
                String::from_str("Use arrow keys to navigate through command history"),
            ),
        );
        assert(effect_views(e@) =~= history_lines().map_values(
            |l: Seq<char>| EffectView::PrintLine(l),
        ));
        e
    }
}

impl Handler {
    /// Carries the builtin out against the shell's state and says what is
    /// left for the surroundings to do, in order.
    pub fn call(&self, shell: &mut Shell) -> (effects: Vec<Effect>)
        ensures
            effect_views(effects@) == builtin_effects(
                self.kind,
                texts(self.args@),
                old(shell).env_vars@,
            ),
            final(shell).env_vars@ == builtin_env(
                self.kind,
                texts(self.args@),
                old(shell).env_vars@,
            ),
            final(shell).exit_requested == (old(shell).exit_requested || self.kind
                == BuiltinKind::Exit),
            final(shell).background_jobs == old(shell).background_jobs,
    {
        match self.kind {
            BuiltinKind::Exit => Builtins::exit(&self.args, shell),
            BuiltinKind::Cd => Builtins::cd(&self.args),
            BuiltinKind::Pwd => {
                let mut e: Vec<Effect> = Vec::new();
                e.push(Effect::PrintWorkingDirectory);
                assert(effect_views(e@) =~= seq![EffectView::PrintWorkingDirectory]);
                e
            },
            BuiltinKind::Echo => {
                let effect = Builtins::echo(&self.args);
                let mut e: Vec<Effect> = Vec::new();
                e.push(effect);
                assert(effect_views(e@) =~= seq![effect@]);
                e
            },
            BuiltinKind::Export => Builtins::export(&self.args, shell),
            BuiltinKind::Unset => Builtins::unset(&self.args, shell),
            BuiltinKind::Env => {
                let mut e: Vec<Effect> = Vec::new();
                e.push(Effect::PrintOsEnvironment);
                assert(effect_views(e@) =~= seq![EffectView::PrintOsEnvironment]);
                e
            },
            BuiltinKind::Type => Builtins::type_command(&self.args),
            BuiltinKind::Help => Builtins::help(),
            BuiltinKind::History => Builtins::history(),
        }
    }
}

} // verus!
