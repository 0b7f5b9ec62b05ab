//! Command-line grammar: tokens, variable expansion and the three command shapes.

use vstd::prelude::*;
use vstd::string::StringExecFns;
use crate::string_map::StringMap;
use crate::text::{
    chars_of, item_chars, item_slice, lemma_marked_run_bound, marked_run, string_of, texts,
};

verus! {

/// Whether `c` is one of the four operator characters.
pub open spec fn is_operator_char(c: char) -> bool {
    c == '|' || c == '&' || c == '<' || c == '>'
}

/// Whether `c` opens or closes a quoted region.
pub open spec fn is_quote_char(c: char) -> bool {
    c == '"' || c == '\''
}

/// Whether `c` separates words outside quotes.
pub open spec fn is_blank_char(c: char) -> bool {
    c == ' ' || c == '\t'
}

/// What the scanner has gathered at some position of the line.
pub struct ScanState {
    /// The tokens emitted so far.
    pub tokens: Seq<Seq<char>>,
    /// The characters of the token under construction.
    pub current: Seq<char>,
    /// The quote character of the open quoted region, if one is open.
    pub quote: Option<char>,
}

/// The tokens after the pending partial token, if any, has been emitted.
pub open spec fn flush(tokens: Seq<Seq<char>>, current: Seq<char>) -> Seq<Seq<char>> {
    if current.len() == 0 {
        tokens
    } else {
        tokens.push(current)
    }
}

/// One scanner step at position `i < s.len()`: the new state and the next position.
pub open spec fn scan_step(s: Seq<char>, i: int, st: ScanState) -> (ScanState, int) {
    let c = s[i];
    match st.quote {
        Some(q) => if c == q {
            (ScanState { quote: None, ..st }, i + 1)
        } else {
            (ScanState { current: st.current.push(c), ..st }, i + 1)
        },
        None => if is_quote_char(c) {
            (ScanState { quote: Some(c), ..st }, i + 1)
        } else if is_blank_char(c) {
            (
                ScanState {
                    tokens: flush(st.tokens, st.current),
                    current: Seq::empty(),
                    quote: None,
                },
                i + 1,
            )
        } else if is_operator_char(c) {
            let emitted = flush(st.tokens, st.current);
            if c == '>' && i + 1 < s.len() && s[i + 1] == '>' {
                (
                    ScanState {
                        tokens: emitted.push(seq!['>', '>']),
                        current: Seq::empty(),
                        quote: None,
                    },
                    i + 2,
                )
            } else {
                (
                    ScanState { tokens: emitted.push(seq![c]), current: Seq::empty(), quote: None },
                    i + 1,
                )
            }
        } else if c == '\\' {
            if i + 1 < s.len() {
                (ScanState { current: st.current.push(s[i + 1]), ..st }, i + 2)
            } else {
                (st, i + 1)
            }
        } else {
            (ScanState { current: st.current.push(c), ..st }, i + 1)
        },
    }
}

/// The tokens of `s` given that the scanner stands at position `i` in state `st`.
/// End of input emits the pending partial token, whether or not a quote is open.
pub open spec fn scan(s: Seq<char>, i: int, st: ScanState) -> Seq<Seq<char>>
    decreases s.len() - i,
{
    if i < 0 || i >= s.len() {
        flush(st.tokens, st.current)
    } else {
        let (next, j) = scan_step(s, i, st);
        scan(s, j, next)
    }
}

/// The state in which scanning starts.
pub open spec fn scan_start() -> ScanState {
    ScanState { tokens: Seq::empty(), current: Seq::empty(), quote: None }
}

/// The tokens of a line.
pub open spec fn tokenize_spec(line: Seq<char>) -> Seq<Seq<char>> {
    scan(line, 0, scan_start())
}

/// A quoted region is never split: from its opening quote at `i` to its closing
/// quote at `j`, the scanner emits no token and appends the region's characters,
/// blanks and operators included, to the token under construction.
pub proof fn lemma_quoted_region_kept_whole(s: Seq<char>, i: int, j: int, st: ScanState)
    requires
        0 <= i < j < s.len(),
        st.quote is None,
        is_quote_char(s[i]),
        s[j] == s[i],
        forall|k: int| i < k < j ==> s[k] != s[i],
    ensures
        scan(s, i, st) == scan(
            s,
            j + 1,
            ScanState {
                tokens: st.tokens,
                current: st.current + s.subrange(i + 1, j),
                quote: None,
            },
        ),
{
    let opened = ScanState { quote: Some(s[i]), ..st };
    assert(scan(s, i, st) == scan(s, i + 1, opened));
    lemma_inside_quotes(s, i + 1, j, opened);
    assert(scan(s, j, ScanState { current: st.current + s.subrange(i + 1, j), ..opened })
        == scan(s, j + 1, ScanState { current: st.current + s.subrange(i + 1, j), ..st }));
}

/// Inside an open quoted region every character up to the closing quote is
/// taken literally.
proof fn lemma_inside_quotes(s: Seq<char>, i: int, j: int, st: ScanState)
    requires
        0 <= i <= j < s.len(),
        st.quote is Some,
        forall|k: int| i <= k < j ==> s[k] != st.quote->0,
    ensures
        scan(s, i, st) == scan(
            s,
            j,
            ScanState { current: st.current + s.subrange(i, j), ..st },
        ),
    decreases j - i,
{
    if i == j {
        assert(st.current + s.subrange(i, j) =~= st.current);
    } else {
        let next = ScanState { current: st.current.push(s[i]), ..st };
        assert(scan(s, i, st) == scan(s, i + 1, next));
        lemma_inside_quotes(s, i + 1, j, next);
        assert(next.current + s.subrange(i + 1, j) =~= st.current + s.subrange(i, j));
    }
}

/// A line that is one quoted region holding at least one character, none of
/// them the quote itself, is a single token: the region's contents.
pub proof fn lemma_quoted_line_is_one_token(q: char, body: Seq<char>)
    requires
        is_quote_char(q),
        body.len() > 0,
        !body.contains(q),
    ensures
        tokenize_spec(seq![q] + body + seq![q]) == seq![body],
{
    let s = seq![q] + body + seq![q];
    let j = body.len() + 1;
    assert forall|k: int| 0 < k < j implies s[k] != q by {
        assert(s[k] == body[k - 1]);
    }
    lemma_quoted_region_kept_whole(s, 0, j as int, scan_start());
    assert(s.subrange(1, j as int) =~= body);
    assert(Seq::<char>::empty() + body =~= body);
    assert(Seq::<Seq<char>>::empty().push(body) =~= seq![body]);
}

/// What `char::is_alphanumeric` answers for a character.
pub uninterp spec fn is_alphanumeric_char(c: char) -> bool;

/// `char::is_alphanumeric` of the standard library: whether the character is
/// alphabetic or numeric in the Unicode sense. The answer depends on the
/// character alone and is named, not spelled out.
pub assume_specification[ char::is_alphanumeric ](c: char) -> (b: bool)
    ensures
        b == is_alphanumeric_char(c),
;

/// Whether `c` may stand in a bare variable name.
pub open spec fn is_name_char(c: char) -> bool {
    is_alphanumeric_char(c) || c == '_'
}

/// The characters of `t`, each marked as a name character or not.
pub open spec fn name_marks_spec(t: Seq<char>) -> Seq<(char, bool)> {
    t.map_values(|c: char| (c, is_name_char(c)))
}

/// The number of characters from index `i` up to the next `}` or the end.
pub open spec fn brace_run(items: Seq<(char, bool)>, i: int) -> nat
    decreases items.len() - i,
{
    if 0 <= i < items.len() && items[i].0 != '}' {
        1 + brace_run(items, i + 1)
    } else {
        0
    }
}

/// A braced name ends within the token.
pub proof fn lemma_brace_run_bound(items: Seq<(char, bool)>, i: int)
    requires
        0 <= i <= items.len(),
    ensures
        i + brace_run(items, i) <= items.len(),
    decreases items.len() - i,
{
    if i < items.len() && items[i].0 != '}' {
        lemma_brace_run_bound(items, i + 1);
    }
}

/// The value of a variable: what the map binds to it, or nothing where it is unset.
pub open spec fn value_of(env: Map<Seq<char>, Seq<char>>, name: Seq<char>) -> Seq<char> {
    if env.contains_key(name) {
        env[name]
    } else {
        Seq::empty()
    }
}

/// The expansion of a token from position `i` on, appended to `out`. The
/// token is given by its characters, each marked as a name character or not.
///
/// `${NAME}` reads the name up to the closing brace, or to the end where the
/// brace is missing; `$NAME` reads the longest run of name characters; a `$`
/// that no name follows stands for itself.
pub open spec fn expand_marked_from(
    items: Seq<(char, bool)>,
    i: int,
    env: Map<Seq<char>, Seq<char>>,
    out: Seq<char>,
) -> Seq<char>
    decreases items.len() - i,
    via expand_marked_from_terminates
{
    if i < 0 || i >= items.len() {
        out
    } else if items[i].0 != '$' {
        expand_marked_from(items, i + 1, env, out.push(items[i].0))
    } else if i + 1 < items.len() && items[i + 1].0 == '{' {
        let n = brace_run(items, i + 2);
        let name = item_chars(items.subrange(i + 2, i + 2 + n));
        let next = if i + 2 + n < items.len() {
            i + 3 + n
        } else {
            i + 2 + n
        };
        expand_marked_from(items, next, env, out + value_of(env, name))
    } else {
        let n = marked_run(items, i + 1);
        if n == 0 {
            expand_marked_from(items, i + 1, env, out.push('$'))
        } else {
            expand_marked_from(
                items,
                i + 1 + n,
                env,
                out + value_of(env, item_chars(items.subrange(i + 1, i + 1 + n))),
            )
        }
    }
}

#[via_fn]
proof fn expand_marked_from_terminates(
    items: Seq<(char, bool)>,
    i: int,
    env: Map<Seq<char>, Seq<char>>,
    out: Seq<char>,
) {
    if 0 <= i < items.len() && items[i].0 == '$' {
        if i + 1 < items.len() && items[i + 1].0 == '{' {
            lemma_brace_run_bound(items, i + 2);
        } else {
            lemma_marked_run_bound(items, i + 1);
        }
    }
}

/// The expansion of a token, given by its marked characters, against a
/// variable map.
pub open spec fn expand_marked_spec(
    items: Seq<(char, bool)>,
    env: Map<Seq<char>, Seq<char>>,
) -> Seq<char> {
    expand_marked_from(items, 0, env, Seq::empty())
}

/// The expansion of a token against a variable map.
pub open spec fn expand_spec(t: Seq<char>, env: Map<Seq<char>, Seq<char>>) -> Seq<char> {
    expand_marked_spec(name_marks_spec(t), env)
}

/// A token without `$` expands to itself.
pub proof fn lemma_expand_plain(t: Seq<char>, env: Map<Seq<char>, Seq<char>>)
    requires
        !t.contains('$'),
    ensures
        expand_spec(t, env) == t,
{
    lemma_expand_plain_from(t, 0, env, Seq::empty());
    assert(Seq::<char>::empty() + t.subrange(0, t.len() as int) =~= t);
}

proof fn lemma_expand_plain_from(
    t: Seq<char>,
    i: int,
    env: Map<Seq<char>, Seq<char>>,
    out: Seq<char>,
)
    requires
        0 <= i <= t.len(),
        !t.contains('$'),
    ensures
        expand_marked_from(name_marks_spec(t), i, env, out) == out + t.subrange(
            i,
            t.len() as int,
        ),
    decreases t.len() - i,
{
    let items = name_marks_spec(t);
    if i < t.len() {
        assert(t.contains(t[i]));
        assert(items[i].0 == t[i]);
        lemma_expand_plain_from(t, i + 1, env, out.push(t[i]));
        assert(out.push(t[i]) + t.subrange(i + 1, t.len() as int) =~= out + t.subrange(
            i,
            t.len() as int,
        ));
    } else {
        assert(out + t.subrange(i, t.len() as int) =~= out);
    }
}

/// The characters of `cs`, each marked as a name character or not.
pub fn name_marks(cs: &Vec<char>) -> (r: Vec<(char, bool)>)
    ensures
        r@ == name_marks_spec(cs@),
{
    let mut r: Vec<(char, bool)> = Vec::new();
    let mut i: usize = 0;
    while i < cs.len()
        invariant
            i <= cs@.len(),
            r@.len() == i,
            forall|k: int| 0 <= k < i ==> r@[k] == (cs@[k], is_name_char(cs@[k])),
        decreases cs@.len() - i,
    {
        let c = cs[i];
        r.push((c, c.is_alphanumeric() || c == '_'));
        i += 1;
    }
    assert(r@ =~= name_marks_spec(cs@));
    r
}

/// Replaces `$NAME` and `${NAME}` in a token by the variables' values; an
/// unset variable contributes nothing. The token is given by its characters,
/// each marked as a name character or not.
pub fn expand_marked(items: &Vec<(char, bool)>, env: &StringMap) -> (r: String)
    ensures
        r@ == expand_marked_spec(items@, env@),
{
    let mut out = String::new();
    let mut i: usize = 0;
    while i < items.len()
        invariant
            i <= items@.len(),
            expand_marked_from(items@, i as int, env@, out@) == expand_marked_spec(items@, env@),
        decreases items@.len() - i,
    {
        let c = items[i].0;
        if c != '$' {
            out.push(c);
            i += 1;
        } else if i + 1 < items.len() && items[i + 1].0 == '{' {
            let start: usize = i + 2;
            let mut j: usize = start;
            while j < items.len() && items[j].0 != '}'
                invariant
                    start <= j <= items@.len(),
                    brace_run(items@, start as int) == (j - start) + brace_run(items@, j as int),
                decreases items@.len() - j,
            {
                j += 1;
            }
            let name = string_of(&item_slice(items, start, j));
            match env.get(name.as_str()) {
                Some(v) => {
                    out.append(v.as_str());
                },
                None => {
                    assert(out@ + Seq::<char>::empty() =~= out@);
                },
            }
            if j < items.len() {
                i = j + 1;
            } else {
                i = j;
            }
        } else {
            let start: usize = i + 1;
            let mut j: usize = start;
            while j < items.len() && items[j].1
                invariant
                    start <= j <= items@.len(),
                    marked_run(items@, start as int) == (j - start) + marked_run(
                        items@,
                        j as int,
                    ),
                decreases items@.len() - j,
            {
                j += 1;
            }
            if j == start {
                out.push('$');
                i += 1;
            } else {
                let name = string_of(&item_slice(items, start, j));
                match env.get(name.as_str()) {
                    Some(v) => {
                        out.append(v.as_str());
                    },
                    None => {
                        assert(out@ + Seq::<char>::empty() =~= out@);
                    },
                }
                i = j;
            }
        }
    }
    out
}

/// Which stream a redirection remaps, and how.
#[derive(Debug, Clone, Copy, PartialEq, Eq, Structural)]
pub enum RedirectionType {
    /// `<`: standard input is read from the file.
    Input,
    /// `>`: standard output goes to the file, which is created or truncated.
    Output,
    /// `>>`: standard output is appended to the file.
    Append,
}

/// One redirection of a command.
#[derive(Debug, Clone)]
pub struct Redirection {
    pub redir_type: RedirectionType,
    pub filename: String,
}

/// A single invocation: the command name with its arguments, and its redirections.
#[derive(Debug, Clone)]
pub struct SimpleCommand {
    pub args: Vec<String>,
    pub redirections: Vec<Redirection>,
}

/// A parsed line.
#[derive(Debug, Clone)]
pub enum CommandLine {
    Simple(SimpleCommand),
    Pipeline(Vec<SimpleCommand>),
    Background(SimpleCommand),
}

/// Why a line could not be parsed.
#[derive(Debug)]
pub enum ParseError {
    UnexpectedToken(String),
    MissingFilename,
    EmptyCommand,
    InvalidSyntax(String),
}

/// The mathematical value of a [`Redirection`].
pub struct RedirectionView {
    pub redir_type: RedirectionType,
    pub filename: Seq<char>,
}

/// The mathematical value of a [`SimpleCommand`].
pub struct SimpleCommandView {
    pub args: Seq<Seq<char>>,
    pub redirections: Seq<RedirectionView>,
}

/// The mathematical value of a [`CommandLine`].
pub enum CommandLineView {
    Simple(SimpleCommandView),
    Pipeline(Seq<SimpleCommandView>),
    Background(SimpleCommandView),
}

/// The mathematical value of a [`ParseError`].
pub enum ParseErrorView {
    UnexpectedToken(Seq<char>),
    MissingFilename,
    EmptyCommand,
    InvalidSyntax(Seq<char>),
}

impl View for Redirection {
    type V = RedirectionView;

    open spec fn view(&self) -> RedirectionView {
        RedirectionView { redir_type: self.redir_type, filename: self.filename@ }
    }
}

/// The values of a list of redirections.
pub open spec fn redirection_views(v: Seq<Redirection>) -> Seq<RedirectionView> {
    v.map_values(|r: Redirection| r@)
}

impl View for SimpleCommand {
    type V = SimpleCommandView;

    open spec fn view(&self) -> SimpleCommandView {
        SimpleCommandView {
            args: texts(self.args@),
            redirections: redirection_views(self.redirections@),
        }
    }
}

/// The values of a list of commands.
pub open spec fn command_views(v: Seq<SimpleCommand>) -> Seq<SimpleCommandView> {
    v.map_values(|c: SimpleCommand| c@)
}

impl View for CommandLine {
    type V = CommandLineView;

    open spec fn view(&self) -> CommandLineView {
        match self {
            CommandLine::Simple(c) => CommandLineView::Simple(c@),
            CommandLine::Pipeline(cs) => CommandLineView::Pipeline(command_views(cs@)),
            CommandLine::Background(c) => CommandLineView::Background(c@),
        }
    }
}

impl View for ParseError {
    type V = ParseErrorView;

    open spec fn view(&self) -> ParseErrorView {
        match self {
            ParseError::UnexpectedToken(t) => ParseErrorView::UnexpectedToken(t@),
            ParseError::MissingFilename => ParseErrorView::MissingFilename,
            ParseError::EmptyCommand => ParseErrorView::EmptyCommand,
            ParseError::InvalidSyntax(m) => ParseErrorView::InvalidSyntax(m@),
        }
    }
}

/// The value of a command parse's outcome.
pub open spec fn command_outcome(r: Result<SimpleCommand, ParseError>) -> Result<
    SimpleCommandView,
    ParseErrorView,
> {
    match r {
        Ok(c) => Ok(c@),
        Err(e) => Err(e@),
    }
}

/// The value of a line parse's outcome.
pub open spec fn line_outcome(r: Result<CommandLine, ParseError>) -> Result<
    CommandLineView,
    ParseErrorView,
> {
    match r {
        Ok(c) => Ok(c@),
        Err(e) => Err(e@),
    }
}

/// The token `|`.
pub open spec fn pipe_token() -> Seq<char> {
    seq!['|']
}

/// The token `&`.
pub open spec fn background_token() -> Seq<char> {
    seq!['&']
}

/// The redirection that an operator token asks for, if it is one of `<`, `>`, `>>`.
pub open spec fn redirection_of(token: Seq<char>) -> Option<RedirectionType> {
    if token == seq!['<'] {
        Some(RedirectionType::Input)
    } else if token == seq!['>'] {
        Some(RedirectionType::Output)
    } else if token == seq!['>', '>'] {
        Some(RedirectionType::Append)
    } else {
        None
    }
}

/// The command spelled by `tokens` from position `i` on, given the arguments
/// and redirections gathered before `i`. A redirection operator takes the next
/// token as its file name; every other token is an argument. Arguments and
/// file names are expanded against `env`.
pub open spec fn simple_from(
    tokens: Seq<Seq<char>>,
    i: int,
    env: Map<Seq<char>, Seq<char>>,
    args: Seq<Seq<char>>,
    redirections: Seq<RedirectionView>,
) -> Result<SimpleCommandView, ParseErrorView>
    decreases tokens.len() - i,
{
    if i < 0 || i >= tokens.len() {
        if args.len() == 0 {
            Err(ParseErrorView::EmptyCommand)
        } else {
            Ok(SimpleCommandView { args, redirections })
        }
    } else {
        match redirection_of(tokens[i]) {
            Some(kind) => if i + 1 >= tokens.len() {
                Err(ParseErrorView::MissingFilename)
            } else {
                simple_from(
                    tokens,
                    i + 2,
                    env,
                    args,
                    redirections.push(
                        RedirectionView {
                            redir_type: kind,
                            filename: expand_spec(tokens[i + 1], env),
                        },
                    ),
                )
            },
            None => simple_from(
                tokens,
                i + 1,
                env,
                args.push(expand_spec(tokens[i], env)),
                redirections,
            ),
        }
    }
}

/// The command that a token list spells.
pub open spec fn simple_spec(tokens: Seq<Seq<char>>, env: Map<Seq<char>, Seq<char>>) -> Result<
    SimpleCommandView,
    ParseErrorView,
> {
    simple_from(tokens, 0, env, Seq::empty(), Seq::empty())
}

/// The stages spelled by `tokens` from position `i` on, given the stages
/// completed before `i` and the arguments of the stage under construction.
/// Stages are separated by `|`, carry no redirections and are not expanded;
/// a stage without arguments is an error.
pub open spec fn pipeline_from(
    tokens: Seq<Seq<char>>,
    i: int,
    stages: Seq<SimpleCommandView>,
    args: Seq<Seq<char>>,
) -> Result<Seq<SimpleCommandView>, ParseErrorView>
    decreases tokens.len() - i,
{
    if i < 0 || i >= tokens.len() {
        if args.len() == 0 {
            Err(ParseErrorView::InvalidSyntax("Pipeline ends with |"@))
        } else {
            Ok(stages.push(SimpleCommandView { args, redirections: Seq::empty() }))
        }
    } else if tokens[i] == pipe_token() {
        if args.len() == 0 {
            Err(ParseErrorView::InvalidSyntax("Empty command in pipeline"@))
        } else {
            pipeline_from(
                tokens,
                i + 1,
                stages.push(SimpleCommandView { args, redirections: Seq::empty() }),
                Seq::empty(),
            )
        }
    } else {
        pipeline_from(tokens, i + 1, stages, args.push(tokens[i]))
    }
}

/// The pipeline that a token list spells.
pub open spec fn pipeline_spec(tokens: Seq<Seq<char>>) -> Result<CommandLineView, ParseErrorView> {
    match pipeline_from(tokens, 0, Seq::empty(), Seq::empty()) {
        Ok(stages) => Ok(CommandLineView::Pipeline(stages)),
        Err(e) => Err(e),
    }
}

/// The tokens that remain to be parsed once a trailing `&` is taken off.
pub open spec fn without_background(tokens: Seq<Seq<char>>) -> Seq<Seq<char>> {
    if tokens.len() > 0 && tokens.last() == background_token() {
        tokens.drop_last()
    } else {
        tokens
    }
}

/// What a token list parses to.
pub open spec fn parse_tokens_spec(
    tokens: Seq<Seq<char>>,
    env: Map<Seq<char>, Seq<char>>,
) -> Result<CommandLineView, ParseErrorView> {
    if tokens.len() == 0 {
        Err(ParseErrorView::EmptyCommand)
    } else {
        let background = tokens.last() == background_token();
        let rest = without_background(tokens);
        if rest.contains(pipe_token()) {
            if background {
                Err(ParseErrorView::InvalidSyntax("Background pipelines not supported"@))
            } else {
                pipeline_spec(rest)
            }
        } else {
            match simple_spec(rest, env) {
                Ok(c) => Ok(
                    if background {
                        CommandLineView::Background(c)
                    } else {
                        CommandLineView::Simple(c)
                    },
                ),
                Err(e) => Err(e),
            }
        }
    }
}

/// What a line parses to.
pub open spec fn parse_spec(line: Seq<char>, env: Map<Seq<char>, Seq<char>>) -> Result<
    CommandLineView,
    ParseErrorView,
> {
    parse_tokens_spec(tokenize_spec(line), env)
}

/// The shape that every parsed line has: a command has at least one argument,
/// and a pipeline has at least two stages, each without redirections.
pub open spec fn well_formed_line(c: CommandLineView) -> bool {
    match c {
        CommandLineView::Simple(s) => s.args.len() >= 1,
        CommandLineView::Background(s) => s.args.len() >= 1,
        CommandLineView::Pipeline(stages) => {
            &&& stages.len() >= 2
            &&& forall|k: int|
                0 <= k < stages.len() ==> (#[trigger] stages[k]).args.len() >= 1
                    && stages[k].redirections.len() == 0
        },
    }
}

/// A command that parses has at least one argument.
pub proof fn lemma_simple_has_argument(
    tokens: Seq<Seq<char>>,
    i: int,
    env: Map<Seq<char>, Seq<char>>,
    args: Seq<Seq<char>>,
    redirections: Seq<RedirectionView>,
)
    ensures
        simple_from(tokens, i, env, args, redirections) matches Ok(c) ==> c.args.len() >= 1,
    decreases tokens.len() - i,
{
    if 0 <= i < tokens.len() {
        match redirection_of(tokens[i]) {
            Some(kind) => {
                if i + 1 < tokens.len() {
                    lemma_simple_has_argument(
                        tokens,
                        i + 2,
                        env,
                        args,
                        redirections.push(
                            RedirectionView {
                                redir_type: kind,
                                filename: expand_spec(tokens[i + 1], env),
                            },
                        ),
                    );
                }
            },
            None => {
                lemma_simple_has_argument(
                    tokens,
                    i + 1,
                    env,
                    args.push(expand_spec(tokens[i], env)),
                    redirections,
                );
            },
        }
    }
}

/// The stages of a pipeline that parses: every stage has an argument and no
/// redirection, and each `|` from position `i` on adds a stage.
pub proof fn lemma_pipeline_stages(
    tokens: Seq<Seq<char>>,
    i: int,
    stages: Seq<SimpleCommandView>,
    args: Seq<Seq<char>>,
)
    requires
        0 <= i,
        forall|k: int|
            0 <= k < stages.len() ==> (#[trigger] stages[k]).args.len() >= 1
                && stages[k].redirections.len() == 0,
    ensures
        pipeline_from(tokens, i, stages, args) matches Ok(r) ==> {
            &&& r.len() >= stages.len() + 1
            &&& (exists|k: int| i <= k < tokens.len() && tokens[k] == pipe_token()) ==> r.len()
                >= stages.len() + 2
            &&& forall|k: int|
                0 <= k < r.len() ==> (#[trigger] r[k]).args.len() >= 1
                    && r[k].redirections.len() == 0
        },
    decreases tokens.len() - i,
{
    if i < tokens.len() {
        if tokens[i] == pipe_token() {
            if args.len() > 0 {
                lemma_pipeline_stages(
                    tokens,
                    i + 1,
                    stages.push(SimpleCommandView { args, redirections: Seq::empty() }),
                    Seq::empty(),
                );
            }
        } else {
            lemma_pipeline_stages(tokens, i + 1, stages, args.push(tokens[i]));
        }
    }
}

/// Every line that parses has the shape that [`well_formed_line`] describes.
pub proof fn lemma_parsed_line_well_formed(line: Seq<char>, env: Map<Seq<char>, Seq<char>>)
    ensures
        parse_spec(line, env) matches Ok(c) ==> well_formed_line(c),
{
    let tokens = tokenize_spec(line);
    if tokens.len() > 0 {
        let rest = without_background(tokens);
        if rest.contains(pipe_token()) {
            lemma_pipeline_stages(rest, 0, Seq::empty(), Seq::empty());
        } else {
            lemma_simple_has_argument(rest, 0, env, Seq::empty(), Seq::empty());
        }
    }
}

/// A line without tokens, such as an empty or blank one, is an empty command.
pub proof fn lemma_blank_line_is_empty_command(line: Seq<char>, env: Map<Seq<char>, Seq<char>>)
    requires
        forall|k: int| 0 <= k < line.len() ==> is_blank_char(line[k]),
    ensures
        tokenize_spec(line) == Seq::<Seq<char>>::empty(),
        parse_spec(line, env) == Err::<CommandLineView, ParseErrorView>(
            ParseErrorView::EmptyCommand,
        ),
{
    lemma_blanks_emit_nothing(line, 0);
}

proof fn lemma_blanks_emit_nothing(line: Seq<char>, i: int)
    requires
        0 <= i <= line.len(),
        forall|k: int| 0 <= k < line.len() ==> is_blank_char(line[k]),
    ensures
        scan(line, i, scan_start()) == Seq::<Seq<char>>::empty(),
    decreases line.len() - i,
{
    if i < line.len() {
        assert(scan_step(line, i, scan_start()) == (scan_start(), i + 1));
        lemma_blanks_emit_nothing(line, i + 1);
    }
}

/// Whether `token` is the single character `c`.
fn is_single(token: &str, c: char) -> (r: bool)
    ensures
        r == (token@ == seq![c]),
{
    let cs = chars_of(token);
    let r = cs.len() == 1 && cs[0] == c;
    assert(r ==> cs@ =~= seq![c]);
    r
}

/// The redirection that `token` asks for, if it is a redirection operator.
fn redirection_kind(token: &str) -> (r: Option<RedirectionType>)
    ensures
        r == redirection_of(token@),
{
    let cs = chars_of(token);
    if cs.len() == 1 && cs[0] == '<' {
        assert(cs@ =~= seq!['<']);
        Some(RedirectionType::Input)
    } else if cs.len() == 1 && cs[0] == '>' {
        assert(cs@ =~= seq!['>']);
        Some(RedirectionType::Output)
    } else if cs.len() == 2 && cs[0] == '>' && cs[1] == '>' {
        assert(cs@ =~= seq!['>', '>']);
        Some(RedirectionType::Append)
    } else {
        None
    }
}

impl ParseError {
    /// The text shown to the user for this error.
    pub open spec fn message_spec(self) -> Seq<char> {
        match self {
            ParseError::UnexpectedToken(t) => "Unexpected token: "@ + t@,
            ParseError::MissingFilename => "Missing filename for redirection"@,
            ParseError::EmptyCommand => "Empty command"@,
            ParseError::InvalidSyntax(m) => "Invalid syntax: "@ + m@,
        }
    }

    /// The text shown to the user for this error.
    pub fn message(&self) -> (r: String)
        ensures
            r@ == self.message_spec(),
    {
        match self {
            ParseError::UnexpectedToken(t) => String::from_str("Unexpected token: ").concat(
                t.as_str(),
            ),
            ParseError::MissingFilename => String::from_str("Missing filename for redirection"),
            ParseError::EmptyCommand => String::from_str("Empty command"),
            ParseError::InvalidSyntax(m) => String::from_str("Invalid syntax: ").concat(
                m.as_str(),
            ),
        }
    }
}

/// The parser: the tokens of the line being parsed and the read position in them.
#[derive(Debug)]
pub struct Parser {
    pub tokens: Vec<String>,
    pub position: usize,
}

impl Parser {
    /// A parser that holds no tokens.
    pub fn new() -> (p: Parser)
        ensures
            p.tokens@.len() == 0,
            p.position == 0,
    {
        Parser { tokens: Vec::new(), position: 0 }
    }

    /// Splits a line into tokens, honouring quotes and backslash escapes.
    pub fn tokenize(&self, input: &str) -> (tokens: Vec<String>)
        ensures
            texts(tokens@) == tokenize_spec(input@),
    {
        let cs = chars_of(input);
        let mut tokens: Vec<String> = Vec::new();
        let mut current: Vec<char> = Vec::new();
        let mut quote: Option<char> = None;
        let mut i: usize = 0;
        assert(texts(tokens@) =~= Seq::<Seq<char>>::empty());
        while i < cs.len()
            invariant
                cs@ == input@,
                i <= cs@.len(),
                scan(
                    cs@,
                    i as int,
                    ScanState { tokens: texts(tokens@), current: current@, quote },
                ) == tokenize_spec(input@),
            decreases cs@.len() - i,
        {
            let c = cs[i];
            let ghost st = ScanState { tokens: texts(tokens@), current: current@, quote };
            let ghost before = tokens@;
            let ghost at = i as int;
            match quote {
                Some(q) => {
                    if c == q {
                        quote = None;
                    } else {
                        current.push(c);
                    }
                    i += 1;
                },
                None => {
                    if c == '"' || c == '\'' {
                        quote = Some(c);
                        i += 1;
                    } else if c == ' ' || c == '\t' {
                        if current.len() > 0 {
                            tokens.push(string_of(&current));
                            current = Vec::new();
                            assert(texts(tokens@) =~= texts(before).push(st.current));
                        }
                        i += 1;
                    } else if c == '|' || c == '&' || c == '<' || c == '>' {
                        if current.len() > 0 {
                            tokens.push(string_of(&current));
                            current = Vec::new();
                            assert(texts(tokens@) =~= texts(before).push(st.current));
                        }
                        let ghost emitted = tokens@;
                        let mut op: Vec<char> = Vec::new();
                        op.push(c);
                        if c == '>' && i + 1 < cs.len() && cs[i + 1] == '>' {
                            op.push('>');
                            assert(op@ =~= seq!['>', '>']);
                            tokens.push(string_of(&op));
                            i += 2;
                        } else {
                            assert(op@ =~= seq![c]);
                            tokens.push(string_of(&op));
                            i += 1;
                        }
                        assert(texts(tokens@) =~= texts(emitted).push(op@));
                    } else if c == '\\' {
                        if i + 1 < cs.len() {
                            current.push(cs[i + 1]);
                            i += 2;
                        } else {
                            i += 1;
                        }
                    } else {
                        current.push(c);
                        i += 1;
                    }
                },
            }
            proof {
                let want = scan_step(cs@, at, st);
                assert(texts(tokens@) =~= want.0.tokens);
                assert(current@ =~= want.0.current);
                assert(quote == want.0.quote);
                assert(i as int == want.1);
            }
        }
        if current.len() > 0 {
            let ghost before = tokens@;
            tokens.push(string_of(&current));
            assert(texts(tokens@) =~= texts(before).push(current@));
        }
        tokens
    }

    /// Replaces `$NAME` and `${NAME}` in a token by the variables' values;
    /// an unset variable contributes nothing.
    pub fn expand_variables(&self, token: &str, env: &StringMap) -> (r: String)
        ensures
            r@ == expand_spec(token@, env@),
    {
        expand_marked(&name_marks(&chars_of(token)), env)
    }

    /// Whether one of the held tokens is `|`.
    fn has_pipe(&self) -> (r: bool)
        ensures
            r == texts(self.tokens@).contains(pipe_token()),
    {
        let mut i: usize = 0;
        while i < self.tokens.len()
            invariant
                i <= self.tokens@.len(),
                forall|k: int| 0 <= k < i ==> texts(self.tokens@)[k] != pipe_token(),
            decreases self.tokens@.len() - i,
        {
            if is_single(self.tokens[i].as_str(), '|') {
                assert(texts(self.tokens@)[i as int] == pipe_token());
                return true;
            }
            i += 1;
        }
        false
    }

    /// Parses the held tokens as a pipeline: stages separated by `|`, each
    /// with at least one argument and without redirections.
    pub fn parse_pipeline(&mut self) -> (r: Result<CommandLine, ParseError>)
        ensures
            final(self).tokens == old(self).tokens,
            final(self).position == old(self).position,
            line_outcome(r) == pipeline_spec(texts(old(self).tokens@)),
    {
        let ghost toks = texts(self.tokens@);
        let mut commands: Vec<SimpleCommand> = Vec::new();
        let mut current_args: Vec<String> = Vec::new();
        let mut i: usize = 0;
        assert(command_views(commands@) =~= Seq::<SimpleCommandView>::empty());
        assert(texts(current_args@) =~= Seq::<Seq<char>>::empty());
        while i < self.tokens.len()
            invariant
                *self == *old(self),
                toks == texts(self.tokens@),
                i <= self.tokens@.len(),
                pipeline_from(toks, i as int, command_views(commands@), texts(current_args@))
                    == pipeline_from(toks, 0, Seq::empty(), Seq::empty()),
            decreases self.tokens@.len() - i,
        {
            let ghost stages_before = commands@;
            let ghost args_before = current_args@;
            if is_single(self.tokens[i].as_str(), '|') {
                if current_args.len() == 0 {
                    return Err(
                        ParseError::InvalidSyntax(String::from_str("Empty command in pipeline")),
                    );
                }
                let stage = SimpleCommand { args: current_args, redirections: Vec::new() };
                assert(stage@.redirections =~= Seq::<RedirectionView>::empty());
                commands.push(stage);
                current_args = Vec::new();
                assert(command_views(commands@) =~= command_views(stages_before).push(stage@));
                assert(texts(current_args@) =~= Seq::<Seq<char>>::empty());
            } else {
                let token = self.tokens[i].clone();
                current_args.push(token);
                assert(texts(current_args@) =~= texts(args_before).push(toks[i as int]));
            }
            i += 1;
        }
        if current_args.len() == 0 {
            return Err(ParseError::InvalidSyntax(String::from_str("Pipeline ends with |")));
        }
        let ghost stages_before = commands@;
        let stage = SimpleCommand { args: current_args, redirections: Vec::new() };
        assert(stage@.redirections =~= Seq::<RedirectionView>::empty());
        commands.push(stage);
        assert(command_views(commands@) =~= command_views(stages_before).push(stage@));
        Ok(CommandLine::Pipeline(commands))
    }

    /// Parses the held tokens from the read position on as one command with
    /// its redirections, expanding arguments and file names against `env`.
    pub fn parse_simple_command(&mut self, env: &StringMap) -> (r: Result<
        SimpleCommand,
        ParseError,
    >)
        ensures
            final(self).tokens == old(self).tokens,
            final(self).position == if old(self).position <= old(self).tokens.len() {
                old(self).tokens.len()
            } else {
                old(self).position
            },
            command_outcome(r) == simple_from(
                texts(old(self).tokens@),
                old(self).position as int,
                env@,
                Seq::empty(),
                Seq::empty(),
            ),
    {
        let ghost toks = texts(self.tokens@);
        let ghost goal = simple_from(
            toks,
            self.position as int,
            env@,
            Seq::empty(),
            Seq::empty(),
        );
        let mut args: Vec<String> = Vec::new();
        let mut redirections: Vec<Redirection> = Vec::new();
        assert(texts(args@) =~= Seq::<Seq<char>>::empty());
        assert(redirection_views(redirections@) =~= Seq::<RedirectionView>::empty());
        while self.position < self.tokens.len()
            invariant
                self.tokens == old(self).tokens,
                toks == texts(self.tokens@),
                old(self).position <= self.position,
                old(self).position <= old(self).tokens@.len() ==> self.position
                    <= self.tokens@.len(),
                old(self).position > old(self).tokens@.len() ==> self.position == old(
                    self,
                ).position,
                goal == simple_from(
                    toks,
                    old(self).position as int,
                    env@,
                    Seq::empty(),
                    Seq::empty(),
                ),
                simple_from(
                    toks,
                    self.position as int,
                    env@,
                    texts(args@),
                    redirection_views(redirections@),
                ) == goal,
            decreases self.tokens@.len() - self.position,
        {
            let ghost args_before = args@;
            let ghost redirections_before = redirections@;
            let ghost at = self.position as int;
            assert(toks[at] == self.tokens@[at]@);
            match redirection_kind(self.tokens[self.position].as_str()) {
                Some(kind) => {
                    self.position += 1;
                    if self.position >= self.tokens.len() {
                        return Err(ParseError::MissingFilename);
                    }
                    let filename = self.expand_variables(
                        self.tokens[self.position].as_str(),
                        env,
                    );
                    let redirection = Redirection { redir_type: kind, filename };
                    redirections.push(redirection);
                    assert(redirection_views(redirections@) =~= redirection_views(
                        redirections_before,
                    ).push(redirection@));
                },
                None => {
                    let arg = self.expand_variables(self.tokens[self.position].as_str(), env);
                    args.push(arg);
                    assert(texts(args@) =~= texts(args_before).push(expand_spec(toks[at], env@)));
                },
            }
            self.position += 1;
        }
        if args.len() == 0 {
            return Err(ParseError::EmptyCommand);
        }
        Ok(SimpleCommand { args, redirections })
    }

    /// Parses one line: a single command, a pipeline, or a background command.
    pub fn parse(&mut self, input: &str, env: &StringMap) -> (r: Result<
        CommandLine,
        ParseError,
    >)
        ensures
            line_outcome(r) == parse_spec(input@, env@),
            r matches Ok(c) ==> well_formed_line(c@),
            texts(final(self).tokens@) == without_background(tokenize_spec(input@)),
    {
        proof {
            lemma_parsed_line_well_formed(input@, env@);
        }
        self.tokens = self.tokenize(input);
        self.position = 0;
        let ghost all = texts(self.tokens@);
        if self.tokens.len() == 0 {
            return Err(ParseError::EmptyCommand);
        }
        let last: usize = self.tokens.len() - 1;
        let is_background = is_single(self.tokens[last].as_str(), '&');
        if is_background {
            self.tokens.pop();
        }
        assert(texts(self.tokens@) =~= without_background(all));
        if self.has_pipe() {
            if is_background {
                return Err(
                    ParseError::InvalidSyntax(
                        String::from_str("Background pipelines not supported"),
                    ),
                );
            }
            return self.parse_pipeline();
        }
        match self.parse_simple_command(env) {
            Ok(command) => {
                if is_background {
                    Ok(CommandLine::Background(command))
                } else {
                    Ok(CommandLine::Simple(command))
                }
            },
            Err(e) => Err(e),
        }
    }
}

} // verus!
