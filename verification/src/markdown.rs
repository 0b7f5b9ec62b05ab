//! Scripts written as markdown: prose paragraphs for the agent, code blocks
//! for the interpreter, and function declarations.

use vstd::prelude::*;
use vstd::string::StringExecFns;
use pulldown_cmark::CodeBlockKind::{Fenced, Indented};
use pulldown_cmark::Event;
use pulldown_cmark::Event::{Code, End, Start, Text};
use pulldown_cmark::Tag::{CodeBlock, Heading, Paragraph};
use regex::Regex;
use crate::context::LLMAction;
use crate::text::{
    ends_with, ends_with_spec, lowercase_of, split, split_spec, str_eq, texts, trim, trim_spec,
};

verus! {

/// A compiled regular expression of the `regex` crate.
#[verifier::external_type_specification]
#[verifier::external_body]
pub struct ExRegex(regex::Regex);

/// The error with which the `regex` crate refuses a pattern.
#[verifier::external_type_specification]
#[verifier::external_body]
pub struct ExRegexError(regex::Error);

/// The pattern that introduces a function declaration: the word `func`, a
/// name, a parameter list in round brackets, and an opening brace.
pub const FUNCTION_PATTERN: &'static str = r"func\s+(\w+)\s*\(([^)]*)\)\s*\{";

/// Whether `Regex::new` accepts a pattern.
pub uninterp spec fn pattern_compiles(pattern: Seq<char>) -> bool;

/// The pattern that a compiled expression was made from: what `Regex::as_str` returns.
pub uninterp spec fn compiled_pattern(re: Regex) -> Seq<char>;

/// For each non-overlapping match of a pattern in a text, from left to right,
/// the texts of the first and of the second capture group.
pub uninterp spec fn capture_pairs(pattern: Seq<char>, text: Seq<char>) -> Seq<
    (Seq<char>, Seq<char>),
>;

/// What `Regex::replace_all` makes of a text for a pattern and a replacement.
pub uninterp spec fn replaced_all(
    pattern: Seq<char>,
    text: Seq<char>,
    replacement: Seq<char>,
) -> Seq<char>;

/// The events that `pulldown_cmark::Parser` yields for a document, as far as
/// this module tells them apart.
pub uninterp spec fn markdown_events_of(content: Seq<char>) -> Seq<MdEventView>;

/// A markdown event, as far as scripts tell events apart.
#[derive(Debug, Clone)]
pub enum MdEvent {
    /// A heading of the given level (1 to 6) starts.
    HeadingStart(u8),
    HeadingEnd,
    ParagraphStart,
    ParagraphEnd,
    /// A code block starts: fenced, with its info string, or indented.
    CodeStart(Option<String>),
    CodeEnd,
    /// A run of text.
    Chars(String),
    /// An inline code span.
    InlineCode(String),
    SoftBreak,
    HardBreak,
    /// Any other event.
    Other,
}

/// The mathematical value of an [`MdEvent`].
pub enum MdEventView {
    HeadingStart(u8),
    HeadingEnd,
    ParagraphStart,
    ParagraphEnd,
    CodeStart(Option<Seq<char>>),
    CodeEnd,
    Chars(Seq<char>),
    InlineCode(Seq<char>),
    SoftBreak,
    HardBreak,
    Other,
}

impl View for MdEvent {
    type V = MdEventView;

    open spec fn view(&self) -> MdEventView {
        match self {
            MdEvent::HeadingStart(l) => MdEventView::HeadingStart(*l),
            MdEvent::HeadingEnd => MdEventView::HeadingEnd,
            MdEvent::ParagraphStart => MdEventView::ParagraphStart,
            MdEvent::ParagraphEnd => MdEventView::ParagraphEnd,
            MdEvent::CodeStart(lang) => MdEventView::CodeStart(
                match lang {
                    Some(l) => Some(l@),
                    None => None,
                },
            ),
            MdEvent::CodeEnd => MdEventView::CodeEnd,
            MdEvent::Chars(t) => MdEventView::Chars(t@),
            MdEvent::InlineCode(c) => MdEventView::InlineCode(c@),
            MdEvent::SoftBreak => MdEventView::SoftBreak,
            MdEvent::HardBreak => MdEventView::HardBreak,
            MdEvent::Other => MdEventView::Other,
        }
    }
}

/// The values of a list of events.
pub open spec fn event_views(v: Seq<MdEvent>) -> Seq<MdEventView> {
    v.map_values(|e: MdEvent| e@)
}

/// The values of a list of pairs of strings.
pub open spec fn pair_views(v: Seq<(String, String)>) -> Seq<(Seq<char>, Seq<char>)> {
    v.map_values(|p: (String, String)| (p.0@, p.1@))
}

/// `Regex::new` of the `regex` crate: compiles a pattern. It succeeds exactly
/// on the patterns that the crate accepts, and the compiled expression
/// remembers the pattern it was made from.
#[verifier::external_body]
fn compile(pattern: &str) -> (r: Result<Regex, regex::Error>)
    ensures
        r is Ok == pattern_compiles(pattern@),
        r matches Ok(re) ==> compiled_pattern(re) == pattern@,
{
    Regex::new(pattern)
}

/// `Regex::captures_iter` of the `regex` crate: the non-overlapping matches
/// of the expression in `text`, from left to right, each given as the texts of
/// its first and second capture group (empty where a group took no part).
#[verifier::external_body]
fn capture_first_two(re: &Regex, text: &str) -> (r: Vec<(String, String)>)
    ensures
        pair_views(r@) == capture_pairs(compiled_pattern(*re), text@),
{
    re.captures_iter(text).map(|c| {
        let group = |i| c.get(i).map_or(String::new(), |m| m.as_str().to_string());
        (group(1), group(2))
    }).collect()
}

/// `Regex::replace_all` of the `regex` crate: `text` with every
/// non-overlapping match of the expression replaced by `replacement`.
#[verifier::external_body]
fn replace_all(re: &Regex, text: &str, replacement: &str) -> (r: String)
    ensures
        r@ == replaced_all(compiled_pattern(*re), text@, replacement@),
{
    re.replace_all(text, replacement).into_owned()
}

/// The `Display` text of a `regex::Error`.
#[verifier::external_body]
fn error_text(e: &regex::Error) -> String {
    e.to_string()
}

/// `pulldown_cmark::Parser::new` and its iteration: the events of the
/// document in order, each converted variant by variant; events that scripts
/// do not tell apart become `Other`.
#[verifier::external_body]
fn markdown_events(content: &str) -> (r: Vec<MdEvent>)
    ensures
        event_views(r@) == markdown_events_of(content@),
{
    pulldown_cmark::Parser::new(content).map(|e| match e {
        Start(Heading(l, ..)) => MdEvent::HeadingStart(l as u8),
        Start(Paragraph) => MdEvent::ParagraphStart,
        Start(CodeBlock(Fenced(s))) => MdEvent::CodeStart(Some(s.to_string())),
        Start(CodeBlock(Indented)) => MdEvent::CodeStart(None),
        End(Heading(..)) => MdEvent::HeadingEnd,
        End(Paragraph) => MdEvent::ParagraphEnd,
        End(CodeBlock(_)) => MdEvent::CodeEnd,
        Text(t) => MdEvent::Chars(t.to_string()),
        Code(c) => MdEvent::InlineCode(c.to_string()),
        Event::SoftBreak => MdEvent::SoftBreak,
        Event::HardBreak => MdEvent::HardBreak,
        _ => MdEvent::Other,
    }).collect()
}

/// Why a script could not be read.
#[derive(Debug)]
pub enum MarkdownError {
    /// The function-declaration pattern was refused; the text says why.
    Pattern(String),
}

impl MarkdownError {
    /// The text shown to the user for this error.
    pub fn message(&self) -> (r: String)
        ensures
            r@ == match *self {
                MarkdownError::Pattern(m) => m@,
            },
    {
        match self {
            MarkdownError::Pattern(m) => m.clone(),
        }
    }
}

/// One element of a script.
#[derive(Debug)]
pub enum MarkdownElement {
    /// A heading: its level and its text.
    Header(u8, String),
    /// A paragraph of prose, which becomes a request to the agent.
    Paragraph(String),
    /// A code block: its language, if one is given, and its code.
    CodeBlock(Option<String>, String),
    /// An inline code span.
    InlineCode(String),
    /// A function declaration: its name, its parameters and its body.
    FunctionDeclaration(String, Vec<String>, Vec<MarkdownElement>),
}

/// The mathematical value of a [`MarkdownElement`].
pub enum ElementView {
    Header(u8, Seq<char>),
    Paragraph(Seq<char>),
    CodeBlock(Option<Seq<char>>, Seq<char>),
    InlineCode(Seq<char>),
    FunctionDeclaration(Seq<char>, Seq<Seq<char>>, Seq<MarkdownElement>),
}

impl View for MarkdownElement {
    type V = ElementView;

    open spec fn view(&self) -> ElementView {
        match self {
            MarkdownElement::Header(l, t) => ElementView::Header(*l, t@),
            MarkdownElement::Paragraph(t) => ElementView::Paragraph(t@),
            MarkdownElement::CodeBlock(lang, code) => ElementView::CodeBlock(
                match lang {
                    Some(l) => Some(l@),
                    None => None,
                },
                code@,
            ),
            MarkdownElement::InlineCode(c) => ElementView::InlineCode(c@),
            MarkdownElement::FunctionDeclaration(name, params, body) => {
                ElementView::FunctionDeclaration(name@, texts(params@), body@)
            },
        }
    }
}

/// The values of a list of elements.
pub open spec fn element_views(v: Seq<MarkdownElement>) -> Seq<ElementView> {
    v.map_values(|e: MarkdownElement| e@)
}

/// What the reader of a script holds between two events.
pub struct ReaderState {
    /// The elements completed so far.
    pub elements: Seq<ElementView>,
    /// The text of the paragraph being read.
    pub paragraph: Seq<char>,
    pub in_paragraph: bool,
    /// The code of the code block being read, and its language.
    pub code: Seq<char>,
    pub code_lang: Option<Seq<char>>,
    pub in_code_block: bool,
    /// The text and the level of the heading being read.
    pub header: Seq<char>,
    pub header_level: u8,
    pub in_header: bool,
}

/// The state in which reading starts.
pub open spec fn reader_start() -> ReaderState {
    ReaderState {
        elements: Seq::empty(),
        paragraph: Seq::empty(),
        in_paragraph: false,
        code: Seq::empty(),
        code_lang: None,
        in_code_block: false,
        header: Seq::empty(),
        header_level: 0,
        in_header: false,
    }
}

/// The state after a pending paragraph that holds more than whitespace has
/// been completed.
pub open spec fn with_paragraph_closed(st: ReaderState) -> ReaderState {
    if trim_spec(st.paragraph).len() > 0 {
        ReaderState {
            elements: st.elements.push(ElementView::Paragraph(trim_spec(st.paragraph))),
            paragraph: Seq::empty(),
            ..st
        }
    } else {
        st
    }
}

/// The language of a code block: that of a fenced block with a non-empty
/// info string.
pub open spec fn block_language(info: Option<Seq<char>>) -> Option<Seq<char>> {
    match info {
        Some(l) => if l.len() == 0 {
            None
        } else {
            Some(l)
        },
        None => None,
    }
}

/// The state after one event.
pub open spec fn reader_step(st: ReaderState, e: MdEventView) -> ReaderState {
    match e {
        MdEventView::HeadingStart(level) => ReaderState {
            in_paragraph: false,
            in_header: true,
            header_level: level,
            header: Seq::empty(),
            ..with_paragraph_closed(st)
        },
        MdEventView::ParagraphStart => ReaderState {
            in_paragraph: true,
            paragraph: Seq::empty(),
            ..st
        },
        MdEventView::CodeStart(info) => ReaderState {
            in_paragraph: false,
            in_code_block: true,
            code_lang: block_language(info),
            code: Seq::empty(),
            ..with_paragraph_closed(st)
        },
        MdEventView::HeadingEnd => if st.in_header {
            ReaderState {
                elements: st.elements.push(
                    ElementView::Header(st.header_level, trim_spec(st.header)),
                ),
                in_header: false,
                header: Seq::empty(),
                ..st
            }
        } else {
            st
        },
        MdEventView::ParagraphEnd => ReaderState {
            in_paragraph: false,
            ..if st.in_paragraph {
                with_paragraph_closed(st)
            } else {
                st
            }
        },
        MdEventView::CodeEnd => if st.in_code_block {
            ReaderState {
                elements: st.elements.push(ElementView::CodeBlock(st.code_lang, st.code)),
                in_code_block: false,
                code_lang: None,
                code: Seq::empty(),
                ..st
            }
        } else {
            st
        },
        MdEventView::Chars(t) => if st.in_code_block {
            ReaderState { code: st.code + t, ..st }
        } else if st.in_header {
            ReaderState { header: st.header + t, ..st }
        } else if st.in_paragraph {
            ReaderState { paragraph: st.paragraph + t, ..st }
        } else {
            st
        },
        MdEventView::SoftBreak | MdEventView::HardBreak => if st.in_code_block {
            ReaderState { code: st.code.push('\n'), ..st }
        } else if st.in_header {
            ReaderState { header: st.header.push(' '), ..st }
        } else if st.in_paragraph {
            ReaderState { paragraph: st.paragraph.push(' '), ..st }
        } else {
            st
        },
        MdEventView::InlineCode(c) => if !st.in_code_block && !st.in_header {
            ReaderState { elements: st.elements.push(ElementView::InlineCode(c)), ..st }
        } else {
            st
        },
        MdEventView::Other => st,
    }
}

/// The elements read from `events` from position `i` on, starting in state `st`.
/// At the end a pending paragraph is completed.
pub open spec fn read_from(events: Seq<MdEventView>, i: int, st: ReaderState) -> Seq<ElementView>
    decreases events.len() - i,
{
    if i < 0 || i >= events.len() {
        with_paragraph_closed(st).elements
    } else {
        read_from(events, i + 1, reader_step(st, events[i]))
    }
}

/// The elements that a list of events spells.
pub open spec fn elements_of_events(events: Seq<MdEventView>) -> Seq<ElementView> {
    read_from(events, 0, reader_start())
}

/// The parameters that a parameter list names: its pieces between commas,
/// each without surrounding whitespace; none where the list is blank.
pub open spec fn parameters_of(list: Seq<char>) -> Seq<Seq<char>> {
    if trim_spec(list).len() == 0 {
        Seq::empty()
    } else {
        split_spec(list, ',').map_values(|p: Seq<char>| trim_spec(p))
    }
}

/// The declarations that the matched headers spell: each with its name and
/// parameters, and with an empty body.
pub open spec fn declarations_of(headers: Seq<(Seq<char>, Seq<char>)>) -> Seq<ElementView> {
    headers.map_values(
        |h: (Seq<char>, Seq<char>)|
            ElementView::FunctionDeclaration(h.0, parameters_of(h.1), Seq::empty()),
    )
}

/// The elements of a script: those of the document that is left when the
/// function headers are taken out, then the function declarations.
pub open spec fn script_elements(content: Seq<char>) -> Seq<ElementView> {
    elements_of_events(
        markdown_events_of(replaced_all(FUNCTION_PATTERN@, content, Seq::empty())),
    ) + declarations_of(capture_pairs(FUNCTION_PATTERN@, content))
}

/// The reader's working state.
struct Reader {
    elements: Vec<MarkdownElement>,
    paragraph: String,
    in_paragraph: bool,
    code: String,
    code_lang: Option<String>,
    in_code_block: bool,
    header: String,
    header_level: u8,
    in_header: bool,
}

impl View for Reader {
    type V = ReaderState;

    closed spec fn view(&self) -> ReaderState {
        ReaderState {
            elements: element_views(self.elements@),
            paragraph: self.paragraph@,
            in_paragraph: self.in_paragraph,
            code: self.code@,
            code_lang: match self.code_lang {
                Some(l) => Some(l@),
                None => None,
            },
            in_code_block: self.in_code_block,
            header: self.header@,
            header_level: self.header_level,
            in_header: self.in_header,
        }
    }
}

impl Reader {
    fn new() -> (r: Reader)
        ensures
            r@ == reader_start(),
    {
        let r = Reader {
            elements: Vec::new(),
            paragraph: String::new(),
            in_paragraph: false,
            code: String::new(),
            code_lang: None,
            in_code_block: false,
            header: String::new(),
            header_level: 0,
            in_header: false,
        };
        assert(r@.elements =~= Seq::<ElementView>::empty());
        r
    }

    fn push_element(&mut self, element: MarkdownElement)
        ensures
            final(self)@ == (ReaderState {
                elements: old(self)@.elements.push(element@),
                ..old(self)@
            }),
    {
        self.elements.push(element);
        assert(element_views(self.elements@) =~= element_views(old(self).elements@).push(
            element@,
        ));
    }

    fn close_paragraph(&mut self)
        ensures
            final(self)@ == with_paragraph_closed(old(self)@),
    {
        let text = trim(self.paragraph.as_str());
        if text.as_str().unicode_len() > 0 {
            self.push_element(MarkdownElement::Paragraph(text));
            self.paragraph = String::new();
        }
    }

    fn step(&mut self, event: &MdEvent)
        ensures
            final(self)@ == reader_step(old(self)@, event@),
    {
        match event {
            MdEvent::HeadingStart(level) => {
                self.close_paragraph();
                self.in_paragraph = false;
                self.in_header = true;
                self.header_level = *level;
                self.header = String::new();
            },
            MdEvent::ParagraphStart => {
                self.in_paragraph = true;
                self.paragraph = String::new();
            },
            MdEvent::CodeStart(info) => {
                self.close_paragraph();
                self.in_paragraph = false;
                self.in_code_block = true;
                self.code_lang = match info {
                    Some(l) => if l.as_str().unicode_len() == 0 {
                        None
                    } else {
                        Some(l.clone())
                    },
                    None => None,
                };
                self.code = String::new();
            },
            MdEvent::HeadingEnd => {
                if self.in_header {
                    let text = trim(self.header.as_str());
                    let level = self.header_level;
                    self.push_element(MarkdownElement::Header(level, text));
                    self.in_header = false;
                    self.header = String::new();
                }
            },
            MdEvent::ParagraphEnd => {
                if self.in_paragraph {
                    self.close_paragraph();
                }
                self.in_paragraph = false;
            },
            MdEvent::CodeEnd => {
                if self.in_code_block {
                    let lang = self.code_lang.clone();
                    let code = self.code.clone();
                    self.push_element(MarkdownElement::CodeBlock(lang, code));
                    self.in_code_block = false;
                    self.code_lang = None;
                    self.code = String::new();
                }
            },
            MdEvent::Chars(t) => {
                if self.in_code_block {
                    self.code.append(t.as_str());
                } else if self.in_header {
                    self.header.append(t.as_str());
                } else if self.in_paragraph {
                    self.paragraph.append(t.as_str());
                }
            },
            MdEvent::SoftBreak | MdEvent::HardBreak => {
                if self.in_code_block {
                    self.code.push('\n');
                } else if self.in_header {
                    self.header.push(' ');
                } else if self.in_paragraph {
                    self.paragraph.push(' ');
                }
            },
            MdEvent::InlineCode(c) => {
                if !self.in_code_block && !self.in_header {
                    self.push_element(MarkdownElement::InlineCode(c.clone()));
                }
            },
            MdEvent::Other => {},
        }
    }
}

/// Reads a list of events into the elements that it spells.
pub fn read_events(events: &Vec<MdEvent>) -> (r: Vec<MarkdownElement>)
    ensures
        element_views(r@) == elements_of_events(event_views(events@)),
{
    let mut reader = Reader::new();
    let mut i: usize = 0;
    while i < events.len()
        invariant
            i <= events@.len(),
            read_from(event_views(events@), i as int, reader@) == elements_of_events(
                event_views(events@),
            ),
        decreases events@.len() - i,
    {
        reader.step(&events[i]);
        i += 1;
    }
    reader.close_paragraph();
    reader.elements
}

/// The parameters that a parameter list names.
pub fn parameters(list: &str) -> (r: Vec<String>)
    ensures
        texts(r@) == parameters_of(list@),
{
    if trim(list).as_str().unicode_len() == 0 {
        let r: Vec<String> = Vec::new();
        assert(texts(r@) =~= Seq::<Seq<char>>::empty());
        return r;
    }
    let pieces = split(list, ',');
    let mut r: Vec<String> = Vec::new();
    let mut i: usize = 0;
    while i < pieces.len()
        invariant
            i <= pieces@.len(),
            r@.len() == i,
            forall|k: int| 0 <= k < i ==> r@[k]@ == trim_spec(pieces@[k]@),
        decreases pieces@.len() - i,
    {
        r.push(trim(pieces[i].as_str()));
        i += 1;
    }
    assert(texts(r@) =~= texts(pieces@).map_values(|p: Seq<char>| trim_spec(p)));
    r
}

/// The function declarations that matched headers spell, each given as the
/// function's name and its parameter list.
pub fn declarations(headers: &Vec<(String, String)>) -> (r: Vec<MarkdownElement>)
    ensures
        element_views(r@) == declarations_of(pair_views(headers@)),
{
    let mut r: Vec<MarkdownElement> = Vec::new();
    let mut i: usize = 0;
    while i < headers.len()
        invariant
            i <= headers@.len(),
            r@.len() == i,
            forall|k: int|
                0 <= k < i ==> r@[k]@ == ElementView::FunctionDeclaration(
                    headers@[k].0@,
                    parameters_of(headers@[k].1@),
                    Seq::empty(),
                ),
        decreases headers@.len() - i,
    {
        let name = headers[i].0.clone();
        let params = parameters(headers[i].1.as_str());
        let body: Vec<MarkdownElement> = Vec::new();
        r.push(MarkdownElement::FunctionDeclaration(name, params, body));
        i += 1;
    }
    assert(element_views(r@) =~= declarations_of(pair_views(headers@)));
    r
}

/// The texts of the paragraphs among `elements`, in order.
pub open spec fn paragraph_texts(elements: Seq<ElementView>) -> Seq<Seq<char>>
    decreases elements.len(),
{
    if elements.len() == 0 {
        Seq::empty()
    } else {
        let before = paragraph_texts(elements.drop_last());
        match elements.last() {
            ElementView::Paragraph(t) => before.push(t),
            _ => before,
        }
    }
}

/// Whether a language name, in lower case, names a shell; the empty name does.
pub open spec fn is_shell_name(lower: Seq<char>) -> bool {
    lower == "shell"@ || lower == "bash"@ || lower == "sh"@ || lower == "aish"@ || lower
        == "zsh"@ || lower == "fish"@ || lower == ""@
}

/// Whether a code block of this language is run by the interpreter: one
/// without a language, or one whose language, in lower case, names a shell.
pub open spec fn is_shell_language(lang: Option<Seq<char>>) -> bool {
    match lang {
        None => true,
        Some(l) => is_shell_name(lowercase_of(l)),
    }
}

/// The code blocks among `elements` that the interpreter runs, in order: those
/// in a shell language that hold more than whitespace.
pub open spec fn executable_blocks(elements: Seq<ElementView>) -> Seq<
    (Option<Seq<char>>, Seq<char>),
>
    decreases elements.len(),
{
    if elements.len() == 0 {
        Seq::empty()
    } else {
        let before = executable_blocks(elements.drop_last());
        match elements.last() {
            ElementView::CodeBlock(lang, code) => if is_shell_language(lang) && trim_spec(
                code,
            ).len() > 0 {
                before.push((lang, code))
            } else {
                before
            },
            _ => before,
        }
    }
}

/// The function declarations among `elements`, in order.
pub open spec fn function_elements(elements: Seq<ElementView>) -> Seq<ElementView>
    decreases elements.len(),
{
    if elements.len() == 0 {
        Seq::empty()
    } else {
        let before = function_elements(elements.drop_last());
        match elements.last() {
            ElementView::FunctionDeclaration(..) => before.push(elements.last()),
            _ => before,
        }
    }
}

/// The headings among `elements`, in order, each with its level and text.
pub open spec fn header_elements(elements: Seq<ElementView>) -> Seq<(u8, Seq<char>)>
    decreases elements.len(),
{
    if elements.len() == 0 {
        Seq::empty()
    } else {
        let before = header_elements(elements.drop_last());
        match elements.last() {
            ElementView::Header(level, text) => before.push((level, text)),
            _ => before,
        }
    }
}

/// The paragraph that an action carries.
pub open spec fn action_text(a: LLMAction) -> Seq<char> {
    match a {
        LLMAction::Comment { content } => content@,
    }
}

/// The value of a code block handed to the interpreter.
pub open spec fn block_view(b: (Option<String>, String)) -> (Option<Seq<char>>, Seq<char>) {
    (
        match b.0 {
            Some(l) => Some(l@),
            None => None,
        },
        b.1@,
    )
}

/// Whether a language name, in lower case, names a shell.
pub fn shell_name(lower: &str) -> (r: bool)
    ensures
        r == is_shell_name(lower@),
{
    str_eq(lower, "shell") || str_eq(lower, "bash") || str_eq(lower, "sh") || str_eq(
        lower,
        "aish",
    ) || str_eq(lower, "zsh") || str_eq(lower, "fish") || str_eq(lower, "")
}

/// Whether a code block of this language is run by the interpreter.
fn shell_language(lang: &Option<String>) -> (r: bool)
    ensures
        r == is_shell_language(
            match *lang {
                Some(l) => Some(l@),
                None => None,
            },
        ),
{
    match lang {
        None => true,
        Some(l) => shell_name(l.as_str().to_lowercase().as_str()),
    }
}

/// A script: its elements in document order, the function declarations last.
#[derive(Debug)]
pub struct MarkdownScript {
    pub elements: Vec<MarkdownElement>,
}

impl MarkdownScript {
    /// Takes the function headers out of a script: the text that is left, and
    /// the declarations that the headers spell.
    pub fn extract_functions(content: &str) -> (r: Result<
        (String, Vec<MarkdownElement>),
        MarkdownError,
    >)
        ensures
            r is Ok == pattern_compiles(FUNCTION_PATTERN@),
            r matches Ok(found) ==> found.0@ == replaced_all(
                FUNCTION_PATTERN@,
                content@,
                Seq::empty(),
            ) && element_views(found.1@) == declarations_of(
                capture_pairs(FUNCTION_PATTERN@, content@),
            ),
            r matches Err(MarkdownError::Pattern(m)) ==> m@.subrange(
                0,
                "Regex error: "@.len() as int,
            ) == "Regex error: "@,
    {
        match compile(FUNCTION_PATTERN) {
            Ok(re) => {
                let headers = capture_first_two(&re, content);
                let functions = declarations(&headers);
                let remaining = replace_all(&re, content, "");
                assert(""@ =~= Seq::<char>::empty()) by {
                    reveal_strlit("");
                }
                Ok((remaining, functions))
            },
            Err(e) => {
                let reason = error_text(&e);
                let m = String::from_str("Regex error: ").concat(reason.as_str());
                assert(m@.subrange(0, "Regex error: "@.len() as int) =~= "Regex error: "@);
                Err(MarkdownError::Pattern(m))
            },
        }
    }

    /// Reads a script.
    pub fn parse(content: &str) -> (r: Result<MarkdownScript, MarkdownError>)
        ensures
            r is Ok == pattern_compiles(FUNCTION_PATTERN@),
            r matches Ok(script) ==> element_views(script.elements@) == script_elements(content@),
            r matches Err(MarkdownError::Pattern(m)) ==> m@.subrange(
                0,
                "Regex error: "@.len() as int,
            ) == "Regex error: "@,
    {
        match MarkdownScript::extract_functions(content) {
            Ok(found) => {
                let (remaining, functions) = found;
                let events = markdown_events(remaining.as_str());
                Ok(MarkdownScript::from_parts(&events, functions))
            },
            Err(e) => Err(e),
        }
    }

    /// The script that a document's events and its function declarations
    /// make: the elements that the events spell, then the declarations.
    pub fn from_parts(events: &Vec<MdEvent>, functions: Vec<MarkdownElement>) -> (script:
        MarkdownScript)
        ensures
            element_views(script.elements@) == elements_of_events(event_views(events@))
                + element_views(functions@),
    {
        let mut functions = functions;
        let mut elements = read_events(events);
        let ghost read = elements@;
        let ghost declared = functions@;
        elements.append(&mut functions);
        assert(element_views(elements@) =~= element_views(read) + element_views(declared));
        MarkdownScript { elements }
    }

    /// The requests to the agent: one for each paragraph, in order.
    pub fn get_llm_actions(&self) -> (r: Vec<LLMAction>)
        ensures
            r@.map_values(|a: LLMAction| action_text(a)) == paragraph_texts(
                element_views(self.elements@),
            ),
    {
        let ghost all = element_views(self.elements@);
        let mut actions: Vec<LLMAction> = Vec::new();
        let mut i: usize = 0;
        assert(all.subrange(0, 0) =~= Seq::<ElementView>::empty());
        assert(actions@.map_values(|a: LLMAction| action_text(a)) =~= Seq::<Seq<char>>::empty());
        while i < self.elements.len()
            invariant
                all == element_views(self.elements@),
                i <= self.elements@.len(),
                actions@.map_values(|a: LLMAction| action_text(a)) == paragraph_texts(
                    all.subrange(0, i as int),
                ),
            decreases self.elements@.len() - i,
        {
            let ghost before = actions@;
            assert(all.subrange(0, i + 1).drop_last() =~= all.subrange(0, i as int));
            match &self.elements[i] {
                MarkdownElement::Paragraph(text) => {
                    let action = LLMAction::Comment { content: text.clone() };
                    actions.push(action);
                    assert(actions@.map_values(|a: LLMAction| action_text(a)) =~= before.map_values(
                        |a: LLMAction| action_text(a),
                    ).push(text@));
                },
                _ => {},
            }
            i += 1;
        }
        assert(all.subrange(0, i as int) =~= all);
        actions
    }

    /// The code blocks that the interpreter runs, in order, each with its
    /// language and its code.
    pub fn get_executable_blocks(&self) -> (r: Vec<(Option<String>, String)>)
        ensures
            r@.map_values(|b: (Option<String>, String)| block_view(b)) == executable_blocks(
                element_views(self.elements@),
            ),
    {
        let ghost all = element_views(self.elements@);
        let mut blocks: Vec<(Option<String>, String)> = Vec::new();
        let mut i: usize = 0;
        assert(all.subrange(0, 0) =~= Seq::<ElementView>::empty());
        assert(blocks@.map_values(|b: (Option<String>, String)| block_view(b)) =~= Seq::<
            (Option<Seq<char>>, Seq<char>),
        >::empty());
        while i < self.elements.len()
            invariant
                all == element_views(self.elements@),
                i <= self.elements@.len(),
                blocks@.map_values(|b: (Option<String>, String)| block_view(b))
                    == executable_blocks(all.subrange(0, i as int)),
            decreases self.elements@.len() - i,
        {
            let ghost before = blocks@;
            assert(all.subrange(0, i + 1).drop_last() =~= all.subrange(0, i as int));
            match &self.elements[i] {
                MarkdownElement::CodeBlock(lang, code) => {
                    if shell_language(lang) && trim(code.as_str()).as_str().unicode_len() > 0 {
                        let block = (lang.clone(), code.clone());
                        blocks.push(block);
                        assert(blocks@.map_values(|b: (Option<String>, String)| block_view(b))
                            =~= before.map_values(
                            |b: (Option<String>, String)| block_view(b),
                        ).push(block_view(block)));
                    }
                },
                _ => {},
            }
            i += 1;
        }
        assert(all.subrange(0, i as int) =~= all);
        blocks
    }

    /// The function declarations, in order.
    pub fn get_functions(&self) -> (r: Vec<&MarkdownElement>)
        ensures
            r@.map_values(|e: &MarkdownElement| e@) == function_elements(
                element_views(self.elements@),
            ),
    {
        let ghost all = element_views(self.elements@);
        let mut functions: Vec<&MarkdownElement> = Vec::new();
        let mut i: usize = 0;
        assert(all.subrange(0, 0) =~= Seq::<ElementView>::empty());
        assert(functions@.map_values(|e: &MarkdownElement| e@) =~= Seq::<ElementView>::empty());
        while i < self.elements.len()
            invariant
                all == element_views(self.elements@),
                i <= self.elements@.len(),
                functions@.map_values(|e: &MarkdownElement| e@) == function_elements(
                    all.subrange(0, i as int),
                ),
            decreases self.elements@.len() - i,
        {
            let ghost before = functions@;
            assert(all.subrange(0, i + 1).drop_last() =~= all.subrange(0, i as int));
            let element = &self.elements[i];
            match element {
                MarkdownElement::FunctionDeclaration(..) => {
                    functions.push(element);
                    assert(functions@.map_values(|e: &MarkdownElement| e@) =~= before.map_values(
                        |e: &MarkdownElement| e@,
                    ).push(element@));
                },
                _ => {},
            }
            i += 1;
        }
        assert(all.subrange(0, i as int) =~= all);
        functions
    }

    /// The headings, in order, each with its level and its text.
    pub fn get_headers(&self) -> (r: Vec<(u8, &String)>)
        ensures
            r@.map_values(|h: (u8, &String)| (h.0, h.1@)) == header_elements(
                element_views(self.elements@),
            ),
    {
        let ghost all = element_views(self.elements@);
        let mut headers: Vec<(u8, &String)> = Vec::new();
        let mut i: usize = 0;
        assert(all.subrange(0, 0) =~= Seq::<ElementView>::empty());
        assert(headers@.map_values(|h: (u8, &String)| (h.0, h.1@)) =~= Seq::<
            (u8, Seq<char>),
        >::empty());
        while i < self.elements.len()
            invariant
                all == element_views(self.elements@),
                i <= self.elements@.len(),
                headers@.map_values(|h: (u8, &String)| (h.0, h.1@)) == header_elements(
                    all.subrange(0, i as int),
                ),
            decreases self.elements@.len() - i,
        {
            let ghost before = headers@;
            assert(all.subrange(0, i + 1).drop_last() =~= all.subrange(0, i as int));
            match &self.elements[i] {
                MarkdownElement::Header(level, text) => {
                    headers.push((*level, text));
                    assert(headers@.map_values(|h: (u8, &String)| (h.0, h.1@)) =~= before.map_values(
                        |h: (u8, &String)| (h.0, h.1@),
                    ).push((*level, text@)));
                },
                _ => {},
            }
            i += 1;
        }
        assert(all.subrange(0, i as int) =~= all);
        headers
    }
}

/// Whether a file name marks a markdown script: one that ends in `.md`,
/// `.markdown` or `.aish`.
pub open spec fn is_markdown_name(filename: Seq<char>) -> bool {
    ends_with_spec(filename, ".md"@) || ends_with_spec(filename, ".markdown"@) || ends_with_spec(
        filename,
        ".aish"@,
    )
}

/// Whether a file name marks a markdown script.
pub fn is_markdown_file(filename: &str) -> (r: bool)
    ensures
        r == is_markdown_name(filename@),
{
    ends_with(filename, ".md") || ends_with(filename, ".markdown") || ends_with(filename, ".aish")
}

} // verus!
