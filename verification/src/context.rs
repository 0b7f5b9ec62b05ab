//! Conversation bookkeeping: messages, histories, the histories kept per
//! function, and the agent's runs over them.

use vstd::prelude::*;
use vstd::string::StringExecFns;
use crate::llm::{prefix_lines, prefix_lines_spec};
use crate::string_map::StringMap;
use crate::text::{
    contains, contains_spec, decimal, decimal_spec, join, join_spec, str_eq, take_chars,
    take_spec, texts, trim, trim_spec,
};

verus! {

/// The largest number of tokens that a context may hold.
pub const MAX_CONTEXT_TOKENS: usize = 200_000;

/// One message of a conversation.
#[derive(Debug, Clone)]
pub struct Message {
    /// `"user"`, `"assistant"` or `"system"`.
    pub role: String,
    pub content: String,
    /// The tokens spent on this message, where that is known.
    pub tokens_used: Option<usize>,
}

/// The mathematical value of a [`Message`].
pub struct MessageView {
    pub role: Seq<char>,
    pub content: Seq<char>,
    pub tokens_used: Option<usize>,
}

impl View for Message {
    type V = MessageView;

    open spec fn view(&self) -> MessageView {
        MessageView { role: self.role@, content: self.content@, tokens_used: self.tokens_used }
    }
}

/// The values of a list of messages.
pub open spec fn message_views(v: Seq<Message>) -> Seq<MessageView> {
    v.map_values(|m: Message| m@)
}

impl Message {
    /// A message of the user.
    pub fn user(content: String) -> (m: Message)
        ensures
            m@ == (MessageView { role: "user"@, content: content@, tokens_used: None }),
    {
        Message { role: String::from_str("user"), content, tokens_used: None }
    }

    /// A message of the assistant, with no token count.
    pub fn assistant(content: String) -> (m: Message)
        ensures
            m@ == (MessageView { role: "assistant"@, content: content@, tokens_used: None }),
    {
        Message { role: String::from_str("assistant"), content, tokens_used: None }
    }

    /// A message of the assistant that cost `tokens` tokens.
    pub fn assistant_with_tokens(content: String, tokens: usize) -> (m: Message)
        ensures
            m@ == (MessageView {
                role: "assistant"@,
                content: content@,
                tokens_used: Some(tokens),
            }),
    {
        Message { role: String::from_str("assistant"), content, tokens_used: Some(tokens) }
    }

    /// A system message.
    pub fn system(content: String) -> (m: Message)
        ensures
            m@ == (MessageView { role: "system"@, content: content@, tokens_used: None }),
    {
        Message { role: String::from_str("system"), content, tokens_used: None }
    }
}

/// The sum of the token counts that the messages carry.
pub open spec fn tokens_total(s: Seq<MessageView>) -> nat
    decreases s.len(),
{
    if s.len() == 0 {
        0
    } else {
        tokens_total(s.drop_last()) + match s.last().tokens_used {
            Some(t) => t as nat,
            None => 0,
        }
    }
}

/// The tokens of a prefix do not exceed the tokens of the whole.
pub proof fn lemma_tokens_total_prefix(s: Seq<MessageView>, i: int)
    requires
        0 <= i <= s.len(),
    ensures
        tokens_total(s.subrange(0, i)) <= tokens_total(s),
    decreases s.len() - i,
{
    if i < s.len() {
        assert(s.subrange(0, i + 1).drop_last() =~= s.subrange(0, i));
        lemma_tokens_total_prefix(s, i + 1);
    } else {
        assert(s.subrange(0, i) =~= s);
    }
}

/// The mathematical value of a [`ConversationHistory`].
pub struct ConversationHistoryView {
    pub messages: Seq<MessageView>,
    pub metadata: Map<Seq<char>, Seq<char>>,
}

/// The history without messages and without metadata.
pub open spec fn empty_history() -> ConversationHistoryView {
    ConversationHistoryView { messages: Seq::empty(), metadata: Map::empty() }
}

/// The messages of one conversation in the order in which they were added,
/// and the metadata attached to it.
#[derive(Debug, Clone)]
pub struct ConversationHistory {
    messages: Vec<Message>,
    metadata: StringMap,
}

impl View for ConversationHistory {
    type V = ConversationHistoryView;

    closed spec fn view(&self) -> ConversationHistoryView {
        ConversationHistoryView {
            messages: message_views(self.messages@),
            metadata: self.metadata@,
        }
    }
}

impl ConversationHistory {
    /// The empty history.
    pub fn new() -> (h: ConversationHistory)
        ensures
            h@ == empty_history(),
    {
        let h = ConversationHistory { messages: Vec::new(), metadata: StringMap::new() };
        assert(h@.messages =~= Seq::<MessageView>::empty());
        h
    }

    /// Appends a message.
    pub fn add_message(&mut self, message: Message)
        ensures
            final(self)@.messages == old(self)@.messages.push(message@),
            final(self)@.metadata == old(self)@.metadata,
    {
        self.messages.push(message);
        assert(message_views(self.messages@) =~= message_views(old(self).messages@).push(
            message@,
        ));
    }

    /// Appends a message of the user.
    pub fn add_user_message(&mut self, content: String)
        ensures
            final(self)@.messages == old(self)@.messages.push(
                MessageView { role: "user"@, content: content@, tokens_used: None },
            ),
            final(self)@.metadata == old(self)@.metadata,
    {
        self.add_message(Message::user(content));
    }

    /// Appends a message of the assistant.
    pub fn add_assistant_message(&mut self, content: String)
        ensures
            final(self)@.messages == old(self)@.messages.push(
                MessageView { role: "assistant"@, content: content@, tokens_used: None },
            ),
            final(self)@.metadata == old(self)@.metadata,
    {
        self.add_message(Message::assistant(content));
    }

    /// Appends a system message.
    pub fn add_system_message(&mut self, content: String)
        ensures
            final(self)@.messages == old(self)@.messages.push(
                MessageView { role: "system"@, content: content@, tokens_used: None },
            ),
            final(self)@.metadata == old(self)@.metadata,
    {
        self.add_message(Message::system(content));
    }

    /// Drops every message and all metadata.
    pub fn clear(&mut self)
        ensures
            final(self)@ == empty_history(),
    {
        self.messages.clear();
        self.metadata = StringMap::new();
        assert(self@.messages =~= Seq::<MessageView>::empty());
    }

    /// The messages, oldest first.
    pub fn get_messages(&self) -> (r: &Vec<Message>)
        ensures
            message_views(r@) == self@.messages,
    {
        &self.messages
    }

    /// Attaches `value` to the history under `key`, replacing what was there.
    pub fn set_metadata(&mut self, key: String, value: String)
        ensures
            final(self)@.messages == old(self)@.messages,
            final(self)@.metadata == old(self)@.metadata.insert(key@, value@),
    {
        self.metadata.set(key, value);
    }

    /// What is attached under `key`, if anything.
    pub fn get_metadata(&self, key: &str) -> (r: Option<&String>)
        ensures
            match r {
                Some(v) => self@.metadata.contains_key(key@) && v@ == self@.metadata[key@],
                None => !self@.metadata.contains_key(key@),
            },
    {
        self.metadata.get(key)
    }

    /// Whether the history holds no message.
    pub fn is_empty(&self) -> (r: bool)
        ensures
            r == (self@.messages.len() == 0),
    {
        self.messages.len() == 0
    }

    /// The number of messages.
    pub fn len(&self) -> (r: usize)
        ensures
            r == self@.messages.len(),
    {
        self.messages.len()
    }

    /// The number of messages.
    pub fn message_count(&self) -> (r: usize)
        ensures
            r == self@.messages.len(),
    {
        self.messages.len()
    }

    /// The sum of the token counts of the messages that carry one.
    pub fn total_tokens_used(&self) -> (r: usize)
        requires
            tokens_total(self@.messages) <= usize::MAX,
        ensures
            r == tokens_total(self@.messages),
    {
        let mut total: usize = 0;
        let mut i: usize = 0;
        let ghost all = message_views(self.messages@);
        assert(all.subrange(0, 0) =~= Seq::<MessageView>::empty());
        while i < self.messages.len()
            invariant
                all == message_views(self.messages@),
                tokens_total(all) <= usize::MAX,
                i <= self.messages@.len(),
                total == tokens_total(all.subrange(0, i as int)),
            decreases self.messages@.len() - i,
        {
            proof {
                assert(all.subrange(0, i + 1).drop_last() =~= all.subrange(0, i as int));
                lemma_tokens_total_prefix(all, i + 1);
            }
            match self.messages[i].tokens_used {
                Some(t) => {
                    total = total + t;
                },
                None => {},
            }
            i += 1;
        }
        assert(all.subrange(0, i as int) =~= all);
        total
    }
}

/// The history that is kept for one function.
#[derive(Debug)]
pub struct NamedHistory {
    name: String,
    history: ConversationHistory,
}

/// The index of the last entry that carries `name`, if there is one.
pub closed spec fn find_history(s: Seq<NamedHistory>, name: Seq<char>) -> Option<int>
    decreases s.len(),
{
    if s.len() == 0 {
        None
    } else if s.last().name@ == name {
        Some(s.len() - 1)
    } else {
        find_history(s.drop_last(), name)
    }
}

/// The histories that a list of entries keeps, by function name.
pub closed spec fn histories_map(s: Seq<NamedHistory>) -> Map<Seq<char>, ConversationHistoryView> {
    Map::new(
        |n: Seq<char>| find_history(s, n) is Some,
        |n: Seq<char>| s[find_history(s, n)->0].history@,
    )
}

proof fn lemma_find_in_range(s: Seq<NamedHistory>, name: Seq<char>)
    ensures
        find_history(s, name) matches Some(i) ==> 0 <= i < s.len() && s[i].name@ == name,
    decreases s.len(),
{
    if s.len() > 0 && s.last().name@ != name {
        lemma_find_in_range(s.drop_last(), name);
    }
}

proof fn lemma_find_last(s: Seq<NamedHistory>, k: int, name: Seq<char>)
    requires
        0 <= k < s.len(),
        s[k].name@ == name,
        forall|j: int| k < j < s.len() ==> s[j].name@ != name,
    ensures
        find_history(s, name) == Some(k),
    decreases s.len(),
{
    if k < s.len() - 1 {
        lemma_find_last(s.drop_last(), k, name);
    }
}

proof fn lemma_find_absent(s: Seq<NamedHistory>, name: Seq<char>)
    requires
        forall|j: int| 0 <= j < s.len() ==> s[j].name@ != name,
    ensures
        find_history(s, name) is None,
    decreases s.len(),
{
    if s.len() > 0 {
        lemma_find_absent(s.drop_last(), name);
    }
}

proof fn lemma_find_same_names(s: Seq<NamedHistory>, t: Seq<NamedHistory>, name: Seq<char>)
    requires
        s.len() == t.len(),
        forall|j: int| 0 <= j < s.len() ==> s[j].name@ == t[j].name@,
    ensures
        find_history(s, name) == find_history(t, name),
    decreases s.len(),
{
    if s.len() > 0 && s.last().name@ != name {
        lemma_find_same_names(s.drop_last(), t.drop_last(), name);
    }
}

/// Replacing the history of the entry found for `name` changes what is kept
/// for `name` and for no other function.
proof fn lemma_histories_replace(
    s: Seq<NamedHistory>,
    t: Seq<NamedHistory>,
    i: int,
    name: Seq<char>,
)
    requires
        find_history(s, name) == Some(i),
        s.len() == t.len(),
        forall|j: int| 0 <= j < s.len() ==> s[j].name@ == t[j].name@,
        forall|j: int| 0 <= j < s.len() && j != i ==> s[j].history@ == t[j].history@,
    ensures
        histories_map(t) == histories_map(s).insert(name, t[i].history@),
{
    assert forall|n: Seq<char>| #[trigger] find_history(t, n) == find_history(s, n) by {
        lemma_find_same_names(s, t, n);
    }
    assert forall|n: Seq<char>| find_history(s, n) is Some implies {
        let j = (#[trigger] find_history(s, n))->0;
        0 <= j < s.len() && s[j].name@ == n
    } by {
        lemma_find_in_range(s, n);
    }
    assert(histories_map(t) =~= histories_map(s).insert(name, t[i].history@));
}

/// The mathematical value of a [`ContextManager`].
pub struct ContextManagerView {
    /// The history used outside any function.
    pub global: ConversationHistoryView,
    /// The history of each function that was entered.
    pub functions: Map<Seq<char>, ConversationHistoryView>,
    /// The function that is being executed, if any.
    pub current: Option<Seq<char>>,
}

impl ContextManagerView {
    /// The history in use, for reading: that of the current function where one
    /// is kept for it, else the global one.
    pub open spec fn current_history(self) -> ConversationHistoryView {
        match self.current {
            Some(n) => if self.functions.contains_key(n) {
                self.functions[n]
            } else {
                self.global
            },
            None => self.global,
        }
    }

    /// The history in use, for writing: that of the current function, empty
    /// where none is kept for it yet, or the global one outside any function.
    pub open spec fn current_or_empty(self) -> ConversationHistoryView {
        match self.current {
            Some(n) => if self.functions.contains_key(n) {
                self.functions[n]
            } else {
                empty_history()
            },
            None => self.global,
        }
    }

    /// This state with `h` in place of the history in use.
    pub open spec fn with_current(self, h: ConversationHistoryView) -> ContextManagerView {
        match self.current {
            Some(n) => ContextManagerView { functions: self.functions.insert(n, h), ..self },
            None => ContextManagerView { global: h, ..self },
        }
    }

    /// This state after `m` was appended to the history in use.
    pub open spec fn with_message(self, m: MessageView) -> ContextManagerView {
        let h = self.current_or_empty();
        self.with_current(ConversationHistoryView { messages: h.messages.push(m), ..h })
    }
}

/// The global history and one history per function, with the function that
/// is being executed.
#[derive(Debug)]
pub struct ContextManager {
    global_history: ConversationHistory,
    function_histories: Vec<NamedHistory>,
    current_function: Option<String>,
}

impl View for ContextManager {
    type V = ContextManagerView;

    closed spec fn view(&self) -> ContextManagerView {
        ContextManagerView {
            global: self.global_history@,
            functions: histories_map(self.function_histories@),
            current: match self.current_function {
                Some(n) => Some(n@),
                None => None,
            },
        }
    }
}

/// The index of the last entry of `entries` that carries `name`.
fn history_position(entries: &Vec<NamedHistory>, name: &str) -> (r: Option<usize>)
    ensures
        match r {
            Some(i) => find_history(entries@, name@) == Some(i as int) && i < entries@.len(),
            None => find_history(entries@, name@) is None,
        },
{
    let mut i: usize = entries.len();
    while i > 0
        invariant
            i <= entries@.len(),
            forall|j: int| i <= j < entries@.len() ==> entries@[j].name@ != name@,
        decreases i,
    {
        i -= 1;
        if str_eq(entries[i].name.as_str(), name) {
            proof {
                lemma_find_last(entries@, i as int, name@);
            }
            return Some(i);
        }
    }
    proof {
        lemma_find_absent(entries@, name@);
    }
    None
}

impl ContextManager {
    /// A manager outside any function, with an empty global history.
    pub fn new() -> (m: ContextManager)
        ensures
            m@ == (ContextManagerView {
                global: empty_history(),
                functions: Map::empty(),
                current: None,
            }),
    {
        let m = ContextManager {
            global_history: ConversationHistory::new(),
            function_histories: Vec::new(),
            current_function: None,
        };
        assert(m@.functions =~= Map::<Seq<char>, ConversationHistoryView>::empty());
        m
    }

    /// The history in use.
    pub fn get_current_history(&self) -> (r: &ConversationHistory)
        ensures
            r@ == self@.current_history(),
    {
        match &self.current_function {
            Some(name) => match history_position(&self.function_histories, name.as_str()) {
                Some(i) => &self.function_histories[i].history,
                None => &self.global_history,
            },
            None => &self.global_history,
        }
    }

    /// The global history.
    pub fn get_global_history(&self) -> (r: &ConversationHistory)
        ensures
            r@ == self@.global,
    {
        &self.global_history
    }

    /// The history kept for `function_name`, if the function was ever entered.
    pub fn get_function_history(&self, function_name: &str) -> (r: Option<&ConversationHistory>)
        ensures
            match r {
                Some(h) => self@.functions.contains_key(function_name@) && h@
                    == self@.functions[function_name@],
                None => !self@.functions.contains_key(function_name@),
            },
    {
        match history_position(&self.function_histories, function_name) {
            Some(i) => Some(&self.function_histories[i].history),
            None => None,
        }
    }

    /// Makes `function_name` the current function and starts an empty history
    /// for it unless one is kept already.
    pub fn enter_function(&mut self, function_name: String)
        ensures
            final(self)@.global == old(self)@.global,
            final(self)@.current == Some(function_name@),
            final(self)@.functions == if old(self)@.functions.contains_key(function_name@) {
                old(self)@.functions
            } else {
                old(self)@.functions.insert(function_name@, empty_history())
            },
    {
        let ghost before = self.function_histories@;
        if history_position(&self.function_histories, function_name.as_str()).is_none() {
            let entry = NamedHistory {
                name: function_name.clone(),
                history: ConversationHistory::new(),
            };
            self.function_histories.push(entry);
            proof {
                let now = self.function_histories@;
                assert(now.drop_last() =~= before);
                assert(now.last() == entry);
                assert forall|n: Seq<char>| #[trigger]
                    find_history(now, n) == if n == function_name@ {
                        Some(before.len() as int)
                    } else {
                        find_history(before, n)
                    } by {}
                assert forall|n: Seq<char>| find_history(before, n) is Some implies now[(
                #[trigger] find_history(before, n))->0] == before[find_history(before, n)->0] by {
                    lemma_find_in_range(before, n);
                }
                assert(histories_map(now) =~= histories_map(before).insert(
                    function_name@,
                    empty_history(),
                ));
            }
        }
        self.current_function = Some(function_name);
    }

    /// The history in use, for writing. Inside a function for which no history
    /// is kept yet, an empty one is started.
    pub fn get_current_history_mut(&mut self) -> (r: &mut ConversationHistory)
        ensures
            r@ == old(self)@.current_or_empty(),
            final(self)@ == old(self)@.with_current(final(r)@),
    {
        let ghost before = self.function_histories@;
        match &self.current_function {
            Some(name) => {
                let found = history_position(&self.function_histories, name.as_str());
                let i: usize = match found {
                    Some(i) => i,
                    None => {
                        let entry = NamedHistory {
                            name: name.clone(),
                            history: ConversationHistory::new(),
                        };
                        self.function_histories.push(entry);
                        proof {
                            let now = self.function_histories@;
                            assert(now.drop_last() =~= before);
                            assert(now.last() == entry);
                            lemma_find_last(now, before.len() as int, name@);
                            assert forall|n: Seq<char>| #[trigger]
                                find_history(now, n) == if n == name@ {
                                    Some(before.len() as int)
                                } else {
                                    find_history(before, n)
                                } by {}
                            assert forall|n: Seq<char>| find_history(before, n) is Some implies now[(
                            #[trigger] find_history(before, n))->0] == before[find_history(
                                before,
                                n,
                            )->0] by {
                                lemma_find_in_range(before, n);
                            }
                            assert(histories_map(now) =~= histories_map(before).insert(
                                name@,
                                empty_history(),
                            ));
                        }
                        self.function_histories.len() - 1
                    },
                };
                proof {
                    let mid = self.function_histories@;
                    let kept = histories_map(before);
                    lemma_find_in_range(mid, name@);
                    assert forall|t: Seq<NamedHistory>|
                        t.len() == mid.len() && (forall|j: int|
                            0 <= j < mid.len() ==> mid[j].name@ == t[j].name@) && (forall|j: int|
                            0 <= j < mid.len() && j != i ==> mid[j].history@ == t[j].history@)
                            implies #[trigger] histories_map(t) == kept.insert(
                            name@,
                            t[i as int].history@,
                        ) by {
                        lemma_histories_replace(mid, t, i as int, name@);
                        assert(histories_map(mid).insert(name@, t[i as int].history@)
                            =~= kept.insert(name@, t[i as int].history@));
                    }
                }
                &mut self.function_histories[i].history
            },
            None => &mut self.global_history,
        }
    }

    /// Appends a message of the user to the history in use.
    pub fn add_user_message(&mut self, content: String)
        ensures
            final(self)@ == old(self)@.with_message(
                MessageView { role: "user"@, content: content@, tokens_used: None },
            ),
    {
        self.get_current_history_mut().add_user_message(content);
    }

    /// Appends a message of the assistant to the history in use.
    pub fn add_assistant_message(&mut self, content: String)
        ensures
            final(self)@ == old(self)@.with_message(
                MessageView { role: "assistant"@, content: content@, tokens_used: None },
            ),
    {
        self.get_current_history_mut().add_assistant_message(content);
    }

    /// Appends to the history in use a message of the assistant that cost
    /// `tokens` tokens.
    pub fn add_assistant_message_with_tokens(&mut self, content: String, tokens: usize)
        ensures
            final(self)@ == old(self)@.with_message(
                MessageView { role: "assistant"@, content: content@, tokens_used: Some(tokens) },
            ),
    {
        self.get_current_history_mut().add_message(
            Message::assistant_with_tokens(content, tokens),
        );
    }

    /// Appends a system message to the history in use.
    pub fn add_system_message(&mut self, content: String)
        ensures
            final(self)@ == old(self)@.with_message(
                MessageView { role: "system"@, content: content@, tokens_used: None },
            ),
    {
        self.get_current_history_mut().add_system_message(content);
    }

    /// Empties the history in use; the other histories stay as they are.
    pub fn clear_context(&mut self)
        ensures
            final(self)@ == old(self)@.with_current(empty_history()),
    {
        self.get_current_history_mut().clear();
    }

    /// Leaves the current function.
    pub fn exit_function(&mut self)
        ensures
            final(self)@ == (ContextManagerView { current: None, ..old(self)@ }),
    {
        self.current_function = None;
    }
}

/// What the agent is asked to do with a piece of a script.
#[derive(Debug, Clone)]
pub enum LLMAction {
    /// A paragraph of prose, handed to the agent as it stands.
    Comment { content: String },
}

/// A token count as shown: thousands and above are shown in whole thousands
/// with a `K`, smaller counts as they are.
pub open spec fn token_count_text(n: nat) -> Seq<char> {
    if n >= 1000 {
        decimal_spec(n / 1000) + "K"@
    } else {
        decimal_spec(n)
    }
}

/// A token count as shown.
fn format_number(n: usize) -> (r: String)
    ensures
        r@ == token_count_text(n as nat),
{
    if n >= 1000 {
        decimal(n / 1000).concat("K")
    } else {
        decimal(n)
    }
}

/// The usage line `<used>/<total> TOK`.
pub open spec fn format_tokens_spec(used: nat, total: nat) -> Seq<char> {
    token_count_text(used) + "/"@ + token_count_text(total) + " TOK"@
}

/// The usage line for `used` tokens out of `total`.
pub fn format_tokens(used: usize, total: usize) -> (r: String)
    ensures
        r@ == format_tokens_spec(used as nat, total as nat),
{
    let total_text = format_number(total);
    format_number(used).concat("/").concat(total_text.as_str()).concat(" TOK")
}

/// The tools that the agent can use.
#[derive(Debug, Clone, Copy, PartialEq, Eq, Structural)]
pub enum ToolKind {
    ReadFile,
    ExecuteCommand,
    ClearContext,
    AddToContext,
}

/// The tool that a name stands for, if it stands for one.
pub open spec fn tool_of(name: Seq<char>) -> Option<ToolKind> {
    if name == "read_file"@ {
        Some(ToolKind::ReadFile)
    } else if name == "execute_command"@ {
        Some(ToolKind::ExecuteCommand)
    } else if name == "clear_context"@ {
        Some(ToolKind::ClearContext)
    } else if name == "add_to_context"@ {
        Some(ToolKind::AddToContext)
    } else {
        None
    }
}

/// The tool that `name` stands for, or the reason for which none can be used.
pub fn tool_kind(name: &str) -> (r: Result<ToolKind, String>)
    ensures
        match r {
            Ok(k) => tool_of(name@) == Some(k),
            Err(m) => tool_of(name@) is None && m@ == "Unknown tool: "@ + name@,
        },
{
    if str_eq(name, "read_file") {
        Ok(ToolKind::ReadFile)
    } else if str_eq(name, "execute_command") {
        Ok(ToolKind::ExecuteCommand)
    } else if str_eq(name, "clear_context") {
        Ok(ToolKind::ClearContext)
    } else if str_eq(name, "add_to_context") {
        Ok(ToolKind::AddToContext)
    } else {
        Err(String::from_str("Unknown tool: ").concat(name))
    }
}

/// The name of the input that a tool takes, if it takes one.
pub fn tool_parameter(kind: ToolKind) -> (r: Option<&'static str>)
    ensures
        match kind {
            ToolKind::ReadFile => r matches Some(p) && p@ == "filename"@,
            ToolKind::ExecuteCommand => r matches Some(p) && p@ == "command"@,
            ToolKind::ClearContext => r is None,
            ToolKind::AddToContext => r matches Some(p) && p@ == "content"@,
        },
{
    match kind {
        ToolKind::ReadFile => Some("filename"),
        ToolKind::ExecuteCommand => Some("command"),
        ToolKind::ClearContext => None,
        ToolKind::AddToContext => Some("content"),
    }
}

/// What is said of a file that could not be read.
pub fn read_error_message(filename: &str, error: &str) -> (r: String)
    ensures
        r@ == "Error reading file '"@ + filename@ + "': "@ + error@,
{
    String::from_str("Error reading file '").concat(filename).concat("': ").concat(error)
}

/// What is said of a command that could not be started.
pub fn command_error_message(command: &str, error: &str) -> (r: String)
    ensures
        r@ == "Failed to execute command '"@ + command@ + "': "@ + error@,
{
    String::from_str("Failed to execute command '").concat(command).concat("': ").concat(error)
}

/// The exit code reported of a command, -1 where a signal ended it, and
/// whether the command succeeded: whether that code is 0.
pub fn command_outcome(code: Option<i32>) -> (r: (bool, i32))
    ensures
        r.1 == match code {
            Some(c) => c,
            None => -1i32,
        },
        r.0 == (r.1 == 0),
{
    let exit_code: i32 = match code {
        Some(c) => c,
        None => -1,
    };
    (exit_code == 0, exit_code)
}

/// The conversation with the agent and what the agent's tools do to it.
#[derive(Debug)]
pub struct LLMActionProcessor {
    pub context_manager: ContextManager,
}

impl LLMActionProcessor {
    /// A processor with an empty conversation.
    pub fn new() -> (p: LLMActionProcessor)
        ensures
            p.context_manager@ == (ContextManagerView {
                global: empty_history(),
                functions: Map::empty(),
                current: None,
            }),
    {
        LLMActionProcessor { context_manager: ContextManager::new() }
    }

    /// Takes up an action: its paragraph joins the history in use as a
    /// message of the user, and a new run of the agent starts.
    pub fn process_action(&mut self, action: LLMAction) -> (run: AgentRun)
        ensures
            final(self).context_manager@ == old(self).context_manager@.with_message(
                MessageView { role: "user"@, content: action_content(action), tokens_used: None },
            ),
            run@ == agent_start(),
    {
        match action {
            LLMAction::Comment { content } => {
                self.context_manager.add_user_message(content);
            },
        }
        AgentRun::new()
    }

    /// The tool that empties the history in use; what it reports.
    pub fn clear_context(&mut self) -> (message: String)
        ensures
            final(self).context_manager@ == old(self).context_manager@.with_current(
                empty_history(),
            ),
            message@ == "Context cleared"@,
    {
        self.context_manager.clear_context();
        String::from_str("Context cleared")
    }

    /// The tool that adds `content` to the history in use as a system
    /// message; what it reports: the first 50 characters of what was added.
    pub fn add_to_context(&mut self, content: &str) -> (message: String)
        ensures
            final(self).context_manager@ == old(self).context_manager@.with_message(
                MessageView { role: "system"@, content: content@, tokens_used: None },
            ),
            message@ == "Added to context: "@ + take_spec(content@, 50),
    {
        self.context_manager.add_system_message(String::from_str(content));
        String::from_str("Added to context: ").concat(take_chars(content, 50).as_str())
    }

    /// Enters a function: from now on its own history is in use.
    pub fn enter_function(&mut self, function_name: String)
        ensures
            final(self).context_manager@.global == old(self).context_manager@.global,
            final(self).context_manager@.current == Some(function_name@),
            final(self).context_manager@.functions == if old(
                self,
            ).context_manager@.functions.contains_key(function_name@) {
                old(self).context_manager@.functions
            } else {
                old(self).context_manager@.functions.insert(function_name@, empty_history())
            },
    {
        self.context_manager.enter_function(function_name);
    }

    /// Leaves the current function: the global history is in use again.
    pub fn exit_function(&mut self)
        ensures
            final(self).context_manager@ == (ContextManagerView {
                current: None,
                ..old(self).context_manager@
            }),
    {
        self.context_manager.exit_function();
    }

    /// A line that says how many messages the global history and the history
    /// in use hold.
    pub fn get_context_info(&self) -> (r: String)
        ensures
            r@ == "Context: "@ + decimal_spec(self.context_manager@.global.messages.len())
                + " messages global, "@ + decimal_spec(
                self.context_manager@.current_history().messages.len(),
            ) + " messages current"@,
    {
        let global = decimal(self.context_manager.get_global_history().message_count());
        let current = decimal(self.context_manager.get_current_history().message_count());
        String::from_str("Context: ").concat(global.as_str()).concat(" messages global, ").concat(
            current.as_str(),
        ).concat(" messages current")
    }

    /// The usage line for the history in use: its tokens out of the most
    /// that a context may hold.
    pub fn get_token_usage(&self) -> (r: String)
        requires
            tokens_total(self.context_manager@.current_history().messages) <= usize::MAX,
        ensures
            r@ == format_tokens_spec(
                tokens_total(self.context_manager@.current_history().messages),
                MAX_CONTEXT_TOKENS as nat,
            ),
    {
        let total = self.context_manager.get_current_history().total_tokens_used();
        format_tokens(total, MAX_CONTEXT_TOKENS)
    }
}

/// The paragraph that an action carries.
pub open spec fn action_content(a: LLMAction) -> Seq<char> {
    match a {
        LLMAction::Comment { content } => content@,
    }
}

/// The most rounds that the agent gets for one paragraph.
pub const MAX_ITERATIONS: usize = 5;

/// One run of the agent on a paragraph: the model is asked, the tools it
/// asks for are used, and it is asked again, for a bounded number of rounds.
#[derive(Debug)]
pub struct AgentRun {
    /// The round, counted from 0.
    pub iteration: usize,
    /// What is shown of the run, line by line.
    pub results: Vec<String>,
    /// What became of each tool that was used in this round.
    pub tool_results: Vec<String>,
}

/// The mathematical value of an [`AgentRun`].
pub struct AgentRunView {
    pub iteration: nat,
    pub results: Seq<Seq<char>>,
    pub tool_results: Seq<Seq<char>>,
}

impl View for AgentRun {
    type V = AgentRunView;

    open spec fn view(&self) -> AgentRunView {
        AgentRunView {
            iteration: self.iteration as nat,
            results: texts(self.results@),
            tool_results: texts(self.tool_results@),
        }
    }
}

/// The run before its first round.
pub open spec fn agent_start() -> AgentRunView {
    AgentRunView { iteration: 0, results: Seq::empty(), tool_results: Seq::empty() }
}

/// Whether one of the first `n` tools of the round did not fail: whether
/// one of their outcomes does not hold the word `failed:`.
pub open spec fn any_succeeded(tool_results: Seq<Seq<char>>, n: nat) -> bool
    decreases n,
{
    if n == 0 {
        false
    } else {
        !contains_spec(tool_results[n - 1], "failed:"@) || any_succeeded(
            tool_results,
            (n - 1) as nat,
        )
    }
}

/// Whether the agent gets another round: the model asked for tools, one of
/// them did not fail, and the rounds are not used up.
pub open spec fn goes_on(run: AgentRunView, had_calls: bool) -> bool {
    had_calls && any_succeeded(run.tool_results, run.tool_results.len()) && run.iteration + 1
        < MAX_ITERATIONS
}

impl AgentRun {
    /// A run before its first round.
    pub fn new() -> (run: AgentRun)
        ensures
            run@ == agent_start(),
    {
        let run = AgentRun { iteration: 0, results: Vec::new(), tool_results: Vec::new() };
        assert(run@.results =~= Seq::<Seq<char>>::empty());
        assert(run@.tool_results =~= Seq::<Seq<char>>::empty());
        run
    }

    fn show(&mut self, line: String)
        ensures
            final(self)@ == (AgentRunView { results: old(self)@.results.push(line@), ..old(self)@ }),
    {
        self.results.push(line);
        assert(texts(self.results@) =~= texts(old(self).results@).push(line@));
    }

    fn note_tool(&mut self, outcome: String)
        ensures
            final(self)@ == (AgentRunView {
                tool_results: old(self)@.tool_results.push(outcome@),
                ..old(self)@
            }),
    {
        self.tool_results.push(outcome);
        assert(texts(self.tool_results@) =~= texts(old(self).tool_results@).push(outcome@));
    }

    /// Takes note of an answer of the model: unless it is blank, it joins the
    /// history in use as a message of the assistant with its tokens, and is
    /// shown with each line marked as the model's.
    pub fn record_reply(&mut self, manager: &mut ContextManager, response: &str, tokens: usize)
        ensures
            final(manager)@ == if trim_spec(response@).len() == 0 {
                old(manager)@
            } else {
                old(manager)@.with_message(
                    MessageView {
                        role: "assistant"@,
                        content: response@,
                        tokens_used: Some(tokens),
                    },
                )
            },
            final(self)@ == if trim_spec(response@).len() == 0 {
                old(self)@
            } else {
                AgentRunView {
                    results: old(self)@.results.push(prefix_lines_spec(response@, "[LLM] "@)),
                    ..old(self)@
                }
            },
    {
        if trim(response).as_str().unicode_len() != 0 {
            manager.add_assistant_message_with_tokens(String::from_str(response), tokens);
            self.show(prefix_lines(response, "[LLM] "));
        }
    }

    /// Takes note of a tool that did its work: `message`, which carries the
    /// result to the model, joins the history in use as a message of the user,
    /// and the result is shown.
    pub fn record_tool_success(
        &mut self,
        manager: &mut ContextManager,
        tool_name: &str,
        result: &str,
        message: String,
    )
        ensures
            final(manager)@ == old(manager)@.with_message(
                MessageView { role: "user"@, content: message@, tokens_used: None },
            ),
            final(self)@ == (AgentRunView {
                results: old(self)@.results.push("[TOOL] "@ + tool_name@ + ": "@ + result@),
                tool_results: old(self)@.tool_results.push("Tool "@ + tool_name@ + " executed"@),
                ..old(self)@
            }),
    {
        manager.add_user_message(message);
        self.show(String::from_str("[TOOL] ").concat(tool_name).concat(": ").concat(result));
        self.note_tool(String::from_str("Tool ").concat(tool_name).concat(" executed"));
    }

    /// Takes note of a tool that failed: the reason is shown.
    pub fn record_tool_failure(&mut self, tool_name: &str, error: &str)
        ensures
            final(self)@ == (AgentRunView {
                results: old(self)@.results.push("[SYS] Tool execution error: "@ + error@),
                tool_results: old(self)@.tool_results.push(
                    "Tool "@ + tool_name@ + " failed: "@ + error@,
                ),
                ..old(self)@
            }),
    {
        self.show(String::from_str("[SYS] Tool execution error: ").concat(error));
        self.note_tool(
            String::from_str("Tool ").concat(tool_name).concat(" failed: ").concat(error),
        );
    }

    /// Takes note that the model could not be asked: the reason is shown,
    /// and the run is over.
    pub fn record_llm_failure(&mut self, error: &str)
        ensures
            final(self)@ == (AgentRunView {
                results: old(self)@.results.push("[SYS] LLM processing failed: "@ + error@),
                ..old(self)@
            }),
    {
        self.show(String::from_str("[SYS] LLM processing failed: ").concat(error));
    }

    /// Ends a round, `had_calls` saying whether the model asked for tools in
    /// it, and says whether another round follows. The next round is
    /// announced among what is shown, and starts with no tool used.
    pub fn next_round(&mut self, had_calls: bool) -> (more: bool)
        ensures
            more == goes_on(old(self)@, had_calls),
            final(self)@ == if more {
                AgentRunView {
                    iteration: old(self)@.iteration + 1,
                    results: old(self)@.results.push(
                        "[SYS] Agentic iteration "@ + decimal_spec(old(self)@.iteration + 2),
                    ),
                    tool_results: Seq::empty(),
                }
            } else {
                old(self)@
            },
            more ==> final(self).iteration < MAX_ITERATIONS,
    {
        if !had_calls || self.iteration >= MAX_ITERATIONS - 1 {
            return false;
        }
        let ghost outcomes = texts(self.tool_results@);
        let mut succeeded = false;
        let mut i: usize = 0;
        while i < self.tool_results.len()
            invariant
                *self == *old(self),
                outcomes == texts(self.tool_results@),
                i <= self.tool_results@.len(),
                succeeded == any_succeeded(outcomes, i as nat),
            decreases self.tool_results@.len() - i,
        {
            assert(outcomes[i as int] == self.tool_results@[i as int]@);
            let failed = contains(self.tool_results[i].as_str(), "failed:");
            succeeded = !failed || succeeded;
            i += 1;
        }
        if !succeeded {
            return false;
        }
        self.iteration = self.iteration + 1;
        self.tool_results = Vec::new();
        assert(texts(self.tool_results@) =~= Seq::<Seq<char>>::empty());
        let number = decimal(self.iteration + 1);
        self.show(String::from_str("[SYS] Agentic iteration ").concat(number.as_str()));
        true
    }

    /// What is shown of the run: its lines, joined by line feeds.
    pub fn finish(&self) -> (r: String)
        ensures
            r@ == join_spec(self@.results, "\n"@, self@.results.len()),
    {
        join(&self.results, "\n")
    }
}

} // verus!
