//! Talking to a language model: what is asked of it and what is made of its
//! answers. Sending a request and receiving the answer is left to the caller.

use vstd::prelude::*;
use vstd::string::StringExecFns;
use crate::text::{
    decimal, decimal_spec, join, join_spec, lines, lines_spec, str_eq, texts, trim, trim_spec,
};

verus! {

/// The number of tokens that an answer may have.
pub const MAX_ANSWER_TOKENS: u32 = 1000;

/// Why a request to the model failed.
#[derive(Debug)]
pub enum LLMError {
    /// No API key is set.
    ApiKeyMissing,
    /// The service answered with an error; this is what it said.
    RequestFailed(String),
    /// The answer could not be understood.
    ParseError(String),
    /// The request could not be sent or the answer not received.
    NetworkError(String),
}

impl LLMError {
    /// The text shown to the user for this error.
    pub open spec fn message_spec(self) -> Seq<char> {
        match self {
            LLMError::ApiKeyMissing => "ANTHROPIC_API_KEY not found in environment"@,
            LLMError::RequestFailed(m) => "API request failed: "@ + m@,
            LLMError::ParseError(m) => "Failed to parse response: "@ + m@,
            LLMError::NetworkError(m) => "Network error: "@ + m@,
        }
    }

    /// The text shown to the user for this error.
    pub fn message(&self) -> (r: String)
        ensures
            r@ == self.message_spec(),
    {
        match self {
            LLMError::ApiKeyMissing => String::from_str(
                "ANTHROPIC_API_KEY not found in environment",
            ),
            LLMError::RequestFailed(m) => String::from_str("API request failed: ").concat(
                m.as_str(),
            ),
            LLMError::ParseError(m) => String::from_str("Failed to parse response: ").concat(
                m.as_str(),
            ),
            LLMError::NetworkError(m) => String::from_str("Network error: ").concat(m.as_str()),
        }
    }
}

/// One block of an answer.
#[derive(Debug, Clone)]
pub struct ContentBlock {
    /// `"text"` for prose, `"tool_use"` for a request to use a tool.
    pub content_type: String,
    pub text: Option<String>,
    /// The name of the tool asked for.
    pub name: Option<String>,
    /// The input for the tool, as JSON text.
    pub input: Option<String>,
}

/// The tokens that a request and its answer took.
#[derive(Debug, Clone, Copy, PartialEq, Eq, Structural)]
pub struct Usage {
    pub input_tokens: usize,
    pub output_tokens: usize,
}

/// The system prompt for an analysis of `context`.
pub open spec fn analysis_system_prompt_spec(context: Seq<char>) -> Seq<char> {
    "You are an AI assistant helping with shell script analysis and automation. You have access to the following context:\n\n"@
        + context
        + "\n\nProvide clear, concise responses focused on the specific request. When analyzing files or configurations, highlight key information and potential issues."@
}

/// The system prompt for an analysis of `context`.
pub fn analysis_system_prompt(context: &str) -> (r: String)
    ensures
        r@ == analysis_system_prompt_spec(context@),
{
    String::from_str(
        "You are an AI assistant helping with shell script analysis and automation. You have access to the following context:\n\n",
    ).concat(context).concat(
        "\n\nProvide clear, concise responses focused on the specific request. When analyzing files or configurations, highlight key information and potential issues.",
    )
}

/// The question that asks for a summary of `request`.
pub open spec fn summary_prompt_spec(request: Seq<char>) -> Seq<char> {
    "Based on the context provided, please summarize: "@ + request
        + "\n\nFocus on the most important points and actionable insights."@
}

/// The question that asks for a summary of `request`.
pub fn summary_prompt(request: &str) -> (r: String)
    ensures
        r@ == summary_prompt_spec(request@),
{
    String::from_str("Based on the context provided, please summarize: ").concat(request).concat(
        "\n\nFocus on the most important points and actionable insights.",
    )
}

/// The question that asks for help with `request`: it points to the context
/// unless the context is blank.
pub open spec fn general_prompt_spec(context: Seq<char>, request: Seq<char>) -> Seq<char> {
    if trim_spec(context).len() == 0 {
        "Please help with: "@ + request
    } else {
        "Based on the provided context, please help with: "@ + request
            + "\n\nUse the context information to provide a more informed response."@
    }
}

/// The question that asks for help with `request`.
pub fn general_prompt(context: &str, request: &str) -> (r: String)
    ensures
        r@ == general_prompt_spec(context@, request@),
{
    if trim(context).as_str().unicode_len() == 0 {
        String::from_str("Please help with: ").concat(request)
    } else {
        String::from_str("Based on the provided context, please help with: ").concat(
            request,
        ).concat("\n\nUse the context information to provide a more informed response.")
    }
}

/// How the context is put to a model that may use tools.
pub open spec fn context_or_none(context: Seq<char>) -> Seq<char> {
    if trim_spec(context).len() == 0 {
        "No context loaded"@
    } else {
        context
    }
}

/// The system prompt for a request that may use tools.
pub open spec fn tools_system_prompt_spec(context: Seq<char>) -> Seq<char> {
    "You are an AI assistant helping with shell automation and file operations. You have access to these tools:\n             - read_file: Read a file into context\n             - clear_context: Clear the current context\n             - analyze: Analyze content in context  \n             - summarize: Summarize content\n             - explain: Explain something\n             - add_to_context: Add information to context\n             \n             Current context: "@
        + context_or_none(context)
        + "\n             \n             Use tools when the user requests file operations, analysis, or context management. Respond naturally and call tools as needed."@
}

/// The system prompt for a request that may use tools.
pub fn tools_system_prompt(context: &str) -> (r: String)
    ensures
        r@ == tools_system_prompt_spec(context@),
{
    let shown = if trim(context).as_str().unicode_len() == 0 {
        String::from_str("No context loaded")
    } else {
        String::from_str(context)
    };
    String::from_str(
        "You are an AI assistant helping with shell automation and file operations. You have access to these tools:\n             - read_file: Read a file into context\n             - clear_context: Clear the current context\n             - analyze: Analyze content in context  \n             - summarize: Summarize content\n             - explain: Explain something\n             - add_to_context: Add information to context\n             \n             Current context: ",
    ).concat(shown.as_str()).concat(
        "\n             \n             Use tools when the user requests file operations, analysis, or context management. Respond naturally and call tools as needed.",
    )
}

/// The text of the first block of an answer.
pub open spec fn first_text_spec(blocks: Seq<ContentBlock>) -> Result<Seq<char>, Seq<char>> {
    if blocks.len() == 0 {
        Err("No content in response"@)
    } else {
        match blocks[0].text {
            Some(t) => Ok(t@),
            None => Err("No text in content block"@),
        }
    }
}

/// The text of the first block of an answer; an answer without blocks, or
/// whose first block holds no text, cannot be understood.
pub fn first_text(blocks: &Vec<ContentBlock>) -> (r: Result<String, LLMError>)
    ensures
        match r {
            Ok(t) => first_text_spec(blocks@) == Ok::<Seq<char>, Seq<char>>(t@),
            Err(LLMError::ParseError(m)) => first_text_spec(blocks@) == Err::<
                Seq<char>,
                Seq<char>,
            >(m@),
            Err(_) => false,
        },
{
    if blocks.len() == 0 {
        Err(LLMError::ParseError(String::from_str("No content in response")))
    } else {
        match &blocks[0].text {
            Some(t) => Ok(t.clone()),
            None => Err(LLMError::ParseError(String::from_str("No text in content block"))),
        }
    }
}

/// The first `n` lines, each with `prefix` before it, joined by line feeds.
pub open spec fn prefixed_lines(lines: Seq<Seq<char>>, prefix: Seq<char>, n: nat) -> Seq<char> {
    join_spec(lines.map_values(|l: Seq<char>| prefix + l), "\n"@, n)
}

/// `text` with `prefix` before each of its lines.
pub open spec fn prefix_lines_spec(text: Seq<char>, prefix: Seq<char>) -> Seq<char> {
    prefixed_lines(lines_spec(text), prefix, lines_spec(text).len())
}

/// `text` with `prefix` before each of its lines.
pub fn prefix_lines(text: &str, prefix: &str) -> (r: String)
    ensures
        r@ == prefix_lines_spec(text@, prefix@),
{
    let found = lines(text);
    let mut marked: Vec<String> = Vec::new();
    let mut i: usize = 0;
    while i < found.len()
        invariant
            i <= found@.len(),
            marked@.len() == i,
            forall|k: int| 0 <= k < i ==> marked@[k]@ == prefix@ + found@[k]@,
        decreases found@.len() - i,
    {
        marked.push(String::from_str(prefix).concat(found[i].as_str()));
        i += 1;
    }
    assert(texts(marked@) =~= texts(found@).map_values(|l: Seq<char>| prefix@ + l));
    join(&marked, "\n")
}

/// What the stand-in for the model answers: the request itself, each line
/// marked as coming from the stand-in.
pub fn mock_reply(content: &str) -> (r: String)
    ensures
        r@ == prefix_lines_spec(content@, "[LLM] [Mock] "@),
{
    prefix_lines(content, "[LLM] [Mock] ")
}

/// What the stand-in for the model answers to a request for analysis.
pub fn mock_analysis(content: &str) -> (r: String)
    ensures
        r@ == prefix_lines_spec(content@, "[LLM] [Mock Analysis] "@),
{
    prefix_lines(content, "[LLM] [Mock Analysis] ")
}

/// What the stand-in for the model answers to a request for a summary.
pub fn mock_summary(content: &str) -> (r: String)
    ensures
        r@ == prefix_lines_spec(content@, "[LLM] [Mock Summary] "@),
{
    prefix_lines(content, "[LLM] [Mock Summary] ")
}

/// What is shown for the outcome of a request for analysis: the answer with
/// each line marked as the model's, or the reason for which there is none.
pub fn analysis_reply(outcome: &Result<String, LLMError>) -> (r: String)
    ensures
        r@ == match *outcome {
            Ok(t) => prefix_lines_spec(t@, "[LLM] "@),
            Err(e) => "[SYS] Analysis failed: "@ + e.message_spec(),
        },
{
    match outcome {
        Ok(t) => prefix_lines(t.as_str(), "[LLM] "),
        Err(e) => String::from_str("[SYS] Analysis failed: ").concat(e.message().as_str()),
    }
}

/// What is shown for the outcome of a request for a summary.
pub fn summary_reply(outcome: &Result<String, LLMError>) -> (r: String)
    ensures
        r@ == match *outcome {
            Ok(t) => prefix_lines_spec(t@, "[LLM] "@),
            Err(e) => "[SYS] Summarization failed: "@ + e.message_spec(),
        },
{
    match outcome {
        Ok(t) => prefix_lines(t.as_str(), "[LLM] "),
        Err(e) => String::from_str("[SYS] Summarization failed: ").concat(e.message().as_str()),
    }
}

/// The lines that the model said in the first `n` blocks: for each block of
/// prose that holds a text, that text with each line marked as the model's.
pub open spec fn said_lines(blocks: Seq<ContentBlock>, n: nat) -> Seq<Seq<char>>
    decreases n,
{
    if n == 0 {
        Seq::empty()
    } else {
        let before = said_lines(blocks, (n - 1) as nat);
        let b = blocks[n - 1];
        if b.content_type@ == "text"@ && b.text is Some {
            before.push(prefix_lines_spec(b.text->0@, "[LLM] "@))
        } else {
            before
        }
    }
}

/// The tools that the model asked for in the first `n` blocks, each with
/// its name and its input: one for each tool-use block that holds both.
pub open spec fn requested_tools(blocks: Seq<ContentBlock>, n: nat) -> Seq<(Seq<char>, Seq<char>)>
    decreases n,
{
    if n == 0 {
        Seq::empty()
    } else {
        let before = requested_tools(blocks, (n - 1) as nat);
        let b = blocks[n - 1];
        if b.content_type@ == "tool_use"@ && b.name is Some && b.input is Some {
            before.push((b.name->0@, b.input->0@))
        } else {
            before
        }
    }
}

/// What is shown of an answer: what the model said, or a note that the
/// request was processed where it said nothing.
pub open spec fn response_text_spec(blocks: Seq<ContentBlock>) -> Seq<char> {
    let said = said_lines(blocks, blocks.len());
    if said.len() == 0 {
        "[LLM] Processed request"@
    } else {
        join_spec(said, "\n"@, said.len())
    }
}

/// The tokens that an answer took: those of the request and of the answer
/// together, or none where the service did not say.
pub open spec fn total_tokens_spec(usage: Option<Usage>) -> int {
    match usage {
        Some(u) => u.input_tokens + u.output_tokens,
        None => 0,
    }
}

/// The values of a list of tool requests.
pub open spec fn tool_call_views(v: Seq<(String, String)>) -> Seq<(Seq<char>, Seq<char>)> {
    v.map_values(|c: (String, String)| (c.0@, c.1@))
}

/// Makes of an answer what is shown, which tools are to be used, and how
/// many tokens it took.
pub fn interpret_tool_response(blocks: &Vec<ContentBlock>, usage: Option<Usage>) -> (r: (
    String,
    Vec<(String, String)>,
    usize,
))
    requires
        total_tokens_spec(usage) <= usize::MAX,
    ensures
        r.0@ == response_text_spec(blocks@),
        tool_call_views(r.1@) == requested_tools(blocks@, blocks@.len()),
        r.2 == total_tokens_spec(usage),
{
    let mut said: Vec<String> = Vec::new();
    let mut calls: Vec<(String, String)> = Vec::new();
    let mut i: usize = 0;
    assert(texts(said@) =~= said_lines(blocks@, 0));
    assert(tool_call_views(calls@) =~= requested_tools(blocks@, 0));
    while i < blocks.len()
        invariant
            i <= blocks@.len(),
            texts(said@) == said_lines(blocks@, i as nat),
            tool_call_views(calls@) == requested_tools(blocks@, i as nat),
        decreases blocks@.len() - i,
    {
        let b = &blocks[i];
        let ghost said_before = said@;
        let ghost calls_before = calls@;
        proof {
            reveal_strlit("text");
            reveal_strlit("tool_use");
            assert("text"@.len() != "tool_use"@.len());
        }
        if str_eq(b.content_type.as_str(), "text") {
            match &b.text {
                Some(t) => {
                    said.push(prefix_lines(t.as_str(), "[LLM] "));
                    assert(texts(said@) =~= texts(said_before).push(
                        prefix_lines_spec(t@, "[LLM] "@),
                    ));
                },
                None => {},
            }
        } else if str_eq(b.content_type.as_str(), "tool_use") {
            match (&b.name, &b.input) {
                (Some(name), Some(input)) => {
                    let call = (name.clone(), input.clone());
                    calls.push(call);
                    assert(tool_call_views(calls@) =~= tool_call_views(calls_before).push(
                        (name@, input@),
                    ));
                },
                _ => {},
            }
        }
        i += 1;
    }
    let text = if said.len() == 0 {
        String::from_str("[LLM] Processed request")
    } else {
        join(&said, "\n")
    };
    let tokens: usize = match usage {
        Some(u) => u.input_tokens + u.output_tokens,
        None => 0,
    };
    (text, calls, tokens)
}

/// The number of bytes that a text takes in UTF-8, as `str::len` counts them.
pub open spec fn byte_length(s: Seq<char>) -> usize {
    vstd::utf8::encode_utf8(s).len() as usize
}

/// How the context is put to a model that works on its own.
pub open spec fn context_summary_spec(context: Seq<char>) -> Seq<char> {
    if trim_spec(context).len() == 0 {
        "No context loaded"@
    } else {
        "CONTEXT LOADED ("@ + decimal_spec(byte_length(context) as nat) + " chars): "@ + context
    }
}

/// The system prompt for a model that works on its own, using tools in turn.
pub open spec fn agent_system_prompt_spec(context: Seq<char>) -> Seq<char> {
    "You are an AI assistant helping with shell automation and file operations. You operate in AGENTIC mode - you can perform multiple sequential actions to complete complex tasks.\n\nAvailable tools:\n- read_file: Read files into context for analysis\n- clear_context: Clear current context\n- add_to_context: Add information to context\n\nIMPORTANT INSTRUCTIONS:\n1. When given a task, think about what information you need to complete it\n2. Use tools to gather information, then analyze and provide insights\n3. If you need multiple steps, use tools in sequence (each tool call triggers a follow-up)\n4. Only stop calling tools when you have fully completed the task\n5. Be proactive - if a task requires reading files, analysis, or context building, do it automatically\n6. ALWAYS UTILIZE CONTEXT: If context is loaded, use it to answer questions directly\n\n"@
        + context_summary_spec(context)
}

/// The system prompt for a model that works on its own.
pub fn agent_system_prompt(context: &str) -> (r: String)
    ensures
        r@ == agent_system_prompt_spec(context@),
{
    let summary = if trim(context).as_str().unicode_len() == 0 {
        String::from_str("No context loaded")
    } else {
        let size = decimal(context.len());
        String::from_str("CONTEXT LOADED (").concat(size.as_str()).concat(" chars): ").concat(
            context,
        )
    };
    String::from_str(
        "You are an AI assistant helping with shell automation and file operations. You operate in AGENTIC mode - you can perform multiple sequential actions to complete complex tasks.\n\nAvailable tools:\n- read_file: Read files into context for analysis\n- clear_context: Clear current context\n- add_to_context: Add information to context\n\nIMPORTANT INSTRUCTIONS:\n1. When given a task, think about what information you need to complete it\n2. Use tools to gather information, then analyze and provide insights\n3. If you need multiple steps, use tools in sequence (each tool call triggers a follow-up)\n4. Only stop calling tools when you have fully completed the task\n5. Be proactive - if a task requires reading files, analysis, or context building, do it automatically\n6. ALWAYS UTILIZE CONTEXT: If context is loaded, use it to answer questions directly\n\n",
    ).concat(summary.as_str())
}

/// A tool that the model may ask for. Its input is an object with at most
/// one property, a required string.
#[derive(Debug, Clone)]
pub struct Tool {
    pub name: String,
    pub description: String,
    /// The name and the description of the input property, if there is one.
    pub parameter: Option<(String, String)>,
}

/// The mathematical value of a [`Tool`].
pub struct ToolView {
    pub name: Seq<char>,
    pub description: Seq<char>,
    pub parameter: Option<(Seq<char>, Seq<char>)>,
}

impl View for Tool {
    type V = ToolView;

    open spec fn view(&self) -> ToolView {
        ToolView {
            name: self.name@,
            description: self.description@,
            parameter: match self.parameter {
                Some(p) => Some((p.0@, p.1@)),
                None => None,
            },
        }
    }
}

/// The values of a list of tools.
pub open spec fn tool_views(v: Seq<Tool>) -> Seq<ToolView> {
    v.map_values(|t: Tool| t@)
}

/// The tool that reads a file.
pub open spec fn read_file_tool() -> ToolView {
    ToolView {
        name: "read_file"@,
        description: "Read a file into the context for analysis"@,
        parameter: Some(("filename"@, "Path to the file to read"@)),
    }
}

/// The tool that empties the context.
pub open spec fn clear_context_tool() -> ToolView {
    ToolView {
        name: "clear_context"@,
        description: "Clear the current context"@,
        parameter: None,
    }
}

/// The tool that analyzes what is in the context.
pub open spec fn analyze_tool() -> ToolView {
    ToolView {
        name: "analyze"@,
        description: "Analyze content in the current context"@,
        parameter: Some(("content"@, "What to analyze"@)),
    }
}

/// The tool that adds to the context.
pub open spec fn add_to_context_tool() -> ToolView {
    ToolView {
        name: "add_to_context"@,
        description: "Add information to the current context"@,
        parameter: Some(("content"@, "Content to add to context"@)),
    }
}

/// Makes a tool.
fn tool(name: &str, description: &str, parameter: Option<(&str, &str)>) -> (t: Tool)
    ensures
        t@ == (ToolView {
            name: name@,
            description: description@,
            parameter: match parameter {
                Some(p) => Some((p.0@, p.1@)),
                None => None,
            },
        }),
{
    Tool {
        name: String::from_str(name),
        description: String::from_str(description),
        parameter: match parameter {
            Some(p) => Some((String::from_str(p.0), String::from_str(p.1))),
            None => None,
        },
    }
}

/// The tools offered to a model that works on its own.
pub fn agent_tools() -> (r: Vec<Tool>)
    ensures
        tool_views(r@) == seq![read_file_tool(), clear_context_tool(), add_to_context_tool()],
{
    let mut r: Vec<Tool> = Vec::new();
    r.push(
        tool(
            "read_file",
            "Read a file into the context for analysis",
            Some(("filename", "Path to the file to read")),
        ),
    );
    r.push(tool("clear_context", "Clear the current context", None));
    r.push(
        tool(
            "add_to_context",
            "Add information to the current context",
            Some(("content", "Content to add to context")),
        ),
    );
    assert(tool_views(r@) =~= seq![
        read_file_tool(),
        clear_context_tool(),
        add_to_context_tool(),
    ]);
    r
}

/// One message of a request.
#[derive(Debug, Clone)]
pub struct ChatMessage {
    pub role: String,
    pub content: String,
}

/// A request to the model.
#[derive(Debug)]
pub struct ChatRequest {
    pub model: String,
    pub max_tokens: u32,
    pub messages: Vec<ChatMessage>,
    pub system: Option<String>,
    pub tools: Option<Vec<Tool>>,
}

/// The settings with which the service is reached.
#[derive(Debug, Clone)]
pub struct AnthropicClient {
    pub api_key: String,
    pub model: String,
}

/// Whether a request has exactly one message, of the user, with this content.
pub open spec fn asks(request: ChatRequest, content: Seq<char>) -> bool {
    request.messages@.len() == 1 && request.messages@[0].role@ == "user"@
        && request.messages@[0].content@ == content
}

impl AnthropicClient {
    /// The settings for the key `api_key` and the model that `model_var`
    /// names, or `default_model` where it names none. Without a key there
    /// are no settings.
    pub fn new(api_key: Option<String>, model_var: Option<String>, default_model: &str) -> (r:
        Result<AnthropicClient, LLMError>)
        ensures
            match r {
                Ok(c) => api_key == Some(c.api_key) && c.model@ == match model_var {
                    Some(m) => m@,
                    None => default_model@,
                },
                Err(e) => api_key is None && e is ApiKeyMissing,
            },
    {
        match api_key {
            Some(key) => Ok(
                AnthropicClient {
                    api_key: key,
                    model: match model_var {
                        Some(m) => m,
                        None => String::from_str(default_model),
                    },
                },
            ),
            None => Err(LLMError::ApiKeyMissing),
        }
    }

    /// The settings for the key `api_key` and the model `model`.
    pub fn with_model(api_key: Option<String>, model: &str) -> (r: Result<
        AnthropicClient,
        LLMError,
    >)
        ensures
            match r {
                Ok(c) => api_key == Some(c.api_key) && c.model@ == model@,
                Err(e) => api_key is None && e is ApiKeyMissing,
            },
    {
        match api_key {
            Some(key) => Ok(AnthropicClient { api_key: key, model: String::from_str(model) }),
            None => Err(LLMError::ApiKeyMissing),
        }
    }

    /// The request that asks `prompt` of the model with `context` at hand.
    pub fn analyze_context(&self, context: &str, prompt: &str) -> (r: ChatRequest)
        ensures
            r.model@ == self.model@,
            r.max_tokens == MAX_ANSWER_TOKENS,
            asks(r, prompt@),
            r.system matches Some(s) && s@ == analysis_system_prompt_spec(context@),
            r.tools is None,
    {
        let mut messages: Vec<ChatMessage> = Vec::new();
        messages.push(
            ChatMessage { role: String::from_str("user"), content: String::from_str(prompt) },
        );
        ChatRequest {
            model: self.model.clone(),
            max_tokens: MAX_ANSWER_TOKENS,
            messages,
            system: Some(analysis_system_prompt(context)),
            tools: None,
        }
    }

    /// The request that asks for a summary of `request`.
    pub fn summarize_context(&self, context: &str, request: &str) -> (r: ChatRequest)
        ensures
            r.model@ == self.model@,
            r.max_tokens == MAX_ANSWER_TOKENS,
            asks(r, summary_prompt_spec(request@)),
            r.system matches Some(s) && s@ == analysis_system_prompt_spec(context@),
            r.tools is None,
    {
        let prompt = summary_prompt(request);
        self.analyze_context(context, prompt.as_str())
    }

    /// The request that asks for help with `request`.
    pub fn process_general_request(&self, context: &str, request: &str) -> (r: ChatRequest)
        ensures
            r.model@ == self.model@,
            r.max_tokens == MAX_ANSWER_TOKENS,
            asks(r, general_prompt_spec(context@, request@)),
            r.system matches Some(s) && s@ == analysis_system_prompt_spec(context@),
            r.tools is None,
    {
        let prompt = general_prompt(context, request);
        self.analyze_context(context, prompt.as_str())
    }

    /// The tools offered with a request that may use tools.
    pub fn get_available_tools(&self) -> (r: Vec<Tool>)
        ensures
            tool_views(r@) == seq![
                read_file_tool(),
                clear_context_tool(),
                analyze_tool(),
                add_to_context_tool(),
            ],
    {
        let mut r: Vec<Tool> = Vec::new();
        r.push(
            tool(
                "read_file",
                "Read a file into the context for analysis",
                Some(("filename", "Path to the file to read")),
            ),
        );
        r.push(tool("clear_context", "Clear the current context", None));
        r.push(
            tool(
                "analyze",
                "Analyze content in the current context",
                Some(("content", "What to analyze")),
            ),
        );
        r.push(
            tool(
                "add_to_context",
                "Add information to the current context",
                Some(("content", "Content to add to context")),
            ),
        );
        assert(tool_views(r@) =~= seq![
            read_file_tool(),
            clear_context_tool(),
            analyze_tool(),
            add_to_context_tool(),
        ]);
        r
    }

    /// The request that puts `request` to the model and offers it the tools.
    pub fn process_with_tools(&self, context: &str, request: &str) -> (r: ChatRequest)
        ensures
            r.model@ == self.model@,
            r.max_tokens == MAX_ANSWER_TOKENS,
            asks(r, request@),
            r.system matches Some(s) && s@ == tools_system_prompt_spec(context@),
            r.tools matches Some(t) && tool_views(t@) == seq![
                read_file_tool(),
                clear_context_tool(),
                analyze_tool(),
                add_to_context_tool(),
            ],
    {
        let mut messages: Vec<ChatMessage> = Vec::new();
        messages.push(
            ChatMessage { role: String::from_str("user"), content: String::from_str(request) },
        );
        ChatRequest {
            model: self.model.clone(),
            max_tokens: MAX_ANSWER_TOKENS,
            messages,
            system: Some(tools_system_prompt(context)),
            tools: Some(self.get_available_tools()),
        }
    }
}

/// What is shown of an answer to a request that offered tools: the lines
/// gathered from its blocks, joined by line feeds, or a note that the request
/// was processed where there are none.
pub open spec fn tool_answer_spec(results: Seq<Seq<char>>) -> Seq<char> {
    if results.len() == 0 {
        "\u{1F916} Processed request"@
    } else {
        join_spec(results, "\n"@, results.len())
    }
}

/// The line shown for a block of prose of such an answer.
pub fn said_line(text: &str) -> (r: String)
    ensures
        r@ == "\u{1F916} "@ + text@,
{
    String::from_str("\u{1F916} ").concat(text)
}

/// The line shown for a tool that failed while such an answer was handled.
pub fn tool_error_line(error: &str) -> (r: String)
    ensures
        r@ == "Tool execution error: "@ + error@,
{
    String::from_str("Tool execution error: ").concat(error)
}

/// What is shown of an answer to a request that offered tools.
pub fn tool_answer(results: &Vec<String>) -> (r: String)
    ensures
        r@ == tool_answer_spec(texts(results@)),
{
    if results.len() == 0 {
        String::from_str("\u{1F916} Processed request")
    } else {
        join(results, "\n")
    }
}

/// Which model answers.
#[derive(Debug, Clone, Copy, PartialEq, Eq, Structural)]
pub enum ClientType {
    /// The service.
    Anthropic,
    /// A stand-in that repeats what it is asked.
    Mock,
}

/// The model that answers: the service where it can be reached, else a stand-in.
#[derive(Debug)]
pub struct LLMClient {
    pub client_type: ClientType,
    pub anthropic_client: Option<AnthropicClient>,
}

/// The model that is asked: the one named in the call, else the one that
/// `model_var` names, else the default one.
pub open spec fn chosen_model(
    model_var: Option<String>,
    model: Option<&str>,
    default_model: Seq<char>,
) -> Seq<char> {
    match model {
        Some(m) => m@,
        None => match model_var {
            Some(m) => m@,
            None => default_model,
        },
    }
}

/// Whether `client` and `notes` are what the key `api_key` and the model
/// `model` give: with a key the service, without one the stand-in, and in
/// either case one line that says so.
pub open spec fn client_is_for(
    client: LLMClient,
    notes: Vec<String>,
    api_key: Option<String>,
    model: Seq<char>,
) -> bool {
    match api_key {
        Some(key) => {
            &&& client.client_type == ClientType::Anthropic
            &&& client.anthropic_client is Some
            &&& client.anthropic_client->0.api_key == key
            &&& client.anthropic_client->0.model@ == model
            &&& texts(notes@) == seq![
                "[SYS] Anthropic LLM integration enabled (model: "@ + model + ")"@,
            ]
        },
        None => {
            &&& client.client_type == ClientType::Mock
            &&& client.anthropic_client is None
            &&& texts(notes@) == seq!["[SYS] ANTHROPIC_API_KEY not found, using mock LLM client"@]
        },
    }
}

impl LLMClient {
    /// The client for the default model; see [`LLMClient::with_model`].
    pub fn new(api_key: Option<String>, model_var: Option<String>, default_model: &str) -> (r: (
        LLMClient,
        Vec<String>,
    ))
        ensures
            client_is_for(r.0, r.1, api_key, chosen_model(model_var, None, default_model@)),
    {
        LLMClient::with_model(api_key, model_var, default_model, None)
    }

    /// The client for the key `api_key`: with a key the service, asked for
    /// `model`, or where none is given for the model that `model_var` names or
    /// for `default_model`; without a key the stand-in. With it come the
    /// lines that tell the user which it is.
    pub fn with_model(
        api_key: Option<String>,
        model_var: Option<String>,
        default_model: &str,
        model: Option<&str>,
    ) -> (r: (LLMClient, Vec<String>))
        ensures
            client_is_for(r.0, r.1, api_key, chosen_model(model_var, model, default_model@)),
    {
        let mut notes: Vec<String> = Vec::new();
        if api_key.is_none() {
            notes.push(String::from_str("[SYS] ANTHROPIC_API_KEY not found, using mock LLM client"));
            assert(texts(notes@) =~= seq![
                "[SYS] ANTHROPIC_API_KEY not found, using mock LLM client"@,
            ]);
            return (LLMClient { client_type: ClientType::Mock, anthropic_client: None }, notes);
        }
        let made = match model {
            Some(m) => AnthropicClient::with_model(api_key, m),
            None => AnthropicClient::new(api_key, model_var, default_model),
        };
        match made {
            Ok(client) => {
                let note = String::from_str(
                    "[SYS] Anthropic LLM integration enabled (model: ",
                ).concat(client.model.as_str()).concat(")");
                notes.push(note);
                assert(texts(notes@) =~= seq![
                    "[SYS] Anthropic LLM integration enabled (model: "@ + client.model@ + ")"@,
                ]);
                (
                    LLMClient {
                        client_type: ClientType::Anthropic,
                        anthropic_client: Some(client),
                    },
                    notes,
                )
            },
            Err(e) => {
                notes.push(
                    String::from_str("[SYS] Anthropic client initialization failed: ").concat(
                        e.message().as_str(),
                    ),
                );
                notes.push(String::from_str("[SYS] Falling back to mock client"));
                (LLMClient { client_type: ClientType::Mock, anthropic_client: None }, notes)
            },
        }
    }
}

/// What is shown for a request for analysis of `content`: the stand-in's
/// answer where the stand-in answers, else what became of the request to the
/// service, `outcome` being `None` where there are no settings to ask it with.
pub open spec fn analysis_shown(
    client_type: ClientType,
    content: Seq<char>,
    outcome: Option<Result<String, LLMError>>,
) -> Seq<char> {
    match client_type {
        ClientType::Mock => prefix_lines_spec(content, "[LLM] [Mock Analysis] "@),
        ClientType::Anthropic => match outcome {
            Some(Ok(t)) => prefix_lines_spec(t@, "[LLM] "@),
            Some(Err(e)) => "[SYS] Analysis failed: "@ + e.message_spec(),
            None => "[SYS] No Anthropic client available"@,
        },
    }
}

/// What is shown for a request for a summary of `content`.
pub open spec fn summary_shown(
    client_type: ClientType,
    content: Seq<char>,
    outcome: Option<Result<String, LLMError>>,
) -> Seq<char> {
    match client_type {
        ClientType::Mock => prefix_lines_spec(content, "[LLM] [Mock Summary] "@),
        ClientType::Anthropic => match outcome {
            Some(Ok(t)) => prefix_lines_spec(t@, "[LLM] "@),
            Some(Err(e)) => "[SYS] Summarization failed: "@ + e.message_spec(),
            None => "[SYS] No Anthropic client available"@,
        },
    }
}

impl LLMClient {
    /// What is shown for a request for analysis of `content`, `outcome` being
    /// what became of the request to the service, if it was made.
    pub fn analyze_context(&self, content: &str, outcome: &Option<Result<String, LLMError>>) -> (r:
        String)
        ensures
            r@ == analysis_shown(self.client_type, content@, *outcome),
    {
        match self.client_type {
            ClientType::Mock => mock_analysis(content),
            ClientType::Anthropic => match outcome {
                Some(made) => analysis_reply(made),
                None => String::from_str("[SYS] No Anthropic client available"),
            },
        }
    }

    /// What is shown for a request for a summary of `content`, `outcome`
    /// being what became of the request to the service, if it was made.
    pub fn summarize_context(&self, content: &str, outcome: &Option<Result<String, LLMError>>) -> (r:
        String)
        ensures
            r@ == summary_shown(self.client_type, content@, *outcome),
    {
        match self.client_type {
            ClientType::Mock => mock_summary(content),
            ClientType::Anthropic => match outcome {
                Some(made) => summary_reply(made),
                None => String::from_str("[SYS] No Anthropic client available"),
            },
        }
    }

    /// What is made of a request that may use tools: the stand-in repeats
    /// `content`, asks for no tool and takes no tokens; the service's answer,
    /// given by its blocks and its usage, is interpreted.
    pub fn process_with_tools(
        &self,
        content: &str,
        blocks: &Vec<ContentBlock>,
        usage: Option<Usage>,
    ) -> (r: (String, Vec<(String, String)>, usize))
        requires
            self.client_type == ClientType::Anthropic ==> total_tokens_spec(usage) <= usize::MAX,
        ensures
            match self.client_type {
                ClientType::Mock => r.0@ == prefix_lines_spec(content@, "[LLM] [Mock] "@)
                    && r.1@.len() == 0 && r.2 == 0,
                ClientType::Anthropic => r.0@ == response_text_spec(blocks@) && tool_call_views(
                    r.1@,
                ) == requested_tools(blocks@, blocks@.len()) && r.2 == total_tokens_spec(usage),
            },
    {
        match self.client_type {
            ClientType::Mock => (mock_reply(content), Vec::new(), 0),
            ClientType::Anthropic => interpret_tool_response(blocks, usage),
        }
    }
}

/// Whether the service can be asked: whether an API key is set.
pub fn is_anthropic_available(api_key: Option<&str>) -> (r: bool)
    ensures
        r == api_key is Some,
{
    api_key.is_some()
}

} // verus!
