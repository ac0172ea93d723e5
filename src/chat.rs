//! The chat capability: message roles, messages, the chat configuration and
//! the shapes of chat responses, whole and streamed.

use vstd::prelude::*;
use vstd::string::*;
use crate::decimal::Decimal;
use crate::text::same_text;
use crate::client::OpenAIConfig;

verus! {

/// The author of a message.
#[derive(Clone, Copy, Debug, PartialEq, Eq, Structural)]
pub enum MessageRole {
    User,
    Assistant,
    System,
    Function,
}

/// The wire name of a role.
pub open spec fn role_name(r: MessageRole) -> Seq<char> {
    match r {
        MessageRole::User => "user"@,
        MessageRole::Assistant => "assistant"@,
        MessageRole::System => "system"@,
        MessageRole::Function => "function"@,
    }
}

/// The role that a wire name stands for; any unknown name is a user.
pub open spec fn role_of_name(s: Seq<char>) -> MessageRole {
    if s == "assistant"@ {
        MessageRole::Assistant
    } else if s == "system"@ {
        MessageRole::System
    } else if s == "function"@ {
        MessageRole::Function
    } else {
        MessageRole::User
    }
}

impl MessageRole {
    /// The wire name of this role.
    pub fn to_string(&self) -> (r: String)
        ensures
            r@ == role_name(*self),
    {
        match self {
            MessageRole::User => String::from_str("user"),
            MessageRole::Assistant => String::from_str("assistant"),
            MessageRole::System => String::from_str("system"),
            MessageRole::Function => String::from_str("function"),
        }
    }

    /// The role named `name`; a name that is not a role's gives `User`.
    pub fn from_name(name: &str) -> (r: MessageRole)
        ensures
            r == role_of_name(name@),
    {
        if same_text(name, "assistant") {
            MessageRole::Assistant
        } else if same_text(name, "system") {
            MessageRole::System
        } else if same_text(name, "function") {
            MessageRole::Function
        } else {
            MessageRole::User
        }
    }
}

/// The name and the JSON-encoded arguments of a function the model asks to call.
#[derive(Clone, Debug)]
pub struct FunctionCall {
    pub name: String,
    pub arguments: String,
}

/// One message of a conversation.
#[derive(Clone, Debug)]
pub struct Message {
    /// The wire name of the author's role.
    pub role: String,
    pub content: String,
    /// The author's name; meaningful for the function role only.
    pub name: Option<String>,
    pub function_call: Option<FunctionCall>,
}

/// A message with `role` and `content` and neither a name nor a function call.
pub open spec fn is_plain_message(m: Message, role: MessageRole, content: Seq<char>) -> bool {
    &&& m.role@ == role_name(role)
    &&& m.content@ == content
    &&& m.name is None
    &&& m.function_call is None
}

impl Message {
    /// A message from `role` holding `content`.
    pub fn new(role: &MessageRole, content: &str) -> (r: Message)
        ensures
            is_plain_message(r, *role, content@),
    {
        Message {
            role: role.to_string(),
            content: String::from_str(content),
            name: None,
            function_call: None,
        }
    }

    /// A message from the user holding `content`.
    pub fn from_prompt(content: &str) -> (r: Message)
        ensures
            is_plain_message(r, MessageRole::User, content@),
    {
        Message::new(&MessageRole::User, content)
    }

    /// The message as `role: content`, where an unknown role reads as `user`.
    pub fn render(&self) -> (r: String)
        ensures
            r@ == role_name(role_of_name(self.role@)) + ": "@ + self.content@,
    {
        let role = MessageRole::from_name(self.role.as_str());
        let head = role.to_string();
        let with_sep = head.concat(": ");
        with_sep.concat(self.content.as_str())
    }

    /// A copy of this message.
    pub fn duplicate(&self) -> (r: Message)
        ensures
            r == *self,
    {
        let function_call = match &self.function_call {
            Some(f) => Some(FunctionCall { name: f.name.clone(), arguments: f.arguments.clone() }),
            None => None,
        };
        Message {
            role: self.role.clone(),
            content: self.content.clone(),
            name: match &self.name {
                Some(n) => Some(n.clone()),
                None => None,
            },
            function_call,
        }
    }
}

/// A function the model may produce JSON arguments for.
#[derive(Clone, Debug)]
pub struct Function {
    pub name: String,
    pub description: Option<String>,
    /// The JSON Schema of the parameters, as text.
    pub parameters: String,
}

/// The configuration of a chat completion request.
#[derive(Clone, Debug)]
pub struct Chat {
    pub model: String,
    /// The conversation so far, oldest first.
    pub messages: Vec<Message>,
    pub functions: Option<Vec<Function>>,
    pub function_call: Option<String>,
    /// Sampling temperature, within `[0, 2]` when a request is sent.
    pub temperature: Option<Decimal>,
    pub top_p: Option<Decimal>,
    pub n: Option<i64>,
    /// Whether the answer is streamed as server-sent events.
    pub stream: Option<bool>,
    pub stop: Option<String>,
    pub max_tokens: Option<u64>,
    pub presence_penalty: Option<Decimal>,
    pub frequency_penalty: Option<Decimal>,
    /// Token identifiers with the bias to add to each, each token at most
    /// once (see `distinct_bias_keys`).
    pub logit_bias: Option<Vec<(String, Decimal)>>,
    pub user: Option<String>,
}

/// Whether the token identifiers of a bias list are pairwise different.
pub open spec fn distinct_bias_keys(b: Seq<(String, Decimal)>) -> bool {
    forall|i: int, j: int| 0 <= i < j < b.len() ==> (#[trigger] b[i]).0@ != (#[trigger] b[j]).0@
}

/// Whether the token identifiers of a bias list are pairwise different.
pub fn has_distinct_bias_keys(b: &Vec<(String, Decimal)>) -> (r: bool)
    ensures
        r == distinct_bias_keys(b@),
{
    let n = b.len();
    let mut j: usize = 0;
    while j < n
        invariant
            n == b@.len(),
            j <= n,
            forall|x: int, y: int| 0 <= x < y < j ==> (#[trigger] b@[x]).0@ != (#[trigger] b@[y]).0@,
        decreases n - j,
    {
        let mut i: usize = 0;
        while i < j
            invariant
                n == b@.len(),
                i <= j < n,
                forall|x: int| 0 <= x < i ==> (#[trigger] b@[x]).0@ != b@[j as int].0@,
            decreases j - i,
        {
            if same_text(b[i].0.as_str(), b[j].0.as_str()) {
                assert(!distinct_bias_keys(b@)) by {
                    assert(b@[i as int].0@ == b@[j as int].0@);
                }
                return false;
            }
            i = i + 1;
        }
        j = j + 1;
    }
    true
}

/// Why a chat setting was refused.
#[derive(Clone, Copy, Debug, PartialEq, Eq, Structural)]
pub enum ChatError {
    /// A bias list names the same token twice.
    DuplicateBiasToken,
}

/// The default sampling temperature, in thousandths.
pub open spec fn chat_default_temperature() -> i64 {
    1000
}

/// The highest sampling temperature the chat capability accepts, in thousandths.
pub open spec fn chat_temperature_limit() -> i64 {
    2000
}

impl Chat {
    /// The default sampling temperature, 1.0.
    pub fn get_default_temperature() -> (r: Decimal)
        ensures
            r.thousandths == chat_default_temperature(),
    {
        Decimal { thousandths: 1000 }
    }

    /// The highest sampling temperature, 2.0.
    pub fn get_temperature_limit() -> (r: Decimal)
        ensures
            r.thousandths == chat_temperature_limit(),
    {
        Decimal { thousandths: 2000 }
    }

    /// The default bound on the tokens of an answer.
    pub fn get_default_max_tokens() -> (r: u64)
        ensures
            r == 2048,
    {
        2048
    }

    /// Whether answers are streamed by default.
    pub fn get_default_stream() -> (r: bool)
        ensures
            r,
    {
        true
    }

    /// The default model.
    pub fn get_default_model() -> (r: &'static str)
        ensures
            r@ == "gpt-3.5-turbo"@,
    {
        "gpt-3.5-turbo"
    }
}

impl OpenAIConfig for Chat {
    open spec fn is_default(&self) -> bool {
        &&& self.model@ == "gpt-3.5-turbo"@
        &&& self.messages@.len() == 0
        &&& self.functions is None
        &&& self.function_call is None
        &&& self.temperature == Some(Decimal { thousandths: chat_default_temperature() })
        &&& self.top_p is None
        &&& self.n is None
        &&& self.stream == Some(true)
        &&& self.stop is None
        &&& self.max_tokens == Some(2048u64)
        &&& self.presence_penalty is None
        &&& self.frequency_penalty is None
        &&& self.logit_bias is None
        &&& self.user is None
    }

    fn default() -> (r: Chat) {
        Chat {
            model: String::from_str(Chat::get_default_model()),
            messages: Vec::new(),
            functions: None,
            function_call: None,
            temperature: Some(Chat::get_default_temperature()),
            top_p: None,
            n: None,
            stream: Some(Chat::get_default_stream()),
            stop: None,
            max_tokens: Some(Chat::get_default_max_tokens()),
            presence_penalty: None,
            frequency_penalty: None,
            logit_bias: None,
            user: None,
        }
    }
}

/// Token counts of one request.
#[derive(Clone, Copy, Debug)]
pub struct Usage {
    pub prompt_tokens: u64,
    pub completion_tokens: u64,
    pub total_tokens: u64,
}

/// One answer of a whole chat response.
#[derive(Clone, Debug)]
pub struct Choice {
    pub message: Message,
    pub finish_reason: String,
    pub index: u64,
}

/// A whole (not streamed) chat response.
#[derive(Clone, Debug)]
pub struct Response {
    pub id: Option<String>,
    pub object: Option<String>,
    pub created: Option<u64>,
    pub model: Option<String>,
    pub choices: Option<Vec<Choice>>,
    pub usage: Option<Usage>,
}

/// The change one streamed event makes to an answer.
#[derive(Clone, Debug)]
pub struct Delta {
    pub role: Option<String>,
    pub content: Option<String>,
}

/// One answer's part of a streamed event.
#[derive(Clone, Debug)]
pub struct StreamedChoices {
    pub index: u64,
    pub delta: Delta,
    pub finish_reason: Option<String>,
}

/// One event of a streamed chat response.
#[derive(Clone, Debug)]
pub struct StreamedReponse {
    pub id: String,
    pub object: String,
    pub created: u64,
    pub model: String,
    pub choices: Vec<StreamedChoices>,
}

} // verus!
