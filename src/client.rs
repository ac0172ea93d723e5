//! The generic client: a credential, a live-output switch and the
//! configuration of one capability, with the operations on the chat
//! configuration that shape its conversation.

use vstd::prelude::*;
use vstd::string::*;
use crate::chat::{
    chat_temperature_limit, distinct_bias_keys, has_distinct_bias_keys, is_plain_message, Chat,
    ChatError, Message, MessageRole,
};
use crate::decimal::{clamped, Decimal};

verus! {

/// The configuration of one capability, with the values it starts from.
pub trait OpenAIConfig: Sized {
    /// Whether `self` holds the capability's default values.
    spec fn is_default(&self) -> bool;

    /// The capability's default configuration.
    fn default() -> (r: Self)
        ensures
            r.is_default(),
    ;
}

/// Why a client could not be built.
#[derive(Clone, Copy, Debug, PartialEq, Eq, Structural)]
pub enum ClientError {
    /// No API credential was given.
    MissingApiKey,
}

/// A client for one capability of the API. The connection that carries its
/// requests is its caller's.
#[derive(Clone, Debug)]
pub struct OpenAI<C> {
    /// The bearer credential sent with every request.
    pub api_key: String,
    /// Whether streamed answers are kept off the console.
    pub disable_live_stream: bool,
    /// The capability's configuration, sent as the body of its requests.
    pub config: C,
}

impl<C: OpenAIConfig> OpenAI<C> {
    /// A client with the capability's default configuration, or an error
    /// where no credential is given.
    pub fn new(api_key: Option<String>) -> (r: Result<OpenAI<C>, ClientError>)
        ensures
            api_key is None ==> r == Err::<OpenAI<C>, ClientError>(ClientError::MissingApiKey),
            api_key is Some ==> r is Ok && r->Ok_0.api_key == api_key->0
                && !r->Ok_0.disable_live_stream && r->Ok_0.config.is_default(),
    {
        match api_key {
            Some(key) => Ok(OpenAI { api_key: key, disable_live_stream: false, config: C::default() }),
            None => Err(ClientError::MissingApiKey),
        }
    }

    /// The client with `config` in place of its configuration.
    pub fn with_config(self, config: C) -> (r: OpenAI<C>)
        ensures
            r.config == config,
            r.api_key == self.api_key,
            r.disable_live_stream == self.disable_live_stream,
    {
        OpenAI { config, ..self }
    }

    /// The client with live output of streamed answers switched off.
    pub fn disable_stdout(self) -> (r: OpenAI<C>)
        ensures
            r.disable_live_stream,
            r.api_key == self.api_key,
            r.config == self.config,
    {
        OpenAI { disable_live_stream: true, ..self }
    }

    /// Whether `temperature` lies within `[0, limit]`.
    pub fn is_valid_temperature(&self, temperature: Decimal, limit: Decimal) -> (r: bool)
        ensures
            r == (0 <= temperature.thousandths <= limit.thousandths),
    {
        0 <= temperature.thousandths && temperature.thousandths <= limit.thousandths
    }
}

/// The history after `prompt` is asked: the prompt appended.
pub open spec fn history_after_prompt(before: Seq<Message>, prompt: Message) -> Seq<Message> {
    before.push(prompt)
}

/// Whether `after` is the history once an answer to the last message of
/// `during` came back: with the answer appended as the assistant's turn when
/// the exchange persists, or with the last message removed when it does not.
pub open spec fn history_after_answer(
    during: Seq<Message>,
    answer: Seq<char>,
    persist: bool,
    after: Seq<Message>,
) -> bool {
    if persist {
        &&& after.len() == during.len() + 1
        &&& after.subrange(0, during.len() as int) == during
        &&& is_plain_message(after.last(), MessageRole::Assistant, answer)
    } else {
        after == during.drop_last()
    }
}

/// Whether `after` is `before` with a system message holding `text` placed
/// in front.
pub open spec fn history_after_primer(before: Seq<Message>, text: Seq<char>, after: Seq<Message>) -> bool {
    &&& after.len() == before.len() + 1
    &&& is_plain_message(after[0], MessageRole::System, text)
    &&& after.subrange(1, after.len() as int) == before
}

impl OpenAI<Chat> {
    /// The client with `model` as its model.
    pub fn set_model(self, model: &str) -> (r: OpenAI<Chat>)
        ensures
            r.config.model@ == model@,
            r.config == (Chat { model: r.config.model, ..self.config }),
            r.api_key == self.api_key,
            r.disable_live_stream == self.disable_live_stream,
    {
        let mut s = self;
        s.config.model = String::from_str(model);
        s
    }

    /// The client with `max_tokens` as the bound on an answer's tokens.
    pub fn set_max_tokens(self, max_tokens: u64) -> (r: OpenAI<Chat>)
        ensures
            r.config.max_tokens == Some(max_tokens),
            r.config == (Chat { max_tokens: r.config.max_tokens, ..self.config }),
            r.api_key == self.api_key,
            r.disable_live_stream == self.disable_live_stream,
    {
        let mut s = self;
        s.config.max_tokens = Some(max_tokens);
        s
    }

    /// The client with `messages` as its conversation.
    pub fn set_messages(self, messages: Vec<Message>) -> (r: OpenAI<Chat>)
        ensures
            r.config.messages == messages,
            r.config == (Chat { messages: r.config.messages, ..self.config }),
            r.api_key == self.api_key,
            r.disable_live_stream == self.disable_live_stream,
    {
        let mut s = self;
        s.config.messages = messages;
        s
    }

    /// The client with `temperature`, moved into `[0, 2]`, as its sampling
    /// temperature.
    pub fn set_temperature(self, temperature: Decimal) -> (r: OpenAI<Chat>)
        ensures
            r.config.temperature == Some(
                Decimal {
                    thousandths: clamped(
                        temperature.thousandths as int,
                        chat_temperature_limit() as int,
                    ) as i64,
                },
            ),
            r.config == (Chat { temperature: r.config.temperature, ..self.config }),
            r.api_key == self.api_key,
            r.disable_live_stream == self.disable_live_stream,
    {
        let mut s = self;
        s.config.temperature = Some(temperature.clamp_to(Chat::get_temperature_limit()));
        s
    }

    /// Sets the bias of each listed token, or refuses a list that names a
    /// token twice and leaves the client as it was.
    pub fn set_logit_bias(&mut self, bias: Vec<(String, Decimal)>) -> (r: Result<(), ChatError>)
        ensures
            r is Ok <==> distinct_bias_keys(bias@),
            r is Ok ==> final(self).config.logit_bias == Some(bias),
            r is Err ==> r == Err::<(), ChatError>(ChatError::DuplicateBiasToken) && *final(self) == *old(self),
            final(self).config == (Chat { logit_bias: final(self).config.logit_bias, ..old(self).config }),
            final(self).api_key == old(self).api_key,
            final(self).disable_live_stream == old(self).disable_live_stream,
    {
        if !has_distinct_bias_keys(&bias) {
            return Err(ChatError::DuplicateBiasToken);
        }
        self.config.logit_bias = Some(bias);
        Ok(())
    }

    /// The client with answers streamed or not.
    pub fn set_stream_responses(self, streamed: bool) -> (r: OpenAI<Chat>)
        ensures
            r.config.stream == Some(streamed),
            r.config == (Chat { stream: r.config.stream, ..self.config }),
            r.api_key == self.api_key,
            r.disable_live_stream == self.disable_live_stream,
    {
        let mut s = self;
        s.config.stream = Some(streamed);
        s
    }

    /// The client with a system message holding `primer_msg` placed first in
    /// its conversation, ahead of every message already there.
    pub fn set_primer(self, primer_msg: &str) -> (r: OpenAI<Chat>)
        ensures
            history_after_primer(self.config.messages@, primer_msg@, r.config.messages@),
            r.config == (Chat { messages: r.config.messages, ..self.config }),
            r.api_key == self.api_key,
            r.disable_live_stream == self.disable_live_stream,
    {
        let mut s = self;
        let msg = Message::new(&MessageRole::System, primer_msg);
        s.config.messages.insert(0, msg);
        assert(s.config.messages@.subrange(1, s.config.messages@.len() as int)
            =~= self.config.messages@);
        s
    }

    /// The last message of the conversation, if there is one.
    pub fn get_last_message(&self) -> (r: Option<&Message>)
        ensures
            self.config.messages@.len() == 0 ==> r is None,
            self.config.messages@.len() > 0 ==> r == Some(&self.config.messages@.last()),
    {
        let n = self.config.messages.len();
        if n == 0 {
            None
        } else {
            Some(&self.config.messages[n - 1])
        }
    }

    /// The client with an empty conversation.
    pub fn clear_state(self) -> (r: OpenAI<Chat>)
        ensures
            r.config.messages@.len() == 0,
            r.config == (Chat { messages: r.config.messages, ..self.config }),
            r.api_key == self.api_key,
            r.disable_live_stream == self.disable_live_stream,
    {
        let mut s = self;
        s.config.messages.clear();
        s
    }

    /// The step of asking taken when no answer came back: removes the
    /// prompt, so that the conversation is as it was before the question.
    pub fn abort_ask(&mut self)
        requires
            old(self).config.messages@.len() > 0,
        ensures
            final(self).config.messages@ == old(self).config.messages@.drop_last(),
            final(self).config == (Chat { messages: final(self).config.messages, ..old(self).config }),
            final(self).api_key == old(self).api_key,
            final(self).disable_live_stream == old(self).disable_live_stream,
    {
        self.config.messages.pop();
    }

    /// Whether the next answer is requested as a stream.
    pub fn is_streamed(&self) -> (r: bool)
        ensures
            r == (self.config.stream == Some(true)),
    {
        match self.config.stream {
            Some(b) => b,
            None => false,
        }
    }

    /// The first step of asking: appends `prompt` to the conversation and
    /// moves a set temperature into `[0, 2]`. The configuration is then the
    /// body of the request.
    pub fn begin_ask(&mut self, prompt: Message)
        ensures
            final(self).config.messages@ == history_after_prompt(old(self).config.messages@, prompt),
            old(self).config.temperature is None ==> final(self).config.temperature is None,
            old(self).config.temperature is Some ==> final(self).config.temperature == Some(
                Decimal {
                    thousandths: clamped(
                        old(self).config.temperature->0.thousandths as int,
                        chat_temperature_limit() as int,
                    ) as i64,
                },
            ),
            final(self).config == (Chat { messages: final(self).config.messages, temperature: final(self).config.temperature, ..old(self).config }),
            final(self).api_key == old(self).api_key,
            final(self).disable_live_stream == old(self).disable_live_stream,
    {
        self.config.messages.push(prompt);
        match self.config.temperature {
            Some(t) => {
                self.config.temperature = Some(t.clamp_to(Chat::get_temperature_limit()));
            },
            None => {},
        }
    }

    /// The last step of asking, once `answer` came back for the last message:
    /// records it as the assistant's turn when `persist` holds, and otherwise
    /// removes the prompt, so that the conversation is as it was before.
    /// Returns the answer.
    pub fn finish_ask(&mut self, answer: String, persist: bool) -> (r: String)
        requires
            old(self).config.messages@.len() > 0,
        ensures
            r == answer,
            history_after_answer(old(self).config.messages@, answer@, persist, final(self).config.messages@),
            final(self).config == (Chat { messages: final(self).config.messages, ..old(self).config }),
            final(self).api_key == old(self).api_key,
            final(self).disable_live_stream == old(self).disable_live_stream,
    {
        if persist {
            let msg = Message::new(&MessageRole::Assistant, answer.as_str());
            let ghost during = self.config.messages@;
            self.config.messages.push(msg);
            assert(self.config.messages@.subrange(0, during.len() as int) =~= during);
        } else {
            self.config.messages.pop();
        }
        answer
    }
}

/// A question that fails, whether it was to persist or not, leaves the
/// conversation as it was.
pub proof fn lemma_failed_ask_keeps_history(before: Seq<Message>, prompt: Message, after: Seq<Message>)
    requires
        after == history_after_prompt(before, prompt).drop_last(),
    ensures
        after == before,
{
    assert(before.push(prompt).drop_last() =~= before);
}

/// Priming twice stacks both system messages in front: the later one first,
/// the earlier one second, and the conversation after them.
pub proof fn lemma_primers_stack(
    before: Seq<Message>,
    first: Seq<char>,
    second: Seq<char>,
    middle: Seq<Message>,
    after: Seq<Message>,
)
    requires
        history_after_primer(before, first, middle),
        history_after_primer(middle, second, after),
    ensures
        after.len() == before.len() + 2,
        is_plain_message(after[0], MessageRole::System, second),
        is_plain_message(after[1], MessageRole::System, first),
        after.subrange(2, after.len() as int) == before,
{
    assert(after[1] == after.subrange(1, after.len() as int)[0]);
    assert(after.subrange(2, after.len() as int) =~= middle.subrange(1, middle.len() as int));
}

/// A question asked without persisting leaves the conversation as it was.
pub proof fn lemma_probe_keeps_history(
    before: Seq<Message>,
    prompt: Message,
    answer: Seq<char>,
    after: Seq<Message>,
)
    requires
        history_after_answer(history_after_prompt(before, prompt), answer, false, after),
    ensures
        after == before,
        after.len() == before.len(),
{
    assert(before.push(prompt).drop_last() =~= before);
}

/// A question asked with persisting adds exactly two turns: the prompt, then
/// the assistant's answer.
pub proof fn lemma_turn_adds_two(
    before: Seq<Message>,
    prompt: Message,
    answer: Seq<char>,
    after: Seq<Message>,
)
    requires
        history_after_answer(history_after_prompt(before, prompt), answer, true, after),
    ensures
        after.len() == before.len() + 2,
        after.subrange(0, before.len() as int) == before,
        after[before.len() as int] == prompt,
        is_plain_message(after[(before.len() + 1) as int], MessageRole::Assistant, answer),
{
    let during = before.push(prompt);
    assert(after.subrange(0, before.len() as int) =~= during.subrange(0, before.len() as int));
    assert(during.subrange(0, before.len() as int) =~= before);
    assert(after[before.len() as int] == after.subrange(0, during.len() as int)[before.len() as int]);
}

/// What one read from the terminal of an interactive conversation gave.
#[derive(Clone, Debug)]
pub enum ReadOutcome {
    /// A line of input.
    Line(String),
    /// The reader was interrupted (Ctrl-C).
    Interrupted,
    /// The input ended (Ctrl-D).
    EndOfInput,
    /// Reading failed.
    Failed,
}

/// What an interactive conversation does next.
#[derive(Clone, Debug)]
pub enum ConversationStep {
    /// Ask the line and keep the exchange.
    Ask(String),
    /// End the conversation, with a note for the terminal.
    Stop(String),
}

/// The next step of an interactive conversation after a read: a line is
/// asked and kept; an interruption, the end of input or a failed read ends
/// the conversation.
pub fn next_step(outcome: ReadOutcome) -> (r: ConversationStep)
    ensures
        outcome is Line ==> r is Ask && r->Ask_0 == outcome->Line_0,
        outcome is Interrupted ==> r is Stop && r->Stop_0@ == "CTRL-C"@,
        outcome is EndOfInput ==> r is Stop && r->Stop_0@ == "CTRL-D"@,
        outcome is Failed ==> r is Stop && r->Stop_0@ == "Error"@,
{
    match outcome {
        ReadOutcome::Line(line) => ConversationStep::Ask(line),
        ReadOutcome::Interrupted => ConversationStep::Stop(String::from_str("CTRL-C")),
        ReadOutcome::EndOfInput => ConversationStep::Stop(String::from_str("CTRL-D")),
        ReadOutcome::Failed => ConversationStep::Stop(String::from_str("Error")),
    }
}

} // verus!
