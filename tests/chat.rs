use aionic::chat::{Chat, ChatError, Message, MessageRole};
use aionic::client::{next_step, ClientError, ConversationStep, OpenAI, OpenAIConfig, ReadOutcome};
use aionic::wire::Field;
use aionic::decimal::Decimal;

fn client() -> OpenAI<Chat> {
    OpenAI::<Chat>::new(Some("SECRET-REDACTED".to_string())).unwrap()
}

#[test]
fn role_names() {
    assert_eq!(MessageRole::User.to_string(), "user");
    assert_eq!(MessageRole::Assistant.to_string(), "assistant");
    assert_eq!(MessageRole::System.to_string(), "system");
    assert_eq!(MessageRole::Function.to_string(), "function");
    assert_eq!(MessageRole::from_name("system"), MessageRole::System);
    assert_eq!(MessageRole::from_name("function"), MessageRole::Function);
    assert_eq!(MessageRole::from_name("assistant"), MessageRole::Assistant);
    assert_eq!(MessageRole::from_name("robot"), MessageRole::User);
}

#[test]
fn message_new_and_render() {
    let m = Message::new(&MessageRole::User, "Hello, assistant!");
    assert_eq!(m.role, "user");
    assert_eq!(m.content, "Hello, assistant!");
    assert!(m.name.is_none() && m.function_call.is_none());
    assert_eq!(m.render(), "user: Hello, assistant!");
    let odd = Message { role: "robot".to_string(), content: "beep".to_string(), name: None, function_call: None };
    assert_eq!(odd.render(), "user: beep");
    assert_eq!(Message::from_prompt("hi").role, "user");
}

#[test]
fn chat_defaults() {
    let c = <Chat as OpenAIConfig>::default();
    assert_eq!(c.model, "gpt-3.5-turbo");
    assert!(c.messages.is_empty());
    assert_eq!(c.temperature, Some(Decimal { thousandths: 1000 }));
    assert_eq!(c.stream, Some(true));
    assert_eq!(c.max_tokens, Some(2048));
    assert_eq!(Chat::get_default_max_tokens(), 2048);
    assert!(Chat::get_default_stream());
}

#[test]
fn missing_credential_is_an_error() {
    assert_eq!(OpenAI::<Chat>::new(None).unwrap_err(), ClientError::MissingApiKey);
    let c = client();
    assert_eq!(c.api_key, "SECRET-REDACTED");
    assert!(!c.disable_live_stream);
    assert!(c.disable_stdout().disable_live_stream);
}

#[test]
fn builders_set_fields() {
    let c = client()
        .set_model("gpt-4")
        .set_max_tokens(10)
        .set_stream_responses(false)
        .set_temperature(Decimal::from_thousandths(500));
    assert_eq!(c.config.model, "gpt-4");
    assert_eq!(c.config.max_tokens, Some(10));
    assert_eq!(c.config.stream, Some(false));
    assert!(!c.is_streamed());
    assert_eq!(c.config.temperature, Some(Decimal { thousandths: 500 }));
}

#[test]
fn temperature_is_clamped() {
    let c = client().set_temperature(Decimal::from_thousandths(3500));
    assert_eq!(c.config.temperature, Some(Decimal { thousandths: 2000 }));
    let c = client().set_temperature(Decimal::from_thousandths(-1));
    assert_eq!(c.config.temperature, Some(Decimal { thousandths: 0 }));
    let c = client();
    assert!(c.is_valid_temperature(Decimal { thousandths: 2000 }, Decimal { thousandths: 2000 }));
    assert!(!c.is_valid_temperature(Decimal { thousandths: 2001 }, Decimal { thousandths: 2000 }));
    assert!(!c.is_valid_temperature(Decimal { thousandths: -5 }, Decimal { thousandths: 2000 }));
}

#[test]
fn begin_ask_clamps_configured_temperature() {
    let mut cfg = <Chat as OpenAIConfig>::default();
    cfg.temperature = Some(Decimal { thousandths: 9000 });
    let mut c = client().with_config(cfg);
    c.begin_ask(Message::from_prompt("x"));
    assert_eq!(c.config.temperature, Some(Decimal { thousandths: 2000 }));
}

#[test]
fn primers_stack_at_front() {
    let c = client()
        .set_messages(vec![Message::new(&MessageRole::User, "earlier")])
        .set_primer("first")
        .set_primer("second");
    let m = &c.config.messages;
    assert_eq!(m.len(), 3);
    assert_eq!((m[0].role.as_str(), m[0].content.as_str()), ("system", "second"));
    assert_eq!((m[1].role.as_str(), m[1].content.as_str()), ("system", "first"));
    assert_eq!(m[2].content, "earlier");
}

#[test]
fn probe_keeps_history() {
    let mut c = client().set_primer("Answer tersely");
    let before = c.config.messages.len();
    c.begin_ask(Message::from_prompt("2+2?"));
    assert_eq!(c.config.messages.len(), before + 1);
    let answer = c.finish_ask("4".to_string(), false);
    assert_eq!(answer, "4");
    assert_eq!(c.config.messages.len(), before);
    assert_eq!(c.config.messages[0].content, "Answer tersely");
}

#[test]
fn persisted_turn_adds_two() {
    let mut c = client();
    c.begin_ask(Message::from_prompt("hello"));
    c.finish_ask("hi".to_string(), true);
    assert_eq!(c.config.messages.len(), 2);
    assert_eq!(c.config.messages[1].role, "assistant");
    assert_eq!(c.config.messages[1].content, "hi");
    assert_eq!(c.get_last_message().unwrap().content, "hi");
}

#[test]
fn second_request_carries_four_messages() {
    let mut c = client().set_primer("Answer tersely");
    c.begin_ask(Message::from_prompt("2+2?"));
    c.finish_ask("4".to_string(), true);
    c.begin_ask(Message::from_prompt("What did I just ask?"));
    // The configuration now is the body of the second request.
    let body = c.config.clone().into_entries();
    let messages = match &body[1] {
        (name, Field::Messages(ms)) if name == "messages" => ms.clone(),
        _ => panic!("the second entry is the message list"),
    };
    let sent: Vec<(String, String)> =
        messages.iter().map(|m| (m.role.clone(), m.content.clone())).collect();
    assert_eq!(
        sent,
        vec![
            ("system".to_string(), "Answer tersely".to_string()),
            ("user".to_string(), "2+2?".to_string()),
            ("assistant".to_string(), "4".to_string()),
            ("user".to_string(), "What did I just ask?".to_string()),
        ]
    );
}

#[test]
fn clear_state_empties_history() {
    let c = client().set_primer("p").clear_state();
    assert!(c.config.messages.is_empty());
    assert!(c.get_last_message().is_none());
}

#[test]
fn conversation_steps() {
    assert!(matches!(next_step(ReadOutcome::Line("hi".to_string())), ConversationStep::Ask(l) if l == "hi"));
    assert!(matches!(next_step(ReadOutcome::Interrupted), ConversationStep::Stop(n) if n == "CTRL-C"));
    assert!(matches!(next_step(ReadOutcome::EndOfInput), ConversationStep::Stop(n) if n == "CTRL-D"));
    assert!(matches!(next_step(ReadOutcome::Failed), ConversationStep::Stop(n) if n == "Error"));
}

#[test]
fn failed_ask_is_rolled_back() {
    let mut c = client().set_primer("Answer tersely");
    let before = c.config.messages.len();
    c.begin_ask(Message::from_prompt("2+2?"));
    c.abort_ask();
    assert_eq!(c.config.messages.len(), before);
    assert_eq!(c.config.messages[0].content, "Answer tersely");
}

#[test]
fn bias_tokens_must_be_distinct() {
    let mut c = client();
    let ok = vec![("1".to_string(), Decimal { thousandths: 500 }), ("2".to_string(), Decimal { thousandths: -500 })];
    assert!(c.set_logit_bias(ok).is_ok());
    assert_eq!(c.config.logit_bias.as_ref().unwrap().len(), 2);
    let dup = vec![("7".to_string(), Decimal { thousandths: 1 }), ("7".to_string(), Decimal { thousandths: 2 })];
    assert_eq!(c.set_logit_bias(dup), Err(ChatError::DuplicateBiasToken));
    assert_eq!(c.config.logit_bias.as_ref().unwrap()[0].0, "1");
}
