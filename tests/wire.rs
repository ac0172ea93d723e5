use aionic::audio::{Audio, ResponseFormat};
use aionic::chat::{Chat, Function, FunctionCall, Message, MessageRole};
use aionic::client::OpenAIConfig;
use aionic::decimal::Decimal;
use aionic::embeddings::{Embedding, InputType};
use aionic::files::Files;
use aionic::fine_tunes::FineTune;
use aionic::image::Image;
use aionic::moderations::Moderation;
use aionic::wire::{Entry, Field};

fn names(es: &[Entry]) -> Vec<&str> {
    es.iter().map(|e| e.0.as_str()).collect()
}

#[test]
fn default_chat_omits_absent_settings() {
    let es = <Chat as OpenAIConfig>::default().into_entries();
    assert_eq!(names(&es), vec!["model", "messages", "temperature", "stream", "max_tokens"]);
    match &es[2].1 {
        Field::Number(d) => assert_eq!(d.thousandths, 1000),
        _ => panic!("temperature is a number"),
    }
}

#[test]
fn chat_round_trip_keeps_every_setting() {
    let mut c = <Chat as OpenAIConfig>::default();
    c.messages.push(Message::new(&MessageRole::System, "Answer tersely"));
    c.messages.push(Message {
        role: "assistant".to_string(),
        content: String::new(),
        name: None,
        function_call: Some(FunctionCall { name: "f".to_string(), arguments: "{}".to_string() }),
    });
    c.functions = Some(vec![Function { name: "f".to_string(), description: None, parameters: "{}".to_string() }]);
    c.n = Some(-2);
    c.stop = Some("\n".to_string());
    c.logit_bias = Some(vec![("50256".to_string(), Decimal { thousandths: -100000 })]);
    c.user = Some("u".to_string());
    c.stream = None;
    let es = c.clone().into_entries();
    assert_eq!(
        names(&es),
        vec!["model", "messages", "functions", "temperature", "n", "stop", "max_tokens", "logit_bias", "user"]
    );
    let back = Chat::from_entries(es).unwrap();
    assert_eq!(back.model, c.model);
    assert_eq!(back.messages.len(), 2);
    assert_eq!(back.messages[1].function_call.as_ref().unwrap().name, "f");
    assert_eq!(back.functions.unwrap()[0].parameters, "{}");
    assert_eq!(back.n, Some(-2));
    assert_eq!(back.stop.as_deref(), Some("\n"));
    assert!(back.stream.is_none() && back.top_p.is_none() && back.function_call.is_none());
    assert_eq!(back.logit_bias.unwrap()[0].1, Decimal { thousandths: -100000 });
    assert_eq!(back.temperature, c.temperature);
}

#[test]
fn message_wire_form() {
    let m = Message::new(&MessageRole::User, "2+2?");
    let es = m.into_entries();
    assert_eq!(names(&es), vec!["role", "content"]);
    let back = Message::from_entries(es).unwrap();
    assert_eq!((back.role.as_str(), back.content.as_str()), ("user", "2+2?"));
    let f = Function { name: "g".to_string(), description: Some("d".to_string()), parameters: "{}".to_string() };
    assert_eq!(names(&f.into_entries()), vec!["name", "description", "parameters"]);
}

#[test]
fn decoding_refuses_missing_or_mistyped_settings() {
    assert!(Chat::from_entries(vec![("model".to_string(), Field::Text("m".to_string()))]).is_none());
    let es = vec![
        ("model".to_string(), Field::Bool(true)),
        ("messages".to_string(), Field::Messages(vec![])),
    ];
    assert!(Chat::from_entries(es).is_none());
    let es = vec![
        ("messages".to_string(), Field::Messages(vec![])),
        ("model".to_string(), Field::Text("first".to_string())),
        ("model".to_string(), Field::Text("second".to_string())),
        ("unknown".to_string(), Field::Bool(false)),
    ];
    let c = Chat::from_entries(es).unwrap();
    assert_eq!(c.model, "first");
    assert!(c.temperature.is_none());
}

#[test]
fn other_configurations_round_trip() {
    let mut i = <Image as OpenAIConfig>::default();
    i.mask = Some("m.png".to_string());
    let es = i.clone().into_entries();
    assert_eq!(names(&es), vec!["n", "size", "response_format", "mask"]);
    let back = Image::from_entries(es).unwrap();
    assert_eq!(back.mask, i.mask);
    assert_eq!(back.size.as_deref(), Some("1024x1024"));

    let e = Embedding { model: "m".to_string(), input: InputType::MultipleTokens(vec![1, 2, 3]), user: None };
    let back = Embedding::from_entries(e.into_entries()).unwrap();
    assert!(matches!(back.input, InputType::MultipleTokens(ref v) if v == &vec![1, 2, 3]));

    let mut a = <Audio as OpenAIConfig>::default();
    a.response_format = Some(ResponseFormat::Srt);
    let es = a.into_entries();
    assert_eq!(names(&es), vec!["file", "model", "response_format", "temperature"]);
    assert_eq!(Audio::from_entries(es).unwrap().response_format, Some(ResponseFormat::Srt));

    let f = <Files as OpenAIConfig>::default();
    assert!(f.into_entries().is_empty());
    assert!(Files::from_entries(vec![]).unwrap().file.is_none());

    let mut t = <FineTune as OpenAIConfig>::default();
    t.classification_betas = Some(vec![Decimal { thousandths: 500 }]);
    let es = t.into_entries();
    assert_eq!(
        names(&es),
        vec!["training_file", "model", "n_epochs", "prompt_loss_weight", "compute_classification_metrics", "classification_betas"]
    );
    let back = FineTune::from_entries(es).unwrap();
    assert_eq!(back.classification_betas, Some(vec![Decimal { thousandths: 500 }]));

    let m = Moderation { input: "I want to kill them.".to_string() };
    assert_eq!(Moderation::from_entries(m.into_entries()).unwrap().input, "I want to kill them.");
}
