use aionic::audio::{Audio, AudioError, FileType, ResponseFormat};
use aionic::client::{OpenAI, OpenAIConfig};
use aionic::decimal::Decimal;
use aionic::embeddings::{Embedding, InputType};
use aionic::files::{content_lines, has_jsonl_extension, Files, FilesError};
use aionic::fine_tunes::FineTune;
use aionic::image::{Image, ImageData, Response as ImageResponse, ResponseDataType, Size};
use aionic::misc::{ErrorDetails, Model, ModelsResponse, OpenAIError};
use aionic::moderations::Moderation;
use aionic::text::decimal_text_of;

fn key() -> Option<String> {
    Some("SECRET-REDACTED".to_string())
}

#[test]
fn decimal_notation_values() {
    assert_eq!(decimal_text_of(0), "0");
    assert_eq!(decimal_text_of(1024), "1024");
    assert_eq!(decimal_text_of(u64::MAX), "18446744073709551615");
    assert_eq!(Decimal::from_thousandths(0).to_text(), "0");
    assert_eq!(Decimal::from_thousandths(1000).to_text(), "1");
    assert_eq!(Decimal::from_thousandths(500).to_text(), "0.5");
    assert_eq!(Decimal::from_thousandths(1250).to_text(), "1.25");
    assert_eq!(Decimal::from_thousandths(10).to_text(), "0.01");
    assert_eq!(Decimal::from_thousandths(-1999).to_text(), "-1.999");
    assert_eq!(Decimal::from_thousandths(i64::MIN).to_text(), "-9223372036854775.808");
}

#[test]
fn size_text_and_resize() {
    let s = Size::new(256, 512);
    assert_eq!(s.to_string(), "256x512");
    let r = s.resize(Some(1024), None);
    assert_eq!((r.width, r.height), (1024, 512));
    assert_eq!(r.resize(None, Some(7)).to_string(), "1024x7");
}

#[test]
fn image_validation() {
    assert!(Image::is_valid_size("512x512"));
    assert!(!Image::is_valid_size("512x513"));
    assert!(Image::is_valid_response_format("b64_json"));
    assert!(!Image::is_valid_response_format("png"));
    assert!(Image::is_valid_n(1) && Image::is_valid_n(10));
    assert!(!Image::is_valid_n(0) && !Image::is_valid_n(11));
    assert_eq!(ResponseDataType::Base64Json.to_string(), "b64_json");
    assert_eq!(Image::get_default_n(), 1);
    assert_eq!(Image::get_default_size(), "1024x1024");
    assert_eq!(Image::get_default_response_format(), "url");
}

#[test]
fn image_edit_restores_invalid_settings() {
    let mut c = OpenAI::<Image>::new(key()).unwrap().set_max_images(30).set_size(&Size::new(100, 100));
    c.prepare_edit("Make the background transparent", "./img/logo.png", None);
    assert_eq!(c.config.n, Some(1));
    assert_eq!(c.config.size.as_deref(), Some("1024x1024"));
    assert_eq!(c.config.image.as_deref(), Some("./img/logo.png"));
    assert!(c.config.mask.is_none());
    let fields = c.upload_form_fields();
    let names: Vec<&str> = fields.iter().map(|f| f.0.as_str()).collect();
    assert_eq!(names, vec!["prompt", "response_format", "size", "n"]);
    assert_eq!(fields[3].1, "1");
}

#[test]
fn image_create_and_variation_clear_fields() {
    let mut c = OpenAI::<Image>::new(key()).unwrap();
    c.prepare_edit("p", "a.png", Some("m.png"));
    c.prepare_variation("b.png");
    assert!(c.config.prompt.is_none() && c.config.mask.is_none());
    assert_eq!(c.config.image.as_deref(), Some("b.png"));
    c.prepare_create("A beautiful sunset over the sea.");
    assert!(c.config.image.is_none());
    assert_eq!(c.config.prompt.as_deref(), Some("A beautiful sunset over the sea."));
}

#[test]
fn image_response_picks_requested_form() {
    let resp = ImageResponse {
        created: 0,
        data: vec![
            ImageData { url: Some("u1".to_string()), b64_json: None },
            ImageData { url: None, b64_json: Some("b2".to_string()) },
        ],
    };
    let c = OpenAI::<Image>::new(key()).unwrap();
    assert_eq!(c.parse_response(&resp), vec!["u1".to_string()]);
    let c = c.set_response_format(&ResponseDataType::Base64Json);
    assert_eq!(c.parse_response(&resp), vec!["b2".to_string()]);
}

#[test]
fn audio_file_types() {
    assert_eq!(FileType::get_file_type("examples/samples/sample-1.mp3").unwrap(), FileType::Mp3);
    assert_eq!(FileType::Webm.to_string(), "webm");
    match FileType::get_file_type("song.ogg") {
        Err(AudioError::InvalidFileType(e)) => assert_eq!(e, "ogg"),
        _ => panic!("expected an invalid file type"),
    }
    assert!(Audio::is_file_type_supported("a.wav").unwrap());
    assert_eq!(
        Audio::is_file_type_supported("noext").unwrap_err().message(),
        "Invalid file type: noext"
    );
    assert_eq!(Audio::get_supported_file_types().len(), 7);
    assert_eq!(Audio::get_supported_models(), vec!["whisper-1".to_string()]);
}

#[test]
fn audio_response_formats() {
    assert_eq!(ResponseFormat::get_response_format("verbose_json").unwrap(), ResponseFormat::VerboseJson);
    assert_eq!(ResponseFormat::Vtt.to_string(), "vtt");
    assert_eq!(Audio::get_default_response_format(), ResponseFormat::Json);
    assert_eq!(
        Audio::get_response_format("xml").unwrap_err().message(),
        "Invalid response format: xml"
    );
}

#[test]
fn audio_languages() {
    assert!(Audio::is_valid_language("de"));
    assert!(Audio::is_valid_language("zu"));
    assert!(Audio::is_valid_language("ab"));
    assert!(!Audio::is_valid_language("xx"));
    assert!(!Audio::is_valid_language("deu"));
    assert!(!Audio::is_valid_language(""));
}

#[test]
fn audio_sanity_checks() {
    let mut c = OpenAI::<Audio>::new(key()).unwrap();
    c.config.temperature = Some(Decimal { thousandths: 1500 });
    assert!(c.sanity_checks().is_ok());
    assert_eq!(c.config.temperature, Some(Decimal { thousandths: 1000 }));
    c.config.language = Some("qq".to_string());
    assert!(matches!(c.sanity_checks(), Err(AudioError::InvalidLanguage)));
    let mut c = OpenAI::<Audio>::new(key()).unwrap().set_model("whisper-2");
    assert!(matches!(c.sanity_checks(), Err(AudioError::InvalidModel)));
}

#[test]
fn audio_form_and_file() {
    let mut c = OpenAI::<Audio>::new(key()).unwrap().set_prompt("colours");
    assert!(c.set_file_name("examples/samples/colours-german.mp3").is_ok());
    assert!(c.set_file_name("notes.txt").is_err());
    assert_eq!(c.config.file, "notes.txt");
    c.config.language = Some("de".to_string());
    c.config.temperature = Some(Decimal { thousandths: 200 });
    let f = c.form_fields();
    let pairs: Vec<(&str, &str)> = f.iter().map(|p| (p.0.as_str(), p.1.as_str())).collect();
    assert_eq!(
        pairs,
        vec![
            ("model", "whisper-1"),
            ("prompt", "colours"),
            ("response_format", "json"),
            ("temperature", "0.2"),
            ("language", "de"),
        ]
    );
    c.prepare_translation();
    assert_eq!(c.form_fields().len(), 4);
}

#[test]
fn jsonl_rule() {
    assert!(has_jsonl_extension("examples/samples/test.jsonl"));
    assert!(has_jsonl_extension("DATA.JSONL"));
    assert!(!has_jsonl_extension("data.json"));
    assert!(!has_jsonl_extension(".jsonl"));
    assert!(!has_jsonl_extension("dir.jsonl/file"));
    assert!(!has_jsonl_extension("invalid_file"));
    let mut c = OpenAI::<Files>::new(key()).unwrap();
    match c.prepare_upload("invalid_file") {
        Err(e @ FilesError::NotJsonLines(_)) => {
            assert_eq!(e.message(), "File must be a .jsonl file: invalid_file")
        }
        _ => panic!("expected a refusal"),
    }
    assert!(c.config.file.is_none());
    assert!(c.prepare_upload("a/b.jsonl").is_ok());
    assert_eq!(c.config.file.as_deref(), Some("a/b.jsonl"));
}

#[test]
fn retrieved_content_lines() {
    let text = "{\"prompt\":\"a\",\"completion\":\"b\"}\r\n{\"prompt\":\"c\",\"completion\":\"d\"}\n";
    assert_eq!(content_lines(text).len(), 2);
    assert_eq!(content_lines(text)[0], "{\"prompt\":\"a\",\"completion\":\"b\"}");
    assert!(content_lines("").is_empty());
    assert_eq!(content_lines("a\r\nb\r"), vec!["a".to_string(), "b\r".to_string()]);
    assert_eq!(content_lines("a\r\n"), vec!["a".to_string()]);
    assert_eq!(content_lines("a\n\nb"), vec!["a".to_string(), String::new(), "b".to_string()]);
}

#[test]
fn embeddings_inputs() {
    let i = InputType::new_single_string("The food was delicious and the waiter...".to_string());
    assert!(i.is_single_string() && !i.is_multiple_strings() && !i.is_multiple_tokens());
    assert!(InputType::new_multiple_tokens(vec![1, 2]).is_multiple_tokens());
    assert!(InputType::from(vec!["a".to_string()]).is_multiple_strings());
    let mut c = OpenAI::<Embedding>::new(key()).unwrap().set_model("text-embedding-3-small");
    c.prepare_embed(InputType::from("x".to_string()));
    assert!(c.config.input.is_single_string());
    assert_eq!(c.config.model, "text-embedding-3-small");
    assert_eq!(Embedding::get_default_model(), "text-embedding-ada-002");
}

#[test]
fn other_defaults() {
    let f = <FineTune as OpenAIConfig>::default();
    assert_eq!(f.model.as_deref(), Some("curie"));
    assert_eq!(f.n_epochs, Some(4));
    assert_eq!(f.prompt_loss_weight, Some(Decimal { thousandths: 10 }));
    let mut f = f;
    f.set_model("davinci".to_string());
    assert_eq!(f.model.as_deref(), Some("davinci"));
    let files = <Files as OpenAIConfig>::default();
    assert!(files.file.is_none() && files.purpose.is_none() && files.file_id.is_none());
    let mut m = OpenAI::<Moderation>::new(key()).unwrap();
    m.prepare_moderate("I want to kill them.");
    assert_eq!(m.config.input, "I want to kill them.");
    let mut t = OpenAI::<FineTune>::new(key()).unwrap();
    t.prepare_create("file-abc");
    assert_eq!(t.config.training_file, "file-abc");
}

#[test]
fn models_and_errors() {
    let r = ModelsResponse {
        data: vec![
            Model { id: "gpt-3.5-turbo".to_string(), object: "model".to_string(), owned_by: "x".to_string() },
            Model { id: "whisper-1".to_string(), object: "model".to_string(), owned_by: "y".to_string() },
        ],
        object: "list".to_string(),
    };
    assert_eq!(r.model_ids(), vec!["gpt-3.5-turbo".to_string(), "whisper-1".to_string()]);
    let e = OpenAIError {
        error: ErrorDetails {
            message: "No such File object: invalid_file_id".to_string(),
            kind: "invalid_request_error".to_string(),
            param: Some("id".to_string()),
            code: None,
        },
    };
    assert_eq!(e.message(), "No such File object: invalid_file_id");
}

#[test]
fn audio_error_messages_list_what_is_accepted() {
    let mut c = OpenAI::<Audio>::new(key()).unwrap();
    let e = c.set_file_name("song.ogg").unwrap_err();
    assert!(matches!(e, AudioError::UnsupportedAudioFile));
    assert_eq!(
        e.message(),
        "Invalid audio file type. Supported types are [\"mp3\", \"mp4\", \"mpeg\", \"mpga\", \"m4a\", \"wav\", \"webm\"]"
    );
    assert_eq!(AudioError::InvalidModel.message(), "Invalid model. Supported models are [\"whisper-1\"]");
    let lang = AudioError::InvalidLanguage.message();
    assert!(lang.starts_with("Invalid language code. Supported language codes are [\"ab\", \"aa\", \"af\""));
    assert!(lang.ends_with("\"za\", \"zu\"]"));
    assert_eq!(lang.matches(", ").count(), 178);
}
