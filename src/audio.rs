//! The audio capability: accepted file types and transcript formats, the
//! audio configuration and its checks.

use vstd::prelude::*;
use vstd::string::*;
use crate::client::{OpenAI, OpenAIConfig};
use crate::decimal::{clamped, decimal_notation, Decimal};
use crate::image::{fields_view, opt_view, FormField};
use crate::text::{decimal_text, decimal_text_of, same_text};

verus! {

/// The ISO 639-1 language codes, in the order the library lists them.
pub open spec fn iso_639_1_codes() -> Seq<Seq<char>> {
    seq![
        "ab"@, "aa"@, "af"@, "ak"@, "sq"@, "am"@, "ar"@, "an"@, "hy"@, "as"@, "av"@, "ae"@,
        "ay"@, "az"@, "bm"@, "ba"@, "eu"@, "be"@, "bn"@, "bh"@, "bi"@, "bs"@, "br"@, "bg"@,
        "my"@, "ca"@, "ch"@, "ce"@, "ny"@, "zh"@, "cv"@, "kw"@, "co"@, "cr"@, "hr"@, "cs"@,
        "da"@, "dv"@, "nl"@, "dz"@, "en"@, "eo"@, "et"@, "ee"@, "fo"@, "fj"@, "fi"@, "fr"@,
        "ff"@, "gl"@, "ka"@, "de"@, "el"@, "gn"@, "gu"@, "ht"@, "ha"@, "he"@, "hz"@, "hi"@,
        "ho"@, "hu"@, "ia"@, "id"@, "ie"@, "ga"@, "ig"@, "ik"@, "io"@, "is"@, "it"@, "iu"@,
        "ja"@, "jv"@, "kl"@, "kn"@, "kr"@, "ks"@, "kk"@, "km"@, "ki"@, "rw"@, "ky"@, "kv"@,
        "kg"@, "ko"@, "ku"@, "kj"@, "la"@, "lb"@, "lg"@, "li"@, "ln"@, "lo"@, "lt"@, "lu"@,
        "lv"@, "gv"@, "mk"@, "mg"@, "ms"@, "ml"@, "mt"@, "mi"@, "mr"@, "mh"@, "mn"@, "na"@,
        "nv"@, "nd"@, "ne"@, "ng"@, "nb"@, "nn"@, "no"@, "ii"@, "nr"@, "oc"@, "oj"@, "cu"@,
        "om"@, "or"@, "os"@, "pa"@, "pi"@, "fa"@, "pl"@, "ps"@, "pt"@, "qu"@, "rm"@, "rn"@,
        "ro"@, "ru"@, "sa"@, "sc"@, "sd"@, "se"@, "sm"@, "sg"@, "sr"@, "gd"@, "sn"@, "si"@,
        "sk"@, "sl"@, "so"@, "st"@, "es"@, "su"@, "sw"@, "ss"@, "sv"@, "ta"@, "te"@, "th"@,
        "ti"@, "to"@, "tn"@, "ts"@, "tk"@, "tr"@, "tw"@, "ug"@, "uk"@, "ur"@, "uz"@, "ve"@,
        "vi"@, "vo"@, "wa"@, "cy"@, "wo"@, "fy"@, "xh"@, "yi"@, "yo"@, "za"@, "zu"@,
    ]
}

/// The ISO 639-1 language codes, in the order the library lists them.
pub fn iso_639_1_code_list() -> (r: [&'static str; 179])
    ensures
        forall|i: int| 0 <= i < 179 ==> (#[trigger] r@[i])@ == iso_639_1_codes()[i],
{
    let codes: [&'static str; 179] = [
        "ab", "aa", "af", "ak", "sq", "am", "ar", "an", "hy", "as", "av", "ae", "ay", "az",
        "bm", "ba", "eu", "be", "bn", "bh", "bi", "bs", "br", "bg", "my", "ca", "ch", "ce",
        "ny", "zh", "cv", "kw", "co", "cr", "hr", "cs", "da", "dv", "nl", "dz", "en", "eo",
        "et", "ee", "fo", "fj", "fi", "fr", "ff", "gl", "ka", "de", "el", "gn", "gu", "ht",
        "ha", "he", "hz", "hi", "ho", "hu", "ia", "id", "ie", "ga", "ig", "ik", "io", "is",
        "it", "iu", "ja", "jv", "kl", "kn", "kr", "ks", "kk", "km", "ki", "rw", "ky", "kv",
        "kg", "ko", "ku", "kj", "la", "lb", "lg", "li", "ln", "lo", "lt", "lu", "lv", "gv",
        "mk", "mg", "ms", "ml", "mt", "mi", "mr", "mh", "mn", "na", "nv", "nd", "ne", "ng",
        "nb", "nn", "no", "ii", "nr", "oc", "oj", "cu", "om", "or", "os", "pa", "pi", "fa",
        "pl", "ps", "pt", "qu", "rm", "rn", "ro", "ru", "sa", "sc", "sd", "se", "sm", "sg",
        "sr", "gd", "sn", "si", "sk", "sl", "so", "st", "es", "su", "sw", "ss", "sv", "ta",
        "te", "th", "ti", "to", "tn", "ts", "tk", "tr", "tw", "ug", "uk", "ur", "uz", "ve",
        "vi", "vo", "wa", "cy", "wo", "fy", "xh", "yi", "yo", "za", "zu",
    ];
    codes
}


/// Whether `l` is an ISO 639-1 language code.
pub open spec fn valid_language(l: Seq<char>) -> bool {
    iso_639_1_codes().contains(l)
}

/// The part of a file name after its last dot, or the whole name where it
/// has no dot.
pub open spec fn after_last_dot(s: Seq<char>) -> Seq<char>
    decreases s.len(),
{
    if s.len() == 0 {
        Seq::empty()
    } else if s.last() == '.' {
        Seq::empty()
    } else {
        after_last_dot(s.drop_last()).push(s.last())
    }
}

/// An audio container or codec the audio capability accepts.
#[derive(Clone, Copy, Debug, PartialEq, Eq, Structural)]
pub enum FileType {
    Mp3,
    Mp4,
    Mpeg,
    Mpga,
    M4a,
    Wav,
    Webm,
}

/// The file extension of a file type.
pub open spec fn file_type_name(t: FileType) -> Seq<char> {
    match t {
        FileType::Mp3 => "mp3"@,
        FileType::Mp4 => "mp4"@,
        FileType::Mpeg => "mpeg"@,
        FileType::Mpga => "mpga"@,
        FileType::M4a => "m4a"@,
        FileType::Wav => "wav"@,
        FileType::Webm => "webm"@,
    }
}

/// The file type whose extension is `s`, if any.
pub open spec fn file_type_of(s: Seq<char>) -> Option<FileType> {
    if s == "mp3"@ {
        Some(FileType::Mp3)
    } else if s == "mp4"@ {
        Some(FileType::Mp4)
    } else if s == "mpeg"@ {
        Some(FileType::Mpeg)
    } else if s == "mpga"@ {
        Some(FileType::Mpga)
    } else if s == "m4a"@ {
        Some(FileType::M4a)
    } else if s == "wav"@ {
        Some(FileType::Wav)
    } else if s == "webm"@ {
        Some(FileType::Webm)
    } else {
        None
    }
}

/// A name between double quotes.
pub open spec fn quoted(s: Seq<char>) -> Seq<char> {
    seq!['"'] + s + seq!['"']
}

/// The quoted names of `xs`, separated by a comma and a space.
pub open spec fn quoted_items(xs: Seq<Seq<char>>) -> Seq<char>
    decreases xs.len(),
{
    if xs.len() == 0 {
        Seq::empty()
    } else if xs.len() == 1 {
        quoted(xs[0])
    } else {
        quoted_items(xs.drop_last()) + seq![',', ' '] + quoted(xs.last())
    }
}

/// The names of `xs` as a bracketed list of quoted names:
/// `["mp3", "wav"]`.
pub open spec fn quoted_list(xs: Seq<Seq<char>>) -> Seq<char> {
    seq!['['] + quoted_items(xs) + seq![']']
}

/// The extensions of the accepted file types, in order.
pub open spec fn file_type_names() -> Seq<Seq<char>> {
    seq!["mp3"@, "mp4"@, "mpeg"@, "mpga"@, "m4a"@, "wav"@, "webm"@]
}

/// The names of `xs` as a bracketed list of quoted names.
fn quoted_list_of<const N: usize>(xs: &[&str; N]) -> (r: String)
    ensures
        r@ == quoted_list(xs@.map_values(|x: &str| x@)),
{
    proof {
        reveal_strlit("[");
        reveal_strlit("]");
        reveal_strlit("\"");
        reveal_strlit(", ");
    }
    let ghost names = xs@.map_values(|x: &str| x@);
    let mut out = String::from_str("[");
    let mut i: usize = 0;
    assert(names.subrange(0, 0) =~= Seq::<Seq<char>>::empty());
    assert(out@ =~= seq!['['] + quoted_items(names.subrange(0, 0)));
    while i < N
        invariant
            i <= N,
            xs@.len() == N,
            names == xs@.map_values(|x: &str| x@),
            out@ == seq!['['] + quoted_items(names.subrange(0, i as int)),
        decreases N - i,
    {
        let ghost before = out@;
        let ghost next = names.subrange(0, i + 1);
        assert(next.drop_last() =~= names.subrange(0, i as int));
        assert(next.last() == xs@[i as int]@);
        if i > 0 {
            out.append(", ");
        }
        out.append("\"");
        out.append(xs[i]);
        out.append("\"");
        proof {
            reveal_strlit("\"");
            reveal_strlit(", ");
        }
        assert("\""@ =~= seq!['"']);
        assert(", "@ =~= seq![',', ' ']);
        if i == 0 {
            assert(next.len() == 1 && next[0] == xs@[0]@);
            assert(quoted_items(next) == quoted(xs@[0]@));
            assert(out@ =~= before + seq!['"'] + xs@[0]@ + seq!['"']);
            assert(out@ =~= seq!['['] + quoted_items(next));
        } else {
            assert(quoted_items(next) == quoted_items(next.drop_last()) + seq![',', ' '] + quoted(next.last()));
            assert(out@ =~= before + seq![',', ' '] + seq!['"'] + xs@[i as int]@ + seq!['"']);
            assert(out@ =~= seq!['['] + quoted_items(next));
        }
        i = i + 1;
    }
    out.append("]");
    assert(names.subrange(0, N as int) =~= names);
    out
}

/// Why an audio request was refused before it was sent.
#[derive(Clone, Debug)]
pub enum AudioError {
    /// The file's extension is not an accepted file type; it holds the extension.
    InvalidFileType(String),
    /// The text is not a transcript format; it holds the text.
    InvalidResponseFormat(String),
    /// The model is not one the audio capability offers.
    InvalidModel,
    /// The language is not an ISO 639-1 code.
    InvalidLanguage,
    /// The audio file to send is not of an accepted file type.
    UnsupportedAudioFile,
}

impl AudioError {
    /// A description of the error.
    pub fn message(&self) -> (r: String)
        ensures
            self is InvalidFileType ==> r@ == "Invalid file type: "@ + self->InvalidFileType_0@,
            self is InvalidResponseFormat ==> r@ == "Invalid response format: "@
                + self->InvalidResponseFormat_0@,
            self is InvalidModel ==> r@ == "Invalid model. Supported models are "@ + quoted_list(
                seq!["whisper-1"@],
            ),
            self is InvalidLanguage ==> r@ == "Invalid language code. Supported language codes are "@
                + quoted_list(iso_639_1_codes()),
            self is UnsupportedAudioFile ==> r@ == "Invalid audio file type. Supported types are "@
                + quoted_list(file_type_names()),
    {
        match self {
            AudioError::InvalidFileType(v) => String::from_str("Invalid file type: ").concat(v.as_str()),
            AudioError::InvalidResponseFormat(v) => String::from_str("Invalid response format: ").concat(
                v.as_str(),
            ),
            AudioError::InvalidModel => {
                let models: [&str; 1] = ["whisper-1"];
                assert(models@.map_values(|x: &str| x@) =~= seq!["whisper-1"@]);
                String::from_str("Invalid model. Supported models are ").concat(
                    quoted_list_of(&models).as_str(),
                )
            },
            AudioError::InvalidLanguage => {
                let codes = iso_639_1_code_list();
                assert(codes@.map_values(|x: &str| x@) =~= iso_639_1_codes());
                String::from_str("Invalid language code. Supported language codes are ").concat(
                    quoted_list_of(&codes).as_str(),
                )
            },
            AudioError::UnsupportedAudioFile => {
                let types: [&str; 7] = ["mp3", "mp4", "mpeg", "mpga", "m4a", "wav", "webm"];
                assert(types@.map_values(|x: &str| x@) =~= file_type_names());
                String::from_str("Invalid audio file type. Supported types are ").concat(
                    quoted_list_of(&types).as_str(),
                )
            },
        }
    }
}

impl FileType {
    /// The file extension of this file type.
    pub fn to_string(&self) -> (r: String)
        ensures
            r@ == file_type_name(*self),
    {
        match self {
            FileType::Mp3 => String::from_str("mp3"),
            FileType::Mp4 => String::from_str("mp4"),
            FileType::Mpeg => String::from_str("mpeg"),
            FileType::Mpga => String::from_str("mpga"),
            FileType::M4a => String::from_str("m4a"),
            FileType::Wav => String::from_str("wav"),
            FileType::Webm => String::from_str("webm"),
        }
    }

    /// The file type whose extension is `value`.
    pub fn try_from(value: &str) -> (r: Result<FileType, AudioError>)
        ensures
            file_type_of(value@) is Some ==> r == Ok::<FileType, AudioError>(file_type_of(value@)->0),
            file_type_of(value@) is None ==> r is Err && r->Err_0 is InvalidFileType
                && r->Err_0->InvalidFileType_0@ == value@,
    {
        if same_text(value, "mp3") {
            Ok(FileType::Mp3)
        } else if same_text(value, "mp4") {
            Ok(FileType::Mp4)
        } else if same_text(value, "mpeg") {
            Ok(FileType::Mpeg)
        } else if same_text(value, "mpga") {
            Ok(FileType::Mpga)
        } else if same_text(value, "m4a") {
            Ok(FileType::M4a)
        } else if same_text(value, "wav") {
            Ok(FileType::Wav)
        } else if same_text(value, "webm") {
            Ok(FileType::Webm)
        } else {
            Err(AudioError::InvalidFileType(String::from_str(value)))
        }
    }

    /// The file type of the file named `file`, by the part after its last dot.
    pub fn get_file_type(file: &str) -> (r: Result<FileType, AudioError>)
        ensures
            file_type_of(after_last_dot(file@)) is Some ==> r == Ok::<FileType, AudioError>(
                file_type_of(after_last_dot(file@))->0,
            ),
            file_type_of(after_last_dot(file@)) is None ==> r is Err && r->Err_0 is InvalidFileType
                && r->Err_0->InvalidFileType_0@ == after_last_dot(file@),
    {
        let ext = extension_of(file);
        FileType::try_from(ext)
    }
}

/// The part of `file` after its last dot, or all of it where it has no dot.
pub fn extension_of(file: &str) -> (r: &str)
    ensures
        r@ == after_last_dot(file@),
{
    let n = file.unicode_len();
    let mut i: usize = n;
    assert(file@.subrange(0, n as int) =~= file@);
    assert(file@.subrange(n as int, n as int) =~= Seq::<char>::empty());
    assert(after_last_dot(file@) + Seq::<char>::empty() =~= after_last_dot(file@));
    while i > 0
        invariant
            n == file@.len(),
            i <= n,
            after_last_dot(file@) == after_last_dot(file@.subrange(0, i as int)) + file@.subrange(
                i as int,
                n as int,
            ),
            forall|k: int| i <= k < n ==> file@[k] != '.',
        decreases i,
    {
        let ghost pre = file@.subrange(0, i as int);
        assert(pre.drop_last() =~= file@.subrange(0, i - 1));
        assert(pre.last() == file@[i - 1]);
        if file.get_char(i - 1) == '.' {
            assert(after_last_dot(pre) =~= Seq::<char>::empty());
            assert(after_last_dot(file@) =~= file@.subrange(i as int, n as int));
            return file.substring_char(i, n);
        }
        assert(file@.subrange(i - 1, n as int) =~= seq![file@[i - 1]] + file@.subrange(i as int, n as int));
        assert(after_last_dot(pre) == after_last_dot(file@.subrange(0, i - 1)).push(file@[i - 1]));
        assert(after_last_dot(file@.subrange(0, i - 1)).push(file@[i - 1]) + file@.subrange(i as int, n as int)
            =~= after_last_dot(file@.subrange(0, i - 1)) + file@.subrange(i - 1, n as int));
        i = i - 1;
    }
    assert(file@.subrange(0, 0) =~= Seq::<char>::empty());
    assert(file@.subrange(0, n as int) =~= file@);
    file
}

/// The format of a transcript.
#[derive(Clone, Copy, Debug, PartialEq, Eq, Structural)]
pub enum ResponseFormat {
    Json,
    Text,
    Srt,
    VerboseJson,
    Vtt,
}

/// The wire name of a transcript format.
pub open spec fn response_format_name(f: ResponseFormat) -> Seq<char> {
    match f {
        ResponseFormat::Json => "json"@,
        ResponseFormat::Text => "text"@,
        ResponseFormat::Srt => "srt"@,
        ResponseFormat::VerboseJson => "verbose_json"@,
        ResponseFormat::Vtt => "vtt"@,
    }
}

/// The transcript format named `s`, if any.
pub open spec fn response_format_of(s: Seq<char>) -> Option<ResponseFormat> {
    if s == "json"@ {
        Some(ResponseFormat::Json)
    } else if s == "text"@ {
        Some(ResponseFormat::Text)
    } else if s == "srt"@ {
        Some(ResponseFormat::Srt)
    } else if s == "verbose_json"@ {
        Some(ResponseFormat::VerboseJson)
    } else if s == "vtt"@ {
        Some(ResponseFormat::Vtt)
    } else {
        None
    }
}

impl ResponseFormat {
    /// The wire name of this format.
    pub fn to_string(&self) -> (r: String)
        ensures
            r@ == response_format_name(*self),
    {
        match self {
            ResponseFormat::Json => String::from_str("json"),
            ResponseFormat::Text => String::from_str("text"),
            ResponseFormat::Srt => String::from_str("srt"),
            ResponseFormat::VerboseJson => String::from_str("verbose_json"),
            ResponseFormat::Vtt => String::from_str("vtt"),
        }
    }

    /// The transcript format named `input`.
    pub fn try_from(input: &str) -> (r: Result<ResponseFormat, AudioError>)
        ensures
            response_format_of(input@) is Some ==> r == Ok::<ResponseFormat, AudioError>(
                response_format_of(input@)->0,
            ),
            response_format_of(input@) is None ==> r is Err && r->Err_0 is InvalidResponseFormat
                && r->Err_0->InvalidResponseFormat_0@ == input@,
    {
        if same_text(input, "json") {
            Ok(ResponseFormat::Json)
        } else if same_text(input, "text") {
            Ok(ResponseFormat::Text)
        } else if same_text(input, "srt") {
            Ok(ResponseFormat::Srt)
        } else if same_text(input, "verbose_json") {
            Ok(ResponseFormat::VerboseJson)
        } else if same_text(input, "vtt") {
            Ok(ResponseFormat::Vtt)
        } else {
            Err(AudioError::InvalidResponseFormat(String::from_str(input)))
        }
    }

    /// The transcript format named `format`.
    pub fn get_response_format(format: &str) -> (r: Result<ResponseFormat, AudioError>)
        ensures
            response_format_of(format@) is Some ==> r == Ok::<ResponseFormat, AudioError>(
                response_format_of(format@)->0,
            ),
            response_format_of(format@) is None ==> r is Err && r->Err_0 is InvalidResponseFormat
                && r->Err_0->InvalidResponseFormat_0@ == format@,
    {
        ResponseFormat::try_from(format)
    }

    /// The default transcript format, JSON.
    pub fn get_default_response_format() -> (r: ResponseFormat)
        ensures
            r == ResponseFormat::Json,
    {
        ResponseFormat::Json
    }
}

/// A transcript.
#[derive(Clone, Debug)]
pub struct Response {
    pub text: String,
}

/// The configuration of a transcription or translation request.
#[derive(Clone, Debug)]
pub struct Audio {
    /// The path of the audio file.
    pub file: String,
    pub model: String,
    /// Text to guide the style of the transcript.
    pub prompt: Option<String>,
    pub response_format: Option<ResponseFormat>,
    /// Sampling temperature, within `[0, 1]` when a request is sent.
    pub temperature: Option<Decimal>,
    /// The ISO 639-1 code of the spoken language.
    pub language: Option<String>,
}

/// The highest sampling temperature the audio capability accepts, in thousandths.
pub open spec fn audio_temperature_limit() -> i64 {
    1000
}

impl Audio {
    /// The one model the audio capability offers.
    pub fn get_default_model() -> (r: &'static str)
        ensures
            r@ == "whisper-1"@,
    {
        "whisper-1"
    }

    /// The default transcript format, JSON.
    pub fn get_default_response_format() -> (r: ResponseFormat)
        ensures
            r == ResponseFormat::Json,
    {
        ResponseFormat::get_default_response_format()
    }

    /// The transcript format named `format`.
    pub fn get_response_format(format: &str) -> (r: Result<ResponseFormat, AudioError>)
        ensures
            response_format_of(format@) is Some ==> r == Ok::<ResponseFormat, AudioError>(
                response_format_of(format@)->0,
            ),
            response_format_of(format@) is None ==> r is Err && r->Err_0 is InvalidResponseFormat
                && r->Err_0->InvalidResponseFormat_0@ == format@,
    {
        ResponseFormat::get_response_format(format)
    }

    /// `Ok(true)` where the file named `file_name` has an accepted file type,
    /// an error naming its extension otherwise.
    pub fn is_file_type_supported(file_name: &str) -> (r: Result<bool, AudioError>)
        ensures
            file_type_of(after_last_dot(file_name@)) is Some ==> r == Ok::<bool, AudioError>(true),
            file_type_of(after_last_dot(file_name@)) is None ==> r is Err && r->Err_0 is InvalidFileType
                && r->Err_0->InvalidFileType_0@ == after_last_dot(file_name@),
    {
        match FileType::get_file_type(file_name) {
            Ok(_) => Ok(true),
            Err(e) => Err(e),
        }
    }

    /// The extensions of the accepted file types.
    pub fn get_supported_file_types() -> (r: Vec<String>)
        ensures
            r@.map_values(|s: String| s@) == seq![
                "mp3"@,
                "mp4"@,
                "mpeg"@,
                "mpga"@,
                "m4a"@,
                "wav"@,
                "webm"@,
            ],
    {
        let mut v: Vec<String> = Vec::new();
        v.push(FileType::Mp3.to_string());
        v.push(FileType::Mp4.to_string());
        v.push(FileType::Mpeg.to_string());
        v.push(FileType::Mpga.to_string());
        v.push(FileType::M4a.to_string());
        v.push(FileType::Wav.to_string());
        v.push(FileType::Webm.to_string());
        assert(v@.map_values(|s: String| s@) =~= seq![
            "mp3"@,
            "mp4"@,
            "mpeg"@,
            "mpga"@,
            "m4a"@,
            "wav"@,
            "webm"@,
        ]);
        v
    }

    /// The models the audio capability offers.
    pub fn get_supported_models() -> (r: Vec<String>)
        ensures
            r@.map_values(|s: String| s@) == seq!["whisper-1"@],
    {
        let mut v: Vec<String> = Vec::new();
        v.push(String::from_str(Audio::get_default_model()));
        assert(v@.map_values(|s: String| s@) =~= seq!["whisper-1"@]);
        v
    }

    /// Whether `language` is an ISO 639-1 code.
    pub fn is_valid_language(language: &str) -> (r: bool)
        ensures
            r == valid_language(language@),
    {
        let codes = iso_639_1_code_list();
        let mut i: usize = 0;
        while i < 179
            invariant
                i <= 179,
                forall|k: int| 0 <= k < 179 ==> (#[trigger] codes@[k])@ == iso_639_1_codes()[k],
                forall|k: int| 0 <= k < i ==> iso_639_1_codes()[k] != language@,
            decreases 179 - i,
        {
            if same_text(codes[i], language) {
                assert(iso_639_1_codes()[i as int] == language@);
                return true;
            }
            i = i + 1;
        }
        assert(!iso_639_1_codes().contains(language@)) by {
            if iso_639_1_codes().contains(language@) {
                let k = choose|k: int| 0 <= k < iso_639_1_codes().len() && iso_639_1_codes()[k] == language@;
                assert(iso_639_1_codes()[k] != language@);
            }
        }
        false
    }
}

impl OpenAIConfig for Audio {
    open spec fn is_default(&self) -> bool {
        &&& self.file@.len() == 0
        &&& self.model@ == "whisper-1"@
        &&& self.prompt is None
        &&& self.response_format == Some(ResponseFormat::Json)
        &&& self.temperature == Some(Decimal { thousandths: 0 })
        &&& self.language is None
    }

    fn default() -> (r: Audio) {
        Audio {
            file: String::new(),
            model: String::from_str(Audio::get_default_model()),
            prompt: None,
            response_format: Some(Audio::get_default_response_format()),
            temperature: Some(Decimal { thousandths: 0 }),
            language: None,
        }
    }
}

/// The text fields of an audio upload form, in order: the model, then each
/// of prompt, transcript format, temperature and language that is set.
pub open spec fn audio_form_fields(c: Audio) -> Seq<(Seq<char>, Seq<char>)> {
    let a: Seq<(Seq<char>, Seq<char>)> = seq![("model"@, c.model@)];
    let b: Seq<(Seq<char>, Seq<char>)> = match c.prompt {
        Some(p) => seq![("prompt"@, p@)],
        None => Seq::empty(),
    };
    let d: Seq<(Seq<char>, Seq<char>)> = match c.response_format {
        Some(f) => seq![("response_format"@, response_format_name(f))],
        None => Seq::empty(),
    };
    let e: Seq<(Seq<char>, Seq<char>)> = match c.temperature {
        Some(t) => seq![("temperature"@, decimal_notation(t.thousandths as int))],
        None => Seq::empty(),
    };
    let f: Seq<(Seq<char>, Seq<char>)> = match c.language {
        Some(l) => seq![("language"@, l@)],
        None => Seq::empty(),
    };
    a + b + d + e + f
}

fn push_field(fields: &mut Vec<FormField>, name: &str, value: String)
    ensures
        fields_view(final(fields)@) == fields_view(old(fields)@).push((name@, value@)),
{
    let ghost before = fields@;
    fields.push((String::from_str(name), value));
    assert(fields_view(fields@) =~= fields_view(before).push((name@, value@)));
}

impl OpenAI<Audio> {
    /// The client with `model` as its model.
    pub fn set_model(self, model: &str) -> (r: OpenAI<Audio>)
        ensures
            r.config.model@ == model@,
            r.config == (Audio { model: r.config.model, ..self.config }),
            r.api_key == self.api_key,
            r.disable_live_stream == self.disable_live_stream,
    {
        let mut s = self;
        s.config.model = String::from_str(model);
        s
    }

    /// The client with `prompt` to guide the transcript.
    pub fn set_prompt(self, prompt: &str) -> (r: OpenAI<Audio>)
        ensures
            opt_view(r.config.prompt) == Some(prompt@),
            r.config == (Audio { prompt: r.config.prompt, ..self.config }),
            r.api_key == self.api_key,
            r.disable_live_stream == self.disable_live_stream,
    {
        let mut s = self;
        s.config.prompt = Some(String::from_str(prompt));
        s
    }

    /// Sets the transcript format.
    pub fn set_response_format(&mut self, format: ResponseFormat)
        ensures
            final(self).config.response_format == Some(format),
            final(self).config == (Audio { response_format: final(self).config.response_format, ..old(self).config }),
            final(self).api_key == old(self).api_key,
            final(self).disable_live_stream == old(self).disable_live_stream,
    {
        self.config.response_format = Some(format);
    }

    /// Records `path` as the audio file to send, and fails, naming the
    /// accepted file types, where its extension is not one of them. The path
    /// is recorded either way.
    pub fn set_file_name(&mut self, path: &str) -> (r: Result<(), AudioError>)
        ensures
            final(self).config.file@ == path@,
            r is Ok <==> file_type_of(after_last_dot(path@)) is Some,
            r is Err ==> r->Err_0 is UnsupportedAudioFile,
            final(self).config == (Audio { file: final(self).config.file, ..old(self).config }),
            final(self).api_key == old(self).api_key,
            final(self).disable_live_stream == old(self).disable_live_stream,
    {
        self.config.file = String::from_str(path);
        match Audio::is_file_type_supported(path) {
            Ok(_) => Ok(()),
            Err(_) => Err(AudioError::UnsupportedAudioFile),
        }
    }

    /// Checks the configuration before a request: a set temperature is moved
    /// into `[0, 1]`; then the model must be `whisper-1` and a set language
    /// an ISO 639-1 code.
    pub fn sanity_checks(&mut self) -> (r: Result<(), AudioError>)
        ensures
            old(self).config.temperature is None ==> final(self).config.temperature is None,
            old(self).config.temperature is Some ==> final(self).config.temperature == Some(
                Decimal {
                    thousandths: clamped(
                        old(self).config.temperature->0.thousandths as int,
                        audio_temperature_limit() as int,
                    ) as i64,
                },
            ),
            old(self).config.model@ != "whisper-1"@ ==> r is Err && r->Err_0 is InvalidModel,
            old(self).config.model@ == "whisper-1"@ && old(self).config.language is Some && !valid_language(
                old(self).config.language->0@,
            ) ==> r is Err && r->Err_0 is InvalidLanguage,
            r is Ok <==> (old(self).config.model@ == "whisper-1"@ && (old(self).config.language is None
                || valid_language(old(self).config.language->0@))),
            final(self).config == (Audio { temperature: final(self).config.temperature, ..old(self).config }),
            final(self).api_key == old(self).api_key,
            final(self).disable_live_stream == old(self).disable_live_stream,
    {
        if let Some(t) = self.config.temperature {
            self.config.temperature = Some(t.clamp_to(Decimal { thousandths: 1000 }));
        }
        if !same_text(self.config.model.as_str(), Audio::get_default_model()) {
            return Err(AudioError::InvalidModel);
        }
        match &self.config.language {
            Some(lang) => {
                if !Audio::is_valid_language(lang.as_str()) {
                    return Err(AudioError::InvalidLanguage);
                }
            },
            None => {},
        }
        Ok(())
    }

    /// Shapes the configuration for a translation, which names no language.
    pub fn prepare_translation(&mut self)
        ensures
            final(self).config.language is None,
            final(self).config == (Audio { language: final(self).config.language, ..old(self).config }),
            final(self).api_key == old(self).api_key,
            final(self).disable_live_stream == old(self).disable_live_stream,
    {
        self.config.language = None;
    }

    /// The text fields of the upload form; the audio file goes along as a file.
    pub fn form_fields(&self) -> (r: Vec<FormField>)
        ensures
            fields_view(r@) == audio_form_fields(self.config),
    {
        let mut fields: Vec<FormField> = Vec::new();
        assert(fields_view(fields@) =~= Seq::<(Seq<char>, Seq<char>)>::empty());
        let c = &self.config;
        proof {
            reveal_strlit("model");
            reveal_strlit("prompt");
            reveal_strlit("response_format");
            reveal_strlit("temperature");
            reveal_strlit("language");
        }
        push_field(&mut fields, "model", c.model.clone());
        if let Some(p) = &c.prompt {
            push_field(&mut fields, "prompt", p.clone());
        }
        if let Some(f) = &c.response_format {
            push_field(&mut fields, "response_format", f.to_string());
        }
        if let Some(t) = &c.temperature {
            push_field(&mut fields, "temperature", t.to_text());
        }
        if let Some(l) = &c.language {
            push_field(&mut fields, "language", l.clone());
        }
        assert(fields_view(fields@) =~= audio_form_fields(self.config));
        fields
    }
}

} // verus!
