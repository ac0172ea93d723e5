//! The embedding capability: inputs and the embedding configuration.

use vstd::prelude::*;
use vstd::string::*;
use crate::client::{OpenAI, OpenAIConfig};

verus! {

/// The text to embed: one string, several strings, or token identifiers.
#[derive(Clone, Debug)]
pub enum InputType {
    SingleString(String),
    MultipleStrings(Vec<String>),
    MultipleTokens(Vec<u64>),
}

impl InputType {
    pub fn is_single_string(&self) -> (r: bool)
        ensures
            r == (self is SingleString),
    {
        matches!(self, InputType::SingleString(_))
    }

    pub fn is_multiple_strings(&self) -> (r: bool)
        ensures
            r == (self is MultipleStrings),
    {
        matches!(self, InputType::MultipleStrings(_))
    }

    pub fn is_multiple_tokens(&self) -> (r: bool)
        ensures
            r == (self is MultipleTokens),
    {
        matches!(self, InputType::MultipleTokens(_))
    }

    pub fn new_single_string(input: String) -> (r: InputType)
        ensures
            r == InputType::SingleString(input),
    {
        InputType::SingleString(input)
    }

    pub fn new_multiple_strings(input: Vec<String>) -> (r: InputType)
        ensures
            r == InputType::MultipleStrings(input),
    {
        InputType::MultipleStrings(input)
    }

    pub fn new_multiple_tokens(input: Vec<u64>) -> (r: InputType)
        ensures
            r == InputType::MultipleTokens(input),
    {
        InputType::MultipleTokens(input)
    }
}

impl From<String> for InputType {
    fn from(input: String) -> InputType {
        InputType::SingleString(input)
    }
}

impl vstd::std_specs::convert::FromSpecImpl<String> for InputType {
    open spec fn obeys_from_spec() -> bool {
        true
    }

    open spec fn from_spec(input: String) -> InputType {
        InputType::SingleString(input)
    }
}

impl From<Vec<String>> for InputType {
    fn from(input: Vec<String>) -> InputType {
        InputType::MultipleStrings(input)
    }
}

impl vstd::std_specs::convert::FromSpecImpl<Vec<String>> for InputType {
    open spec fn obeys_from_spec() -> bool {
        true
    }

    open spec fn from_spec(input: Vec<String>) -> InputType {
        InputType::MultipleStrings(input)
    }
}

impl From<Vec<u64>> for InputType {
    fn from(input: Vec<u64>) -> InputType {
        InputType::MultipleTokens(input)
    }
}

impl vstd::std_specs::convert::FromSpecImpl<Vec<u64>> for InputType {
    open spec fn obeys_from_spec() -> bool {
        true
    }

    open spec fn from_spec(input: Vec<u64>) -> InputType {
        InputType::MultipleTokens(input)
    }
}

/// The configuration of an embedding request.
#[derive(Clone, Debug)]
pub struct Embedding {
    pub model: String,
    pub input: InputType,
    pub user: Option<String>,
}

impl Embedding {
    /// The default embedding model.
    pub fn get_default_model() -> (r: &'static str)
        ensures
            r@ == "text-embedding-ada-002"@,
    {
        "text-embedding-ada-002"
    }
}

impl OpenAIConfig for Embedding {
    open spec fn is_default(&self) -> bool {
        &&& self.model@ == "text-embedding-ada-002"@
        &&& self.input is SingleString && self.input->SingleString_0@.len() == 0
        &&& self.user is None
    }

    fn default() -> (r: Embedding) {
        Embedding {
            model: String::from_str(Embedding::get_default_model()),
            input: InputType::SingleString(String::new()),
            user: None,
        }
    }
}

impl OpenAI<Embedding> {
    /// The client with `model` as its model.
    pub fn set_model(self, model: &str) -> (r: OpenAI<Embedding>)
        ensures
            r.config.model@ == model@,
            r.config == (Embedding { model: r.config.model, ..self.config }),
            r.api_key == self.api_key,
            r.disable_live_stream == self.disable_live_stream,
    {
        let mut s = self;
        s.config.model = String::from_str(model);
        s
    }

    /// Shapes the configuration for embedding `input`.
    pub fn prepare_embed(&mut self, input: InputType)
        ensures
            final(self).config.input == input,
            final(self).config == (Embedding { input: final(self).config.input, ..old(self).config }),
            final(self).api_key == old(self).api_key,
            final(self).disable_live_stream == old(self).disable_live_stream,
    {
        self.config.input = input;
    }
}

} // verus!
