//! The moderation capability: its configuration and the categories it flags.

use vstd::prelude::*;
use vstd::string::*;
use crate::client::{OpenAI, OpenAIConfig};

verus! {

/// The categories under which a text can be flagged.
#[derive(Clone, Copy, Debug, PartialEq, Eq, Structural)]
pub struct Categories {
    pub sexual: bool,
    pub hate: bool,
    pub harassment: bool,
    pub self_harm: bool,
    pub sexual_minors: bool,
    pub hate_threatening: bool,
    pub violence_graphic: bool,
    pub self_harm_intent: bool,
    pub self_harm_instructions: bool,
    pub harassment_threatening: bool,
    pub violence: bool,
}

/// The configuration of a moderation request.
#[derive(Clone, Debug)]
pub struct Moderation {
    /// The text to classify.
    pub input: String,
}

impl OpenAIConfig for Moderation {
    open spec fn is_default(&self) -> bool {
        self.input@.len() == 0
    }

    fn default() -> (r: Moderation) {
        Moderation { input: String::new() }
    }
}

impl OpenAI<Moderation> {
    /// Shapes the configuration for classifying `input`.
    pub fn prepare_moderate(&mut self, input: &str)
        ensures
            final(self).config.input@ == input@,
            final(self).api_key == old(self).api_key,
            final(self).disable_live_stream == old(self).disable_live_stream,
    {
        self.config.input = String::from_str(input);
    }
}

} // verus!
