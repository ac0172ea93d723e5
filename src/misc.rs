//! Shapes shared by several capabilities: models, token usage and the
//! API's error object.

use vstd::prelude::*;
use vstd::string::*;

verus! {

/// A model the API offers.
#[derive(Clone, Debug)]
pub struct Model {
    /// The model's name.
    pub id: String,
    pub object: String,
    pub owned_by: String,
}

/// The list of models the API offers.
#[derive(Clone, Debug)]
pub struct ModelsResponse {
    pub data: Vec<Model>,
    pub object: String,
}

impl ModelsResponse {
    /// The names of the models, in the order listed.
    pub fn model_ids(&self) -> (r: Vec<String>)
        ensures
            r@.map_values(|s: String| s@) == self.data@.map_values(|m: Model| m.id@),
    {
        let mut out: Vec<String> = Vec::new();
        let mut i: usize = 0;
        while i < self.data.len()
            invariant
                i <= self.data@.len(),
                out@.map_values(|s: String| s@) == self.data@.subrange(0, i as int).map_values(
                    |m: Model| m.id@,
                ),
            decreases self.data@.len() - i,
        {
            let ghost before = out@;
            let id = self.data[i].id.clone();
            out.push(id);
            assert(out@.map_values(|s: String| s@) =~= before.map_values(|s: String| s@).push(id@));
            assert(self.data@.subrange(0, i + 1).map_values(|m: Model| m.id@) =~= self.data@.subrange(
                0,
                i as int,
            ).map_values(|m: Model| m.id@).push(id@));
            i = i + 1;
        }
        assert(self.data@.subrange(0, self.data@.len() as int) =~= self.data@);
        out
    }
}

/// Token counts of one request; embeddings report no completion tokens.
#[derive(Clone, Copy, Debug)]
pub struct Usage {
    pub prompt_tokens: u64,
    pub completion_tokens: Option<u64>,
    pub total_tokens: u64,
}

/// The error object of a failed request.
#[derive(Clone, Debug)]
pub struct OpenAIError {
    pub error: ErrorDetails,
}

/// What went wrong with a request.
#[derive(Clone, Debug)]
pub struct ErrorDetails {
    /// A description for people.
    pub message: String,
    /// The kind of error.
    pub kind: String,
    /// The request parameter at fault, if any.
    pub param: Option<String>,
    pub code: Option<String>,
}

impl OpenAIError {
    /// The description that a failed request surfaces.
    pub fn message(&self) -> (r: String)
        ensures
            r@ == self.error.message@,
    {
        self.error.message.clone()
    }
}

} // verus!
