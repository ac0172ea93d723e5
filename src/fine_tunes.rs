//! The fine-tuning capability: its configuration and the shapes of its
//! responses.

use vstd::prelude::*;
use vstd::string::*;
use crate::client::{OpenAI, OpenAIConfig};
use crate::decimal::Decimal;
use crate::image::opt_view;

verus! {

/// The events of a fine-tuning job.
#[derive(Clone, Debug)]
pub struct EventResponse {
    pub object: String,
    pub data: Vec<Event>,
}

/// The fine-tuning jobs of an organisation.
#[derive(Clone, Debug)]
pub struct ListResponse {
    pub data: Option<Vec<ListSummary>>,
    pub object: String,
}

/// One fine-tuning job of a list.
#[derive(Clone, Debug)]
pub struct ListSummary {
    pub id: String,
    pub object: String,
    pub bytes: u64,
    pub created_at: u64,
    pub filename: String,
    pub purpose: String,
}

/// A fine-tuning job.
#[derive(Clone, Debug)]
pub struct Response {
    pub id: String,
    pub object: String,
    pub model: String,
    pub created_at: u64,
    pub events: Vec<Event>,
    pub fine_tuned_model: Option<String>,
    pub hyperparams: HyperParams,
    pub organization_id: String,
    pub result_files: Vec<File>,
    pub status: String,
    pub validation_files: Vec<String>,
    pub training_files: Vec<File>,
    pub updated_at: u64,
}

/// One event of a fine-tuning job.
#[derive(Clone, Debug)]
pub struct Event {
    pub object: String,
    pub created_at: u64,
    pub level: String,
    pub message: String,
}

/// The training settings of a fine-tuning job.
#[derive(Clone, Copy, Debug)]
pub struct HyperParams {
    pub batch_size: u64,
    pub learning_rate_multiplier: Decimal,
    pub n_epochs: u64,
    pub prompt_loss_weight: Decimal,
}

/// A file a fine-tuning job reads or writes.
#[derive(Clone, Debug)]
pub struct File {
    pub id: String,
    pub object: String,
    pub bytes: u64,
    pub created_at: u64,
    pub filename: String,
    pub purpose: String,
}

/// The configuration of a fine-tuning request.
#[derive(Clone, Debug)]
pub struct FineTune {
    /// The uploaded file with the training data.
    pub training_file: String,
    /// The uploaded file with the validation data.
    pub validation_file: Option<String>,
    /// The base model to fine-tune.
    pub model: Option<String>,
    pub n_epochs: Option<u64>,
    pub batch_size: Option<u64>,
    pub learning_rate_multiplier: Option<Decimal>,
    pub prompt_loss_weight: Option<Decimal>,
    pub compute_classification_metrics: Option<bool>,
    pub classification_n_classes: Option<u64>,
    pub classification_positive_class: Option<String>,
    pub classification_betas: Option<Vec<Decimal>>,
    /// Text of up to 40 characters added to the fine-tuned model's name.
    pub suffix: Option<String>,
}

impl FineTune {
    /// Sets the base model to fine-tune.
    pub fn set_model(&mut self, model: String)
        ensures
            final(self).model == Some(model),
            *final(self) == (FineTune { model: final(self).model, ..*old(self) }),
    {
        self.model = Some(model);
    }

    /// The default base model.
    pub fn get_default_model() -> (r: &'static str)
        ensures
            r@ == "curie"@,
    {
        "curie"
    }

    /// The default number of epochs.
    pub fn get_default_n_epochs() -> (r: u64)
        ensures
            r == 4,
    {
        4
    }

    /// The default weight of the loss on prompt tokens, 0.01.
    pub fn get_default_prompt_loss_weight() -> (r: Decimal)
        ensures
            r.thousandths == 10,
    {
        Decimal { thousandths: 10 }
    }

    /// Whether classification metrics are computed by default.
    pub fn get_default_compute_classification_metrics() -> (r: bool)
        ensures
            !r,
    {
        false
    }
}

impl OpenAIConfig for FineTune {
    open spec fn is_default(&self) -> bool {
        &&& self.training_file@.len() == 0
        &&& self.validation_file is None
        &&& opt_view(self.model) == Some("curie"@)
        &&& self.n_epochs == Some(4u64)
        &&& self.batch_size is None
        &&& self.learning_rate_multiplier is None
        &&& self.prompt_loss_weight == Some(Decimal { thousandths: 10 })
        &&& self.compute_classification_metrics == Some(false)
        &&& self.classification_n_classes is None
        &&& self.classification_positive_class is None
        &&& self.classification_betas is None
        &&& self.suffix is None
    }

    fn default() -> (r: FineTune) {
        FineTune {
            training_file: String::new(),
            validation_file: None,
            model: Some(String::from_str(FineTune::get_default_model())),
            n_epochs: Some(FineTune::get_default_n_epochs()),
            batch_size: None,
            learning_rate_multiplier: None,
            prompt_loss_weight: Some(FineTune::get_default_prompt_loss_weight()),
            compute_classification_metrics: Some(
                FineTune::get_default_compute_classification_metrics(),
            ),
            classification_n_classes: None,
            classification_positive_class: None,
            classification_betas: None,
            suffix: None,
        }
    }
}

impl OpenAI<FineTune> {
    /// Shapes the configuration for a job that trains on `training_file`.
    pub fn prepare_create(&mut self, training_file: &str)
        ensures
            final(self).config.training_file@ == training_file@,
            final(self).config == (FineTune { training_file: final(self).config.training_file, ..old(self).config }),
            final(self).api_key == old(self).api_key,
            final(self).disable_live_stream == old(self).disable_live_stream,
    {
        self.config.training_file = String::from_str(training_file);
    }
}

} // verus!
