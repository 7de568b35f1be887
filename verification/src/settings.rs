//! Settings of the embedding provider and the vector repository.

use vstd::prelude::*;
use crate::errors::CustomError;
use crate::text::{is_blank, is_blank_text};

verus! {

/// The embedding model, which determines the vectors' dimension.
#[derive(Debug, Clone, Copy, PartialEq, Eq, Structural)]
pub enum EmbeddingModel {
    TextEmbedding3Large,
}

impl EmbeddingModel {
    /// The model's name in the provider's API.
    pub fn as_str(self) -> (s: &'static str)
        ensures
            s@ == "text-embedding-3-large"@,
    {
        match self {
            EmbeddingModel::TextEmbedding3Large => "text-embedding-3-large",
        }
    }
}

/// Settings of the embedding provider: its API key and model.
#[derive(Debug, Clone, PartialEq, Eq)]
pub struct EmbeddingProviderSettings {
    pub api_key: String,
    pub model: EmbeddingModel,
}

impl EmbeddingProviderSettings {
    /// Settings with this key and model.
    pub fn new(api_key: String, model: EmbeddingModel) -> (s: EmbeddingProviderSettings)
        ensures
            s.api_key == api_key,
            s.model == model,
    {
        EmbeddingProviderSettings { api_key, model }
    }
}

/// Settings of the vector repository: the server, the collection, and the model
/// whose vectors it stores.
#[derive(Debug, Clone, PartialEq, Eq)]
pub struct VectorMemoryRepositorySettings {
    pub url: String,
    pub collection_name: String,
    pub model: EmbeddingModel,
}

impl VectorMemoryRepositorySettings {
    /// Settings for this server, collection and model.
    pub fn new(url: String, collection_name: String, model: EmbeddingModel) -> (s: VectorMemoryRepositorySettings)
        ensures
            s.url == url,
            s.collection_name == collection_name,
            s.model == model,
    {
        VectorMemoryRepositorySettings { url, collection_name, model }
    }
}

/// The client-side configuration of the hosted embedding service: its key and the
/// model name sent with every request.
#[derive(Debug, Clone, PartialEq, Eq)]
pub struct OpenAIEmbeddingProvider {
    api_key: String,
    model: String,
}

/// The message refusing a provider without a key.
pub open spec fn missing_api_key_message() -> Seq<char> {
    "OpenAI API key is not provided."@
}

impl OpenAIEmbeddingProvider {
    /// The key requests are authorised with.
    pub closed spec fn key(&self) -> Seq<char> {
        self.api_key@
    }

    /// The model name requests carry.
    pub closed spec fn model_name(&self) -> Seq<char> {
        self.model@
    }

    /// A provider for these settings; refused when the key is blank.
    pub fn new(settings: EmbeddingProviderSettings) -> (r: Result<OpenAIEmbeddingProvider, CustomError>)
        ensures
            is_blank_text(settings.api_key@) ==> (r matches Err(CustomError::EmbeddingInitializationError(m))
                && m@ == missing_api_key_message()),
            !is_blank_text(settings.api_key@) ==> (r matches Ok(p) && p.key() == settings.api_key@
                && p.model_name() == "text-embedding-3-large"@),
    {
        if is_blank(settings.api_key.as_str()) {
            return Err(CustomError::EmbeddingInitializationError(String::from_str("OpenAI API key is not provided.")));
        }
        Ok(OpenAIEmbeddingProvider { api_key: settings.api_key, model: String::from_str(settings.model.as_str()) })
    }

    /// The key requests are authorised with.
    pub fn api_key(&self) -> (s: &str)
        ensures
            s@ == self.key(),
    {
        self.api_key.as_str()
    }

    /// The model name requests carry.
    pub fn model(&self) -> (s: &str)
        ensures
            s@ == self.model_name(),
    {
        self.model.as_str()
    }
}

/// The message refusing a blank embedding input.
pub open spec fn empty_input_message() -> Seq<char> {
    "Input text is empty."@
}

/// Checks a text before an embedding is requested for it: a blank text (empty or
/// all whitespace) is refused, anything else is sent as it is.
pub fn check_embedding_input(text: &str) -> (r: Result<(), CustomError>)
    ensures
        is_blank_text(text@) ==> (r matches Err(CustomError::EmbeddingGenerationError(m)) && m@ == empty_input_message()),
        !is_blank_text(text@) ==> r is Ok,
{
    if is_blank(text) {
        proof {
            reveal_strlit("Input text is empty.");
        }
        return Err(CustomError::EmbeddingGenerationError(String::from_str("Input text is empty.")));
    }
    Ok(())
}

} // verus!
