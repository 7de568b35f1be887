use cmem::errors::CustomError;
use cmem::settings::{check_embedding_input, EmbeddingModel, EmbeddingProviderSettings, OpenAIEmbeddingProvider};

fn create_test_settings(api_key: &str) -> EmbeddingProviderSettings {
    EmbeddingProviderSettings::new(api_key.to_string(), EmbeddingModel::TextEmbedding3Large)
}

#[test]
fn openai_embedding_provider_test_new_with_valid_api() {
    let settings = create_test_settings("dummy_key");
    let provider = OpenAIEmbeddingProvider::new(settings);
    assert!(provider.is_ok(), "OpenAIEmbeddingProvider initialization should succeed with valid API key.");
}

#[test]
fn openai_embedding_provider_test_new_with_empty_api() {
    let settings = create_test_settings("");
    let provider = OpenAIEmbeddingProvider::new(settings);
    assert!(provider.is_err(), "OpenAIEmbeddingProvider initialization should fail with empty API key.");
}

#[test]
fn provider_keeps_key_and_model_and_refuses_blank_keys() {
    let provider = OpenAIEmbeddingProvider::new(create_test_settings("sk-test")).unwrap();
    assert_eq!(provider.api_key(), "sk-test");
    assert_eq!(provider.model(), "text-embedding-3-large");
    assert_eq!(
        OpenAIEmbeddingProvider::new(create_test_settings(" \t\n")).unwrap_err(),
        CustomError::EmbeddingInitializationError("OpenAI API key is not provided.".to_owned())
    );
}

#[test]
fn openai_embedding_provider_test_generate_embedding_with_empty_text() {
    let settings = create_test_settings("valid_key");
    let _provider = OpenAIEmbeddingProvider::new(settings).unwrap();
    let result = check_embedding_input("  ");
    assert!(result.is_err(), "Empty text should return an error.");
}
