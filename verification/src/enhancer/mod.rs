//! Prompt enhancement: provider kinds and the text handling around the providers.
pub mod codex_provider;
pub mod enhancer;
pub mod provider;
