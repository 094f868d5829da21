//! What an asynchronous completion provider reports.

use vstd::prelude::*;

use crate::model::Suggestion;

verus! {

#[derive(Debug)]
pub enum DynamicResult {
    Loaded { provider: ProviderTag, suggestions: Vec<Suggestion> },
    Empty { provider: ProviderTag },
    Error { provider: ProviderTag, message: String },
}

#[derive(Debug, PartialEq, Eq)]
pub enum ProviderTag {
    /// Asynchronous providers (language model, shell-native completions).
    Async(String),
}

impl ProviderTag {
    /// The provider's name.
    pub open spec fn name(&self) -> String {
        match *self {
            ProviderTag::Async(name) => name,
        }
    }

    /// The name under which the provider is shown to the user.
    pub fn to_string(&self) -> (name: String)
        ensures
            name == self.name(),
    {
        match self {
            ProviderTag::Async(name) => name.clone(),
        }
    }
}

/// What a provider reports that has ended so.
pub open spec fn result_of(
    provider: String,
    outcome: Result<Vec<Suggestion>, String>,
) -> DynamicResult {
    match outcome {
        Ok(rows) => if rows@.len() == 0 {
            DynamicResult::Empty { provider: ProviderTag::Async(provider) }
        } else {
            DynamicResult::Loaded { provider: ProviderTag::Async(provider), suggestions: rows }
        },
        Err(e) => DynamicResult::Error { provider: ProviderTag::Async(provider), message: e },
    }
}

/// The result of one provider: an empty row of suggestions is no result.
pub fn provider_result(
    provider: String,
    outcome: Result<Vec<Suggestion>, String>,
) -> (result: DynamicResult)
    ensures
        result == result_of(provider, outcome),
{
    let tag = ProviderTag::Async(provider);
    match outcome {
        Ok(rows) => if rows.len() == 0 {
            DynamicResult::Empty { provider: tag }
        } else {
            DynamicResult::Loaded { provider: tag, suggestions: rows }
        },
        Err(message) => DynamicResult::Error { provider: tag, message },
    }
}

// ---- Laws ----

/// A provider reports under its own name: the rows it has loaded, that there are none, or
/// why it has failed.
pub proof fn law_provider_reports_under_its_name(
    provider: String,
    rows: Vec<Suggestion>,
    message: String,
)
    ensures
        rows@.len() > 0 ==> (result_of(provider, Ok(rows)) matches DynamicResult::Loaded {
            provider: tag,
            suggestions,
        } && tag.name() == provider && suggestions == rows),
        rows@.len() == 0 ==> (result_of(provider, Ok(rows)) matches DynamicResult::Empty {
            provider: tag,
        } && tag.name() == provider),
        result_of(provider, Err(message)) matches DynamicResult::Error {
            provider: tag,
            message: why,
        } && tag.name() == provider && why == message,
{
}

} // verus!
