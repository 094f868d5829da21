//! Which providers a configuration calls for.

use vstd::prelude::*;

use crate::handler::state::ProviderSlot;
use crate::handler::state::ShellKind;
use crate::text::chars_of;
use crate::text::is_white_space;
use crate::text::law_trimming_takes_blanks_at_the_ends;
use crate::text::same_text;
use crate::text::string_of;
use crate::text::trim_bounds;
use crate::text::trimmed;

verus! {

/// A model that a provider offers.
#[derive(Debug)]
pub struct AiModel {
    pub id: String,
    pub max_tokens: Option<u32>,
}

/// A provider of language models.
#[derive(Debug)]
pub struct AiProviderConfig {
    pub base_url: String,
    /// The name of its interface.
    pub api: String,
    /// 0 where there is none.
    pub thinking_budget: u32,
    pub models: Vec<AiModel>,
}

/// A feature that uses a language model.
#[derive(Debug)]
pub struct AiFeature {
    pub enabled: bool,
    pub model: String,
    pub max_tokens: u32,
}

/// The interface of a provider.
#[derive(Debug, Clone, Copy, PartialEq, Eq, Structural)]
pub enum ApiFormat {
    OpenAiChat,
    OpenAiResponses,
}

/// How a feature talks to its provider.
#[derive(Debug, Clone, Copy, PartialEq, Eq, Structural)]
pub struct FeaturePlan {
    pub api_format: ApiFormat,
    pub max_tokens: u32,
    pub thinking_budget: Option<u32>,
}

/// A shell that completes by itself.
#[derive(Debug, Clone, Copy, PartialEq, Eq, Structural)]
pub enum ShellProvider {
    Fish,
    Zsh,
}

/// What the providers are built from. A feature comes with the provider it names, where
/// there is one.
#[derive(Debug)]
pub struct ProviderSetup {
    pub completion: AiFeature,
    pub completion_provider: Option<AiProviderConfig>,
    pub ask: AiFeature,
    pub ask_provider: Option<AiProviderConfig>,
    pub shell_completions: bool,
}

/// The providers to build.
#[derive(Debug, Clone, Copy, PartialEq, Eq, Structural)]
pub struct ProviderPlan {
    /// Completes the command line while typing.
    pub completion: Option<FeaturePlan>,
    /// Answers on demand.
    pub ask: Option<FeaturePlan>,
    /// Completes as the shell does, and has a completion cache.
    pub shell: Option<ShellProvider>,
}

/// The limit of the first model with the given name that is listed, if it has one; else
/// that of the feature.
pub open spec fn token_limit(models: Seq<AiModel>, feature: AiFeature, from: int) -> u32
    decreases models.len() - from,
{
    if from >= models.len() {
        feature.max_tokens
    } else if models[from].id@ == feature.model@ {
        match models[from].max_tokens {
            Some(limit) => limit,
            None => feature.max_tokens,
        }
    } else {
        token_limit(models, feature, from + 1)
    }
}

/// How a feature talks to its provider. None where it is off, or its provider is missing
/// or has no address.
pub open spec fn feature_plan(
    provider: Option<AiProviderConfig>,
    feature: AiFeature,
) -> Option<FeaturePlan> {
    match provider {
        Some(p) => if feature.enabled && p.base_url@.len() > 0 {
            Some(
                FeaturePlan {
                    api_format: if p.api@ == "openai-responses"@ {
                        ApiFormat::OpenAiResponses
                    } else {
                        ApiFormat::OpenAiChat
                    },
                    max_tokens: token_limit(p.models@, feature, 0),
                    thinking_budget: if p.thinking_budget != 0 {
                        Some(p.thinking_budget)
                    } else {
                        None
                    },
                },
            )
        } else {
            None
        },
        None => None,
    }
}

fn find_token_limit(models: &Vec<AiModel>, feature: &AiFeature) -> (limit: u32)
    ensures
        limit == token_limit(models@, *feature, 0),
{
    let mut i: usize = 0;
    while i < models.len()
        invariant
            i <= models@.len(),
            token_limit(models@, *feature, i as int) == token_limit(models@, *feature, 0),
        decreases models.len() - i,
    {
        if same_text(models[i].id.as_str(), feature.model.as_str()) {
            return match models[i].max_tokens {
                Some(limit) => limit,
                None => feature.max_tokens,
            };
        }
        i = i + 1;
    }
    feature.max_tokens
}

/// Resolves a feature into how it talks to its provider.
pub fn resolve_feature(provider: Option<&AiProviderConfig>, feature: &AiFeature) -> (plan: Option<
    FeaturePlan,
>)
    ensures
        plan == feature_plan(
            match provider {
                Some(p) => Some(*p),
                None => None,
            },
            *feature,
        ),
{
    if !feature.enabled {
        return None;
    }
    let p = match provider {
        Some(p) => p,
        None => {
            return None;
        },
    };
    if p.base_url.as_str().is_empty() {
        return None;
    }
    Some(
        FeaturePlan {
            api_format: if same_text(p.api.as_str(), "openai-responses") {
                ApiFormat::OpenAiResponses
            } else {
                ApiFormat::OpenAiChat
            },
            max_tokens: find_token_limit(&p.models, feature),
            thinking_budget: if p.thinking_budget != 0 {
                Some(p.thinking_budget)
            } else {
                None
            },
        },
    )
}

pub open spec fn shell_provider_of(enabled: bool, kind: ShellKind) -> Option<ShellProvider> {
    match kind {
        ShellKind::Fish if enabled => Some(ShellProvider::Fish),
        ShellKind::Zsh if enabled => Some(ShellProvider::Zsh),
        _ => None,
    }
}

fn shell_provider(enabled: bool, kind: ShellKind) -> (provider: Option<ShellProvider>)
    ensures
        provider == shell_provider_of(enabled, kind),
{
    if !enabled {
        return None;
    }
    match kind {
        ShellKind::Fish => Some(ShellProvider::Fish),
        ShellKind::Zsh => Some(ShellProvider::Zsh),
        _ => None,
    }
}

/// The providers that a configuration calls for.
pub open spec fn provider_plan(setup: ProviderSetup, shell_kind: ShellKind) -> ProviderPlan {
    ProviderPlan {
        completion: feature_plan(setup.completion_provider, setup.completion),
        ask: feature_plan(setup.ask_provider, setup.ask),
        shell: shell_provider_of(setup.shell_completions, shell_kind),
    }
}

/// The providers that a configuration calls for. The two features that use a language
/// model do not depend on each other.
pub fn build_providers(setup: &ProviderSetup, shell_kind: ShellKind) -> (plan: ProviderPlan)
    ensures
        plan == provider_plan(*setup, shell_kind),
{
    let completion_provider = match &setup.completion_provider {
        Some(p) => Some(p),
        None => None,
    };
    let ask_provider = match &setup.ask_provider {
        Some(p) => Some(p),
        None => None,
    };
    ProviderPlan {
        completion: resolve_feature(completion_provider, &setup.completion),
        ask: resolve_feature(ask_provider, &setup.ask),
        shell: shell_provider(setup.shell_completions, shell_kind),
    }
}

impl ProviderPlan {
    /// The asynchronous providers to register: the language model, which runs on every
    /// trigger, then the shell, which only fills the completion cache.
    pub open spec fn slots(self) -> Seq<ProviderSlot> {
        let live = if self.completion is Some {
            seq![ProviderSlot { backfill: false }]
        } else {
            Seq::empty()
        };
        if self.shell is Some {
            live.push(ProviderSlot { backfill: true })
        } else {
            live
        }
    }

    pub fn async_providers(&self) -> (providers: Vec<ProviderSlot>)
        ensures
            providers@ == self.slots(),
    {
        let mut providers: Vec<ProviderSlot> = Vec::new();
        if self.completion.is_some() {
            providers.push(ProviderSlot { backfill: false });
        }
        if self.shell.is_some() {
            providers.push(ProviderSlot { backfill: true });
        }
        assert(providers@ =~= self.slots());
        providers
    }
}

impl ShellProvider {
    /// The name under which the shell's completion cache is kept.
    pub fn name(&self) -> (name: &'static str)
        ensures
            name@ == (match *self {
                ShellProvider::Fish => "fish"@,
                ShellProvider::Zsh => "zsh"@,
            }),
    {
        match self {
            ShellProvider::Fish => "fish",
            ShellProvider::Zsh => "zsh",
        }
    }
}

/// The user's own prompt for completions, where there is one.
pub open spec fn prompt_of(text: Option<Seq<char>>) -> Option<Seq<char>> {
    match text {
        Some(t) => if trimmed(t).len() > 0 {
            Some(trimmed(t))
        } else {
            None
        },
        None => None,
    }
}

/// The user's own prompt for completions, without white space around it. None where there
/// is nothing else in it: then the built-in prompt holds.
pub fn prompt_override(text: Option<&str>) -> (prompt: Option<String>)
    ensures
        (match prompt {
            Some(p) => Some(p@),
            None => None,
        }) == prompt_of(
            match text {
                Some(t) => Some(t@),
                None => None,
            },
        ),
{
    match text {
        Some(t) => {
            let chars = chars_of(t);
            let (start, end) = trim_bounds(&chars);
            if start < end {
                Some(string_of(&chars, start, end))
            } else {
                None
            }
        },
        None => None,
    }
}

// ---- Laws ----

/// A feature that is off needs no provider, and one whose provider has no address is off.
pub proof fn law_unusable_feature_is_off(provider: Option<AiProviderConfig>, feature: AiFeature)
    ensures
        !feature.enabled ==> feature_plan(provider, feature) is None,
        provider is None ==> feature_plan(provider, feature) is None,
        provider matches Some(p) ==> p.base_url@.len() == 0 ==> feature_plan(
            provider,
            feature,
        ) is None,
{
}

proof fn lemma_token_limit_skips(models: Seq<AiModel>, feature: AiFeature, from: int, to: int)
    requires
        0 <= from <= to <= models.len(),
        forall|i: int| from <= i < to ==> (#[trigger] models[i]).id@ != feature.model@,
    ensures
        token_limit(models, feature, from) == token_limit(models, feature, to),
    decreases to - from,
{
    if from < to {
        lemma_token_limit_skips(models, feature, from + 1, to);
    }
}

/// The limit is that of the first model of the feature's name, whatever stands behind it;
/// the feature's own limit holds where that model has none, and where there is no such model.
pub proof fn law_model_limit_holds_before_the_features(
    front: Seq<AiModel>,
    model: AiModel,
    rest: Seq<AiModel>,
    feature: AiFeature,
)
    requires
        forall|i: int| 0 <= i < front.len() ==> (#[trigger] front[i]).id@ != feature.model@,
        model.id@ == feature.model@,
    ensures
        model.max_tokens matches Some(limit) ==> token_limit(front.push(model) + rest, feature, 0)
            == limit,
        model.max_tokens is None ==> token_limit(front.push(model) + rest, feature, 0)
            == feature.max_tokens,
        token_limit(front, feature, 0) == feature.max_tokens,
{
    let all = front.push(model) + rest;
    let n = front.len() as int;
    assert forall|i: int| 0 <= i < n implies (#[trigger] all[i]).id@ != feature.model@ by {
        assert(all[i] == front[i]);
    }
    assert(all[n] == model);
    lemma_token_limit_skips(all, feature, 0, n);
    lemma_token_limit_skips(front, feature, 0, n);
}

/// A feature that is on, with a provider that has an address, talks to it: by the interface
/// that the provider names, and with its budget where it has one.
pub proof fn law_usable_feature_is_on(provider: AiProviderConfig, feature: AiFeature)
    requires
        feature.enabled,
        provider.base_url@.len() > 0,
    ensures
        feature_plan(Some(provider), feature) matches Some(plan) && {
            &&& provider.api@ == "openai-responses"@ ==> plan.api_format
                == ApiFormat::OpenAiResponses
            &&& provider.api@ != "openai-responses"@ ==> plan.api_format == ApiFormat::OpenAiChat
            &&& provider.thinking_budget == 0 ==> plan.thinking_budget is None
            &&& provider.thinking_budget > 0 ==> plan.thinking_budget == Some(
                provider.thinking_budget,
            )
            &&& plan.max_tokens == token_limit(provider.models@, feature, 0)
        },
{
}

/// Fish and zsh complete by themselves, each by its own provider, where that is on; no
/// other shell does.
pub proof fn law_shells_complete_where_switched_on(kind: ShellKind)
    ensures
        shell_provider_of(true, ShellKind::Fish) == Some(ShellProvider::Fish),
        shell_provider_of(true, ShellKind::Zsh) == Some(ShellProvider::Zsh),
        kind != ShellKind::Fish && kind != ShellKind::Zsh ==> shell_provider_of(true, kind) is None,
        shell_provider_of(false, kind) is None,
{
}

/// Each of the three providers is planned from its own settings.
pub proof fn law_features_are_planned_apart(
    a: ProviderSetup,
    b: ProviderSetup,
    kind: ShellKind,
)
    ensures
        a.completion == b.completion && a.completion_provider == b.completion_provider
            ==> provider_plan(a, kind).completion == provider_plan(b, kind).completion,
        a.ask == b.ask && a.ask_provider == b.ask_provider ==> provider_plan(a, kind).ask
            == provider_plan(b, kind).ask,
        provider_plan(a, kind).completion == feature_plan(a.completion_provider, a.completion),
        provider_plan(a, kind).ask == feature_plan(a.ask_provider, a.ask),
        provider_plan(a, kind).shell == shell_provider_of(a.shell_completions, kind),
{
}

/// The language model runs on every trigger, and in front of the shell, which only fills
/// the cache. What answers on demand is none of them.
pub proof fn law_model_runs_in_front_of_the_shell(
    plan: FeaturePlan,
    ask: Option<FeaturePlan>,
    shell: ShellProvider,
)
    ensures
        (ProviderPlan { completion: Some(plan), ask, shell: Some(shell) }).slots() == seq![
            ProviderSlot { backfill: false },
            ProviderSlot { backfill: true },
        ],
        (ProviderPlan { completion: Some(plan), ask, shell: None }).slots() == seq![
            ProviderSlot { backfill: false },
        ],
        (ProviderPlan { completion: None, ask, shell: Some(shell) }).slots() == seq![
            ProviderSlot { backfill: true },
        ],
        (ProviderPlan { completion: None, ask, shell: None }).slots().len() == 0,
{
    assert((ProviderPlan { completion: Some(plan), ask, shell: Some(shell) }).slots() =~= seq![
        ProviderSlot { backfill: false },
        ProviderSlot { backfill: true },
    ]);
    assert((ProviderPlan { completion: None, ask, shell: Some(shell) }).slots() =~= seq![
        ProviderSlot { backfill: true },
    ]);
}

/// White space around a prompt is no part of it: a prompt of nothing else is none, and any
/// other holds without it.
pub proof fn law_prompt_is_taken_without_blanks_around(
    before: Seq<char>,
    prompt: Seq<char>,
    behind: Seq<char>,
)
    requires
        forall|i: int| 0 <= i < before.len() ==> is_white_space(#[trigger] before[i]),
        forall|i: int| 0 <= i < behind.len() ==> is_white_space(#[trigger] behind[i]),
        prompt.len() > 0,
        !is_white_space(prompt[0]),
        !is_white_space(prompt.last()),
    ensures
        prompt_of(Some(before + prompt + behind)) == Some(prompt),
        prompt_of(Some(before)) is None,
        prompt_of(None) is None,
{
    let none = Seq::<char>::empty();
    law_trimming_takes_blanks_at_the_ends(before, prompt, behind);
    law_trimming_takes_blanks_at_the_ends(before, none, none);
    assert(before + none + none =~= before);
}

} // verus!
