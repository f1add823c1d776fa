//! Models and the providers that offer them.
use crate::text;
use vstd::prelude::*;

verus! {

/// How much a model is asked to think before it answers.
#[derive(Debug, Clone, Copy, PartialEq, Eq, Structural)]
pub enum ThinkingEffort {
    Off,
    Low,
    Medium,
    High,
}

/// Which request format a provider speaks.
#[derive(Debug, Clone, Copy, PartialEq, Eq, Structural)]
pub enum Endpoint {
    Anthropic,
    OpenAi,
}

#[derive(Debug, PartialEq, Eq)]
pub struct ModelConfig {
    pub id: String,
    pub name: Option<String>,
    pub limit: u64,
    pub thinking: bool,
}

impl Clone for ModelConfig {
    fn clone(&self) -> (r: Self)
        ensures
            r == *self,
    {
        ModelConfig {
            id: self.id.clone(),
            name: match &self.name {
                Some(n) => Some(n.clone()),
                None => None,
            },
            limit: self.limit,
            thinking: self.thinking,
        }
    }
}

#[derive(Debug, PartialEq, Eq)]
pub struct ProviderProfile {
    pub name: String,
    pub api_key: String,
    pub base_url: String,
    pub endpoint: Endpoint,
    pub models: Vec<ModelConfig>,
}

/// What a run goes by. Providers come with distinct keys.
#[derive(Debug, PartialEq, Eq)]
pub struct Settings {
    pub cwd: String,
    pub active_provider: String,
    pub model: String,
    pub thinking_effort: Option<ThinkingEffort>,
    pub api_key: String,
    pub base_url: String,
    pub endpoint: Endpoint,
    pub providers: Vec<(String, ProviderProfile)>,
    pub system_prompt: Option<String>,
    pub max_turns: Option<usize>,
}

/// How an effort is written down.
pub open spec fn effort_name(effort: ThinkingEffort) -> Seq<char> {
    match effort {
        ThinkingEffort::Off => "none"@,
        ThinkingEffort::Low => "low"@,
        ThinkingEffort::Medium => "medium"@,
        ThinkingEffort::High => "high"@,
    }
}

impl ThinkingEffort {
    pub fn name(self) -> (r: &'static str)
        ensures
            r@ == effort_name(self),
    {
        match self {
            ThinkingEffort::Off => "none",
            ThinkingEffort::Low => "low",
            ThinkingEffort::Medium => "medium",
            ThinkingEffort::High => "high",
        }
    }

    /// The effort that is written `s`.
    pub fn parse(s: &str) -> (r: Option<ThinkingEffort>)
        ensures
            match r {
                Some(e) => effort_name(e) == s@,
                None => forall|e: ThinkingEffort| #[trigger] effort_name(e) != s@,
            },
    {
        if text::same(s, "none") {
            Some(ThinkingEffort::Off)
        } else if text::same(s, "low") {
            Some(ThinkingEffort::Low)
        } else if text::same(s, "medium") {
            Some(ThinkingEffort::Medium)
        } else if text::same(s, "high") {
            Some(ThinkingEffort::High)
        } else {
            None
        }
    }
}

/// Different efforts are written differently, so each is read back from how it is written.
pub proof fn law_effort_names_differ(a: ThinkingEffort, b: ThinkingEffort)
    requires
        effort_name(a) == effort_name(b),
    ensures
        a == b,
{
    reveal_strlit("none");
    reveal_strlit("low");
    reveal_strlit("medium");
    reveal_strlit("high");
    assert("none"@[0] == 'n');
    assert("low"@[0] == 'l');
    assert("medium"@[0] == 'm');
    assert("high"@[0] == 'h');
}

} // verus!
