//! Settings of a name-suggestion request and of the model backends.

use vstd::prelude::*;

pub mod ollama;
pub mod openrouter;
pub mod prompt;



verus! {

/// How freely the model may invent names (mapped to a sampling temperature
/// by the caller).
#[derive(Debug, Clone, Copy, PartialEq, Eq, Structural)]
pub enum CreativityMode {
    /// Deterministic, safe suggestions.
    Conservative,
    /// More creative, diverse suggestions.
    Creative,
}

impl Default for CreativityMode {
    fn default() -> (r: Self)
        ensures
            r == CreativityMode::Creative,
    {
        CreativityMode::Creative
    }
}

/// Brand personality archetypes that guide the naming style.
#[derive(Debug, Clone, Copy, PartialEq, Eq, Structural)]
pub enum BrandPersonality {
    Minimalist,
    Bold,
    Traditional,
    Playful,
    Luxurious,
    Technical,
    Friendly,
}

/// The display label of a personality.
pub open spec fn personality_label(p: BrandPersonality) -> Seq<char> {
    match p {
        BrandPersonality::Minimalist => "Minimalist"@,
        BrandPersonality::Bold => "Bold"@,
        BrandPersonality::Traditional => "Traditional"@,
        BrandPersonality::Playful => "Playful"@,
        BrandPersonality::Luxurious => "Luxurious"@,
        BrandPersonality::Technical => "Technical"@,
        BrandPersonality::Friendly => "Friendly"@,
    }
}

impl BrandPersonality {
    /// Every personality, in display order.
    pub const ALL: [BrandPersonality; 7] = [
        BrandPersonality::Minimalist,
        BrandPersonality::Bold,
        BrandPersonality::Traditional,
        BrandPersonality::Playful,
        BrandPersonality::Luxurious,
        BrandPersonality::Technical,
        BrandPersonality::Friendly,
    ];

    pub fn label(self) -> (r: &'static str)
        ensures
            r@ == personality_label(self),
    {
        match self {
            BrandPersonality::Minimalist => "Minimalist",
            BrandPersonality::Bold => "Bold",
            BrandPersonality::Traditional => "Traditional",
            BrandPersonality::Playful => "Playful",
            BrandPersonality::Luxurious => "Luxurious",
            BrandPersonality::Technical => "Technical",
            BrandPersonality::Friendly => "Friendly",
        }
    }
}

impl Default for BrandPersonality {
    fn default() -> (r: Self)
        ensures
            r == BrandPersonality::Bold,
    {
        BrandPersonality::Bold
    }
}

/// A request to generate domain name suggestions.
#[derive(Debug, Clone)]
pub struct SuggestionRequest {
    /// Comma-separated keywords describing the brand or product.
    pub keywords: String,
    /// Industry or niche (e.g. "Fintech", "SaaS").
    pub industry: String,
    /// Desired brand personality.
    pub personality: BrandPersonality,
    /// Maximum character length for suggested names (excluding TLD).
    pub max_length: usize,
    /// Number of suggestions to generate.
    pub count: usize,
    /// Creativity mode.
    pub creativity: CreativityMode,
}

impl Default for SuggestionRequest {
    fn default() -> (r: Self)
        ensures
            r.keywords@.len() == 0,
            r.industry@.len() == 0,
            r.personality == BrandPersonality::Bold,
            r.max_length == 14,
            r.count == 15,
            r.creativity == CreativityMode::Creative,
    {
        SuggestionRequest {
            keywords: String::new(),
            industry: String::new(),
            personality: BrandPersonality::default(),
            max_length: 14,
            count: 15,
            creativity: CreativityMode::default(),
        }
    }
}

/// Which model backend to use.
#[derive(Debug, Clone, PartialEq, Eq, Structural)]
pub enum LlmProviderKind {
    OpenRouter,
    Ollama,
}

/// The display label of a backend.
pub open spec fn provider_label(k: LlmProviderKind) -> Seq<char> {
    match k {
        LlmProviderKind::OpenRouter => "OpenRouter (Free Tier)"@,
        LlmProviderKind::Ollama => "Ollama (Local)"@,
    }
}

impl LlmProviderKind {
    pub fn label(&self) -> (r: &'static str)
        ensures
            r@ == provider_label(*self),
    {
        match self {
            LlmProviderKind::OpenRouter => "OpenRouter (Free Tier)",
            LlmProviderKind::Ollama => "Ollama (Local)",
        }
    }
}

impl Default for LlmProviderKind {
    fn default() -> (r: Self)
        ensures
            r == LlmProviderKind::OpenRouter,
    {
        LlmProviderKind::OpenRouter
    }
}

} // verus!
