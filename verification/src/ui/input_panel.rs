//! Input panel state: keywords, industry, brand personality and generation
//! controls.

use vstd::prelude::*;
use crate::llm::{BrandPersonality, CreativityMode, SuggestionRequest};
use crate::text::{trim, trimmed};

verus! {

/// Persistent state of the input panel.
#[derive(Debug, Clone)]
pub struct InputPanelState {
    pub keywords: String,
    pub industry: String,
    pub personality: BrandPersonality,
    pub max_length: usize,
    pub count: usize,
    pub creativity: CreativityMode,
    pub status_message: Option<String>,
}

impl Default for InputPanelState {
    fn default() -> (r: Self)
        ensures
            r.keywords@.len() == 0,
            r.industry@.len() == 0,
            r.personality == BrandPersonality::Bold,
            r.max_length == 14,
            r.count == 15,
            r.creativity == CreativityMode::Creative,
            r.status_message is None,
    {
        InputPanelState {
            keywords: String::new(),
            industry: String::new(),
            personality: BrandPersonality::Bold,
            max_length: 14,
            count: 15,
            creativity: CreativityMode::Creative,
            status_message: None,
        }
    }
}

impl InputPanelState {
    /// The suggestion request that the panel describes.
    pub fn to_request(&self) -> (r: SuggestionRequest)
        ensures
            r.keywords == self.keywords,
            r.industry == self.industry,
            r.personality == self.personality,
            r.max_length == self.max_length,
            r.count == self.count,
            r.creativity == self.creativity,
    {
        SuggestionRequest {
            keywords: self.keywords.clone(),
            industry: self.industry.clone(),
            personality: self.personality,
            max_length: self.max_length,
            count: self.count,
            creativity: self.creativity,
        }
    }

    /// Whether the input is valid for generation: the keywords are not blank.
    pub fn is_valid(&self) -> (r: bool)
        ensures
            r == (trimmed(self.keywords@).len() > 0),
    {
        !trim(self.keywords.as_str()).is_empty()
    }
}

} // verus!
