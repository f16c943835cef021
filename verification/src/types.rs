//! Core enumerations of the billing domain and their text codes.

use vstd::prelude::*;

use crate::text::same_text;

verus! {

/// Category of a metered action.
#[derive(Debug, Clone, Copy, PartialEq, Eq, Structural)]
pub enum ActionCategory {
    ApiCall,
    TokenInference,
    ComputeTime,
    Storage,
}

/// The stored code of a category.
pub open spec fn category_code(c: ActionCategory) -> Seq<char> {
    match c {
        ActionCategory::ApiCall => "api_call"@,
        ActionCategory::TokenInference => "token_inference"@,
        ActionCategory::ComputeTime => "compute_time"@,
        ActionCategory::Storage => "storage"@,
    }
}

/// The category that a stored code names; an unknown code reads as an API call.
pub open spec fn category_from_code(t: Seq<char>) -> ActionCategory {
    if t == "token_inference"@ {
        ActionCategory::TokenInference
    } else if t == "compute_time"@ {
        ActionCategory::ComputeTime
    } else if t == "storage"@ {
        ActionCategory::Storage
    } else {
        ActionCategory::ApiCall
    }
}

impl ActionCategory {
    /// The code under which the category is stored (its display form).
    pub fn as_str(&self) -> (r: &'static str)
        ensures
            r@ == category_code(*self),
    {
        match self {
            ActionCategory::ApiCall => "api_call",
            ActionCategory::TokenInference => "token_inference",
            ActionCategory::ComputeTime => "compute_time",
            ActionCategory::Storage => "storage",
        }
    }

    /// Parses a stored code; anything that is not a known code is an API call.
    pub fn from_str_value(s: &str) -> (r: Self)
        ensures
            r == category_from_code(s@),
    {
        if same_text(s, "token_inference") {
            ActionCategory::TokenInference
        } else if same_text(s, "compute_time") {
            ActionCategory::ComputeTime
        } else if same_text(s, "storage") {
            ActionCategory::Storage
        } else {
            ActionCategory::ApiCall
        }
    }
}

/// Reading back the stored code of a category gives the category.
pub proof fn lemma_category_code_roundtrip(c: ActionCategory)
    ensures
        category_from_code(category_code(c)) == c,
{
    reveal_strlit("api_call");
    reveal_strlit("token_inference");
    reveal_strlit("compute_time");
    reveal_strlit("storage");
    assert("api_call"@[0] != "token_inference"@[0]);
    assert("api_call"@[0] != "compute_time"@[0]);
    assert("api_call"@[0] != "storage"@[0]);
    assert("token_inference"@[0] != "compute_time"@[0]);
    assert("token_inference"@[0] != "storage"@[0]);
    assert("compute_time"@[0] != "storage"@[0]);
}

/// Budget scope: platform, org, or agent level.
#[derive(Debug, Clone, Copy, PartialEq, Eq, Structural)]
pub enum BudgetScope {
    Platform,
    Org,
    Agent,
}

/// Alert severity level.
#[derive(Debug, Clone, Copy, PartialEq, Eq, Structural)]
pub enum AlertLevel {
    Warning,
    High,
    Critical,
}

} // verus!
