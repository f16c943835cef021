//! Budget hierarchy: platform -> org -> agent.
//!
//! The stored codes of budget scopes. The limits, the spending sums and the
//! percentages are amounts in floating point and are handled around the
//! library, next to the database.

use vstd::prelude::*;

use crate::text::same_text;
use crate::types::BudgetScope;

verus! {

/// The code under which a scope is stored.
pub open spec fn scope_code(s: BudgetScope) -> Seq<char> {
    match s {
        BudgetScope::Platform => "platform"@,
        BudgetScope::Org => "org"@,
        BudgetScope::Agent => "agent"@,
    }
}

/// The scope that a stored code names; an unknown code reads as an org.
pub open spec fn scope_from_code(t: Seq<char>) -> BudgetScope {
    if t == "platform"@ {
        BudgetScope::Platform
    } else if t == "agent"@ {
        BudgetScope::Agent
    } else {
        BudgetScope::Org
    }
}

impl BudgetScope {
    /// The code under which the scope is stored.
    pub fn as_str(&self) -> (r: &'static str)
        ensures
            r@ == scope_code(*self),
    {
        match self {
            BudgetScope::Platform => "platform",
            BudgetScope::Org => "org",
            BudgetScope::Agent => "agent",
        }
    }
}

/// Parses a stored scope code; anything that is not a known code is an org.
pub fn scope_from_str(s: &str) -> (r: BudgetScope)
    ensures
        r == scope_from_code(s@),
{
    if same_text(s, "platform") {
        BudgetScope::Platform
    } else if same_text(s, "agent") {
        BudgetScope::Agent
    } else {
        BudgetScope::Org
    }
}

/// Reading back the stored code of a scope gives the scope.
pub proof fn lemma_scope_code_roundtrip(s: BudgetScope)
    ensures
        scope_from_code(scope_code(s)) == s,
{
    reveal_strlit("platform");
    reveal_strlit("org");
    reveal_strlit("agent");
    assert("platform"@[0] != "org"@[0]);
    assert("platform"@[0] != "agent"@[0]);
    assert("org"@[0] != "agent"@[0]);
}

} // verus!
