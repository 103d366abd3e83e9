//! Terminal error conditions of the pipeline and their user-facing text.

use vstd::prelude::*;

verus! {

/// The terminal, user-facing failures of one invocation.
///
/// Each value carries the text it is reported with: the query that matched no
/// facility, the facility whose day has no meals, or the reason the persisted
/// defaults could not be used.
#[derive(Clone, Debug)]
pub enum MensarError {
    FacilityNotFound(String),
    NoDailyMeals(String),
    DefaultsError(String),
}

impl MensarError {
    /// The single `mensar: <message>` line this error is reported with.
    pub fn message(&self) -> (r: String)
        ensures
            r@ == match *self {
                MensarError::FacilityNotFound(q) =>
                    "mensar: could not find facility `"@ + q@ + "`"@,
                MensarError::NoDailyMeals(f) =>
                    "mensar: no daily meals for `"@ + f@ + "`"@,
                MensarError::DefaultsError(m) =>
                    "mensar: unable to load defaults: `"@ + m@ + "`"@,
            },
    {
        let mut out: String = match self {
            MensarError::FacilityNotFound(_) => String::from_str("mensar: could not find facility `"),
            MensarError::NoDailyMeals(_) => String::from_str("mensar: no daily meals for `"),
            MensarError::DefaultsError(_) => String::from_str("mensar: unable to load defaults: `"),
        };
        match self {
            MensarError::FacilityNotFound(q) => out.append(q.as_str()),
            MensarError::NoDailyMeals(f) => out.append(f.as_str()),
            MensarError::DefaultsError(m) => out.append(m.as_str()),
        }
        out.append("`");
        out
    }
}

} // verus!
