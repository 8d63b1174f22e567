use vstd::prelude::*;
use crate::error::ConfigError;
use crate::text::{ascii_lowercase, lowercase_equals};

verus! {

/// The `reasoning.effort` values that the proxy can inject into a request.
#[derive(Debug, Copy, Clone, PartialEq, Eq, Structural)]
pub enum ReasoningEffort {
    Minimal,
    Low,
    Medium,
    High,
    XHigh,
}

impl ReasoningEffort {
    /// The lowercase wire name of the effort.
    pub open spec fn name(self) -> Seq<char> {
        match self {
            ReasoningEffort::Minimal => "minimal"@,
            ReasoningEffort::Low => "low"@,
            ReasoningEffort::Medium => "medium"@,
            ReasoningEffort::High => "high"@,
            ReasoningEffort::XHigh => "xhigh"@,
        }
    }

    pub fn as_str(self) -> (r: &'static str)
        ensures
            r@ == self.name(),
    {
        match self {
            ReasoningEffort::Minimal => "minimal",
            ReasoningEffort::Low => "low",
            ReasoningEffort::Medium => "medium",
            ReasoningEffort::High => "high",
            ReasoningEffort::XHigh => "xhigh",
        }
    }

    /// Reads an effort from its name, ignoring ASCII case, as `FromStr` does.
    pub fn from_name(value: &str) -> (r: Result<ReasoningEffort, ConfigError>)
        ensures
            match r {
                Ok(e) => parse_effort(value@) == Some(e),
                Err(err) => parse_effort(value@) is None && err@ == crate::error::ConfigErrorView::InvalidReasoningEffort(value@),
            },
    {
        if lowercase_equals(value, "minimal") {
            Ok(ReasoningEffort::Minimal)
        } else if lowercase_equals(value, "low") {
            Ok(ReasoningEffort::Low)
        } else if lowercase_equals(value, "medium") {
            Ok(ReasoningEffort::Medium)
        } else if lowercase_equals(value, "high") {
            Ok(ReasoningEffort::High)
        } else if lowercase_equals(value, "xhigh") {
            Ok(ReasoningEffort::XHigh)
        } else {
            Err(ConfigError::InvalidReasoningEffort(String::from_str(value)))
        }
    }
}

/// The effort that a name stands for, once lowercased, if any.
pub open spec fn parse_effort(s: Seq<char>) -> Option<ReasoningEffort> {
    let l = ascii_lowercase(s);
    if l == "minimal"@ {
        Some(ReasoningEffort::Minimal)
    } else if l == "low"@ {
        Some(ReasoningEffort::Low)
    } else if l == "medium"@ {
        Some(ReasoningEffort::Medium)
    } else if l == "high"@ {
        Some(ReasoningEffort::High)
    } else if l == "xhigh"@ {
        Some(ReasoningEffort::XHigh)
    } else {
        None
    }
}

impl core::str::FromStr for ReasoningEffort {
    type Err = ConfigError;

    /// Reads an effort from its name, ignoring ASCII case.
    fn from_str(value: &str) -> (r: Result<ReasoningEffort, ConfigError>)
        ensures
            match r {
                Ok(e) => parse_effort(value@) == Some(e),
                Err(err) => parse_effort(value@) is None && err@ == crate::error::ConfigErrorView::InvalidReasoningEffort(value@),
            },
    {
        ReasoningEffort::from_name(value)
    }
}

/// All efforts, in the order the menus and listings show them.
pub fn reasoning_efforts() -> (r: Vec<ReasoningEffort>)
    ensures
        r@ == seq![
            ReasoningEffort::Minimal,
            ReasoningEffort::Low,
            ReasoningEffort::Medium,
            ReasoningEffort::High,
            ReasoningEffort::XHigh,
        ],
{
    let mut v = Vec::new();
    v.push(ReasoningEffort::Minimal);
    v.push(ReasoningEffort::Low);
    v.push(ReasoningEffort::Medium);
    v.push(ReasoningEffort::High);
    v.push(ReasoningEffort::XHigh);
    assert(v@ =~= seq![
        ReasoningEffort::Minimal,
        ReasoningEffort::Low,
        ReasoningEffort::Medium,
        ReasoningEffort::High,
        ReasoningEffort::XHigh,
    ]);
    v
}

/// Reading back the name of an effort gives that effort.
pub proof fn lemma_effort_name_round_trip(e: ReasoningEffort)
    ensures
        parse_effort(e.name()) == Some(e),
{
    reveal_strlit("minimal");
    reveal_strlit("low");
    reveal_strlit("medium");
    reveal_strlit("high");
    reveal_strlit("xhigh");
    let n = e.name();
    assert(ascii_lowercase(n) =~= n);
}


/// Effort names are read without regard to ASCII case.
pub proof fn lemma_effort_parse_ignores_case(s: Seq<char>)
    ensures
        parse_effort(s) == parse_effort(ascii_lowercase(s)),
{
    let l = ascii_lowercase(s);
    assert forall|i: int| 0 <= i < l.len() implies #[trigger] ascii_lowercase(l)[i] == l[i] by {
        let c = s[i];
        if 'A' <= c && c <= 'Z' {
            let u = (c as u32) + 32;
            assert(97 <= u <= 122);
            assert((u as char) as u32 == u);
        }
    }
    assert(ascii_lowercase(l) =~= l);
}

} // verus!
