//! The language-model identifier and its context-window sizes.

use vstd::prelude::*;
use vstd::string::StrSliceExecFns;
use vstd::string::StringExecFns;
use core::str::FromStr;
use crate::textutil::seq_char_prefix;
use crate::textutil::str_eq_str;
use crate::textutil::str_starts_with;

verus! {

/// A model name; only GPT-5 family names are accepted by parsing.
#[derive(Debug)]
pub struct Model(pub String);

impl Clone for Model {
    fn clone(&self) -> (r: Self)
        ensures
            r.0@ == self.0@,
    {
        Model(self.0.clone())
    }
}

impl Default for Model {
    fn default() -> (r: Self)
        ensures
            r.0@ == Seq::<char>::empty(),
    {
        Model(String::new())
    }
}

impl PartialEq for Model {
    fn eq(&self, other: &Self) -> (r: bool) {
        str_eq_str(self.0.as_str(), other.0.as_str())
    }
}

impl vstd::std_specs::cmp::PartialEqSpecImpl for Model {
    open spec fn obeys_eq_spec() -> bool {
        true
    }

    open spec fn eq_spec(&self, other: &Self) -> bool {
        self.0@ == other.0@
    }
}

/// The context-window size a model name implies.
pub open spec fn spec_context_size(name: Seq<char>) -> int {
    if name == "gpt-5-nano"@ {
        128000
    } else if name == "gpt-5-mini"@ {
        128000
    } else if name == "gpt-5"@ {
        200000
    } else if name == "gpt-5-codex"@ {
        128000
    } else if seq_char_prefix(name, "gpt-5"@) {
        200000
    } else {
        usize::MAX as int
    }
}

impl Model {
    /// The model's context window in tokens; unknown GPT-5 variants get
    /// the family default, and anything else is treated as unbounded.
    pub fn context_size(&self) -> (r: usize)
        ensures
            r as int == spec_context_size(self.0@),
    {
        let name = self.0.as_str();
        if str_eq_str(name, "gpt-5-nano") {
            128000
        } else if str_eq_str(name, "gpt-5-mini") {
            128000
        } else if str_eq_str(name, "gpt-5") {
            200000
        } else if str_eq_str(name, "gpt-5-codex") {
            128000
        } else if str_starts_with(name, "gpt-5") {
            200000
        } else {
            usize::MAX
        }
    }
}

impl Model {
    /// Parses a model name: only names of the GPT-5 family are accepted;
    /// anything else earns an error message naming the input and the
    /// supported family.
    pub fn parse(s: &str) -> (r: Result<Model, String>)
        ensures
            r is Ok <==> seq_char_prefix(s@, "gpt-5"@),
            r matches Ok(m) ==> m.0@ == s@,
            r matches Err(e) ==> e@ == "Invalid model '"@ + s@
                + "'. Only GPT-5.x models are supported (e.g., gpt-5, gpt-5-nano, gpt-5-mini, gpt-5-codex)"@,
    {
        if !str_starts_with(s, "gpt-5") {
            let mut msg = String::new();
            msg.append("Invalid model '");
            msg.append(s);
            msg.append(
                "'. Only GPT-5.x models are supported (e.g., gpt-5, gpt-5-nano, gpt-5-mini, gpt-5-codex)",
            );
            proof {
                assert(msg@ =~= "Invalid model '"@ + s@
                    + "'. Only GPT-5.x models are supported (e.g., gpt-5, gpt-5-nano, gpt-5-mini, gpt-5-codex)"@);
            }
            return Err(msg);
        }
        Ok(Model(s.to_owned()))
    }
}

impl FromStr for Model {
    type Err = String;

    fn from_str(s: &str) -> Result<Self, String> {
        Model::parse(s)
    }
}

} // verus!
