//! The tool's configuration: its fields, defaults, and validation. Loading
//! and saving the on-disk file is I/O and lives with the surrounding tool;
//! the rules checked against a loaded configuration live here.

use vstd::prelude::*;
use vstd::string::StrSliceExecFns;
use vstd::string::StringExecFns;
use crate::model::Model;
use crate::textutil::str_eq_str;
use crate::textutil::trim_spec;
use crate::textutil::trim_str;

verus! {

/// One complaint about a configuration field.
pub struct ValidationError {
    pub field: String,
    pub message: String,
}

/// The configuration the surrounding tool loads from disk.
pub struct Config {
    pub model: Model,
    pub api_endpoint: String,
    pub api_key_env_var: String,
    pub default_number_of_choices: i32,
    pub disable_auto_update_check: bool,
    pub disable_print_as_stream: bool,
    pub reasoning_effort: String,
    pub verbosity: String,
    pub jj_rewrite_default: bool,
    pub system_msg: String,
}

/// The default system prompt handed to the model.
pub open spec fn default_system_msg() -> Seq<char> {
    "You are a specialized AI that generates high-quality conventional commit suggestions from git diffs. Your ONLY purpose is to produce properly formatted commits that follow the exact specification at conventionalcommits.org.

# INPUTS
- You will receive a git diff of staged files
- You MAY also receive a line starting with \"Current description:\" that contains the user's own summary/hint
- Additional user messages may request edits or add requirements

# OUTPUT FORMAT (MANDATORY)
- You MUST respond with JSON that satisfies the provided structured-output schema
- Populate the `suggestions` array with exactly the requested number of entries
- Each suggestion object must contain:
  - `title`: the conventional commit header (`<type>[optional scope][!]: <description>`)
  - `body`: optional string (or null) containing a single concise paragraph explaining the WHY behind the change
- Never include Markdown, bullet lists, or explanatory prose outside of the structured fields

# COMMIT PHILOSOPHY
- Prioritize WHY the change exists over WHAT code was touched
- Surface user intent, motivation, and non-obvious implications
- Operate at a higher abstraction level than the diff itself

# VERBOSITY GUIDANCE
- `verbosity = low`: prefer title-only unless context is critically missing
- `verbosity = medium`: include a body when it clarifies motivation
- `verbosity = high`: almost always include a thoughtful body paragraph

# CONVENTIONAL COMMIT RULES
1. Types: feat, fix, docs, style, refac, test, build, ci, chore
2. Scope: optional noun in parentheses describing the impacted area
3. Breaking changes: add `!` before the colon or include a `BREAKING CHANGE:` footer (in body)
4. Description: imperative, lowercase start, no trailing period, focus on intent
5. Body (when present):
   - Blank line between title and body
   - Single paragraph centred on motivation and reasoning
   - Never re-list code changes; explain purpose and impact instead
6. Trust the \"Current description\" hint unless it contradicts the diff. Rephrase it into proper conventional commit style while preserving the core intent.

# EXAMPLES
- feat(auth): implement OAuth2 login flow
  Body: Explain why centralized auth improves security/user experience.
- fix(perf): reduce query latency under load
  Body: Describe the root cause and why the fix works.

# ADDITIONAL INSTRUCTIONS
- Always follow the schema; never emit free-form text
- Respect user edits/revision requests exactly
- If reasoning effort is `none`, keep responses efficient but still valid
- If verbosity is `high`, lean into clear, motivating context without rambling
- Never explain your reasoning or the schema back to the user; just output structured suggestions"@
}

impl Clone for Config {
    fn clone(&self) -> (r: Self)
        ensures
            r.model.0@ == self.model.0@,
            r.api_endpoint@ == self.api_endpoint@,
            r.api_key_env_var@ == self.api_key_env_var@,
            r.default_number_of_choices == self.default_number_of_choices,
            r.disable_auto_update_check == self.disable_auto_update_check,
            r.disable_print_as_stream == self.disable_print_as_stream,
            r.reasoning_effort@ == self.reasoning_effort@,
            r.verbosity@ == self.verbosity@,
            r.jj_rewrite_default == self.jj_rewrite_default,
            r.system_msg@ == self.system_msg@,
    {
        Config {
            model: self.model.clone(),
            api_endpoint: self.api_endpoint.clone(),
            api_key_env_var: self.api_key_env_var.clone(),
            default_number_of_choices: self.default_number_of_choices,
            disable_auto_update_check: self.disable_auto_update_check,
            disable_print_as_stream: self.disable_print_as_stream,
            reasoning_effort: self.reasoning_effort.clone(),
            verbosity: self.verbosity.clone(),
            jj_rewrite_default: self.jj_rewrite_default,
            system_msg: self.system_msg.clone(),
        }
    }
}

impl Default for Config {
    fn default() -> (r: Self)
        ensures
            r.model.0@ == "gpt-5.1"@,
            r.api_endpoint@ == "https://api.openai.com/v1/chat/completions"@,
            r.api_key_env_var@ == "OPENAI_API_KEY"@,
            r.default_number_of_choices == 3,
            !r.disable_auto_update_check,
            !r.disable_print_as_stream,
            r.reasoning_effort@ == "low"@,
            r.verbosity@ == "medium"@,
            !r.jj_rewrite_default,
            r.system_msg@ == default_system_msg(),
    {
        Config {
            model: Model("gpt-5.1".to_owned()),
            api_endpoint: "https://api.openai.com/v1/chat/completions".to_owned(),
            api_key_env_var: "OPENAI_API_KEY".to_owned(),
            default_number_of_choices: 3,
            disable_auto_update_check: false,
            disable_print_as_stream: false,
            reasoning_effort: "low".to_owned(),
            verbosity: "medium".to_owned(),
            jj_rewrite_default: false,
            system_msg: "You are a specialized AI that generates high-quality conventional commit suggestions from git diffs. Your ONLY purpose is to produce properly formatted commits that follow the exact specification at conventionalcommits.org.

# INPUTS
- You will receive a git diff of staged files
- You MAY also receive a line starting with \"Current description:\" that contains the user's own summary/hint
- Additional user messages may request edits or add requirements

# OUTPUT FORMAT (MANDATORY)
- You MUST respond with JSON that satisfies the provided structured-output schema
- Populate the `suggestions` array with exactly the requested number of entries
- Each suggestion object must contain:
  - `title`: the conventional commit header (`<type>[optional scope][!]: <description>`)
  - `body`: optional string (or null) containing a single concise paragraph explaining the WHY behind the change
- Never include Markdown, bullet lists, or explanatory prose outside of the structured fields

# COMMIT PHILOSOPHY
- Prioritize WHY the change exists over WHAT code was touched
- Surface user intent, motivation, and non-obvious implications
- Operate at a higher abstraction level than the diff itself

# VERBOSITY GUIDANCE
- `verbosity = low`: prefer title-only unless context is critically missing
- `verbosity = medium`: include a body when it clarifies motivation
- `verbosity = high`: almost always include a thoughtful body paragraph

# CONVENTIONAL COMMIT RULES
1. Types: feat, fix, docs, style, refac, test, build, ci, chore
2. Scope: optional noun in parentheses describing the impacted area
3. Breaking changes: add `!` before the colon or include a `BREAKING CHANGE:` footer (in body)
4. Description: imperative, lowercase start, no trailing period, focus on intent
5. Body (when present):
   - Blank line between title and body
   - Single paragraph centred on motivation and reasoning
   - Never re-list code changes; explain purpose and impact instead
6. Trust the \"Current description\" hint unless it contradicts the diff. Rephrase it into proper conventional commit style while preserving the core intent.

# EXAMPLES
- feat(auth): implement OAuth2 login flow
  Body: Explain why centralized auth improves security/user experience.
- fix(perf): reduce query latency under load
  Body: Describe the root cause and why the fix works.

# ADDITIONAL INSTRUCTIONS
- Always follow the schema; never emit free-form text
- Respect user edits/revision requests exactly
- If reasoning effort is `none`, keep responses efficient but still valid
- If verbosity is `high`, lean into clear, motivating context without rambling
- Never explain your reasoning or the schema back to the user; just output structured suggestions".to_owned(),
        }
    }
}

/// Whether a URL string parses as an absolute URL.
pub uninterp spec fn url_parse_ok(s: Seq<char>) -> bool;

/// Relies on `url::Url::parse`: whether a string parses as an absolute URL
/// is a pure function of the string.
#[verifier::external_body]
fn is_valid_url(s: &str) -> (r: bool)
    ensures
        r == url_parse_ok(s@),
{
    url::Url::parse(s).is_ok()
}

/// A configuration is acceptable when the model name is non-empty, the
/// endpoint parses as a URL, at least one choice is requested, and the
/// system prompt is not blank.
pub open spec fn spec_config_valid(c: &Config) -> bool {
    &&& c.model.0@.len() > 0
    &&& url_parse_ok(c.api_endpoint@)
    &&& c.default_number_of_choices >= 1
    &&& trim_spec(c.system_msg@).len() > 0
}

/// The complaints a configuration earns, in field order.
pub open spec fn spec_validation_errors(c: &Config) -> Seq<(Seq<char>, Seq<char>)> {
    (if c.model.0@.len() == 0 {
        seq![("model"@, "Model cannot be empty (default: gpt-5.1)"@)]
    } else {
        Seq::empty()
    }) + (if !url_parse_ok(c.api_endpoint@) {
        seq![
            (
                "api_endpoint"@,
                "Invalid URL format (default: https://api.openai.com/v1/chat/completions)"@,
            ),
        ]
    } else {
        Seq::empty()
    }) + (if c.default_number_of_choices < 1 {
        seq![
            (
                "default_number_of_choices"@,
                "Number of choices must be at least 1 (default: 3)"@,
            ),
        ]
    } else {
        Seq::empty()
    }) + (if trim_spec(c.system_msg@).len() == 0 {
        seq![
            (
                "system_msg"@,
                "System message cannot be empty (see default message below)"@,
            ),
        ]
    } else {
        Seq::empty()
    })
}

impl Config {
    /// Checks the configuration and reports every complaint: an empty
    /// model name, an endpoint that is no URL, fewer than one requested
    /// choice, and a blank system prompt, in that order.
    pub fn validate(&self) -> (r: Result<(), Vec<ValidationError>>)
        ensures
            r is Ok <==> spec_config_valid(self),
            match r {
                Ok(_) => true,
                Err(errs) => {
                    &&& errs@.len() == spec_validation_errors(self).len()
                    &&& forall|k: int|
                        0 <= k < errs@.len() ==> ((#[trigger] errs@[k]).field@, errs@[k].message@)
                            == spec_validation_errors(self)[k]
                },
            },
    {
        let mut errors: Vec<ValidationError> = Vec::new();
        if self.model.0.as_str().unicode_len() == 0 {
            errors.push(
                ValidationError {
                    field: "model".to_owned(),
                    message: "Model cannot be empty (default: gpt-5.1)".to_owned(),
                },
            );
        }
        if !is_valid_url(self.api_endpoint.as_str()) {
            errors.push(
                ValidationError {
                    field: "api_endpoint".to_owned(),
                    message:
                        "Invalid URL format (default: https://api.openai.com/v1/chat/completions)".to_owned(),
                },
            );
        }
        if self.default_number_of_choices < 1 {
            errors.push(
                ValidationError {
                    field: "default_number_of_choices".to_owned(),
                    message: "Number of choices must be at least 1 (default: 3)".to_owned(),
                },
            );
        }
        let trimmed = trim_str(self.system_msg.as_str());
        if trimmed.as_str().unicode_len() == 0 {
            errors.push(
                ValidationError {
                    field: "system_msg".to_owned(),
                    message: "System message cannot be empty (see default message below)".to_owned(),
                },
            );
        }
        if errors.len() == 0 {
            proof {
                assert(spec_validation_errors(self).len() == 0);
                if !spec_config_valid(self) {
                    assert(spec_validation_errors(self).len() > 0);
                }
            }
            Ok(())
        } else {
            proof {
                assert(forall|k: int|
                    0 <= k < errors@.len() ==> ((#[trigger] errors@[k]).field@, errors@[
                        k
                    ].message@) == spec_validation_errors(self)[k]);
            }
            Err(errors)
        }
    }
}

/// Whether a system prompt equals the default one.
pub fn is_system_prompt_same_as_default(system_msg: &str) -> (r: bool)
    ensures
        r == (system_msg@ == default_system_msg()),
{
    let default = Config::default();
    str_eq_str(system_msg, default.system_msg.as_str())
}

} // verus!
