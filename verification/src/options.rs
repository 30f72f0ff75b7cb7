//! The run options of the tool. Parsing the command line is an I/O concern
//! of the surrounding program; the defaulting of options from a loaded
//! configuration is pure and lives here.

use vstd::prelude::*;
use vstd::pervasive::arbitrary;
use vstd::string::StringExecFns;
use crate::config::Config;
use crate::model::Model;

verus! {

/// The options one run of the tool works under.
#[derive(Clone, Debug)]
pub struct Options {
    pub n: i32,
    pub msg: String,
    pub print_once: bool,
    pub model: Model,
    pub auto_commmit: bool,
    pub check_version_only: bool,
    pub api_endpoint: String,
    pub system_msg: Option<String>,
    pub disable_auto_update_check: bool,
    pub api_key: Option<String>,
    pub reasoning_effort: Option<String>,
    pub verbosity: Option<String>,
    pub debug: bool,
    pub debug_file: Option<String>,
    pub debug_context: bool,
    pub always_select_files: bool,
    pub config_file: Option<String>,
    pub amend: bool,
    pub jj_revision: Option<String>,
    pub jj_rewrite: bool,
}

impl Options {
    /// The options a configuration implies before any command-line flag is
    /// applied.
    pub fn from_config(config: &Config) -> (r: Options)
        ensures
            r.n == config.default_number_of_choices,
            r.msg@ == Seq::<char>::empty(),
            r.print_once == config.disable_print_as_stream,
            r.model.0@ == config.model.0@,
            !r.auto_commmit,
            !r.check_version_only,
            r.api_endpoint@ == config.api_endpoint@,
            r.system_msg is None,
            r.disable_auto_update_check == config.disable_auto_update_check,
            r.api_key is None,
            r.reasoning_effort matches Some(e) && e@ == config.reasoning_effort@,
            r.verbosity matches Some(v) && v@ == config.verbosity@,
            !r.debug,
            r.debug_file is None,
            !r.debug_context,
            !r.always_select_files,
            r.config_file is None,
            !r.amend,
            r.jj_revision is None,
            r.jj_rewrite == config.jj_rewrite_default,
    {
        Options {
            n: config.default_number_of_choices,
            msg: String::new(),
            print_once: config.disable_print_as_stream,
            model: config.model.clone(),
            auto_commmit: false,
            check_version_only: false,
            api_endpoint: config.api_endpoint.clone(),
            system_msg: None,
            disable_auto_update_check: config.disable_auto_update_check,
            api_key: None,
            reasoning_effort: Some(config.reasoning_effort.clone()),
            verbosity: Some(config.verbosity.clone()),
            debug: false,
            debug_file: None,
            debug_context: false,
            always_select_files: false,
            config_file: None,
            amend: false,
            jj_revision: None,
            jj_rewrite: config.jj_rewrite_default,
        }
    }
}

impl<'a> From<&'a Config> for Options {
    fn from(config: &'a Config) -> Self {
        Options::from_config(config)
    }
}

impl<'a> vstd::std_specs::convert::FromSpecImpl<&'a Config> for Options {
    open spec fn obeys_from_spec() -> bool {
        false
    }

    open spec fn from_spec(v: &'a Config) -> Options {
        arbitrary()
    }
}

} // verus!
