use vstd::prelude::*;
use crate::text::clone_string;

verus! {

/// The project descriptor a configuration file carries: the entry source
/// file and the debug flag.
pub struct CompilerConfig {
    pub main_module_path: String,
    pub is_debug: bool,
}

/// The parsed command line: an optional subcommand, a configuration path and
/// a debug flag.
pub struct Args {
    pub command: Option<Command>,
    pub config_path: String,
    pub is_debug: bool,
}

/// The subcommands the tool accepts.
pub enum Command {
    Build { file: Option<String> },
    Init { dir: String },
}

/// The configuration path a run uses: the one given on the command line when
/// it differs from the default, else the default.
pub fn effective_config_path(args: &Args, default_path: &str) -> (r: String)
    ensures
        r@ == (if args.config_path@ != default_path@ {
            args.config_path@
        } else {
            default_path@
        }),
{
    if !(args.config_path == String::from_str(default_path)) {
        clone_string(&args.config_path)
    } else {
        String::from_str(default_path)
    }
}

/// The source file a build runs on: the file named on the command line when
/// one is given, else the configured entry module.
pub fn build_target(file: &Option<String>, config: &CompilerConfig) -> (r: String)
    ensures
        r@ == (match file {
            Some(f) => f@,
            None => config.main_module_path@,
        }),
{
    match file {
        Some(f) => clone_string(f),
        None => clone_string(&config.main_module_path),
    }
}

} // verus!
