//! Loading the configuration from the user's configuration directory, as a
//! sequence of steps. The library decides each step and the result; the
//! program touches the file system and reports what it found.

use vstd::prelude::*;
use crate::config::{
    config_of, config_of_lines, interrupted_fault, parse_config, parse_interrupted, Config,
    ParseError, ParseFault,
};
use crate::text::split;

verus! {

/// `std::path::PathBuf`: a path, handed on to the program as it comes;
/// nothing is said of what it holds.
#[verifier::external_type_specification]
#[verifier::external_body]
pub struct ExPathBuf(std::path::PathBuf);

/// The directory of the configuration file, inside the user's
/// configuration directory.
pub const CONFIG_DIRECTORY: &'static str = "ripclip";

/// The name of the configuration file.
pub const CONFIG_FILE: &'static str = "ripclip.conf";

/// What the program is to do next.
#[derive(Debug)]
pub enum LoadStep {
    /// Inside the directory given, make the directory `CONFIG_DIRECTORY`,
    /// whether or not that succeeds, and open `CONFIG_FILE` inside it;
    /// then call `after_open`.
    Open(std::path::PathBuf),
    /// Create the file and write the default text to it, then call
    /// `after_write`.
    WriteDefault,
    /// Loading has ended, with this result.
    Done(Result<Config, ParseError>),
}

/// What the program found when it opened the file.
#[derive(Debug)]
pub enum Opened {
    /// The file could not be opened.
    Missing,
    /// The file was read to its end, and held these bytes.
    Whole(Vec<u8>),
    /// Reading failed after these bytes.
    Interrupted(Vec<u8>, std::io::Error),
}

impl LoadStep {
    /// Whether loading has ended with the default configuration.
    pub open spec fn is_defaults(self) -> bool {
        self matches LoadStep::Done(Ok(config)) && config == Config::initial()
    }
}

/// `dirs::config_dir`: the user's configuration directory, or `None`
/// where the system names none. Nothing is known of the path: it depends on
/// the user and on the system.
#[verifier::external_body]
fn config_dir() -> (r: Option<std::path::PathBuf>) {
    dirs::config_dir()
}

/// The first step: asks for the user's configuration directory, and goes
/// on as `after_directory` says.
pub fn begin() -> (step: LoadStep)
    ensures
        step is Open || step.is_defaults(),
{
    after_directory(config_dir())
}

/// The step after the user's configuration directory was asked for. Where
/// there is none, loading ends with the defaults.
pub fn after_directory(directory: Option<std::path::PathBuf>) -> (step: LoadStep)
    ensures
        match directory {
            Some(path) => step == LoadStep::Open(path),
            None => step.is_defaults(),
        },
{
    match directory {
        Some(path) => LoadStep::Open(path),
        None => LoadStep::Done(Ok(Config::default())),
    }
}

/// The step after the file was opened. A file that was read is parsed, and
/// loading ends with what the parser says. A file that could not be opened
/// is taken to be absent: the default text is to be written.
pub fn after_open(found: Opened) -> (step: LoadStep)
    ensures
        match found {
            Opened::Missing => step is WriteDefault,
            Opened::Whole(bytes) => match step {
                LoadStep::Done(Ok(config)) => config_of(bytes@) == Ok::<Config, ParseFault>(config),
                LoadStep::Done(Err(e)) => config_of(bytes@) == Err::<Config, ParseFault>(e@),
                _ => false,
            },
            Opened::Interrupted(bytes, failure) => step matches LoadStep::Done(Err(e)) && e@
                == interrupted_fault(bytes@) && (config_of_lines(split(bytes@, 10u8).drop_last())
                is Ok ==> e == ParseError::Io(failure)),
        },
{
    match found {
        Opened::Missing => LoadStep::WriteDefault,
        Opened::Whole(bytes) => LoadStep::Done(parse_config(bytes.as_slice())),
        Opened::Interrupted(bytes, failure) => LoadStep::Done(
            Err(parse_interrupted(bytes.as_slice(), failure)),
        ),
    }
}

/// The step after the default text was written, or could not be: either
/// way loading ends with the defaults.
pub fn after_write(written: bool) -> (step: LoadStep)
    ensures
        step.is_defaults(),
{
    LoadStep::Done(Ok(Config::default()))
}

} // verus!
