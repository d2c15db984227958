//! The config file: its template, its reading, and what it is asked for.
use crate::cli::Cli;
use crate::fault::{ErrorReport, IoError};
use crate::text::copy_of;
use vstd::prelude::*;

verus! {

/// What a deletion reads from the config file.
#[derive(Debug)]
pub struct CleanerConfig {
    pub paths: Vec<String>,
}

/// What a move reads from the config file.
#[derive(Debug)]
pub struct MoveConfig {
    pub move_target_dir: Option<String>,
}

/// The config file that a user starts from.
pub open spec fn template() -> Seq<char> {
    "# Used by `move-link` when --target-dir is not provided.\nmove_target_dir = \"D:\\\\archive\"\n\n# Used by delete mode when --path is not provided.\npaths = [\n  \"C:\\\\Windows\\\\Temp\\\\old-cache.tmp\",\n  \"C:\\\\Users\\\\Public\\\\Downloads\\\\to-delete\",\n]\n"@
}

/// What to write to `path`. A file that is there is replaced only by force.
pub fn write_template_config(path: &str, exists: bool, force: bool) -> (content: Result<
    &'static str,
    ErrorReport,
>)
    ensures
        if exists && !force {
            content matches Err(report) && report.cause is None && report.message@
                == "template file already exists at "@ + path@ + " (use --force to overwrite)"@
        } else {
            content matches Ok(text) && text@ == template()
        },
{
    if exists && !force {
        let message = "template file already exists at ".to_owned().concat(path).concat(
            " (use --force to overwrite)",
        );
        return Err(ErrorReport::plain(message));
    }
    Ok(
        "# Used by `move-link` when --target-dir is not provided.\nmove_target_dir = \"D:\\\\archive\"\n\n# Used by delete mode when --path is not provided.\npaths = [\n  \"C:\\\\Windows\\\\Temp\\\\old-cache.tmp\",\n  \"C:\\\\Users\\\\Public\\\\Downloads\\\\to-delete\",\n]\n",
    )
}

/// How writing the template to `path` ended.
pub fn template_written(path: &str, written: Result<(), IoError>) -> (result: Result<
    (),
    ErrorReport,
>)
    ensures
        match written {
            Ok(_) => result is Ok,
            Err(err) => result matches Err(report) && report.cause == Some(err.text)
                && report.message@ == "failed to write template config at "@ + path@,
        },
{
    match written {
        Ok(_) => Ok(()),
        Err(err) => {
            let message = "failed to write template config at ".to_owned().concat(path);
            Err(ErrorReport::because(message, err.text))
        },
    }
}

/// The text of the config file at `path`, given how reading it ended.
pub fn read_config(path: &str, raw: Result<String, IoError>) -> (text: Result<
    String,
    ErrorReport,
>)
    ensures
        match raw {
            Ok(content) => text == Ok::<String, ErrorReport>(content),
            Err(err) => text matches Err(report) && report.cause == Some(err.text)
                && report.message@ == "failed to read config at "@ + path@,
        },
{
    match raw {
        Ok(content) => Ok(content),
        Err(err) => {
            let message = "failed to read config at ".to_owned().concat(path);
            Err(ErrorReport::because(message, err.text))
        },
    }
}

/// The values in the config file at `path`, given how parsing it ended.
pub fn parse_config<T>(path: &str, parsed: Result<T, String>) -> (config: Result<T, ErrorReport>)
    ensures
        match parsed {
            Ok(value) => config == Ok::<T, ErrorReport>(value),
            Err(cause) => config matches Err(report) && report.cause == Some(cause)
                && report.message@ == "failed to parse TOML config at "@ + path@,
        },
{
    match parsed {
        Ok(value) => Ok(value),
        Err(cause) => {
            let message = "failed to parse TOML config at ".to_owned().concat(path);
            Err(ErrorReport::because(message, cause))
        },
    }
}

/// Where the paths to delete come from.
#[derive(Debug)]
pub enum TargetPaths {
    /// The command line.
    Direct(Vec<String>),
    /// The config file at this path.
    InConfig(String),
}

/// Paths on the command line win over the config file, which is then not read.
pub fn resolve_target_paths(cli: &Cli) -> (targets: TargetPaths)
    ensures
        if cli.paths@.len() > 0 {
            targets matches TargetPaths::Direct(paths) && paths@ == cli.paths@
        } else {
            targets == TargetPaths::InConfig(cli.config)
        },
{
    if cli.paths.len() > 0 {
        TargetPaths::Direct(copy_of(&cli.paths))
    } else {
        TargetPaths::InConfig(cli.config.clone())
    }
}

/// Where the directory to move to comes from.
#[derive(Debug)]
pub enum TargetDir {
    /// The command line.
    Given(String),
    /// The config file at this path.
    InConfig(String),
}

/// A directory on the command line wins over the config file, and must not be
/// empty.
pub fn resolve_move_target_dir(config_path: &String, override_dir: Option<String>) -> (target:
    Result<TargetDir, ErrorReport>)
    ensures
        match override_dir {
            Some(dir) => if dir@.len() == 0 {
                target matches Err(report) && report.cause is None && report.message@
                    == "target directory argument cannot be empty"@
            } else {
                target == Ok::<TargetDir, ErrorReport>(TargetDir::Given(dir))
            },
            None => target == Ok::<TargetDir, ErrorReport>(TargetDir::InConfig(*config_path)),
        },
{
    match override_dir {
        Some(dir) => {
            if dir.as_str().is_empty() {
                return Err(
                    ErrorReport::plain("target directory argument cannot be empty".to_owned()),
                );
            }
            Ok(TargetDir::Given(dir))
        },
        None => Ok(TargetDir::InConfig(config_path.clone())),
    }
}

/// The directory to move to that a config file names. It must not be empty.
pub fn configured_target_dir(config: MoveConfig) -> (dir: Result<String, ErrorReport>)
    ensures
        match config.move_target_dir {
            Some(named) if named@.len() > 0 => dir == Ok::<String, ErrorReport>(named),
            _ => dir matches Err(report) && report.cause is None && report.message@
                == "move target directory is not set; pass --target-dir or add move_target_dir to config"@,
        },
{
    match config.move_target_dir {
        Some(named) => {
            if !named.as_str().is_empty() {
                return Ok(named);
            }
        },
        None => {},
    }
    Err(
        ErrorReport::plain(
            "move target directory is not set; pass --target-dir or add move_target_dir to config".to_owned(),
        ),
    )
}

/// The template sets a target directory and two paths, each under a line that says
/// what it is for.
pub proof fn law_template_sets_everything()
    ensures
        template()
            == "# Used by `move-link` when --target-dir is not provided.\nmove_target_dir = \"D:\\\\archive\"\n\n# Used by delete mode when --path is not provided.\npaths = [\n  \"C:\\\\Windows\\\\Temp\\\\old-cache.tmp\",\n  \"C:\\\\Users\\\\Public\\\\Downloads\\\\to-delete\",\n]\n"@,
{
}

} // verus!
