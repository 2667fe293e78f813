//! The command line: the arguments the program takes, its subcommands, and
//! which group of handlers each subcommand belongs to.
use vstd::prelude::*;
use std::path::PathBuf;

verus! {

/// A filesystem path, carried through as given.
#[verifier::external_type_specification]
#[verifier::external_body]
pub struct ExPathBuf(PathBuf);

/// Top-level command-line arguments.
pub struct Cli {
    /// Data directory holding the strategy databases (`S*.db`); `data` by default.
    pub data_dir: PathBuf,
    /// Directory for log files; `<data_dir>/logs` when unset.
    pub log_dir: Option<PathBuf>,
    pub command: Command,
}

/// Subcommands.
pub enum Command {
    /// Run the backtest server.
    Serve,
    /// Enqueue a backtest job (`priority` is 5 by default).
    Queue {
        strategy: String,
        name: String,
        code_file: Option<PathBuf>,
        code_stdin: bool,
        batch: Option<String>,
        priority: i64,
        description: Option<String>,
        hypothesis: Option<String>,
        based_on: Option<String>,
        project_id: Option<i64>,
    },
    /// Cancel a queued job.
    Cancel { strategy: String, name: String },
    /// Cancel all queued jobs for a strategy (or a batch).
    CancelAll { strategy: String, batch: Option<String> },
    /// List queued/running jobs (`status` is `queued,running` and `limit` 20 by default).
    List {
        strategy: Option<String>,
        status: String,
        batch: Option<String>,
        name_like: Option<String>,
        limit: usize,
    },
    /// Show recent errors for a strategy (`limit` 10 by default).
    Errors { strategy: String, limit: usize, detail: Option<String> },
    /// Show top experiments by CAR/MDD (`limit` 20 by default).
    Top { strategy: Option<String>, batch: Option<String>, limit: usize },
    /// Show full optimizer context.
    Context { strategy: String },
    /// Get the next experiment number for a strategy.
    Next { strategy: String },
    /// Show full details for a single experiment.
    Show { strategy: String, name: String, code: bool },
    /// Remove old done/failed/cancelled queue entries (`older_than_days` 7 by default).
    Clean { strategy: Option<String>, older_than_days: i64, include_cancelled: bool, dry_run: bool },
    /// Retry failed jobs (reset to queued).
    Retry { strategy: String, name: Option<String>, batch: Option<String> },
    /// Show queue status for all strategies.
    Status,
    /// Test cloud API connectivity.
    TestApi,
    /// Create new cloud projects and add them to `projects.json` (`count` 5 by default).
    CreateProjects { count: usize },
    /// Delete cloud projects beyond the first `keep` ids of `projects.json`
    /// (`sort_by` is `none` by default).
    DeleteProjects { keep: usize, dry_run: bool, yes: bool, sort_by: String },
    /// Reconcile `projects.json` with the account's project list.
    ReconcileProjects { prune_orphans: bool },
}

/// The group of handlers a subcommand goes to.
#[derive(Clone, Copy, PartialEq, Eq, Debug)]
pub enum CommandKind {
    /// Job queue commands, all served by the queue handlers.
    Queue,
    Serve,
    TestApi,
    CreateProjects,
    DeleteProjects,
    ReconcileProjects,
}

/// The handler group of each subcommand.
pub open spec fn spec_kind(c: &Command) -> CommandKind {
    match c {
        Command::Serve => CommandKind::Serve,
        Command::TestApi => CommandKind::TestApi,
        Command::CreateProjects { .. } => CommandKind::CreateProjects,
        Command::DeleteProjects { .. } => CommandKind::DeleteProjects,
        Command::ReconcileProjects { .. } => CommandKind::ReconcileProjects,
        _ => CommandKind::Queue,
    }
}

impl Command {
    /// The handler group this subcommand goes to: the queue group takes
    /// every subcommand but serving, the connectivity test and the three
    /// project-pool commands.
    pub fn kind(&self) -> (k: CommandKind)
        ensures
            k == spec_kind(self),
    {
        match self {
            Command::Serve => CommandKind::Serve,
            Command::TestApi => CommandKind::TestApi,
            Command::CreateProjects { .. } => CommandKind::CreateProjects,
            Command::DeleteProjects { .. } => CommandKind::DeleteProjects,
            Command::ReconcileProjects { .. } => CommandKind::ReconcileProjects,
            _ => CommandKind::Queue,
        }
    }
}

/// Where the code of a job to enqueue comes from.
#[derive(Clone, Copy, PartialEq, Eq, Debug)]
pub enum CodeSource {
    Stdin,
    File,
}

/// Neither `--code-file` nor `--code-stdin` was given.
#[derive(Clone, Copy, PartialEq, Eq, Debug)]
pub struct NoCodeSource;

/// Where to read a job's code: standard input when `--code-stdin` is set or
/// the file given is `-`; else the file given; an error when neither is given.
pub fn code_source(code_stdin: bool, file_given: bool, file_is_dash: bool) -> (r: Result<CodeSource, NoCodeSource>)
    ensures
        code_stdin ==> r == Ok::<CodeSource, NoCodeSource>(CodeSource::Stdin),
        !code_stdin && file_given && file_is_dash ==> r == Ok::<CodeSource, NoCodeSource>(CodeSource::Stdin),
        !code_stdin && file_given && !file_is_dash ==> r == Ok::<CodeSource, NoCodeSource>(CodeSource::File),
        !code_stdin && !file_given ==> r == Err::<CodeSource, NoCodeSource>(NoCodeSource),
{
    if code_stdin {
        Ok(CodeSource::Stdin)
    } else if file_given {
        if file_is_dash {
            Ok(CodeSource::Stdin)
        } else {
            Ok(CodeSource::File)
        }
    } else {
        Err(NoCodeSource)
    }
}

} // verus!
