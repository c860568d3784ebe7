//! `sb`: manages a kernel living in a workspace directory.
use vstd::prelude::*;
use crate::paths::{join_path, joined};
use crate::text::{concat2, owned};

verus! {

/// The subcommands of `sb`.
#[derive(Debug)]
pub enum Commands {
    /// Points the kernel at the service configuration file `config`.
    Config { config: String },
    /// Starts the kernel.
    Start,
    /// Makes the kernel reload its configuration, after pointing it at `config` when given.
    Reload { config: Option<String> },
    /// Stops the kernel.
    Shutdown,
    /// Reports the kernel's status.
    Status,
}

/// The arguments of `sb`.
#[derive(Debug)]
pub struct ClapArgs {
    pub workspace: Option<String>,
    pub command: Commands,
}

/// The files of a workspace directory.
#[derive(Debug)]
pub struct Workspace {
    dir: String,
}

impl Workspace {
    /// The workspace in directory `dir`.
    pub fn new(dir: String) -> (w: Self)
        ensures
            w.dir() == dir@,
    {
        Workspace { dir }
    }

    /// The workspace directory.
    pub closed spec fn dir(self) -> Seq<char> {
        self.dir@
    }

    /// `kernel.toml` in the workspace.
    pub fn kernel_config_path(&self) -> (p: String)
        ensures
            p@ == joined(self.dir(), "kernel.toml"@),
    {
        join_path(self.dir.as_str(), "kernel.toml")
    }

    /// `config.toml` in the workspace.
    pub fn service_config_path(&self) -> (p: String)
        ensures
            p@ == joined(self.dir(), "config.toml"@),
    {
        join_path(self.dir.as_str(), "config.toml")
    }

    /// `.run` in the workspace.
    pub fn run_file(&self) -> (p: String)
        ensures
            p@ == joined(self.dir(), ".run"@),
    {
        join_path(self.dir.as_str(), ".run")
    }

    /// `.pid` in the workspace: the running kernel's process id.
    pub fn pid_file(&self) -> (p: String)
        ensures
            p@ == joined(self.dir(), ".pid"@),
    {
        join_path(self.dir.as_str(), ".pid")
    }
}

/// What `sb` works with: the kernel program and the workspace.
#[derive(Debug)]
pub struct Context {
    pub sbk_path: String,
    pub workspace: Workspace,
}

/// Why a command failed.
#[derive(Debug)]
pub enum Error {
    Io(String),
    Toml(String),
    Unimplemented,
}

/// One thing a command has done to the system, in order.
#[derive(Debug)]
pub enum CommandStep {
    /// Reads and parses the kernel configuration at `kernel_config`; when `link` is given,
    /// its `config` entry (if it has one) is set to `link`.
    ResetServiceConfig { kernel_config: String, link: Option<String> },
    /// Sends `signal` (a `kill` flag) to the process whose id is in `pid_file`.
    Signal { pid_file: String, signal: String },
    /// Starts `program`, left running, and prints its process id.
    Spawn { program: String },
}

/// The link under which the kernel reads a configuration file.
pub open spec fn file_link(path: Seq<char>) -> Seq<char> {
    "file://"@ + path
}

/// The steps of a command, or the error when `sb` cannot run it.
pub open spec fn command_steps(c: Context, cmd: Commands) -> Option<Seq<StepView>> {
    let kernel_config = joined(c.workspace.dir(), "kernel.toml"@);
    let pid_file = joined(c.workspace.dir(), ".pid"@);
    match cmd {
        Commands::Config { config } => Some(seq![StepView::ResetServiceConfig(kernel_config, Some(file_link(config@)))]),
        Commands::Reload { config } => match config {
            Some(p) => Some(seq![
                StepView::ResetServiceConfig(kernel_config, Some(file_link(p@))),
                StepView::Signal(pid_file, "-1"@),
            ]),
            None => Some(seq![StepView::Signal(pid_file, "-1"@)]),
        },
        Commands::Shutdown => Some(seq![StepView::Signal(pid_file, "-9"@)]),
        Commands::Start => Some(seq![StepView::Spawn(c.sbk_path@)]),
        Commands::Status => None,
    }
}

/// The value of a step.
pub enum StepView {
    ResetServiceConfig(Seq<char>, Option<Seq<char>>),
    Signal(Seq<char>, Seq<char>),
    Spawn(Seq<char>),
}

pub open spec fn step_view(s: CommandStep) -> StepView {
    match s {
        CommandStep::ResetServiceConfig { kernel_config, link } => StepView::ResetServiceConfig(
            kernel_config@, crate::paths::opt_view(link)),
        CommandStep::Signal { pid_file, signal } => StepView::Signal(pid_file@, signal@),
        CommandStep::Spawn { program } => StepView::Spawn(program@),
    }
}

impl Context {
    /// A context for the kernel program `sbk_path` and a workspace.
    pub fn new(sbk_path: String, workspace: Workspace) -> (c: Self)
        ensures
            c.sbk_path == sbk_path,
            c.workspace == workspace,
    {
        Context { sbk_path, workspace }
    }

    /// The steps that carry out `commands`; `Status` is not implemented.
    pub fn exec(&self, commands: Commands) -> (r: Result<Vec<CommandStep>, Error>)
        ensures
            match command_steps(*self, commands) {
                Some(s) => r is Ok && r->Ok_0@.map_values(|x: CommandStep| step_view(x)) == s,
                None => r matches Err(Error::Unimplemented),
            },
    {
        let ghost expected = command_steps(*self, commands);
        let mut steps: Vec<CommandStep> = Vec::new();
        match commands {
            Commands::Config { config } => {
                let link = concat2("file://", config.as_str());
                steps.push(CommandStep::ResetServiceConfig {
                    kernel_config: self.workspace.kernel_config_path(),
                    link: Some(link),
                });
            },
            Commands::Reload { config } => {
                match config {
                    Some(p) => {
                        let link = concat2("file://", p.as_str());
                        steps.push(CommandStep::ResetServiceConfig {
                            kernel_config: self.workspace.kernel_config_path(),
                            link: Some(link),
                        });
                    },
                    None => {},
                }
                steps.push(CommandStep::Signal { pid_file: self.workspace.pid_file(), signal: owned("-1") });
            },
            Commands::Shutdown => {
                steps.push(CommandStep::Signal { pid_file: self.workspace.pid_file(), signal: owned("-9") });
            },
            Commands::Start => {
                steps.push(CommandStep::Spawn { program: self.sbk_path.clone() });
            },
            Commands::Status => {
                return Err(Error::Unimplemented);
            },
        }
        assert(steps@.map_values(|x: CommandStep| step_view(x)) =~= expected->0);
        Ok(steps)
    }
}

/// Every step of a command that rewrites a configuration rewrites the workspace's
/// `kernel.toml`, and every signal goes to the process named in the workspace's `.pid`.
/// Reloading with a configuration file first does what `Config` does with that file, then
/// signals `-1`; reloading without one only signals.
pub proof fn lemma_command_targets(c: Context, cmd: Commands)
    ensures
        command_steps(c, cmd) is Some ==> forall|i: int| 0 <= i < command_steps(c, cmd)->0.len() ==> {
            &&& (#[trigger] command_steps(c, cmd)->0[i] matches StepView::ResetServiceConfig(p, _)
                ==> p == joined(c.workspace.dir(), "kernel.toml"@))
        },
        command_steps(c, cmd) is Some ==> forall|i: int| 0 <= i < command_steps(c, cmd)->0.len() ==> {
            &&& (#[trigger] command_steps(c, cmd)->0[i] matches StepView::Signal(p, _)
                ==> p == joined(c.workspace.dir(), ".pid"@))
        },
        cmd matches Commands::Reload { config: Some(p) } ==> command_steps(c, cmd) == Some(
            command_steps(c, Commands::Config { config: p })->0.push(StepView::Signal(joined(c.workspace.dir(), ".pid"@), "-1"@))),
        cmd matches Commands::Reload { config: None } ==> command_steps(c, cmd) == Some(
            seq![StepView::Signal(joined(c.workspace.dir(), ".pid"@), "-1"@)]),
        cmd matches Commands::Config { config: p } ==> command_steps(c, cmd) == Some(
            seq![StepView::ResetServiceConfig(joined(c.workspace.dir(), "kernel.toml"@), Some("file://"@ + p@))]),
        cmd is Shutdown ==> command_steps(c, cmd) == Some(
            seq![StepView::Signal(joined(c.workspace.dir(), ".pid"@), "-9"@)]),
        cmd is Start ==> command_steps(c, cmd) == Some(seq![StepView::Spawn(c.sbk_path@)]),
        cmd is Status ==> command_steps(c, cmd) is None,
{
}

} // verus!
