//! The commands of the program, and the operations that each of them runs.

use vstd::prelude::*;

verus! {

/// The proxy, as the service of `start` and `stop`.
#[derive(Debug, Clone, Copy, PartialEq, Eq)]
pub struct Nginx {}

/// The proxy, as the service of `reload`.
#[derive(Debug, Clone, Copy, PartialEq, Eq)]
pub struct NginxReload {}

/// The database, as the service of `start` and `stop`.
#[derive(Debug, Clone, Copy, PartialEq, Eq)]
pub struct Mysql {}

/// A service that can be started and stopped on its own.
#[derive(Debug, Clone, Copy, PartialEq, Eq)]
pub enum Service {
    Mysql(Mysql),
    Nginx(Nginx),
}

/// `start`: start one service.
#[derive(Debug, Clone, Copy, PartialEq, Eq)]
pub struct Start {
    pub service: Service,
}

/// `stop`: stop one service.
#[derive(Debug, Clone, Copy, PartialEq, Eq)]
pub struct Stop {
    pub service: Service,
}

/// `reload`: have the proxy reload its configuration.
#[derive(Debug, Clone, Copy, PartialEq, Eq)]
pub struct Reload {
    pub service: NginxReload,
}

/// `watch`: watch a directory for projects.
#[derive(Debug, Clone, PartialEq, Eq)]
pub struct Watch {
    pub path: String,
}

/// `list-watched`: list the watched directories.
#[derive(Debug, Clone, Copy, PartialEq, Eq)]
pub struct ListWatched {}

/// `unwatch`: stop watching a directory.
#[derive(Debug, Clone, PartialEq, Eq)]
pub struct Unwatch {
    pub path: String,
}

/// `link`: register a directory as a project.
#[derive(Debug, Clone, PartialEq, Eq)]
pub struct Link {
    pub path: String,
}

/// `unlink`: take a project out of the registry.
#[derive(Debug, Clone, PartialEq, Eq)]
pub struct Unlink {
    pub path: String,
}

/// `setup`: install the tools and the services.
#[derive(Debug, Clone, Copy, PartialEq, Eq)]
pub struct Setup {}

/// `start-dev`: start PHP, the proxy and the database.
#[derive(Debug, Clone, Copy, PartialEq, Eq)]
pub struct Run {}

/// `stop-dev`: stop PHP, the proxy and the database.
#[derive(Debug, Clone, Copy, PartialEq, Eq)]
pub struct StopDev {}

/// `version`: print the version.
#[derive(Debug, Clone, Copy, PartialEq, Eq)]
pub struct Version {}

/// phpMyAdmin, as a feature.
#[derive(Debug, Clone, Copy, PartialEq, Eq)]
pub struct PhpMyAdmin {}

/// A feature that can be enabled.
#[derive(Debug, Clone, Copy, PartialEq, Eq)]
pub enum Feature {
    PhpMyAdmin(PhpMyAdmin),
}

/// `enable`: enable a feature.
#[derive(Debug, Clone, Copy, PartialEq, Eq)]
pub struct Enable {
    pub feature: Feature,
}

/// `disable`: disable a feature. No command carries it yet.
#[derive(Debug, Clone, Copy, PartialEq, Eq)]
pub struct Disable {
    pub feature: Feature,
}

/// `php-ext enable`: enable an extension of PHP.
#[derive(Debug, Clone, PartialEq, Eq)]
pub struct EnablePhpExtension {
    pub extension: String,
}

/// `php-ext disable`: disable an extension of PHP.
#[derive(Debug, Clone, PartialEq, Eq)]
pub struct DisablePhpExtension {
    pub extension: String,
}

/// What `php-ext` does to an extension.
#[derive(Debug, Clone, PartialEq, Eq)]
pub enum PhpExtensionAction {
    Enable(EnablePhpExtension),
    Disable(DisablePhpExtension),
}

/// `php-ext`: manage the extensions of PHP.
#[derive(Debug, Clone, PartialEq, Eq)]
pub struct PhpExtension {
    pub action: PhpExtensionAction,
}

/// A command of the program.
#[derive(Debug, Clone, PartialEq, Eq)]
pub enum Commands {
    Start(Start),
    Stop(Stop),
    Reload(Reload),
    Watch(Watch),
    ListWatched(ListWatched),
    Unwatch(Unwatch),
    Link(Link),
    Unlink(Unlink),
    Setup(Setup),
    StartDev(Run),
    StopDev(StopDev),
    Version(Version),
    Enable(Enable),
    PhpExtension(PhpExtension),
}

/// The command line, parsed.
#[derive(Debug, Clone, PartialEq, Eq)]
pub struct Cli {
    pub command: Commands,
}

/// One operation of the program, as text: the model of an `Operation`.
pub enum Step {
    ReloadNginx,
    StartNginx,
    StopNginx,
    StartMysql,
    StopMysql,
    StartPhp,
    StopPhp,
    WatchDirectory(Seq<char>),
    ListWatched,
    UnwatchDirectory(Seq<char>),
    Link(Seq<char>),
    Unlink(Seq<char>),
    SetupTools,
    SetupServices,
    SetupPermissions,
    CreateConfigFile,
    AddExeToPath,
    PrintVersion,
    EnablePhpMyAdmin,
    EnablePhpExtension(Seq<char>),
    DisablePhpExtension(Seq<char>),
}

/// One operation of the program. A command runs its operations in their
/// order and stops at the first that fails.
#[derive(Debug, Clone, PartialEq, Eq)]
pub enum Operation {
    ReloadNginx,
    StartNginx,
    StopNginx,
    StartMysql,
    StopMysql,
    StartPhp,
    StopPhp,
    WatchDirectory(String),
    ListWatched,
    UnwatchDirectory(String),
    Link(String),
    Unlink(String),
    SetupTools,
    SetupServices,
    SetupPermissions,
    CreateConfigFile,
    AddExeToPath,
    PrintVersion,
    EnablePhpMyAdmin,
    EnablePhpExtension(String),
    DisablePhpExtension(String),
}

impl View for Operation {
    type V = Step;

    open spec fn view(&self) -> Step {
        match self {
            Operation::ReloadNginx => Step::ReloadNginx,
            Operation::StartNginx => Step::StartNginx,
            Operation::StopNginx => Step::StopNginx,
            Operation::StartMysql => Step::StartMysql,
            Operation::StopMysql => Step::StopMysql,
            Operation::StartPhp => Step::StartPhp,
            Operation::StopPhp => Step::StopPhp,
            Operation::WatchDirectory(path) => Step::WatchDirectory(path@),
            Operation::ListWatched => Step::ListWatched,
            Operation::UnwatchDirectory(path) => Step::UnwatchDirectory(path@),
            Operation::Link(path) => Step::Link(path@),
            Operation::Unlink(path) => Step::Unlink(path@),
            Operation::SetupTools => Step::SetupTools,
            Operation::SetupServices => Step::SetupServices,
            Operation::SetupPermissions => Step::SetupPermissions,
            Operation::CreateConfigFile => Step::CreateConfigFile,
            Operation::AddExeToPath => Step::AddExeToPath,
            Operation::PrintVersion => Step::PrintVersion,
            Operation::EnablePhpMyAdmin => Step::EnablePhpMyAdmin,
            Operation::EnablePhpExtension(name) => Step::EnablePhpExtension(name@),
            Operation::DisablePhpExtension(name) => Step::DisablePhpExtension(name@),
        }
    }
}

/// The models of a list of operations.
pub open spec fn steps_of(operations: Seq<Operation>) -> Seq<Step> {
    operations.map_values(|operation: Operation| operation@)
}

/// The operations that `command` runs, in their order.
pub open spec fn planned(command: Commands) -> Seq<Step> {
    match command {
        Commands::Reload(_) => seq![Step::ReloadNginx],
        Commands::Start(start) => match start.service {
            Service::Nginx(_) => seq![Step::StartNginx],
            Service::Mysql(_) => seq![Step::StartMysql],
        },
        Commands::Stop(stop) => match stop.service {
            Service::Nginx(_) => seq![Step::StopNginx],
            Service::Mysql(_) => seq![Step::StopMysql],
        },
        Commands::Watch(watch) => seq![Step::WatchDirectory(watch.path@)],
        Commands::ListWatched(_) => seq![Step::ListWatched],
        Commands::Unwatch(unwatch) => seq![Step::UnwatchDirectory(unwatch.path@)],
        Commands::Link(link) => seq![Step::Link(link.path@)],
        Commands::Unlink(unlink) => seq![Step::Unlink(unlink.path@)],
        Commands::Setup(_) => seq![
            Step::SetupTools,
            Step::SetupServices,
            Step::SetupPermissions,
            Step::CreateConfigFile,
            Step::AddExeToPath,
        ],
        Commands::StartDev(_) => seq![Step::StartPhp, Step::StartNginx, Step::StartMysql],
        Commands::StopDev(_) => seq![Step::StopPhp, Step::StopNginx, Step::StopMysql],
        Commands::Version(_) => seq![Step::PrintVersion],
        Commands::Enable(enable) => match enable.feature {
            Feature::PhpMyAdmin(_) => seq![Step::EnablePhpMyAdmin],
        },
        Commands::PhpExtension(extension) => match extension.action {
            PhpExtensionAction::Enable(enable) => seq![Step::EnablePhpExtension(enable.extension@)],
            PhpExtensionAction::Disable(disable) => seq![
                Step::DisablePhpExtension(disable.extension@),
            ],
        },
    }
}

/// A list of one operation.
fn one(operation: Operation) -> (operations: Vec<Operation>)
    ensures
        steps_of(operations@) == seq![operation@],
{
    let mut operations: Vec<Operation> = Vec::new();
    operations.push(operation);
    assert(steps_of(operations@) =~= seq![operation@]);
    operations
}

/// A list of three operations.
fn three(first: Operation, second: Operation, third: Operation) -> (operations: Vec<Operation>)
    ensures
        steps_of(operations@) == seq![first@, second@, third@],
{
    let mut operations: Vec<Operation> = Vec::new();
    operations.push(first);
    operations.push(second);
    operations.push(third);
    assert(steps_of(operations@) =~= seq![first@, second@, third@]);
    operations
}

impl Cli {
    /// The operations that the command line asks for, in their order.
    pub fn operations(&self) -> (operations: Vec<Operation>)
        ensures
            steps_of(operations@) == planned(self.command),
    {
        operations_of(&self.command)
    }
}

/// The operations that `command` runs, in their order.
pub fn operations_of(command: &Commands) -> (operations: Vec<Operation>)
    ensures
        steps_of(operations@) == planned(*command),
{
    match command {
        Commands::Reload(_) => one(Operation::ReloadNginx),
        Commands::Start(start) => match start.service {
            Service::Nginx(_) => one(Operation::StartNginx),
            Service::Mysql(_) => one(Operation::StartMysql),
        },
        Commands::Stop(stop) => match stop.service {
            Service::Nginx(_) => one(Operation::StopNginx),
            Service::Mysql(_) => one(Operation::StopMysql),
        },
        Commands::Watch(watch) => one(
            Operation::WatchDirectory(crate::text::copy_text(watch.path.as_str())),
        ),
        Commands::ListWatched(_) => one(Operation::ListWatched),
        Commands::Unwatch(unwatch) => one(
            Operation::UnwatchDirectory(crate::text::copy_text(unwatch.path.as_str())),
        ),
        Commands::Link(link) => one(Operation::Link(crate::text::copy_text(link.path.as_str()))),
        Commands::Unlink(unlink) => one(
            Operation::Unlink(crate::text::copy_text(unlink.path.as_str())),
        ),
        Commands::Setup(_) => {
            let mut operations: Vec<Operation> = Vec::new();
            operations.push(Operation::SetupTools);
            operations.push(Operation::SetupServices);
            operations.push(Operation::SetupPermissions);
            operations.push(Operation::CreateConfigFile);
            operations.push(Operation::AddExeToPath);
            assert(steps_of(operations@) =~= planned(*command));
            operations
        },
        Commands::StartDev(_) => three(
            Operation::StartPhp,
            Operation::StartNginx,
            Operation::StartMysql,
        ),
        Commands::StopDev(_) => three(
            Operation::StopPhp,
            Operation::StopNginx,
            Operation::StopMysql,
        ),
        Commands::Version(_) => one(Operation::PrintVersion),
        Commands::Enable(enable) => match enable.feature {
            Feature::PhpMyAdmin(_) => one(Operation::EnablePhpMyAdmin),
        },
        Commands::PhpExtension(extension) => match &extension.action {
            PhpExtensionAction::Enable(enable) => one(
                Operation::EnablePhpExtension(crate::text::copy_text(enable.extension.as_str())),
            ),
            PhpExtensionAction::Disable(disable) => one(
                Operation::DisablePhpExtension(crate::text::copy_text(disable.extension.as_str())),
            ),
        },
    }
}

} // verus!
