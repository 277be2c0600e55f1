use laracli::php::restart_php_service;
use laracli::cli::{
    operations_of, Cli, Commands, DisablePhpExtension, Enable,
    EnablePhpExtension, Feature, Link, ListWatched, Mysql, Nginx, NginxReload, Operation,
    PhpExtension, PhpExtensionAction, PhpMyAdmin, Reload, Run, Service, Setup, Start, Stop,
    StopDev, Unlink, Unwatch, Version, Watch,
};

#[test]
fn start_and_stop_run_one_service() {
    let start_nginx = Commands::Start(Start { service: Service::Nginx(Nginx {}) });
    let start_mysql = Commands::Start(Start { service: Service::Mysql(Mysql {}) });
    let stop_nginx = Commands::Stop(Stop { service: Service::Nginx(Nginx {}) });
    let stop_mysql = Commands::Stop(Stop { service: Service::Mysql(Mysql {}) });
    assert_eq!(operations_of(&start_nginx), vec![Operation::StartNginx]);
    assert_eq!(operations_of(&start_mysql), vec![Operation::StartMysql]);
    assert_eq!(operations_of(&stop_nginx), vec![Operation::StopNginx]);
    assert_eq!(operations_of(&stop_mysql), vec![Operation::StopMysql]);
}

#[test]
fn reload_reloads_the_proxy() {
    let reload = Commands::Reload(Reload { service: NginxReload {} });
    assert_eq!(operations_of(&reload), vec![Operation::ReloadNginx]);
}

#[test]
fn path_commands_carry_their_path() {
    let path = "C:\\www".to_string();
    assert_eq!(
        operations_of(&Commands::Watch(Watch { path: path.clone() })),
        vec![Operation::WatchDirectory(path.clone())]
    );
    assert_eq!(
        operations_of(&Commands::Unwatch(Unwatch { path: path.clone() })),
        vec![Operation::UnwatchDirectory(path.clone())]
    );
    assert_eq!(
        operations_of(&Commands::Link(Link { path: path.clone() })),
        vec![Operation::Link(path.clone())]
    );
    assert_eq!(
        operations_of(&Commands::Unlink(Unlink { path: path.clone() })),
        vec![Operation::Unlink(path)]
    );
    assert_eq!(operations_of(&Commands::ListWatched(ListWatched {})), vec![Operation::ListWatched]);
}

#[test]
fn setup_runs_its_five_steps_in_order() {
    assert_eq!(
        operations_of(&Commands::Setup(Setup {})),
        vec![
            Operation::SetupTools,
            Operation::SetupServices,
            Operation::SetupPermissions,
            Operation::CreateConfigFile,
            Operation::AddExeToPath,
        ]
    );
}

#[test]
fn the_dev_commands_run_the_three_services() {
    assert_eq!(
        operations_of(&Commands::StartDev(Run {})),
        vec![Operation::StartPhp, Operation::StartNginx, Operation::StartMysql]
    );
    assert_eq!(
        operations_of(&Commands::StopDev(StopDev {})),
        vec![Operation::StopPhp, Operation::StopNginx, Operation::StopMysql]
    );
}

#[test]
fn the_other_commands_run_one_operation() {
    assert_eq!(operations_of(&Commands::Version(Version {})), vec![Operation::PrintVersion]);
    let enable = Commands::Enable(Enable { feature: Feature::PhpMyAdmin(PhpMyAdmin {}) });
    assert_eq!(operations_of(&enable), vec![Operation::EnablePhpMyAdmin]);
    let on = Commands::PhpExtension(PhpExtension {
        action: PhpExtensionAction::Enable(EnablePhpExtension { extension: "mbstring".to_string() }),
    });
    let off = Commands::PhpExtension(PhpExtension {
        action: PhpExtensionAction::Disable(DisablePhpExtension { extension: "gd".to_string() }),
    });
    assert_eq!(operations_of(&on), vec![Operation::EnablePhpExtension("mbstring".to_string())]);
    assert_eq!(operations_of(&off), vec![Operation::DisablePhpExtension("gd".to_string())]);
}

#[test]
fn the_command_line_runs_its_command() {
    let cli = Cli { command: Commands::StartDev(Run {}) };
    assert_eq!(cli.operations(), operations_of(&cli.command));
}

#[test]
fn restarting_php_stops_then_starts() {
    assert_eq!(restart_php_service(), vec![Operation::StopPhp, Operation::StartPhp]);
}
