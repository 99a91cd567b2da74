use recli::cli::{Cli, RecliCommands};
use recli::config::{AzureConfig, Config, CosmosConfig, EnvOverlay, LoggingConfig};

fn cli(verbose: bool, command: RecliCommands) -> Cli {
    Cli { verbose, config: None, shell: None, command }
}

fn no_env() -> EnvOverlay {
    EnvOverlay {
        log_level: None,
        cosmos_account: None,
        cosmos_database: None,
        cosmos_container: None,
        cosmos_connection_string: None,
    }
}

#[test]
fn the_shell_comes_from_the_command_line_first() {
    let mut c = cli(false, RecliCommands::Start);
    assert_eq!(c.get_shell(None), "/bin/bash");
    assert_eq!(c.get_shell(Some("/bin/zsh".to_string())), "/bin/zsh");
    c.shell = Some("/usr/bin/fish".to_string());
    assert_eq!(c.get_shell(Some("/bin/zsh".to_string())), "/usr/bin/fish");
    assert_eq!(c.get_shell(None), "/usr/bin/fish");
}

#[test]
fn startup_is_announced_in_verbose_mode_only() {
    let mut c = cli(false, RecliCommands::Start);
    assert_eq!(c.startup_info("/bin/zsh"), None);
    c.verbose = true;
    assert_eq!(
        c.startup_info("/bin/zsh"),
        Some(
            "Recli CLI Enhancer Starting...\n  Verbose mode: enabled\n  Config file: None\n  Shell: /bin/zsh\nStarting PTY session..."
                .to_string()
        )
    );
    c.config = Some("/etc/recli.toml".to_string());
    assert_eq!(
        c.startup_info("sh"),
        Some(
            "Recli CLI Enhancer Starting...\n  Verbose mode: enabled\n  Config file: /etc/recli.toml\n  Shell: sh\nStarting PTY session..."
                .to_string()
        )
    );
}

#[test]
fn commands_are_announced_in_verbose_mode_only() {
    assert_eq!(cli(false, RecliCommands::Start).announcement(), None);
    assert_eq!(
        cli(true, RecliCommands::Start).announcement(),
        Some("Starting recli session...".to_string())
    );
    assert_eq!(
        cli(true, RecliCommands::Stop).announcement(),
        Some("Stopping recli session...".to_string())
    );
    assert_eq!(
        cli(true, RecliCommands::Status).announcement(),
        Some("Checking recli status...".to_string())
    );
    assert_eq!(
        cli(true, RecliCommands::Recent { count: 10 }).announcement(),
        Some("Showing 10 recent commands...".to_string())
    );
    assert_eq!(
        cli(true, RecliCommands::Clear).announcement(),
        Some("Clearing command history...".to_string())
    );
    assert_eq!(
        cli(true, RecliCommands::Validate { path: None }).announcement(),
        Some("Validating logs against schema...".to_string())
    );
    assert_eq!(cli(true, RecliCommands::Config).announcement(), None);
}

#[test]
fn defaults_log_at_info() {
    assert_eq!(LoggingConfig::default().level, "info");
    let c = Config::default();
    assert_eq!(c.logging.level, "info");
    assert_eq!(c.azure, None);
    assert_eq!(AzureConfig::default().cosmos, None);
    assert_eq!(
        CosmosConfig::default(),
        CosmosConfig { account: None, database: None, container: None, connection_string: None }
    );
}

#[test]
fn loading_nothing_gives_the_defaults_with_cosmos_in_place() {
    let cfg = Config::load(None, no_env());
    assert_eq!(cfg.logging.level, "info");
    assert_eq!(cfg.azure, Some(AzureConfig { cosmos: Some(CosmosConfig::default()) }));
}

#[test]
fn the_environment_wins_over_the_file() {
    let file = Config {
        logging: LoggingConfig { level: "debug".to_string() },
        azure: Some(AzureConfig {
            cosmos: Some(CosmosConfig {
                account: Some("file-account".to_string()),
                database: Some("file-db".to_string()),
                container: None,
                connection_string: None,
            }),
        }),
    };
    let kept = Config::load(Some(file.clone()), no_env());
    assert_eq!(kept, file);
    let env = EnvOverlay {
        log_level: Some("trace".to_string()),
        cosmos_account: Some("env-account".to_string()),
        cosmos_database: None,
        cosmos_container: Some("env-container".to_string()),
        cosmos_connection_string: Some("AccountEndpoint=x".to_string()),
    };
    let cfg = Config::load(Some(file), env);
    assert_eq!(cfg.logging.level, "trace");
    assert_eq!(
        cfg.azure,
        Some(AzureConfig {
            cosmos: Some(CosmosConfig {
                account: Some("env-account".to_string()),
                database: Some("file-db".to_string()),
                container: Some("env-container".to_string()),
                connection_string: Some("AccountEndpoint=x".to_string()),
            }),
        })
    );
}

#[test]
fn a_file_without_azure_still_gets_cosmos_settings() {
    let file = Config { logging: LoggingConfig { level: "warn".to_string() }, azure: None };
    let cfg = Config::load(Some(file), no_env());
    assert_eq!(cfg.logging.level, "warn");
    assert_eq!(cfg.azure, Some(AzureConfig { cosmos: Some(CosmosConfig::default()) }));
    let empty_azure =
        Config { logging: LoggingConfig { level: "warn".to_string() }, azure: Some(AzureConfig { cosmos: None }) };
    let cfg2 = Config::load(Some(empty_azure), no_env());
    assert_eq!(cfg2.azure, Some(AzureConfig { cosmos: Some(CosmosConfig::default()) }));
}
