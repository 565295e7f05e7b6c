use deriddl_rs::cli::{Cli, Commands};

fn argv(args: &[&str]) -> Vec<String> {
    args.iter().map(|s| s.to_string()).collect()
}

#[test]
fn test_cli_help() {
    let result = Cli::try_parse_from(argv(&["deriDDL", "--help"]));
    assert!(result.is_err()); // Help exits with error
}

#[test]
fn test_cli_version() {
    let result = Cli::try_parse_from(argv(&["deriDDL", "--version"]));
    assert!(result.is_err()); // Version exits with error
}

#[test]
fn test_apply_command_defaults() {
    let cli = Cli::try_parse_from(argv(&["deriDDL", "apply"])).unwrap();
    match cli.command {
        Commands::Apply { conn, path, dry_run } => {
            assert_eq!(conn, None);
            assert_eq!(path, "./migrations");
            assert!(!dry_run);
        }
        _ => panic!("Expected Apply command"),
    }
}

#[test]
fn test_apply_command_with_flags() {
    let cli = Cli::try_parse_from(argv(&[
        "deriDDL",
        "apply",
        "--conn",
        "Driver={SQLite3};Database=test.db;",
        "--path",
        "./custom-migrations",
        "--dry-run",
    ]))
    .unwrap();

    match cli.command {
        Commands::Apply { conn, path, dry_run } => {
            assert_eq!(conn, Some("Driver={SQLite3};Database=test.db;".to_string()));
            assert_eq!(path, "./custom-migrations");
            assert!(dry_run);
        }
        _ => panic!("Expected Apply command"),
    }
}

#[test]
fn test_status_command_defaults() {
    let cli = Cli::try_parse_from(argv(&["deriDDL", "status"])).unwrap();
    match cli.command {
        Commands::Status { conn, path } => {
            assert_eq!(conn, None);
            assert_eq!(path, "./migrations");
        }
        _ => panic!("Expected Status command"),
    }
}

#[test]
fn test_init_command() {
    let cli = Cli::try_parse_from(argv(&["deriDDL", "init"])).unwrap();
    match cli.command {
        Commands::Init { conn } => {
            assert_eq!(conn, None);
        }
        _ => panic!("Expected Init command"),
    }
}

#[test]
fn test_plan_command() {
    let cli = Cli::try_parse_from(argv(&["deriDDL", "plan", "--conn", "test"])).unwrap();
    match cli.command {
        Commands::Plan { conn, path } => {
            assert_eq!(conn, Some("test".to_string()));
            assert_eq!(path, "./migrations");
        }
        _ => panic!("Expected Plan command"),
    }
}

#[test]
fn test_health_command_defaults() {
    let cli = Cli::try_parse_from(argv(&["deriDDL", "health"])).unwrap();
    match cli.command {
        Commands::Health { path, dialect } => {
            assert_eq!(path, "./migrations");
            assert_eq!(dialect, "postgres");
        }
        _ => panic!("Expected Health command"),
    }
}

#[test]
fn args_test_health_command_custom_dialect() {
    let cli = Cli::try_parse_from(argv(&[
        "deriDDL",
        "health",
        "--dialect",
        "mysql",
        "--path",
        "./sql",
    ]))
    .unwrap();

    match cli.command {
        Commands::Health { path, dialect } => {
            assert_eq!(path, "./sql");
            assert_eq!(dialect, "mysql");
        }
        _ => panic!("Expected Health command"),
    }
}

#[test]
fn test_config_command_defaults() {
    let cli = Cli::try_parse_from(argv(&["deriDDL", "config"])).unwrap();
    match cli.command {
        Commands::Config { output, env } => {
            assert_eq!(output, "config.toml");
            assert_eq!(env, None);
        }
        _ => panic!("Expected Config command"),
    }
}

#[test]
fn test_config_command_with_env() {
    let cli = Cli::try_parse_from(argv(&[
        "deriDDL",
        "config",
        "--output",
        "custom.toml",
        "--env",
        "dev",
    ]))
    .unwrap();

    match cli.command {
        Commands::Config { output, env } => {
            assert_eq!(output, "custom.toml");
            assert_eq!(env, Some("dev".to_string()));
        }
        _ => panic!("Expected Config command"),
    }
}

#[test]
fn args_test_global_config_flag() {
    let cli = Cli::try_parse_from(argv(&[
        "deriDDL",
        "--config",
        "custom-config.toml",
        "health",
    ]))
    .unwrap();

    assert_eq!(cli.config, Some("custom-config.toml".to_string()));
    assert!(matches!(cli.command, Commands::Health { .. }));
}

#[test]
fn args_test_global_env_flag() {
    let cli = Cli::try_parse_from(argv(&["deriDDL", "--env", "production", "status"])).unwrap();

    assert_eq!(cli.env, Some("production".to_string()));
    assert!(matches!(cli.command, Commands::Status { .. }));
}

#[test]
fn test_invalid_command() {
    let result = Cli::try_parse_from(argv(&["deriDDL", "invalid-command"]));
    assert!(result.is_err());
}

#[test]
fn test_missing_required_subcommand() {
    let result = Cli::try_parse_from(argv(&["deriDDL"]));
    assert!(result.is_err());
}

#[test]
fn test_rollback_command_flags() {
    let cli = Cli::try_parse_from(argv(&[
        "deriDDL",
        "rollback",
        "--conn",
        "test",
        "--steps",
        "2",
        "--dry-run",
        "--force",
    ]))
    .unwrap();
    match cli.command {
        Commands::Rollback { conn, path, steps, to_version, dry_run, force } => {
            assert_eq!(conn, Some("test".to_string()));
            assert_eq!(path, "./migrations");
            assert_eq!(steps, 2);
            assert_eq!(to_version, None);
            assert!(dry_run);
            assert!(force);
        }
        _ => panic!("Expected Rollback command"),
    }
}

#[test]
fn test_rollback_conflicting_selectors() {
    let result = Cli::try_parse_from(argv(&[
        "deriDDL",
        "rollback",
        "--steps",
        "2",
        "--to-version",
        "1",
    ]));
    assert!(result.is_err());
}

#[test]
fn test_rollback_bad_number() {
    let result = Cli::try_parse_from(argv(&["deriDDL", "rollback", "--steps", "two"]));
    assert!(result.is_err());
}

#[test]
fn test_baseline_requires_version() {
    let result = Cli::try_parse_from(argv(&["deriDDL", "baseline", "--conn", "test"]));
    assert!(result.is_err());
    let cli = Cli::try_parse_from(argv(&[
        "deriDDL",
        "baseline",
        "--baseline-version",
        "5",
        "--description",
        "existing schema",
    ]))
    .unwrap();
    match cli.command {
        Commands::Baseline { version, description, from_schema, dry_run, .. } => {
            assert_eq!(version, 5);
            assert_eq!(description, "existing schema");
            assert!(!from_schema);
            assert!(!dry_run);
        }
        _ => panic!("Expected Baseline command"),
    }
}
