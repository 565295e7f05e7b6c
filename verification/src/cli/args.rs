//! The command-line grammar: global `--config` and `--env` options, one
//! subcommand, and per-command flags with their defaults. `--help` and
//! `--version` end parsing with a distinct outcome, as a parser that
//! prints-and-exits reports them.
use crate::text::{opt_str_view, parse_u32, spec_all_digits, spec_dec_val, spec_views, str_eq};
use vstd::prelude::*;
use vstd::string::*;

verus! {

/// A parsed invocation: the global options and the chosen command.
#[derive(Debug)]
pub struct Cli {
    /// Path to a configuration file.
    pub config: Option<String>,
    /// Environment name (loads `config/{env}.toml`).
    pub env: Option<String>,
    pub command: Commands,
}

/// The commands and their flags.
#[derive(Debug)]
pub enum Commands {
    /// Apply pending migrations.
    Apply { conn: Option<String>, path: String, dry_run: bool },
    /// Show applied and pending migrations.
    Status { conn: Option<String>, path: String },
    /// Initialize the bookkeeping table.
    Init { conn: Option<String> },
    /// Show which migrations would be applied.
    Plan { conn: Option<String>, path: String },
    /// Check system readiness.
    Health { path: String, dialect: String },
    /// Generate a configuration file.
    Config { output: String, env: Option<String> },
    /// Validate files against the bookkeeping table.
    Validate { conn: Option<String>, path: String },
    /// Roll back applied migrations.
    Rollback {
        conn: Option<String>,
        path: String,
        steps: u32,
        to_version: Option<u32>,
        dry_run: bool,
        force: bool,
    },
    /// Mark a version as already represented in the schema.
    Baseline {
        conn: Option<String>,
        version: u32,
        description: String,
        from_schema: bool,
        dry_run: bool,
    },
}

/// Why parsing stopped without a command.
#[derive(Debug, Clone, Copy, PartialEq, Eq, Structural)]
pub enum CliError {
    /// `--help` or `-h` was given.
    HelpRequested,
    /// `--version` or `-V` was given.
    VersionRequested,
    /// No subcommand was given.
    MissingSubcommand,
    /// The subcommand is not one of the known commands.
    UnknownCommand,
    /// A flag is not accepted here.
    UnknownFlag,
    /// A flag that takes a value stands last.
    MissingValue,
    /// A numeric flag's value is not a number in range.
    InvalidNumber,
    /// `--steps` and `--to-version` exclude each other.
    ConflictingFlags,
    /// A required flag is missing.
    MissingRequired,
    /// A stray positional argument follows the command.
    UnexpectedArgument,
}

// ---- the grammar, as ghost values ----
/// The ghost image of a parsed invocation.
#[verifier::ext_equal]
pub ghost struct CliView {
    pub config: Option<Seq<char>>,
    pub env: Option<Seq<char>>,
    pub command: CommandsView,
}

/// The ghost image of a command.
#[verifier::ext_equal]
pub ghost enum CommandsView {
    Apply { conn: Option<Seq<char>>, path: Seq<char>, dry_run: bool },
    Status { conn: Option<Seq<char>>, path: Seq<char> },
    Init { conn: Option<Seq<char>> },
    Plan { conn: Option<Seq<char>>, path: Seq<char> },
    Health { path: Seq<char>, dialect: Seq<char> },
    Config { output: Seq<char>, env: Option<Seq<char>> },
    Validate { conn: Option<Seq<char>>, path: Seq<char> },
    Rollback {
        conn: Option<Seq<char>>,
        path: Seq<char>,
        steps: u32,
        to_version: Option<u32>,
        dry_run: bool,
        force: bool,
    },
    Baseline {
        conn: Option<Seq<char>>,
        version: u32,
        description: Seq<char>,
        from_schema: bool,
        dry_run: bool,
    },
}

/// The ghost image of a command value.
pub open spec fn commands_view(c: Commands) -> CommandsView {
    match c {
        Commands::Apply { conn, path, dry_run } => CommandsView::Apply {
            conn: opt_str_view(conn),
            path: path@,
            dry_run,
        },
        Commands::Status { conn, path } => CommandsView::Status {
            conn: opt_str_view(conn),
            path: path@,
        },
        Commands::Init { conn } => CommandsView::Init { conn: opt_str_view(conn) },
        Commands::Plan { conn, path } => CommandsView::Plan {
            conn: opt_str_view(conn),
            path: path@,
        },
        Commands::Health { path, dialect } => CommandsView::Health {
            path: path@,
            dialect: dialect@,
        },
        Commands::Config { output, env } => CommandsView::Config {
            output: output@,
            env: opt_str_view(env),
        },
        Commands::Validate { conn, path } => CommandsView::Validate {
            conn: opt_str_view(conn),
            path: path@,
        },
        Commands::Rollback { conn, path, steps, to_version, dry_run, force } => CommandsView::Rollback {
            conn: opt_str_view(conn),
            path: path@,
            steps,
            to_version,
            dry_run,
            force,
        },
        Commands::Baseline { conn, version, description, from_schema, dry_run } => CommandsView::Baseline {
            conn: opt_str_view(conn),
            version,
            description: description@,
            from_schema,
            dry_run,
        },
    }
}

/// The ghost image of a parsed invocation value.
pub open spec fn cli_view(c: Cli) -> CliView {
    CliView { config: opt_str_view(c.config), env: opt_str_view(c.env), command: commands_view(c.command) }
}

/// Whether a token is help or version, ending parsing.
pub open spec fn spec_meta_flag(t: Seq<char>) -> Option<CliError> {
    if t == "--help"@ || t == "-h"@ {
        Some(CliError::HelpRequested)
    } else if t == "--version"@ || t == "-V"@ {
        Some(CliError::VersionRequested)
    } else {
        None
    }
}

/// Whether a token looks like a flag.
pub open spec fn spec_is_flag(t: Seq<char>) -> bool {
    t.len() > 0 && t[0] == '-'
}

/// The number a numeric flag's value names, or the in-range condition.
pub open spec fn spec_is_u32(t: Seq<char>) -> bool {
    t.len() > 0 && spec_all_digits(t) && spec_dec_val(t) <= u32::MAX
}

/// Consumes the global options before the subcommand; stops at the first
/// token that is not a global option.
pub open spec fn spec_parse_globals(
    args: Seq<Seq<char>>,
    i: int,
    config: Option<Seq<char>>,
    env: Option<Seq<char>>,
) -> Result<(int, Option<Seq<char>>, Option<Seq<char>>), CliError>
    decreases args.len() - i,
{
    if i < 0 || i >= args.len() {
        Err(CliError::MissingSubcommand)
    } else {
        let t = args[i];
        if spec_meta_flag(t) is Some {
            Err(spec_meta_flag(t)->Some_0)
        } else if t == "--config"@ {
            if i + 1 < args.len() {
                spec_parse_globals(args, i + 2, Some(args[i + 1]), env)
            } else {
                Err(CliError::MissingValue)
            }
        } else if t == "--env"@ {
            if i + 1 < args.len() {
                spec_parse_globals(args, i + 2, config, Some(args[i + 1]))
            } else {
                Err(CliError::MissingValue)
            }
        } else if spec_is_flag(t) {
            Err(CliError::UnknownFlag)
        } else {
            Ok((i, config, env))
        }
    }
}

/// The three commands that take a connection string and a path.
#[derive(Debug, Clone, Copy, PartialEq, Eq, Structural)]
pub enum ConnPathCommand {
    Status,
    Plan,
    Validate,
}

/// Assembles the ghost command for a connection-and-path command.
pub open spec fn spec_conn_path_view(
    kind: ConnPathCommand,
    conn: Option<Seq<char>>,
    path: Seq<char>,
) -> CommandsView {
    match kind {
        ConnPathCommand::Status => CommandsView::Status { conn, path },
        ConnPathCommand::Plan => CommandsView::Plan { conn, path },
        ConnPathCommand::Validate => CommandsView::Validate { conn, path },
    }
}

/// Parses the flags of a connection-and-path command.
pub open spec fn spec_parse_conn_path(
    kind: ConnPathCommand,
    args: Seq<Seq<char>>,
    i: int,
    config: Option<Seq<char>>,
    env: Option<Seq<char>>,
    conn: Option<Seq<char>>,
    path: Option<Seq<char>>,
) -> Result<CliView, CliError>
    decreases args.len() - i,
{
    if i < 0 {
        Err(CliError::UnexpectedArgument)
    } else if i >= args.len() {
        Ok(
            CliView {
                config,
                env,
                command: spec_conn_path_view(
                    kind,
                    conn,
                    match path {
                        Some(p) => p,
                        None => "./migrations"@,
                    },
                ),
            },
        )
    } else {
        let t = args[i];
        if spec_meta_flag(t) is Some {
            Err(spec_meta_flag(t)->Some_0)
        } else if t == "--conn"@ {
            if i + 1 < args.len() {
                spec_parse_conn_path(kind, args, i + 2, config, env, Some(args[i + 1]), path)
            } else {
                Err(CliError::MissingValue)
            }
        } else if t == "--path"@ {
            if i + 1 < args.len() {
                spec_parse_conn_path(kind, args, i + 2, config, env, conn, Some(args[i + 1]))
            } else {
                Err(CliError::MissingValue)
            }
        } else if t == "--config"@ {
            if i + 1 < args.len() {
                spec_parse_conn_path(kind, args, i + 2, Some(args[i + 1]), env, conn, path)
            } else {
                Err(CliError::MissingValue)
            }
        } else if t == "--env"@ {
            if i + 1 < args.len() {
                spec_parse_conn_path(kind, args, i + 2, config, Some(args[i + 1]), conn, path)
            } else {
                Err(CliError::MissingValue)
            }
        } else if spec_is_flag(t) {
            Err(CliError::UnknownFlag)
        } else {
            Err(CliError::UnexpectedArgument)
        }
    }
}

/// Parses the flags of `apply`.
pub open spec fn spec_parse_apply(
    args: Seq<Seq<char>>,
    i: int,
    config: Option<Seq<char>>,
    env: Option<Seq<char>>,
    conn: Option<Seq<char>>,
    path: Option<Seq<char>>,
    dry_run: bool,
) -> Result<CliView, CliError>
    decreases args.len() - i,
{
    if i < 0 {
        Err(CliError::UnexpectedArgument)
    } else if i >= args.len() {
        Ok(
            CliView {
                config,
                env,
                command: CommandsView::Apply {
                    conn,
                    path: match path {
                        Some(p) => p,
                        None => "./migrations"@,
                    },
                    dry_run,
                },
            },
        )
    } else {
        let t = args[i];
        if spec_meta_flag(t) is Some {
            Err(spec_meta_flag(t)->Some_0)
        } else if t == "--conn"@ {
            if i + 1 < args.len() {
                spec_parse_apply(args, i + 2, config, env, Some(args[i + 1]), path, dry_run)
            } else {
                Err(CliError::MissingValue)
            }
        } else if t == "--path"@ {
            if i + 1 < args.len() {
                spec_parse_apply(args, i + 2, config, env, conn, Some(args[i + 1]), dry_run)
            } else {
                Err(CliError::MissingValue)
            }
        } else if t == "--dry-run"@ {
            spec_parse_apply(args, i + 1, config, env, conn, path, true)
        } else if t == "--config"@ {
            if i + 1 < args.len() {
                spec_parse_apply(args, i + 2, Some(args[i + 1]), env, conn, path, dry_run)
            } else {
                Err(CliError::MissingValue)
            }
        } else if t == "--env"@ {
            if i + 1 < args.len() {
                spec_parse_apply(args, i + 2, config, Some(args[i + 1]), conn, path, dry_run)
            } else {
                Err(CliError::MissingValue)
            }
        } else if spec_is_flag(t) {
            Err(CliError::UnknownFlag)
        } else {
            Err(CliError::UnexpectedArgument)
        }
    }
}

/// Parses the flags of `init`.
pub open spec fn spec_parse_init(
    args: Seq<Seq<char>>,
    i: int,
    config: Option<Seq<char>>,
    env: Option<Seq<char>>,
    conn: Option<Seq<char>>,
) -> Result<CliView, CliError>
    decreases args.len() - i,
{
    if i < 0 {
        Err(CliError::UnexpectedArgument)
    } else if i >= args.len() {
        Ok(CliView { config, env, command: CommandsView::Init { conn } })
    } else {
        let t = args[i];
        if spec_meta_flag(t) is Some {
            Err(spec_meta_flag(t)->Some_0)
        } else if t == "--conn"@ {
            if i + 1 < args.len() {
                spec_parse_init(args, i + 2, config, env, Some(args[i + 1]))
            } else {
                Err(CliError::MissingValue)
            }
        } else if t == "--config"@ {
            if i + 1 < args.len() {
                spec_parse_init(args, i + 2, Some(args[i + 1]), env, conn)
            } else {
                Err(CliError::MissingValue)
            }
        } else if t == "--env"@ {
            if i + 1 < args.len() {
                spec_parse_init(args, i + 2, config, Some(args[i + 1]), conn)
            } else {
                Err(CliError::MissingValue)
            }
        } else if spec_is_flag(t) {
            Err(CliError::UnknownFlag)
        } else {
            Err(CliError::UnexpectedArgument)
        }
    }
}

/// Parses the flags of `health`.
pub open spec fn spec_parse_health(
    args: Seq<Seq<char>>,
    i: int,
    config: Option<Seq<char>>,
    env: Option<Seq<char>>,
    path: Option<Seq<char>>,
    dialect: Option<Seq<char>>,
) -> Result<CliView, CliError>
    decreases args.len() - i,
{
    if i < 0 {
        Err(CliError::UnexpectedArgument)
    } else if i >= args.len() {
        Ok(
            CliView {
                config,
                env,
                command: CommandsView::Health {
                    path: match path {
                        Some(p) => p,
                        None => "./migrations"@,
                    },
                    dialect: match dialect {
                        Some(d) => d,
                        None => "postgres"@,
                    },
                },
            },
        )
    } else {
        let t = args[i];
        if spec_meta_flag(t) is Some {
            Err(spec_meta_flag(t)->Some_0)
        } else if t == "--path"@ {
            if i + 1 < args.len() {
                spec_parse_health(args, i + 2, config, env, Some(args[i + 1]), dialect)
            } else {
                Err(CliError::MissingValue)
            }
        } else if t == "--dialect"@ {
            if i + 1 < args.len() {
                spec_parse_health(args, i + 2, config, env, path, Some(args[i + 1]))
            } else {
                Err(CliError::MissingValue)
            }
        } else if t == "--config"@ {
            if i + 1 < args.len() {
                spec_parse_health(args, i + 2, Some(args[i + 1]), env, path, dialect)
            } else {
                Err(CliError::MissingValue)
            }
        } else if t == "--env"@ {
            if i + 1 < args.len() {
                spec_parse_health(args, i + 2, config, Some(args[i + 1]), path, dialect)
            } else {
                Err(CliError::MissingValue)
            }
        } else if spec_is_flag(t) {
            Err(CliError::UnknownFlag)
        } else {
            Err(CliError::UnexpectedArgument)
        }
    }
}

/// Parses the flags of `config`; its own `--env` names the environment
/// file to generate.
pub open spec fn spec_parse_config_cmd(
    args: Seq<Seq<char>>,
    i: int,
    config: Option<Seq<char>>,
    output: Option<Seq<char>>,
    env: Option<Seq<char>>,
) -> Result<CliView, CliError>
    decreases args.len() - i,
{
    if i < 0 {
        Err(CliError::UnexpectedArgument)
    } else if i >= args.len() {
        Ok(
            CliView {
                config,
                env: None,
                command: CommandsView::Config {
                    output: match output {
                        Some(o) => o,
                        None => "config.toml"@,
                    },
                    env,
                },
            },
        )
    } else {
        let t = args[i];
        if spec_meta_flag(t) is Some {
            Err(spec_meta_flag(t)->Some_0)
        } else if t == "--output"@ {
            if i + 1 < args.len() {
                spec_parse_config_cmd(args, i + 2, config, Some(args[i + 1]), env)
            } else {
                Err(CliError::MissingValue)
            }
        } else if t == "--env"@ {
            if i + 1 < args.len() {
                spec_parse_config_cmd(args, i + 2, config, output, Some(args[i + 1]))
            } else {
                Err(CliError::MissingValue)
            }
        } else if t == "--config"@ {
            if i + 1 < args.len() {
                spec_parse_config_cmd(args, i + 2, Some(args[i + 1]), output, env)
            } else {
                Err(CliError::MissingValue)
            }
        } else if spec_is_flag(t) {
            Err(CliError::UnknownFlag)
        } else {
            Err(CliError::UnexpectedArgument)
        }
    }
}

/// Parses the flags of `rollback`; `--steps` and `--to-version` exclude
/// each other.
pub open spec fn spec_parse_rollback(
    args: Seq<Seq<char>>,
    i: int,
    config: Option<Seq<char>>,
    env: Option<Seq<char>>,
    conn: Option<Seq<char>>,
    path: Option<Seq<char>>,
    steps: Option<u32>,
    to_version: Option<u32>,
    dry_run: bool,
    force: bool,
) -> Result<CliView, CliError>
    decreases args.len() - i,
{
    if i < 0 {
        Err(CliError::UnexpectedArgument)
    } else if i >= args.len() {
        if steps is Some && to_version is Some {
            Err(CliError::ConflictingFlags)
        } else {
            Ok(
                CliView {
                    config,
                    env,
                    command: CommandsView::Rollback {
                        conn,
                        path: match path {
                            Some(p) => p,
                            None => "./migrations"@,
                        },
                        steps: match steps {
                            Some(n) => n,
                            None => 1u32,
                        },
                        to_version,
                        dry_run,
                        force,
                    },
                },
            )
        }
    } else {
        let t = args[i];
        if spec_meta_flag(t) is Some {
            Err(spec_meta_flag(t)->Some_0)
        } else if t == "--conn"@ {
            if i + 1 < args.len() {
                spec_parse_rollback(
                    args,
                    i + 2,
                    config,
                    env,
                    Some(args[i + 1]),
                    path,
                    steps,
                    to_version,
                    dry_run,
                    force,
                )
            } else {
                Err(CliError::MissingValue)
            }
        } else if t == "--path"@ {
            if i + 1 < args.len() {
                spec_parse_rollback(
                    args,
                    i + 2,
                    config,
                    env,
                    conn,
                    Some(args[i + 1]),
                    steps,
                    to_version,
                    dry_run,
                    force,
                )
            } else {
                Err(CliError::MissingValue)
            }
        } else if t == "--steps"@ {
            if i + 1 < args.len() {
                if spec_is_u32(args[i + 1]) {
                    spec_parse_rollback(
                        args,
                        i + 2,
                        config,
                        env,
                        conn,
                        path,
                        Some(spec_dec_val(args[i + 1]) as u32),
                        to_version,
                        dry_run,
                        force,
                    )
                } else {
                    Err(CliError::InvalidNumber)
                }
            } else {
                Err(CliError::MissingValue)
            }
        } else if t == "--to-version"@ {
            if i + 1 < args.len() {
                if spec_is_u32(args[i + 1]) {
                    spec_parse_rollback(
                        args,
                        i + 2,
                        config,
                        env,
                        conn,
                        path,
                        steps,
                        Some(spec_dec_val(args[i + 1]) as u32),
                        dry_run,
                        force,
                    )
                } else {
                    Err(CliError::InvalidNumber)
                }
            } else {
                Err(CliError::MissingValue)
            }
        } else if t == "--dry-run"@ {
            spec_parse_rollback(args, i + 1, config, env, conn, path, steps, to_version, true, force)
        } else if t == "--force"@ {
            spec_parse_rollback(args, i + 1, config, env, conn, path, steps, to_version, dry_run, true)
        } else if t == "--config"@ {
            if i + 1 < args.len() {
                spec_parse_rollback(
                    args,
                    i + 2,
                    Some(args[i + 1]),
                    env,
                    conn,
                    path,
                    steps,
                    to_version,
                    dry_run,
                    force,
                )
            } else {
                Err(CliError::MissingValue)
            }
        } else if t == "--env"@ {
            if i + 1 < args.len() {
                spec_parse_rollback(
                    args,
                    i + 2,
                    config,
                    Some(args[i + 1]),
                    conn,
                    path,
                    steps,
                    to_version,
                    dry_run,
                    force,
                )
            } else {
                Err(CliError::MissingValue)
            }
        } else if spec_is_flag(t) {
            Err(CliError::UnknownFlag)
        } else {
            Err(CliError::UnexpectedArgument)
        }
    }
}

/// Parses the flags of `baseline`; `--version` is required.
pub open spec fn spec_parse_baseline(
    args: Seq<Seq<char>>,
    i: int,
    config: Option<Seq<char>>,
    env: Option<Seq<char>>,
    conn: Option<Seq<char>>,
    version: Option<u32>,
    description: Option<Seq<char>>,
    from_schema: bool,
    dry_run: bool,
) -> Result<CliView, CliError>
    decreases args.len() - i,
{
    if i < 0 {
        Err(CliError::UnexpectedArgument)
    } else if i >= args.len() {
        match version {
            None => Err(CliError::MissingRequired),
            Some(v) => Ok(
                CliView {
                    config,
                    env,
                    command: CommandsView::Baseline {
                        conn,
                        version: v,
                        description: match description {
                            Some(d) => d,
                            None => Seq::empty(),
                        },
                        from_schema,
                        dry_run,
                    },
                },
            ),
        }
    } else {
        let t = args[i];
        if spec_meta_flag(t) is Some {
            Err(spec_meta_flag(t)->Some_0)
        } else if t == "--conn"@ {
            if i + 1 < args.len() {
                spec_parse_baseline(
                    args,
                    i + 2,
                    config,
                    env,
                    Some(args[i + 1]),
                    version,
                    description,
                    from_schema,
                    dry_run,
                )
            } else {
                Err(CliError::MissingValue)
            }
        } else if t == "--baseline-version"@ {
            if i + 1 < args.len() {
                if spec_is_u32(args[i + 1]) {
                    spec_parse_baseline(
                        args,
                        i + 2,
                        config,
                        env,
                        conn,
                        Some(spec_dec_val(args[i + 1]) as u32),
                        description,
                        from_schema,
                        dry_run,
                    )
                } else {
                    Err(CliError::InvalidNumber)
                }
            } else {
                Err(CliError::MissingValue)
            }
        } else if t == "--description"@ {
            if i + 1 < args.len() {
                spec_parse_baseline(
                    args,
                    i + 2,
                    config,
                    env,
                    conn,
                    version,
                    Some(args[i + 1]),
                    from_schema,
                    dry_run,
                )
            } else {
                Err(CliError::MissingValue)
            }
        } else if t == "--from-schema"@ {
            spec_parse_baseline(args, i + 1, config, env, conn, version, description, true, dry_run)
        } else if t == "--dry-run"@ {
            spec_parse_baseline(args, i + 1, config, env, conn, version, description, from_schema, true)
        } else if t == "--config"@ {
            if i + 1 < args.len() {
                spec_parse_baseline(
                    args,
                    i + 2,
                    Some(args[i + 1]),
                    env,
                    conn,
                    version,
                    description,
                    from_schema,
                    dry_run,
                )
            } else {
                Err(CliError::MissingValue)
            }
        } else if t == "--env"@ {
            if i + 1 < args.len() {
                spec_parse_baseline(
                    args,
                    i + 2,
                    config,
                    Some(args[i + 1]),
                    conn,
                    version,
                    description,
                    from_schema,
                    dry_run,
                )
            } else {
                Err(CliError::MissingValue)
            }
        } else if spec_is_flag(t) {
            Err(CliError::UnknownFlag)
        } else {
            Err(CliError::UnexpectedArgument)
        }
    }
}

/// What the whole argument list parses to.
pub open spec fn spec_parse_cli(args: Seq<Seq<char>>) -> Result<CliView, CliError> {
    match spec_parse_globals(args, 1, None, None) {
        Err(e) => Err(e),
        Ok((i, config, env)) => {
            let cmd = args[i];
            if cmd == "apply"@ {
                spec_parse_apply(args, i + 1, config, env, None, None, false)
            } else if cmd == "status"@ {
                spec_parse_conn_path(ConnPathCommand::Status, args, i + 1, config, env, None, None)
            } else if cmd == "init"@ {
                spec_parse_init(args, i + 1, config, env, None)
            } else if cmd == "plan"@ {
                spec_parse_conn_path(ConnPathCommand::Plan, args, i + 1, config, env, None, None)
            } else if cmd == "health"@ {
                spec_parse_health(args, i + 1, config, env, None, None)
            } else if cmd == "config"@ {
                spec_parse_config_cmd(args, i + 1, config, None, env)
            } else if cmd == "validate"@ {
                spec_parse_conn_path(
                    ConnPathCommand::Validate,
                    args,
                    i + 1,
                    config,
                    env,
                    None,
                    None,
                )
            } else if cmd == "rollback"@ {
                spec_parse_rollback(
                    args,
                    i + 1,
                    config,
                    env,
                    None,
                    None,
                    None,
                    None,
                    false,
                    false,
                )
            } else if cmd == "baseline"@ {
                spec_parse_baseline(args, i + 1, config, env, None, None, None, false, false)
            } else {
                Err(CliError::UnknownCommand)
            }
        },
    }
}

// ---- the executable parser ----
fn meta_flag(t: &str) -> (r: Option<CliError>)
    ensures
        r == spec_meta_flag(t@),
{
    if str_eq(t, "--help") || str_eq(t, "-h") {
        Some(CliError::HelpRequested)
    } else if str_eq(t, "--version") || str_eq(t, "-V") {
        Some(CliError::VersionRequested)
    } else {
        None
    }
}

fn is_flag(t: &str) -> (r: bool)
    ensures
        r == spec_is_flag(t@),
{
    t.unicode_len() > 0 && t.get_char(0) == '-'
}

fn parse_globals(args: &Vec<String>, i: usize, config: Option<String>, env: Option<String>) -> (r:
    Result<(usize, Option<String>, Option<String>), CliError>)
    requires
        i <= args@.len(),
    ensures
        match r {
            Ok(t) => spec_parse_globals(
                spec_views(args@),
                i as int,
                opt_str_view(config),
                opt_str_view(env),
            ) == Ok::<_, CliError>((t.0 as int, opt_str_view(t.1), opt_str_view(t.2))) && t.0
                < args@.len(),
            Err(e) => spec_parse_globals(
                spec_views(args@),
                i as int,
                opt_str_view(config),
                opt_str_view(env),
            ) == Err::<(int, Option<Seq<char>>, Option<Seq<char>>), CliError>(e),
        },
    decreases args@.len() - i,
{
    if i >= args.len() {
        return Err(CliError::MissingSubcommand);
    }
    proof {
        assert(spec_views(args@)[i as int] == args@[i as int]@);
    }
    let t = &args[i];
    match meta_flag(t.as_str()) {
        Some(e) => {
            return Err(e);
        },
        None => {},
    }
    if str_eq(t.as_str(), "--config") {
        if i + 1 < args.len() {
            proof {
                assert(spec_views(args@)[i + 1] == args@[i + 1]@);
            }
            parse_globals(args, i + 2, Some(args[i + 1].clone()), env)
        } else {
            Err(CliError::MissingValue)
        }
    } else if str_eq(t.as_str(), "--env") {
        if i + 1 < args.len() {
            proof {
                assert(spec_views(args@)[i + 1] == args@[i + 1]@);
            }
            parse_globals(args, i + 2, config, Some(args[i + 1].clone()))
        } else {
            Err(CliError::MissingValue)
        }
    } else if is_flag(t.as_str()) {
        Err(CliError::UnknownFlag)
    } else {
        Ok((i, config, env))
    }
}

/// Reads the token after a flag as a number in range.
fn flag_number(args: &Vec<String>, i: usize) -> (r: Result<u32, CliError>)
    requires
        i < args@.len(),
    ensures
        match r {
            Ok(v) => spec_is_u32(args@[i as int]@) && v as int == spec_dec_val(args@[i as int]@),
            Err(e) => !spec_is_u32(args@[i as int]@) && e == CliError::InvalidNumber,
        },
{
    match parse_u32(args[i].as_str()) {
        Some(v) => Ok(v),
        None => Err(CliError::InvalidNumber),
    }
}

impl Cli {
    /// Parses an argument list (the first element is the program name)
    /// into an invocation, or says why it is not one. Pure: the result is
    /// a function of the arguments alone.
    pub fn try_parse_from(args: Vec<String>) -> (r: Result<Cli, CliError>)
        ensures
            match r {
                Ok(cli) => spec_parse_cli(spec_views(args@)) == Ok::<CliView, CliError>(
                    cli_view(cli),
                ),
                Err(e) => spec_parse_cli(spec_views(args@)) == Err::<CliView, CliError>(e),
            },
    {
        let (i, config, env) = match parse_globals(&args, if args.len() == 0 {
            0
        } else {
            1
        }, None, None) {
            Ok(t) => t,
            Err(e) => {
                proof {
                    if args@.len() == 0 {
                        assert(spec_parse_globals(spec_views(args@), 1, None, None)
                            == Err::<(int, Option<Seq<char>>, Option<Seq<char>>), CliError>(
                            CliError::MissingSubcommand,
                        ));
                    }
                }
                return Err(e);
            },
        };
        proof {
            assert(spec_views(args@)[i as int] == args@[i as int]@);
        }
        let cmd = &args[i];
        if str_eq(cmd.as_str(), "apply") {
            parse_apply(&args, i + 1, config, env, None, None, false)
        } else if str_eq(cmd.as_str(), "status") {
            parse_conn_path(ConnPathCommand::Status, &args, i + 1, config, env, None, None)
        } else if str_eq(cmd.as_str(), "init") {
            parse_init(&args, i + 1, config, env, None)
        } else if str_eq(cmd.as_str(), "plan") {
            parse_conn_path(ConnPathCommand::Plan, &args, i + 1, config, env, None, None)
        } else if str_eq(cmd.as_str(), "health") {
            parse_health(&args, i + 1, config, env, None, None)
        } else if str_eq(cmd.as_str(), "config") {
            parse_config_cmd(&args, i + 1, config, None, env)
        } else if str_eq(cmd.as_str(), "validate") {
            parse_conn_path(ConnPathCommand::Validate, &args, i + 1, config, env, None, None)
        } else if str_eq(cmd.as_str(), "rollback") {
            parse_rollback(&args, i + 1, config, env, None, None, None, None, false, false)
        } else if str_eq(cmd.as_str(), "baseline") {
            parse_baseline(&args, i + 1, config, env, None, None, None, false, false)
        } else {
            Err(CliError::UnknownCommand)
        }
    }
}

fn parse_conn_path(
    kind: ConnPathCommand,
    args: &Vec<String>,
    i: usize,
    config: Option<String>,
    env: Option<String>,
    conn: Option<String>,
    path: Option<String>,
) -> (r: Result<Cli, CliError>)
    requires
        i <= args@.len(),
    ensures
        match r {
            Ok(cli) => spec_parse_conn_path(
                kind,
                spec_views(args@),
                i as int,
                opt_str_view(config),
                opt_str_view(env),
                opt_str_view(conn),
                opt_str_view(path),
            ) == Ok::<CliView, CliError>(cli_view(cli)),
            Err(e) => spec_parse_conn_path(
                kind,
                spec_views(args@),
                i as int,
                opt_str_view(config),
                opt_str_view(env),
                opt_str_view(conn),
                opt_str_view(path),
            ) == Err::<CliView, CliError>(e),
        },
    decreases args@.len() - i,
{
    if i >= args.len() {
        let path = match path {
            Some(p) => p,
            None => String::from_str("./migrations"),
        };
        let command = match kind {
            ConnPathCommand::Status => Commands::Status { conn, path },
            ConnPathCommand::Plan => Commands::Plan { conn, path },
            ConnPathCommand::Validate => Commands::Validate { conn, path },
        };
        let cli = Cli { config, env, command };
        return Ok(cli);
    }
    proof {
        assert(spec_views(args@)[i as int] == args@[i as int]@);
    }
    let t = &args[i];
    match meta_flag(t.as_str()) {
        Some(e) => {
            return Err(e);
        },
        None => {},
    }
    proof {
        if i + 1 < args@.len() {
            assert(spec_views(args@)[i + 1] == args@[i + 1]@);
        }
    }
    if str_eq(t.as_str(), "--conn") {
        if i + 1 < args.len() {
            parse_conn_path(kind, args, i + 2, config, env, Some(args[i + 1].clone()), path)
        } else {
            Err(CliError::MissingValue)
        }
    } else if str_eq(t.as_str(), "--path") {
        if i + 1 < args.len() {
            parse_conn_path(kind, args, i + 2, config, env, conn, Some(args[i + 1].clone()))
        } else {
            Err(CliError::MissingValue)
        }
    } else if str_eq(t.as_str(), "--config") {
        if i + 1 < args.len() {
            parse_conn_path(kind, args, i + 2, Some(args[i + 1].clone()), env, conn, path)
        } else {
            Err(CliError::MissingValue)
        }
    } else if str_eq(t.as_str(), "--env") {
        if i + 1 < args.len() {
            parse_conn_path(kind, args, i + 2, config, Some(args[i + 1].clone()), conn, path)
        } else {
            Err(CliError::MissingValue)
        }
    } else if is_flag(t.as_str()) {
        Err(CliError::UnknownFlag)
    } else {
        Err(CliError::UnexpectedArgument)
    }
}

fn parse_apply(
    args: &Vec<String>,
    i: usize,
    config: Option<String>,
    env: Option<String>,
    conn: Option<String>,
    path: Option<String>,
    dry_run: bool,
) -> (r: Result<Cli, CliError>)
    requires
        i <= args@.len(),
    ensures
        match r {
            Ok(cli) => spec_parse_apply(
                spec_views(args@),
                i as int,
                opt_str_view(config),
                opt_str_view(env),
                opt_str_view(conn),
                opt_str_view(path),
                dry_run,
            ) == Ok::<CliView, CliError>(cli_view(cli)),
            Err(e) => spec_parse_apply(
                spec_views(args@),
                i as int,
                opt_str_view(config),
                opt_str_view(env),
                opt_str_view(conn),
                opt_str_view(path),
                dry_run,
            ) == Err::<CliView, CliError>(e),
        },
    decreases args@.len() - i,
{
    if i >= args.len() {
        let path = match path {
            Some(p) => p,
            None => String::from_str("./migrations"),
        };
        let cli = Cli { config, env, command: Commands::Apply { conn, path, dry_run } };
        return Ok(cli);
    }
    proof {
        assert(spec_views(args@)[i as int] == args@[i as int]@);
        if i + 1 < args@.len() {
            assert(spec_views(args@)[i + 1] == args@[i + 1]@);
        }
    }
    let t = &args[i];
    match meta_flag(t.as_str()) {
        Some(e) => {
            return Err(e);
        },
        None => {},
    }
    if str_eq(t.as_str(), "--conn") {
        if i + 1 < args.len() {
            parse_apply(args, i + 2, config, env, Some(args[i + 1].clone()), path, dry_run)
        } else {
            Err(CliError::MissingValue)
        }
    } else if str_eq(t.as_str(), "--path") {
        if i + 1 < args.len() {
            parse_apply(args, i + 2, config, env, conn, Some(args[i + 1].clone()), dry_run)
        } else {
            Err(CliError::MissingValue)
        }
    } else if str_eq(t.as_str(), "--dry-run") {
        parse_apply(args, i + 1, config, env, conn, path, true)
    } else if str_eq(t.as_str(), "--config") {
        if i + 1 < args.len() {
            parse_apply(args, i + 2, Some(args[i + 1].clone()), env, conn, path, dry_run)
        } else {
            Err(CliError::MissingValue)
        }
    } else if str_eq(t.as_str(), "--env") {
        if i + 1 < args.len() {
            parse_apply(args, i + 2, config, Some(args[i + 1].clone()), conn, path, dry_run)
        } else {
            Err(CliError::MissingValue)
        }
    } else if is_flag(t.as_str()) {
        Err(CliError::UnknownFlag)
    } else {
        Err(CliError::UnexpectedArgument)
    }
}

fn parse_init(
    args: &Vec<String>,
    i: usize,
    config: Option<String>,
    env: Option<String>,
    conn: Option<String>,
) -> (r: Result<Cli, CliError>)
    requires
        i <= args@.len(),
    ensures
        match r {
            Ok(cli) => spec_parse_init(
                spec_views(args@),
                i as int,
                opt_str_view(config),
                opt_str_view(env),
                opt_str_view(conn),
            ) == Ok::<CliView, CliError>(cli_view(cli)),
            Err(e) => spec_parse_init(
                spec_views(args@),
                i as int,
                opt_str_view(config),
                opt_str_view(env),
                opt_str_view(conn),
            ) == Err::<CliView, CliError>(e),
        },
    decreases args@.len() - i,
{
    if i >= args.len() {
        let cli = Cli { config, env, command: Commands::Init { conn } };
        return Ok(cli);
    }
    proof {
        assert(spec_views(args@)[i as int] == args@[i as int]@);
        if i + 1 < args@.len() {
            assert(spec_views(args@)[i + 1] == args@[i + 1]@);
        }
    }
    let t = &args[i];
    match meta_flag(t.as_str()) {
        Some(e) => {
            return Err(e);
        },
        None => {},
    }
    if str_eq(t.as_str(), "--conn") {
        if i + 1 < args.len() {
            parse_init(args, i + 2, config, env, Some(args[i + 1].clone()))
        } else {
            Err(CliError::MissingValue)
        }
    } else if str_eq(t.as_str(), "--config") {
        if i + 1 < args.len() {
            parse_init(args, i + 2, Some(args[i + 1].clone()), env, conn)
        } else {
            Err(CliError::MissingValue)
        }
    } else if str_eq(t.as_str(), "--env") {
        if i + 1 < args.len() {
            parse_init(args, i + 2, config, Some(args[i + 1].clone()), conn)
        } else {
            Err(CliError::MissingValue)
        }
    } else if is_flag(t.as_str()) {
        Err(CliError::UnknownFlag)
    } else {
        Err(CliError::UnexpectedArgument)
    }
}

fn parse_health(
    args: &Vec<String>,
    i: usize,
    config: Option<String>,
    env: Option<String>,
    path: Option<String>,
    dialect: Option<String>,
) -> (r: Result<Cli, CliError>)
    requires
        i <= args@.len(),
    ensures
        match r {
            Ok(cli) => spec_parse_health(
                spec_views(args@),
                i as int,
                opt_str_view(config),
                opt_str_view(env),
                opt_str_view(path),
                opt_str_view(dialect),
            ) == Ok::<CliView, CliError>(cli_view(cli)),
            Err(e) => spec_parse_health(
                spec_views(args@),
                i as int,
                opt_str_view(config),
                opt_str_view(env),
                opt_str_view(path),
                opt_str_view(dialect),
            ) == Err::<CliView, CliError>(e),
        },
    decreases args@.len() - i,
{
    if i >= args.len() {
        let path = match path {
            Some(p) => p,
            None => String::from_str("./migrations"),
        };
        let dialect = match dialect {
            Some(d) => d,
            None => String::from_str("postgres"),
        };
        let cli = Cli { config, env, command: Commands::Health { path, dialect } };
        return Ok(cli);
    }
    proof {
        assert(spec_views(args@)[i as int] == args@[i as int]@);
        if i + 1 < args@.len() {
            assert(spec_views(args@)[i + 1] == args@[i + 1]@);
        }
    }
    let t = &args[i];
    match meta_flag(t.as_str()) {
        Some(e) => {
            return Err(e);
        },
        None => {},
    }
    if str_eq(t.as_str(), "--path") {
        if i + 1 < args.len() {
            parse_health(args, i + 2, config, env, Some(args[i + 1].clone()), dialect)
        } else {
            Err(CliError::MissingValue)
        }
    } else if str_eq(t.as_str(), "--dialect") {
        if i + 1 < args.len() {
            parse_health(args, i + 2, config, env, path, Some(args[i + 1].clone()))
        } else {
            Err(CliError::MissingValue)
        }
    } else if str_eq(t.as_str(), "--config") {
        if i + 1 < args.len() {
            parse_health(args, i + 2, Some(args[i + 1].clone()), env, path, dialect)
        } else {
            Err(CliError::MissingValue)
        }
    } else if str_eq(t.as_str(), "--env") {
        if i + 1 < args.len() {
            parse_health(args, i + 2, config, Some(args[i + 1].clone()), path, dialect)
        } else {
            Err(CliError::MissingValue)
        }
    } else if is_flag(t.as_str()) {
        Err(CliError::UnknownFlag)
    } else {
        Err(CliError::UnexpectedArgument)
    }
}

fn parse_config_cmd(
    args: &Vec<String>,
    i: usize,
    config: Option<String>,
    output: Option<String>,
    env: Option<String>,
) -> (r: Result<Cli, CliError>)
    requires
        i <= args@.len(),
    ensures
        match r {
            Ok(cli) => spec_parse_config_cmd(
                spec_views(args@),
                i as int,
                opt_str_view(config),
                opt_str_view(output),
                opt_str_view(env),
            ) == Ok::<CliView, CliError>(cli_view(cli)),
            Err(e) => spec_parse_config_cmd(
                spec_views(args@),
                i as int,
                opt_str_view(config),
                opt_str_view(output),
                opt_str_view(env),
            ) == Err::<CliView, CliError>(e),
        },
    decreases args@.len() - i,
{
    if i >= args.len() {
        let output = match output {
            Some(o) => o,
            None => String::from_str("config.toml"),
        };
        let cli = Cli { config, env: None, command: Commands::Config { output, env } };
        return Ok(cli);
    }
    proof {
        assert(spec_views(args@)[i as int] == args@[i as int]@);
        if i + 1 < args@.len() {
            assert(spec_views(args@)[i + 1] == args@[i + 1]@);
        }
    }
    let t = &args[i];
    match meta_flag(t.as_str()) {
        Some(e) => {
            return Err(e);
        },
        None => {},
    }
    if str_eq(t.as_str(), "--output") {
        if i + 1 < args.len() {
            parse_config_cmd(args, i + 2, config, Some(args[i + 1].clone()), env)
        } else {
            Err(CliError::MissingValue)
        }
    } else if str_eq(t.as_str(), "--env") {
        if i + 1 < args.len() {
            parse_config_cmd(args, i + 2, config, output, Some(args[i + 1].clone()))
        } else {
            Err(CliError::MissingValue)
        }
    } else if str_eq(t.as_str(), "--config") {
        if i + 1 < args.len() {
            parse_config_cmd(args, i + 2, Some(args[i + 1].clone()), output, env)
        } else {
            Err(CliError::MissingValue)
        }
    } else if is_flag(t.as_str()) {
        Err(CliError::UnknownFlag)
    } else {
        Err(CliError::UnexpectedArgument)
    }
}

fn parse_rollback(
    args: &Vec<String>,
    i: usize,
    config: Option<String>,
    env: Option<String>,
    conn: Option<String>,
    path: Option<String>,
    steps: Option<u32>,
    to_version: Option<u32>,
    dry_run: bool,
    force: bool,
) -> (r: Result<Cli, CliError>)
    requires
        i <= args@.len(),
    ensures
        match r {
            Ok(cli) => spec_parse_rollback(
                spec_views(args@),
                i as int,
                opt_str_view(config),
                opt_str_view(env),
                opt_str_view(conn),
                opt_str_view(path),
                steps,
                to_version,
                dry_run,
                force,
            ) == Ok::<CliView, CliError>(cli_view(cli)),
            Err(e) => spec_parse_rollback(
                spec_views(args@),
                i as int,
                opt_str_view(config),
                opt_str_view(env),
                opt_str_view(conn),
                opt_str_view(path),
                steps,
                to_version,
                dry_run,
                force,
            ) == Err::<CliView, CliError>(e),
        },
    decreases args@.len() - i,
{
    if i >= args.len() {
        if steps.is_some() && to_version.is_some() {
            return Err(CliError::ConflictingFlags);
        }
        let path = match path {
            Some(p) => p,
            None => String::from_str("./migrations"),
        };
        let steps = match steps {
            Some(n) => n,
            None => 1,
        };
        let cli = Cli {
            config,
            env,
            command: Commands::Rollback { conn, path, steps, to_version, dry_run, force },
        };
        return Ok(cli);
    }
    proof {
        assert(spec_views(args@)[i as int] == args@[i as int]@);
        if i + 1 < args@.len() {
            assert(spec_views(args@)[i + 1] == args@[i + 1]@);
        }
    }
    let t = &args[i];
    match meta_flag(t.as_str()) {
        Some(e) => {
            return Err(e);
        },
        None => {},
    }
    if str_eq(t.as_str(), "--conn") {
        if i + 1 < args.len() {
            parse_rollback(
                args,
                i + 2,
                config,
                env,
                Some(args[i + 1].clone()),
                path,
                steps,
                to_version,
                dry_run,
                force,
            )
        } else {
            Err(CliError::MissingValue)
        }
    } else if str_eq(t.as_str(), "--path") {
        if i + 1 < args.len() {
            parse_rollback(
                args,
                i + 2,
                config,
                env,
                conn,
                Some(args[i + 1].clone()),
                steps,
                to_version,
                dry_run,
                force,
            )
        } else {
            Err(CliError::MissingValue)
        }
    } else if str_eq(t.as_str(), "--steps") {
        if i + 1 < args.len() {
            match flag_number(args, i + 1) {
                Ok(n) => parse_rollback(
                    args,
                    i + 2,
                    config,
                    env,
                    conn,
                    path,
                    Some(n),
                    to_version,
                    dry_run,
                    force,
                ),
                Err(e) => Err(e),
            }
        } else {
            Err(CliError::MissingValue)
        }
    } else if str_eq(t.as_str(), "--to-version") {
        if i + 1 < args.len() {
            match flag_number(args, i + 1) {
                Ok(n) => parse_rollback(
                    args,
                    i + 2,
                    config,
                    env,
                    conn,
                    path,
                    steps,
                    Some(n),
                    dry_run,
                    force,
                ),
                Err(e) => Err(e),
            }
        } else {
            Err(CliError::MissingValue)
        }
    } else if str_eq(t.as_str(), "--dry-run") {
        parse_rollback(args, i + 1, config, env, conn, path, steps, to_version, true, force)
    } else if str_eq(t.as_str(), "--force") {
        parse_rollback(args, i + 1, config, env, conn, path, steps, to_version, dry_run, true)
    } else if str_eq(t.as_str(), "--config") {
        if i + 1 < args.len() {
            parse_rollback(
                args,
                i + 2,
                Some(args[i + 1].clone()),
                env,
                conn,
                path,
                steps,
                to_version,
                dry_run,
                force,
            )
        } else {
            Err(CliError::MissingValue)
        }
    } else if str_eq(t.as_str(), "--env") {
        if i + 1 < args.len() {
            parse_rollback(
                args,
                i + 2,
                config,
                Some(args[i + 1].clone()),
                conn,
                path,
                steps,
                to_version,
                dry_run,
                force,
            )
        } else {
            Err(CliError::MissingValue)
        }
    } else if is_flag(t.as_str()) {
        Err(CliError::UnknownFlag)
    } else {
        Err(CliError::UnexpectedArgument)
    }
}

fn parse_baseline(
    args: &Vec<String>,
    i: usize,
    config: Option<String>,
    env: Option<String>,
    conn: Option<String>,
    version: Option<u32>,
    description: Option<String>,
    from_schema: bool,
    dry_run: bool,
) -> (r: Result<Cli, CliError>)
    requires
        i <= args@.len(),
    ensures
        match r {
            Ok(cli) => spec_parse_baseline(
                spec_views(args@),
                i as int,
                opt_str_view(config),
                opt_str_view(env),
                opt_str_view(conn),
                version,
                opt_str_view(description),
                from_schema,
                dry_run,
            ) == Ok::<CliView, CliError>(cli_view(cli)),
            Err(e) => spec_parse_baseline(
                spec_views(args@),
                i as int,
                opt_str_view(config),
                opt_str_view(env),
                opt_str_view(conn),
                version,
                opt_str_view(description),
                from_schema,
                dry_run,
            ) == Err::<CliView, CliError>(e),
        },
    decreases args@.len() - i,
{
    if i >= args.len() {
        let v = match version {
            Some(v) => v,
            None => {
                return Err(CliError::MissingRequired);
            },
        };
        let description = match description {
            Some(d) => d,
            None => String::new(),
        };
        let cli = Cli {
            config,
            env,
            command: Commands::Baseline { conn, version: v, description, from_schema, dry_run },
        };
        return Ok(cli);
    }
    proof {
        assert(spec_views(args@)[i as int] == args@[i as int]@);
        if i + 1 < args@.len() {
            assert(spec_views(args@)[i + 1] == args@[i + 1]@);
        }
    }
    let t = &args[i];
    match meta_flag(t.as_str()) {
        Some(e) => {
            return Err(e);
        },
        None => {},
    }
    if str_eq(t.as_str(), "--conn") {
        if i + 1 < args.len() {
            parse_baseline(
                args,
                i + 2,
                config,
                env,
                Some(args[i + 1].clone()),
                version,
                description,
                from_schema,
                dry_run,
            )
        } else {
            Err(CliError::MissingValue)
        }
    } else if str_eq(t.as_str(), "--baseline-version") {
        if i + 1 < args.len() {
            match flag_number(args, i + 1) {
                Ok(n) => parse_baseline(
                    args,
                    i + 2,
                    config,
                    env,
                    conn,
                    Some(n),
                    description,
                    from_schema,
                    dry_run,
                ),
                Err(e) => Err(e),
            }
        } else {
            Err(CliError::MissingValue)
        }
    } else if str_eq(t.as_str(), "--description") {
        if i + 1 < args.len() {
            parse_baseline(
                args,
                i + 2,
                config,
                env,
                conn,
                version,
                Some(args[i + 1].clone()),
                from_schema,
                dry_run,
            )
        } else {
            Err(CliError::MissingValue)
        }
    } else if str_eq(t.as_str(), "--from-schema") {
        parse_baseline(args, i + 1, config, env, conn, version, description, true, dry_run)
    } else if str_eq(t.as_str(), "--dry-run") {
        parse_baseline(args, i + 1, config, env, conn, version, description, from_schema, true)
    } else if str_eq(t.as_str(), "--config") {
        if i + 1 < args.len() {
            parse_baseline(
                args,
                i + 2,
                Some(args[i + 1].clone()),
                env,
                conn,
                version,
                description,
                from_schema,
                dry_run,
            )
        } else {
            Err(CliError::MissingValue)
        }
    } else if str_eq(t.as_str(), "--env") {
        if i + 1 < args.len() {
            parse_baseline(
                args,
                i + 2,
                config,
                Some(args[i + 1].clone()),
                conn,
                version,
                description,
                from_schema,
                dry_run,
            )
        } else {
            Err(CliError::MissingValue)
        }
    } else if is_flag(t.as_str()) {
        Err(CliError::UnknownFlag)
    } else {
        Err(CliError::UnexpectedArgument)
    }
}

} // verus!
