use combine_mcp::config::{default_log_level, lookup_env, Config, EnvVar, ServerConfig, ServerEntry};

fn var(name: &str, value: &str) -> EnvVar {
    EnvVar { name: name.to_string(), value: value.to_string() }
}

fn github_config() -> Config {
    Config {
        servers: vec![ServerEntry {
            name: "github".to_string(),
            config: ServerConfig {
                command: "npx".to_string(),
                args: vec!["-y".to_string(), "@modelcontextprotocol/server-github".to_string()],
                env: vec![var("GITHUB_TOKEN", "file-token")],
            },
        }],
        log_level: "info".to_string(),
        log_file: Some("/var/log/mcp.log".to_string()),
    }
}

#[test]
fn test_env_var_overrides() {
    let env = vec![
        var("MCP_LOG_LEVEL", "trace"),
        var("MCP_LOG_FILE", "/env/var/path.log"),
        var("MCP_SERVER_GITHUB_COMMAND", "/usr/bin/custom-github"),
        var("MCP_SERVER_GITHUB_ENV_GITHUB_TOKEN", "env-token-value"),
    ];
    let mut config = github_config();
    config.apply_env_overrides(&env);

    assert_eq!(config.log_level, "trace");
    assert_eq!(config.log_file, Some("/env/var/path.log".to_string()));

    let github = &config.servers[0];
    assert_eq!(github.name, "github");
    assert_eq!(github.config.command, "/usr/bin/custom-github");
    assert_eq!(github.config.args, vec!["-y", "@modelcontextprotocol/server-github"]);
    assert_eq!(github.config.env, vec![var("GITHUB_TOKEN", "env-token-value")]);
}

#[test]
fn an_empty_environment_changes_nothing() {
    let mut config = github_config();
    config.apply_env_overrides(&vec![]);
    assert_eq!(config, github_config());
}

#[test]
fn overrides_touch_only_what_they_name() {
    let env = vec![
        var("MCP_SERVER_OTHER_COMMAND", "nope"),
        var("MCP_SERVER_GITHUB_ENV_NEW_KEY", "nope"),
        var("mcp_log_level", "nope"),
        var("PATH", "/bin"),
    ];
    let mut config = github_config();
    config.apply_env_overrides(&env);
    assert_eq!(config, github_config());
}

#[test]
fn override_names_are_in_upper_case() {
    let mut config = Config {
        servers: vec![ServerEntry {
            name: "my-server".to_string(),
            config: ServerConfig {
                command: "run".to_string(),
                args: vec![],
                env: vec![var("api_key", "a"), var("Other", "b")],
            },
        }],
        log_level: default_log_level(),
        log_file: None,
    };
    let env = vec![
        var("MCP_SERVER_MY-SERVER_COMMAND", "ran"),
        var("MCP_SERVER_MY-SERVER_ENV_API_KEY", "k"),
        var("MCP_SERVER_my-server_ENV_Other", "ignored"),
    ];
    config.apply_env_overrides(&env);
    assert_eq!(config.servers[0].config.command, "ran");
    assert_eq!(config.servers[0].config.env, vec![var("api_key", "k"), var("Other", "b")]);
    assert_eq!(config.log_level, "info");
    assert_eq!(config.log_file, None);
}

#[test]
fn test_default_log_level() {
    let config = Config { servers: vec![], log_level: default_log_level(), log_file: None };
    assert_eq!(config.log_level, "info"); // Should use the default
    assert_eq!(config.log_file, None);
}

#[test]
fn lookup_env_takes_the_first_variable_of_the_name() {
    let env = vec![var("A", "1"), var("B", "2"), var("A", "3")];
    assert_eq!(lookup_env(&env, "A"), Some(&"1".to_string()));
    assert_eq!(lookup_env(&env, "B"), Some(&"2".to_string()));
    assert_eq!(lookup_env(&env, "C"), None);
    assert_eq!(lookup_env(&vec![], "A"), None);
}
