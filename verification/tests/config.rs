use devflow_tui::config::{AppConfig, ConfigEnv};

fn no_env() -> ConfigEnv {
    ConfigEnv { port: None, log: None, log_buffer: None }
}

fn args(a: &[&str]) -> Vec<String> {
    a.iter().map(|s| s.to_string()).collect()
}

#[test]
fn test_config_defaults() {
    let config = AppConfig::default();
    assert_eq!(config.port, 9100);
    assert_eq!(config.project_dir, ".");
    assert!(!config.demo);
    assert!(!config.regenerate_token);
    assert_eq!(config.log_level, "info");
    assert_eq!(config.log_buffer_size, 1000);
}

#[test]
fn test_config_cli_override() {
    let a = args(&["devflow-tui", "--port", "9200", "--project-dir", "/tmp/proj", "--demo"]);
    let config = AppConfig::from_args(&a, &no_env()).unwrap();
    assert_eq!(config.port, 9200);
    assert_eq!(config.project_dir, "/tmp/proj");
    assert!(config.demo);
}

#[test]
fn test_config_missing_port_value() {
    let result = AppConfig::from_args(&args(&["devflow-tui", "--port"]), &no_env());
    assert!(result.is_err());
}

#[test]
fn test_config_invalid_port() {
    let result = AppConfig::from_args(&args(&["devflow-tui", "--port", "not_a_number"]), &no_env());
    assert!(result.is_err());
}

#[test]
fn test_config_devflow_docs_dir() {
    let mut config = AppConfig::default();
    config.project_dir = "/home/user/project".to_string();
    assert_eq!(config.devflow_docs_dir(), "/home/user/project/devflow-docs");
}

#[test]
fn test_config_regenerate_token() {
    let config = AppConfig::from_args(&args(&["devflow-tui", "--regenerate-token"]), &no_env()).unwrap();
    assert!(config.regenerate_token);
}

#[test]
fn test_config_port_zero_rejected() {
    let result = AppConfig::from_args(&args(&["devflow-tui", "--port", "0"]), &no_env());
    assert!(result.is_err());
}

#[test]
fn test_config_port_low_rejected() {
    let result = AppConfig::from_args(&args(&["devflow-tui", "--port", "80"]), &no_env());
    assert!(result.is_err());
}

#[test]
fn test_config_unknown_args_ignored() {
    let config = AppConfig::from_args(&args(&["devflow-tui", "--unknown", "value"]), &no_env()).unwrap();
    assert_eq!(config.port, 9100);
}

#[test]
fn test_config_env_then_args() {
    let env = ConfigEnv {
        port: Some("9300".to_string()),
        log: Some("debug".to_string()),
        log_buffer: Some("50".to_string()),
    };
    let config = AppConfig::from_args(&args(&["devflow-tui"]), &env).unwrap();
    assert_eq!(config.port, 9300);
    assert_eq!(config.log_level, "debug");
    assert_eq!(config.log_buffer_size, 50);
    let config = AppConfig::from_args(&args(&["devflow-tui", "--port", "9400"]), &env).unwrap();
    assert_eq!(config.port, 9400);
}

#[test]
fn test_config_errors_name_their_source() {
    let env = ConfigEnv { port: Some("x".to_string()), log: None, log_buffer: None };
    let e = AppConfig::from_args(&args(&["devflow-tui"]), &env).unwrap_err();
    assert_eq!(e.path, "DEVFLOW_TUI_PORT");
    assert_eq!(e.detail, "invalid port: x");
    let e = AppConfig::from_args(&args(&["devflow-tui", "--port", "80"]), &no_env()).unwrap_err();
    assert_eq!(e.path, "--port");
    assert_eq!(e.detail, "port must be 1024-65535, got 80");
    let env = ConfigEnv { port: None, log: None, log_buffer: Some("0".to_string()) };
    let e = AppConfig::from_args(&args(&["devflow-tui"]), &env).unwrap_err();
    assert_eq!(e.path, "DEVFLOW_TUI_LOG_BUFFER");
    let e = AppConfig::from_args(&args(&["devflow-tui", "--project-dir"]), &no_env()).unwrap_err();
    assert_eq!(e.detail, "missing value");
}

#[test]
fn test_docs_dir_joins_with_one_separator() {
    let mut config = AppConfig::default();
    config.project_dir = "/p/".to_string();
    assert_eq!(config.devflow_docs_dir(), "/p/devflow-docs");
    config.project_dir = String::new();
    assert_eq!(config.devflow_docs_dir(), "devflow-docs");
    config.project_dir = ".".to_string();
    assert_eq!(config.devflow_docs_dir(), "./devflow-docs");
}
