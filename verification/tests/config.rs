use agent_chat::config::{load, AppConfig, Cli, Command, FileConfig};

fn bare_cli() -> Cli {
    Cli {
        config: None,
        ip: None,
        port: None,
        model: None,
        timeout: None,
        command: None,
    }
}

#[test]
fn config_command_line_values_override_yaml_and_defaults_fill_missing_values() {
    let mut config = FileConfig {
        ip: Some("192.168.1.10".into()),
        port: Some(9000),
        model: Some("test-model".into()),
        system: None,
        timeout: None,
        stream: None,
    };
    let cli = Cli {
        config: None,
        ip: Some("10.0.0.2".into()),
        port: None,
        model: None,
        timeout: Some(10),
        command: None,
    };

    config.apply_cli(&cli);
    let config = config.into_app_config();
    assert_eq!(config.ip, "10.0.0.2");
    assert_eq!(config.port, 9000);
    assert_eq!(config.model, "test-model");
    assert_eq!(config.timeout, 10);
}

#[test]
fn built_in_defaults() {
    let d = FileConfig::defaults();
    assert_eq!(d.ip.as_deref(), Some("127.0.0.1"));
    assert_eq!(d.port, Some(8031));
    assert_eq!(d.model.as_deref(), Some("Qwen2.5-0.5B-Instruct"));
    assert_eq!(d.system, None);
    assert_eq!(d.timeout, Some(300));
    assert_eq!(d.stream, Some(false));
}

#[test]
fn fill_defaults_keeps_given_values() {
    let mut f = FileConfig {
        ip: None,
        port: Some(1),
        model: None,
        system: Some("be brief".into()),
        timeout: None,
        stream: Some(true),
    };
    f.fill_defaults();
    assert_eq!(f.ip.as_deref(), Some("127.0.0.1"));
    assert_eq!(f.port, Some(1));
    assert_eq!(f.model.as_deref(), Some("Qwen2.5-0.5B-Instruct"));
    assert_eq!(f.system.as_deref(), Some("be brief"));
    assert_eq!(f.timeout, Some(300));
    assert_eq!(f.stream, Some(true));
    let once = f.copied();
    f.fill_defaults();
    assert_eq!(format!("{:?}", f), format!("{:?}", once));
}

#[test]
fn runtime_overrides_ignore_the_config_path_and_command() {
    let mut cli = bare_cli();
    cli.config = Some("/etc/agent.yaml".into());
    cli.command = Some(Command::Chat);
    assert!(!cli.has_runtime_overrides());
    cli.port = Some(1);
    assert!(cli.has_runtime_overrides());
    let mut cli = bare_cli();
    cli.model = Some("m".into());
    assert!(cli.has_runtime_overrides());
}

#[test]
fn from_cli_prefers_command_line_then_file_then_defaults() {
    let file = FileConfig {
        ip: Some("192.168.1.10".into()),
        port: Some(9000),
        model: None,
        system: Some("sys".into()),
        timeout: None,
        stream: None,
    };
    let mut cli = bare_cli();
    cli.ip = Some("10.0.0.2".into());
    cli.timeout = Some(10);
    let config = AppConfig::from_cli(&cli, file);
    assert_eq!(config.ip, "10.0.0.2");
    assert_eq!(config.port, 9000);
    assert_eq!(config.model, "Qwen2.5-0.5B-Instruct");
    assert_eq!(config.system.as_deref(), Some("sys"));
    assert_eq!(config.timeout, 10);
    assert!(!config.stream);
}

#[test]
fn no_file_no_arguments_uses_defaults_and_writes_them() {
    let loaded = load(&bare_cli(), None);
    assert_eq!(loaded.config.ip, "127.0.0.1");
    assert_eq!(loaded.config.port, 8031);
    assert_eq!(loaded.config.timeout, 300);
    let saved = loaded.save.expect("a new file is written");
    assert_eq!(saved.ip.as_deref(), Some("127.0.0.1"));
    assert_eq!(saved.port, Some(8031));
    assert_eq!(saved.model.as_deref(), Some("Qwen2.5-0.5B-Instruct"));
    assert_eq!(saved.timeout, Some(300));
    assert_eq!(saved.stream, Some(false));
}

#[test]
fn no_file_with_arguments_writes_them() {
    let mut cli = bare_cli();
    cli.port = Some(9999);
    let loaded = load(&cli, None);
    assert_eq!(loaded.config.port, 9999);
    assert_eq!(loaded.save.expect("written").port, Some(9999));
}

#[test]
fn file_without_arguments_is_read_and_not_written() {
    let file = FileConfig {
        ip: Some("1.2.3.4".into()),
        port: None,
        model: None,
        system: None,
        timeout: Some(5),
        stream: Some(true),
    };
    let loaded = load(&bare_cli(), Some(file));
    assert!(loaded.save.is_none());
    assert_eq!(loaded.config.ip, "1.2.3.4");
    assert_eq!(loaded.config.port, 8031);
    assert_eq!(loaded.config.timeout, 5);
    assert!(loaded.config.stream);
}

#[test]
fn file_with_arguments_is_overridden_and_written() {
    let file = FileConfig {
        ip: Some("1.2.3.4".into()),
        port: Some(1),
        model: Some("a".into()),
        system: None,
        timeout: None,
        stream: None,
    };
    let mut cli = bare_cli();
    cli.model = Some("b".into());
    let loaded = load(&cli, Some(file));
    assert_eq!(loaded.config.model, "b");
    assert_eq!(loaded.config.port, 1);
    let saved = loaded.save.expect("written back");
    assert_eq!(saved.model.as_deref(), Some("b"));
    assert_eq!(saved.ip.as_deref(), Some("1.2.3.4"));
    assert_eq!(saved.timeout, Some(300));
}

#[test]
fn written_file_reloads_to_the_same_settings() {
    let mut cli = bare_cli();
    cli.ip = Some("::1".into());
    let first = load(&cli, None);
    let saved = first.save.expect("written");
    let again = load(&bare_cli(), Some(saved));
    assert!(again.save.is_none());
    assert_eq!(format!("{:?}", again.config), format!("{:?}", first.config));
}

#[test]
fn load_and_from_cli_agree() {
    let make = || FileConfig {
        ip: None,
        port: Some(7),
        model: None,
        system: None,
        timeout: Some(9),
        stream: None,
    };
    let mut cli = bare_cli();
    cli.ip = Some("h".into());
    let a = load(&cli, Some(make())).config;
    let b = AppConfig::from_cli(&cli, make());
    assert_eq!(format!("{:?}", a), format!("{:?}", b));
    let c = load(&cli, None).config;
    let d = AppConfig::from_cli(&cli, FileConfig::default());
    assert_eq!(format!("{:?}", c), format!("{:?}", d));
}
