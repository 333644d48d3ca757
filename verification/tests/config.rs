use embargo::cli::{chosen_command, Cli, Command, LogLevel};
use embargo::config::{
    Anchor, BarConfig, Config, ConfigFile, ConfigPlan, NamedScript, Period, Refresh, Script,
};
use std::path::PathBuf;

#[test]
fn bar_config_keeps_what_it_is_given() {
    let config = BarConfig::new(Anchor::Bottom, "panel", 800, 30);
    assert_eq!(config.position(), Anchor::Bottom);
    assert_eq!(config.layer_name(), "panel");
    assert_eq!(config.width(), 800);
    assert_eq!(config.height(), 30);
}

#[test]
fn example_script_prints_the_date_every_ten_seconds() {
    let script = Script::example();
    assert_eq!(script.script, "date");
    assert_eq!(script.update, Refresh::Continous(Period { secs: 10, nanos: 0 }));
    assert_eq!(Period::from_secs(10), Period { secs: 10, nanos: 0 });
}

#[test]
fn default_file_has_the_example() {
    let file = ConfigFile::default();
    assert_eq!(file.anchor, Anchor::Top);
    assert_eq!(file.layer_name, "embargo");
    assert_eq!(file.scripts.len(), 1);
    assert_eq!(file.scripts[0].name, "example_date");
    assert_eq!(file.scripts[0].script.script, "date");
    assert_eq!(file.scripts[0].script.update, Refresh::Continous(Period { secs: 10, nanos: 0 }));
}

#[test]
fn plan_follows_the_file() {
    assert_eq!(Config::plan(true, true), ConfigPlan::Read);
    assert_eq!(Config::plan(true, false), ConfigPlan::Read);
    assert_eq!(Config::plan(false, false), ConfigPlan::Missing);
    assert_eq!(Config::plan(false, true), ConfigPlan::CreateDefault);
}

#[test]
fn config_takes_over_the_file() {
    let file = ConfigFile {
        anchor: Anchor::Bottom,
        layer_name: "mine".to_string(),
        scripts: vec![NamedScript {
            name: "uptime".to_string(),
            script: Script { update: Refresh::Never, script: "uptime".to_string() },
        }],
    };
    let config = Config::from_file(PathBuf::from("/tmp/config.toml"), file);
    assert_eq!(config.anchor, Anchor::Bottom);
    assert_eq!(config.config_path, PathBuf::from("/tmp/config.toml"));
    assert_eq!(config.layer_name, "mine");
    assert_eq!(config.scripts.len(), 1);
    assert_eq!(config.scripts[0].name, "uptime");
    assert_eq!(config.scripts[0].script.update, Refresh::Never);
}

#[test]
fn command_defaults_to_run() {
    assert_eq!(chosen_command(None), Command::Run);
    assert_eq!(chosen_command(Some(Command::PrintConfig)), Command::PrintConfig);
    assert_eq!(chosen_command(Some(Command::Run)), Command::Run);
}

#[test]
fn log_level_defaults_to_warnings() {
    assert_eq!(LogLevel::default(), LogLevel::Warn);
}

#[test]
fn cli_tells_whether_the_usual_file_is_read() {
    let usual = Cli { log_level: LogLevel::Warn, override_config: None, command: Command::Run };
    let other = Cli {
        log_level: LogLevel::Debug,
        override_config: Some(PathBuf::from("x.toml")),
        command: Command::PrintConfig,
    };
    assert!(usual.uses_default_path());
    assert!(!other.uses_default_path());
}
