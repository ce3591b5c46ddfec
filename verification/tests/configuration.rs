use distill::config::Config;
use distill::config_cmd::{
    apply_setting, display_value, parse_config_file, mask_key, parse_bool, parse_command, parse_usize,
    resolve_with_source, set_confirmation, ConfigCommand, ConfigFile, SetError,
};
use distill::error::DistillError;

#[test]
fn test_cli_flags_override_env() {
    let config = Config {
        api_key: "from-cli".into(),
        api_base: "https://cli.example.com/v1".into(),
        model: "cli-model".into(),
    };
    assert_eq!(config.api_key, "from-cli");
}

#[test]
fn test_missing_api_key_errors() {
    // no flags and no environment variables
    let result = Config::resolve(None, None, None, None, None, None, &empty_file());
    assert!(result.is_err());
}

#[test]
fn test_resolve_from_all_cli() {
    let result = Config::resolve(
        Some("key".into()),
        Some("https://api.example.com/v1".into()),
        Some("model".into()),
        None,
        None,
        None,
        &empty_file(),
    );
    assert!(result.is_ok());
    let config = result.unwrap();
    assert_eq!(config.api_key, "key");
}

#[test]
fn flags_win_over_the_environment() {
    let config = Config::resolve(
        Some("cli-key".into()),
        None,
        Some("cli-model".into()),
        Some("env-key".into()),
        Some("https://env.example.com".into()),
        Some("env-model".into()),
        &empty_file(),
    )
    .unwrap();
    assert_eq!(config.api_key, "cli-key");
    assert_eq!(config.api_base, "https://env.example.com");
    assert_eq!(config.model, "cli-model");
}

#[test]
fn the_first_missing_setting_is_named() {
    match Config::resolve(None, None, None, None, None, None, &empty_file()) {
        Err(DistillError::MissingConfig { field, env_var, flag }) => {
            assert_eq!((field, env_var, flag), ("API key", "DISTILL_API_KEY", "--api-key"));
        }
        other => panic!("unexpected: {:?}", other),
    }
    match Config::resolve(Some("k".into()), None, None, None, None, None, &empty_file()) {
        Err(DistillError::MissingConfig { field, env_var, flag }) => {
            assert_eq!((field, env_var, flag), ("API base URL", "DISTILL_API_BASE", "--api-base"));
        }
        other => panic!("unexpected: {:?}", other),
    }
    match Config::resolve(Some("k".into()), None, None, None, Some("b".into()), None, &empty_file()) {
        Err(DistillError::MissingConfig { field, env_var, flag }) => {
            assert_eq!((field, env_var, flag), ("model name", "DISTILL_MODEL", "--model"));
        }
        other => panic!("unexpected: {:?}", other),
    }
}

#[test]
fn keys_are_masked() {
    assert_eq!(mask_key("short"), "***");
    assert_eq!(mask_key("1234567"), "***");
    assert_eq!(mask_key("sk-abcdefgh1234"), "sk-...1234");
}

#[test]
fn settings_come_from_env_then_file() {
    assert_eq!(
        resolve_with_source(Some("e".into()), &Some("f".into())),
        (Some("e".to_string()), Some("env"))
    );
    assert_eq!(
        resolve_with_source(None, &Some("f".into())),
        (Some("f".to_string()), Some("config file"))
    );
    assert_eq!(resolve_with_source(None, &None), (None, None));
}

#[test]
fn values_are_shown_masked_or_not_set() {
    assert_eq!(display_value(Some("sk-abcdefgh1234"), true), "sk-...1234");
    assert_eq!(display_value(Some("gpt-4o"), false), "gpt-4o");
    assert_eq!(display_value(None, true), "not set");
}

fn empty_file() -> ConfigFile {
    ConfigFile { api_key: None, api_base: None, model: None, level: None, parallel: None, jobs: None }
}

fn strings(v: &[&str]) -> Vec<String> {
    v.iter().map(|s| s.to_string()).collect()
}

#[test]
fn config_subcommands() {
    assert!(matches!(parse_command(&Vec::new()), ConfigCommand::Show));
    assert!(matches!(parse_command(&strings(&["set", "model", "x"])), ConfigCommand::SetValue));
    assert!(matches!(parse_command(&strings(&["path"])), ConfigCommand::Path));
    match parse_command(&strings(&["wipe"])) {
        ConfigCommand::Unknown(other) => assert_eq!(other, "wipe"),
        other => panic!("unexpected: {:?}", other),
    }
}

#[test]
fn settings_are_stored_by_key() {
    let mut file = empty_file();
    assert_eq!(apply_setting(&mut file, &strings(&["model", "gpt-4o"])), Ok(()));
    assert_eq!(apply_setting(&mut file, &strings(&["parallel", "true"])), Ok(()));
    assert_eq!(apply_setting(&mut file, &strings(&["jobs", "+8"])), Ok(()));
    assert_eq!(apply_setting(&mut file, &strings(&["level", "dense"])), Ok(()));
    assert_eq!(file.model.as_deref(), Some("gpt-4o"));
    assert_eq!(file.parallel, Some(true));
    assert_eq!(file.jobs, Some(8));
    assert_eq!(file.level.as_deref(), Some("dense"));
    assert_eq!(file.api_key, None);
}

#[test]
fn bad_settings_are_refused_and_leave_the_file() {
    let mut file = empty_file();
    assert_eq!(apply_setting(&mut file, &strings(&["jobs"])), Err(SetError::Usage));
    assert_eq!(apply_setting(&mut file, &strings(&["parallel", "yes"])), Err(SetError::InvalidParallel));
    assert_eq!(apply_setting(&mut file, &strings(&["jobs", "-1"])), Err(SetError::InvalidJobs));
    assert_eq!(
        apply_setting(&mut file, &strings(&["colour", "red"])),
        Err(SetError::UnknownKey("colour".to_string()))
    );
    assert_eq!(file.parallel, None);
    assert_eq!(file.jobs, None);
    assert_eq!(
        SetError::UnknownKey("colour".to_string()).message(),
        "unknown config key: colour\nvalid keys: api_key, api_base, model, level, parallel, jobs"
    );
    assert_eq!(SetError::Usage.message(), "usage: distill config set <key> <value>");
}

#[test]
fn numbers_and_booleans_parse_as_std_does() {
    assert_eq!(parse_bool("true"), Some(true));
    assert_eq!(parse_bool("false"), Some(false));
    assert_eq!(parse_bool("True"), None);
    assert_eq!(parse_usize("0"), Some(0));
    assert_eq!(parse_usize("+42"), Some(42));
    assert_eq!(parse_usize("007"), Some(7));
    assert_eq!(parse_usize(""), None);
    assert_eq!(parse_usize("+"), None);
    assert_eq!(parse_usize(" 1"), None);
    assert_eq!(parse_usize("12a"), None);
    assert_eq!(parse_usize(&usize::MAX.to_string()), Some(usize::MAX));
    assert_eq!(parse_usize("99999999999999999999999"), None);
    for s in ["1", "+0", "18446744073709551615", "18446744073709551616", "--1", "1_0"] {
        assert_eq!(parse_usize(s), s.parse::<usize>().ok());
    }
}

#[test]
fn confirmations_mask_the_key() {
    assert_eq!(set_confirmation("api_key", "sk-abcdefgh1234"), "set api_key = sk-...1234");
    assert_eq!(set_confirmation("model", "gpt-4o"), "set model = gpt-4o");
}

#[test]
fn the_config_file_is_the_last_source() {
    let file = parse_config_file("api_key = \"file-key\"\napi_base = \"https://file.example.com\"\nmodel = \"file-model\"\n");
    let config = Config::resolve(Some("cli-key".into()), None, None, None, Some("https://env.example.com".into()), None, &file).unwrap();
    assert_eq!(config.api_key, "cli-key");
    assert_eq!(config.api_base, "https://env.example.com");
    assert_eq!(config.model, "file-model");
}

#[test]
fn config_files_are_read_line_by_line() {
    let text = "# settings\napi_key = \"sk-1\"\napi_base = \"https://openrouter.ai/api/v1\"\nmodel = \"stepfun/step-3.5-flash\"\nlevel = \"dense\"\nparallel = true\njobs = 4\nmodel = \"later\"\nnot a setting\ncolour = \"red\"\n";
    let file = parse_config_file(text);
    assert_eq!(file.api_key.as_deref(), Some("sk-1"));
    assert_eq!(file.api_base.as_deref(), Some("https://openrouter.ai/api/v1"));
    assert_eq!(file.model.as_deref(), Some("later"));
    assert_eq!(file.level.as_deref(), Some("dense"));
    assert_eq!(file.parallel, Some(true));
    assert_eq!(file.jobs, Some(4));
    let odd = parse_config_file("parallel = maybe\njobs = \"x\"\n  key=  plain value  \n");
    assert_eq!(odd.parallel, None);
    assert_eq!(odd.jobs, None);
    assert!(parse_config_file("").api_key.is_none());
}
