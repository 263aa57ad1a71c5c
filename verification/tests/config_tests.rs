use pmrs::config::{effective_env_value, ConfigError};
use pmrs::registry::{Service, ServiceConfiguration};

#[test]
fn registry_matches_declaration_order() {
    let text = r#"
[envs]
G = "1"

[services.alpha]
cmd = "bin/alpha"

[services.beta]
cmd = "bin/beta"
args = ["-v", "--quiet"]

[services.gamma]
cmd = "bin/gamma"
"#;
    let registry = Service::init(text).expect("a valid configuration");
    assert_eq!(registry.len(), 3);
    let snapshot = registry.snapshot();
    assert_eq!(snapshot.len(), 3);
    let names = ["alpha", "beta", "gamma"];
    for (i, record) in snapshot.iter().enumerate() {
        assert_eq!(record.configuration.id, i);
        assert_eq!(record.configuration.name, names[i]);
        assert!(!record.running);
        assert_eq!(record.restarts, 0);
        assert_eq!(record.exit_code, None);
    }
    assert_eq!(
        snapshot[1].configuration.args,
        vec!["-v".to_string(), "--quiet".to_string()]
    );
}

#[test]
fn defaults_applied() {
    let text = r#"
[envs]

[services.only]
cmd = "run me"
"#;
    let registry = Service::init(text).unwrap();
    let snapshot = registry.snapshot();
    let c = &snapshot[0].configuration;
    assert_eq!(c.cmd, "run me");
    assert!(c.args.is_empty());
    assert!(c.envs.is_empty());
    assert_eq!(c.wd, None);
    assert_eq!(c.max_restarts, None);
    assert!(c.restart_on_success);
    assert!(!c.expo_backoff);
    assert_eq!(c.proxy, None);
}

#[test]
fn declared_fields_read() {
    let text = r#"
[services.full]
cmd = "serve"
wd = "/srv/full"
max_restarts = 4
restart_on_success = false
expo_backoff = true
proxy = "example.org/full"
"#;
    let registry = Service::init(text).unwrap();
    let c = &registry.snapshot()[0].configuration;
    assert_eq!(c.wd.as_deref(), Some("/srv/full"));
    assert_eq!(c.max_restarts, Some(4));
    assert!(!c.restart_on_success);
    assert!(c.expo_backoff);
    assert_eq!(c.proxy.as_deref(), Some("example.org/full"));
}

#[test]
fn global_env_takes_effect_and_local_entry_is_kept() {
    let text = r#"
[envs]
SHARED = "global"
EXTRA = "g2"

[services.one]
cmd = "a"

[services.one.envs]
SHARED = "local"
OWN = "mine"
"#;
    let registry = Service::init(text).unwrap();
    let envs = registry.snapshot()[0].configuration.envs.clone();
    // Local entries first, globals appended after them.
    assert_eq!(
        envs,
        vec![
            ("SHARED".to_string(), "local".to_string()),
            ("OWN".to_string(), "mine".to_string()),
            ("SHARED".to_string(), "global".to_string()),
            ("EXTRA".to_string(), "g2".to_string()),
        ]
    );
    // The globals win where keys collide, without the local entry vanishing.
    assert_eq!(
        effective_env_value(&envs, &"SHARED".to_string()),
        Some("global".to_string())
    );
    assert_eq!(
        effective_env_value(&envs, &"OWN".to_string()),
        Some("mine".to_string())
    );
    assert_eq!(
        effective_env_value(&envs, &"EXTRA".to_string()),
        Some("g2".to_string())
    );
    assert_eq!(effective_env_value(&envs, &"ABSENT".to_string()), None);
    assert!(envs.contains(&("SHARED".to_string(), "local".to_string())));
}

#[test]
fn local_env_untouched_without_global_collision() {
    let text = r#"
[services.one]
cmd = "a"

[services.one.envs]
OWN = "mine"
"#;
    let registry = Service::init(text).unwrap();
    let envs = registry.snapshot()[0].configuration.envs.clone();
    assert_eq!(envs, vec![("OWN".to_string(), "mine".to_string())]);
    assert_eq!(
        effective_env_value(&envs, &"OWN".to_string()),
        Some("mine".to_string())
    );
}

#[test]
fn later_entry_wins_among_duplicate_keys() {
    let envs = vec![
        ("K".to_string(), "first".to_string()),
        ("K".to_string(), "second".to_string()),
    ];
    assert_eq!(
        effective_env_value(&envs, &"K".to_string()),
        Some("second".to_string())
    );
    assert_eq!(effective_env_value(&vec![], &"K".to_string()), None);
}

#[test]
fn no_services_table_means_no_services() {
    let registry = Service::init("[envs]\n").unwrap();
    assert_eq!(registry.len(), 0);
    let registry = Service::init("").unwrap();
    assert_eq!(registry.len(), 0);
}

#[test]
fn syntax_error_reported() {
    assert_eq!(Service::init("=180 nonsense").err(), Some(ConfigError::Syntax));
    assert_eq!(Service::init("not toml at all").err(), Some(ConfigError::Syntax));
}

#[test]
fn error_variants_reported() {
    fn err_of(text: &str) -> ConfigError {
        Service::init(text).err().expect("an invalid configuration")
    }
    assert_eq!(err_of("envs = 3"), ConfigError::GlobalEnvsNotTable);
    assert_eq!(err_of("[envs]\nK = 3"), ConfigError::GlobalEnvNotString);
    assert_eq!(err_of("services = 3"), ConfigError::ServicesNotTable);
    assert_eq!(err_of("[services]\na = 3"), ConfigError::ServiceNotTable);
    assert_eq!(err_of("[services.a]\n"), ConfigError::CommandMissing);
    assert_eq!(err_of("[services.a]\ncmd = 3"), ConfigError::CommandNotString);
    assert_eq!(
        err_of("[services.a]\ncmd = \"x\"\nargs = 3"),
        ConfigError::ArgsNotArray
    );
    assert_eq!(
        err_of("[services.a]\ncmd = \"x\"\nargs = [3]"),
        ConfigError::ArgNotString
    );
    assert_eq!(
        err_of("[services.a]\ncmd = \"x\"\nenvs = 3"),
        ConfigError::EnvsNotTable
    );
    assert_eq!(
        err_of("[services.a]\ncmd = \"x\"\n[services.a.envs]\nK = 3"),
        ConfigError::EnvNotString
    );
    assert_eq!(
        err_of("[services.a]\ncmd = \"x\"\nwd = 3"),
        ConfigError::WorkingDirNotString
    );
    assert_eq!(
        err_of("[services.a]\ncmd = \"x\"\nmax_restarts = \"many\""),
        ConfigError::MaxRestartsNotInteger
    );
    assert_eq!(
        err_of("[services.a]\ncmd = \"x\"\nmax_restarts = -1"),
        ConfigError::MaxRestartsNegative
    );
    assert_eq!(
        err_of("[services.a]\ncmd = \"x\"\nrestart_on_success = 3"),
        ConfigError::RestartOnSuccessNotBool
    );
    assert_eq!(
        err_of("[services.a]\ncmd = \"x\"\nexpo_backoff = 3"),
        ConfigError::ExpoBackoffNotBool
    );
    assert_eq!(
        err_of("[services.a]\ncmd = \"x\"\nproxy = 3"),
        ConfigError::ProxyNotString
    );
}

#[test]
fn first_failing_service_decides_the_error() {
    let text = r#"
[services.a]
cmd = "fine"

[services.b]
cmd = 3

[services.c]
args = 3
"#;
    assert_eq!(
        Service::init(text).err(),
        Some(ConfigError::CommandNotString)
    );
}

#[test]
fn root_not_a_table_rejected() {
    let value = toml::Value::Integer(3);
    assert_eq!(
        ServiceConfiguration::from_toml(&value).err(),
        Some(ConfigError::RootNotTable)
    );
}

#[test]
fn from_toml_assigns_ids_and_merges() {
    let table: toml::Table = r#"
[envs]
G = "v"

[services.x]
cmd = "c1"

[services.y]
cmd = "c2"
"#
    .parse()
    .expect("valid toml");
    let value = toml::Value::Table(table);
    let specs = ServiceConfiguration::from_toml(&value).unwrap();
    assert_eq!(specs.len(), 2);
    assert_eq!(specs[0].id, 0);
    assert_eq!(specs[0].name, "x");
    assert_eq!(specs[1].id, 1);
    assert_eq!(specs[1].name, "y");
    assert_eq!(specs[0].envs, vec![("G".to_string(), "v".to_string())]);
}
