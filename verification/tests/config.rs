use bugs::config::{config_home, ConfigLoader};
use bugs::types::{NetworkConfig, SceneSettings, SchedulerConfig};

fn env(pairs: &[(&str, &str)]) -> Vec<(String, String)> {
    pairs.iter().map(|(k, v)| (k.to_string(), v.to_string())).collect()
}

#[test]
fn config_directory() {
    assert_eq!(config_home(&env(&[("BUGS_HOME", "/etc/bugs"), ("HOME", "/home/u")])).as_deref(), Some("/etc/bugs"));
    assert_eq!(config_home(&env(&[("HOME", "/home/u")])).as_deref(), Some("/home/u/.bugs"));
    assert_eq!(config_home(&env(&[("USERPROFILE", "C:/Users/u")])).as_deref(), Some("C:/Users/u/.bugs"));
    assert_eq!(config_home(&env(&[])), None);
    let l = ConfigLoader::from_env(&env(&[("HOME", "/home/u")]));
    assert_eq!(l.config_path(), "/home/u/.bugs/config.json");
    assert_eq!(ConfigLoader::from_env(&env(&[])).home, ".");
}

#[test]
fn default_config_is_usable() {
    let scheduler = SchedulerConfig::default();
    assert_eq!(scheduler.global_max_parallelism, 100_000);
    assert_eq!(NetworkConfig::default().local.port, 8742);
    assert_eq!(SceneSettings::default().default_scene, "general");
}

#[test]
fn default_config() {
    assert_eq!(NetworkConfig::default().local.port, 8742);
}
