//! The default configuration.

use fselect::config::Config;

#[test]
fn default_config() {
    let config = Config::default();

    assert!(config.is_source.unwrap().contains(&String::from(".rs")));
}

