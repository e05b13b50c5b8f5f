use rusty_ache::config::{Config, EngineConfig};
use rusty_ache::Resolution;

#[test]
fn test_new_engine_config() {
    let resolution = Resolution::new(1920, 1080);
    let config = EngineConfig::new(resolution);

    assert_eq!(config.resolution.width, 1920);
    assert_eq!(config.resolution.height, 1080);
}

#[test]
fn test_get_resolution() {
    let resolution = Resolution::new(1280, 720);
    let config = EngineConfig::new(resolution);

    let resolution = config.get_resolution();
    assert_eq!(resolution.width, 1280);
    assert_eq!(resolution.height, 720);
}

#[test]
fn test_set_resolution() {
    let initial_resolution = Resolution::new(800, 600);
    let mut config = EngineConfig::new(initial_resolution);

    config.set_resolution(2560, 1440);

    let updated = config.get_resolution();
    assert_eq!(updated.width, 2560);
    assert_eq!(updated.height, 1440);
}
