use pow_sim::Config;

#[test]
fn test_config_default() {
    let config = Config::default();
    assert_eq!(config.ceiling, i32::MAX);
    assert_eq!(config.delay_seconds, 1);
}

#[test]
fn test_config_new() {
    let config = Config::new(1000, 5);
    assert_eq!(config.ceiling, 1000);
    assert_eq!(config.delay_seconds, 5);
}
