use recent_move::config::{Config, DEFAULT_TIME_LIMIT};

#[test]
fn default_configuration_values() {
    let c = Config::default_config(String::from("/home/someone/Downloads"));
    assert_eq!(c.source_dir, vec![String::from("/home/someone/Downloads")]);
    assert_eq!(c.time_limit, 20);
    assert_eq!(c.time_limit, DEFAULT_TIME_LIMIT);
    assert!(c.black_list.is_empty());
}

#[test]
fn default_configuration_is_reproducible() {
    let a = Config::default_config(String::from("/d"));
    let b = Config::default_config(String::from("/d"));
    assert_eq!(a.source_dir, b.source_dir);
    assert_eq!(a.time_limit, b.time_limit);
    assert_eq!(a.black_list, b.black_list);
}
