use feeds_to_instapaper::Config;
use feeds_to_instapaper::instapaper::Credentials;

#[test]
fn new_config_starts_with_switches_off() {
    let config = Config::new(
        Credentials { username: "user".to_string(), password: "pass".to_string() },
        "links.log".to_string(),
        vec!["https://a.example/feed".to_string()],
    );
    assert!(!config.auto_add);
    assert!(!config.skip_download_errors);
    assert_eq!(config.log_file, "links.log");
    assert_eq!(config.urls, vec!["https://a.example/feed".to_string()]);
    assert_eq!(config.instapaper.username, "user");
    assert_eq!(config.instapaper.password, "pass");
}
