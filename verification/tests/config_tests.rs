use cmish::config::{Config, ConfigAuth, ConfigConnection, ConfigGlobal, GetChildrenMethod};
use cmish::error::CmisError;
use cmish::paging::PageReader;
use cmish::files::{get_config_path, get_history_path};

fn connection(url: &str) -> ConfigConnection {
    let mut c = ConfigConnection::default();
    c.url = url.to_string();
    c
}

#[test]
fn default_configuration() {
    let cfg = Config::default();
    assert_eq!(cfg.global().paging_size, 100000);
    assert!(cfg.global().get_children_method == GetChildrenMethod::Selector);
    assert_eq!(cfg.connections().len(), 1);
    let c = &cfg.connections()[0];
    assert_eq!(c.name, "example");
    assert_eq!(c.url, "https://example.io/browser");
    assert_eq!(c.initial_repo, "R1");
    assert_eq!(c.auth.issuer, "issuerUrl");
    assert_eq!(c.auth.client_id, "clientID");
    assert_eq!(c.auth.client_secret, "clientSecret");
    assert_eq!(c.auth.expiration_grace_period, 30);
    assert_eq!(
        c.extra_headers,
        vec![("Ocp-Apim-Subscription-Key".to_string(), "subscriptionKey".to_string())]
    );
}

#[test]
fn loaded_connections_are_named_after_their_keys() {
    let cfg = Config::from_entries(
        ConfigGlobal::default(),
        vec![
            ("prod".to_string(), connection("https://p")),
            ("dev".to_string(), connection("https://d")),
        ],
    );
    assert_eq!(cfg.global().paging_size, 0);
    let prod = cfg.get_connection("prod").unwrap();
    assert_eq!(prod.name, "prod");
    assert_eq!(prod.url, "https://p");
    assert_eq!(cfg.get_connection("dev").unwrap().url, "https://d");
    assert!(cfg.get_connection("test").is_none());
    assert_eq!(cfg.session_connection("dev").ok().unwrap().url, "https://d");
    assert_eq!(
        cfg.session_connection("test").err().unwrap().message(),
        "No config for connection test"
    );
    assert_eq!(cfg.connection_names(), vec!["dev".to_string(), "prod".to_string()]);
}

#[test]
fn config_and_history_files_in_home() {
    assert_eq!(get_config_path("/home/u", '/'), "/home/u/.cmish-config.json");
    assert_eq!(get_config_path("/home/u/", '/'), "/home/u/.cmish-config.json");
    assert_eq!(get_history_path("/root", '/'), "/root/.cmish-history");
    assert_eq!(get_history_path("", '/'), ".cmish-history");
    assert_eq!(
        get_config_path("C:\\Users\\u", '\\'),
        "C:\\Users\\u\\.cmish-config.json"
    );
    assert_eq!(get_history_path("C:\\Users\\u\\", '\\'), "C:\\Users\\u\\.cmish-history");
    assert_eq!(get_history_path("C:/Users/u/", '\\'), "C:/Users/u/.cmish-history");
    assert_eq!(
        get_config_path("/home/u", std::path::MAIN_SEPARATOR),
        std::path::Path::new("/home/u").join(".cmish-config.json").to_str().unwrap()
    );
}

#[test]
fn default_connection_is_empty() {
    let c = ConfigConnection::default();
    assert_eq!(c.name, "");
    assert_eq!(c.url, "");
    assert_eq!(c.initial_repo, "");
    assert_eq!(c.auth.issuer, "");
    assert_eq!(c.auth.client_id, "");
    assert_eq!(c.auth.client_secret, "");
    assert_eq!(c.auth.expiration_grace_period, 0);
    assert!(c.extra_headers.is_empty());
}

fn copy_of(c: &ConfigConnection) -> ConfigConnection {
    ConfigConnection {
        name: String::new(),
        url: c.url.clone(),
        initial_repo: c.initial_repo.clone(),
        auth: ConfigAuth {
            issuer: c.auth.issuer.clone(),
            client_id: c.auth.client_id.clone(),
            client_secret: c.auth.client_secret.clone(),
            expiration_grace_period: c.auth.expiration_grace_period,
        },
        extra_headers: c.extra_headers.clone(),
    }
}

#[test]
fn default_configuration_loads_back_after_saving() {
    let saved = Config::default();
    let mut second = connection("https://second.example");
    second.name = "second".to_string();
    let mut entries: Vec<(String, ConfigConnection)> = saved
        .connections()
        .iter()
        .map(|c| (c.name.clone(), copy_of(c)))
        .collect();
    entries.push(("second".to_string(), copy_of(&second)));
    entries.reverse();
    let loaded = Config::from_entries(ConfigGlobal::default(), entries);
    let example = loaded.get_connection("example").unwrap();
    assert_eq!(example.name, "example");
    assert_eq!(example.url, "https://example.io/browser");
    assert_eq!(example.initial_repo, "R1");
    assert_eq!(example.auth.issuer, "issuerUrl");
    assert_eq!(example.auth.client_id, "clientID");
    assert_eq!(example.auth.client_secret, "clientSecret");
    assert_eq!(example.auth.expiration_grace_period, 30);
    assert_eq!(
        example.extra_headers,
        vec![("Ocp-Apim-Subscription-Key".to_string(), "subscriptionKey".to_string())]
    );
    assert_eq!(loaded.get_connection("second").unwrap().url, "https://second.example");
    assert!(loaded.get_connection("third").is_none());
}

#[test]
fn reading_needs_a_connection_and_no_error() {
    let cfg = Config::default();
    let reader: PageReader<u32> = PageReader::new();
    assert_eq!(reader.reading_connection(&cfg, "example").unwrap().name, "example");
    assert!(reader.reading_connection(&cfg, "missing").is_none());
    let mut failed: PageReader<u32> = PageReader::new();
    failed.set_error(CmisError::NotConnected);
    assert!(failed.reading_connection(&cfg, "example").is_none());
}
