use cmish::config::{Config, ConfigConnection, ConfigGlobal};
use cmish::def::Repository;
use cmish::http::{Token, token_expired};
use cmish::error::CmisError;
use cmish::repl::{
    LineReaction, ReplState, SecretCache, SecretLookup, login_target, prompt, react_to_line,
    split_command_line, stat_output,
};
use cmish::repo::{find_repository, repository_names, switch_target};

fn repo(name: &str) -> Repository {
    let mut r = Repository::default();
    r.repository_name = name.to_string();
    r.root_folder_id = format!("{name}-root");
    r
}

#[test]
fn command_lines_split_like_a_shell() {
    assert_eq!(split_command_line("login -l").ok().unwrap(), vec!["login", "-l"]);
    assert_eq!(
        split_command_line("cd 'my dir'").ok().unwrap(),
        vec!["cd", "my dir"]
    );
    assert_eq!(split_command_line("").ok().unwrap(), Vec::<String>::new());
    let err = split_command_line("cd \"open").err().unwrap();
    assert_eq!(err.message(), "raw parsing error");
}

#[test]
fn prompts() {
    assert_eq!(prompt(None), "> ");
    assert_eq!(prompt(Some(("prod", "R1", "/a/b"))), "prod:R1:/a/b> ");
}

#[test]
fn login_needs_a_configured_connection() {
    let mut c = ConfigConnection::default();
    c.url = "u".to_string();
    let cfg = Config::from_entries(ConfigGlobal::default(), vec![("prod".to_string(), c)]);
    assert_eq!(login_target(&cfg, "prod").ok().unwrap().url, "u");
    assert_eq!(
        login_target(&cfg, "dev").err().unwrap().message(),
        "connection configuration 'dev' not found"
    );
}

#[test]
fn repositories_by_name_ignoring_ascii_case() {
    let repos = vec![repo("Main"), repo("archive"), repo("MAIN")];
    assert_eq!(find_repository(&repos, "main").unwrap().root_folder_id, "Main-root");
    assert_eq!(find_repository(&repos, "ARCHIVE").unwrap().root_folder_id, "archive-root");
    assert!(find_repository(&repos, "mains").is_none());
    assert_eq!(repository_names(&repos), vec!["MAIN", "Main", "archive"]);
}

#[test]
fn switch_falls_back_to_initial_repository() {
    let repos = vec![repo("R1"), repo("R2")];
    let mut c = ConfigConnection::default();
    c.initial_repo = "r2".to_string();
    assert_eq!(switch_target(&repos, None, &c, "prod").ok().unwrap().repository_name, "R2");
    assert_eq!(
        switch_target(&repos, Some("R1"), &c, "prod").ok().unwrap().repository_name,
        "R1"
    );
    assert_eq!(
        switch_target(&repos, Some("x"), &c, "prod").err().unwrap().message(),
        "repository 'x' not found in connection 'prod'"
    );
}

#[test]
fn secrets_cached_configured_and_forgotten() {
    let mut c = ConfigConnection::default();
    c.name = "prod".to_string();
    let mut cache = SecretCache::default();
    assert!(matches!(cache.lookup_secret(&c), SecretLookup::Ask));
    c.auth.client_secret = "from-config".to_string();
    assert!(matches!(cache.lookup_secret(&c), SecretLookup::Known(s) if s == "from-config"));
    cache.remember_secret(&c, "typed".to_string());
    assert!(matches!(cache.lookup_secret(&c), SecretLookup::Known(s) if s == "typed"));
    cache.invalidate_secret(&c);
    assert!(matches!(cache.lookup_secret(&c), SecretLookup::Ask));
    let mut other = ConfigConnection::default();
    other.name = "dev".to_string();
    other.auth.client_secret = "dev-secret".to_string();
    assert!(matches!(cache.lookup_secret(&other), SecretLookup::Known(s) if s == "dev-secret"));
}

#[test]
fn default_token_expires_at_once() {
    let t = Token::default();
    assert_eq!(t.current(), "");
    assert!(t.is_expired());
    assert!(token_expired(10, 10));
    assert!(!token_expired(9, 10));
}

#[test]
fn command_output_is_printed_and_session_kept() {
    let mut session = Some(7u32);
    match react_to_line(Ok(ReplState::Continue(vec!["a".to_string(), "b".to_string()])), &mut session) {
        LineReaction::Print(lines) => assert_eq!(lines, vec!["a", "b"]),
        _ => panic!("output is printed"),
    }
    assert_eq!(session, Some(7));
}

#[test]
fn exit_leaves_the_loop() {
    let mut session = Some(7u32);
    assert!(matches!(react_to_line(Ok(ReplState::Exit), &mut session), LineReaction::Exit));
    assert_eq!(session, Some(7));
}

#[test]
fn error_is_reported_and_ends_the_session() {
    let mut session = Some(7u32);
    match react_to_line(Err(CmisError::NotFound("x".to_string())), &mut session) {
        LineReaction::Report(message) => assert_eq!(message, "not found: x"),
        _ => panic!("an error is reported"),
    }
    assert_eq!(session, None);
}

#[test]
fn stat_lays_out_the_properties() {
    match stat_output("{\"cmis:name\":\"a\",\"n\":[1,2]}").ok().unwrap() {
        ReplState::Continue(lines) => assert_eq!(
            lines,
            vec!["{\n  \"cmis:name\": \"a\",\n  \"n\": [\n    1,\n    2\n  ]\n}"]
        ),
        ReplState::Exit => panic!("stat does not exit"),
    }
}

#[test]
fn stat_reports_bad_json() {
    let expected = serde_json::from_str::<serde_json::Value>("{").unwrap_err().to_string();
    match stat_output("{") {
        Err(CmisError::Other(message)) => assert_eq!(message, expected),
        _ => panic!("bad JSON is an error"),
    }
}
