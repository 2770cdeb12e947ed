use codexmanager_service::dotenv::{
    dotenv_assignments, env_assignments_to_apply, find_env_file_in_dir, parse_dotenv_kv,
    strip_inline_comment,
};
use codexmanager_service::paths::{
    db_dir, ensure_default_db_path, persist_rpc_token_if_missing, read_rpc_token_from_env,
    read_rpc_token_from_file, resolve_path_with_base, rpc_token_file_path, PersistTokenAction,
    PersistTokenEvent, PersistTokenState, TokenFileCreate,
};
use codexmanager_service::proxy::{
    default_proxy_url_for, is_local_host, normalize_proxy_candidate, parse_reg_query_value,
    parse_windows_proxy_enabled, parse_windows_proxy_server, proxy_bypass_matches_host,
    proxy_bypass_matches_target, proxy_bypass_rule_matches, split_proxy_bypass_host_port,
    system_proxy_url_for, target_host_and_port, wildcard_matches, ProxyEnvironment,
    WindowsInternetSettings,
};
use std::path::PathBuf;

#[test]
fn normalize_proxy_candidate_adds_http_scheme_for_host_port() {
    assert_eq!(
        normalize_proxy_candidate("127.0.0.1:7892").as_deref(),
        Some("http://127.0.0.1:7892")
    );
    assert_eq!(
        normalize_proxy_candidate("socks5h://127.0.0.1:7890").as_deref(),
        Some("socks5h://127.0.0.1:7890")
    );
}

#[test]
fn parse_windows_proxy_server_prefers_https_proxy() {
    assert_eq!(
        parse_windows_proxy_server("http=127.0.0.1:7890;https=127.0.0.1:7892").as_deref(),
        Some("http://127.0.0.1:7892")
    );
}

#[test]
fn parse_windows_proxy_server_supports_socks_proxy() {
    assert_eq!(
        parse_windows_proxy_server("socks=127.0.0.1:7890").as_deref(),
        Some("socks5h://127.0.0.1:7890")
    );
}

#[test]
fn proxy_bypass_supports_loopback_local_and_wildcard_rules() {
    assert!(proxy_bypass_matches_target(
        "http://localhost:3000/path",
        "<local>"
    ));
    assert!(proxy_bypass_matches_target(
        "http://127.0.0.1:8080/path",
        "127.0.0.1"
    ));
    assert!(proxy_bypass_matches_target(
        "https://api.example.com/v1",
        "*.example.com"
    ));
    assert!(!proxy_bypass_matches_target(
        "https://chatgpt.com/backend-api",
        "localhost;*.example.com;<local>"
    ));
}

#[test]
fn proxy_bypass_respects_rule_ports() {
    assert!(proxy_bypass_matches_target(
        "https://api.example.com:8443/v1",
        "api.example.com:8443"
    ));
    assert!(!proxy_bypass_matches_target(
        "https://api.example.com:9443/v1",
        "api.example.com:8443"
    ));
}

#[test]
fn normalize_proxy_candidate_rejects_unsupported_urls() {
    assert_eq!(normalize_proxy_candidate("ftp://127.0.0.1:21"), None);
}

#[test]
fn parse_reg_query_value_reads_value_column() {
    let output = r#"
HKEY_CURRENT_USER\Software\Microsoft\Windows\CurrentVersion\Internet Settings
    ProxyServer    REG_SZ    127.0.0.1:7892
"#;

    assert_eq!(
        parse_reg_query_value(output, "ProxyServer").as_deref(),
        Some("127.0.0.1:7892")
    );
}

fn exe_dir_for_tests() -> PathBuf {
    PathBuf::from("/opt/codexmanager/bin")
}

#[test]
fn ensure_default_db_path_resolves_relative_env_against_exe_dir() {
    let exe = exe_dir_for_tests();
    let exe_text = exe.to_string_lossy().into_owned();
    let resolved = ensure_default_db_path(Some("./data/codexmanager.db"), &exe_text);
    assert_eq!(
        PathBuf::from(&resolved),
        exe.join("data").join("codexmanager.db")
    );
    // The caller records the resolved path in the environment; read back from
    // there it resolves to itself.
    assert_eq!(ensure_default_db_path(Some(&resolved), &exe_text), resolved);
}

#[test]
fn rpc_token_file_path_resolves_relative_env_against_exe_dir() {
    let exe = exe_dir_for_tests();
    let exe_text = exe.to_string_lossy().into_owned();
    let resolved = rpc_token_file_path(
        Some("./data/codexmanager.rpc-token"),
        Some("./data/codexmanager.db"),
        &exe_text,
    );
    assert_eq!(
        PathBuf::from(resolved),
        exe.join("data").join("codexmanager.rpc-token")
    );
}

// ---------------------------------------------------------------------------
// Further cases.

#[test]
fn rpc_token_file_defaults_next_to_database() {
    let resolved = rpc_token_file_path(Some("   "), Some("/srv/app/db/main.db"), "/opt/bin");
    assert_eq!(PathBuf::from(resolved), PathBuf::from("/srv/app/db/codexmanager.rpc-token"));
    let fallback = rpc_token_file_path(None, None, "/opt/bin");
    assert_eq!(PathBuf::from(fallback), PathBuf::from("/opt/bin/codexmanager.rpc-token"));
}

#[test]
fn resolve_path_keeps_absolute_and_blank() {
    assert_eq!(resolve_path_with_base("  ", "/base"), "");
    assert_eq!(resolve_path_with_base(" /abs/file ", "/base"), "/abs/file");
    assert_eq!(
        PathBuf::from(resolve_path_with_base("rel/file", "/base")),
        PathBuf::from("/base/rel/file")
    );
}

#[test]
fn db_dir_is_parent_of_db_path() {
    assert_eq!(db_dir("/var/lib/app/x.db", "/opt"), "/var/lib/app");
    assert_eq!(ensure_default_db_path(None, "/opt"), "/opt/codexmanager.db");
    assert_eq!(ensure_default_db_path(Some(" "), "/opt"), "/opt/codexmanager.db");
}

#[test]
fn rpc_token_text_is_trimmed() {
    assert_eq!(read_rpc_token_from_file("  abc \n").as_deref(), Some("abc"));
    assert_eq!(read_rpc_token_from_file(" \n\t"), None);
    assert_eq!(read_rpc_token_from_env(Some(" tok ")).as_deref(), Some("tok"));
    assert_eq!(read_rpc_token_from_env(Some("")), None);
    assert_eq!(read_rpc_token_from_env(None), None);
}

#[test]
fn strip_inline_comment_cases() {
    assert_eq!(strip_inline_comment("value # note"), "value");
    assert_eq!(strip_inline_comment("a#b"), "a#b");
    assert_eq!(strip_inline_comment("plain"), "plain");
    assert_eq!(strip_inline_comment("x   # y # z"), "x");
}

#[test]
fn parse_dotenv_kv_cases() {
    assert_eq!(parse_dotenv_kv("  # comment"), None);
    assert_eq!(parse_dotenv_kv("; comment"), None);
    assert_eq!(parse_dotenv_kv("   "), None);
    assert_eq!(parse_dotenv_kv("NOEQUALS"), None);
    assert_eq!(parse_dotenv_kv(" =value"), None);
    assert_eq!(
        parse_dotenv_kv("KEY=value"),
        Some(("KEY".to_string(), "value".to_string()))
    );
    assert_eq!(
        parse_dotenv_kv("export KEY = \"a b\""),
        Some(("KEY".to_string(), "a b".to_string()))
    );
    assert_eq!(
        parse_dotenv_kv("KEY='x # y'"),
        Some(("KEY".to_string(), "x # y".to_string()))
    );
    assert_eq!(
        parse_dotenv_kv("KEY=v1 # trailing"),
        Some(("KEY".to_string(), "v1".to_string()))
    );
    assert_eq!(
        parse_dotenv_kv("KEY=a=b"),
        Some(("KEY".to_string(), "a=b".to_string()))
    );
    assert_eq!(
        parse_dotenv_kv("KEY=\""),
        Some(("KEY".to_string(), "\"".to_string()))
    );
}

#[test]
fn dotenv_assignments_reads_lines_in_order() {
    let text = "# header\r\nA=1\r\n\r\nexport B='two'\nC\nD=4 # four\n";
    let got = dotenv_assignments(text);
    assert_eq!(
        got,
        vec![
            ("A".to_string(), "1".to_string()),
            ("B".to_string(), "two".to_string()),
            ("D".to_string(), "4".to_string()),
        ]
    );
}

#[test]
fn find_env_file_prefers_first_candidate() {
    assert_eq!(find_env_file_in_dir(|name: &str| name == ".env"), Some(".env"));
    assert_eq!(
        find_env_file_in_dir(|name: &str| name == ".env" || name == "CodexManager.env"),
        Some("CodexManager.env")
    );
    assert_eq!(find_env_file_in_dir(|_: &str| true), Some("codexmanager.env"));
    assert_eq!(find_env_file_in_dir(|_: &str| false), None);
}

#[test]
fn normalize_proxy_candidate_trims_quotes_and_space() {
    assert_eq!(
        normalize_proxy_candidate("  \"HTTPS://proxy.local:3128\"  ").as_deref(),
        Some("HTTPS://proxy.local:3128")
    );
    assert_eq!(normalize_proxy_candidate(" '' "), None);
    assert_eq!(normalize_proxy_candidate("socks4://10.0.0.1:1080").as_deref(), Some("socks4://10.0.0.1:1080"));
}

#[test]
fn normalize_proxy_candidate_rejects_what_reqwest_rejects() {
    // the scheme is supported, but there is no host for reqwest to use
    assert_eq!(normalize_proxy_candidate("http://"), None);
}

#[test]
fn parse_windows_proxy_server_other_cases() {
    assert_eq!(parse_windows_proxy_server("   "), None);
    assert_eq!(
        parse_windows_proxy_server("127.0.0.1:8888").as_deref(),
        Some("http://127.0.0.1:8888")
    );
    assert_eq!(
        parse_windows_proxy_server("ftp=1.2.3.4:21;http=1.2.3.4:80;socks=5.6.7.8:1080").as_deref(),
        Some("http://1.2.3.4:80")
    );
    assert_eq!(
        parse_windows_proxy_server("socks5=socks4://9.9.9.9:1").as_deref(),
        Some("socks4://9.9.9.9:1")
    );
    assert_eq!(parse_windows_proxy_server("http=;ftp=x"), None);
    assert_eq!(
        parse_windows_proxy_server("HTTPS = 1.1.1.1:443 ; http=2.2.2.2:80").as_deref(),
        Some("http://1.1.1.1:443")
    );
}

#[test]
fn parse_windows_proxy_enabled_cases() {
    assert!(parse_windows_proxy_enabled(" TRUE "));
    assert!(parse_windows_proxy_enabled("0x1"));
    assert!(parse_windows_proxy_enabled("0xff"));
    assert!(!parse_windows_proxy_enabled("0x0"));
    assert!(parse_windows_proxy_enabled("1"));
    assert!(parse_windows_proxy_enabled("+7"));
    assert!(!parse_windows_proxy_enabled("0"));
    assert!(!parse_windows_proxy_enabled("false"));
    assert!(!parse_windows_proxy_enabled("0x"));
    assert!(!parse_windows_proxy_enabled("4294967296"));
    assert!(parse_windows_proxy_enabled("4294967295"));
}

#[test]
fn parse_reg_query_value_other_cases() {
    let output = "\r\n  proxyenable    REG_DWORD    0x1\r\n";
    assert_eq!(parse_reg_query_value(output, "ProxyEnable").as_deref(), Some("0x1"));
    let short = "ProxyServer REG_SZ\nProxyServer REG_SZ a  b   c\n";
    assert_eq!(parse_reg_query_value(short, "ProxyServer").as_deref(), Some("a b c"));
    assert_eq!(parse_reg_query_value("nothing here", "ProxyServer"), None);
}

#[test]
fn split_host_port_cases() {
    assert_eq!(split_proxy_bypass_host_port("example.com:8080"), ("example.com".to_string(), Some(8080)));
    assert_eq!(split_proxy_bypass_host_port("example.com"), ("example.com".to_string(), None));
    assert_eq!(split_proxy_bypass_host_port("[::1]:443"), ("::1".to_string(), Some(443)));
    assert_eq!(split_proxy_bypass_host_port("[::1]"), ("::1".to_string(), None));
    assert_eq!(split_proxy_bypass_host_port("::1"), ("::1".to_string(), None));
    assert_eq!(split_proxy_bypass_host_port("host:99999"), ("host:99999".to_string(), None));
    assert_eq!(split_proxy_bypass_host_port("host:+80"), ("host".to_string(), Some(80)));
}

#[test]
fn wildcard_matches_cases() {
    assert!(wildcard_matches("*.example.com", "api.example.com"));
    assert!(!wildcard_matches("*.example.com", "example.com"));
    assert!(wildcard_matches("a*b*c", "aXXbYYc"));
    assert!(wildcard_matches("**", ""));
    assert!(!wildcard_matches("a", ""));
    assert!(wildcard_matches("*", "anything"));
    assert!(!wildcard_matches("a*", "ba"));
    // a star in the value is first taken literally
    assert!(!wildcard_matches("*", "*a"));
}

#[test]
fn local_host_cases() {
    assert!(is_local_host("localhost"));
    assert!(is_local_host("LOCALHOST"));
    assert!(is_local_host("intranet"));
    assert!(is_local_host("127.0.0.5"));
    assert!(!is_local_host("10.0.0.1"));
    assert!(!is_local_host("example.com"));
}

#[test]
fn rule_matching_cases() {
    assert!(proxy_bypass_rule_matches("*", "any.host", None));
    assert!(proxy_bypass_rule_matches("\"example.com\"", "api.example.com", Some(443)));
    assert!(proxy_bypass_rule_matches("https://.Example.com/path", "example.com", Some(443)));
    assert!(!proxy_bypass_rule_matches("example.com", "badexample.com", Some(443)));
    assert!(!proxy_bypass_rule_matches("...", "example.com", None));
    assert!(proxy_bypass_rule_matches("[::1]:8080", "::1", Some(8080)));
    assert!(!proxy_bypass_rule_matches("[::1]:8080", "::1", Some(80)));
}

#[test]
fn target_host_and_port_cases() {
    assert_eq!(
        target_host_and_port("https://API.Example.com/v1"),
        Some(("api.example.com".to_string(), Some(443)))
    );
    assert_eq!(
        target_host_and_port("//example.org:8080/x"),
        Some(("example.org".to_string(), Some(8080)))
    );
    assert_eq!(
        target_host_and_port("http://[::1]:9/"),
        Some(("::1".to_string(), Some(9)))
    );
    assert_eq!(target_host_and_port("mailto:someone@example.com"), None);
    assert!(!proxy_bypass_matches_target("mailto:someone@example.com", "*"));
}

#[test]
fn bypass_host_list_cases() {
    assert!(proxy_bypass_matches_host("a.b.c", Some(80), " , ; b.c"));
    assert!(!proxy_bypass_matches_host("a.b.c", Some(80), " , ; "));
}

fn no_settings() -> WindowsInternetSettings {
    WindowsInternetSettings {
        proxy_enable: None,
        proxy_override: None,
        proxy_server: None,
    }
}

#[test]
fn system_proxy_cases() {
    let target = "https://chatgpt.com/backend-api";
    assert_eq!(system_proxy_url_for(target, &no_settings()), None);
    let on = WindowsInternetSettings {
        proxy_enable: Some("0x1".to_string()),
        proxy_override: Some("<local>;*.internal".to_string()),
        proxy_server: Some("http=127.0.0.1:7890".to_string()),
    };
    assert_eq!(system_proxy_url_for(target, &on).as_deref(), Some("http://127.0.0.1:7890"));
    assert_eq!(system_proxy_url_for("http://intranet/x", &on), None);
    let off = WindowsInternetSettings {
        proxy_enable: Some("0".to_string()),
        proxy_override: None,
        proxy_server: Some("127.0.0.1:7890".to_string()),
    };
    assert_eq!(system_proxy_url_for(target, &off), None);
}

#[test]
fn default_proxy_order() {
    let target = "https://chatgpt.com/backend-api";
    let env = ProxyEnvironment {
        no_proxy: vec![None, Some("example.com".to_string())],
        proxies: vec![
            Some("   ".to_string()),
            None,
            Some("ftp://x".to_string()),
            Some("127.0.0.1:3128".to_string()),
            None,
            Some("http://other:1".to_string()),
        ],
    };
    let system = WindowsInternetSettings {
        proxy_enable: Some("1".to_string()),
        proxy_override: None,
        proxy_server: Some("10.0.0.1:8080".to_string()),
    };
    assert_eq!(default_proxy_url_for(target, &env, &system).as_deref(), Some("http://127.0.0.1:3128"));
    let bypassing = ProxyEnvironment {
        no_proxy: vec![Some("chatgpt.com".to_string()), None],
        proxies: env.proxies.clone(),
    };
    assert_eq!(default_proxy_url_for(target, &bypassing, &system), None);
    let empty = ProxyEnvironment { no_proxy: vec![], proxies: vec![] };
    assert_eq!(default_proxy_url_for(target, &empty, &system).as_deref(), Some("http://10.0.0.1:8080"));
    assert_eq!(default_proxy_url_for(target, &empty, &no_settings()), None);
}

#[test]
fn env_file_does_not_override_set_variables() {
    let text = "A=1\nB=2\n# c\nA=3\nC=4\r\nB=5\n";
    let present = vec!["B".to_string()];
    let applied = env_assignments_to_apply(text, &present);
    assert_eq!(
        applied,
        vec![("A".to_string(), "1".to_string()), ("C".to_string(), "4".to_string())]
    );
    assert!(env_assignments_to_apply("", &present).is_empty());
}

fn run_persist(events: Vec<PersistTokenEvent>) -> (Vec<&'static str>, Option<Option<String>>) {
    let mut state = PersistTokenState::Start;
    let mut actions = Vec::new();
    let mut events = events.into_iter();
    let mut event = PersistTokenEvent::Begin;
    loop {
        let (next, action) = persist_rpc_token_if_missing(state, event);
        state = next;
        match action {
            PersistTokenAction::Finish(result) => return (actions, Some(result)),
            PersistTokenAction::ReadTokenFile => actions.push("read"),
            PersistTokenAction::OverwriteBlankFile => actions.push("overwrite"),
            PersistTokenAction::CreateParentDir => actions.push("mkdir"),
            PersistTokenAction::CreateNewAndWrite => actions.push("create"),
        }
        match events.next() {
            Some(e) => event = e,
            None => return (actions, None),
        }
    }
}

#[test]
fn persist_token_uses_existing_file() {
    let (actions, result) =
        run_persist(vec![PersistTokenEvent::FileRead(Some(" tok \n".to_string()))]);
    assert_eq!(actions, vec!["read"]);
    assert_eq!(result, Some(Some("tok".to_string())));
}

#[test]
fn persist_token_writes_when_missing() {
    let (actions, result) = run_persist(vec![
        PersistTokenEvent::FileRead(None),
        PersistTokenEvent::ParentDirReady(true),
        PersistTokenEvent::CreateResult(TokenFileCreate::Created),
    ]);
    assert_eq!(actions, vec!["read", "mkdir", "create"]);
    assert_eq!(result, Some(None));
}

#[test]
fn persist_token_reads_back_after_race() {
    let (actions, result) = run_persist(vec![
        PersistTokenEvent::FileRead(None),
        PersistTokenEvent::ParentDirReady(true),
        PersistTokenEvent::CreateResult(TokenFileCreate::AlreadyExists),
        PersistTokenEvent::FileRead(Some("other".to_string())),
    ]);
    assert_eq!(actions, vec!["read", "mkdir", "create", "read"]);
    assert_eq!(result, Some(Some("other".to_string())));
}

#[test]
fn persist_token_gives_up_on_failures() {
    let (_, no_dir) = run_persist(vec![
        PersistTokenEvent::FileRead(None),
        PersistTokenEvent::ParentDirReady(false),
    ]);
    assert_eq!(no_dir, Some(None));
    let (_, no_file) = run_persist(vec![
        PersistTokenEvent::FileRead(None),
        PersistTokenEvent::ParentDirReady(true),
        PersistTokenEvent::CreateResult(TokenFileCreate::Failed),
    ]);
    assert_eq!(no_file, Some(None));
}

#[test]
fn persist_token_overwrites_blank_file() {
    let (actions, result) = run_persist(vec![
        PersistTokenEvent::FileRead(Some("  \n".to_string())),
        PersistTokenEvent::Overwritten,
    ]);
    assert_eq!(actions, vec!["read", "overwrite"]);
    assert_eq!(result, Some(None));
}
