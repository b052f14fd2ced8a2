use attic_logic::servers::sorted_server_names;
use attic_logic::substituters::{
    alias_among, cache_name_from_url, enabled_cache_display, enabled_caches, find_cache_alias,
    is_valid_cache_name, EnabledCache, ParsedServer, ServerEndpoint, UrlParts,
};

fn url(scheme: &str, host: &str, port: u16, path: &str) -> UrlParts {
    UrlParts {
        scheme: scheme.to_string(),
        username: String::new(),
        password: None,
        host: Some(host.to_string()),
        port: Some(port),
        path: path.to_string(),
        fragment: None,
    }
}

fn server(name: &str, endpoint: &str) -> ServerEndpoint {
    ServerEndpoint {
        name: name.to_string(),
        endpoint: endpoint.to_string(),
    }
}

#[test]
fn cache_name_follows_endpoint_path() {
    let endpoint = url("https", "cache.example.com", 443, "/api//");
    let sub = url("https", "cache.example.com", 443, "/api/main");
    assert_eq!(cache_name_from_url(&sub, &endpoint), Some("main".to_string()));
    let root = url("https", "cache.example.com", 443, "/");
    let sub = url("https", "cache.example.com", 443, "/main");
    assert_eq!(cache_name_from_url(&sub, &root), Some("main".to_string()));
}

#[test]
fn cache_name_needs_same_authority() {
    let endpoint = url("https", "cache.example.com", 443, "/");
    assert_eq!(cache_name_from_url(&url("http", "cache.example.com", 443, "/main"), &endpoint), None);
    assert_eq!(cache_name_from_url(&url("https", "other.example.com", 443, "/main"), &endpoint), None);
    assert_eq!(cache_name_from_url(&url("https", "cache.example.com", 8443, "/main"), &endpoint), None);
    let mut with_user = url("https", "cache.example.com", 443, "/main");
    with_user.username = "alice".to_string();
    assert_eq!(cache_name_from_url(&with_user, &endpoint), None);
    let mut with_fragment = url("https", "cache.example.com", 443, "/main");
    with_fragment.fragment = Some("x".to_string());
    assert_eq!(cache_name_from_url(&with_fragment, &endpoint), None);
}

#[test]
fn cache_name_must_be_one_valid_segment() {
    let endpoint = url("https", "cache.example.com", 443, "/api");
    let name = |path: &str| cache_name_from_url(&url("https", "cache.example.com", 443, path), &endpoint);
    assert_eq!(name("/api"), None);
    assert_eq!(name("/api/"), None);
    assert_eq!(name("/apix"), None);
    assert_eq!(name("/other/main"), None);
    assert_eq!(name("/api/main/nar"), None);
    assert_eq!(name("/api/-main"), None);
    assert_eq!(name("/api/my_cache+1-a"), Some("my_cache+1-a".to_string()));
}

#[test]
fn cache_name_rules() {
    assert!(is_valid_cache_name("main"));
    assert!(is_valid_cache_name("0public-cache"));
    assert!(is_valid_cache_name(&"a".repeat(50)));
    assert!(!is_valid_cache_name(&"a".repeat(51)));
    assert!(!is_valid_cache_name(""));
    assert!(!is_valid_cache_name("_main"));
    assert!(!is_valid_cache_name("ma.in"));
    assert!(!is_valid_cache_name("mäin"));
}

#[test]
fn alias_of_single_matching_server() {
    let servers = [
        server("prod", "https://cache.example.com/"),
        server("dev", "https://dev.example.com/"),
    ];
    assert_eq!(
        find_cache_alias("https://cache.example.com/main", &servers),
        Some("prod:main".to_string())
    );
    assert_eq!(
        find_cache_alias("https://cache.example.com:443/main", &servers),
        Some("prod:main".to_string())
    );
    assert_eq!(find_cache_alias("https://cache.nixos.org", &servers), None);
    assert_eq!(find_cache_alias("not a url", &servers), None);
}

#[test]
fn alias_is_dropped_when_ambiguous() {
    let servers = [
        server("a", "https://cache.example.com"),
        server("b", "https://cache.example.com/"),
        server("broken", "::"),
    ];
    assert_eq!(find_cache_alias("https://cache.example.com/main", &servers), None);
}

#[test]
fn display_with_and_without_alias() {
    let with = EnabledCache {
        url: "https://cache.example.com/main".to_string(),
        alias: Some("prod:main".to_string()),
    };
    assert_eq!(enabled_cache_display(&with), "prod:main (https://cache.example.com/main)");
    let without = EnabledCache {
        url: "https://cache.nixos.org".to_string(),
        alias: None,
    };
    assert_eq!(enabled_cache_display(&without), "https://cache.nixos.org");
}

#[test]
fn enabled_caches_are_aliased_and_sorted() {
    let servers = [server("prod", "https://cache.example.com")];
    let caches = enabled_caches(
        "https://cache.example.com/main https://cache.nixos.org\n\thttps://a.example.org ",
        &servers,
    );
    let shown: Vec<String> = caches.iter().map(enabled_cache_display).collect();
    assert_eq!(
        shown,
        vec![
            "https://a.example.org",
            "https://cache.nixos.org",
            "prod:main (https://cache.example.com/main)",
        ]
    );
    assert_eq!(caches[2].alias.as_deref(), Some("prod:main"));
    assert!(enabled_caches("  \n ", &servers).is_empty());
}

#[test]
fn server_names_are_sorted() {
    let names = vec!["zeta".to_string(), "alpha".to_string(), "Beta".to_string(), "alp".to_string()];
    assert_eq!(sorted_server_names(names), vec!["Beta", "alp", "alpha", "zeta"]);
}

#[test]
fn alias_among_parsed_servers() {
    let sub = url("https", "cache.example.com", 443, "/main");
    let parsed = |name: &str, endpoint: Option<UrlParts>| ParsedServer {
        name: name.to_string(),
        endpoint,
    };
    let one = [
        parsed("broken", None),
        parsed("prod", Some(url("https", "cache.example.com", 443, "/"))),
        parsed("dev", Some(url("https", "dev.example.com", 443, "/"))),
    ];
    assert_eq!(alias_among(&sub, &one), Some("prod:main".to_string()));
    let two = [
        parsed("prod", Some(url("https", "cache.example.com", 443, "/"))),
        parsed("again", Some(url("https", "cache.example.com", 443, ""))),
    ];
    assert_eq!(alias_among(&sub, &two), None);
    assert_eq!(alias_among(&sub, &[]), None);
}

#[test]
fn enabled_caches_without_servers_keep_urls() {
    let caches = enabled_caches("b a b", &[]);
    let urls: Vec<&str> = caches.iter().map(|c| c.url.as_str()).collect();
    assert_eq!(urls, vec!["a", "b", "b"]);
    assert!(caches.iter().all(|c| c.alias.is_none()));
}
