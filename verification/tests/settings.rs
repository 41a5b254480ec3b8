use usps_tracker::config::{Config, ConfigError};
use usps_tracker::proxies::{parse_proxies, ProxyRotation};

fn own(text: &str) -> Option<String> {
    Some(text.to_string())
}

fn with(workers: Option<&str>, use_proxy: Option<&str>) -> Config {
    match Config::from_vars(
        own("id"),
        own(" s "),
        None,
        workers.map(String::from),
        use_proxy.map(String::from),
    ) {
        Ok(config) => config,
        Err(_) => panic!("no settings"),
    }
}

#[test]
fn settings_have_defaults() {
    let config = with(None, None);
    assert_eq!(config.client_id, "id");
    assert_eq!(config.client_secret, " s ");
    assert_eq!(config.num_type, "big");
    assert_eq!(config.workers, 1);
    assert!(!config.use_proxy);
}

#[test]
fn worker_counts() {
    assert_eq!(with(Some("8"), None).workers, 8);
    assert_eq!(with(Some("0"), None).workers, 0);
    assert_eq!(with(Some("-2"), None).workers, 1);
    assert_eq!(with(Some("many"), None).workers, 1);
    assert_eq!(with(Some(" 3"), None).workers, 1);
}

#[test]
fn proxy_switch() {
    for (text, on) in [("1", true), ("true", true), ("TRUE", true), ("0", false), ("yes", false), ("", false)] {
        assert_eq!(with(None, Some(text)).use_proxy, on, "{}", text);
    }
}

#[test]
fn the_source_is_taken_as_it_is() {
    match Config::from_vars(own("id"), own("s"), own(""), None, None) {
        Ok(config) => assert_eq!(config.num_type, ""),
        Err(_) => panic!("no settings"),
    }
}

#[test]
fn the_client_must_be_named() {
    let error = |id: Option<String>, secret: Option<String>| {
        Config::from_vars(id, secret, None, None, None).err()
    };
    assert_eq!(error(None, None), Some(ConfigError::MissingClientId));
    assert_eq!(error(own(" \t"), own("s")), Some(ConfigError::MissingClientId));
    assert_eq!(error(own("id"), None), Some(ConfigError::MissingClientSecret));
    assert_eq!(error(own("id"), own("\u{3000}")), Some(ConfigError::MissingClientSecret));
    assert_eq!(error(own("id"), own("s")), None);
}

#[test]
fn proxies_are_read_line_by_line() {
    assert_eq!(
        parse_proxies("1.2.3.4:80\r\n\n  https://a:1 \nhttp://b\n\t\nsocks5://c"),
        vec!["http://1.2.3.4:80", "https://a:1", "http://b", "http://socks5://c"]
    );
    assert_eq!(parse_proxies(""), Vec::<String>::new());
    assert_eq!(parse_proxies(" \n\r\n"), Vec::<String>::new());
}

#[test]
fn every_proxy_has_a_scheme() {
    for proxy in parse_proxies("a\n http:/b \nHTTP://c\n\thttps://d\r\nhttp://\u{3000}") {
        assert!(proxy.starts_with("http://") || proxy.starts_with("https://"));
        assert_eq!(proxy, proxy.trim());
    }
}

#[test]
fn proxies_take_turns() {
    let mut rotation = ProxyRotation::new(3);
    let turns: Vec<Option<usize>> = (0..7).map(|_| rotation.next_fetch_client()).collect();
    assert_eq!(turns, vec![Some(0), Some(1), Some(2), Some(0), Some(1), Some(2), Some(0)]);
}

#[test]
fn without_proxies_requests_go_out_directly() {
    let mut rotation = ProxyRotation::new(0);
    assert_eq!(rotation.next_fetch_client(), None);
    assert_eq!(rotation.turn, 0);
}

#[test]
fn the_count_of_turns_starts_anew() {
    let mut rotation = ProxyRotation { proxies: 10, turn: usize::MAX };
    assert_eq!(rotation.next_fetch_client(), Some(usize::MAX % 10));
    assert_eq!(rotation.next_fetch_client(), Some(0));
}

#[test]
fn reading_the_proxies_again_changes_nothing() {
    for content in ["", " \n", "a", "1.2.3.4:80\r\n\n  https://a:1 \nhttp://b\n\t\nsocks5://c", "http://\n//"] {
        let proxies = parse_proxies(content);
        assert_eq!(parse_proxies(&proxies.join("\n")), proxies);
    }
}
