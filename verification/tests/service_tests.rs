use rs_proxy::config::{ProxyConfig, RsProxyArgs, RsProxyConfig};
use rs_proxy::line_config::{parse_line, read_proxy_addr, ConfigError, PoxyAddr};
use rs_proxy::service::{ProxyService, ServiceManager};

fn example_config() -> ProxyConfig {
    ProxyConfig {
        enable: None,
        name: String::from("example"),
        listen: 21883,
        target: String::from("127.0.0.1:1883"),
        allow_list: None,
    }
}

#[test]
fn example_definition_builds_a_service() {
    let service = ProxyService::new(&example_config()).unwrap();
    assert_eq!(service.name, "example");
    assert_eq!(service.listen.port, 21883);
    assert_eq!(
        (service.listen.ip.o0, service.listen.ip.o1, service.listen.ip.o2, service.listen.ip.o3),
        (0, 0, 0, 0)
    );
    assert_eq!(
        (service.target.ip.o0, service.target.ip.o1, service.target.ip.o2, service.target.ip.o3),
        (127, 0, 0, 1)
    );
    assert_eq!(service.target.port, 1883);
    assert!(service.allow_list.is_empty());
}

#[test]
fn malformed_target_fails_with_the_offending_text() {
    let mut config = example_config();
    config.target = String::from("no-such-address");
    let err = ProxyService::new(&config).unwrap_err();
    assert_eq!(err.address, "no-such-address");
}

#[test]
fn service_screens_with_its_allow_list() {
    let mut config = example_config();
    config.allow_list = Some(vec![String::from("10.0.0.1")]);
    let service = ProxyService::new(&config).unwrap();
    assert!(service.permits(&String::from("10.0.0.1")));
    assert!(!service.permits(&String::from("127.0.0.1")));
    let open = ProxyService::new(&example_config()).unwrap();
    assert!(open.permits(&String::from("127.0.0.1")));
}

#[test]
fn invalid_definition_does_not_stop_its_siblings() {
    let configs = vec![
        ProxyConfig {
            enable: None,
            name: String::from("good"),
            listen: 21001,
            target: String::from("127.0.0.1:1883"),
            allow_list: None,
        },
        ProxyConfig {
            enable: None,
            name: String::from("bad"),
            listen: 21002,
            target: String::from("not an address"),
            allow_list: None,
        },
    ];
    let manager = ServiceManager::plan(configs);
    assert_eq!(manager.started_count(), 1);
    assert_eq!(manager.services[0].name, "good");
    assert_eq!(manager.services[0].listen.port, 21001);
    assert_eq!(manager.skipped, vec![String::from("bad")]);
}

#[test]
fn disabled_definition_is_never_started() {
    let mut disabled = example_config();
    disabled.enable = Some(false);
    disabled.name = String::from("off");
    let manager = ServiceManager::plan(vec![disabled, example_config()]);
    assert_eq!(manager.started_count(), 1);
    assert_eq!(manager.services[0].name, "example");
    assert!(manager.skipped.is_empty());
}

#[test]
fn explicitly_enabled_definition_is_started() {
    let mut on = example_config();
    on.enable = Some(true);
    let manager = ServiceManager::plan(vec![on]);
    assert_eq!(manager.started_count(), 1);
}

#[test]
fn line_with_one_arrow_parses() {
    let pair = parse_line("21883 -> 127.0.0.1:1883").unwrap();
    assert_eq!(pair.listen.port, 21883);
    assert_eq!((pair.listen.ip.o0, pair.listen.ip.o1), (0, 0));
    assert_eq!(pair.target.port, 1883);
    assert_eq!((pair.target.ip.o0, pair.target.ip.o3), (127, 1));
}

#[test]
fn line_without_exactly_one_arrow_fails() {
    assert_eq!(parse_line(""), None);
    assert_eq!(parse_line("21883 127.0.0.1:1883"), None);
    assert_eq!(parse_line("1 -> 2.2.2.2:3 -> 4.4.4.4:5"), None);
}

#[test]
fn line_with_bad_halves_fails() {
    assert_eq!(parse_line("x -> 127.0.0.1:1883"), None);
    assert_eq!(parse_line("21883 -> 127.0.0.1"), None);
    assert_eq!(parse_line("65536 -> 127.0.0.1:1883"), None);
}

#[test]
fn proxy_list_skips_comments_and_keeps_duplicates_once() {
    let lines = vec![
        String::from("# forwarded services"),
        String::from("21883 -> 127.0.0.1:1883"),
        String::from("8080->192.168.0.2:80"),
        String::from("21883 -> 127.0.0.1:1883"),
    ];
    let pairs = read_proxy_addr(&lines).unwrap();
    assert_eq!(pairs.len(), 2);
    assert_eq!(pairs[0].listen.port, 21883);
    assert_eq!(pairs[0].target.port, 1883);
    assert_eq!(pairs[1].listen.port, 8080);
    assert_eq!((pairs[1].target.ip.o0, pairs[1].target.ip.o1), (192, 168));
    let again = PoxyAddr::new(pairs[0].listen, pairs[0].target);
    assert_eq!(again, pairs[0]);
}

#[test]
fn proxy_list_reports_the_first_bad_line() {
    let lines = vec![
        String::from("# comment"),
        String::from("8080 -> 1.2.3.4:5"),
        String::from("this line is wrong"),
        String::from("also -> wrong"),
    ];
    let err = read_proxy_addr(&lines).unwrap_err();
    assert_eq!(err, ConfigError { line: 2 });
}

#[test]
fn whole_config_carries_its_entries() {
    let whole = RsProxyConfig { proxy: Some(vec![example_config()]) };
    let entries = whole.proxy.unwrap();
    assert_eq!(entries.len(), 1);
    let manager = ServiceManager::plan(entries);
    assert_eq!(manager.started_count(), 1);
    let args = RsProxyArgs { config: None };
    assert!(args.config.is_none());
}

#[test]
fn empty_proxy_list_is_valid() {
    let lines: Vec<String> = Vec::new();
    let pairs = read_proxy_addr(&lines).unwrap();
    assert!(pairs.is_empty());
}
