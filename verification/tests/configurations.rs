use wol_rs::configurations::{Configurations, ConfigurationsError, Host};

fn host(nickname: Option<&str>, ip: &str, mac: &str) -> Host {
    Host { nickname: nickname.map(String::from), ip: ip.to_string(), mac: mac.to_string() }
}

fn fields(c: &Configurations) -> Vec<(Option<String>, String, String)> {
    c.hosts.iter().map(|h| (h.nickname.clone(), h.ip.clone(), h.mac.clone())).collect()
}

fn entry(nickname: Option<&str>, ip: &str, mac: &str) -> (Option<String>, String, String) {
    (nickname.map(String::from), ip.to_string(), mac.to_string())
}

const X: &str = "aa:bb:cc:dd:ee:01";
const Y: &str = "aa:bb:cc:dd:ee:02";
const Z: &str = "aa:bb:cc:dd:ee:03";

#[test]
fn a_new_registry_is_empty() {
    assert!(Configurations::default().hosts.is_empty());
}

#[test]
fn hosts_are_equal_when_their_macs_are() {
    assert!(host(Some("a"), "10.0.0.1", X) == host(None, "10.0.0.2", X));
    assert!(host(Some("a"), "10.0.0.1", X) != host(Some("a"), "10.0.0.1", Y));
}

#[test]
fn path_lies_in_the_home_directory() {
    assert_eq!(Configurations::path("/home/alice"), "/home/alice/.wol-rs.toml");
    assert_eq!(Configurations::path(""), "/.wol-rs.toml");
}

#[test]
fn lookup_by_nickname_fails_on_an_empty_registry() {
    let c = Configurations::default();
    assert_eq!(
        c.get_host_by_nickname("anything".to_string()).err(),
        Some(ConfigurationsError::HostNotFound)
    );
    assert_eq!(
        c.get_host_by_nickname(String::new()).err(),
        Some(ConfigurationsError::HostNotFound)
    );
}

#[test]
fn lookup_by_ip_fails_on_an_empty_registry() {
    let c = Configurations::default();
    assert_eq!(c.get_host_by_ip("10.0.0.1").err(), Some(ConfigurationsError::HostNotFound));
}

#[test]
fn lookup_by_ip_returns_the_first_match() {
    let c = Configurations {
        hosts: vec![
            host(Some("one"), "10.0.0.1", X),
            host(Some("two"), "10.0.0.2", Y),
            host(Some("three"), "10.0.0.2", Z),
        ],
    };
    let found = c.get_host_by_ip("10.0.0.2").unwrap();
    assert_eq!(found.nickname.as_deref(), Some("two"));
    assert_eq!(found.mac, Y);
    assert!(std::ptr::eq(found, &c.hosts[1]));
}

#[test]
fn lookup_by_ip_compares_the_whole_text() {
    let c = Configurations { hosts: vec![host(None, "10.0.0.1", X)] };
    assert_eq!(c.get_host_by_ip("10.0.0.10").err(), Some(ConfigurationsError::HostNotFound));
    assert_eq!(c.get_host_by_ip("10.0.0.").err(), Some(ConfigurationsError::HostNotFound));
    assert_eq!(c.get_host_by_ip("10.0.0.1").unwrap().mac, X);
}

#[test]
fn lookup_by_nickname_returns_the_first_match() {
    let c = Configurations {
        hosts: vec![
            host(None, "10.0.0.1", X),
            host(Some("nas"), "10.0.0.2", Y),
            host(Some("nas"), "10.0.0.3", Z),
        ],
    };
    let found = c.get_host_by_nickname("nas".to_string()).unwrap();
    assert_eq!(found.ip, "10.0.0.2");
    assert_eq!(found.mac, Y);
    assert!(std::ptr::eq(found, &c.hosts[1]));
}

#[test]
fn lookup_by_nickname_is_case_sensitive() {
    let c = Configurations { hosts: vec![host(Some("Nas"), "10.0.0.2", Y)] };
    assert_eq!(
        c.get_host_by_nickname("nas".to_string()).err(),
        Some(ConfigurationsError::HostNotFound)
    );
    assert_eq!(
        c.get_host_by_nickname("Nas ".to_string()).err(),
        Some(ConfigurationsError::HostNotFound)
    );
    assert_eq!(c.get_host_by_nickname("Nas".to_string()).unwrap().mac, Y);
}

#[test]
fn lookup_by_nickname_skips_hosts_without_one() {
    let c = Configurations { hosts: vec![host(None, "10.0.0.1", X), host(Some(""), "10.0.0.2", Y)] };
    assert_eq!(c.get_host_by_nickname(String::new()).unwrap().mac, Y);
    let d = Configurations { hosts: vec![host(None, "10.0.0.1", X)] };
    assert_eq!(
        d.get_host_by_nickname(String::new()).err(),
        Some(ConfigurationsError::HostNotFound)
    );
}

#[test]
fn add_hosts_appends_in_order_and_merges_nothing() {
    let mut c = Configurations { hosts: vec![host(Some("a"), "10.0.0.1", X)] };
    c.add_hosts(vec![host(None, "10.0.0.2", X), host(Some("b"), "10.0.0.3", Y)]);
    assert_eq!(
        fields(&c),
        vec![
            entry(Some("a"), "10.0.0.1", X),
            entry(None, "10.0.0.2", X),
            entry(Some("b"), "10.0.0.3", Y),
        ]
    );
    c.add_hosts(Vec::new());
    assert_eq!(c.hosts.len(), 3);
}

#[test]
fn dedup_keeps_the_nickname_of_the_survivor() {
    let mut c = Configurations {
        hosts: vec![host(Some("a"), "10.0.0.1", X), host(None, "10.0.0.2", X)],
    };
    c.dedup_hosts();
    assert_eq!(fields(&c), vec![entry(Some("a"), "10.0.0.1", X)]);
}

#[test]
fn dedup_rescues_the_nickname_of_the_dropped_entry() {
    let mut c = Configurations {
        hosts: vec![host(None, "10.0.0.1", X), host(Some("a"), "10.0.0.2", X)],
    };
    c.dedup_hosts();
    assert_eq!(fields(&c), vec![entry(Some("a"), "10.0.0.1", X)]);
}

#[test]
fn dedup_does_not_overwrite_a_nickname() {
    let mut c = Configurations {
        hosts: vec![host(Some("old"), "10.0.0.1", X), host(Some("new"), "10.0.0.2", X)],
    };
    c.dedup_hosts();
    assert_eq!(fields(&c), vec![entry(Some("old"), "10.0.0.1", X)]);
}

#[test]
fn dedup_takes_the_first_nickname_of_a_run() {
    let mut c = Configurations {
        hosts: vec![
            host(None, "10.0.0.1", X),
            host(None, "10.0.0.2", X),
            host(Some("a"), "10.0.0.3", X),
            host(Some("b"), "10.0.0.4", X),
        ],
    };
    c.dedup_hosts();
    assert_eq!(fields(&c), vec![entry(Some("a"), "10.0.0.1", X)]);
}

#[test]
fn dedup_leaves_duplicates_that_are_apart() {
    let mut c = Configurations {
        hosts: vec![host(None, "10.0.0.1", X), host(None, "10.0.0.2", Y), host(Some("x"), "10.0.0.3", X)],
    };
    c.dedup_hosts();
    assert_eq!(
        fields(&c),
        vec![entry(None, "10.0.0.1", X), entry(None, "10.0.0.2", Y), entry(Some("x"), "10.0.0.3", X)]
    );
}

#[test]
fn dedup_collapses_each_run_on_its_own() {
    let mut c = Configurations {
        hosts: vec![
            host(None, "10.0.0.1", X),
            host(Some("x"), "10.0.0.2", X),
            host(Some("y"), "10.0.0.3", Y),
            host(None, "10.0.0.4", Y),
            host(None, "10.0.0.5", X),
            host(None, "10.0.0.6", Z),
            host(None, "10.0.0.7", Z),
        ],
    };
    c.dedup_hosts();
    assert_eq!(
        fields(&c),
        vec![
            entry(Some("x"), "10.0.0.1", X),
            entry(Some("y"), "10.0.0.3", Y),
            entry(None, "10.0.0.5", X),
            entry(None, "10.0.0.6", Z),
        ]
    );
}

#[test]
fn dedup_compares_the_mac_text_exactly() {
    let mut c = Configurations {
        hosts: vec![host(None, "10.0.0.1", "aa:bb:cc:dd:ee:01"), host(None, "10.0.0.1", "AA:BB:CC:DD:EE:01")],
    };
    c.dedup_hosts();
    assert_eq!(c.hosts.len(), 2);
}

#[test]
fn dedup_twice_is_dedup_once() {
    let mut c = Configurations {
        hosts: vec![
            host(None, "10.0.0.1", X),
            host(Some("x"), "10.0.0.2", X),
            host(None, "10.0.0.3", Y),
            host(None, "10.0.0.4", X),
            host(None, "10.0.0.5", X),
        ],
    };
    c.dedup_hosts();
    let once = fields(&c);
    assert_eq!(
        once,
        vec![entry(Some("x"), "10.0.0.1", X), entry(None, "10.0.0.3", Y), entry(None, "10.0.0.4", X)]
    );
    c.dedup_hosts();
    assert_eq!(fields(&c), once);
}

#[test]
fn dedup_of_an_empty_or_single_registry_changes_nothing() {
    let mut c = Configurations::default();
    c.dedup_hosts();
    assert!(c.hosts.is_empty());
    let mut d = Configurations { hosts: vec![host(Some("a"), "10.0.0.1", X)] };
    d.dedup_hosts();
    assert_eq!(fields(&d), vec![entry(Some("a"), "10.0.0.1", X)]);
}

#[test]
fn adding_a_known_mac_under_a_new_ip_keeps_the_old_ip() {
    let mut c = Configurations { hosts: vec![host(Some("nas"), "10.0.0.1", X)] };
    c.add_hosts(vec![host(Some("nas2"), "10.0.0.99", X)]);
    c.dedup_hosts();
    assert_eq!(fields(&c), vec![entry(Some("nas"), "10.0.0.1", X)]);
}
