use rman::error::HostError;
use rman::host::{
    bundle_hosts, create_cfg, get_host_by_alias, get_hosts, store_text, unbundle_hosts, Host,
    Hosts,
};
use rman::registry::{is_valid_record, Registry};

fn web1() -> Host {
    Host::new("web1", "10.0.0.1", "ops", "/k", "")
}

fn db1() -> Host {
    Host::new("db1", "10.0.0.2", "dba", "/d", "database")
}

fn aliases(reg: &Registry) -> Vec<String> {
    reg.list().iter().map(|h| h.alias.clone()).collect()
}

#[test]
fn add_same_alias_twice_is_refused() {
    let mut reg = Registry::new();
    assert_eq!(reg.add(web1()), Ok(()));
    assert_eq!(reg.len(), 1);
    assert_eq!(reg.add(web1()), Err(HostError::DuplicateAlias));
    assert_eq!(reg.len(), 1);
}

#[test]
fn add_keeps_insertion_order() {
    let mut reg = Registry::new();
    reg.add(web1()).unwrap();
    reg.add(db1()).unwrap();
    reg.add(Host::new("cache", "10.0.0.3", "ops", "/c", "")).unwrap();
    assert_eq!(aliases(&reg), vec!["web1", "db1", "cache"]);
}

#[test]
fn add_refuses_empty_alias_and_separator() {
    let mut reg = Registry::new();
    assert_eq!(reg.add(Host::new("", "10.0.0.1", "ops", "/k", "")), Err(HostError::InvalidRecord));
    assert_eq!(reg.add(Host::new("a|b", "10.0.0.1", "ops", "/k", "")), Err(HostError::InvalidRecord));
    assert_eq!(reg.add(Host::new("a", "10.0.0.1", "ops", "/k", "x|y")), Err(HostError::InvalidRecord));
    assert_eq!(reg.len(), 0);
    assert!(is_valid_record(&web1()));
    assert!(!is_valid_record(&Host::new("x", "1|2", "ops", "/k", "")));
}

#[test]
fn add_accepts_quotes_backslashes_and_control_characters() {
    let mut reg = Registry::new();
    let odd = Host::new("web1", "10.0.0.1", "o\"ps", "C:\\keys\\k", "it's web\nline two\t\u{1}\u{7f}");
    assert_eq!(reg.add(odd), Ok(()));
    let text = store_text(reg.list()).unwrap();
    assert_eq!(
        text,
        "alias = \"web1\"\nip = \"10.0.0.1\"\nssh_user = \"o\\\"ps\"\npk_path = \"C:\\\\keys\\\\k\"\ndescription = \"it's web\\u000Aline two\\u0009\\u0001\\u007F\""
    );
    let back = get_hosts(&text).unwrap();
    assert_eq!(back.len(), 1);
    assert_eq!(back[0].ssh_user, "o\"ps");
    assert_eq!(back[0].pk_path, "C:\\keys\\k");
    assert_eq!(back[0].description, "it's web\nline two\t\u{1}\u{7f}");
}

#[test]
fn store_text_refuses_separator_in_values() {
    let hosts = vec![Host::new("a", "1|2", "u", "/p", "")];
    assert_eq!(store_text(&hosts).err(), Some(HostError::InvalidRecord));
    let no_alias = vec![Host::new("", "1", "u", "/p", "")];
    assert_eq!(store_text(&no_alias).err(), Some(HostError::InvalidRecord));
}

#[test]
fn remove_present_alias() {
    let mut reg = Registry::new();
    reg.add(web1()).unwrap();
    reg.add(db1()).unwrap();
    assert_eq!(reg.remove_by_alias("web1"), Ok(()));
    assert_eq!(reg.len(), 1);
    assert!(reg.find_by_alias("web1").is_none());
    assert_eq!(aliases(&reg), vec!["db1"]);
    let text = store_text(reg.list()).unwrap();
    assert_eq!(
        text,
        "alias = \"db1\"\nip = \"10.0.0.2\"\nssh_user = \"dba\"\npk_path = \"/d\"\ndescription = \"database\""
    );
}

#[test]
fn remove_absent_alias_is_not_found() {
    let mut reg = Registry::new();
    reg.add(web1()).unwrap();
    assert_eq!(reg.remove_by_alias("db1"), Err(HostError::NotFound));
    assert_eq!(reg.len(), 1);
    let mut empty = Registry::new();
    assert_eq!(empty.remove_by_alias("web1"), Err(HostError::NotFound));
    assert_eq!(empty.len(), 0);
}

#[test]
fn remove_takes_the_first_match() {
    let hosts = vec![
        Host::new("a", "1", "u", "/p", "first"),
        Host::new("b", "2", "u", "/p", ""),
        Host::new("a", "3", "u", "/p", "second"),
    ];
    let mut reg = Registry::from_hosts(hosts);
    assert_eq!(reg.find_by_alias("a").unwrap().description, "first");
    reg.remove_by_alias("a").unwrap();
    assert_eq!(reg.len(), 2);
    assert_eq!(reg.find_by_alias("a").unwrap().description, "second");
}

#[test]
fn find_and_get_by_alias() {
    let mut reg = Registry::new();
    reg.add(web1()).unwrap();
    reg.add(db1()).unwrap();
    let h = reg.find_by_alias("db1").unwrap();
    assert_eq!(h.ip, "10.0.0.2");
    assert!(reg.find_by_alias("db").is_none());
    let got = get_host_by_alias(&reg, "web1").unwrap();
    assert_eq!(got.ssh_user, "ops");
    assert_eq!(got.pk_path, "/k");
    assert_eq!(get_host_by_alias(&reg, "nope").err(), Some(HostError::NotFound));
}

#[test]
fn bundle_joins_each_field() {
    let hosts = vec![web1(), db1()];
    let b = bundle_hosts(&hosts);
    assert_eq!(b.aliases, "web1|db1");
    assert_eq!(b.ips, "10.0.0.1|10.0.0.2");
    assert_eq!(b.ssh_users, "ops|dba");
    assert_eq!(b.pk_paths, "/k|/d");
    assert_eq!(b.descriptions, "|database");
}

#[test]
fn bundle_of_no_hosts_is_empty() {
    let b = bundle_hosts(&Vec::new());
    assert_eq!(b.aliases, "");
    assert_eq!(b.descriptions, "");
    assert_eq!(unbundle_hosts(&b).unwrap().len(), 0);
}

fn lists(a: &str, i: &str, u: &str, p: &str, d: &str) -> Hosts {
    Hosts {
        aliases: a.to_string(),
        ips: i.to_string(),
        ssh_users: u.to_string(),
        pk_paths: p.to_string(),
        descriptions: d.to_string(),
    }
}

#[test]
fn unbundle_zips_by_position() {
    let v = unbundle_hosts(&lists("web1|db1", "1|2", "ops|dba", "/k|/d", "|database")).unwrap();
    assert_eq!(v.len(), 2);
    assert_eq!(v[0].alias, "web1");
    assert_eq!(v[0].description, "");
    assert_eq!(v[1].ip, "2");
    assert_eq!(v[1].ssh_user, "dba");
    assert_eq!(v[1].pk_path, "/d");
    assert_eq!(v[1].description, "database");
}

#[test]
fn misaligned_lists_are_corrupt() {
    assert_eq!(
        unbundle_hosts(&lists("web1|db1", "1", "ops|dba", "/k|/d", "|")).err(),
        Some(HostError::StorageCorrupt)
    );
    assert_eq!(
        unbundle_hosts(&lists("web1", "1", "ops", "/k", "a|b|c")).err(),
        Some(HostError::StorageCorrupt)
    );
    assert_eq!(
        unbundle_hosts(&lists("", "", "", "", "x|y")).err(),
        Some(HostError::StorageCorrupt)
    );
}

#[test]
fn empty_or_repeated_alias_is_corrupt() {
    assert_eq!(
        unbundle_hosts(&lists("", "", "", "", "x")).err(),
        Some(HostError::StorageCorrupt)
    );
    assert_eq!(
        unbundle_hosts(&lists("a|", "1|2", "u|u", "/p|/p", "|")).err(),
        Some(HostError::StorageCorrupt)
    );
    assert_eq!(
        unbundle_hosts(&lists("a|b|a", "1|2|3", "u|u|u", "/p|/p|/p", "||")).err(),
        Some(HostError::StorageCorrupt)
    );
}

#[test]
fn store_round_trip() {
    let text = "alias = \"web1|db1\"\nip = \"10.0.0.1|10.0.0.2\"\nssh_user = \"ops|dba\"\npk_path = \"/k|/d\"\ndescription = \"|database\"";
    let first = get_hosts(text).unwrap();
    assert_eq!(first.len(), 2);
    assert_eq!(first[1].alias, "db1");
    assert_eq!(first[0].ip, "10.0.0.1");
    let stored = store_text(&first).unwrap();
    assert_eq!(stored, text);
    let second = get_hosts(&stored).unwrap();
    assert_eq!(second.len(), first.len());
    for (a, b) in first.iter().zip(second.iter()) {
        assert_eq!(a.alias, b.alias);
        assert_eq!(a.ip, b.ip);
        assert_eq!(a.ssh_user, b.ssh_user);
        assert_eq!(a.pk_path, b.pk_path);
        assert_eq!(a.description, b.description);
    }
}

#[test]
fn store_reads_double_quoted_values() {
    let text = "alias = \"a\"\nip = \"b\"\nssh_user = \"c\"\npk_path = \"d\"\ndescription = \"\"\n";
    let v = get_hosts(text).unwrap();
    assert_eq!(v.len(), 1);
    assert_eq!(v[0].alias, "a");
    assert_eq!(v[0].ip, "b");
    assert_eq!(v[0].description, "");
}

#[test]
fn store_reads_single_quoted_values() {
    let text = "alias = 'web1|db1'\nip = '1|2'\nssh_user = 'u|v'\npk_path = '/k|/d'\ndescription = '|'";
    let v = get_hosts(text).unwrap();
    assert_eq!(v.len(), 2);
    assert_eq!(v[1].alias, "db1");
    assert_eq!(v[1].ssh_user, "v");
}

#[test]
fn store_with_missing_key_is_corrupt() {
    let text = "alias = 'a'\nip = 'b'\nssh_user = 'c'\npk_path = 'd'\n";
    assert_eq!(get_hosts(text).err(), Some(HostError::StorageCorrupt));
    assert_eq!(get_hosts("this is [not toml").err(), Some(HostError::StorageCorrupt));
}

#[test]
fn store_with_misaligned_lists_is_corrupt() {
    let text = "alias = 'a|b'\nip = 'x'\nssh_user = 'c|d'\npk_path = 'e|f'\ndescription = '|'";
    assert_eq!(get_hosts(text).err(), Some(HostError::StorageCorrupt));
}

#[test]
fn fresh_store_is_empty() {
    let text = create_cfg();
    assert_eq!(text, "alias = \"\"\nip = \"\"\nssh_user = \"\"\npk_path = \"\"\ndescription = \"\"");
    assert_eq!(get_hosts(&text).unwrap().len(), 0);
}

#[test]
fn added_record_survives_the_store() {
    let mut reg = Registry::new();
    reg.add(web1()).unwrap();
    let text = store_text(reg.list()).unwrap();
    let back = Registry::from_hosts(get_hosts(&text).unwrap());
    assert_eq!(back.len(), 1);
    let h = back.find_by_alias("web1").unwrap();
    assert_eq!(h.ip, "10.0.0.1");
    assert_eq!(h.description, "");
}
