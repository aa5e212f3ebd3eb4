use burrowland::whitelist::{
    append_client_echo_sender_whitelist, append_reliable_liquidator_whitelist, get_client_echo_sender_whitelist,
    get_reliable_liquidator_whitelist, in_client_echo_sender_whitelist, in_reliable_liquidator_whitelist,
    remove_client_echo_sender_whitelist, remove_reliable_liquidator_whitelist, Whitelist, WhitelistError,
};

fn strings(items: &[&str]) -> Vec<String> {
    items.iter().map(|s| s.to_string()).collect()
}

#[test]
fn test_append_reliable_liquidator_whitelist() {
    let mut wl = Whitelist::new();

    let liquidators = vec!["alice.near".to_string(), "bob.near".to_string()];
    assert!(append_reliable_liquidator_whitelist(&mut wl, liquidators.clone()).is_ok());

    let whitelist = get_reliable_liquidator_whitelist(&wl);
    assert_eq!(whitelist.len(), 2);
    assert!(whitelist.contains(&"alice.near".to_string()));
    assert!(whitelist.contains(&"bob.near".to_string()));
}

#[test]
fn test_append_reliable_liquidator_whitelist_with_wildcard() {
    let mut wl = Whitelist::new();

    let liquidators = vec!["*.liquidator.near".to_string(), "specific.near".to_string()];
    assert!(append_reliable_liquidator_whitelist(&mut wl, liquidators).is_ok());

    let whitelist = get_reliable_liquidator_whitelist(&wl);
    assert_eq!(whitelist.len(), 2);
    assert!(whitelist.contains(&"*.liquidator.near".to_string()));
    assert!(whitelist.contains(&"specific.near".to_string()));
}

#[test]
fn test_append_duplicate_liquidator_fails() {
    let mut wl = Whitelist::new();

    assert!(append_reliable_liquidator_whitelist(&mut wl, vec!["alice.near".to_string()]).is_ok());

    let r = append_reliable_liquidator_whitelist(&mut wl, vec!["alice.near".to_string()]);
    assert_eq!(r, Err(WhitelistError::Exists("alice.near".to_string())));
    assert_eq!(get_reliable_liquidator_whitelist(&wl).len(), 1);
}

#[test]
fn test_remove_reliable_liquidator_whitelist() {
    let mut wl = Whitelist::new();

    let liquidators = vec!["alice.near".to_string(), "bob.near".to_string(), "charlie.near".to_string()];
    assert!(append_reliable_liquidator_whitelist(&mut wl, liquidators).is_ok());

    assert!(remove_reliable_liquidator_whitelist(&mut wl, vec!["bob.near".to_string()]).is_ok());

    let whitelist = get_reliable_liquidator_whitelist(&wl);
    assert_eq!(whitelist.len(), 2);
    assert!(whitelist.contains(&"alice.near".to_string()));
    assert!(whitelist.contains(&"charlie.near".to_string()));
    assert!(!whitelist.contains(&"bob.near".to_string()));
}

#[test]
fn test_remove_nonexistent_liquidator_fails() {
    let mut wl = Whitelist::new();

    assert!(append_reliable_liquidator_whitelist(&mut wl, vec!["alice.near".to_string()]).is_ok());

    let r = remove_reliable_liquidator_whitelist(&mut wl, vec!["nonexistent.near".to_string()]);
    assert_eq!(r, Err(WhitelistError::NotExist("nonexistent.near".to_string())));
    assert_eq!(get_reliable_liquidator_whitelist(&wl), vec!["alice.near".to_string()]);
}

#[test]
fn test_get_empty_whitelist() {
    let wl = Whitelist::new();

    let whitelist = get_reliable_liquidator_whitelist(&wl);
    assert_eq!(whitelist.len(), 0);
}

#[test]
fn test_in_reliable_liquidator_whitelist_exact_match() {
    let mut wl = Whitelist::new();

    assert!(append_reliable_liquidator_whitelist(&mut wl, strings(&["alice.near", "bob.liquidator.near"])).is_ok());

    assert!(in_reliable_liquidator_whitelist(&wl, "alice.near"));
    assert!(in_reliable_liquidator_whitelist(&wl, "bob.liquidator.near"));
    assert!(!in_reliable_liquidator_whitelist(&wl, "charlie.near"));
    assert!(!in_reliable_liquidator_whitelist(&wl, "alice.test.near"));
}

#[test]
fn test_in_reliable_liquidator_whitelist_wildcard_match() {
    let mut wl = Whitelist::new();

    assert!(append_reliable_liquidator_whitelist(
        &mut wl,
        strings(&["*.liquidator.near", "*.exchange.near", "specific.near"])
    )
    .is_ok());

    assert!(in_reliable_liquidator_whitelist(&wl, "alice.liquidator.near"));
    assert!(in_reliable_liquidator_whitelist(&wl, "bob.liquidator.near"));
    assert!(in_reliable_liquidator_whitelist(&wl, "any.exchange.near"));
    assert!(in_reliable_liquidator_whitelist(&wl, "specific.near"));

    assert!(!in_reliable_liquidator_whitelist(&wl, "alice.near"));
    assert!(!in_reliable_liquidator_whitelist(&wl, "liquidator.near"));
    assert!(!in_reliable_liquidator_whitelist(&wl, "alice.liquidator.testnet"));
    assert!(!in_reliable_liquidator_whitelist(&wl, "alice.test.near"));
}

#[test]
fn test_in_reliable_liquidator_whitelist_complex_patterns() {
    let mut wl = Whitelist::new();

    assert!(append_reliable_liquidator_whitelist(
        &mut wl,
        strings(&["exact.near", "*.protocol.near", "*.subdomain.protocol.near"])
    )
    .is_ok());

    assert!(in_reliable_liquidator_whitelist(&wl, "exact.near"));
    assert!(in_reliable_liquidator_whitelist(&wl, "alice.protocol.near"));
    assert!(in_reliable_liquidator_whitelist(&wl, "bob.subdomain.protocol.near"));
    assert!(in_reliable_liquidator_whitelist(&wl, "test.subdomain.protocol.near"));

    assert!(!in_reliable_liquidator_whitelist(&wl, "protocol.near"));
    assert!(!in_reliable_liquidator_whitelist(&wl, "someother.near"));
    assert!(!in_reliable_liquidator_whitelist(&wl, "alice.protocol.testnet"));
}

#[test]
fn test_reliable_liquidator_context_behavior() {
    let mut wl = Whitelist::new();

    assert!(append_reliable_liquidator_whitelist(&mut wl, vec!["reliable.liquidator.near".to_string()]).is_ok());

    // The context of a call is whether its caller is admitted; nobody is
    // admitted by an empty whitelist.
    assert!(!in_reliable_liquidator_whitelist(&Whitelist::new(), "reliable.liquidator.near"));

    assert!(in_reliable_liquidator_whitelist(&wl, "reliable.liquidator.near"));
    assert!(!in_reliable_liquidator_whitelist(&wl, "regular.user.near"));
}

#[test]
fn test_multiple_operations() {
    let mut wl = Whitelist::new();

    assert!(append_reliable_liquidator_whitelist(&mut wl, strings(&["alice.near", "*.liquidator.near"])).is_ok());

    assert!(in_reliable_liquidator_whitelist(&wl, "alice.near"));
    assert!(in_reliable_liquidator_whitelist(&wl, "bob.liquidator.near"));

    assert!(append_reliable_liquidator_whitelist(&mut wl, strings(&["charlie.near", "*.exchange.near"])).is_ok());

    let whitelist = get_reliable_liquidator_whitelist(&wl);
    assert_eq!(whitelist.len(), 4);
    assert!(in_reliable_liquidator_whitelist(&wl, "alice.near"));
    assert!(in_reliable_liquidator_whitelist(&wl, "charlie.near"));
    assert!(in_reliable_liquidator_whitelist(&wl, "test.liquidator.near"));
    assert!(in_reliable_liquidator_whitelist(&wl, "test.exchange.near"));

    assert!(remove_reliable_liquidator_whitelist(&mut wl, strings(&["alice.near", "*.exchange.near"])).is_ok());

    let final_whitelist = get_reliable_liquidator_whitelist(&wl);
    assert_eq!(final_whitelist.len(), 2);
    assert!(!in_reliable_liquidator_whitelist(&wl, "alice.near"));
    assert!(in_reliable_liquidator_whitelist(&wl, "charlie.near"));
    assert!(in_reliable_liquidator_whitelist(&wl, "test.liquidator.near"));
    assert!(!in_reliable_liquidator_whitelist(&wl, "test.exchange.near"));
}

#[test]
fn append_with_duplicate_inside_the_list_changes_nothing() {
    let mut wl = Whitelist::new();
    let r = append_reliable_liquidator_whitelist(&mut wl, strings(&["a.near", "b.near", "a.near"]));
    assert_eq!(r, Err(WhitelistError::Exists("a.near".to_string())));
    assert_eq!(get_reliable_liquidator_whitelist(&wl).len(), 0);
}

#[test]
fn remove_undoes_append() {
    let mut wl = Whitelist::new();
    assert!(append_reliable_liquidator_whitelist(&mut wl, strings(&["x.near"])).is_ok());
    let before = get_reliable_liquidator_whitelist(&wl);
    assert!(append_reliable_liquidator_whitelist(&mut wl, strings(&["*.y.near", "z.near"])).is_ok());
    assert!(remove_reliable_liquidator_whitelist(&mut wl, strings(&["*.y.near", "z.near"])).is_ok());
    assert_eq!(get_reliable_liquidator_whitelist(&wl), before);
}

#[test]
fn client_echo_sender_whitelist_admits_patterns() {
    let mut wl = Whitelist::new();
    assert!(append_client_echo_sender_whitelist(&mut wl, strings(&["*.ref.near", "bot.near"])).is_ok());
    assert!(in_client_echo_sender_whitelist(&wl, "dex.ref.near"));
    assert!(in_client_echo_sender_whitelist(&wl, "bot.near"));
    assert!(!in_client_echo_sender_whitelist(&wl, "ref.near"));
    assert!(remove_client_echo_sender_whitelist(&mut wl, strings(&["bot.near"])).is_ok());
    assert_eq!(get_client_echo_sender_whitelist(&wl), vec!["*.ref.near".to_string()]);
    assert_eq!(
        remove_client_echo_sender_whitelist(&mut wl, strings(&["bot.near"])),
        Err(WhitelistError::NotExist("bot.near".to_string()))
    );
}
