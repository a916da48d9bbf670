use ss2env::paths::is_allowed_target;
use ss2env::paths::store_path_beside;
use ss2env::resolve::accept_key_probe;
use ss2env::resolve::accept_store_probe;
use ss2env::resolve::prepare;
use ss2env::resolve::scan_args;
use ss2env::resolve::DefaultsOverride;
use ss2env::resolve::ResolveError;
use ss2env::resolve::StorePlan;

fn strings(xs: &[&str]) -> Vec<String> {
    xs.iter().map(|x| x.to_string()).collect()
}

fn no_defaults() -> DefaultsOverride {
    DefaultsOverride { store: None, key: None }
}

#[test]
fn scan_recognizes_both_flags() {
    let r = scan_args(&strings(&["--store", "st.json", "--key", "k.key", "jetp", "x"]));
    assert_eq!(r.store, Some("st.json".to_string()));
    assert_eq!(r.key, Some("k.key".to_string()));
    assert_eq!(r.target, strings(&["jetp", "x"]));
}

#[test]
fn scan_recognizes_short_flags() {
    let r = scan_args(&strings(&["-s", "st.json", "-k", "k.key", "jetp"]));
    assert_eq!(r.store, Some("st.json".to_string()));
    assert_eq!(r.key, Some("k.key".to_string()));
    assert_eq!(r.target, strings(&["jetp"]));
}

#[test]
fn scan_recognizes_flag_in_second_slot() {
    let r = scan_args(&strings(&["run", "--store", "st.json", "a"]));
    assert_eq!(r.store, Some("st.json".to_string()));
    assert_eq!(r.key, None);
    assert_eq!(r.target, strings(&["run", "a"]));
}

#[test]
fn scan_ignores_flags_past_first_two_slots() {
    let r = scan_args(&strings(&["a", "b", "--store", "st.json"]));
    assert_eq!(r.store, None);
    assert_eq!(r.target, strings(&["a", "b", "--store", "st.json"]));
}

#[test]
fn scan_drops_flag_without_value() {
    let r = scan_args(&strings(&["--key"]));
    assert_eq!(r.key, None);
    assert_eq!(r.store, None);
    assert!(r.target.is_empty());
}

#[test]
fn scan_later_flag_wins() {
    let r = scan_args(&strings(&["--store", "a.json", "--store", "b.json", "jetp"]));
    assert_eq!(r.store, Some("b.json".to_string()));
    assert_eq!(r.target, strings(&["jetp"]));
}

#[test]
fn inferred_store_sits_beside_inventory() {
    let args = strings(&["run-jetp", "-i", "/etc/ansible/hosts"]);
    let c = prepare(&args, &no_defaults()).unwrap();
    assert_eq!(c.store_path, Some("/etc/ansible/secrets.json".to_string()));
}

#[test]
fn store_beside_handles_bare_and_rooted_paths() {
    assert_eq!(store_path_beside("hosts"), "secrets.json".to_string());
    assert_eq!(store_path_beside("/hosts"), "/secrets.json".to_string());
    assert_eq!(store_path_beside("a/b/hosts"), "a/b/secrets.json".to_string());
}

#[test]
fn inference_needs_token_after_inventory_flag() {
    let c = prepare(&strings(&["jetp", "-i"]), &no_defaults()).unwrap();
    assert_eq!(c.store_path, None);
}

#[test]
fn explicit_store_blocks_inference() {
    let args = strings(&["--store", "X.json", "jetp", "-i", "/etc/a/hosts"]);
    let c = prepare(&args, &no_defaults()).unwrap();
    assert_eq!(c.store_path, Some("X.json".to_string()));
}

#[test]
fn explicit_store_in_second_slot_blocks_inference() {
    let args = strings(&["jetp", "--store", "X.json", "-i", "/d/hosts"]);
    let c = prepare(&args, &no_defaults()).unwrap();
    assert_eq!(c.store_path, Some("X.json".to_string()));
    assert_eq!(c.target_command, strings(&["jetp", "-i", "/d/hosts"]));
}

#[test]
fn defaults_file_outranks_inference() {
    let defaults = DefaultsOverride { store: Some("D.json".to_string()), key: None };
    let c = prepare(&strings(&["jetp", "-i", "/etc/a/hosts"]), &defaults).unwrap();
    assert_eq!(c.store_path, Some("D.json".to_string()));
}

#[test]
fn flag_outranks_defaults_file() {
    let defaults = DefaultsOverride {
        store: Some("D.json".to_string()),
        key: Some("D.key".to_string()),
    };
    let c = prepare(&strings(&["--store", "F.json", "jetp"]), &defaults).unwrap();
    assert_eq!(c.store_path, Some("F.json".to_string()));
    assert_eq!(c.key_path, "D.key".to_string());
}

#[test]
fn key_path_has_fixed_default() {
    let c = prepare(&strings(&["jetp"]), &no_defaults()).unwrap();
    assert_eq!(c.key_path, "~/.securestore/secrets.key".to_string());
}

#[test]
fn empty_target_command_is_rejected() {
    let r = prepare(&strings(&[]), &no_defaults());
    assert!(matches!(r, Err(ResolveError::InsufficientArguments)));
    let r2 = prepare(&strings(&["--store", "st.json"]), &no_defaults());
    assert!(matches!(r2, Err(ResolveError::InsufficientArguments)));
}

#[test]
fn unreadable_key_fails_before_store_is_considered() {
    // No store path was resolved at all, yet the key failure is reported
    // first, naming the key path.
    let c = prepare(&strings(&["jetp"]), &no_defaults()).unwrap();
    assert_eq!(c.store_path, None);
    let r = accept_key_probe(c, false);
    match r {
        Err(ResolveError::KeyFileUnreadable { key_path }) => {
            assert_eq!(key_path, "~/.securestore/secrets.key".to_string());
        }
        _ => panic!("expected the key failure to win"),
    }
}

#[test]
fn key_failure_message_names_the_path() {
    let defaults = DefaultsOverride { store: None, key: Some("/k/secrets.key".to_string()) };
    let c = prepare(&strings(&["jetp"]), &defaults).unwrap();
    let e = accept_key_probe(c, false).unwrap_err();
    assert_eq!(e.message(), "could not read secret key at [/k/secrets.key]".to_string());
}

#[test]
fn missing_store_is_reported_after_readable_key() {
    let c = prepare(&strings(&["jetp"]), &no_defaults()).unwrap();
    let r = accept_key_probe(c, true);
    assert!(matches!(r, Err(ResolveError::NoStoreSpecified)));
}

#[test]
fn unreadable_store_names_the_path() {
    let plan = StorePlan {
        key_path: "/k".to_string(),
        store_path: "/s/secrets.json".to_string(),
        target_command: strings(&["jetp"]),
    };
    let e = accept_store_probe(plan, false).unwrap_err();
    match &e {
        ResolveError::StoreFileUnreadable { store_path } => {
            assert_eq!(store_path, &"/s/secrets.json".to_string());
        }
        _ => panic!("expected a store failure"),
    }
    assert_eq!(e.message(), "could not read secret store at [/s/secrets.json]".to_string());
}

#[test]
fn target_stem_allow_list() {
    assert!(is_allowed_target("jetp"));
    assert!(is_allowed_target("jetp.exe"));
    assert!(is_allowed_target("/opt/tools/jetp"));
    assert!(is_allowed_target("/usr/local/bin/jetp.bin"));
    assert!(!is_allowed_target("/usr/bin/jetpx"));
    assert!(!is_allowed_target("jet"));
    assert!(!is_allowed_target("notjetp"));
    assert!(!is_allowed_target(""));
}

#[test]
fn target_stem_edge_cases() {
    // Only the last extension is stripped.
    assert!(!is_allowed_target("jetp.tar.gz"));
    // A leading dot is part of the name, not an extension marker.
    assert!(!is_allowed_target(".jetp"));
    // Trailing separators are ignored.
    assert!(is_allowed_target("/usr/bin/jetp/"));
    assert!(is_allowed_target("jetp.d/../jetp"));
}

#[test]
fn disallowed_target_is_rejected_last() {
    let plan = StorePlan {
        key_path: "/k".to_string(),
        store_path: "/s".to_string(),
        target_command: strings(&["notjetp", "--check"]),
    };
    let r = accept_store_probe(plan, true);
    assert!(matches!(r, Err(ResolveError::TargetNotJetp)));
}

#[test]
fn full_resolution_for_jetp() {
    let args = strings(&["--store", "/tmp/secrets.json", "--key", "/tmp/k.key", "jetp", "--check"]);
    let c = prepare(&args, &no_defaults()).unwrap();
    let plan = accept_key_probe(c, true).unwrap();
    let config = accept_store_probe(plan, true).unwrap();
    assert_eq!(config.secret_store_path, "/tmp/secrets.json".to_string());
    assert_eq!(config.secret_key_path, "/tmp/k.key".to_string());
    assert_eq!(config.target_command, strings(&["jetp", "--check"]));
}
