use ss2env::launch::decide_after_vault;
use ss2env::launch::exit_code_for;
use ss2env::launch::LaunchDecision;
use ss2env::launch::RunFailure;
use ss2env::launch::VaultOutcome;

#[test]
fn exit_codes_by_failure_stage() {
    assert_eq!(exit_code_for(&RunFailure::Resolution), 1);
    assert_eq!(exit_code_for(&RunFailure::VaultLoad), 2);
    assert_eq!(exit_code_for(&RunFailure::Spawn), 3);
    assert_eq!(exit_code_for(&RunFailure::Wait), 4);
}

#[test]
fn vault_failure_aborts_with_code_two() {
    match decide_after_vault(VaultOutcome::LoadFailed) {
        LaunchDecision::Abort { exit_code } => assert_eq!(exit_code, 2),
        LaunchDecision::Run { .. } => panic!("the target must never start on a vault failure"),
    }
}

#[test]
fn zero_secrets_still_launch() {
    match decide_after_vault(VaultOutcome::Loaded(Vec::new())) {
        LaunchDecision::Run { overlay, secret_count } => {
            assert_eq!(secret_count, 0);
            assert!(overlay.entries().is_empty());
        }
        LaunchDecision::Abort { .. } => panic!("an empty vault must not abort the run"),
    }
}

#[test]
fn loaded_secrets_become_the_overlay() {
    let pairs = vec![
        ("db:postgres".to_string(), "p4ss".to_string()),
        ("api:key".to_string(), "abc".to_string()),
    ];
    match decide_after_vault(VaultOutcome::Loaded(pairs)) {
        LaunchDecision::Run { overlay, secret_count } => {
            assert_eq!(secret_count, 2);
            assert_eq!(overlay.get("db_postgres"), Some(&"p4ss".to_string()));
            assert_eq!(overlay.get("api_key"), Some(&"abc".to_string()));
        }
        LaunchDecision::Abort { .. } => panic!("a loaded vault must not abort the run"),
    }
}
