use aleo_std::storage::{development_ledger_name, production_ledger_name, ALEO_DIRECTORY};

#[test]
fn production_ledger_names() {
    assert_eq!(production_ledger_name(2), "ledger-2");
    assert_eq!(production_ledger_name(0), "ledger-0");
    assert_eq!(production_ledger_name(65535), "ledger-65535");
}

#[test]
fn development_ledger_names() {
    assert_eq!(development_ledger_name(1, 0), ".ledger-1-0");
    assert_eq!(development_ledger_name(10, 42), ".ledger-10-42");
}

#[test]
fn aleo_directory_name() {
    assert_eq!(ALEO_DIRECTORY, ".aleo");
}
