use mikan_xhci::acpi::{has_xsdt, is_mcfg, mcfg_entries, xsdt_entries};

#[test]
fn root_pointer_revisions() {
    assert!(!has_xsdt(0));
    assert!(!has_xsdt(1));
    assert!(has_xsdt(2));
    assert!(has_xsdt(255));
}

#[test]
fn root_table_entries() {
    assert_eq!(xsdt_entries(36), 0);
    assert_eq!(xsdt_entries(43), 0);
    assert_eq!(xsdt_entries(44), 1);
    assert_eq!(xsdt_entries(36 + 8 * 12 + 7), 12);
    assert_eq!(xsdt_entries(10), 0);
}

#[test]
fn window_table_entries() {
    assert_eq!(mcfg_entries(44), 0);
    assert_eq!(mcfg_entries(60), 1);
    assert_eq!(mcfg_entries(44 + 16 * 3 + 15), 3);
    assert_eq!(mcfg_entries(43), 0);
}

#[test]
fn window_table_signature() {
    assert!(is_mcfg(*b"MCFG"));
    assert!(!is_mcfg(*b"MCFg"));
    assert!(!is_mcfg(*b"APIC"));
}
