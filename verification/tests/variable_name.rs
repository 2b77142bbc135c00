use efivar::error::Error;
use efivar::variable_name::{Variable, VariableVendor};
use efivar::EFI_GUID;

#[test]
fn parse_name_invalid() {
    assert!(Variable::from_str("BootOrder_Invalid").is_err());
}

#[test]
fn to_fullname_partial() {
    assert_eq!(
        Variable::new("BootOrder").full_name(),
        "BootOrder-8be4df61-93ca-11d2-aa0d-00e098032b8c"
    );
}

#[test]
fn parse_valid_name() {
    let name = Variable::from_str("BootOrder-8be4df61-93ca-11d2-aa0d-00e098032b8c").unwrap();
    assert_eq!(name.variable(), "BootOrder");
    assert!(name.vendor().is_efi());
}

#[test]
fn round_trip_efi_vendor() {
    let v = Variable::new("BootOrder");
    let parsed = Variable::from_str(&v.full_name()).unwrap();
    assert_eq!(parsed, v);
}

#[test]
fn round_trip_custom_vendor() {
    let g: u128 = 0x0123456789abcdef0123456789abcdef;
    let v = Variable::new_with_vendor("MyVar", VariableVendor::Custom(g));
    assert_eq!(v.full_name(), "MyVar-01234567-89ab-cdef-0123-456789abcdef");
    let parsed = Variable::from_str(&v.full_name()).unwrap();
    assert_eq!(parsed, v);
    assert_eq!(parsed.vendor().guid(), g);
}

#[test]
fn parse_malformed_identifier() {
    let err = Variable::from_str("BootOrder-zzz").unwrap_err();
    assert!(matches!(err, Error::UuidError));
}

#[test]
fn parse_missing_separator_reports_name() {
    let err = Variable::from_str("BootOrder").unwrap_err();
    match err {
        Error::InvalidVarName { name } => assert_eq!(name, "BootOrder"),
        _ => panic!("expected an invalid-name error"),
    }
}

#[test]
fn vendor_from_identifier_normalizes() {
    assert!(VariableVendor::from(EFI_GUID).is_efi());
    let custom = VariableVendor::from(42u128);
    assert!(!custom.is_efi());
    assert_eq!(custom.guid(), 42);
    assert_eq!(VariableVendor::Efi.guid(), EFI_GUID);
}

#[test]
fn vendor_equivalence() {
    assert!(VariableVendor::Custom(EFI_GUID) == VariableVendor::Efi);
    assert!(VariableVendor::Efi == VariableVendor::Custom(EFI_GUID));
    assert!(VariableVendor::Custom(1) != VariableVendor::Efi);
}

#[test]
fn short_name_omits_suffix_for_both_efi_forms() {
    let direct = Variable::new("Foo");
    let normalized = Variable::new_with_vendor("Foo", VariableVendor::Custom(EFI_GUID));
    assert_eq!(direct.short_name(), "Foo");
    assert_eq!(normalized.short_name(), "Foo");
    assert!(normalized.vendor().is_efi());
}

#[test]
fn short_name_keeps_suffix_for_custom_vendor() {
    let v = Variable::new_with_vendor("Foo", VariableVendor::Custom(1));
    assert_eq!(v.short_name(), "Foo-00000000-0000-0000-0000-000000000001");
}

#[test]
fn boot_var_id_accepts_exact_pattern() {
    assert_eq!(Variable::new("Boot0001").boot_var_id(), Some(0x0001));
    assert_eq!(Variable::new("BootABCD").boot_var_id(), Some(0xabcd));
    assert_eq!(Variable::new("Bootabcd").boot_var_id(), Some(0xabcd));
    assert_eq!(Variable::new("BootFFFF").boot_var_id(), Some(0xffff));
}

#[test]
fn boot_var_id_rejects_other_names() {
    assert_eq!(Variable::new("Boot001").boot_var_id(), None);
    assert_eq!(Variable::new("xBoot0001").boot_var_id(), None);
    assert_eq!(Variable::new("Boot00x1").boot_var_id(), None);
    assert_eq!(Variable::new("Boot00011").boot_var_id(), None);
    assert_eq!(Variable::new("BootOrder").boot_var_id(), None);
}
