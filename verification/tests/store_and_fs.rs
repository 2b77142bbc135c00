use efivar::efivarfs::{SystemManager, EFIVARFS_ROOT};
use efivar::error::Error;
use efivar::flags::VariableFlags;
use efivar::store::GuidGroup;
use efivar::variable_name::Variable;

#[test]
fn empty_group_has_no_variables() {
    let g = GuidGroup::new();
    assert!(g.variable("Boot0001").is_none());
}

#[test]
fn variable_mut_inserts_an_empty_value() {
    let mut g = GuidGroup::new();
    {
        let v = g.variable_mut("Boot0001");
        assert_eq!(v.flags.bits, 0);
        assert!(v.data.is_empty());
        v.flags = VariableFlags::from_bits(0x7);
        v.data.push(0xaa);
    }
    let stored = g.variable("Boot0001").unwrap();
    assert_eq!(stored.flags.bits, 0x7);
    assert_eq!(stored.data, vec![0xaa]);
    assert!(g.variable("Boot0002").is_none());
}

#[test]
fn variable_mut_edits_in_place() {
    let mut g = GuidGroup::new();
    g.variable_mut("A").data.push(1);
    g.variable_mut("B").data.push(2);
    g.variable_mut("A").data.push(3);
    assert_eq!(g.variable("A").unwrap().data, vec![1, 3]);
    assert_eq!(g.variable("B").unwrap().data, vec![2]);
}

#[test]
fn manager_builds_paths_from_the_canonical_form() {
    let mgr = SystemManager::with_root(String::from("/tmp/efivars"));
    let v = Variable::new("Boot0001");
    assert_eq!(
        mgr.attributes_path(&v),
        "/tmp/efivars/Boot0001-8be4df61-93ca-11d2-aa0d-00e098032b8c/attributes"
    );
    assert_eq!(
        mgr.data_path(&v),
        "/tmp/efivars/Boot0001-8be4df61-93ca-11d2-aa0d-00e098032b8c/data"
    );
}

#[test]
fn manager_defaults_to_the_efivarfs_root() {
    let mgr = SystemManager::new();
    assert_eq!(mgr.root(), EFIVARFS_ROOT);
    assert_eq!(mgr.root(), "/sys/firmware/efi/vars");
}

#[test]
fn delete_is_an_explicit_unsupported_operation() {
    let mut mgr = SystemManager::new();
    let v = Variable::new("Boot0001");
    let err = mgr.delete(&v).unwrap_err();
    assert!(matches!(err, Error::UnsupportedOperation));
}

#[test]
fn io_and_text_errors_carry_their_context() {
    let e = Error::Io {
        variable: Some(Variable::new("Boot0001")),
        message: String::from("permission denied"),
    };
    match e {
        Error::Io { variable, message } => {
            assert_eq!(variable.unwrap().variable(), "Boot0001");
            assert_eq!(message, "permission denied");
        },
        _ => panic!("expected an io error"),
    }
    assert!(matches!(Error::InvalidUTF8, Error::InvalidUTF8));
}
