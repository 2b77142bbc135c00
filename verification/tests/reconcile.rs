use efivar::reconcile::{reconcile_boot_entries, BootEntryOutcome, OrphanSummary};
use efivar::variable_name::{Variable, VariableVendor};

fn id(n: &str) -> Variable {
    Variable::new(n)
}

fn orphan_names(summary: &OrphanSummary) -> Vec<String> {
    match summary {
        OrphanSummary::AllAccounted => panic!("expected orphans"),
        OrphanSummary::Orphaned(vars) => vars.iter().map(|v| v.variable().to_string()).collect(),
    }
}

#[test]
fn reconciliation_classifies_orphans() {
    let entries: Vec<(Result<String, String>, Variable)> = vec![
        (Ok(String::from("first")), id("Boot0001")),
        (Ok(String::from("third")), id("Boot0003")),
    ];
    let live = vec![
        id("Boot0001"),
        id("Boot0002"),
        id("Boot0003"),
        id("Boot0004"),
        id("Foo"),
    ];
    let r = reconcile_boot_entries(entries, &live);

    assert_eq!(r.ordered.len(), 2);
    match &r.ordered[0] {
        BootEntryOutcome::Decoded(e) => assert_eq!(e.as_str(), "first"),
        _ => panic!("expected a decoded entry"),
    }
    match &r.ordered[1] {
        BootEntryOutcome::Decoded(e) => assert_eq!(e.as_str(), "third"),
        _ => panic!("expected a decoded entry"),
    }

    let mut names = orphan_names(&r.orphans);
    names.sort();
    assert_eq!(names, vec![String::from("Boot0002"), String::from("Boot0004")]);
}

#[test]
fn reconciliation_empty_orphans_is_distinct() {
    let entries: Vec<(Result<String, String>, Variable)> =
        vec![(Ok(String::from("only")), id("Boot0001"))];
    let live = vec![id("Boot0001")];
    let r = reconcile_boot_entries(entries, &live);
    assert_eq!(r.ordered.len(), 1);
    assert!(matches!(r.orphans, OrphanSummary::AllAccounted));
}

#[test]
fn decode_failure_does_not_halt_the_walk() {
    let entries: Vec<(Result<String, String>, Variable)> = vec![
        (Ok(String::from("fine")), id("Boot0001")),
        (Err(String::from("bad payload")), id("Boot0003")),
    ];
    let live = vec![id("Boot0001"), id("Boot0003")];
    let r = reconcile_boot_entries(entries, &live);

    assert_eq!(r.ordered.len(), 2);
    assert!(matches!(&r.ordered[0], BootEntryOutcome::Decoded(e) if e.as_str() == "fine"));
    match &r.ordered[1] {
        BootEntryOutcome::Failed(f, origin) => {
            assert_eq!(f.as_str(), "bad payload");
            assert_eq!(origin.variable(), "Boot0003");
        },
        _ => panic!("expected a tagged failure"),
    }
    // The failed member still suppressed its live variable.
    assert!(matches!(r.orphans, OrphanSummary::AllAccounted));
}

#[test]
fn match_ignores_vendor_and_custom_vendor_names_are_no_candidates() {
    // Boot0001 is referenced; a boot-shaped name under a custom vendor is
    // suppressed by the name match, and a custom-vendor Boot0005 is never a
    // candidate in the first place.
    let entries: Vec<(Result<String, String>, Variable)> =
        vec![(Ok(String::from("one")), id("Boot0001"))];
    let live = vec![
        id("Boot0001"),
        Variable::new_with_vendor("Boot0001", VariableVendor::Custom(7)),
        Variable::new_with_vendor("Boot0005", VariableVendor::Custom(7)),
        id("Boot0002"),
    ];
    let r = reconcile_boot_entries(entries, &live);
    let names = orphan_names(&r.orphans);
    assert_eq!(names, vec![String::from("Boot0002")]);
}
