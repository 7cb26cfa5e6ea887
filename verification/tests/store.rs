use micro_platform::store::{add_entry, remove_entry, uninstall_verdict, AppMeta, StoreError};

fn meta(id: &str, name: &str, version: u16) -> AppMeta {
    AppMeta {
        id: id.to_owned(),
        name: name.to_owned(),
        version,
    }
}

#[test]
fn install_overwrites_an_entry_with_the_same_id() {
    let manifest = vec![meta("counter", "Counter", 1), meta("clock", "Clock", 3)];
    let updated = add_entry(manifest, meta("counter", "Counter", 2));
    assert_eq!(
        updated,
        vec![meta("clock", "Clock", 3), meta("counter", "Counter", 2)]
    );
}

#[test]
fn install_appends_a_new_id() {
    let updated = add_entry(vec![meta("clock", "Clock", 3)], meta("counter", "Counter", 1));
    assert_eq!(
        updated,
        vec![meta("clock", "Clock", 3), meta("counter", "Counter", 1)]
    );
}

#[test]
fn removing_reports_whether_an_entry_left() {
    let (kept, dropped) = remove_entry(vec![meta("counter", "Counter", 1)], "counter");
    assert!(kept.is_empty());
    assert!(dropped);
    let (kept, dropped) = remove_entry(vec![meta("counter", "Counter", 1)], "ghost");
    assert_eq!(kept, vec![meta("counter", "Counter", 1)]);
    assert!(!dropped);
}

#[test]
fn uninstalling_nothing_is_not_found() {
    assert_eq!(uninstall_verdict(false, false), Err(StoreError::NotFound));
    assert_eq!(uninstall_verdict(true, false), Ok(()));
    assert_eq!(uninstall_verdict(false, true), Ok(()));
}

#[test]
fn store_errors_read_as_sentences() {
    assert_eq!(StoreError::NotFound.to_string(), "not found");
    assert_eq!(StoreError::Io("disk".to_owned()).to_string(), "io error: disk");
    assert_eq!(StoreError::Corrupt("x".to_owned()).to_string(), "corrupt store: x");
    assert_eq!(StoreError::Full.to_string(), "store full");
    assert_eq!(StoreError::Unsupported("y".to_owned()).to_string(), "unsupported: y");
}
