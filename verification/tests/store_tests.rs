use uref_share::principal::Principal;
use uref_share::store::{read_step, write_step, Named, ReadStep, Store, WriteStep};

fn principal(n: u8) -> Principal {
    Principal::new([n; 32])
}

#[test]
fn missing_key_is_reported_as_missing() {
    let store: Store<u32> = Store::new();
    assert_eq!(store.get_key(&principal(1)), None);
}

#[test]
fn set_then_get_gives_the_value() {
    let mut store: Store<u32> = Store::new();
    store.set_key(principal(1), 10);
    store.set_key(principal(2), 20);
    assert_eq!(store.get_key(&principal(1)), Some(&10));
    assert_eq!(store.get_key(&principal(2)), Some(&20));
    assert_eq!(store.get_key(&principal(3)), None);
}

#[test]
fn set_overwrites_and_leaves_others() {
    let mut store: Store<u32> = Store::new();
    store.set_key(principal(1), 10);
    store.set_key(principal(2), 20);
    store.set_key(principal(1), 11);
    store.set_key(principal(1), 11);
    assert_eq!(store.get_key(&principal(1)), Some(&11));
    assert_eq!(store.get_key(&principal(2)), Some(&20));
}

#[test]
fn reading_by_name() {
    assert_eq!(read_step(Named::Missing), ReadStep::UseDefault);
    assert_eq!(read_step(Named::Cell), ReadStep::ReadCell);
    assert_eq!(read_step(Named::Other), ReadStep::Refuse);
}

#[test]
fn storing_by_name() {
    assert_eq!(write_step(Named::Missing), WriteStep::CreateCell);
    assert_eq!(write_step(Named::Cell), WriteStep::WriteCell);
    assert_eq!(write_step(Named::Other), WriteStep::Refuse);
}
