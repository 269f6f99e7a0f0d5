use keymap_registry::keymap::{
    ensure_signed, filename_key, DispatchError, Error, Event, Keymap, Origin,
};
use keymap_registry::pallet::{check_register, Config, Pallet};

fn name(b: u8) -> [u8; 16] {
    let mut f = [0u8; 16];
    f[0] = b;
    f[15] = b;
    f
}

fn digest(b: u8) -> [u8; 16] {
    [b; 16]
}

fn registry(max: u32) -> Pallet {
    Pallet::new(Config { max_acc_mappings_owned: max })
}

const X: u64 = 1;
const Y: u64 = 2;

#[test]
fn scenario_capacity_two() {
    let mut p = registry(2);
    assert_eq!(p.append_mapping(&X, name(1), digest(1)), Ok(name(1)));
    assert_eq!(p.count_for_mappings(), 1);
    assert_eq!(p.append_mapping(&X, name(2), digest(2)), Ok(name(2)));
    assert_eq!(p.count_for_mappings(), 2);
    assert_eq!(p.append_mapping(&X, name(3), digest(3)), Err(Error::TooManyOwned));
    assert_eq!(p.count_for_mappings(), 2);
    assert_eq!(p.acc_mappings(&name(3)), None);
    assert_eq!(p.acc_mappings_owned(&X), vec![name(1), name(2)]);
}

#[test]
fn scenario_duplicate_other_owner() {
    let mut p = registry(2);
    assert_eq!(p.append_mapping(&X, name(1), digest(1)), Ok(name(1)));
    assert_eq!(p.append_mapping(&Y, name(1), digest(9)), Err(Error::DuplicateKeymap));
    assert_eq!(p.count_for_mappings(), 1);
    let k = p.acc_mappings(&name(1)).unwrap();
    assert_eq!(k.owner, X);
    assert_eq!(k.index_of_sha, digest(1));
    assert_eq!(p.acc_mappings_owned(&Y), Vec::<[u8; 16]>::new());
}

#[test]
fn scenario_counter_at_maximum() {
    assert_eq!(check_register(false, u64::MAX, 0, 2), Err(Error::Overflow));
    assert_eq!(check_register(false, u64::MAX - 1, 0, 2), Ok(u64::MAX));
}

#[test]
fn overflow_reported_before_capacity() {
    assert_eq!(check_register(false, u64::MAX, 2, 2), Err(Error::Overflow));
}

#[test]
fn duplicate_reported_first() {
    assert_eq!(check_register(true, u64::MAX, 5, 2), Err(Error::DuplicateKeymap));
    assert_eq!(check_register(true, 0, 0, 2), Err(Error::DuplicateKeymap));
}

#[test]
fn checks_pass_with_room() {
    assert_eq!(check_register(false, 0, 0, 1), Ok(1));
    assert_eq!(check_register(false, 41, 1, 2), Ok(42));
    assert_eq!(check_register(false, 41, 2, 2), Err(Error::TooManyOwned));
}

#[test]
fn second_registration_same_owner_is_duplicate() {
    let mut p = registry(3);
    assert_eq!(p.append_mapping(&X, name(7), digest(1)), Ok(name(7)));
    assert_eq!(p.append_mapping(&X, name(7), digest(1)), Err(Error::DuplicateKeymap));
    assert_eq!(p.count_for_mappings(), 1);
    assert_eq!(p.acc_mappings_owned(&X), vec![name(7)]);
    assert_eq!(p.deposited_events().len(), 1);
}

#[test]
fn count_equals_successes() {
    let mut p = registry(2);
    let mut ok: u64 = 0;
    let calls = [(X, 1u8), (X, 2), (X, 1), (Y, 2), (Y, 3), (X, 4), (Y, 5), (Y, 6)];
    for (who, b) in calls {
        if p.append_mapping(&who, name(b), digest(b)).is_ok() {
            ok += 1;
        }
    }
    assert_eq!(ok, 4);
    assert_eq!(p.count_for_mappings(), ok);
    assert_eq!(p.acc_mappings_owned(&X), vec![name(1), name(2)]);
    assert_eq!(p.acc_mappings_owned(&Y), vec![name(3), name(5)]);
}

#[test]
fn failed_call_changes_nothing() {
    let mut p = registry(1);
    assert_eq!(p.append_mapping(&X, name(1), digest(1)), Ok(name(1)));
    let events_before = p.deposited_events().clone();
    assert_eq!(p.append_mapping(&X, name(2), digest(2)), Err(Error::TooManyOwned));
    assert_eq!(p.count_for_mappings(), 1);
    assert_eq!(p.acc_mappings(&name(2)), None);
    assert_eq!(p.acc_mappings_owned(&X), vec![name(1)]);
    assert_eq!(p.deposited_events(), &events_before);
}

#[test]
fn failure_repeats_the_same_way() {
    let mut p = registry(1);
    assert_eq!(p.append_mapping(&X, name(1), digest(1)), Ok(name(1)));
    for _ in 0..3 {
        assert_eq!(p.append_mapping(&X, name(2), digest(2)), Err(Error::TooManyOwned));
        assert_eq!(p.append_mapping(&Y, name(1), digest(2)), Err(Error::DuplicateKeymap));
    }
    assert_eq!(p.count_for_mappings(), 1);
    assert_eq!(p.append_mapping(&Y, name(2), digest(2)), Ok(name(2)));
}

#[test]
fn success_stores_record_and_publishes_event() {
    let mut p = registry(2);
    assert_eq!(p.append_mapping(&Y, name(4), digest(8)), Ok(name(4)));
    assert_eq!(
        p.acc_mappings(&name(4)),
        Some(Keymap { filename: name(4), index_of_sha: digest(8), owner: Y })
    );
    assert_eq!(p.deposited_events(), &vec![Event::Created { filename: name(4), owner: Y }]);
}

#[test]
fn all_zero_filename_accepted() {
    let mut p = registry(2);
    assert_eq!(p.append_mapping(&X, [0u8; 16], [0u8; 16]), Ok([0u8; 16]));
    assert_eq!(p.acc_mappings_owned(&X), vec![[0u8; 16]]);
}

#[test]
fn filenames_differing_in_one_byte_are_distinct() {
    let mut p = registry(4);
    let mut a = [0u8; 16];
    a[15] = 1;
    let mut b = [0u8; 16];
    b[0] = 1;
    assert_eq!(p.append_mapping(&X, a, digest(1)), Ok(a));
    assert_eq!(p.append_mapping(&X, b, digest(1)), Ok(b));
    assert_eq!(p.count_for_mappings(), 2);
}

#[test]
fn filename_key_is_little_endian() {
    let mut f = [0u8; 16];
    assert_eq!(filename_key(&f), 0);
    f[0] = 1;
    assert_eq!(filename_key(&f), 1);
    f[1] = 2;
    assert_eq!(filename_key(&f), 0x0201);
    assert_eq!(filename_key(&[0xffu8; 16]), u128::MAX);
    let mut g = [0u8; 16];
    g[15] = 0x80;
    assert_eq!(filename_key(&g), 1u128 << 127);
}

#[test]
fn zero_capacity_refuses_everything() {
    let mut p = registry(0);
    assert_eq!(p.append_mapping(&X, name(1), digest(1)), Err(Error::TooManyOwned));
    assert_eq!(p.count_for_mappings(), 0);
    assert_eq!(p.max_acc_mappings_owned(), 0);
}

#[test]
fn signed_origin_yields_account() {
    assert_eq!(ensure_signed(Origin::Signed(X)), Ok(X));
    assert_eq!(ensure_signed(Origin::Root), Err(DispatchError::BadOrigin));
    assert_eq!(ensure_signed(Origin::Unsigned), Err(DispatchError::BadOrigin));
}

#[test]
fn create_keymap_dispatch() {
    let mut p = registry(1);
    assert_eq!(p.create_Keymap(Origin::Root, name(1), digest(1)), Err(DispatchError::BadOrigin));
    assert_eq!(p.create_Keymap(Origin::Unsigned, name(1), digest(1)), Err(DispatchError::BadOrigin));
    assert_eq!(p.count_for_mappings(), 0);
    assert_eq!(p.create_Keymap(Origin::Signed(X), name(1), digest(1)), Ok(()));
    assert_eq!(
        p.create_Keymap(Origin::Signed(Y), name(1), digest(1)),
        Err(DispatchError::Module(Error::DuplicateKeymap))
    );
    assert_eq!(
        p.create_Keymap(Origin::Signed(X), name(2), digest(1)),
        Err(DispatchError::Module(Error::TooManyOwned))
    );
    assert_eq!(p.count_for_mappings(), 1);
    assert_eq!(p.deposited_events(), &vec![Event::Created { filename: name(1), owner: X }]);
}
