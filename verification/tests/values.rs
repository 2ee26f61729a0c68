use naumachia::address::PolicyId;
use naumachia::error::Error;
use naumachia::values::Values;

fn token(id: &str, name: Option<&str>) -> PolicyId {
    PolicyId::native_token(id, &name.map(|n| n.to_string()))
}

fn values(entries: &[(PolicyId, u64)]) -> Values {
    let mut values = Values::default();
    for (policy, quantity) in entries {
        values.add_one_value(policy, *quantity);
    }
    values
}

#[test]
fn add_one_value_sums_on_the_same_asset() {
    let mut values = Values::default();
    values.add_one_value(&PolicyId::Lovelace, 25);
    values.add_one_value(&PolicyId::Lovelace, 17);
    assert_eq!(values.get(&PolicyId::Lovelace), Some(42));
    assert_eq!(values.len(), 1);
}

#[test]
fn get_tells_a_missing_asset_from_a_zero_quantity() {
    let values = values(&[(PolicyId::Lovelace, 0)]);
    assert_eq!(values.get(&PolicyId::Lovelace), Some(0));
    assert_eq!(values.get(&token("aa", None)), None);
    assert_eq!(values.amount_of(&token("aa", None)), 0);
}

#[test]
fn assets_differ_by_policy_and_by_name() {
    let values = values(&[
        (token("aa", None), 1),
        (token("aa", Some("x")), 2),
        (token("bb", Some("x")), 3),
    ]);
    assert_eq!(values.get(&token("aa", None)), Some(1));
    assert_eq!(values.get(&token("aa", Some("x"))), Some(2));
    assert_eq!(values.get(&token("bb", Some("x"))), Some(3));
    assert_eq!(values.get(&token("bb", None)), None);
}

#[test]
fn try_subtract_fails_below_zero() {
    let a = values(&[(PolicyId::Lovelace, 5)]);
    let b = values(&[(PolicyId::Lovelace, 6)]);
    assert_eq!(a.try_subtract(&b), Err(Error::Arithmetic));
}

#[test]
fn try_subtract_fails_on_an_asset_that_is_not_held() {
    let a = values(&[(PolicyId::Lovelace, 5)]);
    let b = values(&[(token("aa", None), 1)]);
    assert_eq!(a.try_subtract(&b), Err(Error::Arithmetic));
}

#[test]
fn try_subtract_of_nothing_that_is_not_held_succeeds() {
    let a = values(&[(PolicyId::Lovelace, 5)]);
    let b = values(&[(token("aa", None), 0)]);
    assert_eq!(a.try_subtract(&b), Ok(Some(values(&[(PolicyId::Lovelace, 5)]))));
}

#[test]
fn try_subtract_gives_the_residue_without_zero_entries() {
    let a = values(&[(PolicyId::Lovelace, 100), (token("aa", None), 7), (token("bb", None), 2)]);
    let b = values(&[(PolicyId::Lovelace, 25), (token("aa", None), 7)]);
    let left = a.try_subtract(&b).unwrap().unwrap();
    assert_eq!(left.get(&PolicyId::Lovelace), Some(75));
    assert_eq!(left.get(&token("aa", None)), None);
    assert_eq!(left.get(&token("bb", None)), Some(2));
    assert_eq!(left.len(), 2);
}

#[test]
fn try_subtract_gives_none_where_nothing_is_left() {
    let a = values(&[(PolicyId::Lovelace, 100), (token("aa", None), 0)]);
    let b = values(&[(PolicyId::Lovelace, 100)]);
    assert_eq!(a.try_subtract(&b), Ok(None));
    assert_eq!(Values::default().try_subtract(&Values::default()), Ok(None));
}

#[test]
fn subtracting_and_adding_back_gives_the_same_quantities() {
    let a = values(&[(PolicyId::Lovelace, 100), (token("aa", None), 7), (token("bb", None), 0)]);
    let b = values(&[(token("aa", None), 7), (PolicyId::Lovelace, 25)]);
    let mut back = a.try_subtract(&b).unwrap().unwrap();
    back.add_values(&b);
    assert_eq!(back, a);
    assert_eq!(back.amount_of(&PolicyId::Lovelace), 100);
    assert_eq!(back.amount_of(&token("aa", None)), 7);
    assert_eq!(back.amount_of(&token("bb", None)), 0);
}

#[test]
fn equality_ignores_order_and_zero_entries() {
    let a = values(&[(PolicyId::Lovelace, 1), (token("aa", None), 2)]);
    let b = values(&[(token("aa", None), 2), (token("bb", None), 0), (PolicyId::Lovelace, 1)]);
    assert_eq!(a, b);
    let c = values(&[(PolicyId::Lovelace, 1), (token("aa", None), 3)]);
    assert_ne!(a, c);
    let d = values(&[(PolicyId::Lovelace, 1)]);
    assert_ne!(a, d);
    assert_ne!(d, a);
}

#[test]
fn try_add_refuses_a_sum_beyond_the_largest_quantity() {
    let mut a = values(&[(PolicyId::Lovelace, u64::MAX - 1)]);
    assert_eq!(a.try_add_one_value(&PolicyId::Lovelace, 2), Err(Error::Arithmetic));
    assert_eq!(a.get(&PolicyId::Lovelace), Some(u64::MAX - 1));
    assert_eq!(a.try_add_one_value(&PolicyId::Lovelace, 1), Ok(()));
    assert_eq!(a.get(&PolicyId::Lovelace), Some(u64::MAX));

    let mut b = values(&[(token("aa", None), 1), (PolicyId::Lovelace, 1)]);
    let before = b.clone();
    assert!(!b.fits_with(&a));
    assert_eq!(b.try_add_values(&a), Err(Error::Arithmetic));
    assert_eq!(b, before);
    assert_eq!(b.get(&token("aa", None)), Some(1));
}

#[test]
fn add_values_adds_asset_by_asset() {
    let mut a = values(&[(PolicyId::Lovelace, 3), (token("aa", None), 4)]);
    let b = values(&[(token("bb", None), 5), (PolicyId::Lovelace, 6)]);
    assert!(a.fits_with(&b));
    a.add_values(&b);
    assert_eq!(a.get(&PolicyId::Lovelace), Some(9));
    assert_eq!(a.get(&token("aa", None)), Some(4));
    assert_eq!(a.get(&token("bb", None)), Some(5));
    // entries stay in the order in which the assets came
    assert_eq!(a.entry(0), (&PolicyId::Lovelace, 9));
    assert_eq!(a.entry(2), (&token("bb", None), 5));
}

#[test]
fn covers_compares_asset_by_asset() {
    let a = values(&[(PolicyId::Lovelace, 3), (token("aa", None), 4)]);
    assert!(a.covers(&values(&[(PolicyId::Lovelace, 3)])));
    assert!(a.covers(&values(&[(token("bb", None), 0)])));
    assert!(!a.covers(&values(&[(PolicyId::Lovelace, 4)])));
    assert!(!a.covers(&values(&[(token("bb", None), 1)])));
}

#[test]
fn policy_id_text() {
    assert_eq!(PolicyId::ada(), PolicyId::Lovelace);
    assert_eq!(PolicyId::ada().to_str(), None);
    assert_eq!(PolicyId::ada().asset_name(), None);
    assert_eq!(token("aa", None).to_str(), Some("aa".to_string()));
    assert_eq!(token("aa", Some("coin")).to_str(), Some("aa-coin".to_string()));
    assert_eq!(token("aa", Some("coin")).asset_name(), Some("coin".to_string()));
    assert_eq!(token("aa", None).asset_name(), None);
    assert_eq!(
        token("aa", Some("coin")),
        PolicyId::NativeToken("aa".to_string(), Some("coin".to_string()))
    );
    assert_ne!(token("aa", Some("coin")), token("aa", None));
    assert_eq!(token("aa", Some("coin")).clone(), token("aa", Some("coin")));
}
