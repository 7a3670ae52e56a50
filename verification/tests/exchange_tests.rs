use dh_exchange::exchange::{GroupParams, KeyExchangeEndpoint, DEFAULT_GENERATOR, DEFAULT_MODULUS};
use dh_exchange::modexp::power_mod;

fn default_endpoint(exponent: u64) -> KeyExchangeEndpoint {
    KeyExchangeEndpoint::with_private_exponent(GroupParams::default(), exponent)
        .expect("exponent within range")
}

#[test]
fn default_group_is_the_fixed_pair() {
    assert_eq!(DEFAULT_MODULUS, 345_466_091);
    assert_eq!(DEFAULT_GENERATOR, 124_717);
    let params = GroupParams::default();
    assert_eq!(params.modulus(), 345_466_091);
    assert_eq!(params.generator(), 124_717);
    assert_eq!(GroupParams::new(345_466_091, 124_717), Some(params));
}

#[test]
fn group_needs_a_modulus_above_one() {
    assert_eq!(GroupParams::new(0, 0), None);
    assert_eq!(GroupParams::new(0, 1), None);
    assert_eq!(GroupParams::new(1, 0), None);
    assert_eq!(GroupParams::new(1, 1), None);
    assert!(GroupParams::new(2, 1).is_some());
}

#[test]
fn generator_lies_strictly_between_zero_and_the_modulus() {
    assert_eq!(GroupParams::new(23, 0), None);
    assert_eq!(GroupParams::new(23, 23), None);
    assert_eq!(GroupParams::new(23, 24), None);
    assert_eq!(GroupParams::new(23, u64::MAX), None);
    let low = GroupParams::new(23, 1).expect("one is a generator value");
    assert_eq!((low.modulus(), low.generator()), (23, 1));
    let high = GroupParams::new(23, 22).expect("p - 1 is a generator value");
    assert_eq!((high.modulus(), high.generator()), (23, 22));
    let widest = GroupParams::new(u64::MAX, u64::MAX - 1).expect("largest group");
    assert_eq!((widest.modulus(), widest.generator()), (u64::MAX, u64::MAX - 1));
}

#[test]
fn private_exponent_lies_below_p_minus_one() {
    let params = GroupParams::new(23, 5).expect("valid group");
    assert!(KeyExchangeEndpoint::with_private_exponent(params, 0).is_some());
    assert!(KeyExchangeEndpoint::with_private_exponent(params, 21).is_some());
    assert!(KeyExchangeEndpoint::with_private_exponent(params, 22).is_none());
    assert!(KeyExchangeEndpoint::with_private_exponent(params, 23).is_none());
    assert!(KeyExchangeEndpoint::with_private_exponent(params, u64::MAX).is_none());
    let smallest = GroupParams::new(2, 1).expect("valid group");
    assert!(KeyExchangeEndpoint::with_private_exponent(smallest, 0).is_some());
    assert!(KeyExchangeEndpoint::with_private_exponent(smallest, 1).is_none());
}

#[test]
fn public_value_is_the_generator_raised_to_the_exponent() {
    let params = GroupParams::new(23, 5).expect("valid group");
    let endpoint = KeyExchangeEndpoint::with_private_exponent(params, 6).expect("in range");
    assert_eq!(endpoint.public_value(), 8);
    assert_eq!(endpoint.params(), params);
    assert_eq!(default_endpoint(0).public_value(), 1);
    assert_eq!(default_endpoint(1).public_value(), 124_717);
    assert_eq!(default_endpoint(2).public_value(), 8_355_994);
    assert_eq!(default_endpoint(123_456).public_value(), 273_064_241);
    assert_eq!(default_endpoint(654_321).public_value(), 273_511_302);
}

#[test]
fn shared_secret_is_the_peer_value_raised_to_the_exponent() {
    let params = GroupParams::new(23, 5).expect("valid group");
    let alice = KeyExchangeEndpoint::with_private_exponent(params, 6).expect("in range");
    let bob = KeyExchangeEndpoint::with_private_exponent(params, 15).expect("in range");
    assert_eq!(bob.public_value(), 19);
    assert_eq!(alice.derive_shared_secret(19), 2);
    assert_eq!(bob.derive_shared_secret(8), 2);
    let endpoint = default_endpoint(123_456);
    assert_eq!(endpoint.derive_shared_secret(273_511_302), 156_974_248);
    assert_eq!(
        endpoint.derive_shared_secret(987_654_321),
        power_mod(987_654_321, 123_456, 345_466_091)
    );
    assert_eq!(endpoint.derive_shared_secret(0), 0);
}

#[test]
fn deriving_leaves_the_endpoint_unchanged() {
    let endpoint = default_endpoint(123_456);
    let before = endpoint.public_value();
    let first = endpoint.derive_shared_secret(273_511_302);
    let _ = endpoint.derive_shared_secret(42);
    let again = endpoint.derive_shared_secret(273_511_302);
    assert_eq!(first, again);
    assert_eq!(endpoint.public_value(), before);
}

#[test]
fn endpoints_with_fixed_exponents_agree() {
    let alice = default_endpoint(123_456);
    let bob = default_endpoint(654_321);
    let at_alice = alice.derive_shared_secret(bob.public_value());
    let at_bob = bob.derive_shared_secret(alice.public_value());
    assert_eq!(at_alice, 156_974_248);
    assert_eq!(at_bob, 156_974_248);
}

#[test]
fn generated_endpoints_agree() {
    let mut rng = rand::rng();
    for _ in 0..32 {
        let alice = KeyExchangeEndpoint::generate(GroupParams::default(), &mut rng);
        let bob = KeyExchangeEndpoint::generate(GroupParams::default(), &mut rng);
        assert_eq!(alice.params(), GroupParams::default());
        assert!(alice.public_value() < DEFAULT_MODULUS);
        assert!(bob.public_value() < DEFAULT_MODULUS);
        assert_eq!(
            alice.derive_shared_secret(bob.public_value()),
            bob.derive_shared_secret(alice.public_value())
        );
    }
}

#[test]
fn generated_exponent_lies_in_range() {
    // Two is a primitive root modulo eleven, so the public value names the
    // exponent: each exponent in [0, 10) publishes a different value.
    let params = GroupParams::new(11, 2).expect("valid group");
    let mut rng = rand::rng();
    for _ in 0..200 {
        let endpoint = KeyExchangeEndpoint::generate(params, &mut rng);
        let matches = (0..10u64)
            .filter(|&a| power_mod(2, a, 11) == endpoint.public_value())
            .count();
        assert_eq!(matches, 1);
    }
}

#[test]
fn generated_exponents_vary() {
    let mut rng = rand::rng();
    let first = KeyExchangeEndpoint::generate(GroupParams::default(), &mut rng).public_value();
    let mut seen_other = false;
    for _ in 0..64 {
        let next = KeyExchangeEndpoint::generate(GroupParams::default(), &mut rng).public_value();
        if next != first {
            seen_other = true;
        }
    }
    assert!(seen_other);
}

#[test]
fn smallest_group_has_a_single_exponent() {
    let params = GroupParams::new(2, 1).expect("valid group");
    let mut rng = rand::rng();
    let endpoint = KeyExchangeEndpoint::generate(params, &mut rng);
    assert_eq!(endpoint.public_value(), 1);
    assert_eq!(endpoint.derive_shared_secret(1), 1);
}
