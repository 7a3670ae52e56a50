//! The state one side of the exchange keeps: the group, its own private
//! exponent and the public value derived from it.

use crate::modexp::{lemma_exchange_agrees, pow_mod, power_mod};
use rand::rngs::ThreadRng;
use rand::Rng;
use vstd::prelude::*;

verus! {

/// The modulus both sides use unless configured otherwise.
pub const DEFAULT_MODULUS: u64 = 345_466_091;

/// The generator both sides use unless configured otherwise.
pub const DEFAULT_GENERATOR: u64 = 124_717;

/// The thread-local generator of the `rand` crate, carried as an opaque handle.
#[verifier::external_type_specification]
#[verifier::external_body]
pub struct ExThreadRng(rand::rngs::ThreadRng);

/// Draws one number from `rng` through `rand::Rng::random_range` on the
/// half-open range `low..high`.
///
/// Unverified: the contract restates what `rand` documents and its sampler
/// for integers shows.  `random_range` panics on an empty range, which the
/// precondition rules out; on a non-empty range it returns a member of the
/// range.  Nothing is claimed about which member, and two draws need not
/// agree.  The generator itself panics if the operating system refuses it
/// fresh entropy when it reseeds; no argument can prevent that.
#[verifier::external_body]
fn random_in_range(rng: &mut ThreadRng, low: u64, high: u64) -> (r: u64)
    requires
        low < high,
    ensures
        low <= r < high,
{
    rng.random_range(low..high)
}

/// The public parameters of the exchange: a modulus `p > 1` and a generator
/// `g` with `0 < g < p`.
#[derive(Clone, Copy, Debug, PartialEq, Eq, Structural)]
pub struct GroupParams {
    modulus: u64,
    generator: u64,
}

impl GroupParams {
    /// The modulus `p`.
    pub closed spec fn spec_modulus(&self) -> u64 {
        self.modulus
    }

    /// The generator `g`.
    pub closed spec fn spec_generator(&self) -> u64 {
        self.generator
    }

    /// What every value of this type satisfies: `p > 1` and `0 < g < p`.
    #[verifier::type_invariant]
    pub open spec fn wf(self) -> bool {
        self.spec_modulus() > 1 && 0 < self.spec_generator() < self.spec_modulus()
    }

    /// Whether `modulus` and `generator` may form a group description.
    pub open spec fn admissible(modulus: u64, generator: u64) -> bool {
        modulus > 1 && 0 < generator < modulus
    }

    /// Builds the parameters, or `None` when `modulus <= 1` or the generator
    /// is not strictly between zero and the modulus.
    pub fn new(modulus: u64, generator: u64) -> (r: Option<GroupParams>)
        ensures
            r is Some <==> Self::admissible(modulus, generator),
            r matches Some(params) ==> params.wf() && params.spec_modulus() == modulus
                && params.spec_generator() == generator,
    {
        if modulus > 1 && 0 < generator && generator < modulus {
            Some(GroupParams { modulus, generator })
        } else {
            None
        }
    }

    /// The modulus `p`; always above one.
    #[verifier::when_used_as_spec(spec_modulus)]
    pub fn modulus(&self) -> (p: u64)
        ensures
            p == self.spec_modulus(),
            p > 1,
    {
        proof {
            use_type_invariant(self);
        }
        self.modulus
    }

    /// The generator `g`; always strictly between zero and the modulus.
    #[verifier::when_used_as_spec(spec_generator)]
    pub fn generator(&self) -> (g: u64)
        ensures
            g == self.spec_generator(),
            0 < g < self.spec_modulus(),
    {
        proof {
            use_type_invariant(self);
        }
        self.generator
    }
}

impl Default for GroupParams {
    /// The group of [`DEFAULT_MODULUS`] and [`DEFAULT_GENERATOR`].
    fn default() -> (params: GroupParams)
        ensures
            params.wf(),
            params.spec_modulus() == DEFAULT_MODULUS,
            params.spec_generator() == DEFAULT_GENERATOR,
    {
        GroupParams { modulus: DEFAULT_MODULUS, generator: DEFAULT_GENERATOR }
    }
}

/// One side of the exchange.
///
/// The private exponent `a` lies in `[0, p - 1)` and never leaves the value;
/// the public value is `g^a mod p`, fixed at construction.
#[derive(Clone, Copy)]
pub struct KeyExchangeEndpoint {
    params: GroupParams,
    private_exponent: u64,
    public_value: u64,
}

impl KeyExchangeEndpoint {
    /// The group this endpoint works in.
    pub closed spec fn spec_params(&self) -> GroupParams {
        self.params
    }

    /// The private exponent `a`.
    pub closed spec fn private_exponent(self) -> u64 {
        self.private_exponent
    }

    /// The public value as stored.
    pub closed spec fn spec_public_value(&self) -> u64 {
        self.public_value
    }

    /// What every endpoint satisfies: its group is well formed, its exponent
    /// lies in `[0, p - 1)`, and its public value is `g^a mod p`.
    #[verifier::type_invariant]
    pub open spec fn wf(self) -> bool {
        &&& self.spec_params().wf()
        &&& self.private_exponent() < self.spec_params().spec_modulus() - 1
        &&& self.spec_public_value() == pow_mod(
            self.spec_params().spec_generator() as nat,
            self.private_exponent() as nat,
            self.spec_params().spec_modulus() as nat,
        )
    }

    /// The secret this endpoint derives from a peer's public value:
    /// `peer_public^a mod p`.
    pub open spec fn shared_secret_with(self, peer_public: u64) -> nat {
        pow_mod(
            peer_public as nat,
            self.private_exponent() as nat,
            self.spec_params().spec_modulus() as nat,
        )
    }

    /// Builds the endpoint that holds the given private exponent, or `None`
    /// when the exponent lies outside `[0, p - 1)`.
    pub fn with_private_exponent(params: GroupParams, exponent: u64) -> (r: Option<
        KeyExchangeEndpoint,
    >)
        ensures
            r is Some <==> exponent < params.spec_modulus() - 1,
            r matches Some(endpoint) ==> endpoint.wf() && endpoint.spec_params() == params
                && endpoint.private_exponent() == exponent,
    {
        let p = params.modulus();
        if exponent < p - 1 {
            let public_value = power_mod(params.generator(), exponent, p);
            Some(KeyExchangeEndpoint { params, private_exponent: exponent, public_value })
        } else {
            None
        }
    }

    /// Draws a private exponent from `rng`, over `[0, p - 1)`, and builds the
    /// endpoint that holds it.
    pub fn generate(params: GroupParams, rng: &mut ThreadRng) -> (endpoint: KeyExchangeEndpoint)
        ensures
            endpoint.wf(),
            endpoint.spec_params() == params,
    {
        let p = params.modulus();
        let exponent = random_in_range(rng, 0, p - 1);
        let public_value = power_mod(params.generator(), exponent, p);
        KeyExchangeEndpoint { params, private_exponent: exponent, public_value }
    }

    /// The group this endpoint works in.
    #[verifier::when_used_as_spec(spec_params)]
    pub fn params(&self) -> (params: GroupParams)
        ensures
            params == self.spec_params(),
            params.wf(),
    {
        proof {
            use_type_invariant(self);
        }
        self.params
    }

    /// The value to publish: `g^a mod p`, computed once at construction.
    #[verifier::when_used_as_spec(spec_public_value)]
    pub fn public_value(&self) -> (value: u64)
        ensures
            value == self.spec_public_value(),
            value == pow_mod(
                self.spec_params().spec_generator() as nat,
                self.private_exponent() as nat,
                self.spec_params().spec_modulus() as nat,
            ),
            value < self.spec_params().spec_modulus(),
    {
        proof {
            use_type_invariant(self);
        }
        self.public_value
    }

    /// Derives the shared secret from a peer's public value:
    /// `peer_public^a mod p`.  The endpoint itself is left unchanged.
    pub fn derive_shared_secret(&self, peer_public: u64) -> (secret: u64)
        ensures
            secret == self.shared_secret_with(peer_public),
            secret < self.spec_params().spec_modulus(),
    {
        proof {
            use_type_invariant(self);
            use_type_invariant(&self.params);
        }
        power_mod(peer_public, self.private_exponent, self.params.modulus)
    }
}

/// Two endpoints of the same group derive the same secret from each other's
/// public value.
pub proof fn lemma_endpoints_agree(a: KeyExchangeEndpoint, b: KeyExchangeEndpoint)
    requires
        a.wf(),
        b.wf(),
        a.spec_params() == b.spec_params(),
    ensures
        a.shared_secret_with(b.spec_public_value()) == b.shared_secret_with(a.spec_public_value()),
{
    lemma_exchange_agrees(
        a.spec_params().spec_generator() as nat,
        a.private_exponent() as nat,
        b.private_exponent() as nat,
        a.spec_params().spec_modulus() as nat,
    );
}

} // verus!
