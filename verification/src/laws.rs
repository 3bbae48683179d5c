use vstd::prelude::*;
use crate::crypto::{fits_i64, PrivateKey, PublicKey, Runtime};
use crate::engine::Contract;
use crate::errors::BattleError;
use crate::state::growth_spec;

verus! {

/// Round trip: for any integer and any keypair, decrypting an encryption
/// under the matching keypair returns exactly the value that was encrypted.
pub fn encrypt_decrypt_roundtrip(
    runtime: &Runtime,
    x: i64,
    public_key: &PublicKey,
    private_key: &PrivateKey,
) -> (r: i64)
    requires
        public_key.id() == private_key.id(),
    ensures
        r == x,
{
    let c = runtime.encrypt(x, public_key);
    runtime.decrypt(&c, private_key)
}

/// Homomorphic damage: for any two integers whose difference is
/// representable, encrypting both, running the damage circuit and
/// decrypting the result yields exactly their difference.
pub fn encrypted_damage_roundtrip(
    contract: &Contract,
    runtime: &Runtime,
    a: i64,
    b: i64,
    public_key: &PublicKey,
    private_key: &PrivateKey,
) -> (r: i64)
    requires
        contract.wf(),
        public_key.id() == private_key.id(),
        fits_i64(a as int - b as int),
    ensures
        r as int == a as int - b as int,
{
    let ea = runtime.encrypt(a, public_key);
    let eb = runtime.encrypt(b, public_key);
    match contract.deal_damage(ea, eb, public_key) {
        Ok(c) => runtime.decrypt(&c, private_key),
        Err(_) => vstd::pervasive::unreached(),
    }
}

/// Homomorphic growth: for any two integers whose squared margin is
/// representable, encrypting both, running the growth circuit and
/// decrypting the result yields exactly the square of their difference.
pub fn encrypted_growth_roundtrip(
    contract: &Contract,
    runtime: &Runtime,
    total: i64,
    play: i64,
    public_key: &PublicKey,
    private_key: &PrivateKey,
) -> (r: i64)
    requires
        contract.wf(),
        public_key.id() == private_key.id(),
        fits_i64(growth_spec(total as int, play as int)),
    ensures
        r as int == (total as int - play as int) * (total as int - play as int),
{
    let et = runtime.encrypt(total, public_key);
    let ep = runtime.encrypt(play, public_key);
    match contract.level_up(et, ep, public_key) {
        Ok(c) => runtime.decrypt(&c, private_key),
        Err(_) => vstd::pervasive::unreached(),
    }
}

} // verus!
