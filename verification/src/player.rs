use vstd::prelude::*;
use crate::crypto::{Ciphertext, Params, PrivateKey, PublicKey, Runtime};
use crate::errors::BattleError;
use crate::state::{classify_power, classify_spec, valid_stake, PlayerState};

verus! {

/// One contestant. A player owns its keypair, keeps the private half to
/// itself, and exposes only operations that decrypt its own values locally
/// and hand back either a discrete state or a freshly encrypted value.
pub struct Player {
    public_key: PublicKey,
    private_key: PrivateKey,
    runtime: Runtime,
    name: String,
}

impl Player {
    /// The two key halves belong to one keypair.
    pub closed spec fn wf(&self) -> bool {
        self.private_key.id() == self.public_key.id()
    }

    /// The identity of this player's keypair.
    pub closed spec fn key(&self) -> u64 {
        self.public_key.id()
    }

    /// The player's name, as assigned at creation.
    pub closed spec fn spec_name(&self) -> Seq<char> {
        self.name@
    }

    /// The public half of the keypair; anyone may encrypt toward this player.
    pub fn public_key(&self) -> (k: &PublicKey)
        ensures
            k.id() == self.key(),
    {
        &self.public_key
    }

    /// The player's name.
    pub fn name(&self) -> (n: &String)
        ensures
            n@ == self.spec_name(),
    {
        &self.name
    }

    /// The player's own runtime handle.
    pub fn runtime(&self) -> &Runtime {
        &self.runtime
    }

    /// Create a player with its own runtime and a fresh keypair. The caller
    /// picks the key identifier, one per party.
    pub fn new(name: &str, params: &Params, key_id: u64) -> (p: Player)
        ensures
            p.wf(),
            p.key() == key_id,
            p.spec_name() == name@,
    {
        let runtime = Runtime::new(params);
        let (public_key, private_key) = runtime.generate_keys(key_id);
        Player { public_key, private_key, runtime, name: name.to_owned() }
    }

    /// Decrypt one of this player's own ciphertexts. Local-only: the value
    /// never leaves the player's boundary unencrypted.
    pub fn decrypt_own(&self, ciphertext: &Ciphertext) -> (v: i64)
        requires
            self.wf(),
            ciphertext.key() == self.key(),
        ensures
            v as int == ciphertext.value(),
    {
        self.runtime.decrypt(ciphertext, &self.private_key)
    }

    /// Choose the commitment for the coming match: decrypt the own total
    /// power, check the chosen value against it, and re-encrypt the choice
    /// under the player's own key. A zero total is a distinguished terminal
    /// condition — the party has no viable move at all; any other total
    /// admits exactly the choices in `[1, total]`.
    pub fn get_play_pl(&self, total_pl: &Ciphertext, chosen: i64) -> (r: Result<
        Ciphertext,
        BattleError,
    >)
        requires
            self.wf(),
            total_pl.key() == self.key(),
        ensures
            total_pl.value() == 0 ==> r == Err::<Ciphertext, BattleError>(
                BattleError::TotalPowerExhausted,
            ),
            total_pl.value() != 0 && !valid_stake(chosen as int, total_pl.value()) ==> r == Err::<
                Ciphertext,
                BattleError,
            >(BattleError::InputRangeError),
            total_pl.value() != 0 && valid_stake(chosen as int, total_pl.value()) ==> (r matches Ok(
                c,
            ) && c.value() == chosen as int && c.key() == self.key()),
    {
        let total = self.runtime.decrypt(total_pl, &self.private_key);
        if total == 0 {
            Err(BattleError::TotalPowerExhausted)
        } else if chosen <= 0 || chosen > total {
            Err(BattleError::InputRangeError)
        } else {
            Ok(self.runtime.encrypt(chosen, &self.public_key))
        }
    }

    /// Choose a damage value for this round: decrypt the own current power,
    /// check the chosen value against it, and encrypt the choice under the
    /// opponent's key, so the engine can combine it directly with the
    /// opponent's current power.
    pub fn get_damage(&self, current_pl: &Ciphertext, public_key: &PublicKey, chosen: i64) -> (r:
        Result<Ciphertext, BattleError>)
        requires
            self.wf(),
            current_pl.key() == self.key(),
        ensures
            !valid_stake(chosen as int, current_pl.value()) ==> r == Err::<Ciphertext, BattleError>(
                BattleError::InputRangeError,
            ),
            valid_stake(chosen as int, current_pl.value()) ==> (r matches Ok(c) && c.value()
                == chosen as int && c.key() == public_key.id()),
    {
        let current = self.runtime.decrypt(current_pl, &self.private_key);
        if chosen <= 0 || chosen > current {
            Err(BattleError::InputRangeError)
        } else {
            Ok(self.runtime.encrypt(chosen, public_key))
        }
    }

    /// Classify the own current power by the threshold rule. The engine
    /// receives only this discrete state, never the plaintext.
    pub fn get_state(&self, current_pl: &Ciphertext) -> (s: PlayerState)
        requires
            self.wf(),
            current_pl.key() == self.key(),
        ensures
            s == classify_spec(current_pl.value()),
    {
        let current = self.runtime.decrypt(current_pl, &self.private_key);
        classify_power(current)
    }
}

} // verus!
