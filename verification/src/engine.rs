use vstd::prelude::*;
use crate::crypto::{fits_i64, Ciphertext, FheProgram, Params, PublicKey, Runtime};
use crate::errors::BattleError;
use crate::state::{growth_spec, run_rounds, valid_stake, MatchOutcome, PlayerState};
use crate::player::Player;

verus! {

broadcast use crate::crypto::lemma_ciphertext_value_fits;

/// The encrypted record of one registered party. All three fields are
/// ciphertexts under that party's own public key; the engine never reads
/// their plaintexts and only combines them through the two circuits.
#[derive(Clone, Copy, Debug)]
pub struct Nft {
    /// The party's maximum resource pool.
    pub total_pl: Ciphertext,
    /// The amount wagered for the current match.
    pub play_pl: Ciphertext,
    /// The live value tracked across the rounds of a match.
    pub current_pl: Ciphertext,
}

impl Nft {
    /// All three ciphertexts are encrypted under the one given key.
    pub open spec fn under_key(&self, key: u64) -> bool {
        &&& self.total_pl.key() == key
        &&& self.play_pl.key() == key
        &&& self.current_pl.key() == key
    }
}

/// One slot of the engine's store: a party name and its record.
pub struct PartyEntry {
    pub name: String,
    pub nft: Nft,
}

/// Index of the first entry carrying `name`, or -1 if there is none.
pub open spec fn index_of(entries: Seq<PartyEntry>, name: Seq<char>) -> int
    decreases entries.len(),
{
    if entries.len() == 0 {
        -1
    } else if entries[0].name@ == name {
        0
    } else {
        let rest = index_of(entries.drop_first(), name);
        if rest < 0 {
            -1
        } else {
            rest + 1
        }
    }
}

/// No two entries carry the same name.
pub open spec fn distinct_names(entries: Seq<PartyEntry>) -> bool {
    forall|i: int, j: int|
        0 <= i < j < entries.len() ==> entries[i].name@ != entries[j].name@
}

pub proof fn lemma_index_of_props(entries: Seq<PartyEntry>, name: Seq<char>)
    ensures
        -1 <= index_of(entries, name) < entries.len(),
        index_of(entries, name) >= 0 ==> entries[index_of(entries, name)].name@ == name,
        index_of(entries, name) >= 0 ==> forall|i: int|
            0 <= i < index_of(entries, name) ==> entries[i].name@ != name,
        index_of(entries, name) == -1 ==> forall|i: int|
            0 <= i < entries.len() ==> entries[i].name@ != name,
    decreases entries.len(),
{
    if entries.len() > 0 && entries[0].name@ != name {
        lemma_index_of_props(entries.drop_first(), name);
        assert forall|i: int| 0 <= i < entries.len() && index_of(entries, name) == -1 implies entries[i].name@
            != name by {
            if i > 0 {
                assert(entries.drop_first()[i - 1] == entries[i]);
            }
        }
        if index_of(entries, name) >= 0 {
            assert forall|i: int| 0 <= i < index_of(entries, name) implies entries[i].name@
                != name by {
                if i > 0 {
                    assert(entries.drop_first()[i - 1] == entries[i]);
                }
            }
        }
    }
}

pub proof fn lemma_index_of_first(entries: Seq<PartyEntry>, name: Seq<char>, i: int)
    requires
        0 <= i < entries.len(),
        entries[i].name@ == name,
        forall|j: int| 0 <= j < i ==> entries[j].name@ != name,
    ensures
        index_of(entries, name) == i,
    decreases entries.len(),
{
    if i > 0 {
        assert(entries[0].name@ != name);
        assert(entries.drop_first()[i - 1] == entries[i]);
        assert forall|j: int| 0 <= j < i - 1 implies entries.drop_first()[j].name@ != name by {
            assert(entries.drop_first()[j] == entries[j + 1]);
        }
        lemma_index_of_first(entries.drop_first(), name, i - 1);
    }
}

/// Two stores with pointwise equal names index every name at the same slot.
pub proof fn lemma_index_of_same_names(s1: Seq<PartyEntry>, s2: Seq<PartyEntry>, name: Seq<char>)
    requires
        s1.len() == s2.len(),
        forall|i: int| 0 <= i < s1.len() ==> s1[i].name@ == s2[i].name@,
    ensures
        index_of(s1, name) == index_of(s2, name),
    decreases s1.len(),
{
    if s1.len() > 0 {
        assert forall|i: int| 0 <= i < s1.drop_first().len() implies s1.drop_first()[i].name@
            == s2.drop_first()[i].name@ by {
            assert(s1.drop_first()[i] == s1[i + 1]);
            assert(s2.drop_first()[i] == s2[i + 1]);
        }
        lemma_index_of_same_names(s1.drop_first(), s2.drop_first(), name);
        assert(s1[0].name@ == s2[0].name@);
    }
}

pub proof fn lemma_index_of_push(entries: Seq<PartyEntry>, entry: PartyEntry, name: Seq<char>)
    ensures
        index_of(entries.push(entry), name) == (if index_of(entries, name) >= 0 {
            index_of(entries, name)
        } else if entry.name@ == name {
            entries.len() as int
        } else {
            -1
        }),
    decreases entries.len(),
{
    lemma_index_of_props(entries, name);
    if index_of(entries, name) >= 0 {
        lemma_index_of_first(entries.push(entry), name, index_of(entries, name));
    } else if entry.name@ == name {
        lemma_index_of_first(entries.push(entry), name, entries.len() as int);
    } else {
        lemma_index_of_props(entries.push(entry), name);
        if index_of(entries.push(entry), name) >= 0 {
            assert(entries.push(entry)[index_of(entries.push(entry), name)].name@ == name);
        }
    }
}

/// What a whole match returns, given the two totals at its start, the two
/// commitments and the scripted damage values. The commitments are checked
/// first, one party at a time: an exhausted (zero) total is a distinguished
/// terminal condition, an out-of-range commitment is rejected. Then the
/// rounds run; a win additionally evaluates the growth circuit on the
/// winner's pair, which fails fatally when the square leaves the
/// representable range.
pub open spec fn battle_spec(
    a_total: int,
    b_total: int,
    a_play: int,
    b_play: int,
    moves: Seq<(i64, i64)>,
) -> Result<MatchOutcome, BattleError> {
    if a_total == 0 {
        Err(BattleError::TotalPowerExhausted)
    } else if !valid_stake(a_play, a_total) {
        Err(BattleError::InputRangeError)
    } else if b_total == 0 {
        Err(BattleError::TotalPowerExhausted)
    } else if !valid_stake(b_play, b_total) {
        Err(BattleError::InputRangeError)
    } else {
        match run_rounds(a_play, b_play, a_play, b_play, moves) {
            Err(e) => Err(e),
            Ok((outcome, a_fin, b_fin)) => match outcome {
                MatchOutcome::AliceWins => if fits_i64(growth_spec(a_total, a_play)) {
                    Ok(MatchOutcome::AliceWins)
                } else {
                    Err(BattleError::CryptoRuntimeFailure)
                },
                MatchOutcome::BobWins => if fits_i64(growth_spec(b_total, b_play)) {
                    Ok(MatchOutcome::BobWins)
                } else {
                    Err(BattleError::CryptoRuntimeFailure)
                },
                _ => Ok(outcome),
            },
        }
    }
}

/// The arbitrating engine ("the contract"): it owns the mapping of party
/// name to encrypted record and the two compiled circuits, and it drives
/// matches. It never holds a private key and never sees a plaintext.
pub struct Contract {
    runtime: Runtime,
    deal_damage_fhe: FheProgram,
    level_up_fhe: FheProgram,
    state: Vec<PartyEntry>,
}

impl Contract {
    /// The circuits are the two intended ones and the store never holds two
    /// records under one name.
    pub closed spec fn wf(&self) -> bool {
        &&& self.deal_damage_fhe == FheProgram::DealDamage
        &&& self.level_up_fhe == FheProgram::LevelUp
        &&& distinct_names(self.state@)
    }

    pub closed spec fn spec_params(&self) -> Params {
        self.runtime.spec_params()
    }

    /// Whether a record exists under this name.
    pub closed spec fn has_party(&self, name: Seq<char>) -> bool {
        index_of(self.state@, name) >= 0
    }

    /// The record stored under this name.
    pub closed spec fn record_of(&self, name: Seq<char>) -> Nft {
        self.state@[index_of(self.state@, name)].nft
    }

    /// Plaintext under the stored total power ciphertext.
    pub open spec fn total_of(&self, name: Seq<char>) -> int {
        self.record_of(name).total_pl.value()
    }

    /// Plaintext under the stored committed power ciphertext.
    pub open spec fn play_of(&self, name: Seq<char>) -> int {
        self.record_of(name).play_pl.value()
    }

    /// Plaintext under the stored current power ciphertext.
    pub open spec fn current_of(&self, name: Seq<char>) -> int {
        self.record_of(name).current_pl.value()
    }

    /// Set up the engine: the two compiled circuits, a runtime over their
    /// shared parameters, and an empty store.
    pub fn new() -> (c: Contract)
        ensures
            c.wf(),
            forall|name: Seq<char>| !(#[trigger] c.has_party(name)),
    {
        let params = Params { id: 0 };
        Contract {
            runtime: Runtime::new(&params),
            deal_damage_fhe: FheProgram::DealDamage,
            level_up_fhe: FheProgram::LevelUp,
            state: Vec::new(),
        }
    }

    /// The parameters every participant's runtime must be built from.
    pub fn get_params(&self) -> (p: &Params)
        ensures
            *p == self.spec_params(),
    {
        self.runtime.params()
    }

    /// Index of the entry under `name` in the store, if any.
    fn find_index(&self, name: &String) -> (r: Option<usize>)
        ensures
            match r {
                Some(i) => i as int == index_of(self.state@, name@) && i < self.state@.len(),
                None => index_of(self.state@, name@) == -1,
            },
    {
        let ghost entries = self.state@;
        let mut j: usize = 0;
        while j < self.state.len()
            invariant
                j <= self.state@.len(),
                entries == self.state@,
                forall|k: int| 0 <= k < j ==> entries[k].name@ != name@,
            decreases self.state@.len() - j,
        {
            if self.state[j].name == *name {
                proof {
                    lemma_index_of_first(entries, name@, j as int);
                }
                return Some(j);
            }
            j += 1;
        }
        proof {
            lemma_index_of_props(entries, name@);
            if index_of(entries, name@) >= 0 {
                assert(entries[index_of(entries, name@)].name@ == name@);
            }
        }
        None
    }

    /// Register a party: store a fresh record whose three fields all hold
    /// the starting pool of 50, encrypted under the party's public key. A
    /// second mint under the same name is rejected and changes nothing —
    /// records are never silently overwritten.
    pub fn mint_nft(&mut self, name: &str, public_key: &PublicKey) -> (r: Result<(), BattleError>)
        requires
            old(self).wf(),
        ensures
            final(self).wf(),
            final(self).spec_params() == old(self).spec_params(),
            old(self).has_party(name@) ==> r == Err::<(), BattleError>(BattleError::DuplicateParty)
                && *final(self) == *old(self),
            !old(self).has_party(name@) ==> {
                &&& r == Ok::<(), BattleError>(())
                &&& final(self).has_party(name@)
                &&& final(self).record_of(name@).under_key(public_key.id())
                &&& final(self).total_of(name@) == 50
                &&& final(self).play_of(name@) == 50
                &&& final(self).current_of(name@) == 50
            },
            forall|other: Seq<char>|
                other != name@ ==> #[trigger] final(self).has_party(other) == old(self).has_party(other),
            forall|other: Seq<char>|
                other != name@ && old(self).has_party(other) ==> #[trigger] final(self).record_of(other)
                    == old(self).record_of(other),
    {
        let key: String = name.to_owned();
        match self.find_index(&key) {
            Some(_) => Err(BattleError::DuplicateParty),
            None => {
                let total_pl = self.runtime.encrypt(50, public_key);
                let nft = Nft { total_pl, play_pl: total_pl, current_pl: total_pl };
                let entry = PartyEntry { name: key, nft };
                let ghost before = self.state@;
                let ghost new_entry = entry;
                self.state.push(entry);
                proof {
                    lemma_index_of_props(before, name@);
                    lemma_index_of_push(before, new_entry, name@);
                    assert forall|other: Seq<char>| other != name@ implies #[trigger] self
                        .has_party(other) == old(self).has_party(other) by {
                        lemma_index_of_push(before, new_entry, other);
                    }
                    assert forall|other: Seq<char>|
                        other != name@ && old(self).has_party(other) implies #[trigger] self
                        .record_of(other) == old(self).record_of(other) by {
                        lemma_index_of_push(before, new_entry, other);
                        lemma_index_of_props(before, other);
                    }
                    assert forall|i: int, j: int|
                        0 <= i < j < self.state@.len() implies self.state@[i].name@ != self
                        .state@[j].name@ by {
                        if j < before.len() {
                            assert(self.state@[i] == before[i] && self.state@[j] == before[j]);
                        } else {
                            assert(self.state@[j] == new_entry);
                            assert(self.state@[i] == before[i]);
                        }
                    }
                }
                Ok(())
            },
        }
    }

    /// Look a record up by party name.
    pub fn get_nft(&self, name: &str) -> (r: Option<&Nft>)
        ensures
            match r {
                Some(n) => self.has_party(name@) && *n == self.record_of(name@),
                None => !self.has_party(name@),
            },
    {
        let key: String = name.to_owned();
        match self.find_index(&key) {
            Some(i) => Some(&self.state[i].nft),
            None => None,
        }
    }

    /// Evaluate the damage circuit `f(current, damage) = current - damage`
    /// on two ciphertexts under the recipient's key. The result represents
    /// a possibly negative plaintext on purpose: that is the signal the
    /// state classification consumes. The runtime fails exactly when the
    /// result leaves the representable range.
    pub fn deal_damage(&self, current_pl: Ciphertext, damage: Ciphertext, public_key: &PublicKey) -> (r:
        Result<Ciphertext, BattleError>)
        requires
            self.wf(),
            current_pl.key() == public_key.id(),
            damage.key() == public_key.id(),
        ensures
            fits_i64(current_pl.value() - damage.value()) ==> (r matches Ok(c) && c.value()
                == current_pl.value() - damage.value() && c.key() == public_key.id()),
            !fits_i64(current_pl.value() - damage.value()) ==> r == Err::<Ciphertext, BattleError>(
                BattleError::CryptoRuntimeFailure,
            ),
    {
        match self.runtime.run(&self.deal_damage_fhe, vec![current_pl, damage], public_key) {
            Ok(out) => Ok(out[0]),
            Err(e) => Err(e),
        }
    }

    /// Evaluate the growth circuit `f(total, play) = (total - play)^2` on
    /// the surviving party's pair, under that party's key. Rewarding a small
    /// unspent margin with a small growth is intentional: the reward is the
    /// square of the margin, not a monotonic bonus. The runtime fails
    /// exactly when the square leaves the representable range.
    pub fn level_up(&self, total_pl: Ciphertext, play_pl: Ciphertext, public_key: &PublicKey) -> (r:
        Result<Ciphertext, BattleError>)
        requires
            self.wf(),
            total_pl.key() == public_key.id(),
            play_pl.key() == public_key.id(),
        ensures
            fits_i64(growth_spec(total_pl.value(), play_pl.value())) ==> (r matches Ok(c)
                && c.value() == growth_spec(total_pl.value(), play_pl.value()) && c.key()
                == public_key.id()),
            !fits_i64(growth_spec(total_pl.value(), play_pl.value())) ==> r == Err::<
                Ciphertext,
                BattleError,
            >(BattleError::CryptoRuntimeFailure),
    {
        match self.runtime.run(&self.level_up_fhe, vec![total_pl, play_pl], public_key) {
            Ok(out) => Ok(out[0]),
            Err(e) => Err(e),
        }
    }

    /// Run one match between two registered parties, driven by the script
    /// of chosen values: the two commitments, then one damage pair per
    /// round (first component dealt by `alice`, second by `bob`). Each
    /// round both damage ciphertexts are applied, both parties classify
    /// their own updated value, and the transition rules fire in priority
    /// order: both dead is a draw, exactly one dead crowns the other, a
    /// reborn party restarts from its commitment. Only a win touches the
    /// store — the winner's record is replaced (grown total, this match's
    /// commitment and final current power); a draw, an error or running out
    /// of scripted rounds leaves the store exactly as it was, so an
    /// unfinished match can be replayed with a longer script.
    pub fn battle(
        &mut self,
        alice: &Player,
        bob: &Player,
        alice_play: i64,
        bob_play: i64,
        moves: &Vec<(i64, i64)>,
    ) -> (r: Result<MatchOutcome, BattleError>)
        requires
            old(self).wf(),
            alice.wf(),
            bob.wf(),
            alice.spec_name() != bob.spec_name(),
            old(self).has_party(alice.spec_name()),
            old(self).has_party(bob.spec_name()),
            old(self).record_of(alice.spec_name()).under_key(alice.key()),
            old(self).record_of(bob.spec_name()).under_key(bob.key()),
        ensures
            final(self).wf(),
            final(self).spec_params() == old(self).spec_params(),
            r == battle_spec(
                old(self).total_of(alice.spec_name()),
                old(self).total_of(bob.spec_name()),
                alice_play as int,
                bob_play as int,
                moves@,
            ),
            (r != Ok::<MatchOutcome, BattleError>(MatchOutcome::AliceWins) && r != Ok::<
                MatchOutcome,
                BattleError,
            >(MatchOutcome::BobWins)) ==> *final(self) == *old(self),
            r == Ok::<MatchOutcome, BattleError>(MatchOutcome::AliceWins) ==> (run_rounds(
                alice_play as int,
                bob_play as int,
                alice_play as int,
                bob_play as int,
                moves@,
            ) matches Ok(t) && {
                &&& final(self).has_party(alice.spec_name())
                &&& final(self).record_of(alice.spec_name()).under_key(alice.key())
                &&& final(self).total_of(alice.spec_name()) == growth_spec(
                    old(self).total_of(alice.spec_name()),
                    alice_play as int,
                )
                &&& final(self).play_of(alice.spec_name()) == alice_play as int
                &&& final(self).current_of(alice.spec_name()) == t.1
                &&& forall|o: Seq<char>|
                    o != alice.spec_name() ==> #[trigger] final(self).has_party(o) == old(
                        self,
                    ).has_party(o)
                &&& forall|o: Seq<char>|
                    o != alice.spec_name() && old(self).has_party(o)
                        ==> #[trigger] final(self).record_of(o) == old(self).record_of(o)
            }),
            r == Ok::<MatchOutcome, BattleError>(MatchOutcome::BobWins) ==> (run_rounds(
                alice_play as int,
                bob_play as int,
                alice_play as int,
                bob_play as int,
                moves@,
            ) matches Ok(t) && {
                &&& final(self).has_party(bob.spec_name())
                &&& final(self).record_of(bob.spec_name()).under_key(bob.key())
                &&& final(self).total_of(bob.spec_name()) == growth_spec(
                    old(self).total_of(bob.spec_name()),
                    bob_play as int,
                )
                &&& final(self).play_of(bob.spec_name()) == bob_play as int
                &&& final(self).current_of(bob.spec_name()) == t.2
                &&& forall|o: Seq<char>|
                    o != bob.spec_name() ==> #[trigger] final(self).has_party(o) == old(
                        self,
                    ).has_party(o)
                &&& forall|o: Seq<char>|
                    o != bob.spec_name() && old(self).has_party(o)
                        ==> #[trigger] final(self).record_of(o) == old(self).record_of(o)
            }),
    {
        let ghost a_name = alice.spec_name();
        let ghost b_name = bob.spec_name();
        let ghost a_total = old(self).total_of(a_name);
        let ghost b_total = old(self).total_of(b_name);
        let ghost ap = alice_play as int;
        let ghost bp = bob_play as int;

        let ai: usize = match self.find_index(alice.name()) {
            Some(i) => i,
            None => vstd::pervasive::unreached(),
        };
        let bi: usize = match self.find_index(bob.name()) {
            Some(i) => i,
            None => vstd::pervasive::unreached(),
        };

        let mut alice_data: Nft = self.state[ai].nft;
        let mut bob_data: Nft = self.state[bi].nft;

        let a_play_ct: Ciphertext = match alice.get_play_pl(&alice_data.total_pl, alice_play) {
            Ok(c) => c,
            Err(e) => {
                return Err(e);
            },
        };
        let b_play_ct: Ciphertext = match bob.get_play_pl(&bob_data.total_pl, bob_play) {
            Ok(c) => c,
            Err(e) => {
                return Err(e);
            },
        };

        alice_data.play_pl = a_play_ct;
        alice_data.current_pl = a_play_ct;
        bob_data.play_pl = b_play_ct;
        bob_data.current_pl = b_play_ct;

        let ghost full = run_rounds(ap, bp, ap, bp, moves@);
        proof {
            assert(moves@.skip(0) =~= moves@);
        }

        let mut i: usize = 0;
        while i < moves.len()
            invariant
                old(self).wf(),
                alice.wf(),
                bob.wf(),
                *self == *old(self),
                i <= moves@.len(),
                a_name == alice.spec_name(),
                b_name == bob.spec_name(),
                a_name != b_name,
                ap == alice_play as int,
                bp == bob_play as int,
                a_total == old(self).total_of(a_name),
                b_total == old(self).total_of(b_name),
                a_total != 0,
                valid_stake(ap, a_total),
                b_total != 0,
                valid_stake(bp, b_total),
                old(self).has_party(a_name),
                old(self).has_party(b_name),
                ai < self.state@.len(),
                ai as int == index_of(self.state@, a_name),
                bi < self.state@.len(),
                bi as int == index_of(self.state@, b_name),
                alice_data.under_key(alice.key()),
                bob_data.under_key(bob.key()),
                alice_data.total_pl.value() == a_total,
                bob_data.total_pl.value() == b_total,
                alice_data.play_pl.value() == ap,
                bob_data.play_pl.value() == bp,
                alice_data.current_pl.value() > 0,
                bob_data.current_pl.value() > 0,
                full == run_rounds(ap, bp, ap, bp, moves@),
                run_rounds(
                    ap,
                    bp,
                    alice_data.current_pl.value(),
                    bob_data.current_pl.value(),
                    moves@.skip(i as int),
                ) == full,
            decreases moves@.len() - i,
        {
            let pair: (i64, i64) = moves[i];
            let a_dmg: i64 = pair.0;
            let b_dmg: i64 = pair.1;
            proof {
                assert(moves@.skip(i as int)[0] == moves@[i as int]);
                assert(moves@.skip(i as int).drop_first() =~= moves@.skip(i as int + 1));
            }

            let a_dmg_ct: Ciphertext = match alice.get_damage(
                &alice_data.current_pl,
                bob.public_key(),
                a_dmg,
            ) {
                Ok(c) => c,
                Err(e) => {
                    return Err(e);
                },
            };
            let b_dmg_ct: Ciphertext = match bob.get_damage(
                &bob_data.current_pl,
                alice.public_key(),
                b_dmg,
            ) {
                Ok(c) => c,
                Err(e) => {
                    return Err(e);
                },
            };

            let new_a_cur: Ciphertext = match self.deal_damage(
                alice_data.current_pl,
                b_dmg_ct,
                alice.public_key(),
            ) {
                Ok(c) => c,
                Err(_) => vstd::pervasive::unreached(),
            };
            let new_b_cur: Ciphertext = match self.deal_damage(
                bob_data.current_pl,
                a_dmg_ct,
                bob.public_key(),
            ) {
                Ok(c) => c,
                Err(_) => vstd::pervasive::unreached(),
            };
            alice_data.current_pl = new_a_cur;
            bob_data.current_pl = new_b_cur;

            let a_state: PlayerState = alice.get_state(&alice_data.current_pl);
            let b_state: PlayerState = bob.get_state(&bob_data.current_pl);

            if a_state == PlayerState::Dead && b_state == PlayerState::Dead {
                return Ok(MatchOutcome::Draw);
            } else if a_state == PlayerState::Dead {
                let grown: Ciphertext = match self.level_up(
                    bob_data.total_pl,
                    bob_data.play_pl,
                    bob.public_key(),
                ) {
                    Ok(c) => c,
                    Err(e) => {
                        return Err(e);
                    },
                };
                bob_data.total_pl = grown;
                let ghost s_old = self.state@;
                let mut entry: PartyEntry = self.state.remove(bi);
                entry.nft = bob_data;
                let ghost ue = entry;
                self.state.insert(bi, entry);
                proof {
                    self.lemma_store_update(s_old, bi as int, ue, b_name);
                }
                return Ok(MatchOutcome::BobWins);
            } else if b_state == PlayerState::Dead {
                let grown: Ciphertext = match self.level_up(
                    alice_data.total_pl,
                    alice_data.play_pl,
                    alice.public_key(),
                ) {
                    Ok(c) => c,
                    Err(e) => {
                        return Err(e);
                    },
                };
                alice_data.total_pl = grown;
                let ghost s_old = self.state@;
                let mut entry: PartyEntry = self.state.remove(ai);
                entry.nft = alice_data;
                let ghost ue = entry;
                self.state.insert(ai, entry);
                proof {
                    self.lemma_store_update(s_old, ai as int, ue, a_name);
                }
                return Ok(MatchOutcome::AliceWins);
            }

            if a_state == PlayerState::Reborn {
                alice_data.current_pl = alice_data.play_pl;
            }
            if b_state == PlayerState::Reborn {
                bob_data.current_pl = bob_data.play_pl;
            }
            i += 1;
        }
        proof {
            assert(moves@.skip(moves@.len() as int) =~= Seq::<(i64, i64)>::empty());
        }
        Ok(MatchOutcome::Unfinished)
    }

    /// Replacing the record at one slot, name kept, moves no name to a
    /// different slot and leaves every other record as it was.
    proof fn lemma_store_update(
        &self,
        s_old: Seq<PartyEntry>,
        at: int,
        ue: PartyEntry,
        name: Seq<char>,
    )
        requires
            distinct_names(s_old),
            0 <= at < s_old.len(),
            self.state@ == s_old.remove(at).insert(at, ue),
            ue.name@ == s_old[at].name@,
            at == index_of(s_old, name),
        ensures
            distinct_names(self.state@),
            self.state@.len() == s_old.len(),
            index_of(self.state@, name) == at,
            self.state@[at] == ue,
            forall|o: Seq<char>|
                o != name ==> #[trigger] index_of(self.state@, o) == index_of(s_old, o),
            forall|o: Seq<char>|
                o != name && index_of(s_old, o) >= 0 ==> #[trigger] self.state@[index_of(
                    s_old,
                    o,
                )] == s_old[index_of(s_old, o)],
    {
        assert(self.state@ =~= s_old.update(at, ue));
        assert forall|k: int| 0 <= k < s_old.len() implies #[trigger] self.state@[k].name@
            == s_old[k].name@ by {}
        lemma_index_of_props(s_old, name);
        lemma_index_of_same_names(s_old, self.state@, name);
        assert forall|x: int, y: int|
            0 <= x < y < self.state@.len() implies self.state@[x].name@ != self.state@[y].name@ by {
            assert(s_old[x].name@ != s_old[y].name@);
        }
        assert forall|o: Seq<char>| o != name implies #[trigger] index_of(self.state@, o)
            == index_of(s_old, o) by {
            lemma_index_of_same_names(s_old, self.state@, o);
        }
        assert forall|o: Seq<char>| o != name && index_of(s_old, o) >= 0 implies #[trigger] self
            .state@[index_of(s_old, o)] == s_old[index_of(s_old, o)] by {
            lemma_index_of_props(s_old, o);
        }
    }
}

} // verus!
