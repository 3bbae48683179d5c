use fhe_battle::crypto::{Params, Runtime};
use fhe_battle::engine::Contract;
use fhe_battle::errors::BattleError;
use fhe_battle::laws::{
    encrypt_decrypt_roundtrip, encrypted_damage_roundtrip, encrypted_growth_roundtrip,
};
use fhe_battle::player::Player;
use fhe_battle::state::{classify_power, MatchOutcome, PlayerState};

fn setup() -> (Contract, Player, Player) {
    let contract = Contract::new();
    let alice = Player::new("Alice", contract.get_params(), 1);
    let bob = Player::new("Bob", contract.get_params(), 2);
    (contract, alice, bob)
}

fn minted() -> (Contract, Player, Player) {
    let (mut contract, alice, bob) = setup();
    assert_eq!(contract.mint_nft("Alice", alice.public_key()), Ok(()));
    assert_eq!(contract.mint_nft("Bob", bob.public_key()), Ok(()));
    (contract, alice, bob)
}

fn record_values(contract: &Contract, player: &Player, name: &str) -> (i64, i64, i64) {
    let nft = contract.get_nft(name).unwrap();
    (
        player.decrypt_own(&nft.total_pl),
        player.decrypt_own(&nft.play_pl),
        player.decrypt_own(&nft.current_pl),
    )
}

#[test]
fn classification_boundaries() {
    assert_eq!(classify_power(1), PlayerState::Alive);
    assert_eq!(classify_power(0), PlayerState::Dead);
    assert_eq!(classify_power(-10), PlayerState::Dead);
    assert_eq!(classify_power(-11), PlayerState::Reborn);
    assert_eq!(classify_power(50), PlayerState::Alive);
    assert_eq!(classify_power(-5), PlayerState::Dead);
    assert_eq!(classify_power(i64::MIN), PlayerState::Reborn);
}

#[test]
fn encrypt_then_decrypt_is_identity() {
    let runtime = Runtime::new(&Params { id: 0 });
    let (public_key, private_key) = runtime.generate_keys(9);
    assert_eq!(encrypt_decrypt_roundtrip(&runtime, 42, &public_key, &private_key), 42);
    assert_eq!(encrypt_decrypt_roundtrip(&runtime, -17, &public_key, &private_key), -17);
    assert_eq!(encrypt_decrypt_roundtrip(&runtime, 0, &public_key, &private_key), 0);
    let c = runtime.encrypt(123456789, &public_key);
    assert_eq!(runtime.decrypt(&c, &private_key), 123456789);
}

#[test]
fn damage_circuit_computes_difference() {
    let contract = Contract::new();
    let runtime = Runtime::new(contract.get_params());
    let (public_key, private_key) = runtime.generate_keys(3);
    assert_eq!(encrypted_damage_roundtrip(&contract, &runtime, 30, 45, &public_key, &private_key), -15);
    assert_eq!(encrypted_damage_roundtrip(&contract, &runtime, 20, 25, &public_key, &private_key), -5);
    assert_eq!(encrypted_damage_roundtrip(&contract, &runtime, 7, 7, &public_key, &private_key), 0);
}

#[test]
fn growth_circuit_computes_squared_margin() {
    let contract = Contract::new();
    let runtime = Runtime::new(contract.get_params());
    let (public_key, private_key) = runtime.generate_keys(4);
    assert_eq!(encrypted_growth_roundtrip(&contract, &runtime, 50, 30, &public_key, &private_key), 400);
    assert_eq!(encrypted_growth_roundtrip(&contract, &runtime, 10, 10, &public_key, &private_key), 0);
    assert_eq!(encrypted_growth_roundtrip(&contract, &runtime, 3, 10, &public_key, &private_key), 49);
}

#[test]
fn circuit_overflow_is_a_runtime_failure() {
    let contract = Contract::new();
    let runtime = Runtime::new(contract.get_params());
    let (public_key, _) = runtime.generate_keys(5);
    let far = runtime.encrypt(i64::MAX, &public_key);
    let neg = runtime.encrypt(-2, &public_key);
    assert!(matches!(
        contract.level_up(far, neg, &public_key),
        Err(BattleError::CryptoRuntimeFailure)
    ));
    let low = runtime.encrypt(i64::MIN, &public_key);
    let one = runtime.encrypt(1, &public_key);
    assert!(matches!(
        contract.deal_damage(low, one, &public_key),
        Err(BattleError::CryptoRuntimeFailure)
    ));
}

#[test]
fn mint_initializes_and_rejects_duplicates() {
    let (mut contract, alice, _bob) = setup();
    assert!(contract.get_nft("Alice").is_none());
    assert_eq!(contract.mint_nft("Alice", alice.public_key()), Ok(()));
    assert_eq!(record_values(&contract, &alice, "Alice"), (50, 50, 50));
    assert_eq!(
        contract.mint_nft("Alice", alice.public_key()),
        Err(BattleError::DuplicateParty)
    );
    assert_eq!(record_values(&contract, &alice, "Alice"), (50, 50, 50));
}

#[test]
fn commitment_accepts_exactly_one_to_total() {
    let (_contract, alice, _bob) = setup();
    let total = alice.runtime().encrypt(50, alice.public_key());
    assert!(matches!(alice.get_play_pl(&total, 0), Err(BattleError::InputRangeError)));
    assert!(matches!(alice.get_play_pl(&total, -5), Err(BattleError::InputRangeError)));
    assert!(matches!(alice.get_play_pl(&total, 51), Err(BattleError::InputRangeError)));
    for chosen in 1i64..=50i64 {
        let c = alice.get_play_pl(&total, chosen).unwrap();
        assert_eq!(alice.decrypt_own(&c), chosen);
    }
}

#[test]
fn exhausted_total_is_a_distinguished_condition() {
    let (_contract, alice, _bob) = setup();
    let total = alice.runtime().encrypt(0, alice.public_key());
    assert!(matches!(alice.get_play_pl(&total, 1), Err(BattleError::TotalPowerExhausted)));
    assert!(matches!(alice.get_play_pl(&total, 0), Err(BattleError::TotalPowerExhausted)));
}

#[test]
fn damage_choice_is_bounded_by_current_and_encrypted_toward_opponent() {
    let (_contract, alice, bob) = setup();
    let current = alice.runtime().encrypt(20, alice.public_key());
    assert!(matches!(
        alice.get_damage(&current, bob.public_key(), 0),
        Err(BattleError::InputRangeError)
    ));
    assert!(matches!(
        alice.get_damage(&current, bob.public_key(), 21),
        Err(BattleError::InputRangeError)
    ));
    let c = alice.get_damage(&current, bob.public_key(), 20).unwrap();
    assert_eq!(bob.decrypt_own(&c), 20);
}

#[test]
fn classify_via_player_matches_thresholds() {
    let (_contract, alice, _bob) = setup();
    let rt = alice.runtime();
    let pk = alice.public_key();
    assert_eq!(alice.get_state(&rt.encrypt(1, pk)), PlayerState::Alive);
    assert_eq!(alice.get_state(&rt.encrypt(0, pk)), PlayerState::Dead);
    assert_eq!(alice.get_state(&rt.encrypt(-10, pk)), PlayerState::Dead);
    assert_eq!(alice.get_state(&rt.encrypt(-11, pk)), PlayerState::Reborn);
}

#[test]
fn end_to_end_single_survivor() {
    let (mut contract, alice, bob) = minted();
    let moves = vec![(25, 15)];
    let outcome = contract.battle(&alice, &bob, 30, 20, &moves);
    assert_eq!(outcome, Ok(MatchOutcome::AliceWins));
    assert_eq!(record_values(&contract, &alice, "Alice"), (400, 30, 15));
    assert_eq!(record_values(&contract, &bob, "Bob"), (50, 50, 50));
}

#[test]
fn boundary_draw_leaves_both_totals_unchanged() {
    let (mut contract, alice, bob) = minted();
    // Both commit 10 and both deal their full 10: both land exactly on 0,
    // the dead boundary, so the match is a draw and neither record moves.
    let moves = vec![(10, 10)];
    let outcome = contract.battle(&alice, &bob, 10, 10, &moves);
    assert_eq!(outcome, Ok(MatchOutcome::Draw));
    assert_eq!(record_values(&contract, &alice, "Alice"), (50, 50, 50));
    assert_eq!(record_values(&contract, &bob, "Bob"), (50, 50, 50));
}

#[test]
fn exactly_minus_ten_is_dead_not_reborn_in_a_match() {
    let (mut contract, alice, bob) = minted();
    // Bob commits 20 and hits Alice for all of it: Alice lands exactly on
    // 10 - 20 = -10, which is dead — not reborn — so Bob wins outright.
    let moves = vec![(1, 20)];
    assert_eq!(
        contract.battle(&alice, &bob, 10, 20, &moves),
        Ok(MatchOutcome::BobWins)
    );
    // Bob's growth: (50 - 20)^2 = 900; his current stays at 20 - 1 = 19.
    assert_eq!(record_values(&contract, &bob, "Bob"), (900, 20, 19));
    assert_eq!(record_values(&contract, &alice, "Alice"), (50, 50, 50));
}

#[test]
fn reborn_resets_and_the_match_continues() {
    let (mut contract, alice, bob) = minted();
    // Bob falls to -11 in the first round: reborn, not dead, so one scripted
    // round alone does not finish the match and nothing is persisted.
    let first_round_only = vec![(23, 5)];
    assert_eq!(
        contract.battle(&alice, &bob, 30, 12, &first_round_only),
        Ok(MatchOutcome::Unfinished)
    );
    assert_eq!(record_values(&contract, &bob, "Bob"), (50, 50, 50));
    // With the reset back to the commitment of 12, a second-round hit of 12
    // lands Bob exactly on 0: dead, and Alice survives on 24.
    let both_rounds = vec![(23, 5), (12, 1)];
    assert_eq!(
        contract.battle(&alice, &bob, 30, 12, &both_rounds),
        Ok(MatchOutcome::AliceWins)
    );
    assert_eq!(record_values(&contract, &alice, "Alice"), (400, 30, 24));
    assert_eq!(record_values(&contract, &bob, "Bob"), (50, 50, 50));
}

#[test]
fn committing_everything_can_exhaust_the_winner() {
    let (mut contract, alice, bob) = minted();
    let moves = vec![(20, 1)];
    assert_eq!(
        contract.battle(&alice, &bob, 50, 20, &moves),
        Ok(MatchOutcome::AliceWins)
    );
    // Growth of a full commitment: (50 - 50)^2 = 0.
    assert_eq!(record_values(&contract, &alice, "Alice"), (0, 50, 49));
    let again = vec![(1, 1)];
    assert_eq!(
        contract.battle(&alice, &bob, 1, 1, &again),
        Err(BattleError::TotalPowerExhausted)
    );
    assert_eq!(record_values(&contract, &alice, "Alice"), (0, 50, 49));
}

#[test]
fn out_of_range_script_values_abort_without_persisting() {
    let (mut contract, alice, bob) = minted();
    assert_eq!(
        contract.battle(&alice, &bob, 0, 10, &vec![(1, 1)]),
        Err(BattleError::InputRangeError)
    );
    assert_eq!(
        contract.battle(&alice, &bob, 51, 10, &vec![(1, 1)]),
        Err(BattleError::InputRangeError)
    );
    // Mid-match: Alice may deal at most her current power of 10.
    assert_eq!(
        contract.battle(&alice, &bob, 10, 10, &vec![(11, 1)]),
        Err(BattleError::InputRangeError)
    );
    assert_eq!(record_values(&contract, &alice, "Alice"), (50, 50, 50));
    assert_eq!(record_values(&contract, &bob, "Bob"), (50, 50, 50));
}

#[test]
fn empty_script_is_unfinished_and_changes_nothing() {
    let (mut contract, alice, bob) = minted();
    assert_eq!(
        contract.battle(&alice, &bob, 30, 20, &vec![]),
        Ok(MatchOutcome::Unfinished)
    );
    assert_eq!(record_values(&contract, &alice, "Alice"), (50, 50, 50));
    assert_eq!(record_values(&contract, &bob, "Bob"), (50, 50, 50));
}

#[test]
fn repeated_growth_eventually_overflows_fatally() {
    let (mut contract, alice, bob) = minted();
    // Alice commits 2 and wins each match with a single one-point exchange;
    // her total squares (minus the margin) every time until the growth
    // circuit's result can no longer be represented.
    let moves = vec![(1, 1)];
    let mut expected: i64 = 50;
    for _ in 0i32..3i32 {
        assert_eq!(
            contract.battle(&alice, &bob, 2, 1, &moves),
            Ok(MatchOutcome::AliceWins)
        );
        expected = (expected - 2) * (expected - 2);
        assert_eq!(record_values(&contract, &alice, "Alice"), (expected, 2, 1));
    }
    assert_eq!(
        contract.battle(&alice, &bob, 2, 1, &moves),
        Err(BattleError::CryptoRuntimeFailure)
    );
    // The fatal failure aborts the match before anything is persisted.
    assert_eq!(record_values(&contract, &alice, "Alice"), (expected, 2, 1));
    assert_eq!(record_values(&contract, &bob, "Bob"), (50, 50, 50));
}
