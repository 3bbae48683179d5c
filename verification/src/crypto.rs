use vstd::prelude::*;
use crate::errors::BattleError;

verus! {

/// Stand-in for the compiled encryption-scheme parameters. The model keeps
/// only an identifier; runtimes built from equal parameters are compatible.
#[derive(Clone, Copy, Debug, PartialEq, Eq, Structural)]
pub struct Params {
    pub id: u64,
}

/// Public half of a party's keypair. The identifier stands in for the
/// sampled key material; distinct parties are given distinct identifiers by
/// whoever generates their keys.
#[derive(Clone, Copy, Debug)]
pub struct PublicKey {
    key_id: u64,
}

impl PublicKey {
    pub closed spec fn id(&self) -> u64 {
        self.key_id
    }
}

/// Private half of a party's keypair; it never leaves the owning party.
#[derive(Clone, Copy, Debug)]
pub struct PrivateKey {
    key_id: u64,
}

impl PrivateKey {
    pub closed spec fn id(&self) -> u64 {
        self.key_id
    }
}

/// A ciphertext of the model runtime: an encrypted integer, opaque to every
/// holder without the matching private key. The fields are private — outside
/// this module nothing reads the plaintext directly; the engine combines
/// ciphertexts only through `Runtime::run`, and a party reads its own values
/// only through `Runtime::decrypt`.
#[derive(Clone, Copy, Debug)]
pub struct Ciphertext {
    plain: i64,
    key_id: u64,
}

impl Ciphertext {
    /// The plaintext this ciphertext stands for.
    pub closed spec fn value(&self) -> int {
        self.plain as int
    }

    /// The key this ciphertext is encrypted under.
    pub closed spec fn key(&self) -> u64 {
        self.key_id
    }
}

/// The two homomorphic circuits the engine is allowed to evaluate.
#[derive(Clone, Copy, Debug, PartialEq, Eq, Structural)]
pub enum FheProgram {
    /// `f(current, damage) = current - damage`
    DealDamage,
    /// `f(total, play) = (total - play) * (total - play)`
    LevelUp,
}

/// What each circuit computes on the plaintexts under the ciphertexts.
pub open spec fn program_eval(program: FheProgram, a: int, b: int) -> int {
    match program {
        FheProgram::DealDamage => a - b,
        FheProgram::LevelUp => (a - b) * (a - b),
    }
}

/// The representable plaintext range of the model runtime.
pub open spec fn fits_i64(v: int) -> bool {
    i64::MIN as int <= v && v <= i64::MAX as int
}

/// Every plaintext a ciphertext stands for lies in the representable range.
pub broadcast proof fn lemma_ciphertext_value_fits(c: Ciphertext)
    ensures
        fits_i64(#[trigger] c.value()),
{
}

/// The largest magnitude whose square still fits the plaintext range.
const MAX_SQUARE_ROOT: i128 = 3037000499;

proof fn lemma_square_fits(d: int)
    requires
        -MAX_SQUARE_ROOT as int <= d && d <= MAX_SQUARE_ROOT as int,
    ensures
        0 <= d * d <= i64::MAX as int,
{
    assert(0 <= d * d <= 3037000499int * 3037000499int) by (nonlinear_arith)
        requires
            -3037000499int <= d && d <= 3037000499int,
    ;
}

proof fn lemma_square_large(d: int)
    requires
        d < -MAX_SQUARE_ROOT as int || d > MAX_SQUARE_ROOT as int,
    ensures
        d * d > i64::MAX as int,
{
    assert(d * d >= 3037000500int * 3037000500int) by (nonlinear_arith)
        requires
            d < -3037000499int || d > 3037000499int,
    ;
}

/// The encryption runtime, modeled. Encryption records the plaintext and the
/// key identity; decryption demands the matching private key; circuit
/// evaluation computes the circuit on the plaintexts and fails — as the real
/// runtime's fixed plaintext modulus would make it fail — when the result
/// leaves the representable range.
#[derive(Clone, Copy, Debug)]
pub struct Runtime {
    params: Params,
}

impl Runtime {
    pub closed spec fn spec_params(&self) -> Params {
        self.params
    }

    pub fn new(params: &Params) -> (r: Runtime)
        ensures
            r.spec_params() == *params,
    {
        Runtime { params: *params }
    }

    /// The parameters this runtime was built from.
    pub fn params(&self) -> (p: &Params)
        ensures
            *p == self.spec_params(),
    {
        &self.params
    }

    /// Generate the keypair for one party. The caller picks the identifier
    /// that stands in for the sampled key material, one per party.
    pub fn generate_keys(&self, key_id: u64) -> (keys: (PublicKey, PrivateKey))
        ensures
            keys.0.id() == key_id,
            keys.1.id() == key_id,
    {
        (PublicKey { key_id }, PrivateKey { key_id })
    }

    /// Encrypt one integer under the given public key.
    pub fn encrypt(&self, value: i64, public_key: &PublicKey) -> (c: Ciphertext)
        ensures
            c.value() == value as int,
            c.key() == public_key.id(),
    {
        Ciphertext { plain: value, key_id: public_key.key_id }
    }

    /// Decrypt a ciphertext with the matching private key. Decrypting under
    /// a key other than the one the ciphertext was produced for is a misuse
    /// the model rules out up front.
    pub fn decrypt(&self, ciphertext: &Ciphertext, private_key: &PrivateKey) -> (v: i64)
        requires
            ciphertext.key() == private_key.id(),
        ensures
            v as int == ciphertext.value(),
    {
        ciphertext.plain
    }

    /// Evaluate a compiled circuit on a list of ciphertexts, all under the
    /// given public key, and return the result ciphertext(s) under that same
    /// key. Both circuits take exactly two inputs and produce one output.
    /// When the plaintext result leaves the representable range the runtime
    /// reports a fatal failure instead of a wrong ciphertext.
    pub fn run(&self, program: &FheProgram, inputs: Vec<Ciphertext>, public_key: &PublicKey) -> (r:
        Result<Vec<Ciphertext>, BattleError>)
        requires
            inputs@.len() == 2,
            inputs@[0].key() == public_key.id(),
            inputs@[1].key() == public_key.id(),
        ensures
            fits_i64(program_eval(*program, inputs@[0].value(), inputs@[1].value())) ==> (r
                matches Ok(out) && out@.len() == 1 && out@[0].value() == program_eval(
                *program,
                inputs@[0].value(),
                inputs@[1].value(),
            ) && out@[0].key() == public_key.id()),
            !fits_i64(program_eval(*program, inputs@[0].value(), inputs@[1].value())) ==> r == Err::<
                Vec<Ciphertext>,
                BattleError,
            >(BattleError::CryptoRuntimeFailure),
    {
        let a = inputs[0].plain;
        let b = inputs[1].plain;
        match *program {
            FheProgram::DealDamage => {
                let wide: i128 = a as i128 - b as i128;
                if wide < i64::MIN as i128 || wide > i64::MAX as i128 {
                    Err(BattleError::CryptoRuntimeFailure)
                } else {
                    Ok(vec![Ciphertext { plain: wide as i64, key_id: public_key.key_id }])
                }
            },
            FheProgram::LevelUp => {
                let d: i128 = a as i128 - b as i128;
                if d < -MAX_SQUARE_ROOT || d > MAX_SQUARE_ROOT {
                    proof {
                        lemma_square_large(d as int);
                    }
                    Err(BattleError::CryptoRuntimeFailure)
                } else {
                    proof {
                        lemma_square_fits(d as int);
                    }
                    let square: i128 = d * d;
                    Ok(vec![Ciphertext { plain: square as i64, key_id: public_key.key_id }])
                }
            },
        }
    }
}

} // verus!
