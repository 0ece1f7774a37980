use argon2::password_hash::{PasswordHash, PasswordHasher, PasswordVerifier, SaltString};
use argon2::Argon2;
use vstd::prelude::*;

verus! {

/// Width in bytes of every stored password hash.
pub const HASH_WIDTH: usize = 128;

/// Whether argon2 accepts `password` against the encoded hash string `phc`.
pub uninterp spec fn argon2_accepts(phc: Seq<u8>, password: Seq<u8>) -> bool;

/// Longest password, in bytes, that argon2 hashes.
pub const MAX_PASSWORD_LEN: usize = 0xffff_ffff;

/// Relies on `password_hash::SaltString::generate` (a fresh 16-byte random
/// salt drawn from rand's `OsRng`) and `argon2::Argon2::hash_password` with
/// default parameters. Hashing fails only on a password longer than
/// `MAX_PASSWORD_LEN` or a salt outside 8 bytes and up, so with a generated
/// salt it succeeds on every other password. The encoded string is ASCII,
/// `$argon2id$v=19$m=19456,t=2,p=1$<22-char salt>$<43-char digest>`
/// (97 bytes), so it fits `HASH_WIDTH` and ends in a non-zero byte. It is one
/// that `verify_password` accepts for the same password, since verification
/// recomputes the digest with the salt and parameters written in it.
#[verifier::external_body]
fn argon2_hash(password: &[u8]) -> (r: Option<Vec<u8>>)
    ensures
        password@.len() <= MAX_PASSWORD_LEN ==> r is Some,
        r matches Some(phc) ==> {
            &&& argon2_accepts(phc@, password@)
            &&& 0 < phc@.len() <= HASH_WIDTH
            &&& phc@.last() != 0
        },
{
    let salt = SaltString::generate(&mut rand::rngs::OsRng);
    match Argon2::default().hash_password(password, &salt) {
        Ok(h) => Some(h.to_string().into_bytes()),
        Err(_) => None,
    }
}

/// Relies on `PasswordHash::new` and `argon2::Argon2::verify_password`:
/// whether the password matches the encoded hash; an encoding that does not
/// parse is never a match.
#[verifier::external_body]
fn argon2_verify(phc: &[u8], password: &[u8]) -> (r: bool)
    ensures
        r == argon2_accepts(phc@, password@),
{
    match std::str::from_utf8(phc) {
        Ok(s) => match PasswordHash::new(s) {
            Ok(h) => Argon2::default().verify_password(password, &h).is_ok(),
            Err(_) => false,
        },
        Err(_) => false,
    }
}

/// The bytes left once the trailing filler bytes (zeros) are removed.
pub open spec fn unpadded(s: Seq<u8>) -> Seq<u8>
    decreases s.len(),
{
    if s.len() > 0 && s.last() == 0 {
        unpadded(s.drop_last())
    } else {
        s
    }
}

/// `s` right-padded with zeros to the storage width.
pub open spec fn padded(s: Seq<u8>) -> Seq<u8> {
    s + Seq::new((HASH_WIDTH - s.len()) as nat, |i: int| 0u8)
}

/// An encoded hash that fits the storage width and survives padding.
pub open spec fn fits_width(phc: Seq<u8>) -> bool {
    0 < phc.len() <= HASH_WIDTH && phc.last() != 0
}

/// `blob` is the padded encoding of a hash of `password`.
pub open spec fn is_hash_of(blob: Seq<u8>, password: Seq<u8>) -> bool {
    exists|phc: Seq<u8>| fits_width(phc) && argon2_accepts(phc, password) && blob == padded(phc)
}

/// What `verify` answers for a stored blob and a candidate password.
pub open spec fn hash_matches(blob: Seq<u8>, password: Seq<u8>) -> bool {
    argon2_accepts(unpadded(blob), password)
}

/// The encoded hash of the super-user's password.
pub open spec fn admin_phc() -> Seq<u8> {
    seq![
        36u8, 97u8, 114u8, 103u8, 111u8, 110u8, 50u8, 105u8, 100u8, 36u8, 118u8, 61u8, 49u8, 57u8, 36u8, 109u8,
        61u8, 54u8, 53u8, 53u8, 51u8, 54u8, 44u8, 116u8, 61u8, 50u8, 44u8, 112u8, 61u8, 49u8, 36u8, 56u8,
        55u8, 81u8, 104u8, 72u8, 69u8, 100u8, 71u8, 51u8, 113u8, 120u8, 67u8, 118u8, 82u8, 105u8, 56u8, 65u8,
        115u8, 110u8, 85u8, 43u8, 65u8, 36u8, 78u8, 118u8, 68u8, 68u8, 53u8, 83u8, 89u8, 79u8, 109u8, 78u8,
        118u8, 68u8, 66u8, 74u8, 71u8, 88u8, 70u8, 109u8, 73u8, 87u8, 114u8, 98u8, 83u8, 99u8, 118u8, 69u8,
        56u8, 115u8, 110u8, 75u8, 116u8, 106u8, 104u8, 119u8, 72u8, 48u8, 56u8, 54u8, 111u8, 112u8, 99u8, 112u8,
        111u8,
    ]
}

/// The super-user's encoded hash, as stored (without filler).
pub fn admin_hash() -> (r: Vec<u8>)
    ensures
        r@ == admin_phc(),
{
    let r = vec![
        36u8, 97u8, 114u8, 103u8, 111u8, 110u8, 50u8, 105u8, 100u8, 36u8, 118u8, 61u8, 49u8, 57u8, 36u8, 109u8,
        61u8, 54u8, 53u8, 53u8, 51u8, 54u8, 44u8, 116u8, 61u8, 50u8, 44u8, 112u8, 61u8, 49u8, 36u8, 56u8,
        55u8, 81u8, 104u8, 72u8, 69u8, 100u8, 71u8, 51u8, 113u8, 120u8, 67u8, 118u8, 82u8, 105u8, 56u8, 65u8,
        115u8, 110u8, 85u8, 43u8, 65u8, 36u8, 78u8, 118u8, 68u8, 68u8, 53u8, 83u8, 89u8, 79u8, 109u8, 78u8,
        118u8, 68u8, 66u8, 74u8, 71u8, 88u8, 70u8, 109u8, 73u8, 87u8, 114u8, 98u8, 83u8, 99u8, 118u8, 69u8,
        56u8, 115u8, 110u8, 75u8, 116u8, 106u8, 104u8, 119u8, 72u8, 48u8, 56u8, 54u8, 111u8, 112u8, 99u8, 112u8,
        111u8,
    ];
    assert(r@ =~= admin_phc());
    r
}

/// Removes the trailing filler bytes of a stored hash.
pub fn strip_padding(blob: &[u8]) -> (r: Vec<u8>)
    ensures
        r@ == unpadded(blob@),
{
    let mut end: usize = blob.len();
    assert(blob@.subrange(0, end as int) =~= blob@);
    while end > 0 && blob[end - 1] == 0
        invariant
            end <= blob@.len(),
            unpadded(blob@.subrange(0, end as int)) == unpadded(blob@),
        decreases end,
    {
        assert(blob@.subrange(0, end as int).drop_last() =~= blob@.subrange(0, end - 1));
        end = end - 1;
    }
    let mut r: Vec<u8> = Vec::new();
    let mut i: usize = 0;
    while i < end
        invariant
            i <= end <= blob@.len(),
            r@ =~= blob@.subrange(0, i as int),
        decreases end - i,
    {
        r.push(blob[i]);
        i = i + 1;
    }
    r
}

/// Hashes `password` with a fresh random salt and pads the encoding to
/// `HASH_WIDTH` bytes. `None` only for a password longer than
/// `MAX_PASSWORD_LEN`.
pub fn padded_hash(password: &[u8]) -> (r: Option<Vec<u8>>)
    ensures
        password@.len() <= MAX_PASSWORD_LEN <==> r is Some,
        r matches Some(blob) ==> blob@.len() == HASH_WIDTH && is_hash_of(blob@, password@),
{
    if password.len() > MAX_PASSWORD_LEN {
        return None;
    }
    let phc = match argon2_hash(password) {
        Some(p) => p,
        None => return None,
    };
    let n = phc.len();
    let ghost p = phc@;
    let mut blob = phc;
    while blob.len() < HASH_WIDTH
        invariant
            n == p.len(),
            n <= blob@.len() <= HASH_WIDTH,
            blob@ =~= p + Seq::new((blob@.len() - n) as nat, |i: int| 0u8),
        decreases HASH_WIDTH - blob.len(),
    {
        blob.push(0);
    }
    assert(blob@ =~= padded(p));
    Some(blob)
}

/// Stripping the filler from an encoding followed by `k` zeros gives the
/// encoding back, when the encoding does not itself end in a zero.
pub proof fn lemma_unpadded_restores(phc: Seq<u8>, k: nat)
    requires
        phc.len() > 0,
        phc.last() != 0,
    ensures
        unpadded(phc + Seq::new(k, |i: int| 0u8)) == phc,
    decreases k,
{
    let s = phc + Seq::new(k, |i: int| 0u8);
    if k == 0 {
        assert(s =~= phc);
    } else {
        assert(s.drop_last() =~= phc + Seq::new((k - 1) as nat, |i: int| 0u8));
        lemma_unpadded_restores(phc, (k - 1) as nat);
    }
}

/// A freshly generated hash of a password always verifies against that same
/// password.
pub proof fn lemma_generated_hash_verifies(blob: Seq<u8>, password: Seq<u8>)
    requires
        is_hash_of(blob, password),
    ensures
        hash_matches(blob, password),
{
    let phc = choose|phc: Seq<u8>|
        fits_width(phc) && argon2_accepts(phc, password) && blob == padded(phc);
    lemma_unpadded_restores(phc, (HASH_WIDTH - phc.len()) as nat);
}

/// Whether `password` matches the stored, padded hash `blob`.
pub fn verify(blob: &[u8], password: &[u8]) -> (r: bool)
    ensures
        r == hash_matches(blob@, password@),
{
    let phc = strip_padding(blob);
    argon2_verify(phc.as_slice(), password)
}

} // verus!
