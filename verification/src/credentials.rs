//! Password hashes and session tokens.

use argon2::password_hash::{PasswordHash, PasswordHasher, PasswordVerifier, SaltString};
use argon2::Argon2;
use rand::rngs::OsRng;
use rand::RngCore;
use vstd::prelude::*;

use crate::text::hex_text;

verus! {

/// The longest password that Argon2 takes, in bytes.
pub const MAX_PASSWORD_BYTES: usize = 0xffff_ffff;

/// The number that decimal digits stand for.
pub open spec fn decimal_value(digits: Seq<char>) -> nat
    decreases digits.len(),
{
    if digits.len() == 0 {
        0
    } else {
        10 * decimal_value(digits.drop_last()) + (digits.last() as nat - '0' as nat) as nat
    }
}

/// Whether one parameter of a PHC string asks for a degree of parallelism whose eightfold, a
/// number that Argon2 computes, is more than a `u32` holds.
pub open spec fn lanes_overflow(parameter: Seq<char>) -> bool {
    let digits = parameter.skip(2);
    &&& "p="@.is_prefix_of(parameter)
    &&& forall|i: int| 0 <= i < digits.len() ==> '0' <= #[trigger] digits[i] <= '9'
    &&& 0x2000_0000 <= decimal_value(digits) <= u32::MAX
}

/// Which field of a PHC string holds its parameters: the one behind the version, or behind the
/// algorithm where there is no version.
pub open spec fn parameter_field(fields: Seq<Seq<char>>) -> int {
    if fields.len() > 2 && "v="@.is_prefix_of(fields[2]) && !fields[2].contains(',') {
        3
    } else {
        2
    }
}

/// Whether Argon2 can compute with the parameters in the PHC string `hash`. They come to be used
/// only where exactly a salt and a hash follow them. Any other text is refused before anything is
/// computed, or names no parameters and is computed with the default ones.
pub open spec fn phc_computable(hash: Seq<char>) -> bool {
    let fields = crate::text::pieces(hash, '$');
    let at = parameter_field(fields);
    fields.len() == at + 3 ==> forall|i: int|
        0 <= i < crate::text::pieces(fields[at], ',').len() ==> !lanes_overflow(
            #[trigger] crate::text::pieces(fields[at], ',')[i],
        )
}

/// What Argon2 finds when it holds `password` against the PHC string `hash`: whether they match,
/// or `None` if `hash` is no PHC string.
pub uninterp spec fn argon2_match(hash: Seq<char>, password: Seq<u8>) -> Option<bool>;

/// `PasswordHash::new` of password-hash, then `verify_password` of `Argon2::default()`: the
/// answer depends on the two arguments alone. It is `None` where the first refuses to parse
/// `hash`, and otherwise says whether the second accepts. Parameters on which it would overflow
/// are left out; the memory that the others ask for is taken for granted.
#[verifier::external_body]
pub(crate) fn check_password(hash: &str, password: &[u8]) -> (r: Option<bool>)
    requires
        phc_computable(hash@),
    ensures
        r == argon2_match(hash@, password@),
{
    match PasswordHash::new(hash) {
        Ok(parsed) => Some(Argon2::default().verify_password(password, &parsed).is_ok()),
        Err(_) => None,
    }
}

/// How a hash made with the default parameters begins.
pub const HASH_PREFIX: &'static str = "$argon2id$v=19$m=19456,t=2,p=1$";

/// Whether `c` is a digit of unpadded Base64.
pub open spec fn base64_digit(c: char) -> bool {
    'A' <= c <= 'Z' || 'a' <= c <= 'z' || '0' <= c <= '9' || c == '+' || c == '/'
}

/// What a salt looks like: 16 bytes in unpadded Base64, which leaves the last of the 22 digits
/// two bits.
pub open spec fn salt_shaped(s: Seq<char>) -> bool {
    &&& s.len() == 22
    &&& forall|i: int| 0 <= i < s.len() ==> base64_digit(#[trigger] s[i])
    &&& s[21] == 'A' || s[21] == 'Q' || s[21] == 'g' || s[21] == 'w'
}

/// `SaltString::generate` of password-hash on rand's `OsRng`: 16 random bytes in unpadded Base64.
/// Nothing is claimed of the bytes. It needs an operating system that has a random source.
#[verifier::external_body]
fn random_salt() -> (r: String)
    ensures
        salt_shaped(r@),
{
    SaltString::generate(&mut OsRng).to_string()
}

/// The PHC string that Argon2 with its default parameters makes of `password` and `salt`.
pub uninterp spec fn argon2_phc(password: Seq<u8>, salt: Seq<char>) -> Seq<char>;

/// `hash_password` of `Argon2::default()` with the salt that `SaltString::from_b64` reads, written
/// as a PHC string: it depends on the two arguments alone. The algorithm, its parameters and the
/// salt stand in front, and `verify_password` accepts the hash for this password. Argon2 refuses
/// longer passwords.
#[verifier::external_body]
fn argon2_hash(password: &[u8], salt: &str) -> (r: String)
    requires
        password@.len() <= MAX_PASSWORD_BYTES,
        salt_shaped(salt@),
    ensures
        r@ == argon2_phc(password@, salt@),
        (HASH_PREFIX@ + salt@ + "$"@).is_prefix_of(r@),
        argon2_match(r@, password@) == Some(true),
{
    let salt = SaltString::from_b64(salt).expect("reading salt");
    Argon2::default().hash_password(password, &salt).expect("hashing password").to_string()
}

/// Whether `hash` was made of `password` and `salt`: it begins with the algorithm, the parameters
/// and the salt, and matches the password.
pub open spec fn made_of(hash: Seq<char>, password: Seq<u8>, salt: Seq<char>) -> bool {
    &&& salt_shaped(salt)
    &&& hash == argon2_phc(password, salt)
    &&& (HASH_PREFIX@ + salt + "$"@).is_prefix_of(hash)
    &&& argon2_match(hash, password) == Some(true)
}

/// Hashes `password` with Argon2id and the given salt.
pub fn hash_with_salt(password: &str, salt: &str) -> (r: String)
    requires
        vstd::utf8::encode_utf8(password@).len() <= MAX_PASSWORD_BYTES,
        salt_shaped(salt@),
    ensures
        made_of(r@, vstd::utf8::encode_utf8(password@), salt@),
        phc_computable(r@),
{
    let r = argon2_hash(password.as_bytes(), salt);
    proof {
        default_parameters_are_computable(r@, salt@);
    }
    r
}

/// Hashes `password` with Argon2id and a fresh random salt.
pub fn hash_password(password: &str) -> (r: String)
    requires
        vstd::utf8::encode_utf8(password@).len() <= MAX_PASSWORD_BYTES,
    ensures
        exists|salt: Seq<char>| #[trigger]
            made_of(r@, vstd::utf8::encode_utf8(password@), salt),
        argon2_match(r@, vstd::utf8::encode_utf8(password@)) == Some(true),
        phc_computable(r@),
{
    let salt = random_salt();
    hash_with_salt(password, salt.as_str())
}

proof fn default_parameters_are_computable(hash: Seq<char>, salt: Seq<char>)
    requires
        (HASH_PREFIX@ + salt + "$"@).is_prefix_of(hash),
    ensures
        phc_computable(hash),
{
    reveal_strlit("$argon2id$v=19$m=19456,t=2,p=1$");
    reveal_strlit("argon2id");
    reveal_strlit("v=19");
    reveal_strlit("m=19456,t=2,p=1");
    reveal_strlit("m=19456");
    reveal_strlit("t=2");
    reveal_strlit("p=1");
    reveal_strlit("v=");
    reveal_strlit("p=");
    let empty = Seq::<char>::empty();
    let rest3 = hash.skip(31);
    let rest2 = "m=19456,t=2,p=1"@.push('$') + rest3;
    let rest1 = "v=19"@.push('$') + rest2;
    let rest0 = "argon2id"@.push('$') + rest1;
    assert(HASH_PREFIX@.len() == 31);
    assert(HASH_PREFIX@.is_prefix_of(hash)) by {
        assert((HASH_PREFIX@ + salt + "$"@).take(31) =~= HASH_PREFIX@);
    }
    assert(HASH_PREFIX@ =~= empty.push('$') + "argon2id"@.push('$') + "v=19"@.push('$')
        + "m=19456,t=2,p=1"@.push('$'));
    assert(hash =~= HASH_PREFIX@ + rest3);
    assert(hash =~= empty.push('$') + rest0);
    crate::text::pieces_around(empty, '$', rest0);
    crate::text::pieces_around("argon2id"@, '$', rest1);
    crate::text::pieces_around("v=19"@, '$', rest2);
    crate::text::pieces_around("m=19456,t=2,p=1"@, '$', rest3);
    crate::text::pieces_of_one(empty, '$');
    crate::text::pieces_of_one("argon2id"@, '$');
    crate::text::pieces_of_one("v=19"@, '$');
    crate::text::pieces_of_one("m=19456,t=2,p=1"@, '$');
    let fields = crate::text::pieces(hash, '$');
    assert(fields[2] == "v=19"@);
    assert(fields[3] == "m=19456,t=2,p=1"@);
    assert(!"v=19"@.contains(','));
    assert("m=19456,t=2,p=1"@ =~= "m=19456"@.push(',') + ("t=2"@.push(',') + "p=1"@));
    crate::text::pieces_around("m=19456"@, ',', "t=2"@.push(',') + "p=1"@);
    crate::text::pieces_around("t=2"@, ',', "p=1"@);
    crate::text::pieces_of_one("m=19456"@, ',');
    crate::text::pieces_of_one("t=2"@, ',');
    crate::text::pieces_of_one("p=1"@, ',');
    let parameters = crate::text::pieces(fields[3], ',');
    assert(parameters =~= seq!["m=19456"@, "t=2"@, "p=1"@]);
    assert("p=1"@.skip(2) =~= seq!['1']);
    assert(seq!['1'].drop_last() =~= empty);
    reveal_with_fuel(decimal_value, 2);
    assert(decimal_value("p=1"@.skip(2)) == 1);
    assert("m=19456"@[0] != "p="@[0] && "t=2"@[0] != "p="@[0]);
}

/// Every hash that is made begins with the same algorithm and parameters, so that checking any of
/// them takes the same work.
pub proof fn hash_begins_with_its_parameters(hash: Seq<char>, password: Seq<u8>)
    requires
        exists|salt: Seq<char>| #[trigger] made_of(hash, password, salt),
    ensures
        HASH_PREFIX@.is_prefix_of(hash),
{
    let salt = choose|salt: Seq<char>| #[trigger] made_of(hash, password, salt);
    let n = HASH_PREFIX@.len() as int;
    assert((HASH_PREFIX@ + salt + "$"@).take(n) =~= HASH_PREFIX@);
}

/// Two hashes of one password with different salts are different, and both match the password.
pub proof fn salts_keep_hashes_apart(
    password: Seq<u8>,
    salt: Seq<char>,
    hash: Seq<char>,
    other_salt: Seq<char>,
    other_hash: Seq<char>,
)
    requires
        made_of(hash, password, salt),
        made_of(other_hash, password, other_salt),
        salt != other_salt,
    ensures
        hash != other_hash,
        argon2_match(hash, password) == Some(true),
        argon2_match(other_hash, password) == Some(true),
{
    let n = HASH_PREFIX@.len() as int;
    let text = HASH_PREFIX@ + salt + "$"@;
    let other_text = HASH_PREFIX@ + other_salt + "$"@;
    assert(text.subrange(n, n + 22) =~= salt);
    assert(other_text.subrange(n, n + 22) =~= other_salt);
    if hash == other_hash {
        assert(hash.subrange(n, n + 22) =~= text.subrange(n, n + 22));
        assert(hash.subrange(n, n + 22) =~= other_text.subrange(n, n + 22));
    }
}

/// Whether `c` is a lower-case hexadecimal digit.
pub open spec fn lower_hex(c: char) -> bool {
    '0' <= c <= '9' || 'a' <= c <= 'f'
}

/// What a session token looks like: 64 lower-case hexadecimal digits, 256 bits in all.
pub open spec fn token_shaped(s: Seq<char>) -> bool {
    &&& s.len() == 64
    &&& forall|i: int| 0 <= i < s.len() ==> lower_hex(#[trigger] s[i])
}

/// `fill_bytes` of rand's `OsRng`, which fills the array with bytes from the operating system's
/// random source. Nothing is claimed of them. It needs an operating system that has such a source.
#[verifier::external_body]
fn random_bytes() -> (r: [u8; 32]) {
    let mut bytes = [0u8; 32];
    OsRng.fill_bytes(&mut bytes);
    bytes
}

/// Writes random bytes as a session token.
pub fn token_from(bytes: &[u8; 32]) -> (r: String)
    ensures
        r@ == crate::text::hex(bytes@),
        token_shaped(r@),
{
    proof {
        hex_digits(bytes@);
    }
    hex_text(bytes.as_slice())
}

/// A fresh session token from 256 random bits.
pub fn new_token() -> (r: String)
    ensures
        token_shaped(r@),
{
    token_from(&random_bytes())
}

proof fn hex_digit_facts(d: nat)
    requires
        d < 16,
    ensures
        lower_hex(crate::text::hex_digit(d)),
        forall|e: nat|
            e < 16 && #[trigger] crate::text::hex_digit(e) == crate::text::hex_digit(d) ==> e == d,
{
}

pub(crate) proof fn hex_digits(bytes: Seq<u8>)
    ensures
        crate::text::hex(bytes).len() == 2 * bytes.len(),
        forall|i: int|
            0 <= i < crate::text::hex(bytes).len() ==> lower_hex(
                #[trigger] crate::text::hex(bytes)[i],
            ),
    decreases bytes.len(),
{
    if bytes.len() > 0 {
        hex_digits(bytes.drop_last());
        hex_digit_facts(bytes.last() as nat / 16);
        hex_digit_facts(bytes.last() as nat % 16);
    }
}

/// Different random bytes give different tokens: writing them in hexadecimal loses none of their
/// bits.
pub proof fn tokens_keep_every_bit(a: Seq<u8>, b: Seq<u8>)
    requires
        crate::text::hex(a) == crate::text::hex(b),
    ensures
        a == b,
    decreases a.len(),
{
    hex_digits(a);
    hex_digits(b);
    if a.len() > 0 {
        let text = crate::text::hex(a);
        let n = text.len() as int;
        assert(text.drop_last().drop_last() =~= crate::text::hex(a.drop_last()));
        assert(text.drop_last().drop_last() =~= crate::text::hex(b.drop_last()));
        tokens_keep_every_bit(a.drop_last(), b.drop_last());
        assert(text[n - 1] == crate::text::hex_digit(a.last() as nat % 16));
        assert(text[n - 1] == crate::text::hex_digit(b.last() as nat % 16));
        assert(text[n - 2] == crate::text::hex_digit(a.last() as nat / 16));
        assert(text[n - 2] == crate::text::hex_digit(b.last() as nat / 16));
        hex_digit_facts(a.last() as nat / 16);
        hex_digit_facts(a.last() as nat % 16);
        assert(a.last() == b.last());
        assert(a =~= a.drop_last().push(a.last()));
        assert(b =~= b.drop_last().push(b.last()));
    } else {
        assert(a =~= b);
    }
}

/// A hash that is made says how: it begins with the algorithm Argon2id, its version and
/// parameters, and the salt. It is what Argon2 makes of the whole password, and matches it.
pub proof fn made_hash_says_how(hash: Seq<char>, password: Seq<u8>, salt: Seq<char>)
    requires
        made_of(hash, password, salt),
    ensures
        salt.len() == 22,
        hash == argon2_phc(password, salt),
        argon2_match(hash, password) == Some(true),
        hash.len() > 53,
        hash.take(31) == "$argon2id$v=19$m=19456,t=2,p=1$"@,
        hash.subrange(31, 53) == salt,
        hash[53] == '$',
{
    reveal_strlit("$argon2id$v=19$m=19456,t=2,p=1$");
    reveal_strlit("$");
    let text = HASH_PREFIX@ + salt + "$"@;
    assert(text.len() == 54);
    assert(forall|i: int| 0 <= i < text.len() ==> #[trigger] text[i] == hash[i]) by {
        assert(text == hash.subrange(0, text.len() as int));
    }
    assert(hash.take(31) =~= text.take(31));
    assert(text.take(31) =~= HASH_PREFIX@);
    assert(hash.subrange(31, 53) =~= text.subrange(31, 53));
    assert(text.subrange(31, 53) =~= salt);
    assert(text[53] == '$');
}

/// A token is 64 characters long, and each is one of `0` to `9` and `a` to `f`.
pub proof fn token_is_lower_case_hex(token: Seq<char>, i: int)
    requires
        token_shaped(token),
        0 <= i < 64,
    ensures
        token.len() == 64,
        '0' <= token[i] <= '9' || 'a' <= token[i] <= 'f',
{
    assert(lower_hex(token[i]));
}

/// A salt is 22 characters long, each a digit of Base64, and the last is one of the four that stand
/// for two bits followed by zeros.
pub proof fn salt_is_base64(salt: Seq<char>, i: int)
    requires
        salt_shaped(salt),
        0 <= i < 22,
    ensures
        salt.len() == 22,
        'A' <= salt[i] <= 'Z' || 'a' <= salt[i] <= 'z' || '0' <= salt[i] <= '9' || salt[i] == '+'
            || salt[i] == '/',
        salt[21] == 'A' || salt[21] == 'Q' || salt[21] == 'g' || salt[21] == 'w',
{
    assert(base64_digit(salt[i]));
}

} // verus!
