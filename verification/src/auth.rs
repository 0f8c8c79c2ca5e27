//! Local membership rules: login identifiers, display names, password limits,
//! opaque session tokens, the accepted password-hash policy and the freshness
//! rules that gate credential changes. Persistence and hashing threads stay
//! outside; every decision they need is a function here.
use crate::text::{
    chars_eq_str, chars_of, has_no_control, is_ascii_alnum, is_ascii_digit, lower_chars, lower_seq,
    no_control, string_of, trim, trim_chars, utf8_len, utf8_len_at_most,
};
use argon2::password_hash::{PasswordHash, PasswordHasher, PasswordVerifier, SaltString};
use rand::RngCore;
use sha2::Digest;
use vstd::prelude::*;

verus! {

pub const PASSWORD_MIN_CHARS: usize = 15;

pub const PASSWORD_MAX_CHARS: usize = 128;

pub const PASSWORD_MAX_BYTES: usize = 512;

pub const ARGON_MEMORY_KIB: u32 = 19_456;

pub const ARGON_ITERATIONS: u32 = 2;

pub const ARGON_LANES: u32 = 1;

pub const ARGON_OUTPUT_BYTES: usize = 32;

pub const SESSION_DAYS: i64 = 30;

pub const LOGIN_ATTEMPTS: i32 = 12;

pub const PASSWORD_CHANGE_ATTEMPTS: i32 = 8;

/// Fifteen minutes in microseconds: how recent an authentication must be.
pub const FRESH_WINDOW_MICROS: i64 = 900_000_000;

/// Deliberately safe and source-free. SQL errors and submitted secrets are
/// never copied into responses.
#[derive(Clone, Copy, Debug, PartialEq, Eq, Structural)]
pub enum AuthError {
    InvalidLoginId,
    InvalidDisplayName,
    InvalidPassword,
    InvalidCredentials,
    LoginIdTaken,
    CredentialAlreadySet,
    FreshAuthenticationRequired,
    FederatedAuthenticationRequired,
    LastLoginMethod,
    AccountNotFound,
    ConfirmationRequired,
    RateLimited,
    Unauthenticated,
    Unavailable,
}

/// The text `message` gives.
pub open spec fn auth_message(e: AuthError) -> Seq<char> {
    match e {
        AuthError::InvalidLoginId => "아이디는 영문·숫자·밑줄 3~32자로 입력해 주세요."@,
        AuthError::InvalidDisplayName => "표시 이름은 1~64자로 입력해 주세요."@,
        AuthError::InvalidPassword => "비밀번호는 공백을 포함해 15~128자로 입력해 주세요."@,
        AuthError::InvalidCredentials => "아이디 또는 비밀번호를 확인해 주세요."@,
        AuthError::LoginIdTaken => "사용할 수 없는 아이디입니다."@,
        AuthError::CredentialAlreadySet => "이미 아이디와 비밀번호를 등록했습니다."@,
        AuthError::FreshAuthenticationRequired => "안전을 위해 다시 로그인한 뒤 15분 안에 시도해 주세요."@,
        AuthError::FederatedAuthenticationRequired => "이미 연결된 연합 계정으로 다시 인증한 뒤 15분 안에 시도해 주세요."@,
        AuthError::LastLoginMethod => "마지막 로그인 수단입니다. 다른 계정이나 ID와 암호를 먼저 등록해 주세요."@,
        AuthError::AccountNotFound => "연결한 계정을 찾을 수 없습니다."@,
        AuthError::ConfirmationRequired => "탈퇴 확인란에 ‘탈퇴’를 입력해 주세요."@,
        AuthError::RateLimited => "시도가 많습니다. 잠시 후 다시 시도해 주세요."@,
        AuthError::Unauthenticated => "다시 로그인해 주세요."@,
        AuthError::Unavailable => "지금은 처리할 수 없습니다. 잠시 후 다시 시도해 주세요."@,
    }
}

impl AuthError {
    /// The message shown to members.
    pub fn message(&self) -> (r: &'static str)
        ensures
            r@ == auth_message(*self),
    {
        match self {
            AuthError::InvalidLoginId => "아이디는 영문·숫자·밑줄 3~32자로 입력해 주세요.",
            AuthError::InvalidDisplayName => "표시 이름은 1~64자로 입력해 주세요.",
            AuthError::InvalidPassword => "비밀번호는 공백을 포함해 15~128자로 입력해 주세요.",
            AuthError::InvalidCredentials => "아이디 또는 비밀번호를 확인해 주세요.",
            AuthError::LoginIdTaken => "사용할 수 없는 아이디입니다.",
            AuthError::CredentialAlreadySet => "이미 아이디와 비밀번호를 등록했습니다.",
            AuthError::FreshAuthenticationRequired => "안전을 위해 다시 로그인한 뒤 15분 안에 시도해 주세요.",
            AuthError::FederatedAuthenticationRequired => "이미 연결된 연합 계정으로 다시 인증한 뒤 15분 안에 시도해 주세요.",
            AuthError::LastLoginMethod => "마지막 로그인 수단입니다. 다른 계정이나 ID와 암호를 먼저 등록해 주세요.",
            AuthError::AccountNotFound => "연결한 계정을 찾을 수 없습니다.",
            AuthError::ConfirmationRequired => "탈퇴 확인란에 ‘탈퇴’를 입력해 주세요.",
            AuthError::RateLimited => "시도가 많습니다. 잠시 후 다시 시도해 주세요.",
            AuthError::Unauthenticated => "다시 로그인해 주세요.",
            AuthError::Unavailable => "지금은 처리할 수 없습니다. 잠시 후 다시 시도해 주세요.",
        }
    }
}

pub open spec fn login_char(c: char) -> bool {
    is_ascii_alnum(c) || c == '_'
}

/// A login identifier: 3 to 32 bytes, each an ASCII letter, digit or underscore.
pub open spec fn login_id_ok(s: Seq<char>) -> bool {
    &&& 3 <= utf8_len(s) <= 32
    &&& forall|i: int| 0 <= i < s.len() ==> login_char(#[trigger] s[i])
}

/// Validates a login identifier and returns its lowercase canonical form.
pub fn normalize_login_id(value: &str) -> (r: Result<String, AuthError>)
    ensures
        r is Ok <==> login_id_ok(value@),
        r matches Ok(s) ==> s@ == lower_seq(value@),
        r matches Err(e) ==> e == AuthError::InvalidLoginId,
{
    let v = chars_of(value);
    if !utf8_len_at_most(&v, 32) || utf8_len_at_most(&v, 2) {
        return Err(AuthError::InvalidLoginId);
    }
    let n = v.len();
    let mut i: usize = 0;
    while i < n
        invariant
            i <= n,
            n == v.len(),
            v@ == value@,
            forall|k: int| 0 <= k < i ==> login_char(#[trigger] v@[k]),
        decreases n - i,
    {
        let c = v[i];
        if !(('0' <= c && c <= '9') || ('a' <= c && c <= 'z') || ('A' <= c && c <= 'Z') || c
            == '_') {
            return Err(AuthError::InvalidLoginId);
        }
        i = i + 1;
    }
    let lowered = lower_chars(&v);
    Ok(string_of(&lowered))
}

/// A display name after trimming: 1 to 64 characters, at most 256 bytes, no control character.
pub open spec fn display_name_ok(s: Seq<char>) -> bool {
    let t = trim(s);
    &&& t.len() > 0
    &&& utf8_len(t) <= 256
    &&& t.len() <= 64
    &&& no_control(t)
}

/// Validates a display name and returns it trimmed.
pub fn normalize_display_name(value: &str) -> (r: Result<String, AuthError>)
    ensures
        r is Ok <==> display_name_ok(value@),
        r matches Ok(s) ==> s@ == trim(value@),
        r matches Err(e) ==> e == AuthError::InvalidDisplayName,
{
    let v = chars_of(value);
    let t = trim_chars(&v);
    if t.len() == 0 || !utf8_len_at_most(&t, 256) || t.len() > 64 || !has_no_control(&t) {
        return Err(AuthError::InvalidDisplayName);
    }
    Ok(string_of(&t))
}

/// A password: at most 512 bytes and 15 to 128 characters, never trimmed.
pub open spec fn password_ok(s: Seq<char>) -> bool {
    utf8_len(s) <= PASSWORD_MAX_BYTES && PASSWORD_MIN_CHARS <= s.len() <= PASSWORD_MAX_CHARS
}

pub fn valid_password(password: &str) -> (b: bool)
    ensures
        b == password_ok(password@),
{
    let v = chars_of(password);
    utf8_len_at_most(&v, PASSWORD_MAX_BYTES) && PASSWORD_MIN_CHARS <= v.len() && v.len()
        <= PASSWORD_MAX_CHARS
}

/// A lowercase hexadecimal digit for `n < 16`.
pub open spec fn hex_digit(n: int) -> char {
    if n < 10 {
        (('0' as u32) + n) as char
    } else {
        (('a' as u32) + (n - 10)) as char
    }
}

/// Lowercase hexadecimal encoding, two digits per byte, high nibble first.
pub open spec fn hex_of(bytes: Seq<u8>) -> Seq<char>
    decreases bytes.len(),
{
    if bytes.len() == 0 {
        Seq::empty()
    } else {
        hex_of(bytes.drop_last()) + seq![
            hex_digit((bytes.last() / 16) as int),
            hex_digit((bytes.last() % 16) as int),
        ]
    }
}

pub open spec fn lower_hex_char(c: char) -> bool {
    is_ascii_digit(c) || ('a' <= c && c <= 'f')
}

/// A session token as issued: 64 lowercase hexadecimal digits.
pub open spec fn token_well_formed(s: Seq<char>) -> bool {
    &&& s.len() == 64
    &&& forall|i: int| 0 <= i < s.len() ==> lower_hex_char(#[trigger] s[i])
}

fn hex_digit_char(n: u8) -> (c: char)
    requires
        n < 16,
    ensures
        c == hex_digit(n as int),
{
    let r = if n < 10 {
        (48u8 + n) as char
    } else {
        (97u8 + (n - 10)) as char
    };
    proof {
        vstd::utf8::char_u32_cast(r, r as u32);
    }
    r
}

proof fn lemma_hex_of_len(bytes: Seq<u8>)
    ensures
        hex_of(bytes).len() == 2 * bytes.len(),
    decreases bytes.len(),
{
    if bytes.len() > 0 {
        lemma_hex_of_len(bytes.drop_last());
    }
}

/// The hexadecimal text of `bytes`.
pub fn hex_string(bytes: &[u8]) -> (s: String)
    ensures
        s@ == hex_of(bytes@),
{
    let n = bytes.len();
    let mut v: Vec<char> = Vec::new();
    let mut i: usize = 0;
    while i < n
        invariant
            i <= n,
            n == bytes@.len(),
            v@ == hex_of(bytes@.take(i as int)),
        decreases n - i,
    {
        let b = bytes[i];
        let hi = hex_digit_char(b / 16);
        let lo = hex_digit_char(b % 16);
        v.push(hi);
        v.push(lo);
        proof {
            let t = bytes@.take(i + 1);
            assert(t.drop_last() =~= bytes@.take(i as int));
            assert(t.last() == b);
        }
        i = i + 1;
    }
    proof {
        assert(bytes@.take(n as int) =~= bytes@);
    }
    string_of(&v)
}

/// Every issued token is well formed: hex text of 32 bytes is 64 lowercase hex digits.
pub proof fn lemma_issued_tokens_are_well_formed(bytes: Seq<u8>)
    requires
        bytes.len() == 32,
    ensures
        token_well_formed(hex_of(bytes)),
{
    lemma_hex_of_well_formed(bytes);
    lemma_hex_of_len(bytes);
}

proof fn lemma_hex_of_well_formed(bytes: Seq<u8>)
    ensures
        forall|i: int| 0 <= i < hex_of(bytes).len() ==> lower_hex_char(#[trigger] hex_of(bytes)[i]),
    decreases bytes.len(),
{
    if bytes.len() > 0 {
        lemma_hex_of_well_formed(bytes.drop_last());
        lemma_hex_digit((bytes.last() / 16) as int);
        lemma_hex_digit((bytes.last() % 16) as int);
        let p = hex_of(bytes.drop_last());
        let tail = seq![hex_digit((bytes.last() / 16) as int), hex_digit((bytes.last() % 16) as int)];
        assert forall|i: int| 0 <= i < hex_of(bytes).len() implies lower_hex_char(
            #[trigger] hex_of(bytes)[i],
        ) by {
            if i < p.len() {
                assert(hex_of(bytes)[i] == p[i]);
            } else {
                assert(hex_of(bytes)[i] == tail[i - p.len()]);
            }
        }
    }
}

proof fn lemma_hex_digit(n: int)
    requires
        0 <= n < 16,
    ensures
        lower_hex_char(hex_digit(n)),
{
    let c = hex_digit(n);
    if n < 10 {
        assert((('0' as u32) + n) as u32 == c as u32);
    } else {
        assert((('a' as u32) + (n - 10)) as u32 == c as u32);
    }
}

/// 32 bytes from the operating system's random source.
#[verifier::external_body]
fn random_bytes() -> [u8; 32] {
    let mut bytes = [0u8; 32];
    rand::rngs::OsRng.fill_bytes(&mut bytes);
    bytes
}

/// A fresh 256-bit session token in lowercase hexadecimal.
pub fn new_token() -> (token: String)
    ensures
        token_well_formed(token@),
{
    let bytes = random_bytes();
    let s = hex_string(&bytes);
    proof {
        lemma_issued_tokens_are_well_formed(bytes@);
    }
    s
}

/// SHA-256 of a byte string.
pub uninterp spec fn sha256(data: Seq<u8>) -> Seq<u8>;

/// `sha2::Sha256::digest`: the digest of `data`, which is 32 bytes long.
#[verifier::external_body]
pub(crate) fn sha256_digest(data: &[u8]) -> (r: Vec<u8>)
    ensures
        r@ == sha256(data@),
        r@.len() == 32,
{
    sha2::Sha256::digest(data).to_vec()
}

/// The persisted form of a session token: its SHA-256, only for well-formed tokens.
pub fn token_hash(token: &str) -> (r: Option<Vec<u8>>)
    ensures
        r is Some <==> token_well_formed(token@),
        r matches Some(h) ==> h@ == sha256(vstd::utf8::encode_utf8(token@)) && h@.len() == 32,
{
    let v = chars_of(token);
    if v.len() != 64 {
        return None;
    }
    let mut i: usize = 0;
    while i < 64
        invariant
            i <= 64,
            v.len() == 64,
            v@ == token@,
            forall|k: int| 0 <= k < i ==> lower_hex_char(#[trigger] v@[k]),
        decreases 64 - i,
    {
        let c = v[i];
        if !(('0' <= c && c <= '9') || ('a' <= c && c <= 'f')) {
            return None;
        }
        i = i + 1;
    }
    Some(sha256_digest(token.as_bytes()))
}

/// What the accepted-hash policy reads from a PHC string.
pub struct PhcFields {
    pub algorithm: String,
    pub version: Option<u32>,
    pub memory: Option<u32>,
    pub iterations: Option<u32>,
    pub lanes: Option<u32>,
}

/// The fields that `PasswordHash::new` reads from a PHC string, when it parses.
pub uninterp spec fn phc_fields_of(hash: Seq<char>) -> Option<
    (Seq<char>, Option<u32>, Option<u32>, Option<u32>, Option<u32>),
>;

/// `argon2::password_hash::PasswordHash::new`: parses a PHC string and reads its
/// algorithm, version and the decimal parameters `m`, `t` and `p`.
#[verifier::external_body]
pub(crate) fn read_phc(hash: &str) -> (r: Option<PhcFields>)
    ensures
        match r {
            None => phc_fields_of(hash@) is None,
            Some(f) => phc_fields_of(hash@) == Some(
                (f.algorithm@, f.version, f.memory, f.iterations, f.lanes),
            ),
        },
{
    let h = PasswordHash::new(hash).ok()?;
    Some(
        PhcFields {
            algorithm: h.algorithm.as_str().to_owned(),
            version: h.version,
            memory: h.params.get_decimal("m"),
            iterations: h.params.get_decimal("t"),
            lanes: h.params.get_decimal("p"),
        },
    )
}

/// Only hashes produced by this configuration are accepted, so a corrupt PHC
/// string cannot request unbounded memory or time during verification.
pub open spec fn acceptable_fields(
    f: (Seq<char>, Option<u32>, Option<u32>, Option<u32>, Option<u32>),
) -> bool {
    &&& f.0 == "argon2id"@
    &&& f.1 == Some(19u32)
    &&& f.2 == Some(ARGON_MEMORY_KIB)
    &&& f.3 == Some(ARGON_ITERATIONS)
    &&& f.4 == Some(ARGON_LANES)
}

pub fn acceptable_hash(f: &PhcFields) -> (b: bool)
    ensures
        b == acceptable_fields((f.algorithm@, f.version, f.memory, f.iterations, f.lanes)),
{
    let algorithm = chars_of(f.algorithm.as_str());
    chars_eq_str(&algorithm, "argon2id") && f.version == Some(19u32) && f.memory == Some(
        ARGON_MEMORY_KIB,
    ) && f.iterations == Some(ARGON_ITERATIONS) && f.lanes == Some(ARGON_LANES)
}

/// Whether a stored hash string parses and satisfies the accepted-hash policy.
pub open spec fn known_hash(hash: Seq<char>) -> bool {
    phc_fields_of(hash) is Some && acceptable_fields(phc_fields_of(hash).unwrap())
}

pub fn is_known_hash(hash: &str) -> (b: bool)
    ensures
        b == known_hash(hash@),
{
    match read_phc(hash) {
        Some(f) => acceptable_hash(&f),
        None => false,
    }
}

/// Whether Argon2 verification of `password` against the PHC string `hash` succeeds.
pub uninterp spec fn argon2_accepts(password: Seq<u8>, hash: Seq<char>) -> bool;

/// Parameters with which the Argon2id instance both builds (`Params::new`:
/// memory of at least 8 KiB and 8 KiB per lane, at least one pass, 1 to
/// 2^24 - 1 lanes) and writes a PHC hash (`password_hash::Output` holds 10 to
/// 64 bytes).
pub open spec fn argon2_params_ok(memory: u32, iterations: u32, lanes: u32, output: usize) -> bool {
    &&& 8 <= memory
    &&& 8 * lanes <= memory
    &&& 1 <= iterations
    &&& 1 <= lanes <= 0xFF_FFFF
    &&& 10 <= output <= 64
}

/// `Argon2::verify_password` with an Argon2id (version 19) instance of the
/// given parameters; verification itself uses the parameters recorded in the
/// PHC string. `None` when the PHC string does not parse (then verification
/// cannot succeed).
#[verifier::external_body]
fn argon2_verify(
    password: &[u8],
    hash: &str,
    memory: u32,
    iterations: u32,
    lanes: u32,
    output: usize,
) -> (ok: Option<bool>)
    requires
        argon2_params_ok(memory, iterations, lanes, output),
    ensures
        ok == Some(argon2_accepts(password@, hash@)) || (ok is None && !argon2_accepts(password@, hash@)),
{
    let parsed = PasswordHash::new(hash).ok()?;
    let params = argon2::Params::new(memory, iterations, lanes, Some(output)).ok()?;
    let argon = argon2::Argon2::new(argon2::Algorithm::Argon2id, argon2::Version::V0x13, params);
    Some(argon.verify_password(password, &parsed).is_ok())
}

/// Whether a submitted password matches a stored hash under the policy:
/// the password is within the limits, the stored hash is an accepted Argon2id
/// hash, and Argon2 verification succeeds.
pub open spec fn password_matches(password: Seq<char>, stored: Option<Seq<char>>) -> bool {
    &&& utf8_len(password) <= PASSWORD_MAX_BYTES
    &&& password.len() <= PASSWORD_MAX_CHARS
    &&& stored is Some
    &&& known_hash(stored.unwrap())
    &&& argon2_accepts(vstd::utf8::encode_utf8(password), stored.unwrap())
}

/// Password verification. Absent, banned and malformed rows still run one full
/// verification against `dummy`, so their timing matches a real account.
pub fn verify_password_with(password: &str, stored: Option<&str>, dummy: &str) -> (ok: bool)
    ensures
        ok == password_matches(password@, match stored {
            Some(s) => Some(s@),
            None => None,
        }),
{
    let v = chars_of(password);
    if !utf8_len_at_most(&v, PASSWORD_MAX_BYTES) || v.len() > PASSWORD_MAX_CHARS {
        return false;
    }
    let known = match stored {
        Some(s) => is_known_hash(s),
        None => false,
    };
    let target = if known {
        match stored {
            Some(s) => s,
            None => dummy,
        }
    } else {
        dummy
    };
    let matches = argon2_verify(
        password.as_bytes(),
        target,
        ARGON_MEMORY_KIB,
        ARGON_ITERATIONS,
        ARGON_LANES,
        ARGON_OUTPUT_BYTES,
    ) == Some(true);
    known && matches
}

/// How a PHC string of Argon2id, version 19, begins.
pub open spec fn argon2id_v19_prefix() -> Seq<char> {
    "$argon2id$v=19$"@
}

/// `PasswordHasher::hash_password` of an Argon2id (version 19) instance of
/// the given parameters with a fresh random salt, written as a PHC string. The
/// salt is random, so the text itself is not stated; what the crate's source
/// shows is: with parameters that `Params::new` accepts and a password of at
/// most 2^32 - 1 bytes hashing succeeds; the string names `argon2id`, version
/// 19 and the given `m`, `t` and `p`, and `PasswordHash`'s `Display` writes it
/// as `$argon2id$v=19$` followed by those parameters, salt and output; and
/// `verify_password` with the same password recomputes the same output from
/// them and accepts it.
#[verifier::external_body]
fn argon2_hash(password: &[u8], memory: u32, iterations: u32, lanes: u32, output: usize) -> (r:
    Option<String>)
    requires
        argon2_params_ok(memory, iterations, lanes, output),
    ensures
        password@.len() <= 0xFFFF_FFFF ==> r is Some,
        r matches Some(h) ==> argon2_accepts(password@, h@) && phc_fields_of(h@) == Some(
            ("argon2id"@, Some(19u32), Some(memory), Some(iterations), Some(lanes)),
        ),
        r matches Some(h) ==> argon2id_v19_prefix().is_prefix_of(h@),
{
    let salt = SaltString::generate(&mut rand::rngs::OsRng);
    let params = argon2::Params::new(memory, iterations, lanes, Some(output)).ok()?;
    let argon = argon2::Argon2::new(argon2::Algorithm::Argon2id, argon2::Version::V0x13, params);
    argon.hash_password(password, &salt).map(|hash| hash.to_string()).ok()
}

/// Hashes a raw secret (used for the constant dummy credential). Any secret
/// that fits Argon2's input limit hashes.
pub fn hash_secret(secret: &[u8]) -> (r: Result<String, AuthError>)
    ensures
        secret@.len() <= 0xFFFF_FFFF ==> r is Ok,
        r matches Err(e) ==> e == AuthError::Unavailable,
        r matches Ok(h) ==> known_hash(h@) && argon2_accepts(secret@, h@),
        r matches Ok(h) ==> argon2id_v19_prefix().is_prefix_of(h@),
{
    match argon2_hash(secret, ARGON_MEMORY_KIB, ARGON_ITERATIONS, ARGON_LANES, ARGON_OUTPUT_BYTES) {
        Some(h) => Ok(h),
        None => Err(AuthError::Unavailable),
    }
}

/// Hashes a new password; a password outside the limits is refused, and every
/// password within them is hashed into an accepted hash that verifies it,
/// written as an Argon2id version 19 PHC string.
pub fn hash_new_password(password: &str) -> (r: Result<String, AuthError>)
    ensures
        !password_ok(password@) ==> r == Err::<String, AuthError>(AuthError::InvalidPassword),
        password_ok(password@) ==> r is Ok,
        r matches Ok(h) ==> password_matches(password@, Some(h@)),
        r matches Ok(h) ==> argon2id_v19_prefix().is_prefix_of(h@),
{
    if !valid_password(password) {
        return Err(AuthError::InvalidPassword);
    }
    proof {
        crate::text::lemma_utf8_len(password@);
    }
    hash_secret(password.as_bytes())
}

/// Whether an authentication at `at` is still fresh at `now` (microseconds).
pub open spec fn fresh_at(now: i64, at: i64) -> bool {
    now - at < FRESH_WINDOW_MICROS
}

/// Optional credentials can only be attached to a freshly authenticated member
/// who has none yet.
pub fn credentials_may_be_set(now: i64, authenticated_at: i64, has_login: bool) -> (r: Result<
    (),
    AuthError,
>)
    ensures
        !fresh_at(now, authenticated_at) ==> r == Err::<(), AuthError>(
            AuthError::FreshAuthenticationRequired,
        ),
        fresh_at(now, authenticated_at) && has_login ==> r == Err::<(), AuthError>(
            AuthError::CredentialAlreadySet,
        ),
        fresh_at(now, authenticated_at) && !has_login ==> r is Ok,
{
    if (now as i128) - (authenticated_at as i128) >= FRESH_WINDOW_MICROS as i128 {
        return Err(AuthError::FreshAuthenticationRequired);
    }
    if has_login {
        return Err(AuthError::CredentialAlreadySet);
    }
    Ok(())
}

/// A password may be replaced without the old one only after a fresh proof of
/// an identity already attached to a membership that has a login.
pub fn recovery_allowed(now: i64, federated_at: Option<i64>, has_login: bool) -> (r: Result<
    (),
    AuthError,
>)
    ensures
        (match federated_at {
            None => true,
            Some(at) => !fresh_at(now, at),
        }) ==> r == Err::<(), AuthError>(AuthError::FederatedAuthenticationRequired),
        (match federated_at {
            None => false,
            Some(at) => fresh_at(now, at),
        }) ==> (r is Ok <==> has_login) && (r matches Err(e) ==> e
            == AuthError::InvalidCredentials),
{
    match federated_at {
        None => {
            return Err(AuthError::FederatedAuthenticationRequired);
        },
        Some(at) => {
            if (now as i128) - (at as i128) >= FRESH_WINDOW_MICROS as i128 {
                return Err(AuthError::FederatedAuthenticationRequired);
            }
        },
    }
    if !has_login {
        return Err(AuthError::InvalidCredentials);
    }
    Ok(())
}

/// Withdrawal requires the literal confirmation word.
pub fn withdrawal_confirmed(confirmation: &str) -> (r: Result<(), AuthError>)
    ensures
        r is Ok <==> confirmation@ == "탈퇴"@,
        r matches Err(e) ==> e == AuthError::ConfirmationRequired,
{
    let v = chars_of(confirmation);
    if chars_eq_str(&v, "탈퇴") {
        Ok(())
    } else {
        Err(AuthError::ConfirmationRequired)
    }
}

/// A login succeeds only for a matching password of a member who is not banned.
pub fn login_outcome(password_valid: bool, found: bool, banned: bool) -> (r: Result<
    (),
    AuthError,
>)
    ensures
        r is Ok <==> password_valid && found && !banned,
        r matches Err(e) ==> e == AuthError::InvalidCredentials,
{
    if password_valid && found && !banned {
        Ok(())
    } else {
        Err(AuthError::InvalidCredentials)
    }
}

/// Account-scoped attempts: the attempt numbered `count` in the window is
/// refused once it exceeds `limit`.
pub fn attempt_allowed(count: i32, limit: i32) -> (r: Result<(), AuthError>)
    ensures
        r is Ok <==> count <= limit,
        r matches Err(e) ==> e == AuthError::RateLimited,
{
    if count > limit {
        Err(AuthError::RateLimited)
    } else {
        Ok(())
    }
}

/// The session check of every membership write: a banned member or an
/// inactive session is unauthenticated; `fresh` writes also need an
/// authentication time within fifteen minutes, never in the future.
pub fn session_authorized(
    banned: bool,
    session_active: bool,
    fresh: bool,
    authenticated_at: i64,
    now: i64,
) -> (r: Result<(), AuthError>)
    ensures
        banned || !session_active ==> r == Err::<(), AuthError>(AuthError::Unauthenticated),
        !banned && session_active ==> (r is Ok <==> (!fresh || (authenticated_at <= now
            && fresh_at(now, authenticated_at)))),
        !banned && session_active ==> (r matches Err(e) ==> e
            == AuthError::FreshAuthenticationRequired),
{
    if banned || !session_active {
        return Err(AuthError::Unauthenticated);
    }
    if fresh && (authenticated_at > now || (now as i128) - (authenticated_at as i128)
        >= FRESH_WINDOW_MICROS as i128) {
        return Err(AuthError::FreshAuthenticationRequired);
    }
    Ok(())
}

/// Unlinking the last linked identity of a member without a password would
/// leave no way to log in.
pub fn unlink_allowed(linked_accounts: i64, has_password: bool) -> (r: Result<(), AuthError>)
    ensures
        r is Ok <==> (linked_accounts > 1 || has_password),
        r matches Err(e) ==> e == AuthError::LastLoginMethod,
{
    if linked_accounts <= 1 && !has_password {
        Err(AuthError::LastLoginMethod)
    } else {
        Ok(())
    }
}

/// How a new session records its authentication time.
#[derive(Clone, Copy, Debug, PartialEq, Eq, Structural)]
pub enum SessionAuthentication {
    Password,
    Federated,
    Preserve,
}

/// The authentication times of a new session, given the database time `at`
/// and, for `Preserve`, the previous session's times.
pub fn session_times(
    mode: SessionAuthentication,
    at: i64,
    previous_authenticated_at: i64,
    previous_federated_at: Option<i64>,
) -> (r: (i64, Option<i64>))
    ensures
        mode == SessionAuthentication::Password ==> r == (at, None::<i64>),
        mode == SessionAuthentication::Federated ==> r == (at, Some(at)),
        mode == SessionAuthentication::Preserve ==> r == (
            previous_authenticated_at,
            previous_federated_at,
        ),
{
    match mode {
        SessionAuthentication::Password => (at, None),
        SessionAuthentication::Federated => (at, Some(at)),
        SessionAuthentication::Preserve => (previous_authenticated_at, previous_federated_at),
    }
}


/// A login identifier is its own canonical form: the lowercase form of an
/// accepted identifier is accepted and normalizes to itself.
pub proof fn lemma_login_ids_are_canonical(s: Seq<char>)
    requires
        login_id_ok(s),
    ensures
        login_id_ok(lower_seq(s)),
        lower_seq(lower_seq(s)) == lower_seq(s),
{
    let l = lower_seq(s);
    assert forall|i: int| 0 <= i < s.len() implies (#[trigger] s[i] as u32) <= 0x7F by {
        assert(login_char(s[i]));
    }
    assert forall|i: int| 0 <= i < l.len() implies (#[trigger] l[i] as u32) <= 0x7F && login_char(
        l[i],
    ) by {
        assert(login_char(s[i]));
    }
    crate::text::lemma_utf8_len_ascii(s);
    crate::text::lemma_utf8_len_ascii(l);
    assert(lower_seq(l) =~= l);
}

/// A display name is its own canonical form: an accepted name, once trimmed,
/// is accepted again and trims to itself.
pub proof fn lemma_display_names_are_canonical(s: Seq<char>)
    requires
        display_name_ok(s),
    ensures
        display_name_ok(trim(s)),
        trim(trim(s)) == trim(s),
{
    crate::text::lemma_trim_tight(s);
    crate::text::lemma_trim_of_tight(trim(s));
}

/// Attaching first credentials, checked again under the member lock: never
/// for a banned member, and only while no login or password is set.
pub fn first_credentials_state(banned: bool, has_login: bool, has_password: bool) -> (r: Result<
    (),
    AuthError,
>)
    ensures
        banned ==> r == Err::<(), AuthError>(AuthError::Unauthenticated),
        !banned && (has_login || has_password) ==> r == Err::<(), AuthError>(
            AuthError::CredentialAlreadySet,
        ),
        !banned && !has_login && !has_password ==> r is Ok,
{
    if banned {
        return Err(AuthError::Unauthenticated);
    }
    if has_login || has_password {
        return Err(AuthError::CredentialAlreadySet);
    }
    Ok(())
}

/// Storing a login that another member holds is reported as taken; any other
/// failed write as unavailable.
pub fn credentials_write_error(login_taken: bool) -> (e: AuthError)
    ensures
        login_taken ==> e == AuthError::LoginIdTaken,
        !login_taken ==> e == AuthError::Unavailable,
{
    if login_taken {
        AuthError::LoginIdTaken
    } else {
        AuthError::Unavailable
    }
}

/// A password change applies only to the exact credentials that were just
/// verified: a banned member, or a hash changed meanwhile, is refused.
pub fn password_change_state(banned: bool, hash_unchanged: bool) -> (r: Result<(), AuthError>)
    ensures
        r is Ok <==> !banned && hash_unchanged,
        r matches Err(e) ==> e == AuthError::Unauthenticated,
{
    if banned || !hash_unchanged {
        Err(AuthError::Unauthenticated)
    } else {
        Ok(())
    }
}

/// A signed-in member as the application shows it. Times are microseconds
/// since the epoch (UTC).
#[derive(Clone, Debug, PartialEq, Eq)]
pub struct AuthenticatedMember {
    pub id: u128,
    pub login_id: Option<String>,
    pub display_name: String,
    pub created_at: i64,
}

/// A new session for the transport's HttpOnly cookie. Its token must never be
/// written anywhere else: the only text form of a grant is `redacted`.
pub struct SessionGrant {
    pub member: AuthenticatedMember,
    pub token: String,
    pub expires_at: i64,
}

/// The text form of a grant: the member's login and display name, and the
/// token replaced by `[REDACTED]`. The token is not among its inputs.
pub open spec fn grant_text(login_id: Option<Seq<char>>, display_name: Seq<char>) -> Seq<char> {
    "SessionGrant { member: "@ + match login_id {
        Some(l) => l,
        None => "-"@,
    } + " ("@ + display_name + "), token: [REDACTED] }"@
}

fn push_str(out: &mut String, text: &str)
    ensures
        final(out)@ == old(out)@ + text@,
{
    let v = chars_of(text);
    let mut i: usize = 0;
    while i < v.len()
        invariant
            i <= v.len(),
            v@ == text@,
            out@ == old(out)@ + v@.take(i as int),
        decreases v.len() - i,
    {
        out.push(v[i]);
        proof {
            assert(v@.take(i + 1) =~= v@.take(i as int).push(v@[i as int]));
        }
        i = i + 1;
    }
    proof {
        assert(v@.take(i as int) =~= v@);
    }
}

impl SessionGrant {
    /// The grant as text for logs and debugging, with the token redacted.
    pub fn redacted(&self) -> (r: String)
        ensures
            r@ == grant_text(
                match self.member.login_id {
                    Some(l) => Some(l@),
                    None => None,
                },
                self.member.display_name@,
            ),
    {
        let mut out = String::new();
        push_str(&mut out, "SessionGrant { member: ");
        match &self.member.login_id {
            Some(l) => push_str(&mut out, l.as_str()),
            None => push_str(&mut out, "-"),
        }
        push_str(&mut out, " (");
        push_str(&mut out, self.member.display_name.as_str());
        push_str(&mut out, "), token: [REDACTED] }");
        out
    }
}

} // verus!
