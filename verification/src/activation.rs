//! Offline, explicit cutover approval: the configuration it accepts and how
//! import and asset inventory failures are reported.
use crate::text::{
    chars_eq, chars_of, find, find_char, is_ascii_alnum, is_ascii_digit, lower_chars, lower_seq,
    prefix_eq, slice_chars, starts_with, string_of, utf8_len, utf8_len_at_most,
};
use vstd::prelude::*;

verus! {

#[derive(Clone, Copy, Debug, PartialEq, Eq, Structural)]
pub enum Error {
    Configuration,
    Connection,
    Inventory,
    Files,
    Conflict,
    Database,
}

/// The text `message` gives.
pub open spec fn activation_message(e: Error) -> Seq<char> {
    match e {
        Error::Configuration => "Activation requires an isolated snapshot and a renamed fedkr_live_* copy, canonical HTTPS origin and private file roots; apply additionally requires the cutover acknowledgment"@,
        Error::Connection => "Offline activation connection failed"@,
        Error::Inventory => "Snapshot, import ledger, schema or projected data did not match; activation refused"@,
        Error::Files => "The complete preserved file inventory could not be verified; activation refused"@,
        Error::Conflict => "Existing activation belongs to a different database or public origin; no approval changed"@,
        Error::Database => "Activation result could not be confirmed; repeat the same command to inspect the durable approval"@,
    }
}

impl Error {
    /// The operator-facing message; it never repeats a connection string.
    pub fn message(&self) -> (r: &'static str)
        ensures
            r@ == activation_message(*self),
    {
        match self {
            Error::Configuration => "Activation requires an isolated snapshot and a renamed fedkr_live_* copy, canonical HTTPS origin and private file roots; apply additionally requires the cutover acknowledgment",
            Error::Connection => "Offline activation connection failed",
            Error::Inventory => "Snapshot, import ledger, schema or projected data did not match; activation refused",
            Error::Files => "The complete preserved file inventory could not be verified; activation refused",
            Error::Conflict => "Existing activation belongs to a different database or public origin; no approval changed",
            Error::Database => "Activation result could not be confirmed; repeat the same command to inspect the durable approval",
        }
    }
}

/// The outcome of an activation run.
#[derive(Debug)]
pub struct Report {
    pub outcome: &'static str,
    pub runtime_enabled: bool,
    pub validated_now: bool,
    pub asset_objects: i64,
    pub asset_bytes: i64,
}

/// Why a snapshot import was refused.
#[derive(Clone, Copy, Debug, PartialEq, Eq, Structural)]
pub enum ImportError {
    Configuration,
    Connection,
    Database,
    Schema,
    Data,
    Mismatch,
    Identity,
    SigningKey,
    TargetNotEmpty,
    Changed,
}

/// Why a preserved asset inventory was refused.
#[derive(Clone, Copy, Debug, PartialEq, Eq, Structural)]
pub enum AssetError {
    Configuration,
    Database,
    Inventory,
    Missing,
    Changed,
    UnsafePath,
}

/// Import failures seen during activation: connection and database failures
/// keep their kind; every other refusal means the inventory did not match.
pub fn import_error(error: ImportError) -> (r: Error)
    ensures
        error == ImportError::Connection ==> r == Error::Connection,
        error == ImportError::Database ==> r == Error::Database,
        error != ImportError::Connection && error != ImportError::Database ==> r
            == Error::Inventory,
{
    match error {
        ImportError::Connection => Error::Connection,
        ImportError::Database => Error::Database,
        _ => Error::Inventory,
    }
}

/// Import failures seen while preserving assets.
pub fn asset_error(error: ImportError) -> (r: AssetError)
    ensures
        error == ImportError::Connection || error == ImportError::Database ==> r
            == AssetError::Database,
        error == ImportError::Configuration ==> r == AssetError::Configuration,
        error != ImportError::Connection && error != ImportError::Database && error
            != ImportError::Configuration ==> r == AssetError::Inventory,
{
    match error {
        ImportError::Connection | ImportError::Database => AssetError::Database,
        ImportError::Configuration => AssetError::Configuration,
        _ => AssetError::Inventory,
    }
}

pub open spec fn port_ok(p: Seq<char>) -> bool {
    1 <= p.len() <= 5 && forall|i: int| 0 <= i < p.len() ==> is_ascii_digit(#[trigger] p[i])
}

/// `hp` is the host `h`, optionally followed by `:` and a port.
pub open spec fn host_is(hp: Seq<char>, h: Seq<char>) -> bool {
    starts_with(hp, h) && {
        let rest = hp.subrange(h.len() as int, hp.len() as int);
        rest.len() == 0 || (rest[0] == ':' && port_ok(rest.drop_first()))
    }
}

/// A loopback host: `127.0.0.1`, `localhost` or `[::1]`, with an optional port.
pub open spec fn loopback_host(hp: Seq<char>) -> bool {
    host_is(hp, "127.0.0.1"@) || host_is(hp, "localhost"@) || host_is(hp, "[::1]"@)
}

pub open spec fn user_char(c: char) -> bool {
    is_ascii_alnum(c) || c == '.' || c == '_' || c == '-' || c == '%' || c == ':'
}

pub open spec fn authority_ok(a: Seq<char>) -> bool {
    match find(a, '@') {
        None => loopback_host(a),
        Some(k) => (forall|i: int| 0 <= i < k ==> user_char(#[trigger] a[i])) && loopback_host(
            a.subrange(k + 1, a.len() as int),
        ),
    }
}

pub open spec fn db_name_char(c: char) -> bool {
    ('a' <= c && c <= 'z') || is_ascii_digit(c) || c == '_'
}

/// The database path: the required name prefix and at least one more name character.
pub open spec fn database_ok(path: Seq<char>, prefix: Seq<char>) -> bool {
    starts_with(path, prefix) && {
        let tail = path.subrange(prefix.len() as int, path.len() as int);
        tail.len() > 0 && forall|i: int| 0 <= i < tail.len() ==> db_name_char(#[trigger] tail[i])
    }
}

pub open spec fn after_scheme(s: Seq<char>) -> Option<Seq<char>> {
    if starts_with(s, "postgres://"@) {
        Some(s.subrange(11, s.len() as int))
    } else if starts_with(s, "postgresql://"@) {
        Some(s.subrange(13, s.len() as int))
    } else {
        None
    }
}

/// A PostgreSQL URL isolated to this machine: a loopback host, an optional
/// user, and a database whose name carries the required prefix; no query,
/// fragment or other parameters that could redirect the connection.
pub open spec fn isolated_url_ok(s: Seq<char>, prefix: Seq<char>) -> bool {
    match after_scheme(s) {
        None => false,
        Some(rest) => match find(rest, '/') {
            None => false,
            Some(k) => authority_ok(rest.subrange(0, k)) && database_ok(
                rest.subrange(k + 1, rest.len() as int),
                prefix,
            ),
        },
    }
}

fn all_digits(v: &Vec<char>) -> (b: bool)
    ensures
        b == forall|i: int| 0 <= i < v@.len() ==> is_ascii_digit(#[trigger] v@[i]),
{
    let n = v.len();
    let mut i: usize = 0;
    while i < n
        invariant
            i <= n,
            n == v.len(),
            forall|k: int| 0 <= k < i ==> is_ascii_digit(#[trigger] v@[k]),
        decreases n - i,
    {
        if !('0' <= v[i] && v[i] <= '9') {
            return false;
        }
        i = i + 1;
    }
    true
}

fn host_is_exec(hp: &Vec<char>, h: &str) -> (b: bool)
    ensures
        b == host_is(hp@, h@),
{
    if !prefix_eq(hp, h) {
        return false;
    }
    let hv = chars_of(h);
    let rest = slice_chars(hp, hv.len(), hp.len());
    if rest.len() == 0 {
        return true;
    }
    if rest[0] != ':' {
        return false;
    }
    let port = slice_chars(&rest, 1, rest.len());
    proof {
        assert(port@ =~= rest@.drop_first());
    }
    port.len() >= 1 && port.len() <= 5 && all_digits(&port)
}

fn loopback_exec(hp: &Vec<char>) -> (b: bool)
    ensures
        b == loopback_host(hp@),
{
    host_is_exec(hp, "127.0.0.1") || host_is_exec(hp, "localhost") || host_is_exec(hp, "[::1]")
}

fn authority_exec(a: &Vec<char>) -> (b: bool)
    ensures
        b == authority_ok(a@),
{
    match find_char(a, '@') {
        None => loopback_exec(a),
        Some(k) => {
            let mut i: usize = 0;
            while i < k
                invariant
                    i <= k,
                    k < a.len(),
                    find(a@, '@') == Some(k as int),
                    forall|j: int| 0 <= j < i ==> user_char(#[trigger] a@[j]),
                decreases k - i,
            {
                let c = a[i];
                if !(('0' <= c && c <= '9') || ('a' <= c && c <= 'z') || ('A' <= c && c <= 'Z')
                    || c == '.' || c == '_' || c == '-' || c == '%' || c == ':') {
                    proof {
                        assert(!user_char(a@[i as int]));
                    }
                    return false;
                }
                i = i + 1;
            }
            let hp = slice_chars(a, k + 1, a.len());
            loopback_exec(&hp)
        },
    }
}

fn database_exec(path: &Vec<char>, prefix: &str) -> (b: bool)
    ensures
        b == database_ok(path@, prefix@),
{
    if !prefix_eq(path, prefix) {
        return false;
    }
    let p = chars_of(prefix);
    let tail = slice_chars(path, p.len(), path.len());
    if tail.len() == 0 {
        return false;
    }
    let n = tail.len();
    let mut i: usize = 0;
    while i < n
        invariant
            i <= n,
            n == tail.len(),
            p@ == prefix@,
            starts_with(path@, prefix@),
            tail@ == path@.subrange(prefix@.len() as int, path@.len() as int),
            forall|k: int| 0 <= k < i ==> db_name_char(#[trigger] tail@[k]),
        decreases n - i,
    {
        let c = tail[i];
        if !(('a' <= c && c <= 'z') || ('0' <= c && c <= '9') || c == '_') {
            proof {
                assert(!db_name_char(tail@[i as int]));
            }
            return false;
        }
        i = i + 1;
    }
    true
}

/// Whether `url` is an isolated PostgreSQL URL whose database name starts with `prefix`.
pub fn isolated_url(url: &str, prefix: &str) -> (b: bool)
    ensures
        b == isolated_url_ok(url@, prefix@),
{
    let s = chars_of(url);
    let rest = if prefix_eq(&s, "postgres://") {
        proof {
            reveal_strlit("postgres://");
        }
        slice_chars(&s, 11, s.len())
    } else if prefix_eq(&s, "postgresql://") {
        proof {
            reveal_strlit("postgresql://");
        }
        slice_chars(&s, 13, s.len())
    } else {
        return false;
    };
    match find_char(&rest, '/') {
        None => false,
        Some(k) => {
            let authority = slice_chars(&rest, 0, k);
            let path = slice_chars(&rest, k + 1, rest.len());
            authority_exec(&authority) && database_exec(&path, prefix)
        },
    }
}

pub open spec fn host_name_char(c: char) -> bool {
    is_ascii_alnum(c) || c == '.' || c == '-'
}

pub open spec fn host_name_ok(h: Seq<char>) -> bool {
    h.len() > 0 && forall|i: int| 0 <= i < h.len() ==> host_name_char(#[trigger] h[i])
}

pub open spec fn origin_host_ok(hp: Seq<char>) -> bool {
    match find(hp, ':') {
        None => host_name_ok(hp),
        Some(k) => host_name_ok(hp.subrange(0, k)) && port_ok(hp.subrange(k + 1, hp.len() as int)),
    }
}

/// The canonical origin of a public address and whether it is HTTPS: the
/// scheme, then the host and optional port in lowercase. A single trailing
/// slash is dropped; user information, paths, queries and fragments are refused.
pub open spec fn canonical_origin_of(s: Seq<char>) -> Option<(Seq<char>, bool)> {
    let parts = if starts_with(s, "https://"@) {
        Some(("https://"@, true, s.subrange(8, s.len() as int)))
    } else if starts_with(s, "http://"@) {
        Some(("http://"@, false, s.subrange(7, s.len() as int)))
    } else {
        None
    };
    match parts {
        None => None,
        Some((scheme, secure, rest)) => {
            let hp = if rest.len() > 0 && rest.last() == '/' {
                rest.drop_last()
            } else {
                rest
            };
            if origin_host_ok(hp) {
                Some((scheme + lower_seq(hp), secure))
            } else {
                None
            }
        },
    }
}

fn host_name_exec(h: &Vec<char>) -> (b: bool)
    ensures
        b == host_name_ok(h@),
{
    let n = h.len();
    if n == 0 {
        return false;
    }
    let mut i: usize = 0;
    while i < n
        invariant
            i <= n,
            n == h.len(),
            forall|k: int| 0 <= k < i ==> host_name_char(#[trigger] h@[k]),
        decreases n - i,
    {
        let c = h[i];
        if !(('0' <= c && c <= '9') || ('a' <= c && c <= 'z') || ('A' <= c && c <= 'Z') || c
            == '.' || c == '-') {
            proof {
                assert(!host_name_char(h@[i as int]));
            }
            return false;
        }
        i = i + 1;
    }
    true
}

pub fn canonical_origin(origin: &str) -> (r: Result<(String, bool), ()>)
    ensures
        match r {
            Ok((c, secure)) => canonical_origin_of(origin@) == Some((c@, secure)),
            Err(_) => canonical_origin_of(origin@) is None,
        },
{
    let s = chars_of(origin);
    let https = prefix_eq(&s, "https://");
    let http = prefix_eq(&s, "http://");
    proof {
        reveal_strlit("https://");
        reveal_strlit("http://");
    }
    let (scheme, secure, rest) = if https {
        (chars_of("https://"), true, slice_chars(&s, 8, s.len()))
    } else if http {
        (chars_of("http://"), false, slice_chars(&s, 7, s.len()))
    } else {
        return Err(());
    };
    let hp = if rest.len() > 0 && rest[rest.len() - 1] == '/' {
        let t = slice_chars(&rest, 0, rest.len() - 1);
        proof {
            assert(t@ =~= rest@.drop_last());
        }
        t
    } else {
        rest
    };
    let ok = match find_char(&hp, ':') {
        None => host_name_exec(&hp),
        Some(k) => {
            let host = slice_chars(&hp, 0, k);
            let port = slice_chars(&hp, k + 1, hp.len());
            host_name_exec(&host) && port.len() >= 1 && port.len() <= 5 && all_digits(&port)
        },
    };
    if !ok {
        return Err(());
    }
    let lowered = lower_chars(&hp);
    let mut out = scheme;
    let mut i: usize = 0;
    let ghost start = out@;
    while i < lowered.len()
        invariant
            i <= lowered.len(),
            out@ == start + lowered@.take(i as int),
        decreases lowered.len() - i,
    {
        out.push(lowered[i]);
        proof {
            assert(lowered@.take(i + 1) =~= lowered@.take(i as int).push(lowered@[i as int]));
        }
        i = i + 1;
    }
    proof {
        assert(lowered@.take(lowered.len() as int) =~= lowered@);
    }
    Ok((string_of(&out), secure))
}

/// When an activation request's configuration is acceptable.
pub open spec fn configuration_ok(source: Seq<char>, target: Seq<char>, origin: Seq<char>) -> bool {
    &&& isolated_url_ok(source, "fedkr_snapshot_"@)
    &&& isolated_url_ok(target, "fedkr_live_"@)
    &&& canonical_origin_of(origin) == Some((origin, true))
    &&& utf8_len(origin) <= 2048
}

/// Activation is never a general database override: the source must be an
/// isolated snapshot, the target an isolated `fedkr_live_` copy, and the
/// origin a canonical HTTPS origin written exactly in canonical form.
pub fn validate(source: &str, target: &str, origin: &str) -> (r: Result<(), Error>)
    ensures
        r is Ok <==> configuration_ok(source@, target@, origin@),
        r matches Err(e) ==> e == Error::Configuration,
{
    if !isolated_url(source, "fedkr_snapshot_") || !isolated_url(target, "fedkr_live_") {
        return Err(Error::Configuration);
    }
    let o = chars_of(origin);
    let origin_ok = match canonical_origin(origin) {
        Ok((canonical, secure)) => {
            let c = chars_of(canonical.as_str());
            secure && chars_eq(&c, &o) && utf8_len_at_most(&o, 2048)
        },
        Err(_) => false,
    };
    if !origin_ok {
        return Err(Error::Configuration);
    }
    Ok(())
}

/// Applying an activation also requires the literal acknowledgment.
pub fn acknowledged(apply: bool, acknowledgment: Option<&str>) -> (r: Result<(), Error>)
    ensures
        r is Ok <==> (!apply || (acknowledgment is Some && acknowledgment.unwrap()@
            == "source-frozen-and-reviewed"@)),
        r matches Err(e) ==> e == Error::Configuration,
{
    if !apply {
        return Ok(());
    }
    match acknowledgment {
        Some(a) => {
            let v = chars_of(a);
            if crate::text::chars_eq_str(&v, "source-frozen-and-reviewed") {
                Ok(())
            } else {
                Err(Error::Configuration)
            }
        },
        None => Err(Error::Configuration),
    }
}

} // verus!
