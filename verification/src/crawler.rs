//! Bounded public-site reads: what a crawl keeps of a site's nodeinfo, how
//! icon candidates are found, ranked and chosen, and how health is judged.
//! The network transport and HTML tokenizer drive these rules from outside.
use crate::auth::lower_hex_char;
use crate::text::{
    chars_eq, chars_eq_str, chars_of, find, find_char, is_ascii_digit, is_ascii_white,
    is_ascii_white_char, lower_chars, lower_seq, slice_chars, string_of, trim, trim_chars,
    utf8_len, utf8_len_at_most,
};
use image::ImageFormat;
use vstd::prelude::*;

verus! {

pub const PAGE_LIMIT: usize = 262_144;

pub const ICON_LIMIT: usize = 524_288;

pub const MANIFEST_LIMIT: usize = 65_536;

pub const ICON_CANDIDATE_LIMIT: usize = 8;

/// The declared area of `sizes="any"`: larger than any real raster.
pub const ANY_AREA: u64 = 9_223_372_036_854_775_807;

#[verifier::external_type_specification]
#[verifier::external_body]
pub struct ExJsonValue(serde_json::Value);

/// One HTTP reply of the site transport.
#[derive(Debug)]
pub struct Reply {
    pub url: String,
    pub status: u16,
    pub body: Result<Vec<u8>, &'static str>,
}

/// What a crawl keeps of a site's nodeinfo document. Unknown values stay unknown.
#[derive(Clone, Debug, PartialEq, Eq, Default)]
pub struct NodeInfo {
    pub software: Option<String>,
    pub version: Option<String>,
    pub name: Option<String>,
    pub description: Option<String>,
    pub registration_open: Option<bool>,
    pub users: Option<i64>,
    pub active_users: Option<i64>,
    pub posts: Option<i64>,
}

/// The values of a nodeinfo document that the crawl reads.
#[derive(Clone, Debug, Default)]
pub struct NodeInfoFields {
    pub is_object: bool,
    pub version: Option<String>,
    pub software_name: Option<String>,
    pub software_version: Option<String>,
    pub node_name: Option<String>,
    pub node_description: Option<String>,
    pub open_registrations: Option<bool>,
    pub users_total: Option<u64>,
    pub users_active_month: Option<u64>,
    pub local_posts: Option<u64>,
}

pub open spec fn opt_view(o: Option<String>) -> Option<Seq<char>> {
    match o {
        Some(s) => Some(s@),
        None => None,
    }
}

/// A nodeinfo text field: trimmed, non-empty, at most `max` bytes, no NUL.
pub open spec fn field_text(v: Option<Seq<char>>, max: nat) -> Option<Seq<char>> {
    match v {
        None => None,
        Some(s) => {
            let t = trim(s);
            if t.len() > 0 && utf8_len(t) <= max && !t.contains('\0') {
                Some(t)
            } else {
                None
            }
        },
    }
}

/// A nodeinfo count: a non-negative integer that fits in `i64`.
pub open spec fn field_count(v: Option<u64>) -> Option<i64> {
    match v {
        Some(n) => if n <= i64::MAX {
            Some(n as i64)
        } else {
            None
        },
        None => None,
    }
}

/// Nodeinfo documents of schema 2.0 and 2.1 are supported.
pub open spec fn supported_nodeinfo(f: NodeInfoFields) -> bool {
    f.is_object && (opt_view(f.version) == Some("2.0"@) || opt_view(f.version) == Some("2.1"@))
}

fn field_text_exec(v: &Option<String>, max: usize) -> (r: Option<String>)
    ensures
        opt_view(r) == field_text(opt_view(*v), max as nat),
{
    match v {
        None => None,
        Some(s) => {
            let c = chars_of(s.as_str());
            let t = trim_chars(&c);
            if t.len() == 0 || !utf8_len_at_most(&t, max) {
                return None;
            }
            let n = t.len();
            let mut i: usize = 0;
            while i < n
                invariant
                    i <= n,
                    n == t.len(),
                    t@ == trim(s@),
                    t@.len() > 0,
                    utf8_len(t@) <= max,
                    *v == Some(*s),
                    forall|k: int| 0 <= k < i ==> t@[k] != '\0',
                decreases n - i,
            {
                if t[i] == '\0' {
                    proof {
                        assert(t@.contains('\0'));
                    }
                    return None;
                }
                i = i + 1;
            }
            Some(string_of(&t))
        },
    }
}

fn field_count_exec(v: Option<u64>) -> (r: Option<i64>)
    ensures
        r == field_count(v),
{
    match v {
        Some(n) => if n <= 9_223_372_036_854_775_807u64 {
            Some(n as i64)
        } else {
            None
        },
        None => None,
    }
}

fn is_version(v: &Option<String>, lit: &str) -> (b: bool)
    ensures
        b == (opt_view(*v) == Some(lit@)),
{
    match v {
        Some(s) => {
            let c = chars_of(s.as_str());
            chars_eq_str(&c, lit)
        },
        None => false,
    }
}

/// What a crawl keeps of a nodeinfo document, or why it refuses it.
pub fn nodeinfo_from_fields(f: &NodeInfoFields) -> (r: Result<NodeInfo, &'static str>)
    ensures
        !supported_nodeinfo(*f) ==> (r matches Err(e) && e@ == "unsupported_nodeinfo"@),
        supported_nodeinfo(*f) ==> (r matches Ok(n) && {
            &&& opt_view(n.software) == field_text(opt_view(f.software_name), 128)
            &&& opt_view(n.version) == field_text(opt_view(f.software_version), 256)
            &&& opt_view(n.name) == field_text(opt_view(f.node_name), 1024)
            &&& opt_view(n.description) == field_text(opt_view(f.node_description), 8192)
            &&& n.registration_open == f.open_registrations
            &&& n.users == field_count(f.users_total)
            &&& n.active_users == field_count(f.users_active_month)
            &&& n.posts == field_count(f.local_posts)
        }),
{
    if !f.is_object || !(is_version(&f.version, "2.0") || is_version(&f.version, "2.1")) {
        return Err("unsupported_nodeinfo");
    }
    Ok(
        NodeInfo {
            software: field_text_exec(&f.software_name, 128),
            version: field_text_exec(&f.software_version, 256),
            name: field_text_exec(&f.node_name, 1024),
            description: field_text_exec(&f.node_description, 8192),
            registration_open: f.open_registrations,
            users: field_count_exec(f.users_total),
            active_users: field_count_exec(f.users_active_month),
            posts: field_count_exec(f.local_posts),
        },
    )
}

/// The JSON value that `serde_json::from_slice` reads from `bytes`; `None`
/// where it reports an error.
pub uninterp spec fn json_value_of(bytes: Seq<u8>) -> Option<serde_json::Value>;

/// `serde_json::from_slice` into a JSON value; `None` where it reports an error.
#[verifier::external_body]
fn parse_json(bytes: &[u8]) -> (r: Option<serde_json::Value>)
    ensures
        r == json_value_of(bytes@),
{
    serde_json::from_slice(bytes).ok()
}

/// Whether a JSON value is an object (`Value::is_object`).
pub uninterp spec fn json_object_of(v: serde_json::Value) -> bool;

/// The value a JSON pointer designates (`Value::pointer`), if any.
pub uninterp spec fn json_pointer_of(v: serde_json::Value, pointer: Seq<char>) -> Option<
    serde_json::Value,
>;

/// The text of a JSON string value (`Value::as_str`).
pub uninterp spec fn json_as_str_of(v: serde_json::Value) -> Option<Seq<char>>;

/// The value of a JSON number that is a non-negative integer fitting 64 bits
/// (`Value::as_u64`).
pub uninterp spec fn json_as_u64_of(v: serde_json::Value) -> Option<u64>;

/// The value of a JSON boolean (`Value::as_bool`).
pub uninterp spec fn json_as_bool_of(v: serde_json::Value) -> Option<bool>;

/// `Value::is_object`.
#[verifier::external_body]
fn json_is_object(v: &serde_json::Value) -> (r: bool)
    ensures
        r == json_object_of(*v),
{
    v.is_object()
}

/// `Value::pointer`, the designated value copied out.
#[verifier::external_body]
fn json_pointer(v: &serde_json::Value, pointer: &str) -> (r: Option<serde_json::Value>)
    ensures
        r == json_pointer_of(*v, pointer@),
{
    v.pointer(pointer).cloned()
}

/// `Value::as_str`, the text copied out.
#[verifier::external_body]
fn json_as_str(v: &serde_json::Value) -> (r: Option<String>)
    ensures
        opt_view(r) == json_as_str_of(*v),
{
    v.as_str().map(str::to_owned)
}

/// `Value::as_u64`.
#[verifier::external_body]
fn json_as_u64(v: &serde_json::Value) -> (r: Option<u64>)
    ensures
        r == json_as_u64_of(*v),
{
    v.as_u64()
}

/// `Value::as_bool`.
#[verifier::external_body]
fn json_as_bool(v: &serde_json::Value) -> (r: Option<bool>)
    ensures
        r == json_as_bool_of(*v),
{
    v.as_bool()
}

/// The text at a JSON pointer, where the pointer designates a string.
pub open spec fn json_str_at(v: serde_json::Value, pointer: Seq<char>) -> Option<Seq<char>> {
    match json_pointer_of(v, pointer) {
        Some(x) => json_as_str_of(x),
        None => None,
    }
}

/// The integer at a JSON pointer, where it designates a `u64` number.
pub open spec fn json_u64_at(v: serde_json::Value, pointer: Seq<char>) -> Option<u64> {
    match json_pointer_of(v, pointer) {
        Some(x) => json_as_u64_of(x),
        None => None,
    }
}

/// The boolean at a JSON pointer, where it designates a boolean.
pub open spec fn json_bool_at(v: serde_json::Value, pointer: Seq<char>) -> Option<bool> {
    match json_pointer_of(v, pointer) {
        Some(x) => json_as_bool_of(x),
        None => None,
    }
}

fn str_at(v: &serde_json::Value, pointer: &str) -> (r: Option<String>)
    ensures
        opt_view(r) == json_str_at(*v, pointer@),
{
    match json_pointer(v, pointer) {
        Some(x) => json_as_str(&x),
        None => None,
    }
}

fn u64_at(v: &serde_json::Value, pointer: &str) -> (r: Option<u64>)
    ensures
        r == json_u64_at(*v, pointer@),
{
    match json_pointer(v, pointer) {
        Some(x) => json_as_u64(&x),
        None => None,
    }
}

fn bool_at(v: &serde_json::Value, pointer: &str) -> (r: Option<bool>)
    ensures
        r == json_bool_at(*v, pointer@),
{
    match json_pointer(v, pointer) {
        Some(x) => json_as_bool(&x),
        None => None,
    }
}

/// The values a crawl reads from a nodeinfo document: whether it is an
/// object, and the string, boolean and count at each nodeinfo path.
pub fn nodeinfo_fields(v: &serde_json::Value) -> (r: NodeInfoFields)
    ensures
        r.is_object == json_object_of(*v),
        opt_view(r.version) == json_str_at(*v, "/version"@),
        opt_view(r.software_name) == json_str_at(*v, "/software/name"@),
        opt_view(r.software_version) == json_str_at(*v, "/software/version"@),
        opt_view(r.node_name) == json_str_at(*v, "/metadata/nodeName"@),
        opt_view(r.node_description) == json_str_at(*v, "/metadata/nodeDescription"@),
        r.open_registrations == json_bool_at(*v, "/openRegistrations"@),
        r.users_total == json_u64_at(*v, "/usage/users/total"@),
        r.users_active_month == json_u64_at(*v, "/usage/users/activeMonth"@),
        r.local_posts == json_u64_at(*v, "/usage/localPosts"@),
{
    NodeInfoFields {
        is_object: json_is_object(v),
        version: str_at(v, "/version"),
        software_name: str_at(v, "/software/name"),
        software_version: str_at(v, "/software/version"),
        node_name: str_at(v, "/metadata/nodeName"),
        node_description: str_at(v, "/metadata/nodeDescription"),
        open_registrations: bool_at(v, "/openRegistrations"),
        users_total: u64_at(v, "/usage/users/total"),
        users_active_month: u64_at(v, "/usage/users/activeMonth"),
        local_posts: u64_at(v, "/usage/localPosts"),
    }
}

/// A supported nodeinfo document: an object whose version is 2.0 or 2.1.
pub open spec fn json_supported(v: serde_json::Value) -> bool {
    json_object_of(v) && (json_str_at(v, "/version"@) == Some("2.0"@) || json_str_at(
        v,
        "/version"@,
    ) == Some("2.1"@))
}

/// Parses a nodeinfo document: an unsupported document is refused; otherwise
/// each kept value is the bounded text or fitting count at its path, and
/// anything missing or malformed stays unknown.
pub fn parse_nodeinfo(v: &serde_json::Value) -> (r: Result<NodeInfo, &'static str>)
    ensures
        !json_supported(*v) ==> (r matches Err(e) && e@ == "unsupported_nodeinfo"@),
        json_supported(*v) ==> (r matches Ok(n) && {
            &&& opt_view(n.software) == field_text(json_str_at(*v, "/software/name"@), 128)
            &&& opt_view(n.version) == field_text(json_str_at(*v, "/software/version"@), 256)
            &&& opt_view(n.name) == field_text(json_str_at(*v, "/metadata/nodeName"@), 1024)
            &&& opt_view(n.description) == field_text(
                json_str_at(*v, "/metadata/nodeDescription"@),
                8192,
            )
            &&& n.registration_open == json_bool_at(*v, "/openRegistrations"@)
            &&& n.users == field_count(json_u64_at(*v, "/usage/users/total"@))
            &&& n.active_users == field_count(json_u64_at(*v, "/usage/users/activeMonth"@))
            &&& n.posts == field_count(json_u64_at(*v, "/usage/localPosts"@))
        }),
{
    let f = nodeinfo_fields(v);
    nodeinfo_from_fields(&f)
}

/// A nodeinfo reply is read only from a successful response with a body.
pub fn json(reply: Reply) -> (r: Result<serde_json::Value, &'static str>)
    ensures
        reply.status != 200 ==> (r matches Err(e) && e@ == "nodeinfo_http_status"@),
        reply.status == 200 && reply.body is Err ==> (r matches Err(e) && e == reply.body->Err_0),
        reply.status == 200 && reply.body is Ok ==> match json_value_of(reply.body->Ok_0@) {
            Some(v) => r == Ok::<serde_json::Value, &'static str>(v),
            None => (r matches Err(e) && e@ == "invalid_json"@),
        },
{
    if reply.status != 200 {
        return Err("nodeinfo_http_status");
    }
    let body = match reply.body {
        Ok(b) => b,
        Err(e) => {
            return Err(e);
        },
    };
    match parse_json(body.as_slice()) {
        Some(v) => Ok(v),
        None => Err("invalid_json"),
    }
}

/// The links of a nodeinfo discovery document: its `links` array, if any.
pub open spec fn discovery_links(v: serde_json::Value) -> Option<Seq<serde_json::Value>> {
    match json_pointer_of(v, "/links"@) {
        Some(a) => json_as_array_of(a),
        None => None,
    }
}

/// The first link from position `i` on whose `rel` is `rel`.
pub open spec fn find_rel(links: Seq<serde_json::Value>, rel: Seq<char>, i: int) -> Option<int>
    decreases links.len() - i,
{
    if i < 0 || i >= links.len() {
        None
    } else if json_str_at(links[i], "/rel"@) == Some(rel) {
        Some(i)
    } else {
        find_rel(links, rel, i + 1)
    }
}

/// The `href` text of a chosen link, or why it is unusable.
pub open spec fn link_href(link: serde_json::Value) -> Result<Seq<char>, Seq<char>> {
    match json_str_at(link, "/href"@) {
        Some(h) => Ok(h),
        None => Err("invalid_nodeinfo_link"@),
    }
}

/// The nodeinfo address a discovery document offers: the first schema 2.1
/// link, else the first schema 2.0 link; without a `links` array or such a
/// link there is none.
pub open spec fn nodeinfo_link_of(v: serde_json::Value) -> Result<Seq<char>, Seq<char>> {
    match discovery_links(v) {
        None => Err("no_nodeinfo_link"@),
        Some(links) => match find_rel(
            links,
            "http://nodeinfo.diaspora.software/ns/schema/2.1"@,
            0,
        ) {
            Some(i) => link_href(links[i]),
            None => match find_rel(links, "http://nodeinfo.diaspora.software/ns/schema/2.0"@, 0) {
                Some(i) => link_href(links[i]),
                None => Err("no_nodeinfo_link"@),
            },
        },
    }
}

fn find_rel_exec(links: &Vec<serde_json::Value>, rel: &str) -> (r: Option<usize>)
    ensures
        match r {
            Some(i) => find_rel(links@, rel@, 0) == Some(i as int) && i < links@.len(),
            None => find_rel(links@, rel@, 0) is None,
        },
{
    let mut i: usize = 0;
    while i < links.len()
        invariant
            i <= links.len(),
            find_rel(links@, rel@, 0) == find_rel(links@, rel@, i as int),
        decreases links.len() - i,
    {
        let found = match str_at(&links[i], "/rel") {
            Some(r) => {
                let v = chars_of(r.as_str());
                chars_eq_str(&v, rel)
            },
            None => false,
        };
        if found {
            return Some(i);
        }
        i = i + 1;
    }
    None
}

fn href_exec(link: &serde_json::Value) -> (r: Result<String, &'static str>)
    ensures
        match link_href(*link) {
            Ok(h) => r matches Ok(x) && x@ == h,
            Err(e) => r matches Err(x) && x@ == e,
        },
{
    match str_at(link, "/href") {
        Some(h) => Ok(h),
        None => Err("invalid_nodeinfo_link"),
    }
}

/// Chooses the nodeinfo address of a discovery document (schema 2.1 before
/// 2.0). Whether the address may be fetched is the transport's decision.
pub fn nodeinfo_link(discovery: &serde_json::Value) -> (r: Result<String, &'static str>)
    ensures
        match nodeinfo_link_of(*discovery) {
            Ok(h) => r matches Ok(x) && x@ == h,
            Err(e) => r matches Err(x) && x@ == e,
        },
{
    let array = match json_pointer(discovery, "/links") {
        Some(a) => a,
        None => {
            return Err("no_nodeinfo_link");
        },
    };
    let links = match json_as_array(&array) {
        Some(l) => l,
        None => {
            return Err("no_nodeinfo_link");
        },
    };
    match find_rel_exec(&links, nodeinfo_rel(true)) {
        Some(i) => href_exec(&links[i]),
        None => match find_rel_exec(&links, nodeinfo_rel(false)) {
            Some(i) => href_exec(&links[i]),
            None => Err("no_nodeinfo_link"),
        },
    }
}

/// The address `href` names on the page at `base`: the text of
/// `url::Url::parse(base)` joined with `href` by `Url::join`, if both succeed.
pub uninterp spec fn url_join_of(base: Seq<char>, href: Seq<char>) -> Option<Seq<char>>;

/// `url::Url::parse` of `base`, then `Url::join` of `href`, as text.
#[verifier::external_body]
fn join_url(base: &str, href: &str) -> (r: Option<String>)
    ensures
        match url_join_of(base@, href@) {
            Some(u) => r matches Some(x) && x@ == u,
            None => r is None,
        },
{
    let base = url::Url::parse(base).ok()?;
    base.join(href).ok().map(|u| u.to_string())
}

/// The absolute address of a link found on the page at `base` (a relative
/// `href` is resolved against the page). Whether it may be fetched is the
/// transport's decision.
pub fn link_address(base: &str, href: &str) -> (r: Option<String>)
    ensures
        match url_join_of(base@, href@) {
            Some(u) => r matches Some(x) && x@ == u,
            None => r is None,
        },
{
    join_url(base, href)
}

/// The nodeinfo link relation of a schema version.
pub fn nodeinfo_rel(version_21: bool) -> (r: &'static str)
    ensures
        version_21 ==> r@ == "http://nodeinfo.diaspora.software/ns/schema/2.1"@,
        !version_21 ==> r@ == "http://nodeinfo.diaspora.software/ns/schema/2.0"@,
{
    if version_21 {
        "http://nodeinfo.diaspora.software/ns/schema/2.1"
    } else {
        "http://nodeinfo.diaspora.software/ns/schema/2.0"
    }
}

/// `split_ascii_whitespace`, written with its scan state: the current token and
/// the tokens completed so far.
pub open spec fn tokens_from(s: Seq<char>, cur: Seq<char>, done: Seq<Seq<char>>) -> Seq<Seq<char>>
    decreases s.len(),
{
    if s.len() == 0 {
        if cur.len() > 0 {
            done.push(cur)
        } else {
            done
        }
    } else if is_ascii_white(s[0]) {
        tokens_from(s.drop_first(), Seq::empty(), if cur.len() > 0 {
            done.push(cur)
        } else {
            done
        })
    } else {
        tokens_from(s.drop_first(), cur.push(s[0]), done)
    }
}

/// The maximal runs of non-white characters of `s`, in order.
pub open spec fn ascii_tokens(s: Seq<char>) -> Seq<Seq<char>> {
    tokens_from(s, Seq::empty(), Seq::empty())
}

pub fn split_ascii_white(v: &Vec<char>) -> (r: Vec<Vec<char>>)
    ensures
        vecs_view(r@) == ascii_tokens(v@),
{
    let n = v.len();
    let mut done: Vec<Vec<char>> = Vec::new();
    let mut cur: Vec<char> = Vec::new();
    let mut i: usize = 0;
    proof {
        assert(v@.subrange(0, n as int) =~= v@);
        assert(cur@ =~= Seq::<char>::empty());
        assert(vecs_view(done@) =~= Seq::<Seq<char>>::empty());
    }
    while i < n
        invariant
            i <= n,
            n == v.len(),
            tokens_from(v@.subrange(i as int, n as int), cur@, vecs_view(done@)) == ascii_tokens(
                v@,
            ),
        decreases n - i,
    {
        let c = v[i];
        proof {
            assert(v@.subrange(i as int, n as int).drop_first() =~= v@.subrange(i + 1, n as int));
        }
        if is_ascii_white_char(c) {
            if cur.len() > 0 {
                let ghost d = vecs_view(done@);
                let token = cur;
                let ghost t = token@;
                done.push(token);
                proof {
                    assert(vecs_view(done@) =~= d.push(t));
                }
                cur = Vec::new();
            } else {
                proof {
                    assert(cur@ =~= Seq::<char>::empty());
                }
            }
        } else {
            cur.push(c);
        }
        i = i + 1;
    }
    proof {
        assert(v@.subrange(n as int, n as int) =~= Seq::<char>::empty());
    }
    if cur.len() > 0 {
        let ghost d = vecs_view(done@);
        let ghost t = cur@;
        done.push(cur);
        proof {
            assert(vecs_view(done@) =~= d.push(t));
        }
    }
    done
}

pub open spec fn vecs_view(v: Seq<Vec<char>>) -> Seq<Seq<char>> {
    v.map_values(|s: Vec<char>| s@)
}

/// The value of a run of decimal digits.
pub open spec fn decimal_value(d: Seq<char>) -> int
    decreases d.len(),
{
    if d.len() == 0 {
        0
    } else {
        decimal_value(d.drop_last()) * 10 + ((d.last() as u32) - ('0' as u32))
    }
}

/// The digits of an unsigned decimal text: without its optional leading `+`.
pub open spec fn unsigned_digits(s: Seq<char>) -> Seq<char> {
    if s.len() > 0 && s[0] == '+' {
        s.drop_first()
    } else {
        s
    }
}

pub open spec fn all_digits(d: Seq<char>) -> bool {
    forall|i: int| 0 <= i < d.len() ==> is_ascii_digit(#[trigger] d[i])
}

/// `u64::from_str`: an optional `+`, then at least one decimal digit, with a
/// value that fits in 64 bits.
pub open spec fn parse_u64(s: Seq<char>) -> Option<u64> {
    let d = unsigned_digits(s);
    if d.len() > 0 && all_digits(d) && decimal_value(d) <= u64::MAX {
        Some(decimal_value(d) as u64)
    } else {
        None
    }
}

proof fn lemma_decimal_grows(d: Seq<char>, i: int)
    requires
        0 <= i <= d.len(),
        forall|k: int| 0 <= k < d.len() ==> is_ascii_digit(#[trigger] d[k]),
    ensures
        decimal_value(d) >= decimal_value(d.take(i)),
        decimal_value(d.take(i)) >= 0,
    decreases d.len() - i,
{
    if i == d.len() {
        assert(d.take(i) =~= d);
        lemma_decimal_nonneg(d);
    } else {
        lemma_decimal_grows(d, i + 1);
        assert(d.take(i + 1).drop_last() =~= d.take(i));
        lemma_decimal_nonneg(d.take(i));
    }
}

proof fn lemma_decimal_nonneg(d: Seq<char>)
    requires
        forall|k: int| 0 <= k < d.len() ==> is_ascii_digit(#[trigger] d[k]),
    ensures
        decimal_value(d) >= 0,
    decreases d.len(),
{
    if d.len() > 0 {
        lemma_decimal_nonneg(d.drop_last());
    }
}

pub fn parse_u64_chars(s: &Vec<char>) -> (r: Option<u64>)
    ensures
        r == parse_u64(s@),
{
    let start: usize = if s.len() > 0 && s[0] == '+' {
        1
    } else {
        0
    };
    let d = slice_chars(s, start, s.len());
    let ghost digits = unsigned_digits(s@);
    proof {
        if start == 1 {
            assert(d@ =~= s@.drop_first());
        } else {
            assert(d@ =~= s@);
        }
    }
    let n = d.len();
    if n == 0 {
        return None;
    }
    let mut i: usize = 0;
    while i < n
        invariant
            i <= n,
            n == d.len(),
            d@ == digits,
            digits == unsigned_digits(s@),
            forall|k: int| 0 <= k < i ==> is_ascii_digit(#[trigger] d@[k]),
        decreases n - i,
    {
        if !('0' <= d[i] && d[i] <= '9') {
            proof {
                assert(!is_ascii_digit(digits[i as int]));
                assert(!all_digits(digits));
            }
            return None;
        }
        i = i + 1;
    }
    let mut value: u128 = 0;
    let mut j: usize = 0;
    while j < n
        invariant
            j <= n,
            n == d.len(),
            n > 0,
            d@ == digits,
            digits == unsigned_digits(s@),
            forall|k: int| 0 <= k < n ==> is_ascii_digit(#[trigger] d@[k]),
            value == decimal_value(d@.take(j as int)),
            value <= u64::MAX,
        decreases n - j,
    {
        let digit = (d[j] as u32) - ('0' as u32);
        let next = value * 10 + (digit as u128);
        proof {
            assert(d@.take(j + 1).drop_last() =~= d@.take(j as int));
            assert(d@.take(j + 1).last() == d@[j as int]);
        }
        if next > 18_446_744_073_709_551_615u128 {
            proof {
                lemma_decimal_grows(d@, j + 1);
            }
            return None;
        }
        value = next;
        j = j + 1;
    }
    proof {
        assert(d@.take(n as int) =~= d@);
    }
    Some(value as u64)
}

/// The area a `sizes` token declares: `any`, or `WxH` whose product fits in 64 bits.
pub open spec fn token_area(t: Seq<char>) -> Option<u64> {
    if lower_seq(t) == "any"@ {
        Some(ANY_AREA)
    } else {
        match find(t, 'x') {
            None => None,
            Some(k) => match (parse_u64(t.subrange(0, k)), parse_u64(
                t.subrange(k + 1, t.len() as int),
            )) {
                (Some(w), Some(h)) => if w * h <= u64::MAX {
                    Some((w * h) as u64)
                } else {
                    None
                },
                _ => None,
            },
        }
    }
}

/// The largest declared area of a list of tokens, 0 when none declares one.
pub open spec fn max_area(tokens: Seq<Seq<char>>) -> u64
    decreases tokens.len(),
{
    if tokens.len() == 0 {
        0
    } else {
        let m = max_area(tokens.drop_last());
        match token_area(tokens.last()) {
            Some(a) => if a > m {
                a
            } else {
                m
            },
            None => m,
        }
    }
}

/// The area a `sizes` attribute declares.
pub open spec fn declared_area(value: Option<Seq<char>>) -> u64 {
    match value {
        None => 0,
        Some(s) => max_area(ascii_tokens(s)),
    }
}

fn token_area_exec(t: &Vec<char>) -> (r: Option<u64>)
    ensures
        r == token_area(t@),
{
    let lowered = lower_chars(t);
    if chars_eq_str(&lowered, "any") {
        return Some(ANY_AREA);
    }
    match find_char(t, 'x') {
        None => None,
        Some(k) => {
            assert(k < t.len());
            let w = parse_u64_chars(&slice_chars(t, 0, k));
            let h = parse_u64_chars(&slice_chars(t, k + 1, t.len()));
            match (w, h) {
                (Some(w), Some(h)) => w.checked_mul(h),
                _ => None,
            }
        },
    }
}

pub fn declared_icon_area(value: Option<&str>) -> (r: u64)
    ensures
        r == declared_area(match value {
            Some(s) => Some(s@),
            None => None,
        }),
{
    let s = match value {
        None => {
            return 0;
        },
        Some(s) => s,
    };
    let v = chars_of(s);
    let tokens = split_ascii_white(&v);
    let n = tokens.len();
    let mut best: u64 = 0;
    let mut i: usize = 0;
    while i < n
        invariant
            i <= n,
            n == tokens.len(),
            best == max_area(vecs_view(tokens@).take(i as int)),
        decreases n - i,
    {
        let a = token_area_exec(&tokens[i]);
        proof {
            let t = vecs_view(tokens@).take(i + 1);
            assert(t.drop_last() =~= vecs_view(tokens@).take(i as int));
            assert(t.last() == tokens@[i as int]@);
        }
        match a {
            Some(a) => if a > best {
                best = a;
            },
            None => {},
        }
        i = i + 1;
    }
    proof {
        assert(vecs_view(tokens@).take(n as int) =~= vecs_view(tokens@));
    }
    best
}

/// The elements of a JSON array (`Value::as_array`).
pub uninterp spec fn json_as_array_of(v: serde_json::Value) -> Option<Seq<serde_json::Value>>;

/// `Value::as_array`, the elements copied out.
#[verifier::external_body]
fn json_as_array(v: &serde_json::Value) -> (r: Option<Vec<serde_json::Value>>)
    ensures
        match r {
            Some(a) => json_as_array_of(*v) == Some(a@),
            None => json_as_array_of(*v) is None,
        },
{
    v.as_array().cloned()
}

/// The icon entries a web app manifest lists: its `icons` array, or none
/// where the bytes are not JSON or hold no such array.
pub open spec fn manifest_icons(bytes: Seq<u8>) -> Seq<serde_json::Value> {
    match json_value_of(bytes) {
        Some(m) => match json_pointer_of(m, "/icons"@) {
            Some(a) => match json_as_array_of(a) {
                Some(icons) => icons,
                None => Seq::empty(),
            },
            None => Seq::empty(),
        },
        None => Seq::empty(),
    }
}

/// Each icon entry with a `src` string, as that address and its declared area.
pub open spec fn manifest_entries(icons: Seq<serde_json::Value>) -> Seq<(Seq<char>, u64)>
    decreases icons.len(),
{
    if icons.len() == 0 {
        Seq::empty()
    } else {
        let rest = manifest_entries(icons.drop_last());
        match json_str_at(icons.last(), "/src"@) {
            Some(src) => rest.push((src, declared_area(json_str_at(icons.last(), "/sizes"@)))),
            None => rest,
        }
    }
}

pub open spec fn entries_view(v: Seq<(String, u64)>) -> Seq<(Seq<char>, u64)> {
    v.map_values(|e: (String, u64)| (e.0@, e.1))
}

/// The icons a web app manifest offers, in order: the `src` text of each
/// entry that has one, with the area its `sizes` declares. Addresses are
/// resolved against the manifest's own address by the transport.
pub fn manifest_icon_entries(bytes: &[u8]) -> (r: Vec<(String, u64)>)
    ensures
        entries_view(r@) == manifest_entries(manifest_icons(bytes@)),
{
    let mut out: Vec<(String, u64)> = Vec::new();
    let manifest = match parse_json(bytes) {
        Some(m) => m,
        None => {
            return out;
        },
    };
    let array = match json_pointer(&manifest, "/icons") {
        Some(a) => a,
        None => {
            return out;
        },
    };
    let icons = match json_as_array(&array) {
        Some(icons) => icons,
        None => {
            return out;
        },
    };
    let ghost all = icons@;
    let mut i: usize = 0;
    while i < icons.len()
        invariant
            i <= icons.len(),
            all == icons@,
            all == manifest_icons(bytes@),
            entries_view(out@) == manifest_entries(all.take(i as int)),
        decreases icons.len() - i,
    {
        proof {
            assert(all.take(i + 1).drop_last() =~= all.take(i as int));
            assert(all.take(i + 1).last() == all[i as int]);
        }
        match str_at(&icons[i], "/src") {
            Some(src) => {
                let sizes = str_at(&icons[i], "/sizes");
                let area = match &sizes {
                    Some(t) => declared_icon_area(Some(t.as_str())),
                    None => declared_icon_area(None),
                };
                let ghost before = out@;
                out.push((src, area));
                proof {
                    assert(entries_view(out@) =~= entries_view(before).push(
                        (out@.last().0@, area),
                    ));
                }
            },
            None => {},
        }
        i = i + 1;
    }
    proof {
        assert(all.take(i as int) =~= all);
    }
    out
}

/// What a `rel` attribute declares: (manifest, standard icon, Apple touch icon).
pub open spec fn rel_kinds(rel: Seq<char>) -> (bool, bool, bool) {
    let ts = ascii_tokens(rel);
    (
        exists|i: int| 0 <= i < ts.len() && lower_seq(#[trigger] ts[i]) == "manifest"@,
        exists|i: int| 0 <= i < ts.len() && lower_seq(#[trigger] ts[i]) == "icon"@,
        exists|i: int|
            0 <= i < ts.len() && (lower_seq(#[trigger] ts[i]) == "apple-touch-icon"@ || lower_seq(
                ts[i],
            ) == "apple-touch-icon-precomposed"@),
    )
}

pub fn link_kinds(rel: &str) -> (r: (bool, bool, bool))
    ensures
        r == rel_kinds(rel@),
{
    let v = chars_of(rel);
    let tokens = split_ascii_white(&v);
    let ghost ts = vecs_view(tokens@);
    let n = tokens.len();
    let mut manifest = false;
    let mut standard = false;
    let mut apple = false;
    let mut i: usize = 0;
    while i < n
        invariant
            i <= n,
            n == tokens.len(),
            ts == vecs_view(tokens@),
            manifest == exists|k: int| 0 <= k < i && lower_seq(#[trigger] ts[k]) == "manifest"@,
            standard == exists|k: int| 0 <= k < i && lower_seq(#[trigger] ts[k]) == "icon"@,
            apple == exists|k: int|
                0 <= k < i && (lower_seq(#[trigger] ts[k]) == "apple-touch-icon"@ || lower_seq(
                    ts[k],
                ) == "apple-touch-icon-precomposed"@),
        decreases n - i,
    {
        let t = lower_chars(&tokens[i]);
        proof {
            assert(ts[i as int] == tokens@[i as int]@);
        }
        let m = chars_eq_str(&t, "manifest");
        let s = chars_eq_str(&t, "icon");
        let a = chars_eq_str(&t, "apple-touch-icon") || chars_eq_str(
            &t,
            "apple-touch-icon-precomposed",
        );
        manifest = manifest || m;
        standard = standard || s;
        apple = apple || a;
        i = i + 1;
    }
    (manifest, standard, apple)
}

/// A candidate icon address with its declared area and source priority.
#[derive(Clone, Debug, PartialEq, Eq)]
pub struct IconCandidate {
    pub url: String,
    pub declared_area: u64,
    pub source_priority: u8,
}

fn copy_candidate(c: &IconCandidate) -> (r: IconCandidate)
    ensures
        r == *c,
{
    IconCandidate {
        url: c.url.clone(),
        declared_area: c.declared_area,
        source_priority: c.source_priority,
    }
}

/// The priority of an HTML icon link: one point each for a standard icon and
/// an Apple touch icon relation.
pub fn link_priority(standard: bool, apple: bool) -> (p: u8)
    ensures
        p == (if standard { 1u8 } else { 0u8 }) + (if apple { 1u8 } else { 0u8 }),
{
    (if standard { 1u8 } else { 0u8 }) + (if apple { 1u8 } else { 0u8 })
}

pub open spec fn urls(list: Seq<IconCandidate>) -> Seq<Seq<char>> {
    list.map_values(|c: IconCandidate| c.url@)
}

/// Adds a candidate unless one with the same address is already listed.
pub fn push_icon_candidate(list: &mut Vec<IconCandidate>, candidate: IconCandidate)
    ensures
        urls(old(list)@).contains(candidate.url@) ==> final(list)@ == old(list)@,
        !urls(old(list)@).contains(candidate.url@) ==> final(list)@ == old(list)@.push(
            candidate,
        ),
{
    let u = chars_of(candidate.url.as_str());
    let n = list.len();
    let mut i: usize = 0;
    while i < n
        invariant
            i <= n,
            n == list.len(),
            u@ == candidate.url@,
            forall|k: int| 0 <= k < i ==> list@[k].url@ != candidate.url@,
        decreases n - i,
    {
        let w = chars_of(list[i].url.as_str());
        if chars_eq(&w, &u) {
            proof {
                assert(urls(list@)[i as int] == candidate.url@);
            }
            return;
        }
        i = i + 1;
    }
    proof {
        if urls(list@).contains(candidate.url@) {
            let k = choose|k: int| 0 <= k < n && urls(list@)[k] == candidate.url@;
            assert(list@[k].url@ == candidate.url@);
        }
    }
    list.push(candidate);
}

/// No address is listed twice.
pub open spec fn unique_urls(list: Seq<IconCandidate>) -> bool {
    forall|i: int, j: int|
        0 <= i < j < list.len() ==> (#[trigger] list[i]).url@ != (#[trigger] list[j]).url@
}

/// Adding candidates one by one never lists an address twice, whatever the
/// page or manifest repeats.
pub proof fn lemma_icon_candidates_stay_unique(list: Seq<IconCandidate>, candidate: IconCandidate)
    requires
        unique_urls(list),
    ensures
        unique_urls(
            if urls(list).contains(candidate.url@) {
                list
            } else {
                list.push(candidate)
            },
        ),
{
    if !urls(list).contains(candidate.url@) {
        let l = list.push(candidate);
        assert forall|i: int, j: int| 0 <= i < j < l.len() implies (#[trigger] l[i]).url@ != (
        #[trigger] l[j]).url@ by {
            if j == list.len() {
                assert(urls(list)[i] == list[i].url@);
            } else {
                assert(l[i] == list[i] && l[j] == list[j]);
            }
        }
    }
}

/// The icon candidates and manifest addresses a page links to.
#[derive(Default, Debug)]
pub struct IconLinks {
    pub icons: Vec<IconCandidate>,
    pub manifests: Vec<String>,
}

/// One `<link>` start tag with a `rel`, a resolved fetchable address and an
/// optional `sizes`: a manifest relation lists the address once among the
/// manifests; an icon relation adds a candidate unless its address is listed,
/// with its declared area and one point per icon kind.
pub fn add_link(links: &mut IconLinks, rel: &str, url: String, sizes: Option<&str>)
    ensures
        ({
            let k = rel_kinds(rel@);
            let fresh = !vecs_strings(old(links).manifests@).contains(url@);
            &&& k.0 && fresh ==> final(links).manifests@ == old(links).manifests@.push(url)
            &&& !(k.0 && fresh) ==> final(links).manifests@ == old(links).manifests@
        }),
        ({
            let k = rel_kinds(rel@);
            let listed = urls(old(links).icons@).contains(url@);
            let c = IconCandidate {
                url: url,
                declared_area: declared_area(opt_str(sizes)),
                source_priority: ((if k.1 { 1int } else { 0int }) + (if k.2 { 1int } else { 0int })) as u8,
            };
            &&& !(k.1 || k.2) || listed ==> final(links).icons@ == old(links).icons@
            &&& (k.1 || k.2) && !listed ==> final(links).icons@ == old(links).icons@.push(c)
        }),
{
    let (manifest, standard, apple) = link_kinds(rel);
    if manifest {
        let u = chars_of(url.as_str());
        let n = links.manifests.len();
        let mut i: usize = 0;
        let mut listed = false;
        while i < n
            invariant
                i <= n,
                n == links.manifests.len(),
                u@ == url@,
                listed == exists|k: int| 0 <= k < i && links.manifests@[k]@ == url@,
            decreases n - i,
        {
            let w = chars_of(links.manifests[i].as_str());
            if chars_eq(&w, &u) {
                listed = true;
            }
            i = i + 1;
        }
        proof {
            let v = vecs_strings(links.manifests@);
            assert(v.contains(url@) <==> exists|k: int| 0 <= k < n && links.manifests@[k]@ == url@)
                by {
                if v.contains(url@) {
                    let k = choose|k: int| 0 <= k < v.len() && v[k] == url@;
                    assert(links.manifests@[k]@ == url@);
                }
                if exists|k: int| 0 <= k < n && links.manifests@[k]@ == url@ {
                    let k = choose|k: int| 0 <= k < n && links.manifests@[k]@ == url@;
                    assert(v[k] == url@);
                }
            }
        }
        if !listed {
            links.manifests.push(url.clone());
        }
    }
    if standard || apple {
        let candidate = IconCandidate {
            url,
            declared_area: declared_icon_area(sizes),
            source_priority: link_priority(standard, apple),
        };
        push_icon_candidate(&mut links.icons, candidate);
    }
}

pub open spec fn opt_str(o: Option<&str>) -> Option<Seq<char>> {
    match o {
        Some(t) => Some(t@),
        None => None,
    }
}

pub open spec fn vecs_strings(v: Seq<String>) -> Seq<Seq<char>> {
    v.map_values(|s: String| s@)
}

/// Candidate order: larger declared area first, then higher source priority,
/// then the order in which candidates were found.
pub open spec fn ranks_before(list: Seq<IconCandidate>, i: int, j: int) -> bool {
    let a = list[i];
    let b = list[j];
    a.declared_area > b.declared_area || (a.declared_area == b.declared_area && (a.source_priority
        > b.source_priority || (a.source_priority == b.source_priority && i < j)))
}

/// The positions of the candidates other than the fallback address.
pub open spec fn ranked_positions(list: Seq<IconCandidate>, fallback: Seq<char>, r: Seq<usize>) -> bool {
    &&& forall|p: int, q: int|
        0 <= p < q < r.len() ==> ranks_before(list, #[trigger] r[p] as int, #[trigger] r[q] as int)
    &&& forall|k: int|
        0 <= k < list.len() ==> (list[k].url@ != fallback <==> r.contains(k as usize))
    &&& forall|p: int| 0 <= p < r.len() ==> (#[trigger] r[p] as int) < list.len()
}

fn ranks_before_exec(list: &Vec<IconCandidate>, i: usize, j: usize) -> (b: bool)
    requires
        i < list.len(),
        j < list.len(),
    ensures
        b == ranks_before(list@, i as int, j as int),
{
    let a = &list[i];
    let c = &list[j];
    a.declared_area > c.declared_area || (a.declared_area == c.declared_area && (
    a.source_priority > c.source_priority || (a.source_priority == c.source_priority && i < j)))
}

proof fn lemma_ranks_total(list: Seq<IconCandidate>, i: int, j: int)
    requires
        i != j,
    ensures
        ranks_before(list, i, j) || ranks_before(list, j, i),
{
}

proof fn lemma_ranks_transitive(list: Seq<IconCandidate>, i: int, j: int, k: int)
    requires
        ranks_before(list, i, j),
        ranks_before(list, j, k),
    ensures
        ranks_before(list, i, k),
{
}

/// The positions of the candidates to try, best first, without the fallback.
pub fn rank_positions(list: &Vec<IconCandidate>, fallback: &str) -> (r: Vec<usize>)
    ensures
        ranked_positions(list@, fallback@, r@),
{
    let f = chars_of(fallback);
    let n = list.len();
    let mut order: Vec<usize> = Vec::new();
    let mut k: usize = 0;
    while k < n
        invariant
            k <= n,
            n == list.len(),
            f@ == fallback@,
            forall|p: int, q: int|
                0 <= p < q < order@.len() ==> ranks_before(
                    list@,
                    #[trigger] order@[p] as int,
                    #[trigger] order@[q] as int,
                ),
            forall|m: int|
                0 <= m < n ==> ((m < k && list@[m].url@ != fallback@) <==> order@.contains(
                    m as usize,
                )),
            forall|p: int| 0 <= p < order@.len() ==> (#[trigger] order@[p] as int) < k,
        decreases n - k,
    {
        let u = chars_of(list[k].url.as_str());
        if !chars_eq(&u, &f) {
            let m = order.len();
            let mut p: usize = 0;
            while p < m && ranks_before_exec(list, order[p], k)
                invariant
                    p <= m,
                    m == order.len(),
                    k < n,
                    n == list.len(),
                    forall|p2: int| 0 <= p2 < order@.len() ==> (#[trigger] order@[p2] as int) < k,
                    forall|q: int|
                        0 <= q < p ==> ranks_before(list@, #[trigger] order@[q] as int, k as int),
                decreases m - p,
            {
                p = p + 1;
            }
            let ghost before = order@;
            proof {
                if p < m {
                    lemma_ranks_total(list@, before[p as int] as int, k as int);
                }
            }
            order.insert(p, k);
            proof {
                let after = order@;
                assert(after =~= before.insert(p as int, k));
                assert forall|a: int, b: int| 0 <= a < b < after.len() implies ranks_before(
                    list@,
                    #[trigger] after[a] as int,
                    #[trigger] after[b] as int,
                ) by {
                    if b < p {
                        assert(after[a] == before[a] && after[b] == before[b]);
                    } else if b == p {
                        assert(after[a] == before[a]);
                    } else if a == p {
                        assert(after[b] == before[b - 1]);
                        if b - 1 > p {
                            lemma_ranks_transitive(
                                list@,
                                k as int,
                                before[p as int] as int,
                                before[b - 1] as int,
                            );
                        }
                    } else if a < p {
                        assert(after[a] == before[a] && after[b] == before[b - 1]);
                        if b - 1 > p {
                            lemma_ranks_transitive(
                                list@,
                                k as int,
                                before[p as int] as int,
                                before[b - 1] as int,
                            );
                        }
                        lemma_ranks_transitive(list@, before[a] as int, k as int, before[b - 1] as int);
                    } else {
                        assert(after[a] == before[a - 1] && after[b] == before[b - 1]);
                    }
                }
                assert forall|x: int|
                    0 <= x < n implies ((x < k + 1 && list@[x].url@ != fallback@)
                        <==> after.contains(x as usize)) by {
                    if after.contains(x as usize) {
                        let q = choose|q: int| 0 <= q < after.len() && after[q] == x as usize;
                        if q < p {
                            assert(before[q] == x as usize);
                        } else if q > p {
                            assert(before[q - 1] == x as usize);
                        }
                    }
                    if x < k && list@[x].url@ != fallback@ {
                        let q = choose|q: int| 0 <= q < before.len() && before[q] == x as usize;
                        if q < p {
                            assert(after[q] == x as usize);
                        } else {
                            assert(after[q + 1] == x as usize);
                        }
                    }
                    if x == k {
                        assert(after[p as int] == k);
                    }
                }
                assert forall|q: int| 0 <= q < after.len() implies (#[trigger] after[q] as int) < k
                    + 1 by {
                    if q < p {
                        assert(after[q] == before[q]);
                    } else if q > p {
                        assert(after[q] == before[q - 1]);
                    }
                }
            }
        } else {
            proof {
                assert forall|x: int|
                    0 <= x < n implies ((x < k + 1 && list@[x].url@ != fallback@)
                        <==> order@.contains(x as usize)) by {
                    if order@.contains(x as usize) {
                        let q = choose|q: int| 0 <= q < order@.len() && order@[q] == x as usize;
                        assert(order@[q] < k);
                    }
                }
            }
        }
        k = k + 1;
    }
    order
}

/// The candidates to fetch: the best `ICON_CANDIDATE_LIMIT` ranked candidates,
/// then always the conventional fallback, which noisy pages cannot crowd out.
pub fn icon_fetch_plan(list: &Vec<IconCandidate>, fallback: &str) -> (r: Vec<IconCandidate>)
    ensures
        exists|order: Seq<usize>|
            ranked_positions(list@, fallback@, order) && r@.len() == (if order.len()
                > ICON_CANDIDATE_LIMIT {
                ICON_CANDIDATE_LIMIT as int
            } else {
                order.len() as int
            }) + 1 && (forall|p: int| 0 <= p < r@.len() - 1 ==> #[trigger] r@[p] == list@[order[p] as int])
                && r@.last().url@ == fallback@ && r@.last().declared_area == 0
                && r@.last().source_priority == 0,
{
    let order = rank_positions(list, fallback);
    let take = if order.len() > ICON_CANDIDATE_LIMIT {
        ICON_CANDIDATE_LIMIT
    } else {
        order.len()
    };
    let mut out: Vec<IconCandidate> = Vec::new();
    let mut i: usize = 0;
    while i < take
        invariant
            i <= take,
            take <= order.len(),
            ranked_positions(list@, fallback@, order@),
            out@.len() == i,
            forall|p: int| 0 <= p < i ==> #[trigger] out@[p] == list@[order@[p] as int],
        decreases take - i,
    {
        let c = copy_candidate(&list[order[i]]);
        out.push(c);
        i = i + 1;
    }
    let f = chars_of(fallback);
    out.push(IconCandidate { url: string_of(&f), declared_area: 0, source_priority: 0 });
    out
}

/// The score of a fetched icon: any safe SVG outranks every raster, rasters
/// rank by decoded area, and an undecodable raster has no score.
pub open spec fn icon_score(svg: bool, raster_area: Option<u64>) -> Option<(u8, u64)> {
    if svg {
        Some((2u8, u64::MAX))
    } else {
        match raster_area {
            Some(a) => Some((1u8, a)),
            None => None,
        }
    }
}

pub fn score_icon(svg: bool, raster_area: Option<u64>) -> (r: Option<(u8, u64)>)
    ensures
        r == icon_score(svg, raster_area),
{
    if svg {
        Some((2u8, u64::MAX))
    } else {
        match raster_area {
            Some(a) => Some((1u8, a)),
            None => None,
        }
    }
}

/// A fetched icon replaces the best so far only when its score is strictly
/// higher, so among equals the earlier candidate wins.
pub fn improves_best(best: Option<(u8, u64)>, score: (u8, u64)) -> (r: bool)
    ensures
        r == match best {
            None => true,
            Some(b) => crate::directory::quality_less(b, score),
        },
{
    match best {
        None => true,
        Some(b) => b.0 < score.0 || (b.0 == score.0 && b.1 < score.1),
    }
}

/// A fetched icon reply is considered only when it is a 200 with a body of
/// 1 to `ICON_LIMIT` bytes.
pub fn icon_reply_usable(status: u16, body_len: Option<usize>) -> (r: bool)
    ensures
        r == (status == 200 && body_len is Some && 0 < body_len.unwrap() <= ICON_LIMIT),
{
    match body_len {
        Some(n) => status == 200 && n > 0 && n <= ICON_LIMIT,
        None => false,
    }
}

/// The score of one fetched icon reply: a usable reply (a 200 with 1 to
/// `ICON_LIMIT` bytes) whose bytes are a safe image (`mime`) and have a score.
pub open spec fn reply_score_of(
    status: u16,
    body_len: Option<usize>,
    mime: Option<Seq<char>>,
    raster_area: Option<u64>,
) -> Option<(u8, u64)> {
    if status == 200 && body_len is Some && 0 < body_len.unwrap() <= ICON_LIMIT && mime is Some {
        icon_score(mime.unwrap() == "image/svg+xml"@, raster_area)
    } else {
        None
    }
}

pub fn reply_score(status: u16, body_len: Option<usize>, mime: Option<&str>, raster_area: Option<
    u64,
>) -> (r: Option<(u8, u64)>)
    ensures
        r == reply_score_of(status, body_len, opt_str(mime), raster_area),
{
    if !icon_reply_usable(status, body_len) {
        return None;
    }
    let m = match mime {
        Some(m) => m,
        None => {
            return None;
        },
    };
    let mv = chars_of(m);
    let svg = chars_eq_str(&mv, "image/svg+xml");
    score_icon(svg, raster_area)
}

/// The chosen icon among scored replies, in fetch order: a reply replaces the
/// best so far only when its score is strictly higher.
pub open spec fn best_of(scores: Seq<Option<(u8, u64)>>) -> Option<int>
    decreases scores.len(),
{
    if scores.len() == 0 {
        None
    } else {
        let b = best_of(scores.drop_last());
        let i = scores.len() - 1;
        match scores[i] {
            None => b,
            Some(sc) => match b {
                None => Some(i),
                Some(j) => if crate::directory::quality_less(scores[j].unwrap(), sc) {
                    Some(i)
                } else {
                    b
                },
            },
        }
    }
}

/// The position of the chosen icon among the scored replies, if any scored.
pub fn best_icon_index(scores: &Vec<Option<(u8, u64)>>) -> (r: Option<usize>)
    ensures
        match r {
            Some(i) => best_of(scores@) == Some(i as int),
            None => best_of(scores@) is None,
        },
{
    let mut best: Option<usize> = None;
    let mut i: usize = 0;
    while i < scores.len()
        invariant
            i <= scores.len(),
            match best {
                Some(j) => best_of(scores@.take(i as int)) == Some(j as int) && j < i,
                None => best_of(scores@.take(i as int)) is None,
            },
        decreases scores.len() - i,
    {
        proof {
            let t = scores@.take(i + 1);
            assert(t.drop_last() =~= scores@.take(i as int));
            assert(t[i as int] == scores@[i as int]);
            lemma_best_of_some(scores@.take(i as int));
            if best is Some {
                assert(t[best.unwrap() as int] == scores@[best.unwrap() as int]);
                assert(scores@.take(i as int)[best.unwrap() as int] == scores@[best.unwrap() as int]);
            }
        }
        match scores[i] {
            None => {},
            Some(sc) => match best {
                None => {
                    best = Some(i);
                },
                Some(j) => {
                    let b = scores[j].unwrap();
                    if b.0 < sc.0 || (b.0 == sc.0 && b.1 < sc.1) {
                        best = Some(i);
                    }
                },
            },
        }
        i = i + 1;
    }
    proof {
        assert(scores@.take(i as int) =~= scores@);
    }
    best
}

proof fn lemma_best_of_some(scores: Seq<Option<(u8, u64)>>)
    ensures
        best_of(scores) matches Some(i) ==> 0 <= i < scores.len() && scores[i] is Some,
    decreases scores.len(),
{
    if scores.len() > 0 {
        lemma_best_of_some(scores.drop_last());
    }
}

/// The chosen icon is the first with the highest score: it has a score, no
/// reply scores higher, and every earlier reply scores lower. Nothing is
/// chosen only when no reply scored.
pub proof fn lemma_best_icon_is_first_highest(scores: Seq<Option<(u8, u64)>>)
    ensures
        best_of(scores) is None <==> forall|k: int| 0 <= k < scores.len() ==> scores[k] is None,
        best_of(scores) matches Some(i) ==> {
            &&& 0 <= i < scores.len()
            &&& scores[i] is Some
            &&& forall|k: int|
                0 <= k < scores.len() && scores[k] is Some ==> !crate::directory::quality_less(
                    scores[i].unwrap(),
                    #[trigger] scores[k].unwrap(),
                )
            &&& forall|k: int|
                0 <= k < i && scores[k] is Some ==> crate::directory::quality_less(
                    #[trigger] scores[k].unwrap(),
                    scores[i].unwrap(),
                )
        },
    decreases scores.len(),
{
    if scores.len() > 0 {
        let d = scores.drop_last();
        lemma_best_icon_is_first_highest(d);
        lemma_best_of_some(d);
        assert forall|k: int| 0 <= k < d.len() implies d[k] == scores[k] by {}
    }
}

/// The steps a crawl takes after reading a site's root page.
#[derive(Clone, Copy, Debug, PartialEq, Eq, Structural)]
pub struct CollectPlan {
    /// Read the site's nodeinfo.
    pub nodeinfo: bool,
    /// Collect an icon.
    pub icons: bool,
    /// How many of the page's manifests to read for icons.
    pub manifests: usize,
}

/// How many manifests a crawl reads.
pub const MANIFEST_FETCH_LIMIT: usize = 2;

/// A crawl goes on only for a live site: it reads nodeinfo, and it collects
/// an icon only when the job asks, reading at most two of the page's manifests.
pub fn collect_plan(root_status: u16, needs_icon: bool, manifests_found: usize) -> (r: CollectPlan)
    ensures
        r.nodeinfo == (200 <= root_status < 400),
        r.icons == (200 <= root_status < 400 && needs_icon),
        r.manifests == if r.icons {
            if manifests_found < MANIFEST_FETCH_LIMIT {
                manifests_found
            } else {
                MANIFEST_FETCH_LIMIT
            }
        } else {
            0
        },
{
    let alive = site_alive(root_status);
    let icons = alive && needs_icon;
    let manifests = if !icons {
        0
    } else if manifests_found < MANIFEST_FETCH_LIMIT {
        manifests_found
    } else {
        MANIFEST_FETCH_LIMIT
    };
    CollectPlan { nodeinfo: alive, icons, manifests }
}

/// A site is alive when its root page answers with a 2xx or 3xx status.
pub fn site_alive(status: u16) -> (r: bool)
    ensures
        r == (200 <= status < 400),
{
    200 <= status && status < 400
}

/// A response time in milliseconds, saturated to the stored integer range.
pub fn response_ms(elapsed_ms: u128) -> (r: i32)
    ensures
        elapsed_ms <= i32::MAX ==> r == elapsed_ms,
        elapsed_ms > i32::MAX ==> r == i32::MAX,
{
    if elapsed_ms > 2_147_483_647u128 {
        i32::MAX
    } else {
        elapsed_ms as i32
    }
}

/// Raster formats that signature recognition can report.
#[derive(Clone, Copy, Debug, PartialEq, Eq, Structural)]
pub enum RasterFormat {
    Png,
    Jpeg,
    Gif,
    WebP,
    Ico,
    Avif,
    Bmp,
    Tiff,
    Other,
}

/// Whether `b` begins with `p`.
pub open spec fn has_prefix(b: Seq<u8>, p: Seq<u8>) -> bool {
    p.len() <= b.len() && b.subrange(0, p.len() as int) == p
}

/// The raster format that `image::guess_format` recognizes by the first
/// matching entry of its magic-byte table: PNG, JPEG, GIF (87a and 89a),
/// WebP (`RIFF`, any four bytes, `WEBP`), TIFF (both byte orders), BMP, ICO,
/// and AVIF (two zero bytes, any two bytes, `ftypavif`). The table's other
/// entries (DDS, HDR, OpenEXR, QOI, PNM, farbfeld) and no match are `Other`;
/// none of them shares a prefix with an earlier raster entry.
pub open spec fn format_of(b: Seq<u8>) -> RasterFormat {
    if has_prefix(b, seq![0x89u8, 0x50u8, 0x4Eu8, 0x47u8, 0x0Du8, 0x0Au8, 0x1Au8, 0x0Au8]) {
        RasterFormat::Png
    } else if has_prefix(b, seq![0xFFu8, 0xD8u8, 0xFFu8]) {
        RasterFormat::Jpeg
    } else if has_prefix(b, seq![0x47u8, 0x49u8, 0x46u8, 0x38u8, 0x39u8, 0x61u8]) || has_prefix(
        b,
        seq![0x47u8, 0x49u8, 0x46u8, 0x38u8, 0x37u8, 0x61u8],
    ) {
        RasterFormat::Gif
    } else if b.len() >= 12 && b.subrange(0, 4) == seq![0x52u8, 0x49u8, 0x46u8, 0x46u8]
        && b.subrange(8, 12) == seq![0x57u8, 0x45u8, 0x42u8, 0x50u8] {
        RasterFormat::WebP
    } else if has_prefix(b, seq![0x4Du8, 0x4Du8, 0x00u8, 0x2Au8]) || has_prefix(
        b,
        seq![0x49u8, 0x49u8, 0x2Au8, 0x00u8],
    ) {
        RasterFormat::Tiff
    } else if has_prefix(b, seq![0x42u8, 0x4Du8]) {
        RasterFormat::Bmp
    } else if has_prefix(b, seq![0x00u8, 0x00u8, 0x01u8, 0x00u8]) {
        RasterFormat::Ico
    } else if b.len() >= 12 && b[0] == 0 && b[1] == 0 && b.subrange(4, 12) == seq![
        0x66u8,
        0x74u8,
        0x79u8,
        0x70u8,
        0x61u8,
        0x76u8,
        0x69u8,
        0x66u8,
    ] {
        RasterFormat::Avif
    } else {
        RasterFormat::Other
    }
}

/// `image::guess_format`, one arm per recognized raster format; anything else
/// (including an unrecognized signature) is `Other`. Its result is the
/// signature table stated in `format_of`.
#[verifier::external_body]
fn guess_format(bytes: &[u8]) -> (r: RasterFormat)
    ensures
        r == format_of(bytes@),
{
    match image::guess_format(bytes) {
        Ok(ImageFormat::Png) => RasterFormat::Png,
        Ok(ImageFormat::Jpeg) => RasterFormat::Jpeg,
        Ok(ImageFormat::Gif) => RasterFormat::Gif,
        Ok(ImageFormat::WebP) => RasterFormat::WebP,
        Ok(ImageFormat::Ico) => RasterFormat::Ico,
        Ok(ImageFormat::Avif) => RasterFormat::Avif,
        Ok(ImageFormat::Bmp) => RasterFormat::Bmp,
        Ok(ImageFormat::Tiff) => RasterFormat::Tiff,
        _ => RasterFormat::Other,
    }
}

/// The MIME type served for an allowed raster format.
pub open spec fn raster_mime(f: RasterFormat) -> Option<Seq<char>> {
    match f {
        RasterFormat::Png => Some("image/png"@),
        RasterFormat::Jpeg => Some("image/jpeg"@),
        RasterFormat::Gif => Some("image/gif"@),
        RasterFormat::WebP => Some("image/webp"@),
        RasterFormat::Ico => Some("image/x-icon"@),
        RasterFormat::Avif => Some("image/avif"@),
        RasterFormat::Bmp => Some("image/bmp"@),
        RasterFormat::Tiff => Some("image/tiff"@),
        RasterFormat::Other => None,
    }
}

/// Imported bytes are kept intact: signature recognition picks the MIME type
/// from an explicit raster allowlist, never from remote content types.
pub fn image_mime(bytes: &[u8]) -> (r: Option<&'static str>)
    ensures
        match r {
            Some(m) => raster_mime(format_of(bytes@)) == Some(m@),
            None => raster_mime(format_of(bytes@)) is None,
        },
{
    match guess_format(bytes) {
        RasterFormat::Png => Some("image/png"),
        RasterFormat::Jpeg => Some("image/jpeg"),
        RasterFormat::Gif => Some("image/gif"),
        RasterFormat::WebP => Some("image/webp"),
        RasterFormat::Ico => Some("image/x-icon"),
        RasterFormat::Avif => Some("image/avif"),
        RasterFormat::Bmp => Some("image/bmp"),
        RasterFormat::Tiff => Some("image/tiff"),
        RasterFormat::Other => None,
    }
}

/// The public-site transport. It follows at most three redirects and reads a
/// body only up to its cap; the network exchange itself runs outside the
/// library and asks these rules at each step.
pub struct PublicHttp;

/// The statuses that redirect.
pub open spec fn redirect_status(status: u16) -> bool {
    status == 301 || status == 302 || status == 303 || status == 307 || status == 308
}

impl PublicHttp {
    /// How many redirects a read follows.
    pub const MAX_REDIRECTS: u8 = 3;

    /// After the response to request number `redirect` (from 0): `Ok(true)`
    /// follows a redirect, `Ok(false)` reads this response, and a redirect past
    /// the limit fails.
    pub fn after_status(&self, status: u16, redirect: u8) -> (r: Result<bool, &'static str>)
        requires
            redirect <= Self::MAX_REDIRECTS,
        ensures
            !redirect_status(status) ==> r == Ok::<bool, &'static str>(false),
            redirect_status(status) && redirect < 3 ==> r == Ok::<bool, &'static str>(true),
            redirect_status(status) && redirect == 3 ==> (r matches Err(e) && e@
                == "redirect_limit"@),
    {
        if status == 301 || status == 302 || status == 303 || status == 307 || status == 308 {
            if redirect == Self::MAX_REDIRECTS {
                return Err("redirect_limit");
            }
            return Ok(true);
        }
        Ok(false)
    }

    /// A declared length over the cap fails the body before it is read; the
    /// response still counts for health.
    pub fn body_start(&self, content_length: Option<u64>, cap: usize) -> (r: Result<
        Vec<u8>,
        &'static str,
    >)
        ensures
            (content_length matches Some(n) && n > cap) ==> (r matches Err(e) && e@
                == "body_too_large"@),
            !(content_length matches Some(n) && n > cap) ==> (r matches Ok(b) && b@.len() == 0),
    {
        match content_length {
            Some(n) => if n > cap as u64 {
                return Err("body_too_large");
            },
            None => {},
        }
        Ok(Vec::new())
    }

    /// Adds a received chunk to a body of at most `cap` bytes; a chunk that
    /// would pass the cap fails the body instead. A kept body never exceeds
    /// the cap.
    pub fn body_chunk(&self, body: Vec<u8>, chunk: &[u8], cap: usize) -> (r: Result<
        Vec<u8>,
        &'static str,
    >)
        requires
            body@.len() <= cap,
        ensures
            body@.len() + chunk@.len() > cap ==> (r matches Err(e) && e@ == "body_too_large"@),
            body@.len() + chunk@.len() <= cap ==> (r matches Ok(b) && b@ == body@ + chunk@),
            r matches Ok(b) ==> b@.len() <= cap,
    {
        if chunk.len() > cap - body.len() {
            return Err("body_too_large");
        }
        let mut body = body;
        let ghost start = body@;
        let mut i: usize = 0;
        while i < chunk.len()
            invariant
                i <= chunk@.len(),
                body@ == start + chunk@.take(i as int),
            decreases chunk.len() - i,
        {
            body.push(chunk[i]);
            proof {
                assert(chunk@.take(i + 1) =~= chunk@.take(i as int).push(chunk@[i as int]));
            }
            i = i + 1;
        }
        proof {
            assert(chunk@.take(i as int) =~= chunk@);
        }
        Ok(body)
    }
}

} // verus!
