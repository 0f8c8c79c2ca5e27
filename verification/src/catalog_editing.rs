//! Catalog contribution validation, separate from persistence and member
//! authentication: identifiers, bounded plain text, category sets and safe
//! website links, plus the revision rules of a catalog edit.
use crate::auth::AuthError;
use crate::text::{
    chars_eq, chars_of, has_no_control, is_ascii_alnum, is_ascii_digit, is_ascii_lower,
    is_control, is_white_space, is_white_space_char, lower_chars, lower_seq, no_control,
    normalize, normalize_chars, is_plain_text, prefix_eq, starts_with, plain_text, string_of, trim, trim_chars, utf8_len,
    utf8_len_at_most,
};
use vstd::prelude::*;

verus! {

#[derive(Clone, Copy, Debug, PartialEq, Eq, Structural)]
pub enum Error {
    Auth(AuthError),
    Invalid,
    Missing,
    Duplicate,
    Conflict,
    Locked,
    Forbidden,
    RateLimited,
    Unavailable,
}

/// The text `message` gives.
pub open spec fn edit_message(e: Error) -> Seq<char> {
    match e {
        Error::Auth(e) => crate::auth::auth_message(e),
        Error::Invalid => "입력 길이·종류·웹사이트 주소를 확인해 주세요."@,
        Error::Missing => "해당 소프트웨어·분류·버전을 찾을 수 없어요."@,
        Error::Duplicate => "이미 등록된 식별자예요. 기존 정보를 수정해 주세요."@,
        Error::Conflict => "다른 수정이 먼저 저장됐어요. 입력은 남겨두었으니 최신 내용과 비교해 주세요."@,
        Error::Locked => "이 항목은 현재 편집이 잠겨 있어요."@,
        Error::Forbidden => "관리자만 사용할 수 있어요."@,
        Error::RateLimited => "짧은 시간에 수정이 많아요. 잠시 후 다시 저장해 주세요."@,
        Error::Unavailable => "정보를 처리하지 못했어요. 잠시 후 다시 시도해 주세요."@,
    }
}

impl Error {
    /// The message shown to contributors.
    pub fn message(&self) -> (r: &'static str)
        ensures
            r@ == edit_message(*self),
    {
        match self {
            Error::Auth(e) => e.message(),
            Error::Invalid => "입력 길이·종류·웹사이트 주소를 확인해 주세요.",
            Error::Missing => "해당 소프트웨어·분류·버전을 찾을 수 없어요.",
            Error::Duplicate => "이미 등록된 식별자예요. 기존 정보를 수정해 주세요.",
            Error::Conflict => "다른 수정이 먼저 저장됐어요. 입력은 남겨두었으니 최신 내용과 비교해 주세요.",
            Error::Locked => "이 항목은 현재 편집이 잠겨 있어요.",
            Error::Forbidden => "관리자만 사용할 수 있어요.",
            Error::RateLimited => "짧은 시간에 수정이 많아요. 잠시 후 다시 저장해 주세요.",
            Error::Unavailable => "정보를 처리하지 못했어요. 잠시 후 다시 시도해 주세요.",
        }
    }
}

/// The member-editable fields of a catalog entry.
#[derive(Clone, Debug, Default)]
pub struct SoftwareEdit {
    pub display_name: String,
    pub family: String,
    pub description: String,
    pub tech_stack: String,
    pub website_url: String,
    pub categories: Vec<String>,
    pub features: Vec<String>,
}

pub struct EditView {
    pub display_name: Seq<char>,
    pub family: Seq<char>,
    pub description: Seq<char>,
    pub tech_stack: Seq<char>,
    pub website_url: Seq<char>,
    pub categories: Seq<Seq<char>>,
    pub features: Seq<Seq<char>>,
}

pub open spec fn strings_view(v: Seq<String>) -> Seq<Seq<char>> {
    v.map_values(|s: String| s@)
}

impl View for SoftwareEdit {
    type V = EditView;

    open spec fn view(&self) -> EditView {
        EditView {
            display_name: self.display_name@,
            family: self.family@,
            description: self.description@,
            tech_stack: self.tech_stack@,
            website_url: self.website_url@,
            categories: strings_view(self.categories@),
            features: strings_view(self.features@),
        }
    }
}

/// An edit that passed `validate`, with its change summary.
pub struct ValidatedEdit {
    pub edit: SoftwareEdit,
    pub summary: String,
}

pub open spec fn name_char(c: char) -> bool {
    is_ascii_lower(c) || is_ascii_digit(c) || c == '-' || c == '_'
}

/// A new catalog identifier after trimming and lowercasing: 1 to 64 bytes of
/// `a-z`, `0-9`, `-`, `_`, starting with a letter or digit.
pub open spec fn new_name_ok(s: Seq<char>) -> bool {
    let n = lower_seq(trim(s));
    &&& n.len() > 0
    &&& utf8_len(n) <= 64
    &&& forall|i: int| 0 <= i < n.len() ==> name_char(#[trigger] n[i])
    &&& is_ascii_alnum(n[0])
}

/// An identifier is accepted exactly when, trimmed and lowercased, it is 1 to
/// 64 bytes of ASCII lowercase letters, digits, hyphens and underscores and
/// begins with a letter or digit.
pub proof fn lemma_new_name_character_class(s: Seq<char>)
    ensures
        new_name_ok(s) <==> ({
            let n = lower_seq(trim(s));
            &&& n.len() > 0
            &&& utf8_len(n) <= 64
            &&& forall|i: int|
                0 <= i < n.len() ==> ('a' <= #[trigger] n[i] && n[i] <= 'z') || ('0' <= n[i]
                    && n[i] <= '9') || n[i] == '-' || n[i] == '_'
            &&& ('a' <= n[0] && n[0] <= 'z') || ('0' <= n[0] && n[0] <= '9')
        }),
{
}

pub fn new_name(input: &str) -> (r: Result<String, Error>)
    ensures
        r is Ok <==> new_name_ok(input@),
        r matches Ok(s) ==> s@ == lower_seq(trim(input@)),
        r matches Ok(s) ==> {
            &&& s@.len() > 0
            &&& utf8_len(s@) <= 64
            &&& forall|i: int|
                0 <= i < s@.len() ==> ('a' <= #[trigger] s@[i] && s@[i] <= 'z') || ('0' <= s@[i]
                    && s@[i] <= '9') || s@[i] == '-' || s@[i] == '_'
            &&& ('a' <= s@[0] && s@[0] <= 'z') || ('0' <= s@[0] && s@[0] <= '9')
        },
        r matches Err(e) ==> e == Error::Invalid,
{
    proof {
        lemma_new_name_character_class(input@);
    }
    let v = chars_of(input);
    let t = trim_chars(&v);
    let name = lower_chars(&t);
    if name.len() == 0 || !utf8_len_at_most(&name, 64) {
        return Err(Error::Invalid);
    }
    let n = name.len();
    let mut i: usize = 0;
    while i < n
        invariant
            i <= n,
            n == name.len(),
            name@ == lower_seq(trim(input@)),
            forall|k: int| 0 <= k < i ==> name_char(#[trigger] name@[k]),
        decreases n - i,
    {
        let c = name[i];
        if !(('a' <= c && c <= 'z') || ('0' <= c && c <= '9') || c == '-' || c == '_') {
            proof {
                assert(!name_char(name@[i as int]));
            }
            return Err(Error::Invalid);
        }
        i = i + 1;
    }
    let first = name[0];
    if !(('a' <= first && first <= 'z') || ('A' <= first && first <= 'Z') || ('0' <= first
        && first <= '9')) {
        return Err(Error::Invalid);
    }
    Ok(string_of(&name))
}

/// An existing (possibly imported) identifier: 1 to 128 bytes, no control character.
pub open spec fn existing_name_ok(s: Seq<char>) -> bool {
    s.len() > 0 && utf8_len(s) <= 128 && no_control(s)
}

pub fn existing_name(name: &str) -> (r: Result<(), Error>)
    ensures
        r is Ok <==> existing_name_ok(name@),
        r matches Err(e) ==> e == Error::Invalid,
{
    let v = chars_of(name);
    if v.len() == 0 || !utf8_len_at_most(&v, 128) || !has_no_control(&v) {
        Err(Error::Invalid)
    } else {
        Ok(())
    }
}

/// Bounded plain text: after normalization at most `max` characters and no
/// control character (line feed and tab allowed when `lines`).
pub open spec fn text_ok(s: Seq<char>, max: nat, lines: bool) -> bool {
    let t = normalize(s);
    t.len() <= max && plain_text(t, lines)
}

/// Normalizes `value` in place, then checks it as bounded plain text.
pub fn text(value: &mut String, max: usize, multiline: bool) -> (r: Result<(), Error>)
    ensures
        final(value)@ == normalize(old(value)@),
        r is Ok <==> text_ok(old(value)@, max as nat, multiline),
        r matches Err(e) ==> e == Error::Invalid,
{
    let v = chars_of(value.as_str());
    let t = normalize_chars(&v);
    *value = string_of(&t);
    if t.len() > max || !is_plain_text(&t, multiline) {
        return Err(Error::Invalid);
    }
    Ok(())
}

/// Characters never accepted in a navigable link.
pub open spec fn link_forbidden(c: char) -> bool {
    is_white_space(c) || is_control(c) || c == '\\' || c == '"' || c == '<' || c == '>' || c
        == '`'
}

/// A link that may be rendered as navigation: an absolute `http` or `https`
/// address with no white space, control, backslash, quote, angle bracket or backtick.
pub open spec fn web_link_ok(s: Seq<char>) -> bool {
    &&& (starts_with(s, "https://"@) || starts_with(s, "http://"@))
    &&& forall|i: int| 0 <= i < s.len() ==> !link_forbidden(#[trigger] s[i])
}

/// The link to render for a stored website address, if it is safe to navigate.
pub fn web_link(value: &str) -> (r: Option<String>)
    ensures
        r is Some <==> web_link_ok(value@),
        r matches Some(s) ==> s@ == value@,
{
    let v = chars_of(value);
    if !prefix_eq(&v, "https://") && !prefix_eq(&v, "http://") {
        return None;
    }
    let n = v.len();
    let mut i: usize = 0;
    while i < n
        invariant
            i <= n,
            n == v.len(),
            v@ == value@,
            starts_with(v@, "https://"@) || starts_with(v@, "http://"@),
            forall|k: int| 0 <= k < i ==> !link_forbidden(#[trigger] v@[k]),
        decreases n - i,
    {
        let c = v[i];
        let u: u32 = c as u32;
        if is_white_space_char(c) || u <= 0x1F || (0x7F <= u && u <= 0x9F) || c == '\\' || c
            == '"' || c == '<' || c == '>' || c == '`' {
            proof {
                assert(link_forbidden(v@[i as int]));
            }
            return None;
        }
        i = i + 1;
    }
    Some(string_of(&v))
}

/// What URL parsing reports of an address: whether it parses, and then
/// (has a host, has an empty user name, has a password).
pub uninterp spec fn url_facts(s: Seq<char>) -> Option<(bool, bool, bool, Seq<char>)>;

/// `url::Url::parse`, reading `host().is_some()`, `username().is_empty()`,
/// `password().is_some()` and `path()` of the parsed address.
#[verifier::external_body]
pub(crate) fn parse_url_facts(s: &str) -> (r: Option<(bool, bool, bool, String)>)
    ensures
        r is Some <==> url_facts(s@) is Some,
        r is Some ==> url_facts(s@) == Some(
            (r.unwrap().0, r.unwrap().1, r.unwrap().2, r.unwrap().3@),
        ),
{
    let u = url::Url::parse(s).ok()?;
    Some((u.host().is_some(), u.username().is_empty(), u.password().is_some(), u.path().to_string()))
}

/// An acceptable website address: empty, or a navigable link that parses with
/// a host and without credentials.
pub open spec fn website_ok(s: Seq<char>) -> bool {
    s.len() == 0 || (web_link_ok(s) && url_facts(s) is Some && url_facts(s).unwrap().0
        && url_facts(s).unwrap().1 && !url_facts(s).unwrap().2)
}

fn website_check(s: &String) -> (b: bool)
    ensures
        b == website_ok(s@),
{
    let v = chars_of(s.as_str());
    if v.len() == 0 {
        return true;
    }
    let facts = parse_url_facts(s.as_str());
    match facts {
        None => false,
        Some(f) => web_link(s.as_str()).is_some() && f.0 && f.1 && !f.2,
    }
}

/// Strict lexicographic order of character sequences by code point, which is
/// the byte order of their UTF-8 encodings (the order of `String`).
pub open spec fn seq_less(a: Seq<char>, b: Seq<char>) -> bool
    decreases a.len(),
{
    if a.len() == 0 {
        b.len() > 0
    } else if b.len() == 0 {
        false
    } else if a[0] != b[0] {
        (a[0] as u32) < (b[0] as u32)
    } else {
        seq_less(a.drop_first(), b.drop_first())
    }
}

pub proof fn lemma_seq_less_irreflexive(a: Seq<char>)
    ensures
        !seq_less(a, a),
    decreases a.len(),
{
    if a.len() > 0 {
        lemma_seq_less_irreflexive(a.drop_first());
    }
}

pub proof fn lemma_seq_less_transitive(a: Seq<char>, b: Seq<char>, c: Seq<char>)
    requires
        seq_less(a, b),
        seq_less(b, c),
    ensures
        seq_less(a, c),
    decreases a.len(),
{
    if a.len() > 0 && b.len() > 0 && c.len() > 0 && a[0] == b[0] && b[0] == c[0] {
        lemma_seq_less_transitive(a.drop_first(), b.drop_first(), c.drop_first());
    }
}

pub proof fn lemma_seq_less_total(a: Seq<char>, b: Seq<char>)
    requires
        a != b,
    ensures
        seq_less(a, b) || seq_less(b, a),
    decreases a.len(),
{
    if a.len() == 0 && b.len() == 0 {
        assert(a =~= b);
    }
    if a.len() > 0 && b.len() > 0 && a[0] != b[0] {
        vstd::utf8::char_u32_cast(a[0], a[0] as u32);
        vstd::utf8::char_u32_cast(b[0], b[0] as u32);
    }
    if a.len() > 0 && b.len() > 0 && a[0] == b[0] {
        if a.drop_first() == b.drop_first() {
            assert(a =~= seq![a[0]] + a.drop_first());
            assert(b =~= seq![b[0]] + b.drop_first());
        }
        lemma_seq_less_total(a.drop_first(), b.drop_first());
    }
}

fn chars_less(a: &Vec<char>, b: &Vec<char>) -> (r: bool)
    ensures
        r == seq_less(a@, b@),
{
    let mut i: usize = 0;
    proof {
        assert(a@.subrange(0, a@.len() as int) =~= a@);
        assert(b@.subrange(0, b@.len() as int) =~= b@);
    }
    while i < a.len() && i < b.len() && a[i] == b[i]
        invariant
            i <= a.len(),
            i <= b.len(),
            seq_less(a@, b@) == seq_less(a@.subrange(i as int, a@.len() as int), b@.subrange(
                i as int,
                b@.len() as int,
            )),
        decreases a.len() - i,
    {
        proof {
            let sa = a@.subrange(i as int, a@.len() as int);
            let sb = b@.subrange(i as int, b@.len() as int);
            assert(sa.drop_first() =~= a@.subrange(i + 1, a@.len() as int));
            assert(sb.drop_first() =~= b@.subrange(i + 1, b@.len() as int));
        }
        i = i + 1;
    }
    if i == a.len() {
        i < b.len()
    } else if i == b.len() {
        false
    } else {
        (a[i] as u32) < (b[i] as u32)
    }
}

/// Strictly increasing under `seq_less`: sorted, without duplicates.
pub open spec fn strictly_sorted(s: Seq<Seq<char>>) -> bool {
    forall|i: int, j: int| 0 <= i < j < s.len() ==> seq_less(#[trigger] s[i], #[trigger] s[j])
}

/// Inserts `c` into a strictly sorted list unless it is already present.
fn insert_sorted(list: &mut Vec<Vec<char>>, c: Vec<char>)
    requires
        strictly_sorted(vecs_view(old(list)@)),
    ensures
        strictly_sorted(vecs_view(final(list)@)),
        forall|x: Seq<char>|
            vecs_view(final(list)@).contains(x) <==> (vecs_view(old(list)@).contains(x) || x
                == c@),
{
    let n = list.len();
    let mut p: usize = 0;
    while p < n && chars_less(&list[p], &c)
        invariant
            p <= n,
            n == list.len(),
            forall|k: int| 0 <= k < p ==> seq_less(#[trigger] list@[k]@, c@),
        decreases n - p,
    {
        p = p + 1;
    }
    let ghost before = vecs_view(list@);
    if p < n && chars_eq(&list[p], &c) {
        proof {
            assert(before[p as int] == c@);
        }
        return;
    }
    proof {
        if p < n {
            lemma_seq_less_total(list@[p as int]@, c@);
        }
    }
    list.insert(p, c);
    proof {
        let after = vecs_view(list@);
        assert(after =~= before.insert(p as int, c@));
        assert forall|i: int, j: int| 0 <= i < j < after.len() implies seq_less(
            #[trigger] after[i],
            #[trigger] after[j],
        ) by {
            if j < p {
                assert(after[i] == before[i] && after[j] == before[j]);
            } else if j == p {
                assert(after[i] == before[i]);
            } else if i == p {
                assert(after[j] == before[j - 1]);
                if j - 1 > p {
                    assert(seq_less(before[p as int], before[j - 1]));
                    lemma_seq_less_transitive(c@, before[p as int], before[j - 1]);
                }
            } else if i < p {
                assert(after[i] == before[i] && after[j] == before[j - 1]);
                assert(seq_less(before[i], c@));
                if j - 1 >= p {
                    if j - 1 > p {
                        assert(seq_less(before[p as int], before[j - 1]));
                        lemma_seq_less_transitive(c@, before[p as int], before[j - 1]);
                    }
                    lemma_seq_less_transitive(before[i], c@, before[j - 1]);
                }
            } else {
                assert(after[i] == before[i - 1] && after[j] == before[j - 1]);
            }
        }
        assert forall|x: Seq<char>| after.contains(x) <==> (before.contains(x) || x == c@) by {
            if after.contains(x) {
                let k = choose|k: int| 0 <= k < after.len() && after[k] == x;
                if k < p {
                    assert(before[k] == x);
                } else if k > p {
                    assert(before[k - 1] == x);
                }
            }
            if before.contains(x) {
                let k = choose|k: int| 0 <= k < before.len() && before[k] == x;
                if k < p {
                    assert(after[k] == x);
                } else {
                    assert(after[k + 1] == x);
                }
            }
            if x == c@ {
                assert(after[p as int] == x);
            }
        }
    }
}

pub open spec fn vecs_view(v: Seq<Vec<char>>) -> Seq<Seq<char>> {
    v.map_values(|s: Vec<char>| s@)
}

/// Each entry normalized.
pub open spec fn normalize_all(s: Seq<Seq<char>>) -> Seq<Seq<char>> {
    s.map_values(|x: Seq<char>| normalize(x))
}

/// The entries that are not empty, in order.
pub open spec fn non_empty(s: Seq<Seq<char>>) -> Seq<Seq<char>>
    decreases s.len(),
{
    if s.len() == 0 {
        s
    } else if s.last().len() > 0 {
        non_empty(s.drop_last()).push(s.last())
    } else {
        non_empty(s.drop_last())
    }
}

/// `Vec::dedup`: runs of equal consecutive entries reduced to one.
pub open spec fn dedup_adjacent(s: Seq<Seq<char>>) -> Seq<Seq<char>>
    decreases s.len(),
{
    if s.len() == 0 {
        s
    } else {
        let p = dedup_adjacent(s.drop_last());
        if p.len() > 0 && p.last() == s.last() {
            p
        } else {
            p.push(s.last())
        }
    }
}

/// Every category is acceptable bounded text that stays non-empty.
pub open spec fn categories_ok(s: Seq<Seq<char>>) -> bool {
    forall|i: int|
        0 <= i < s.len() ==> text_ok(#[trigger] s[i], 128, false) && normalize(s[i]).len() > 0
}

pub open spec fn features_ok(s: Seq<Seq<char>>) -> bool {
    forall|i: int| 0 <= i < s.len() ==> text_ok(#[trigger] s[i], 300, false)
}

/// When a contribution is accepted.
pub open spec fn edit_ok(e: EditView, summary: Seq<char>) -> bool {
    &&& text_ok(e.display_name, 200, false)
    &&& text_ok(e.family, 128, false)
    &&& text_ok(e.description, 4000, true)
    &&& text_ok(e.tech_stack, 1000, true)
    &&& text_ok(e.website_url, 2048, false)
    &&& text_ok(summary, 200, false)
    &&& normalize(e.display_name).len() > 0
    &&& normalize(summary).len() > 0
    &&& 1 <= e.categories.len() <= 32
    &&& e.features.len() <= 32
    &&& categories_ok(e.categories)
    &&& features_ok(e.features)
    &&& website_ok(normalize(e.website_url))
}

/// The accepted form of a contribution: text normalized, categories as a
/// sorted set, empty features dropped and repeated features collapsed.
pub open spec fn validated(r: EditView, e: EditView, rs: Seq<char>, summary: Seq<char>) -> bool {
    &&& r.display_name == normalize(e.display_name)
    &&& r.family == normalize(e.family)
    &&& r.description == normalize(e.description)
    &&& r.tech_stack == normalize(e.tech_stack)
    &&& r.website_url == normalize(e.website_url)
    &&& rs == normalize(summary)
    &&& strictly_sorted(r.categories)
    &&& forall|x: Seq<char>|
        r.categories.contains(x) <==> normalize_all(e.categories).contains(x)
    &&& r.features == dedup_adjacent(non_empty(normalize_all(e.features)))
}

fn checked_categories(cats: &Vec<String>) -> (r: Option<Vec<String>>)
    ensures
        r is Some <==> categories_ok(strings_view(cats@)),
        r matches Some(v) ==> strictly_sorted(strings_view(v@)) && forall|x: Seq<char>|
            strings_view(v@).contains(x) <==> normalize_all(strings_view(cats@)).contains(x),
{
    let ghost src = strings_view(cats@);
    let n = cats.len();
    let mut set: Vec<Vec<char>> = Vec::new();
    let mut i: usize = 0;
    while i < n
        invariant
            i <= n,
            n == cats.len(),
            src == strings_view(cats@),
            strictly_sorted(vecs_view(set@)),
            forall|x: Seq<char>|
                vecs_view(set@).contains(x) <==> normalize_all(src.take(i as int)).contains(x),
            categories_ok(src.take(i as int)),
        decreases n - i,
    {
        let v = chars_of(cats[i].as_str());
        let t = normalize_chars(&v);
        if t.len() > 128 || !is_plain_text(&t, false) || t.len() == 0 {
            proof {
                assert(src[i as int] == v@);
            }
            return None;
        }
        let ghost old_set = vecs_view(set@);
        insert_sorted(&mut set, t);
        proof {
            assert(src[i as int] == v@);
            let next = src.take(i + 1);
            assert(next =~= src.take(i as int).push(src[i as int]));
            assert(normalize_all(next) =~= normalize_all(src.take(i as int)).push(
                normalize(src[i as int]),
            ));
            assert forall|x: Seq<char>|
                vecs_view(set@).contains(x) <==> normalize_all(next).contains(x) by {
                let pre = normalize_all(src.take(i as int));
                if normalize_all(next).contains(x) {
                    let k = choose|k: int| 0 <= k < normalize_all(next).len() && normalize_all(next)[k] == x;
                    if k < pre.len() {
                        assert(pre[k] == x);
                    }
                }
                if pre.contains(x) {
                    let k = choose|k: int| 0 <= k < pre.len() && pre[k] == x;
                    assert(normalize_all(next)[k] == x);
                }
                if x == normalize(src[i as int]) {
                    assert(normalize_all(next)[i as int] == x);
                }
            }
            assert forall|k: int| 0 <= k < next.len() implies text_ok(#[trigger] next[k], 128, false)
                && normalize(next[k]).len() > 0 by {
                if k < i {
                    assert(next[k] == src.take(i as int)[k]);
                }
            }
        }
        i = i + 1;
    }
    proof {
        assert(src.take(n as int) =~= src);
    }
    let mut out: Vec<String> = Vec::new();
    let m = set.len();
    let mut j: usize = 0;
    while j < m
        invariant
            j <= m,
            m == set.len(),
            strings_view(out@) == vecs_view(set@).take(j as int),
        decreases m - j,
    {
        let s = string_of(&set[j]);
        let ghost prev = strings_view(out@);
        out.push(s);
        proof {
            assert(strings_view(out@) =~= prev.push(set@[j as int]@));
            assert(vecs_view(set@).take(j + 1) =~= vecs_view(set@).take(j as int).push(
                set@[j as int]@,
            ));
        }
        j = j + 1;
    }
    proof {
        assert(vecs_view(set@).take(m as int) =~= vecs_view(set@));
    }
    Some(out)
}

proof fn lemma_non_empty_push(s: Seq<Seq<char>>, x: Seq<char>)
    ensures
        non_empty(s.push(x)) == if x.len() > 0 {
            non_empty(s).push(x)
        } else {
            non_empty(s)
        },
{
    assert(s.push(x).drop_last() =~= s);
}

proof fn lemma_dedup_push(s: Seq<Seq<char>>, x: Seq<char>)
    ensures
        dedup_adjacent(s.push(x)) == if dedup_adjacent(s).len() > 0 && dedup_adjacent(s).last()
            == x {
            dedup_adjacent(s)
        } else {
            dedup_adjacent(s).push(x)
        },
{
    assert(s.push(x).drop_last() =~= s);
}

fn checked_features(features: &Vec<String>) -> (r: Option<Vec<String>>)
    ensures
        r is Some <==> features_ok(strings_view(features@)),
        r matches Some(v) ==> strings_view(v@) == dedup_adjacent(
            non_empty(normalize_all(strings_view(features@))),
        ),
{
    let ghost src = strings_view(features@);
    let n = features.len();
    let mut out: Vec<Vec<char>> = Vec::new();
    let mut i: usize = 0;
    while i < n
        invariant
            i <= n,
            n == features.len(),
            src == strings_view(features@),
            vecs_view(out@) == dedup_adjacent(non_empty(normalize_all(src.take(i as int)))),
            features_ok(src.take(i as int)),
        decreases n - i,
    {
        let v = chars_of(features[i].as_str());
        let t = normalize_chars(&v);
        proof {
            assert(src[i as int] == v@);
        }
        if t.len() > 300 || !is_plain_text(&t, false) {
            return None;
        }
        let ghost pre = normalize_all(src.take(i as int));
        proof {
            let next = src.take(i + 1);
            assert(next =~= src.take(i as int).push(src[i as int]));
            assert(normalize_all(next) =~= pre.push(t@));
            lemma_non_empty_push(pre, t@);
            lemma_dedup_push(non_empty(pre), t@);
            assert forall|k: int| 0 <= k < next.len() implies text_ok(#[trigger] next[k], 300, false) by {
                if k < i {
                    assert(next[k] == src.take(i as int)[k]);
                }
            }
        }
        if t.len() > 0 {
            let len = out.len();
            let repeat = len > 0 && chars_eq(&out[len - 1], &t);
            if !repeat {
                out.push(t);
            }
            proof {
                assert(vecs_view(out@) =~= dedup_adjacent(non_empty(pre.push(t@))));
            }
        }
        i = i + 1;
    }
    proof {
        assert(src.take(n as int) =~= src);
    }
    let mut res: Vec<String> = Vec::new();
    let m = out.len();
    let mut j: usize = 0;
    while j < m
        invariant
            j <= m,
            m == out.len(),
            strings_view(res@) == vecs_view(out@).take(j as int),
        decreases m - j,
    {
        let s = string_of(&out[j]);
        let ghost prev = strings_view(res@);
        res.push(s);
        proof {
            assert(strings_view(res@) =~= prev.push(out@[j as int]@));
            assert(vecs_view(out@).take(j + 1) =~= vecs_view(out@).take(j as int).push(
                out@[j as int]@,
            ));
        }
        j = j + 1;
    }
    proof {
        assert(vecs_view(out@).take(m as int) =~= vecs_view(out@));
    }
    Some(res)
}

/// Validates and normalizes a catalog contribution with its change summary.
pub fn validate(edit: SoftwareEdit, summary: String) -> (r: Result<ValidatedEdit, Error>)
    ensures
        r is Ok <==> edit_ok(edit@, summary@),
        r matches Ok(v) ==> validated(v.edit@, edit@, v.summary@, summary@),
        r matches Err(e) ==> e == Error::Invalid,
{
    let ghost e0 = edit@;
    let mut edit = edit;
    let mut summary = summary;
    text(&mut edit.display_name, 200, false)?;
    text(&mut edit.family, 128, false)?;
    text(&mut edit.description, 4000, true)?;
    text(&mut edit.tech_stack, 1000, true)?;
    text(&mut edit.website_url, 2048, false)?;
    text(&mut summary, 200, false)?;
    if edit.display_name.as_str().is_empty() || summary.as_str().is_empty()
        || edit.categories.len() == 0 || edit.categories.len() > 32 || edit.features.len()
        > 32 {
        return Err(Error::Invalid);
    }
    let categories = match checked_categories(&edit.categories) {
        Some(c) => c,
        None => {
            return Err(Error::Invalid);
        },
    };
    let features = match checked_features(&edit.features) {
        Some(f) => f,
        None => {
            return Err(Error::Invalid);
        },
    };
    if !website_check(&edit.website_url) {
        return Err(Error::Invalid);
    }
    edit.categories = categories;
    edit.features = features;
    Ok(ValidatedEdit { edit, summary })
}

/// The categories of an edit that the catalog must already know: those not
/// already present in the previous revision.
pub open spec fn categories_to_check(edit: Seq<Seq<char>>, previous: Option<Seq<Seq<char>>>) -> Seq<
    Seq<char>,
>
    decreases edit.len(),
{
    if edit.len() == 0 {
        edit
    } else {
        let rest = categories_to_check(edit.drop_last(), previous);
        if previous matches Some(p) && p.contains(edit.last()) {
            rest
        } else {
            rest.push(edit.last())
        }
    }
}

/// The categories to check are exactly the edit's categories that the previous
/// revision does not hold, in the edit's order, with none added.
pub proof fn lemma_categories_to_check_members(
    edit: Seq<Seq<char>>,
    previous: Option<Seq<Seq<char>>>,
    x: Seq<char>,
)
    ensures
        categories_to_check(edit, previous).contains(x) <==> (edit.contains(x) && !(
        previous matches Some(p) && p.contains(x))),
        categories_to_check(edit, previous).len() <= edit.len(),
        previous is None ==> categories_to_check(edit, previous) == edit,
        categories_to_check(edit, previous) == edit.filter(
            |c: Seq<char>| !(previous matches Some(p) && p.contains(c)),
        ),
    decreases edit.len(),
{
    reveal(Seq::filter);
    if edit.len() > 0 {
        let d = edit.drop_last();
        lemma_categories_to_check_members(d, previous, x);
        assert(edit =~= d.push(edit.last()));
        if d.contains(x) {
            let k = choose|k: int| 0 <= k < d.len() && d[k] == x;
            assert(edit[k] == x);
        }
        if edit.contains(x) && x != edit.last() {
            let k = choose|k: int| 0 <= k < edit.len() && edit[k] == x;
            assert(k < d.len());
            assert(d[k] == x);
        }
        let r = categories_to_check(d, previous);
        if r.push(edit.last()).contains(x) && x != edit.last() {
            let k = choose|k: int| 0 <= k < r.len() + 1 && r.push(edit.last())[k] == x;
            assert(r[k] == x);
        }
        if r.contains(x) {
            let k = choose|k: int| 0 <= k < r.len() && r[k] == x;
            assert(r.push(edit.last())[k] == x);
        }
        assert(r.push(edit.last())[r.len() as int] == edit.last());
    }
}

fn contains_string(list: &Vec<String>, x: &String) -> (b: bool)
    ensures
        b == strings_view(list@).contains(x@),
{
    let xv = chars_of(x.as_str());
    let n = list.len();
    let mut i: usize = 0;
    while i < n
        invariant
            i <= n,
            n == list.len(),
            xv@ == x@,
            forall|k: int| 0 <= k < i ==> list@[k]@ != x@,
        decreases n - i,
    {
        let v = chars_of(list[i].as_str());
        if chars_eq(&v, &xv) {
            proof {
                assert(strings_view(list@)[i as int] == x@);
            }
            return true;
        }
        i = i + 1;
    }
    proof {
        if strings_view(list@).contains(x@) {
            let k = choose|k: int| 0 <= k < n && strings_view(list@)[k] == x@;
            assert(list@[k]@ == x@);
        }
    }
    false
}

pub fn categories_needing_check(edit: &SoftwareEdit, previous: Option<&SoftwareEdit>) -> (r: Vec<
    String,
>)
    ensures
        strings_view(r@) == categories_to_check(edit@.categories, match previous {
            Some(p) => Some(p@.categories),
            None => None,
        }),
{
    let ghost prev = match previous {
        Some(p) => Some(p@.categories),
        None => None,
    };
    let ghost src = edit@.categories;
    let n = edit.categories.len();
    let mut out: Vec<String> = Vec::new();
    let mut i: usize = 0;
    while i < n
        invariant
            i <= n,
            n == edit.categories.len(),
            src == edit@.categories,
            prev == (match previous {
                Some(p) => Some(p@.categories),
                None => None::<Seq<Seq<char>>>,
            }),
            strings_view(out@) == categories_to_check(src.take(i as int), prev),
        decreases n - i,
    {
        let c = &edit.categories[i];
        let known = match previous {
            Some(p) => contains_string(&p.categories, c),
            None => false,
        };
        proof {
            assert(src.take(i + 1).drop_last() =~= src.take(i as int));
            assert(src.take(i + 1).last() == c@);
        }
        if !known {
            out.push(c.clone());
            proof {
                assert(strings_view(out@) =~= strings_view(out@.drop_last()).push(c@));
            }
        }
        i = i + 1;
    }
    proof {
        assert(src.take(n as int) =~= src);
    }
    out
}

/// Whether two edits hold the same content.
pub fn same_edit(a: &SoftwareEdit, b: &SoftwareEdit) -> (r: bool)
    ensures
        r == (a@ == b@),
{
    let r = strings_eq(&a.display_name, &b.display_name) && strings_eq(&a.family, &b.family)
        && strings_eq(&a.description, &b.description) && strings_eq(
        &a.tech_stack,
        &b.tech_stack,
    ) && strings_eq(&a.website_url, &b.website_url) && string_lists_eq(
        &a.categories,
        &b.categories,
    ) && string_lists_eq(&a.features, &b.features);
    r
}

fn strings_eq(a: &String, b: &String) -> (r: bool)
    ensures
        r == (a@ == b@),
{
    let x = chars_of(a.as_str());
    let y = chars_of(b.as_str());
    chars_eq(&x, &y)
}

fn string_lists_eq(a: &Vec<String>, b: &Vec<String>) -> (r: bool)
    ensures
        r == (strings_view(a@) == strings_view(b@)),
{
    if a.len() != b.len() {
        proof {
            assert(strings_view(a@).len() != strings_view(b@).len());
        }
        return false;
    }
    let n = a.len();
    let mut i: usize = 0;
    while i < n
        invariant
            i <= n,
            n == a.len(),
            n == b.len(),
            forall|k: int| 0 <= k < i ==> a@[k]@ == b@[k]@,
        decreases n - i,
    {
        if !strings_eq(&a[i], &b[i]) {
            proof {
                assert(strings_view(a@)[i as int] != strings_view(b@)[i as int]);
            }
            return false;
        }
        i = i + 1;
    }
    proof {
        assert(strings_view(a@) =~= strings_view(b@));
    }
    true
}

/// The compare-and-swap rule of a catalog edit, checked under the row lock: a
/// locked entry refuses members (not administrators), and the submitted
/// revision must be the stored one.
pub fn edit_allowed(locked: bool, administrator: bool, stored_revision: i64, revision: i64) -> (r:
    Result<(), Error>)
    ensures
        locked && !administrator ==> r == Err::<(), Error>(Error::Locked),
        !(locked && !administrator) && stored_revision != revision ==> r == Err::<(), Error>(
            Error::Conflict,
        ),
        !(locked && !administrator) && stored_revision == revision ==> r is Ok,
{
    if locked && !administrator {
        return Err(Error::Locked);
    }
    if stored_revision != revision {
        return Err(Error::Conflict);
    }
    Ok(())
}

/// Arguments of a restore: two distinct, non-negative revisions.
pub fn restore_arguments(current: i64, restore: i64) -> (r: Result<(), Error>)
    ensures
        r is Ok <==> (current >= 0 && restore >= 0 && current != restore),
        r matches Err(e) ==> e == Error::Invalid,
{
    if current < 0 || restore < 0 || current == restore {
        Err(Error::Invalid)
    } else {
        Ok(())
    }
}

/// At most 30 catalog writes per member per minute.
pub fn edit_rate(recent_edits: i64) -> (r: Result<(), Error>)
    ensures
        r is Ok <==> recent_edits < 30,
        r matches Err(e) ==> e == Error::RateLimited,
{
    if recent_edits >= 30 {
        Err(Error::RateLimited)
    } else {
        Ok(())
    }
}


/// Accepted text is stable: its normal form is accepted again and normalizes
/// to itself, so saving unchanged content never changes it.
pub proof fn lemma_accepted_text_is_stable(s: Seq<char>, max: nat, lines: bool)
    requires
        text_ok(s, max, lines),
    ensures
        normalize(normalize(s)) == normalize(s),
        text_ok(normalize(s), max, lines),
{
    crate::text::lemma_plain_text_has_no_cr(normalize(s), lines);
    crate::text::lemma_normal_text_is_fixed(s);
}


proof fn lemma_non_empty_props(s: Seq<Seq<char>>)
    ensures
        non_empty(s).len() <= s.len(),
        forall|i: int|
            0 <= i < non_empty(s).len() ==> (#[trigger] non_empty(s)[i]).len() > 0 && s.contains(
                non_empty(s)[i],
            ),
    decreases s.len(),
{
    if s.len() > 0 {
        let d = s.drop_last();
        lemma_non_empty_props(d);
        assert forall|i: int| 0 <= i < non_empty(s).len() implies (
        #[trigger] non_empty(s)[i]).len() > 0 && s.contains(non_empty(s)[i]) by {
            if i < non_empty(d).len() {
                assert(non_empty(s)[i] == non_empty(d)[i]);
                let k = choose|k: int| 0 <= k < d.len() && d[k] == non_empty(d)[i];
                assert(s[k] == d[k]);
            } else {
                assert(non_empty(s)[i] == s.last());
                assert(s[s.len() - 1] == s.last());
            }
        }
    }
}

proof fn lemma_dedup_props(s: Seq<Seq<char>>)
    ensures
        dedup_adjacent(s).len() <= s.len(),
        forall|i: int|
            0 <= i < dedup_adjacent(s).len() ==> s.contains(#[trigger] dedup_adjacent(s)[i]),
        forall|i: int|
            0 <= i < dedup_adjacent(s).len() - 1 ==> #[trigger] dedup_adjacent(s)[i]
                != dedup_adjacent(s)[i + 1],
        s.len() > 0 ==> dedup_adjacent(s).len() > 0 && dedup_adjacent(s).last() == s.last(),
    decreases s.len(),
{
    if s.len() > 0 {
        let d = s.drop_last();
        let p = dedup_adjacent(d);
        lemma_dedup_props(d);
        let r = dedup_adjacent(s);
        assert forall|i: int| 0 <= i < r.len() implies s.contains(#[trigger] r[i]) by {
            if i < p.len() {
                assert(r[i] == p[i]);
                let k = choose|k: int| 0 <= k < d.len() && d[k] == p[i];
                assert(s[k] == d[k]);
            } else {
                assert(r[i] == s.last());
                assert(s[s.len() - 1] == s.last());
            }
        }
        assert forall|i: int| 0 <= i < r.len() - 1 implies #[trigger] r[i] != r[i + 1] by {
            if i + 1 < p.len() {
                assert(r[i] == p[i] && r[i + 1] == p[i + 1]);
            } else {
                assert(r[i] == p.last());
            }
        }
    }
}

proof fn lemma_non_empty_fixed(s: Seq<Seq<char>>)
    requires
        forall|i: int| 0 <= i < s.len() ==> (#[trigger] s[i]).len() > 0,
    ensures
        non_empty(s) == s,
    decreases s.len(),
{
    if s.len() > 0 {
        let d = s.drop_last();
        assert forall|i: int| 0 <= i < d.len() implies (#[trigger] d[i]).len() > 0 by {
            assert(d[i] == s[i]);
        }
        lemma_non_empty_fixed(d);
        assert(s[s.len() - 1] == s.last());
        assert(d.push(s.last()) =~= s);
    }
}

proof fn lemma_dedup_fixed(s: Seq<Seq<char>>)
    requires
        forall|i: int| 0 <= i < s.len() - 1 ==> #[trigger] s[i] != s[i + 1],
    ensures
        dedup_adjacent(s) == s,
    decreases s.len(),
{
    if s.len() > 0 {
        let d = s.drop_last();
        assert forall|i: int| 0 <= i < d.len() - 1 implies #[trigger] d[i] != d[i + 1] by {
            assert(d[i] == s[i] && d[i + 1] == s[i + 1]);
        }
        lemma_dedup_fixed(d);
        if d.len() > 0 {
            assert(d.last() == s[s.len() - 2]);
            assert(s.last() == s[s.len() - 1]);
        }
        assert(d.push(s.last()) =~= s);
    }
}

/// Two strictly sorted lists with the same entries are the same list.
proof fn lemma_sorted_sets_equal(a: Seq<Seq<char>>, b: Seq<Seq<char>>)
    requires
        strictly_sorted(a),
        strictly_sorted(b),
        forall|x: Seq<char>| a.contains(x) <==> b.contains(x),
    ensures
        a == b,
    decreases a.len(),
{
    if a.len() == 0 {
        if b.len() > 0 {
            assert(b.contains(b[0]));
        }
        assert(a =~= b);
    } else {
        assert(a.contains(a[0]));
        let k = choose|k: int| 0 <= k < b.len() && b[k] == a[0];
        assert(b.contains(b[0]));
        let j = choose|j: int| 0 <= j < a.len() && a[j] == b[0];
        if k > 0 && j > 0 {
            assert(seq_less(b[0], b[k]));
            assert(seq_less(a[0], a[j]));
            lemma_seq_less_transitive(a[0], b[0], a[0]);
            lemma_seq_less_irreflexive(a[0]);
        }
        assert(a[0] == b[0]);
        let a1 = a.drop_first();
        let b1 = b.drop_first();
        assert forall|i: int, m: int| 0 <= i < m < a1.len() implies seq_less(
            #[trigger] a1[i],
            #[trigger] a1[m],
        ) by {
            assert(a1[i] == a[i + 1] && a1[m] == a[m + 1]);
        }
        assert forall|i: int, m: int| 0 <= i < m < b1.len() implies seq_less(
            #[trigger] b1[i],
            #[trigger] b1[m],
        ) by {
            assert(b1[i] == b[i + 1] && b1[m] == b[m + 1]);
        }
        assert forall|x: Seq<char>| a1.contains(x) <==> b1.contains(x) by {
            if a1.contains(x) {
                let i = choose|i: int| 0 <= i < a1.len() && a1[i] == x;
                assert(a[i + 1] == x);
                assert(seq_less(a[0], a[i + 1]));
                lemma_seq_less_irreflexive(x);
                assert(b.contains(x));
                let m = choose|m: int| 0 <= m < b.len() && b[m] == x;
                assert(m != 0);
                assert(b1[m - 1] == x);
            }
            if b1.contains(x) {
                let i = choose|i: int| 0 <= i < b1.len() && b1[i] == x;
                assert(b[i + 1] == x);
                assert(seq_less(b[0], b[i + 1]));
                lemma_seq_less_irreflexive(x);
                assert(a.contains(x));
                let m = choose|m: int| 0 <= m < a.len() && a[m] == x;
                assert(m != 0);
                assert(a1[m - 1] == x);
            }
        }
        lemma_sorted_sets_equal(a1, b1);
        assert forall|i: int| 0 <= i < a.len() implies a[i] == b[i] by {
            if i > 0 {
                assert(a[i] == a1[i - 1]);
                assert(b[i] == b1[i - 1]);
            }
        }
        assert(a =~= b);
    }
}

/// A strictly sorted list of entries of `src` is no longer than `src`.
proof fn lemma_sorted_subset_len(r: Seq<Seq<char>>, src: Seq<Seq<char>>)
    requires
        strictly_sorted(r),
        forall|x: Seq<char>| r.contains(x) ==> src.contains(x),
    ensures
        r.len() <= src.len(),
{
    assert(r.no_duplicates()) by {
        assert forall|i: int, j: int| 0 <= i < r.len() && 0 <= j < r.len() && i != j implies r[i]
            != r[j] by {
            if i < j {
                assert(seq_less(r[i], r[j]));
                lemma_seq_less_irreflexive(r[i]);
            } else {
                assert(seq_less(r[j], r[i]));
                lemma_seq_less_irreflexive(r[j]);
            }
        }
    }
    r.unique_seq_to_set();
    src.lemma_cardinality_of_set();
    assert(r.to_set().subset_of(src.to_set()));
    vstd::set_lib::lemma_len_subset(r.to_set(), src.to_set());
}

/// Validation is a fixed point: an accepted edit, validated again, is
/// accepted and comes back unchanged, so resubmitting unchanged content never
/// alters it.
pub proof fn lemma_validated_edits_are_fixed(
    e: EditView,
    summary: Seq<char>,
    r: EditView,
    rs: Seq<char>,
    r2: EditView,
    rs2: Seq<char>,
)
    requires
        edit_ok(e, summary),
        validated(r, e, rs, summary),
        validated(r2, r, rs2, rs),
    ensures
        edit_ok(r, rs),
        r2.display_name == r.display_name,
        r2.family == r.family,
        r2.description == r.description,
        r2.tech_stack == r.tech_stack,
        r2.website_url == r.website_url,
        r2.categories == r.categories,
        r2.features == r.features,
        rs2 == rs,
{
    lemma_accepted_text_is_stable(e.display_name, 200, false);
    lemma_accepted_text_is_stable(e.family, 128, false);
    lemma_accepted_text_is_stable(e.description, 4000, true);
    lemma_accepted_text_is_stable(e.tech_stack, 1000, true);
    lemma_accepted_text_is_stable(e.website_url, 2048, false);
    lemma_accepted_text_is_stable(summary, 200, false);
    // Categories: every entry is an accepted, already normal category.
    let nc = normalize_all(e.categories);
    assert forall|i: int| 0 <= i < r.categories.len() implies text_ok(
        #[trigger] r.categories[i],
        128,
        false,
    ) && normalize(r.categories[i]).len() > 0 && normalize(r.categories[i]) == r.categories[i] by {
        assert(r.categories.contains(r.categories[i]));
        let k = choose|k: int| 0 <= k < nc.len() && nc[k] == r.categories[i];
        assert(text_ok(e.categories[k], 128, false) && normalize(e.categories[k]).len() > 0);
        lemma_accepted_text_is_stable(e.categories[k], 128, false);
    }
    assert(normalize_all(r.categories) =~= r.categories);
    lemma_sorted_subset_len(r.categories, nc);
    assert(nc.len() == e.categories.len());
    assert(nc.contains(nc[0]));
    assert(r.categories.contains(nc[0]));
    assert(r.categories.len() > 0);
    lemma_sorted_sets_equal(r2.categories, r.categories);
    // Features: every entry is a non-empty, accepted, already normal feature
    // and no two neighbours are equal.
    let nf = normalize_all(e.features);
    lemma_non_empty_props(nf);
    lemma_dedup_props(non_empty(nf));
    let f = r.features;
    assert forall|i: int| 0 <= i < f.len() implies text_ok(#[trigger] f[i], 300, false)
        && f[i].len() > 0 && normalize(f[i]) == f[i] by {
        assert(non_empty(nf).contains(f[i]));
        let j = choose|j: int| 0 <= j < non_empty(nf).len() && non_empty(nf)[j] == f[i];
        assert(nf.contains(non_empty(nf)[j]));
        let k = choose|k: int| 0 <= k < nf.len() && nf[k] == f[i];
        assert(text_ok(e.features[k], 300, false));
        lemma_accepted_text_is_stable(e.features[k], 300, false);
    }
    assert(normalize_all(f) =~= f);
    lemma_non_empty_fixed(f);
    lemma_dedup_fixed(f);
}

} // verus!
