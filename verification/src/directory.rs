//! Site directory rules: canonical domains, the crawl queue's lease fencing and
//! the automatic icon replacement policy.
use crate::text::{chars_of, lower_chars, lower_seq, string_of, trim, trim_chars};
use vstd::prelude::*;

verus! {

pub open spec fn domain_char(c: char) -> bool {
    ('a' <= c && c <= 'z') || ('0' <= c && c <= '9') || c == '.' || c == '-'
}

pub open spec fn alnum_lower(c: char) -> bool {
    ('a' <= c && c <= 'z') || ('0' <= c && c <= '9')
}

/// A canonical host name: lowercase ASCII labels of letters, digits and inner
/// hyphens, at most 63 characters each, joined by single dots; at least two
/// labels and at most 253 characters in all.
pub open spec fn domain_ok(d: Seq<char>) -> bool {
    &&& 0 < d.len() <= 253
    &&& forall|i: int| 0 <= i < d.len() ==> domain_char(#[trigger] d[i])
    &&& alnum_lower(d[0])
    &&& alnum_lower(d.last())
    &&& forall|i: int|
        0 <= i < d.len() - 1 ==> (#[trigger] d[i] == '.' ==> alnum_lower(d[i + 1])) && (d[i]
            == '-' ==> d[i + 1] != '.')
    &&& exists|i: int| 0 <= i < d.len() && #[trigger] d[i] == '.'
    &&& forall|i: int| 0 <= i && i + 64 <= d.len() ==> has_dot(#[trigger] d.subrange(i, i + 64))
}

pub open spec fn has_dot(s: Seq<char>) -> bool {
    exists|k: int| 0 <= k < s.len() && s[k] == '.'
}

/// The canonical form of a submitted domain: trimmed and lowercased.
pub open spec fn canonical_form(s: Seq<char>) -> Seq<char> {
    lower_seq(trim(s))
}

/// Canonicalizes a domain name; `Err(())` when it is not an acceptable host name.
pub fn canonical_domain(value: &str) -> (r: Result<String, ()>)
    ensures
        r is Ok <==> domain_ok(canonical_form(value@)),
        r matches Ok(s) ==> s@ == canonical_form(value@),
{
    let v = chars_of(value);
    let t = trim_chars(&v);
    let d = lower_chars(&t);
    let n = d.len();
    if n == 0 || n > 253 {
        return Err(());
    }
    if !(('a' <= d[0] && d[0] <= 'z') || ('0' <= d[0] && d[0] <= '9')) {
        return Err(());
    }
    let last = d[n - 1];
    if !(('a' <= last && last <= 'z') || ('0' <= last && last <= '9')) {
        return Err(());
    }
    let mut i: usize = 0;
    let mut dots: bool = false;
    // Length of the current run of non-dot characters ending before `i`.
    let mut run: usize = 0;
    while i < n
        invariant
            i <= n,
            n == d.len(),
            n <= 253,
            d@ == canonical_form(value@),
            run <= i,
            run <= 63,
            forall|k: int| 0 <= k < i ==> domain_char(#[trigger] d@[k]),
            forall|k: int|
                0 <= k < i && k < n - 1 ==> (#[trigger] d@[k] == '.' ==> alnum_lower(d@[k + 1]))
                    && (d@[k] == '-' ==> d@[k + 1] != '.'),
            dots <==> exists|k: int| 0 <= k < i && #[trigger] d@[k] == '.',
            forall|k: int| i - run <= k < i ==> #[trigger] d@[k] != '.',
            run < i ==> d@[i - run - 1] == '.',
            forall|k: int| 0 <= k && k + 64 <= i ==> has_dot(#[trigger] d@.subrange(k, k + 64)),
        decreases n - i,
    {
        let c = d[i];
        if !(('a' <= c && c <= 'z') || ('0' <= c && c <= '9') || c == '.' || c == '-') {
            proof {
                assert(!domain_char(d@[i as int]));
            }
            return Err(());
        }
        if i + 1 < n {
            let next = d[i + 1];
            let next_alnum = ('a' <= next && next <= 'z') || ('0' <= next && next <= '9');
            if (c == '.' && !next_alnum) || (c == '-' && next == '.') {
                return Err(());
            }
        }
        if c == '.' {
            dots = true;
            proof {
                assert forall|k: int| 0 <= k && k + 64 <= i + 1 implies has_dot(
                    #[trigger] d@.subrange(k, k + 64),
                ) by {
                    if k + 64 == i + 1 {
                        assert(d@.subrange(k, k + 64)[63] == '.');
                    }
                }
            }
            run = 0;
        } else {
            if run == 63 {
                proof {
                    let k = i - 63;
                    assert forall|j: int| 0 <= j < 64 implies #[trigger] d@.subrange(k, k + 64)[j] != '.' by {
                        assert(d@.subrange(k, k + 64)[j] == d@[k + j]);
                    }
                    assert(!has_dot(d@.subrange(k, k + 64)));
                }
                return Err(());
            }
            proof {
                assert forall|k: int| 0 <= k && k + 64 <= i + 1 implies has_dot(
                    #[trigger] d@.subrange(k, k + 64),
                ) by {
                    if k + 64 == i + 1 {
                        let j = i - run - 1;
                        assert(d@[j] == '.');
                        assert(d@.subrange(k, k + 64)[j - k] == '.');
                    }
                }
            }
            run = run + 1;
        }
        i = i + 1;
    }
    if !dots {
        return Err(());
    }
    Ok(string_of(&d))
}

/// Whether a crawl result may be stored: the leased job still belongs to the
/// same site and domain, and a closed site is inspected only on an explicit
/// owner request.
pub fn observation_usable(
    closed: bool,
    owner_requested: bool,
    stored_domain: &str,
    job_domain: &str,
) -> (r: bool)
    ensures
        r == ((!closed || owner_requested) && stored_domain@ == job_domain@),
{
    let a = chars_of(stored_domain);
    let b = chars_of(job_domain);
    (!closed || owner_requested) && crate::text::chars_eq(&a, &b)
}

/// The error recorded on a completed crawl job.
pub open spec fn job_error(
    usable: bool,
    health_error: Option<Seq<char>>,
    nodeinfo_error: Option<Seq<char>>,
) -> Option<Seq<char>> {
    if usable {
        if health_error is Some {
            health_error
        } else {
            nodeinfo_error
        }
    } else {
        Some("site_changed_or_closed"@)
    }
}

pub fn completed_job_error(
    usable: bool,
    health_error: &Option<String>,
    nodeinfo_error: &Option<String>,
) -> (r: Option<String>)
    ensures
        crate::catalog_moderation::opt_view(r) == job_error(
            usable,
            crate::catalog_moderation::opt_view(*health_error),
            crate::catalog_moderation::opt_view(*nodeinfo_error),
        ),
{
    if usable {
        match health_error {
            Some(e) => Some(e.clone()),
            None => match nodeinfo_error {
                Some(e) => Some(e.clone()),
                None => None,
            },
        }
    } else {
        let v = chars_of("site_changed_or_closed");
        Some(string_of(&v))
    }
}

/// Icon quality: SVG outranks every raster; rasters rank by decoded area.
/// `None` is an icon whose bytes do not match its declared type or cannot be decoded.
pub open spec fn quality_less(a: (u8, u64), b: (u8, u64)) -> bool {
    a.0 < b.0 || (a.0 == b.0 && a.1 < b.1)
}

/// An automatic recrawl replaces a stored icon only with a verified, strictly
/// better one.
pub fn icon_improves(new: Option<(u8, u64)>, old: Option<(u8, u64)>) -> (r: bool)
    ensures
        r == (new is Some && old is Some && quality_less(old.unwrap(), new.unwrap())),
{
    match (new, old) {
        (Some(n), Some(o)) => o.0 < n.0 || (o.0 == n.0 && o.1 < n.1),
        _ => false,
    }
}

/// What happens to the stored icon after a crawl.
#[derive(Clone, Copy, Debug, PartialEq, Eq, Structural)]
pub enum IconChange {
    Keep,
    Insert,
    Replace,
}

/// A collected icon is stored only if it is valid; it fills an empty slot, and
/// replaces an existing icon only when replacement is enabled and it improves it.
pub fn icon_change(
    collected: Option<Option<(u8, u64)>>,
    existing: Option<Option<(u8, u64)>>,
    replace: bool,
) -> (r: IconChange)
    ensures
        r == match collected {
            Some(Some(q)) => match existing {
                None => IconChange::Insert,
                Some(old) => if replace && old is Some && quality_less(old.unwrap(), q) {
                    IconChange::Replace
                } else {
                    IconChange::Keep
                },
            },
            _ => IconChange::Keep,
        },
{
    match collected {
        Some(Some(q)) => match existing {
            None => IconChange::Insert,
            Some(old) => {
                if replace && icon_improves(Some(q), old) {
                    IconChange::Replace
                } else {
                    IconChange::Keep
                }
            },
        },
        _ => IconChange::Keep,
    }
}

/// An expired worker lease: the job returns to the queue, or is abandoned
/// after three attempts.
pub fn expired_lease_state(attempts: i32) -> (r: &'static str)
    ensures
        attempts >= 3 ==> r@ == "dead"@,
        attempts < 3 ==> r@ == "pending"@,
{
    if attempts >= 3 {
        "dead"
    } else {
        "pending"
    }
}


/// A canonical domain is a fixed point: canonicalizing it again gives it back,
/// so a stored domain and a resubmitted one compare equal.
pub proof fn lemma_canonical_domains_are_fixed(s: Seq<char>)
    requires
        domain_ok(canonical_form(s)),
    ensures
        canonical_form(canonical_form(s)) == canonical_form(s),
        domain_ok(canonical_form(canonical_form(s))),
{
    let d = canonical_form(s);
    assert(domain_char(d[0]));
    assert(domain_char(d.last()));
    crate::text::lemma_trim_of_tight(d);
    assert forall|i: int| 0 <= i < d.len() implies #[trigger] crate::text::ascii_lower(d[i])
        == d[i] by {
        assert(domain_char(d[i]));
    }
    assert(lower_seq(d) =~= d);
}

} // verus!
