//! Comment limits, separated from persistence: identifiers, pages, bounded
//! text, exact revisions, and the rules that decide a comment write.
use crate::auth::AuthError;
use crate::directory::{canonical_domain, canonical_form, domain_ok};
use crate::text::{
    chars_of, is_plain_text, normalize, normalize_chars, plain_text, string_of, utf8_len,
    utf8_len_at_most,
};
use vstd::prelude::*;

verus! {

#[derive(Clone, Copy, Debug, PartialEq, Eq, Structural)]
pub enum Error {
    Auth(AuthError),
    Invalid,
    Missing,
    Conflict,
    TooLate,
    TooSoon,
    DuplicateReport,
    ReportRate,
    Unavailable,
}

/// The text `message` gives.
pub open spec fn comment_message(e: Error) -> Seq<char> {
    match e {
        Error::Auth(e) => crate::auth::auth_message(e),
        Error::Invalid => "댓글은 1~2,000자, 신고 설명은 500자 이내로 입력해 주세요."@,
        Error::Missing => "이 서버나 댓글을 표시하거나 변경할 수 없어요."@,
        Error::Conflict => "댓글이 먼저 바뀌었어요. 입력은 남겨두었으니 최신 내용과 비교해 주세요."@,
        Error::TooLate => "작성 후 30분이 지나 수정할 수 없어요. 필요한 내용은 새 댓글로 남겨 주세요."@,
        Error::TooSoon => "같은 서버에는 1분 간격으로 댓글을 남길 수 있어요."@,
        Error::DuplicateReport => "이미 신고한 댓글입니다."@,
        Error::ReportRate => "신고 요청이 많아요. 잠시 후 다시 시도해 주세요."@,
        Error::Unavailable => "댓글 정보를 처리하지 못했어요. 잠시 후 다시 시도해 주세요."@,
    }
}

impl Error {
    /// The message shown to members.
    pub fn message(&self) -> (r: &'static str)
        ensures
            r@ == comment_message(*self),
    {
        match self {
            Error::Auth(e) => e.message(),
            Error::Invalid => "댓글은 1~2,000자, 신고 설명은 500자 이내로 입력해 주세요.",
            Error::Missing => "이 서버나 댓글을 표시하거나 변경할 수 없어요.",
            Error::Conflict => "댓글이 먼저 바뀌었어요. 입력은 남겨두었으니 최신 내용과 비교해 주세요.",
            Error::TooLate => "작성 후 30분이 지나 수정할 수 없어요. 필요한 내용은 새 댓글로 남겨 주세요.",
            Error::TooSoon => "같은 서버에는 1분 간격으로 댓글을 남길 수 있어요.",
            Error::DuplicateReport => "이미 신고한 댓글입니다.",
            Error::ReportRate => "신고 요청이 많아요. 잠시 후 다시 시도해 주세요.",
            Error::Unavailable => "댓글 정보를 처리하지 못했어요. 잠시 후 다시 시도해 주세요.",
        }
    }
}

/// The 128-bit value of a UUID text, when it parses.
pub uninterp spec fn uuid_value(s: Seq<char>) -> Option<u128>;

/// `uuid::Uuid::parse_str`, returning the UUID's 128-bit value.
#[verifier::external_body]
fn parse_uuid(s: &str) -> (r: Option<u128>)
    ensures
        r == uuid_value(s@),
{
    uuid::Uuid::parse_str(s).ok().map(|u| u.as_u128())
}

/// A comment identifier: exactly 36 characters of hyphenated UUID text.
pub fn id(value: &str) -> (r: Result<u128, Error>)
    ensures
        r is Ok <==> value.len() == 36 && uuid_value(value@) is Some,
        r matches Ok(u) ==> uuid_value(value@) == Some(u),
        r matches Err(e) ==> e == Error::Missing,
{
    if value.len() != 36 {
        return Err(Error::Missing);
    }
    match parse_uuid(value) {
        Some(u) => Ok(u),
        None => Err(Error::Missing),
    }
}

/// The site a comment thread belongs to, by canonical domain.
pub fn domain(value: &str) -> (r: Result<String, Error>)
    ensures
        r is Ok <==> domain_ok(canonical_form(value@)),
        r matches Ok(s) ==> s@ == canonical_form(value@),
        r matches Err(e) ==> e == Error::Missing,
{
    match canonical_domain(value) {
        Ok(d) => Ok(d),
        Err(_) => Err(Error::Missing),
    }
}

pub fn page(value: u32) -> (r: Result<(), Error>)
    ensures
        r is Ok <==> value <= 10_000,
        r matches Err(e) ==> e == Error::Invalid,
{
    if value > 10_000 {
        Err(Error::Invalid)
    } else {
        Ok(())
    }
}

/// Comment text after normalization: non-empty when required, at most `max`
/// characters, no control character but line feed and tab.
pub open spec fn comment_text_ok(s: Seq<char>, max: nat, required: bool) -> bool {
    let t = normalize(s);
    !(required && t.len() == 0) && t.len() <= max && plain_text(t, true)
}

pub fn text(value: String, max: usize, required: bool) -> (r: Result<String, Error>)
    ensures
        r is Ok <==> comment_text_ok(value@, max as nat, required),
        r matches Ok(s) ==> s@ == normalize(value@),
        r matches Err(e) ==> e == Error::Invalid,
{
    let v = chars_of(value.as_str());
    let t = normalize_chars(&v);
    if (required && t.len() == 0) || t.len() > max || !is_plain_text(&t, true) {
        Err(Error::Invalid)
    } else {
        Ok(string_of(&t))
    }
}

/// The text form of a revision: ISO date and time with microseconds.
pub const REVISION_FORMAT: &'static str = "%Y-%m-%dT%H:%M:%S%.6f";

/// A revision instant: seconds since the epoch (UTC) and the nanoseconds
/// within that second, which exceed 999,999,999 during a leap second.
#[derive(Clone, Copy, Debug, PartialEq, Eq, Structural)]
pub struct RevisionTime {
    pub seconds: i64,
    pub nanos: u32,
}

/// The instant that `chrono` reads from a text under a format, when it parses.
pub uninterp spec fn revision_instant(s: Seq<char>, format: Seq<char>) -> Option<(i64, u32)>;

/// `chrono::NaiveDateTime::parse_from_str` of `s` under `format`, read as
/// seconds since the epoch and nanoseconds within the second.
#[verifier::external_body]
fn parse_revision(s: &str, format: &str) -> (r: Option<RevisionTime>)
    ensures
        match r {
            Some(t) => revision_instant(s@, format@) == Some((t.seconds, t.nanos)),
            None => revision_instant(s@, format@) is None,
        },
{
    let t = chrono::NaiveDateTime::parse_from_str(s, format).ok()?.and_utc();
    Some(RevisionTime { seconds: t.timestamp(), nanos: t.timestamp_subsec_nanos() })
}

/// The text `chrono` writes for an instant under a format, when the instant
/// is representable.
pub uninterp spec fn revision_text_of(seconds: i64, nanos: u32, format: Seq<char>) -> Option<
    Seq<char>,
>;

/// `DateTime::from_timestamp`, then `NaiveDateTime::format` under `format`.
/// Only the revision format is passed, which formats every instant. chrono's
/// source shows that under this format `parse_from_str` reads the text back
/// to the same instant when the instant has whole microseconds and is not a
/// leap second: `%Y` is written with a sign exactly when the year is outside
/// 0..=9999 and read with or without one, and `%.6f` is written and read as
/// exactly six digits.
#[verifier::external_body]
fn format_revision(t: RevisionTime, format: &str) -> (r: Option<String>)
    requires
        format@ == REVISION_FORMAT@,
    ensures
        match r {
            Some(x) => revision_text_of(t.seconds, t.nanos, format@) == Some(x@),
            None => revision_text_of(t.seconds, t.nanos, format@) is None,
        },
        r is Some && t.nanos < 1_000_000_000 && t.nanos % 1000 == 0 ==> revision_instant(
            r.unwrap()@,
            format@,
        ) == Some((t.seconds, t.nanos)),
{
    let d = chrono::DateTime::from_timestamp(t.seconds, t.nanos)?;
    Some(d.naive_utc().format(format).to_string())
}

/// A revision is accepted only in its exact canonical text: at most 32
/// bytes, parsing to an instant whose text is the input itself.
pub open spec fn revision_ok(s: Seq<char>) -> bool {
    &&& utf8_len(s) <= 32
    &&& revision_instant(s, REVISION_FORMAT@) is Some
    &&& revision_text_of(
        revision_instant(s, REVISION_FORMAT@).unwrap().0,
        revision_instant(s, REVISION_FORMAT@).unwrap().1,
        REVISION_FORMAT@,
    ) == Some(s)
}

pub fn revision(value: &str) -> (r: Result<RevisionTime, Error>)
    ensures
        r is Ok <==> revision_ok(value@),
        r matches Ok(t) ==> revision_instant(value@, REVISION_FORMAT@) == Some(
            (t.seconds, t.nanos),
        ),
        r matches Err(e) ==> e == Error::Invalid,
{
    let v = chars_of(value);
    if !utf8_len_at_most(&v, 32) {
        return Err(Error::Invalid);
    }
    let date = match parse_revision(value, REVISION_FORMAT) {
        Some(d) => d,
        None => {
            return Err(Error::Invalid);
        },
    };
    let text = match format_revision(date, REVISION_FORMAT) {
        Some(t) => t,
        None => {
            return Err(Error::Invalid);
        },
    };
    let w = chars_of(text.as_str());
    if !crate::text::chars_eq(&w, &v) {
        return Err(Error::Invalid);
    }
    Ok(date)
}

/// The text form of a revision instant, as reads return it; `None` for an
/// instant outside chrono's range. A text of whole microseconds (not a leap
/// second) that fits the limit is accepted back by `revision` as the same
/// instant.
pub fn revision_text(t: RevisionTime) -> (r: Option<String>)
    ensures
        match revision_text_of(t.seconds, t.nanos, REVISION_FORMAT@) {
            Some(x) => r matches Some(y) && y@ == x,
            None => r is None,
        },
        r is Some && t.nanos < 1_000_000_000 && t.nanos % 1000 == 0 && utf8_len(r.unwrap()@)
            <= 32 ==> revision_ok(r.unwrap()@) && revision_instant(r.unwrap()@, REVISION_FORMAT@)
            == Some((t.seconds, t.nanos)),
{
    format_revision(t, REVISION_FORMAT)
}

/// The state of a comment that a write reads under its lock.
pub struct LockedComment {
    pub own: bool,
    pub is_reply: bool,
    pub deleted: bool,
    pub editable: bool,
    pub revision: i64,
}

/// A new comment: one per minute per member and site; a reply must answer a
/// visible top-level comment.
pub fn create_allowed(recent: bool, parent: Option<&LockedComment>) -> (r: Result<(), Error>)
    ensures
        recent ==> r == Err::<(), Error>(Error::TooSoon),
        !recent ==> (r is Ok <==> match parent {
            None => true,
            Some(p) => !p.is_reply && !p.deleted,
        }),
        !recent ==> (r matches Err(e) ==> e == Error::Missing),
{
    if recent {
        return Err(Error::TooSoon);
    }
    if let Some(p) = parent {
        if p.is_reply || p.deleted {
            return Err(Error::Missing);
        }
    }
    Ok(())
}

/// Editing (`body_changes` is `Some(changed)`) or deleting (`None`) one's own
/// comment: only the author, only a visible comment, only at the submitted
/// revision, and edits only within the editing window. `Ok(write)` says
/// whether the database must be written.
pub fn change_allowed(c: &LockedComment, revision: i64, body_changes: Option<bool>) -> (r: Result<
    bool,
    Error,
>)
    ensures
        !c.own || c.deleted ==> r == Err::<bool, Error>(Error::Missing),
        c.own && !c.deleted && c.revision != revision ==> r == Err::<bool, Error>(
            Error::Conflict,
        ),
        c.own && !c.deleted && c.revision == revision ==> match body_changes {
            None => r == Ok::<bool, Error>(true),
            Some(changed) => if c.editable {
                r == Ok::<bool, Error>(changed)
            } else {
                r == Err::<bool, Error>(Error::TooLate)
            },
        },
{
    if !c.own || c.deleted {
        return Err(Error::Missing);
    }
    if c.revision != revision {
        return Err(Error::Conflict);
    }
    match body_changes {
        None => Ok(true),
        Some(changed) => {
            if !c.editable {
                Err(Error::TooLate)
            } else {
                Ok(changed)
            }
        },
    }
}

/// A report: not of one's own or a deleted comment, once per comment, and at
/// most 30 per member per minute.
pub fn report_allowed(c: &LockedComment, duplicate: bool, recent_reports: i64) -> (r: Result<
    (),
    Error,
>)
    ensures
        c.deleted || c.own ==> r == Err::<(), Error>(Error::Missing),
        !(c.deleted || c.own) && duplicate ==> r == Err::<(), Error>(Error::DuplicateReport),
        !(c.deleted || c.own) && !duplicate && recent_reports >= 30 ==> r == Err::<(), Error>(
            Error::ReportRate,
        ),
        !(c.deleted || c.own) && !duplicate && recent_reports < 30 ==> r is Ok,
{
    if c.deleted || c.own {
        return Err(Error::Missing);
    }
    if duplicate {
        return Err(Error::DuplicateReport);
    }
    if recent_reports >= 30 {
        return Err(Error::ReportRate);
    }
    Ok(())
}

/// Permissions are asked for at most 100 comments at once.
pub fn access_request(ids: usize) -> (r: Result<(), Error>)
    ensures
        r is Ok <==> ids <= 100,
        r matches Err(e) ==> e == Error::Invalid,
{
    if ids > 100 {
        Err(Error::Invalid)
    } else {
        Ok(())
    }
}


/// An accepted comment is stable: its stored text is accepted again unchanged.
pub proof fn lemma_accepted_comment_is_stable(s: Seq<char>, max: nat, required: bool)
    requires
        comment_text_ok(s, max, required),
    ensures
        normalize(normalize(s)) == normalize(s),
        comment_text_ok(normalize(s), max, required),
{
    crate::text::lemma_plain_text_has_no_cr(normalize(s), true);
    crate::text::lemma_normal_text_is_fixed(s);
}

} // verus!
