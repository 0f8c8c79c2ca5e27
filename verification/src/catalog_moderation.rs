//! Administrator catalog requests: validation only. Authorization and
//! persistence happen where the request is applied.
use crate::catalog_editing::{
    existing_name, existing_name_ok, new_name, new_name_ok, text_ok, Error,
};
use crate::text::{
    chars_of, is_hex_digit, lower_seq, normalize, string_of, trim, trim_chars, upper_chars,
    upper_seq, utf8_len, utf8_len_at_most,
};
use vstd::prelude::*;

verus! {

/// The largest logo accepted, in decoded bytes.
pub const LOGO_MAX_BYTES: usize = 1_048_576;

/// The largest base64 text of a logo: four characters per started three bytes.
pub const LOGO_MAX_ENCODED: usize = (LOGO_MAX_BYTES + 2) / 3 * 4;

/// One administrator setting change of a catalog entry.
#[derive(Clone, Debug, PartialEq, Eq)]
pub enum Action {
    Locked(bool),
    BrandColor(Option<String>),
    Featured(bool),
    DisplayOrder(i32),
}

pub enum ActionView {
    Locked(bool),
    BrandColor(Option<Seq<char>>),
    Featured(bool),
    DisplayOrder(i32),
}

impl View for Action {
    type V = ActionView;

    open spec fn view(&self) -> ActionView {
        match self {
            Action::Locked(b) => ActionView::Locked(*b),
            Action::BrandColor(c) => ActionView::BrandColor(
                match c {
                    Some(s) => Some(s@),
                    None => None,
                },
            ),
            Action::Featured(b) => ActionView::Featured(*b),
            Action::DisplayOrder(n) => ActionView::DisplayOrder(*n),
        }
    }
}

/// The text `label` gives.
pub open spec fn action_label(e: Action) -> Seq<char> {
    match e {
        Action::Locked(_) => "편집 잠금 변경"@,
        Action::BrandColor(_) => "브랜드 색상 변경"@,
        Action::Featured(_) => "추천 여부 변경"@,
        Action::DisplayOrder(_) => "표시 순서 변경"@,
    }
}

impl Action {
    /// The summary recorded in the edit history for this kind of change.
    pub fn label(&self) -> (r: &'static str)
        ensures
            r@ == action_label(*self),
    {
        match self {
            Action::Locked(_) => "편집 잠금 변경",
            Action::BrandColor(_) => "브랜드 색상 변경",
            Action::Featured(_) => "추천 여부 변경",
            Action::DisplayOrder(_) => "표시 순서 변경",
        }
    }
}

/// An administrator's setting change of one catalog entry.
#[derive(Clone, Debug, PartialEq, Eq)]
pub struct Request {
    pub name: String,
    pub revision: i64,
    pub action: Action,
    pub note: String,
}

/// An administrator's logo change: base64 data, or `None` to remove the logo.
#[derive(Clone, Debug, PartialEq, Eq)]
pub struct LogoRequest {
    pub name: String,
    pub revision: i64,
    pub data: Option<String>,
    pub note: String,
}

#[derive(Clone, Debug, PartialEq, Eq)]
pub struct CategoryEdit {
    pub label: String,
    pub emoji: String,
    pub display_order: i32,
}

/// Create (`revision` is `None`) or edit a category.
#[derive(Clone, Debug, PartialEq, Eq)]
pub struct CategoryRequest {
    pub name: String,
    pub revision: Option<i64>,
    pub edit: CategoryEdit,
    pub note: String,
}

/// A list query: at most 256 bytes, no control character, page at most 10000.
pub open spec fn query_ok(value: Seq<char>, page: u32) -> bool {
    utf8_len(value) <= 256 && crate::text::no_control(value) && page <= 10000
}

pub fn query(value: &str, page: u32) -> (r: Result<(), Error>)
    ensures
        r is Ok <==> query_ok(value@, page),
        r matches Err(e) ==> e == Error::Invalid,
{
    let v = chars_of(value);
    if !utf8_len_at_most(&v, 256) || !crate::text::has_no_control(&v) || page > 10000 {
        Err(Error::Invalid)
    } else {
        Ok(())
    }
}

/// Administrator text: the same bounded plain text rule as contributions.
pub fn text(s: &mut String, max: usize, lines: bool) -> (r: Result<(), Error>)
    ensures
        final(s)@ == normalize(old(s)@),
        r is Ok <==> text_ok(old(s)@, max as nat, lines),
        r matches Err(e) ==> e == Error::Invalid,
{
    crate::catalog_editing::text(s, max, lines)
}

/// A moderation note: 1 to 1000 characters of plain text, at most 4000 bytes.
pub open spec fn note_ok(s: Seq<char>) -> bool {
    text_ok(s, 1000, true) && normalize(s).len() > 0 && utf8_len(normalize(s)) <= 4000
}

pub fn note(s: &mut String) -> (r: Result<(), Error>)
    ensures
        final(s)@ == normalize(old(s)@),
        r is Ok <==> note_ok(old(s)@),
        r matches Err(e) ==> e == Error::Invalid,
{
    text(s, 1000, true)?;
    let v = chars_of(s.as_str());
    if v.len() == 0 || !utf8_len_at_most(&v, 4000) {
        Err(Error::Invalid)
    } else {
        Ok(())
    }
}

/// A brand color after trimming and uppercasing: empty (meaning none) or `#`
/// followed by six hexadecimal digits.
pub open spec fn color_ok(c: Seq<char>) -> bool {
    let u = upper_seq(trim(c));
    u.len() == 0 || (u.len() == 7 && u[0] == '#' && forall|i: int|
        1 <= i < 7 ==> is_hex_digit(#[trigger] u[i]))
}

/// The stored form of a submitted brand color.
pub open spec fn color_value(c: Seq<char>) -> Option<Seq<char>> {
    let u = upper_seq(trim(c));
    if u.len() == 0 {
        None
    } else {
        Some(u)
    }
}

pub open spec fn action_ok(a: ActionView) -> bool {
    match a {
        ActionView::BrandColor(Some(c)) => color_ok(c),
        _ => true,
    }
}

pub open spec fn action_value(a: ActionView) -> ActionView {
    match a {
        ActionView::BrandColor(Some(c)) => ActionView::BrandColor(color_value(c)),
        _ => a,
    }
}

fn color(s: &String) -> (r: Result<Option<String>, Error>)
    ensures
        r is Ok <==> color_ok(s@),
        r matches Ok(v) ==> match v {
            Some(x) => color_value(s@) == Some(x@),
            None => color_value(s@) is None,
        },
        r matches Err(e) ==> e == Error::Invalid,
{
    let v = chars_of(s.as_str());
    let t = trim_chars(&v);
    let u = upper_chars(&t);
    if u.len() == 0 {
        return Ok(None);
    }
    if u.len() != 7 || u[0] != '#' {
        return Err(Error::Invalid);
    }
    let mut i: usize = 1;
    while i < 7
        invariant
            1 <= i <= 7,
            u.len() == 7,
            u@ == upper_seq(trim(s@)),
            forall|k: int| 1 <= k < i ==> is_hex_digit(#[trigger] u@[k]),
        decreases 7 - i,
    {
        let c = u[i];
        if !(('0' <= c && c <= '9') || ('a' <= c && c <= 'f') || ('A' <= c && c <= 'F')) {
            proof {
                assert(!is_hex_digit(u@[i as int]));
            }
            return Err(Error::Invalid);
        }
        i = i + 1;
    }
    Ok(Some(string_of(&u)))
}

/// When a settings request is accepted.
pub open spec fn software_ok(name: Seq<char>, revision: i64, action: ActionView, note: Seq<char>) -> bool {
    existing_name_ok(name) && revision >= 0 && note_ok(note) && action_ok(action)
}

/// Validates a settings request: the name is an existing identifier, the
/// revision is not negative, the note is valid, and a brand color is `#RRGGBB`
/// (stored uppercase) or empty (meaning none).
pub fn software(v: Request) -> (r: Result<Request, Error>)
    ensures
        r is Ok <==> software_ok(v.name@, v.revision, v.action@, v.note@),
        r matches Ok(x) ==> x.name@ == v.name@ && x.revision == v.revision && x.note@
            == normalize(v.note@) && x.action@ == action_value(v.action@),
        r matches Err(e) ==> e == Error::Invalid,
{
    let mut v = v;
    existing_name(v.name.as_str())?;
    if v.revision < 0 {
        return Err(Error::Invalid);
    }
    note(&mut v.note)?;
    let action = match v.action {
        Action::BrandColor(Some(c)) => {
            let value = color(&c)?;
            Action::BrandColor(value)
        },
        other => other,
    };
    Ok(Request { name: v.name, revision: v.revision, action, note: v.note })
}

/// When a logo request is accepted.
pub open spec fn logo_ok(name: Seq<char>, revision: i64, data: Option<Seq<char>>, note: Seq<char>) -> bool {
    &&& existing_name_ok(name)
    &&& revision >= 0
    &&& (data matches Some(s) ==> s.len() > 0 && utf8_len(s) <= LOGO_MAX_ENCODED)
    &&& note_ok(note)
}

pub open spec fn opt_view(o: Option<String>) -> Option<Seq<char>> {
    match o {
        Some(s) => Some(s@),
        None => None,
    }
}

/// Validates a logo request before any decoding: the encoded data, if any, is
/// non-empty and no longer than the base64 text of the largest logo.
pub fn logo(v: LogoRequest) -> (r: Result<LogoRequest, Error>)
    ensures
        r is Ok <==> logo_ok(v.name@, v.revision, opt_view(v.data), v.note@),
        r matches Ok(x) ==> x.name@ == v.name@ && x.revision == v.revision && opt_view(x.data)
            == opt_view(v.data) && x.note@ == normalize(v.note@),
        r matches Err(e) ==> e == Error::Invalid,
{
    let mut v = v;
    existing_name(v.name.as_str())?;
    let data_bad = match &v.data {
        Some(s) => {
            let d = chars_of(s.as_str());
            d.len() == 0 || !utf8_len_at_most(&d, LOGO_MAX_ENCODED)
        },
        None => false,
    };
    if v.revision < 0 || data_bad {
        return Err(Error::Invalid);
    }
    note(&mut v.note)?;
    Ok(v)
}

/// When a category request is accepted.
pub open spec fn category_ok(
    name: Seq<char>,
    revision: Option<i64>,
    label: Seq<char>,
    emoji: Seq<char>,
    note: Seq<char>,
) -> bool {
    &&& match revision {
        Some(rev) => existing_name_ok(name) && rev >= 0,
        None => new_name_ok(name),
    }
    &&& text_ok(label, 200, false)
    &&& text_ok(emoji, 32, false)
    &&& note_ok(note)
    &&& normalize(label).len() > 0
}

/// Validates a category request. A new category gets a canonical new
/// identifier; an existing one keeps its (possibly imported) name.
pub fn category(v: CategoryRequest) -> (r: Result<CategoryRequest, Error>)
    ensures
        r is Ok <==> category_ok(v.name@, v.revision, v.edit.label@, v.edit.emoji@, v.note@),
        r matches Ok(x) ==> {
            &&& x.name@ == (if v.revision is Some {
                v.name@
            } else {
                lower_seq(trim(v.name@))
            })
            &&& x.revision == v.revision
            &&& x.edit.label@ == normalize(v.edit.label@)
            &&& x.edit.emoji@ == normalize(v.edit.emoji@)
            &&& x.edit.display_order == v.edit.display_order
            &&& x.note@ == normalize(v.note@)
        },
        r matches Err(e) ==> e == Error::Invalid,
{
    let CategoryRequest { name, revision, edit, note: n } = v;
    let CategoryEdit { label, emoji, display_order } = edit;
    let mut label = label;
    let mut emoji = emoji;
    let mut n = n;
    let name = match revision {
        Some(rev) => {
            existing_name(name.as_str())?;
            if rev < 0 {
                return Err(Error::Invalid);
            }
            name
        },
        None => new_name(name.as_str())?,
    };
    text(&mut label, 200, false)?;
    text(&mut emoji, 32, false)?;
    note(&mut n)?;
    if label.as_str().is_empty() {
        return Err(Error::Invalid);
    }
    Ok(CategoryRequest { name, revision, edit: CategoryEdit { label, emoji, display_order }, note: n })
}

/// The revision a category edit produces: the next one, refused on overflow.
pub fn next_revision(revision: i64) -> (r: Result<i64, Error>)
    ensures
        r is Ok <==> revision < i64::MAX,
        r matches Ok(n) ==> n == revision + 1,
        r matches Err(e) ==> e == Error::Invalid,
{
    match revision.checked_add(1) {
        Some(n) => Ok(n),
        None => Err(Error::Invalid),
    }
}

/// Whether a settings request changes nothing: the requested value equals the
/// stored one.
pub fn settings_unchanged(
    action: &Action,
    locked: bool,
    brand_color: &Option<String>,
    featured: bool,
    display_order: i32,
) -> (r: bool)
    ensures
        r == match action@ {
            ActionView::Locked(b) => b == locked,
            ActionView::BrandColor(c) => c == opt_view(*brand_color),
            ActionView::Featured(b) => b == featured,
            ActionView::DisplayOrder(n) => n == display_order,
        },
{
    match action {
        Action::Locked(b) => *b == locked,
        Action::BrandColor(c) => match (c, brand_color) {
            (Some(x), Some(y)) => {
                let a = chars_of(x.as_str());
                let b = chars_of(y.as_str());
                crate::text::chars_eq(&a, &b)
            },
            (None, None) => true,
            _ => false,
        },
        Action::Featured(b) => *b == featured,
        Action::DisplayOrder(n) => *n == display_order,
    }
}


/// What an administrator's logo change does to a catalog entry.
#[derive(Clone, Copy, Debug, PartialEq, Eq, Structural)]
pub enum LogoChange {
    /// The entry changed since the administrator read it.
    Conflict,
    /// Nothing to write: the same bytes again, or removing an absent logo.
    Unchanged,
    /// A new logo is stored; `baseline` first records the imported entry as
    /// revision 0 of its history, and `retire_old` retires the previous file.
    Replace { baseline: bool, retire_old: bool },
    /// The logo is removed and its file retired; `baseline` as above.
    Remove { baseline: bool },
}

impl LogoChange {
    /// The summary recorded in the edit history, for a change that writes.
    pub fn label(&self) -> (r: Option<&'static str>)
        ensures
            *self is Replace ==> (r matches Some(l) && l@ == "로고 변경"@),
            *self is Remove ==> (r matches Some(l) && l@ == "로고 제거"@),
            *self == LogoChange::Conflict || *self == LogoChange::Unchanged ==> r is None,
    {
        match self {
            LogoChange::Replace { .. } => Some("로고 변경"),
            LogoChange::Remove { .. } => Some("로고 제거"),
            _ => None,
        }
    }
}

/// The decision of a logo change, taken under the entry's lock: the entry
/// must be at the revision the administrator saw; storing the bytes already
/// stored, or removing a logo that is absent, writes nothing; otherwise the
/// logo is replaced or removed, an entry still at revision 0 first gets its
/// baseline history row, and a previous file is retired.
pub fn logo_change(
    stored_revision: i64,
    request_revision: i64,
    old_key_present: bool,
    new_logo: bool,
    same_bytes: bool,
) -> (r: LogoChange)
    ensures
        stored_revision != request_revision ==> r == LogoChange::Conflict,
        stored_revision == request_revision && new_logo && same_bytes ==> r
            == LogoChange::Unchanged,
        stored_revision == request_revision && new_logo && !same_bytes ==> r == (
        LogoChange::Replace { baseline: stored_revision == 0, retire_old: old_key_present }),
        stored_revision == request_revision && !new_logo && !old_key_present ==> r
            == LogoChange::Unchanged,
        stored_revision == request_revision && !new_logo && old_key_present ==> r == (
        LogoChange::Remove { baseline: stored_revision == 0 }),
{
    if stored_revision != request_revision {
        return LogoChange::Conflict;
    }
    if new_logo {
        if same_bytes {
            LogoChange::Unchanged
        } else {
            LogoChange::Replace { baseline: stored_revision == 0, retire_old: old_key_present }
        }
    } else if !old_key_present {
        LogoChange::Unchanged
    } else {
        LogoChange::Remove { baseline: stored_revision == 0 }
    }
}

} // verus!
