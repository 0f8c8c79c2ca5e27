//! Character-level text rules shared by every validator: Unicode white space
//! trimming, CRLF folding, control characters and UTF-8 byte lengths.
use vstd::prelude::*;
use vstd::utf8::*;

verus! {

/// Appending one character to a `String` appends it to the character sequence.
pub assume_specification[ String::push ](s: &mut String, ch: char)
    ensures
        final(s)@ == old(s)@.push(ch),
;

/// Bytes that `c` occupies in UTF-8.
pub open spec fn char_width(c: char) -> nat {
    if (c as u32) <= 0x7F {
        1
    } else if (c as u32) <= 0x7FF {
        2
    } else if (c as u32) <= 0xFFFF {
        3
    } else {
        4
    }
}

/// Length in bytes of the UTF-8 encoding of `s` (what `str::len` returns).
pub open spec fn utf8_len(s: Seq<char>) -> nat
    decreases s.len(),
{
    if s.len() == 0 {
        0
    } else {
        char_width(s[0]) + utf8_len(s.drop_first())
    }
}

/// The byte length used by `str::len` is `utf8_len`, and it is never below the character count.
pub proof fn lemma_utf8_len(s: Seq<char>)
    ensures
        encode_utf8(s).len() == utf8_len(s),
        s.len() <= utf8_len(s),
    decreases s.len(),
{
    if s.len() > 0 {
        lemma_utf8_len(s.drop_first());
        char_is_scalar(s[0]);
    }
}

/// For ASCII text the byte length is the character count.
pub proof fn lemma_utf8_len_ascii(s: Seq<char>)
    requires
        forall|i: int| 0 <= i < s.len() ==> (#[trigger] s[i] as u32) <= 0x7F,
    ensures
        utf8_len(s) == s.len(),
    decreases s.len(),
{
    if s.len() > 0 {
        assert forall|i: int| 0 <= i < s.drop_first().len() implies (#[trigger] s.drop_first()[i] as u32) <= 0x7F by {
            assert(s.drop_first()[i] == s[i + 1]);
        }
        lemma_utf8_len_ascii(s.drop_first());
    }
}

/// `char::is_control`: the Unicode general category Cc.
pub open spec fn is_control(c: char) -> bool {
    (c as u32) <= 0x1F || (0x7F <= (c as u32) && (c as u32) <= 0x9F)
}

/// `char::is_whitespace`: the Unicode White_Space property.
pub open spec fn is_white_space(c: char) -> bool {
    let u = c as u32;
    (0x09 <= u && u <= 0x0D) || u == 0x20 || u == 0x85 || u == 0xA0 || u == 0x1680 || (0x2000
        <= u && u <= 0x200A) || u == 0x2028 || u == 0x2029 || u == 0x202F || u == 0x205F || u
        == 0x3000
}

/// `char::is_ascii_whitespace`: space, tab, line feed, form feed, carriage return.
pub open spec fn is_ascii_white(c: char) -> bool {
    c == ' ' || c == '\t' || c == '\n' || c == '\x0C' || c == '\r'
}

pub open spec fn is_ascii_digit(c: char) -> bool {
    '0' <= c && c <= '9'
}

pub open spec fn is_ascii_lower(c: char) -> bool {
    'a' <= c && c <= 'z'
}

pub open spec fn is_ascii_upper(c: char) -> bool {
    'A' <= c && c <= 'Z'
}

pub open spec fn is_ascii_alnum(c: char) -> bool {
    is_ascii_digit(c) || is_ascii_lower(c) || is_ascii_upper(c)
}

pub open spec fn is_hex_digit(c: char) -> bool {
    is_ascii_digit(c) || ('a' <= c && c <= 'f') || ('A' <= c && c <= 'F')
}

/// `char::to_ascii_lowercase`.
pub open spec fn ascii_lower(c: char) -> char {
    if is_ascii_upper(c) {
        ((c as u32) + 32) as char
    } else {
        c
    }
}

/// `char::to_ascii_uppercase`.
pub open spec fn ascii_upper(c: char) -> char {
    if is_ascii_lower(c) {
        ((c as u32) - 32) as char
    } else {
        c
    }
}

pub open spec fn lower_seq(s: Seq<char>) -> Seq<char> {
    s.map_values(|c: char| ascii_lower(c))
}

pub open spec fn upper_seq(s: Seq<char>) -> Seq<char> {
    s.map_values(|c: char| ascii_upper(c))
}

pub open spec fn trim_start(s: Seq<char>) -> Seq<char>
    decreases s.len(),
{
    if s.len() > 0 && is_white_space(s[0]) {
        trim_start(s.drop_first())
    } else {
        s
    }
}

pub open spec fn trim_end(s: Seq<char>) -> Seq<char>
    decreases s.len(),
{
    if s.len() > 0 && is_white_space(s.last()) {
        trim_end(s.drop_last())
    } else {
        s
    }
}

/// `str::trim`: white space removed from both ends.
pub open spec fn trim(s: Seq<char>) -> Seq<char> {
    trim_end(trim_start(s))
}

/// `replace("\r\n", "\n")`: every CRLF pair, scanned left to right, becomes one line feed.
pub open spec fn replace_crlf(s: Seq<char>) -> Seq<char>
    decreases s.len(),
{
    if s.len() == 0 {
        s
    } else if s.len() >= 2 && s[0] == '\r' && s[1] == '\n' {
        seq!['\n'] + replace_crlf(s.subrange(2, s.len() as int))
    } else {
        seq![s[0]] + replace_crlf(s.drop_first())
    }
}

/// The normal form of submitted text: trimmed, then CRLF folded.
pub open spec fn normalize(s: Seq<char>) -> Seq<char> {
    replace_crlf(trim(s))
}

/// No control character, except line feed and tab where `lines` allows them.
pub open spec fn plain_text(s: Seq<char>, lines: bool) -> bool {
    forall|i: int|
        0 <= i < s.len() ==> !(is_control(#[trigger] s[i]) && !(lines && (s[i] == '\n' || s[i]
            == '\t')))
}

pub open spec fn no_control(s: Seq<char>) -> bool {
    forall|i: int| 0 <= i < s.len() ==> !is_control(#[trigger] s[i])
}

pub fn is_control_char(c: char) -> (b: bool)
    ensures
        b == is_control(c),
{
    let u: u32 = c as u32;
    u <= 0x1F || (0x7F <= u && u <= 0x9F)
}

pub fn is_white_space_char(c: char) -> (b: bool)
    ensures
        b == is_white_space(c),
{
    let u: u32 = c as u32;
    (0x09 <= u && u <= 0x0D) || u == 0x20 || u == 0x85 || u == 0xA0 || u == 0x1680 || (0x2000
        <= u && u <= 0x200A) || u == 0x2028 || u == 0x2029 || u == 0x202F || u == 0x205F || u
        == 0x3000
}

pub fn is_ascii_white_char(c: char) -> (b: bool)
    ensures
        b == is_ascii_white(c),
{
    c == ' ' || c == '\t' || c == '\n' || c == '\x0C' || c == '\r'
}

pub fn lower_char(c: char) -> (r: char)
    ensures
        r == ascii_lower(c),
{
    if 'A' <= c && c <= 'Z' {
        let b: u8 = c as u8;
        let r = (b + 32) as char;
        proof {
            char_u32_cast(r, r as u32);
        }
        r
    } else {
        c
    }
}

pub fn upper_char(c: char) -> (r: char)
    ensures
        r == ascii_upper(c),
{
    if 'a' <= c && c <= 'z' {
        let b: u8 = c as u8;
        let r = (b - 32) as char;
        proof {
            char_u32_cast(r, r as u32);
        }
        r
    } else {
        c
    }
}

/// The characters of `s`, in order.
pub fn chars_of(s: &str) -> (v: Vec<char>)
    ensures
        v@ == s@,
{
    let mut v: Vec<char> = Vec::new();
    for c in it: s.chars()
        invariant
            v@ == it.seq().take(it.index() as int),
            it.seq() == s@,
        ensures
            v@ == s@,
    {
        v.push(c);
        proof {
            assert(it.seq().take(it.index() + 1) =~= it.seq().take(it.index() as int).push(c));
        }
    }
    v
}

/// A `String` holding exactly the characters of `v`.
pub fn string_of(v: &Vec<char>) -> (s: String)
    ensures
        s@ == v@,
{
    let mut s = String::new();
    let n = v.len();
    let mut i: usize = 0;
    while i < n
        invariant
            i <= n,
            n == v.len(),
            s@ == v@.take(i as int),
        decreases n - i,
    {
        s.push(v[i]);
        proof {
            assert(v@.take(i + 1) =~= v@.take(i as int).push(v@[i as int]));
        }
        i = i + 1;
    }
    proof {
        assert(v@.take(n as int) =~= v@);
    }
    s
}

/// Whether the UTF-8 encoding of `v` fits in `max` bytes.
pub fn utf8_len_at_most(v: &Vec<char>, max: usize) -> (b: bool)
    ensures
        b == (utf8_len(v@) <= max),
{
    let n = v.len();
    let mut i: usize = n;
    let mut total: usize = 0;
    // Sum from the end so that the partial sum is `utf8_len` of a suffix.
    while i > 0
        invariant
            i <= n,
            n == v.len(),
            total == utf8_len(v@.subrange(i as int, n as int)),
            total <= max,
        decreases i,
    {
        let c = v[i - 1];
        let u: u32 = c as u32;
        let w: usize = if u <= 0x7F {
            1
        } else if u <= 0x7FF {
            2
        } else if u <= 0xFFFF {
            3
        } else {
            4
        };
        proof {
            let tail = v@.subrange(i - 1, n as int);
            assert(tail.drop_first() =~= v@.subrange(i as int, n as int));
            assert(tail[0] == c);
        }
        if w > max - total {
            proof {
                lemma_utf8_len_suffix_grows(v@, i - 1, n as int);
            }
            return false;
        }
        total = total + w;
        i = i - 1;
    }
    proof {
        assert(v@.subrange(0, n as int) =~= v@);
    }
    true
}

/// `utf8_len` of a whole sequence is at least that of any suffix.
proof fn lemma_utf8_len_suffix_grows(s: Seq<char>, k: int, n: int)
    requires
        0 <= k <= n,
        n == s.len(),
    ensures
        utf8_len(s) >= utf8_len(s.subrange(k, n)),
    decreases k,
{
    if k > 0 {
        lemma_utf8_len_suffix_grows(s, k - 1, n);
        let t = s.subrange(k - 1, n);
        assert(t.drop_first() =~= s.subrange(k, n));
    } else {
        assert(s.subrange(0, n) =~= s);
    }
}

/// `str::trim` on a character vector.
pub fn trim_chars(v: &Vec<char>) -> (r: Vec<char>)
    ensures
        r@ == trim(v@),
{
    let n = v.len();
    let mut i: usize = 0;
    proof {
        assert(v@.subrange(0, n as int) =~= v@);
    }
    while i < n && is_white_space_char(v[i])
        invariant
            i <= n,
            n == v.len(),
            trim_start(v@) == trim_start(v@.subrange(i as int, n as int)),
        decreases n - i,
    {
        proof {
            let t = v@.subrange(i as int, n as int);
            assert(t.drop_first() =~= v@.subrange(i + 1, n as int));
        }
        i = i + 1;
    }
    let ghost start = v@.subrange(i as int, n as int);
    assert(trim_start(start) == start);
    let mut j: usize = n;
    while j > i && is_white_space_char(v[j - 1])
        invariant
            i <= j <= n,
            n == v.len(),
            start == v@.subrange(i as int, n as int),
            trim_end(start) == trim_end(v@.subrange(i as int, j as int)),
        decreases j,
    {
        proof {
            let t = v@.subrange(i as int, j as int);
            assert(t.drop_last() =~= v@.subrange(i as int, j - 1));
        }
        j = j - 1;
    }
    let mut r: Vec<char> = Vec::new();
    let mut k: usize = i;
    while k < j
        invariant
            i <= k <= j,
            j <= n,
            n == v.len(),
            r@ == v@.subrange(i as int, k as int),
        decreases j - k,
    {
        r.push(v[k]);
        proof {
            assert(v@.subrange(i as int, k + 1) =~= v@.subrange(i as int, k as int).push(
                v@[k as int],
            ));
        }
        k = k + 1;
    }
    proof {
        let e = v@.subrange(i as int, j as int);
        assert(trim_end(e) == e);
    }
    r
}

/// `replace("\r\n", "\n")` on a character vector.
pub fn replace_crlf_chars(v: &Vec<char>) -> (r: Vec<char>)
    ensures
        r@ == replace_crlf(v@),
{
    let n = v.len();
    let mut i: usize = 0;
    let mut r: Vec<char> = Vec::new();
    proof {
        assert(v@.subrange(0, n as int) =~= v@);
    }
    while i < n
        invariant
            i <= n,
            n == v.len(),
            r@ + replace_crlf(v@.subrange(i as int, n as int)) == replace_crlf(v@),
        decreases n - i,
    {
        let ghost t = v@.subrange(i as int, n as int);
        if i + 1 < n && v[i] == '\r' && v[i + 1] == '\n' {
            proof {
                assert(t.subrange(2, t.len() as int) =~= v@.subrange(i + 2, n as int));
                assert(r@.push('\n') + replace_crlf(v@.subrange(i + 2, n as int)) =~= r@ + (
                seq!['\n'] + replace_crlf(v@.subrange(i + 2, n as int))));
            }
            r.push('\n');
            i = i + 2;
        } else {
            let c = v[i];
            proof {
                assert(t.drop_first() =~= v@.subrange(i + 1, n as int));
                assert(r@.push(c) + replace_crlf(v@.subrange(i + 1, n as int)) =~= r@ + (seq![c]
                    + replace_crlf(v@.subrange(i + 1, n as int))));
            }
            r.push(c);
            i = i + 1;
        }
    }
    proof {
        assert(v@.subrange(n as int, n as int) =~= Seq::<char>::empty());
        assert(r@ + Seq::<char>::empty() =~= r@);
    }
    r
}

/// Trimmed, then CRLF folded.
pub fn normalize_chars(v: &Vec<char>) -> (r: Vec<char>)
    ensures
        r@ == normalize(v@),
{
    let t = trim_chars(v);
    replace_crlf_chars(&t)
}

pub fn lower_chars(v: &Vec<char>) -> (r: Vec<char>)
    ensures
        r@ == lower_seq(v@),
{
    let n = v.len();
    let mut r: Vec<char> = Vec::new();
    let mut i: usize = 0;
    while i < n
        invariant
            i <= n,
            n == v.len(),
            r@ == lower_seq(v@.take(i as int)),
        decreases n - i,
    {
        let c = lower_char(v[i]);
        r.push(c);
        proof {
            assert(lower_seq(v@.take(i + 1)) =~= lower_seq(v@.take(i as int)).push(c));
        }
        i = i + 1;
    }
    proof {
        assert(v@.take(n as int) =~= v@);
    }
    r
}

pub fn upper_chars(v: &Vec<char>) -> (r: Vec<char>)
    ensures
        r@ == upper_seq(v@),
{
    let n = v.len();
    let mut r: Vec<char> = Vec::new();
    let mut i: usize = 0;
    while i < n
        invariant
            i <= n,
            n == v.len(),
            r@ == upper_seq(v@.take(i as int)),
        decreases n - i,
    {
        let c = upper_char(v[i]);
        r.push(c);
        proof {
            assert(upper_seq(v@.take(i + 1)) =~= upper_seq(v@.take(i as int)).push(c));
        }
        i = i + 1;
    }
    proof {
        assert(v@.take(n as int) =~= v@);
    }
    r
}

/// Whether `v` holds no control character (line feed and tab allowed when `lines`).
pub fn is_plain_text(v: &Vec<char>, lines: bool) -> (b: bool)
    ensures
        b == plain_text(v@, lines),
{
    let n = v.len();
    let mut i: usize = 0;
    while i < n
        invariant
            i <= n,
            n == v.len(),
            forall|k: int|
                0 <= k < i ==> !(is_control(#[trigger] v@[k]) && !(lines && (v@[k] == '\n'
                    || v@[k] == '\t'))),
        decreases n - i,
    {
        let c = v[i];
        if is_control_char(c) && !(lines && (c == '\n' || c == '\t')) {
            return false;
        }
        i = i + 1;
    }
    true
}

pub fn has_no_control(v: &Vec<char>) -> (b: bool)
    ensures
        b == no_control(v@),
{
    let n = v.len();
    let mut i: usize = 0;
    while i < n
        invariant
            i <= n,
            n == v.len(),
            forall|k: int| 0 <= k < i ==> !is_control(#[trigger] v@[k]),
        decreases n - i,
    {
        if is_control_char(v[i]) {
            return false;
        }
        i = i + 1;
    }
    true
}

/// Whether two character vectors are equal.
pub fn chars_eq(a: &Vec<char>, b: &Vec<char>) -> (r: bool)
    ensures
        r == (a@ == b@),
{
    if a.len() != b.len() {
        return false;
    }
    let n = a.len();
    let mut i: usize = 0;
    while i < n
        invariant
            i <= n,
            n == a.len(),
            n == b.len(),
            forall|k: int| 0 <= k < i ==> a@[k] == b@[k],
        decreases n - i,
    {
        if a[i] != b[i] {
            return false;
        }
        i = i + 1;
    }
    proof {
        assert(a@ =~= b@);
    }
    true
}

/// Whether `v` is exactly the characters of `lit`.
pub fn chars_eq_str(v: &Vec<char>, lit: &str) -> (r: bool)
    ensures
        r == (v@ == lit@),
{
    let w = chars_of(lit);
    chars_eq(v, &w)
}

} // verus!

verus! {

/// Index of the first occurrence of `c` in `s`.
pub open spec fn find(s: Seq<char>, c: char) -> Option<int>
    decreases s.len(),
{
    if s.len() == 0 {
        None
    } else if s[0] == c {
        Some(0)
    } else {
        match find(s.drop_first(), c) {
            Some(i) => Some(i + 1),
            None => None,
        }
    }
}

proof fn lemma_find_skip(s: Seq<char>, c: char, i: int)
    requires
        0 <= i <= s.len(),
        forall|k: int| 0 <= k < i ==> s[k] != c,
    ensures
        find(s, c) == match find(s.subrange(i, s.len() as int), c) {
            Some(j) => Some(j + i),
            None => None::<int>,
        },
    decreases i,
{
    if i == 0 {
        assert(s.subrange(0, s.len() as int) =~= s);
    } else {
        lemma_find_skip(s.drop_first(), c, i - 1);
        assert(s.drop_first().subrange(i - 1, s.drop_first().len() as int) =~= s.subrange(
            i,
            s.len() as int,
        ));
    }
}

/// The first index of `c` in `v`.
pub fn find_char(v: &Vec<char>, c: char) -> (r: Option<usize>)
    ensures
        match r {
            Some(i) => find(v@, c) == Some(i as int) && i < v@.len() && v@[i as int] == c,
            None => find(v@, c) is None,
        },
{
    let n = v.len();
    let mut i: usize = 0;
    while i < n
        invariant
            i <= n,
            n == v.len(),
            forall|k: int| 0 <= k < i ==> v@[k] != c,
        decreases n - i,
    {
        if v[i] == c {
            proof {
                lemma_find_skip(v@, c, i as int);
            }
            return Some(i);
        }
        i = i + 1;
    }
    proof {
        lemma_find_skip(v@, c, n as int);
    }
    None
}

/// The characters `v[from..to]`.
pub fn slice_chars(v: &Vec<char>, from: usize, to: usize) -> (r: Vec<char>)
    requires
        from <= to <= v.len(),
    ensures
        r@ == v@.subrange(from as int, to as int),
{
    let mut r: Vec<char> = Vec::new();
    let mut k: usize = from;
    while k < to
        invariant
            from <= k <= to,
            to <= v.len(),
            r@ == v@.subrange(from as int, k as int),
        decreases to - k,
    {
        r.push(v[k]);
        proof {
            assert(v@.subrange(from as int, k + 1) =~= v@.subrange(from as int, k as int).push(
                v@[k as int],
            ));
        }
        k = k + 1;
    }
    r
}

pub open spec fn starts_with(s: Seq<char>, prefix: Seq<char>) -> bool {
    prefix.len() <= s.len() && s.subrange(0, prefix.len() as int) == prefix
}

/// Whether `v` begins with the characters of `lit`.
pub fn prefix_eq(v: &Vec<char>, lit: &str) -> (b: bool)
    ensures
        b == starts_with(v@, lit@),
{
    let p = chars_of(lit);
    if p.len() > v.len() {
        return false;
    }
    let n = p.len();
    let mut i: usize = 0;
    while i < n
        invariant
            i <= n,
            n == p.len(),
            n <= v.len(),
            p@ == lit@,
            forall|k: int| 0 <= k < i ==> v@[k] == p@[k],
        decreases n - i,
    {
        if v[i] != p[i] {
            proof {
                assert(v@.subrange(0, n as int)[i as int] == v@[i as int]);
                assert(v@.subrange(0, n as int) != p@);
            }
            return false;
        }
        i = i + 1;
    }
    proof {
        assert(v@.subrange(0, n as int) =~= p@);
    }
    true
}

/// The ends of a sequence are not white space.
pub open spec fn tight(s: Seq<char>) -> bool {
    s.len() > 0 ==> !is_white_space(s[0]) && !is_white_space(s.last())
}

proof fn lemma_trim_start_tight(s: Seq<char>)
    ensures
        trim_start(s).len() <= s.len(),
        trim_start(s).len() > 0 ==> !is_white_space(trim_start(s)[0]),
        trim_start(s) == s.subrange(s.len() - trim_start(s).len(), s.len() as int),
    decreases s.len(),
{
    if s.len() > 0 && is_white_space(s[0]) {
        lemma_trim_start_tight(s.drop_first());
        assert(s.drop_first().subrange(
            s.drop_first().len() - trim_start(s).len(),
            s.drop_first().len() as int,
        ) =~= s.subrange(s.len() - trim_start(s).len(), s.len() as int));
    } else {
        assert(s.subrange(0, s.len() as int) =~= s);
    }
}

proof fn lemma_trim_end_tight(s: Seq<char>)
    ensures
        trim_end(s).len() <= s.len(),
        trim_end(s).len() > 0 ==> !is_white_space(trim_end(s).last()),
        trim_end(s) == s.subrange(0, trim_end(s).len() as int),
    decreases s.len(),
{
    if s.len() > 0 && is_white_space(s.last()) {
        lemma_trim_end_tight(s.drop_last());
        assert(s.drop_last().subrange(0, trim_end(s).len() as int) =~= s.subrange(
            0,
            trim_end(s).len() as int,
        ));
    } else {
        assert(s.subrange(0, s.len() as int) =~= s);
    }
}

/// Trimmed text has no white space at either end.
pub proof fn lemma_trim_tight(s: Seq<char>)
    ensures
        tight(trim(s)),
{
    let a = trim_start(s);
    lemma_trim_start_tight(s);
    lemma_trim_end_tight(a);
    let t = trim_end(a);
    if t.len() > 0 {
        assert(t[0] == a[0]);
    }
}

/// Trimming text without white space at its ends changes nothing.
pub proof fn lemma_trim_of_tight(s: Seq<char>)
    requires
        tight(s),
    ensures
        trim(s) == s,
{
}

/// Folding CRLF keeps the last character of a text that does not end a line.
proof fn lemma_replace_crlf_last(u: Seq<char>)
    requires
        u.len() > 0,
        u.last() != '\n',
    ensures
        replace_crlf(u).len() > 0,
        replace_crlf(u).last() == u.last(),
    decreases u.len(),
{
    if u.len() >= 2 && u[0] == '\r' && u[1] == '\n' {
        let rest = u.subrange(2, u.len() as int);
        assert(rest.len() > 0);
        assert(rest.last() == u.last());
        lemma_replace_crlf_last(rest);
    } else {
        let rest = u.drop_first();
        if rest.len() > 0 {
            assert(rest.last() == u.last());
            lemma_replace_crlf_last(rest);
        } else {
            assert(replace_crlf(rest) =~= rest);
        }
    }
}

/// Folding CRLF in text without carriage returns changes nothing.
pub proof fn lemma_replace_crlf_without_cr(u: Seq<char>)
    requires
        !u.contains('\r'),
    ensures
        replace_crlf(u) == u,
    decreases u.len(),
{
    if u.len() > 0 {
        assert(u[0] != '\r');
        let rest = u.drop_first();
        assert(!rest.contains('\r')) by {
            if rest.contains('\r') {
                let k = choose|k: int| 0 <= k < rest.len() && rest[k] == '\r';
                assert(u[k + 1] == '\r');
            }
        }
        lemma_replace_crlf_without_cr(rest);
        assert(seq![u[0]] + rest =~= u);
    }
}

/// Normal text stays tight: folding CRLF neither exposes nor adds white space
/// at the ends of trimmed text.
pub proof fn lemma_normalize_tight(s: Seq<char>)
    ensures
        tight(normalize(s)),
{
    let t = trim(s);
    lemma_trim_tight(s);
    if t.len() > 0 {
        assert(t.last() != '\n');
        lemma_replace_crlf_last(t);
        if t.len() >= 2 && t[0] == '\r' && t[1] == '\n' {
            assert(false);
        }
        assert(replace_crlf(t)[0] == t[0]);
    }
}

/// Normalizing a normal text that holds no carriage return gives it back:
/// accepted text saved again is unchanged.
pub proof fn lemma_normal_text_is_fixed(s: Seq<char>)
    requires
        !normalize(s).contains('\r'),
    ensures
        normalize(normalize(s)) == normalize(s),
{
    let n = normalize(s);
    lemma_normalize_tight(s);
    lemma_trim_of_tight(n);
    lemma_replace_crlf_without_cr(n);
}

/// Plain text never holds a carriage return, which is a control character.
pub proof fn lemma_plain_text_has_no_cr(s: Seq<char>, lines: bool)
    requires
        plain_text(s, lines),
    ensures
        !s.contains('\r'),
{
    if s.contains('\r') {
        let k = choose|k: int| 0 <= k < s.len() && s[k] == '\r';
        assert(is_control(s[k]));
    }
}

} // verus!
