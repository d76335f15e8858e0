//! Small verified string helpers shared by the rest of the library.
use vstd::prelude::*;
use vstd::string::*;
use vstd::utf8::*;

verus! {

/// Appends one character to a `String` (std `String::push`).
#[verifier::external_body]
pub(crate) fn push_char(s: &mut String, c: char)
    ensures
        final(s)@ == old(s)@.push(c),
{
    s.push(c);
}

/// Appends `t` to `s`.
pub fn push_str(s: &mut String, t: &str)
    ensures
        final(s)@ == old(s)@ + t@,
{
    s.append(t);
}

/// The characters of `s`, in order.
pub fn chars_of(s: &str) -> (res: Vec<char>)
    ensures
        res@ == s@,
{
    let mut out: Vec<char> = Vec::new();
    for c in it: s.chars()
        invariant
            out@ == it.seq().take(it.index() as int),
    {
        out.push(c);
    }
    out
}

/// A `String` holding exactly the given characters.
pub fn string_from_chars(v: &Vec<char>) -> (res: String)
    ensures
        res@ == v@,
{
    let mut s = String::new();
    for i in 0..v.len()
        invariant
            s@ == v@.take(i as int),
    {
        push_char(&mut s, v[i]);
        assert(v@.take(i + 1) == v@.take(i as int).push(v@[i as int]));
    }
    assert(v@.take(v.len() as int) == v@);
    s
}

/// An owned copy of `s`.
pub fn to_owned_string(s: &str) -> (res: String)
    ensures
        res@ == s@,
{
    s.to_owned()
}

/// Character-wise equality of two string slices.
pub fn str_eq(a: &str, b: &str) -> (res: bool)
    ensures
        res == (a@ == b@),
{
    let av = chars_of(a);
    let bv = chars_of(b);
    if av.len() != bv.len() {
        return false;
    }
    for i in 0..av.len()
        invariant
            av@ == a@,
            bv@ == b@,
            av.len() == bv.len(),
            forall|j: int| 0 <= j < i ==> av@[j] == bv@[j],
    {
        if av[i] != bv[i] {
            return false;
        }
    }
    assert(av@ =~= bv@);
    true
}

/// `prefix` is a prefix of `s`.
pub open spec fn seq_starts_with(s: Seq<char>, prefix: Seq<char>) -> bool {
    prefix.len() <= s.len() && s.take(prefix.len() as int) == prefix
}

/// Whether `s` begins with `prefix` (std `str::starts_with` on a `&str` pattern).
pub fn starts_with(s: &str, prefix: &str) -> (res: bool)
    ensures
        res == seq_starts_with(s@, prefix@),
{
    let sv = chars_of(s);
    let pv = chars_of(prefix);
    if pv.len() > sv.len() {
        return false;
    }
    for i in 0..pv.len()
        invariant
            sv@ == s@,
            pv@ == prefix@,
            pv.len() <= sv.len(),
            forall|j: int| 0 <= j < i ==> sv@[j] == pv@[j],
    {
        if sv[i] != pv[i] {
            assert(s@.take(prefix@.len() as int)[i as int] != prefix@[i as int]);
            return false;
        }
    }
    assert(s@.take(prefix@.len() as int) =~= prefix@);
    true
}

/// The decimal digit for `d < 10`.
pub open spec fn digit_char(d: nat) -> char {
    if d == 0 { '0' }
    else if d == 1 { '1' }
    else if d == 2 { '2' }
    else if d == 3 { '3' }
    else if d == 4 { '4' }
    else if d == 5 { '5' }
    else if d == 6 { '6' }
    else if d == 7 { '7' }
    else if d == 8 { '8' }
    else { '9' }
}

/// Decimal representation of a natural number, without leading zeros
/// (`0` is written `"0"`), as `Display` writes unsigned integers.
pub open spec fn nat_decimal(n: nat) -> Seq<char>
    decreases n,
{
    if n < 10 {
        seq![digit_char(n)]
    } else {
        nat_decimal(n / 10).push(digit_char(n % 10))
    }
}

/// Decimal representation of an integer, with a leading `-` when negative,
/// as `Display` writes signed integers.
pub open spec fn int_decimal(n: int) -> Seq<char> {
    if n < 0 {
        seq!['-'] + nat_decimal((-n) as nat)
    } else {
        nat_decimal(n as nat)
    }
}

fn digit(d: u64) -> (c: char)
    requires
        d < 10,
    ensures
        c == digit_char(d as nat),
{
    if d == 0 { '0' }
    else if d == 1 { '1' }
    else if d == 2 { '2' }
    else if d == 3 { '3' }
    else if d == 4 { '4' }
    else if d == 5 { '5' }
    else if d == 6 { '6' }
    else if d == 7 { '7' }
    else if d == 8 { '8' }
    else { '9' }
}

/// Decimal text of an unsigned number.
pub fn u64_to_decimal(n: u64) -> (res: String)
    ensures
        res@ == nat_decimal(n as nat),
    decreases n,
{
    if n < 10 {
        let mut s = String::new();
        push_char(&mut s, digit(n));
        s
    } else {
        let mut s = u64_to_decimal(n / 10);
        push_char(&mut s, digit(n % 10));
        s
    }
}

/// Decimal text of a signed number.
pub fn i64_to_decimal(n: i64) -> (res: String)
    ensures
        res@ == int_decimal(n as int),
{
    if n < 0 {
        let mag: u64 = if n == i64::MIN {
            9223372036854775808u64
        } else {
            (-n) as u64
        };
        let digits = u64_to_decimal(mag);
        let mut s = String::new();
        push_char(&mut s, '-');
        push_str(&mut s, digits.as_str());
        s
    } else {
        u64_to_decimal(n as u64)
    }
}

/// Join the sequences of `parts` with `sep` between consecutive ones.
pub open spec fn seq_join(parts: Seq<Seq<char>>, sep: Seq<char>) -> Seq<char>
    decreases parts.len(),
{
    if parts.len() == 0 {
        Seq::empty()
    } else if parts.len() == 1 {
        parts[0]
    } else {
        seq_join(parts.drop_last(), sep) + sep + parts.last()
    }
}

/// The views of a vector of strings.
pub open spec fn string_views(v: Seq<String>) -> Seq<Seq<char>> {
    v.map_values(|s: String| s@)
}

/// `parts.join(sep)`.
pub fn join(parts: &Vec<String>, sep: &str) -> (res: String)
    ensures
        res@ == seq_join(string_views(parts@), sep@),
{
    let mut s = String::new();
    let ghost views = string_views(parts@);
    for i in 0..parts.len()
        invariant
            views == string_views(parts@),
            s@ == seq_join(views.take(i as int), sep@),
    {
        if i != 0 {
            push_str(&mut s, sep);
        }
        push_str(&mut s, parts[i].as_str());
        assert(views.take(i + 1).drop_last() =~= views.take(i as int));
        assert(views.take(i + 1).last() == parts@[i as int]@);
    }
    assert(views.take(parts.len() as int) =~= views);
    s
}

/// An ASCII letter or digit.
pub open spec fn is_ascii_alnum(c: char) -> bool {
    ('a' <= c && c <= 'z') || ('A' <= c && c <= 'Z') || ('0' <= c && c <= '9')
}

/// Whether `c` is alphanumeric in Unicode (`char::is_alphanumeric`).
pub uninterp spec fn unicode_alphanumeric(c: char) -> bool;

/// `char::is_alphanumeric`: whether `c` has the Unicode `Alphabetic`
/// property or a numeric general category. Its documentation and tables
/// make the ASCII characters among these exactly the letters and digits;
/// that is all that is stated of other characters.
#[verifier::external_body]
pub(crate) fn is_alphanumeric(c: char) -> (res: bool)
    ensures
        res == unicode_alphanumeric(c),
        (c as u32) < 128 ==> (res <==> is_ascii_alnum(c)),
{
    c.is_alphanumeric()
}

/// The ASCII lower case of a character; other characters are unchanged.
pub open spec fn ascii_lower(c: char) -> char {
    if 'A' <= c && c <= 'Z' { ((c as u32) + 32) as char } else { c }
}

/// Every character is ASCII.
pub open spec fn all_ascii(s: Seq<char>) -> bool {
    forall|i: int| 0 <= i < s.len() ==> (#[trigger] s[i] as u32) < 128
}

/// The Unicode lower case of a text (`str::to_lowercase`).
pub uninterp spec fn unicode_lowercase(s: Seq<char>) -> Seq<char>;

/// `str::to_lowercase`: the text mapped through Unicode's lower-case
/// mapping. On an all-ASCII text this lower-cases the letters `A`-`Z` and
/// leaves every other character as it is; that is all that is stated of
/// other texts.
#[verifier::external_body]
pub(crate) fn to_lowercase(s: &str) -> (res: String)
    ensures
        res@ == unicode_lowercase(s@),
        all_ascii(s@) ==> res@ == s@.map_values(|c: char| ascii_lower(c)),
{
    s.to_lowercase()
}

/// The first position of `c` in `s`.
pub open spec fn first_pos_of(s: Seq<char>, c: char) -> Option<int>
    decreases s.len(),
{
    if s.len() == 0 {
        None
    } else {
        match first_pos_of(s.drop_last(), c) {
            Some(p) => Some(p),
            None => if s.last() == c { Some(s.len() - 1) } else { None },
        }
    }
}

/// The last position of `c` in `s`.
pub open spec fn last_pos_of(s: Seq<char>, c: char) -> Option<int>
    decreases s.len(),
{
    if s.len() == 0 {
        None
    } else if s.last() == c {
        Some(s.len() - 1)
    } else {
        last_pos_of(s.drop_last(), c)
    }
}

/// Where a delimited part starts: at the first `open`, or at the start.
pub open spec fn span_start(s: Seq<char>, open: char) -> int {
    match first_pos_of(s, open) {
        Some(p) => p,
        None => 0,
    }
}

/// Where a delimited part ends: after the last `close`, or at the end.
pub open spec fn span_end(s: Seq<char>, close: char) -> int {
    match last_pos_of(s, close) {
        Some(p) => p + 1,
        None => s.len() as int,
    }
}

proof fn lemma_first_pos_of(s: Seq<char>, c: char)
    ensures
        match first_pos_of(s, c) {
            Some(p) => 0 <= p < s.len() && s[p] == c && forall|q: int| 0 <= q < p ==> s[q] != c,
            None => forall|q: int| 0 <= q < s.len() ==> s[q] != c,
        },
    decreases s.len(),
{
    if s.len() > 0 {
        let init = s.drop_last();
        lemma_first_pos_of(init, c);
        match first_pos_of(init, c) {
            Some(p) => {
                assert(s[p] == init[p]);
                assert forall|q: int| 0 <= q < p implies s[q] != c by {
                    assert(s[q] == init[q]);
                }
            },
            None => {
                assert forall|q: int| 0 <= q < s.len() - 1 implies s[q] != c by {
                    assert(s[q] == init[q]);
                }
            },
        }
    }
}

proof fn lemma_last_pos_of(s: Seq<char>, c: char)
    ensures
        match last_pos_of(s, c) {
            Some(p) => 0 <= p < s.len() && s[p] == c && forall|q: int| p < q < s.len() ==> s[q] != c,
            None => forall|q: int| 0 <= q < s.len() ==> s[q] != c,
        },
    decreases s.len(),
{
    if s.len() > 0 && s.last() != c {
        let init = s.drop_last();
        lemma_last_pos_of(init, c);
        match last_pos_of(init, c) {
            Some(p) => {
                assert(s[p] == init[p]);
                assert forall|q: int| p < q < s.len() implies s[q] != c by {
                    if q < s.len() - 1 {
                        assert(s[q] == init[q]);
                    }
                }
            },
            None => {
                assert forall|q: int| 0 <= q < s.len() implies s[q] != c by {
                    if q < s.len() - 1 {
                        assert(s[q] == init[q]);
                    }
                }
            },
        }
    }
}

/// The part of `content` from its first `open` (or the start) to its last
/// `close` (or the end); none when the last `close` comes before the first
/// `open`.
pub fn delimited(content: &str, open: char, close: char) -> (res: Option<String>)
    ensures
        span_start(content@, open) <= span_end(content@, close) ==> (res matches Some(t)
            && t@ == content@.subrange(span_start(content@, open), span_end(content@, close))),
        span_start(content@, open) > span_end(content@, close) ==> res is None,
{
    let cs = chars_of(content);
    proof {
        lemma_first_pos_of(content@, open);
        lemma_last_pos_of(content@, close);
    }
    let mut start: usize = 0;
    let mut found = false;
    let mut i: usize = 0;
    while i < cs.len() && !found
        invariant
            cs@ == content@,
            i <= cs.len(),
            forall|q: int| 0 <= q < i && !(found && q == i - 1) ==> cs@[q] != open,
            found ==> i >= 1 && start == i - 1 && cs@[start as int] == open,
            !found ==> start == 0,
        decreases cs.len() - i,
    {
        if cs[i] == open {
            start = i;
            found = true;
        }
        i += 1;
    }
    assert(start as int == span_start(content@, open));
    let mut end: usize = cs.len();
    let mut j: usize = cs.len();
    let mut found_end = false;
    while j > 0 && !found_end
        invariant
            cs@ == content@,
            j <= cs.len(),
            forall|q: int| j <= q < cs.len() && !(found_end && q == j) ==> cs@[q] != close,
            found_end ==> j < cs.len() && end == j + 1 && cs@[j as int] == close,
            !found_end ==> end == cs.len(),
        decreases j + (if found_end { 0int } else { 1int }),
    {
        if cs[j - 1] == close {
            end = j;
            found_end = true;
            j = j - 1;
        } else {
            j = j - 1;
        }
    }
    assert(end as int == span_end(content@, close));
    if start > end {
        return None;
    }
    let mut out: Vec<char> = Vec::new();
    for k in start..end
        invariant
            cs@ == content@,
            start <= end <= cs.len(),
            out@ == cs@.subrange(start as int, k as int),
    {
        out.push(cs[k]);
        assert(cs@.subrange(start as int, k + 1) =~= cs@.subrange(start as int, k as int).push(cs@[k as int]));
    }
    Some(string_from_chars(&out))
}

/// The characters whose UTF-8 encoding is the first `n` bytes of that of `s`.
pub open spec fn utf8_head(s: Seq<char>, n: int) -> Seq<char> {
    decode_utf8(encode_utf8(s).take(n))
}

/// A text shown with at most `n` bytes: as it is when no longer, else cut at
/// byte `n` and marked with `...`.
pub open spec fn clipped_at(s: Seq<char>, n: int) -> Seq<char> {
    if encode_utf8(s).len() <= n {
        s
    } else {
        utf8_head(s, n) + "..."@
    }
}

/// The text can be cut at byte `n`: it is no longer, or `n` falls on a
/// character boundary (and its length in bytes is a `usize`).
pub open spec fn clippable_at(s: Seq<char>, n: int) -> bool {
    &&& encode_utf8(s).len() <= usize::MAX
    &&& encode_utf8(s).len() > n ==> is_char_boundary(encode_utf8(s), n)
}

/// The text shown with at most `limit` bytes.
pub fn clip_text(s: &str, limit: usize) -> (res: String)
    requires
        clippable_at(s@, limit as int),
    ensures
        res@ == clipped_at(s@, limit as int),
{
    if s.len() <= limit {
        return to_owned_string(s);
    }
    let (head, _tail) = s.split_at(limit);
    proof {
        encode_utf8_decode_utf8(head@);
        assert(encode_utf8(head@) =~= encode_utf8(s@).take(limit as int));
    }
    let mut out = to_owned_string(head);
    push_str(&mut out, "...");
    out
}

/// The text `{:?}` writes for an optional text: `None`, or `Some(..)` around
/// the text quoted and escaped as `Debug` escapes it.
pub uninterp spec fn debug_option_text(o: Option<Seq<char>>) -> Seq<char>;

/// `format!("{:?}", o)` for an optional text. The escaping of `Debug` rests
/// on Unicode tables, so the text is named, not stated.
#[verifier::external_body]
pub(crate) fn debug_option(o: &Option<String>) -> (res: String)
    ensures
        res@ == debug_option_text(match o { Some(s) => Some(s@), None => None }),
{
    format!("{:?}", o)
}

} // verus!
