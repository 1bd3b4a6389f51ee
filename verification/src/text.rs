//! Strings as the rest of the library needs them: comparison, trimming,
//! splitting, joining and number formatting, each stated over `Seq<char>`.

use vstd::prelude::*;
use vstd::utf8::encode_utf8;

verus! {

/// `String::push`: the given character is appended.
pub assume_specification[ String::push ](s: &mut String, c: char)
    ensures
        final(s)@ == old(s)@.push(c),
;

// ---- comparison -----------------------------------------------------------

/// Two byte slices hold the same bytes.
fn same_bytes(a: &[u8], b: &[u8]) -> (r: bool)
    ensures
        r == (a@ == b@),
{
    if a.len() != b.len() {
        return false;
    }
    let n: usize = a.len();
    for i in 0..n
        invariant
            n == a@.len(),
            n == b@.len(),
            a@.take(i as int) == b@.take(i as int),
    {
        if a[i] != b[i] {
            assert(a@[i as int] != b@[i as int]);
            return false;
        }
        assert(a@.take(i + 1) =~= a@.take(i as int).push(a@[i as int]));
        assert(b@.take(i + 1) =~= b@.take(i as int).push(b@[i as int]));
    }
    assert(a@.take(n as int) =~= a@);
    assert(b@.take(n as int) =~= b@);
    true
}

/// The two strings hold the same characters.
pub fn same(a: &str, b: &str) -> (r: bool)
    ensures
        r == (a@ == b@),
{
    proof {
        vstd::utf8::encode_utf8_decode_utf8(a@);
        vstd::utf8::encode_utf8_decode_utf8(b@);
    }
    same_bytes(a.as_bytes(), b.as_bytes())
}

/// `a` comes before `b` in lexicographic order of their bytes.
pub open spec fn bytes_before(a: Seq<u8>, b: Seq<u8>) -> bool
    decreases a.len(),
{
    if b.len() == 0 {
        false
    } else if a.len() == 0 {
        true
    } else if a[0] != b[0] {
        a[0] < b[0]
    } else {
        bytes_before(a.drop_first(), b.drop_first())
    }
}

/// `a` comes before `b` in the order of strings: by their UTF-8 bytes.
pub open spec fn before(a: Seq<char>, b: Seq<char>) -> bool {
    bytes_before(encode_utf8(a), encode_utf8(b))
}

fn bytes_less(a: &[u8], b: &[u8]) -> (r: bool)
    ensures
        r == bytes_before(a@, b@),
{
    let mut i: usize = 0;
    assert(a@.skip(0) =~= a@);
    assert(b@.skip(0) =~= b@);
    loop
        invariant
            i <= a@.len(),
            i <= b@.len(),
            bytes_before(a@, b@) == bytes_before(a@.skip(i as int), b@.skip(i as int)),
        decreases a@.len() - i,
    {
        if i == b.len() {
            return false;
        }
        if i == a.len() {
            return true;
        }
        if a[i] != b[i] {
            return a[i] < b[i];
        }
        assert(a@.skip(i as int).drop_first() =~= a@.skip(i + 1));
        assert(b@.skip(i as int).drop_first() =~= b@.skip(i + 1));
        i = i + 1;
    }
}

/// `a` comes before `b` in the order of strings.
pub fn is_before(a: &str, b: &str) -> (r: bool)
    ensures
        r == before(a@, b@),
{
    bytes_less(a.as_bytes(), b.as_bytes())
}

/// The byte order is irreflexive, transitive and total.
pub proof fn bytes_before_is_a_strict_order(a: Seq<u8>, b: Seq<u8>, c: Seq<u8>)
    ensures
        !bytes_before(a, a),
        bytes_before(a, b) && bytes_before(b, c) ==> bytes_before(a, c),
        bytes_before(a, b) || bytes_before(b, a) || a == b,
        !(bytes_before(a, b) && bytes_before(b, a)),
    decreases a.len() + b.len() + c.len(),
{
    if a.len() > 0 {
        if b.len() > 0 && c.len() > 0 {
            bytes_before_is_a_strict_order(a.drop_first(), b.drop_first(), c.drop_first());
        } else if b.len() > 0 {
            bytes_before_is_a_strict_order(a.drop_first(), b.drop_first(), c);
        } else if c.len() > 0 {
            bytes_before_is_a_strict_order(a.drop_first(), b, c.drop_first());
        } else {
            bytes_before_is_a_strict_order(a.drop_first(), b, c);
        }
        if b.len() > 0 && a[0] == b[0] && a.drop_first() == b.drop_first() {
            assert(a =~= seq![a[0]] + a.drop_first());
            assert(b =~= seq![b[0]] + b.drop_first());
        }
    } else if b.len() == 0 {
        assert(a =~= b);
    }
}

/// The order of strings is irreflexive, transitive and total.
pub proof fn before_is_a_strict_order(a: Seq<char>, b: Seq<char>, c: Seq<char>)
    ensures
        !before(a, a),
        before(a, b) && before(b, c) ==> before(a, c),
        before(a, b) || before(b, a) || a == b,
        !(before(a, b) && before(b, a)),
{
    bytes_before_is_a_strict_order(encode_utf8(a), encode_utf8(b), encode_utf8(c));
    vstd::utf8::encode_utf8_decode_utf8(a);
    vstd::utf8::encode_utf8_decode_utf8(b);
}

// ---- characters -------------------------------------------------------------

/// The characters of a string, in order.
pub fn chars_of(s: &str) -> (v: Vec<char>)
    ensures
        v@ == s@,
{
    let mut v: Vec<char> = Vec::new();
    for c in it: s.chars()
        invariant
            v@ == s@.take(it.index()),
            it.seq() == s@,
    {
        v.push(c);
    }
    v
}

/// Characters with Unicode's `White_Space` property.
pub open spec fn white_space(c: char) -> bool {
    let u = c as u32;
    ||| 0x9 <= u <= 0xd
    ||| u == 0x20
    ||| u == 0x85
    ||| u == 0xa0
    ||| u == 0x1680
    ||| 0x2000 <= u <= 0x200a
    ||| u == 0x2028
    ||| u == 0x2029
    ||| u == 0x202f
    ||| u == 0x205f
    ||| u == 0x3000
}

/// Whether a character is white space.
pub fn is_white_space(c: char) -> (r: bool)
    ensures
        r == white_space(c),
{
    let u: u32 = c as u32;
    (0x9 <= u && u <= 0xd) || u == 0x20 || u == 0x85 || u == 0xa0 || u == 0x1680 || (0x2000 <= u
        && u <= 0x200a) || u == 0x2028 || u == 0x2029 || u == 0x202f || u == 0x205f || u == 0x3000
}

pub open spec fn lower_letter(c: char) -> bool {
    'a' <= c <= 'z'
}

pub open spec fn upper_letter(c: char) -> bool {
    'A' <= c <= 'Z'
}

pub open spec fn digit(c: char) -> bool {
    '0' <= c <= '9'
}

/// A letter or a digit of ASCII.
pub open spec fn alphanumeric(c: char) -> bool {
    lower_letter(c) || upper_letter(c) || digit(c)
}

/// A hexadecimal digit, in either case.
pub open spec fn hex_digit(c: char) -> bool {
    digit(c) || 'a' <= c <= 'f' || 'A' <= c <= 'F'
}

pub fn is_lower_letter(c: char) -> (r: bool)
    ensures
        r == lower_letter(c),
{
    'a' <= c && c <= 'z'
}

pub fn is_digit(c: char) -> (r: bool)
    ensures
        r == digit(c),
{
    '0' <= c && c <= '9'
}

pub fn is_alphanumeric(c: char) -> (r: bool)
    ensures
        r == alphanumeric(c),
{
    ('a' <= c && c <= 'z') || ('A' <= c && c <= 'Z') || ('0' <= c && c <= '9')
}

pub fn is_hex_digit(c: char) -> (r: bool)
    ensures
        r == hex_digit(c),
{
    ('0' <= c && c <= '9') || ('a' <= c && c <= 'f') || ('A' <= c && c <= 'F')
}

/// Sets of characters that names of one kind or another are made of.
#[derive(Clone, Copy, PartialEq, Eq, Structural)]
pub enum Charset {
    /// `[A-Za-z0-9_-]`
    Id,
    /// `[a-z0-9_]`
    Tool,
    /// `[a-z0-9-]`
    Label,
    /// `[a-z0-9.-]`
    Model,
    /// `[A-Za-z0-9.:-]`
    Address,
}

/// The character is one of the set.
pub open spec fn in_charset(c: char, set: Charset) -> bool {
    match set {
        Charset::Id => alphanumeric(c) || c == '_' || c == '-',
        Charset::Tool => lower_letter(c) || digit(c) || c == '_',
        Charset::Label => lower_letter(c) || digit(c) || c == '-',
        Charset::Model => lower_letter(c) || digit(c) || c == '.' || c == '-',
        Charset::Address => alphanumeric(c) || c == '.' || c == ':' || c == '-',
    }
}

/// Every character is one of the set.
pub open spec fn made_of(s: Seq<char>, set: Charset) -> bool {
    forall|i: int| 0 <= i < s.len() ==> in_charset(#[trigger] s[i], set)
}

/// A name of at least one and at most `max` characters of the set.
pub open spec fn named_with(s: Seq<char>, set: Charset, max: nat) -> bool {
    0 < s.len() <= max && made_of(s, set)
}

/// Whether every character is one of the set.
pub fn is_made_of(s: &str, set: Charset) -> (r: bool)
    ensures
        r == made_of(s@, set),
{
    let v = chars_of(s);
    let n: usize = v.len();
    for i in 0..n
        invariant
            n == v@.len(),
            v@ == s@,
            forall|k: int| 0 <= k < i ==> in_charset(#[trigger] s@[k], set),
    {
        let c: char = v[i];
        let ok = match set {
            Charset::Id => is_alphanumeric(c) || c == '_' || c == '-',
            Charset::Tool => is_lower_letter(c) || is_digit(c) || c == '_',
            Charset::Label => is_lower_letter(c) || is_digit(c) || c == '-',
            Charset::Model => is_lower_letter(c) || is_digit(c) || c == '.' || c == '-',
            Charset::Address => is_alphanumeric(c) || c == '.' || c == ':' || c == '-',
        };
        if !ok {
            assert(!in_charset(s@[i as int], set));
            return false;
        }
    }
    true
}

/// Whether it is a name of at least one and at most `max` characters of the set.
pub fn is_named_with(s: &str, set: Charset, max: usize) -> (r: bool)
    ensures
        r == named_with(s@, set, max as nat),
{
    let n: usize = s.unicode_len();
    0 < n && n <= max && is_made_of(s, set)
}

// ---- trimming ---------------------------------------------------------------

/// `s` without its leading white space.
pub open spec fn trim_start(s: Seq<char>) -> Seq<char>
    decreases s.len(),
{
    if s.len() > 0 && white_space(s[0]) {
        trim_start(s.drop_first())
    } else {
        s
    }
}

/// `s` without its trailing white space.
pub open spec fn trim_end(s: Seq<char>) -> Seq<char>
    decreases s.len(),
{
    if s.len() > 0 && white_space(s.last()) {
        trim_end(s.drop_last())
    } else {
        s
    }
}

/// `s` without its leading and trailing white space.
pub open spec fn trimmed(s: Seq<char>) -> Seq<char> {
    trim_end(trim_start(s))
}

/// The string without its leading and trailing white space.
pub fn trim(s: &str) -> (r: &str)
    ensures
        r@ == trimmed(s@),
{
    let v = chars_of(s);
    let n: usize = v.len();
    let mut from: usize = 0;
    assert(s@.skip(0) =~= s@);
    while from < n && is_white_space(v[from])
        invariant
            from <= n,
            n == v@.len(),
            v@ == s@,
            trim_start(s@) == trim_start(s@.skip(from as int)),
        decreases n - from,
    {
        assert(s@.skip(from as int).drop_first() =~= s@.skip(from + 1));
        from = from + 1;
    }
    assert(trim_start(s@) == s@.skip(from as int));
    let mut to: usize = n;
    assert(s@.subrange(from as int, n as int) =~= s@.skip(from as int));
    while from < to && is_white_space(v[to - 1])
        invariant
            from <= to <= n,
            n == v@.len(),
            v@ == s@,
            trimmed(s@) == trim_end(s@.subrange(from as int, to as int)),
        decreases to,
    {
        assert(s@.subrange(from as int, to as int).drop_last() =~= s@.subrange(
            from as int,
            to - 1,
        ));
        to = to - 1;
    }
    s.substring_char(from, to)
}

/// The string holds nothing but white space.
pub fn is_blank(s: &str) -> (r: bool)
    ensures
        r == (trimmed(s@).len() == 0),
{
    trim(s).is_empty()
}

/// A trimmed string neither starts nor ends with white space.
pub proof fn trimmed_has_clean_ends(s: Seq<char>)
    ensures
        trimmed(s).len() > 0 ==> !white_space(trimmed(s)[0]) && !white_space(trimmed(s).last()),
        trimmed(trimmed(s)) == trimmed(s),
{
    trim_start_is_clean(s);
    trim_end_is_clean(trim_start(s));
    let t = trimmed(s);
    assert(trim_start(t) == t);
    assert(trim_end(t) == t);
}

/// A string with clean ends is trimmed.
pub proof fn clean_ends_are_trimmed(s: Seq<char>)
    requires
        s.len() > 0,
        !white_space(s[0]),
        !white_space(s.last()),
    ensures
        trimmed(s) == s,
{
}

proof fn trim_start_is_clean(s: Seq<char>)
    ensures
        trim_start(s).len() > 0 ==> !white_space(trim_start(s)[0]),
    decreases s.len(),
{
    if s.len() > 0 && white_space(s[0]) {
        trim_start_is_clean(s.drop_first());
    }
}

proof fn trim_end_is_clean(s: Seq<char>)
    ensures
        trim_end(s).len() > 0 ==> !white_space(trim_end(s).last()) && s.len() > 0 && trim_end(s)[0]
            == s[0],
    decreases s.len(),
{
    if s.len() > 0 && white_space(s.last()) {
        trim_end_is_clean(s.drop_last());
    }
}

// ---- prefixes, splitting and joining ------------------------------------------

/// `s` begins with `prefix`.
pub open spec fn begins_with(s: Seq<char>, prefix: Seq<char>) -> bool {
    prefix.len() <= s.len() && s.take(prefix.len() as int) == prefix
}

/// What follows `prefix`, where the string begins with it.
pub fn strip_prefix<'a>(s: &'a str, prefix: &str) -> (r: Option<&'a str>)
    ensures
        match r {
            Some(rest) => begins_with(s@, prefix@) && rest@ == s@.skip(prefix@.len() as int),
            None => !begins_with(s@, prefix@),
        },
{
    let n: usize = s.unicode_len();
    let p: usize = prefix.unicode_len();
    if p <= n && same(s.substring_char(0, p), prefix) {
        assert(s@.subrange(0, p as int) =~= s@.take(p as int));
        assert(s@.subrange(p as int, n as int) =~= s@.skip(p as int));
        Some(s.substring_char(p, n))
    } else {
        assert(p <= n ==> s@.subrange(0, p as int) =~= s@.take(p as int));
        None
    }
}

/// Whether the string begins with `prefix`.
pub fn starts_with(s: &str, prefix: &str) -> (r: bool)
    ensures
        r == begins_with(s@, prefix@),
{
    strip_prefix(s, prefix).is_some()
}

/// What stands before the first occurrence of `c`; all of it, where there is none.
pub open spec fn before_first(s: Seq<char>, c: char) -> Seq<char>
    decreases s.len(),
{
    if s.len() == 0 || s[0] == c {
        Seq::empty()
    } else {
        seq![s[0]] + before_first(s.drop_first(), c)
    }
}

/// What stands before and after the first occurrence of `c`.
pub fn split_once(s: &str, c: char) -> (r: Option<(&str, &str)>)
    ensures
        match r {
            Some((a, b)) => s@.contains(c) && a@ == before_first(s@, c) && b@ == s@.skip(
                a@.len() as int + 1,
            ),
            None => !s@.contains(c),
        },
{
    let v = chars_of(s);
    let n: usize = v.len();
    assert(s@.skip(0) =~= s@);
    assert(s@.take(0) + before_first(s@.skip(0), c) =~= before_first(s@, c));
    for i in 0..n
        invariant
            n == v@.len(),
            v@ == s@,
            before_first(s@, c) == s@.take(i as int) + before_first(s@.skip(i as int), c),
            forall|k: int| 0 <= k < i ==> #[trigger] s@[k] != c,
    {
        if v[i] == c {
            assert(s@.skip(i as int)[0] == c);
            assert(s@.subrange(0, i as int) =~= before_first(s@, c));
            assert(s@.subrange(i + 1, n as int) =~= s@.skip(i + 1));
            assert(s@[i as int] == c);
            return Some((s.substring_char(0, i), s.substring_char(i + 1, n)));
        }
        assert(s@.skip(i as int).drop_first() =~= s@.skip(i + 1));
        assert(s@.take(i as int) + (seq![s@[i as int]] + before_first(s@.skip(i + 1), c))
            =~= s@.take(i + 1) + before_first(s@.skip(i + 1), c));
    }
    None
}

/// The pieces of `s` between occurrences of `sep`; there is always at least
/// one piece.
pub open spec fn pieces(s: Seq<char>, sep: char) -> Seq<Seq<char>>
    decreases s.len(),
{
    if s.len() == 0 {
        seq![Seq::empty()]
    } else {
        let before = pieces(s.drop_last(), sep);
        if s.last() == sep {
            before.push(Seq::empty())
        } else {
            before.drop_last().push(before.last().push(s.last()))
        }
    }
}

pub proof fn pieces_is_never_empty(s: Seq<char>, sep: char)
    ensures
        pieces(s, sep).len() > 0,
    decreases s.len(),
{
    if s.len() > 0 {
        pieces_is_never_empty(s.drop_last(), sep);
    }
}

/// The pieces of the string between occurrences of `sep`.
pub fn split(s: &str, sep: char) -> (r: Vec<String>)
    ensures
        r.deep_view() == pieces(s@, sep),
        r@.len() > 0,
{
    let v = chars_of(s);
    let n: usize = v.len();
    let mut done: Vec<String> = Vec::new();
    let mut current: String = String::new();
    assert(v@.take(0) =~= Seq::empty());
    assert(done.deep_view().push(current@) =~= pieces(v@.take(0), sep));
    for i in 0..n
        invariant
            n == v@.len(),
            v@ == s@,
            done.deep_view().push(current@) == pieces(v@.take(i as int), sep),
    {
        let c: char = v[i];
        let ghost earlier = done.deep_view();
        let ghost piece = current@;
        assert(v@.take(i + 1).drop_last() =~= v@.take(i as int));
        assert(v@.take(i + 1).last() == c);
        let ghost parts = pieces(v@.take(i as int), sep);
        assert(parts.last() == piece);
        assert(parts.drop_last() =~= earlier);
        if c == sep {
            done.push(current);
            current = String::new();
            assert(done.deep_view() =~= earlier.push(piece));
        } else {
            current.push(c);
        }
        assert(done.deep_view().push(current@) =~= pieces(v@.take(i + 1), sep));
    }
    let ghost earlier = done.deep_view();
    done.push(current);
    assert(done.deep_view() =~= earlier.push(current@));
    assert(v@.take(n as int) =~= v@);
    done
}

/// The pieces one after another, `sep` between each two.
pub open spec fn joined(parts: Seq<Seq<char>>, sep: Seq<char>) -> Seq<char>
    decreases parts.len(),
{
    if parts.len() == 0 {
        Seq::empty()
    } else if parts.len() == 1 {
        parts[0]
    } else {
        joined(parts.drop_last(), sep) + sep + parts.last()
    }
}

/// Pieces that do not hold the separator come back from what they were joined to.
pub proof fn joined_pieces_come_back(parts: Seq<Seq<char>>, sep: char)
    requires
        parts.len() > 0,
        forall|i: int| 0 <= i < parts.len() ==> !(#[trigger] parts[i]).contains(sep),
    ensures
        pieces(joined(parts, seq![sep]), sep) == parts,
    decreases parts.len(),
{
    if parts.len() == 1 {
        one_piece(parts[0], sep);
        assert(parts =~= seq![parts[0]]);
    } else {
        let earlier = parts.drop_last();
        assert forall|i: int| 0 <= i < earlier.len() implies !(#[trigger] earlier[i]).contains(
            sep,
        ) by {
            assert(earlier[i] == parts[i]);
        }
        joined_pieces_come_back(earlier, sep);
        another_piece(joined(earlier, seq![sep]), parts.last(), sep);
        assert(parts =~= earlier.push(parts.last()));
    }
}

proof fn one_piece(s: Seq<char>, sep: char)
    requires
        !s.contains(sep),
    ensures
        pieces(s, sep) == seq![s],
    decreases s.len(),
{
    if s.len() == 0 {
        assert(s =~= Seq::empty());
    } else {
        assert(s[s.len() - 1] != sep);
        let earlier = s.drop_last();
        assert(!earlier.contains(sep)) by {
            if earlier.contains(sep) {
                let k = choose|k: int| 0 <= k < earlier.len() && earlier[k] == sep;
                assert(s[k] == sep);
            }
        }
        one_piece(earlier, sep);
        assert(earlier.push(s.last()) =~= s);
        assert(pieces(s, sep) =~= seq![s]);
    }
}

proof fn another_piece(a: Seq<char>, b: Seq<char>, sep: char)
    requires
        !b.contains(sep),
    ensures
        pieces(a + seq![sep] + b, sep) == pieces(a, sep).push(b),
    decreases b.len(),
{
    let s = a + seq![sep] + b;
    if b.len() == 0 {
        assert(b =~= Seq::empty());
        assert(s.drop_last() =~= a);
        assert(s.last() == sep);
    } else {
        assert(b[b.len() - 1] != sep);
        let earlier = b.drop_last();
        assert(!earlier.contains(sep)) by {
            if earlier.contains(sep) {
                let k = choose|k: int| 0 <= k < earlier.len() && earlier[k] == sep;
                assert(b[k] == sep);
            }
        }
        another_piece(a, earlier, sep);
        assert(s.drop_last() =~= a + seq![sep] + earlier);
        assert(s.last() == b.last());
        assert(earlier.push(b.last()) =~= b);
        let before = pieces(s.drop_last(), sep);
        assert(before.drop_last() =~= pieces(a, sep));
        assert(before.drop_last().push(before.last().push(s.last())) =~= pieces(a, sep).push(b));
    }
}

/// The strings one after another, `sep` between each two.
pub fn join(parts: &Vec<String>, sep: &str) -> (r: String)
    ensures
        r@ == joined(parts.deep_view(), sep@),
{
    let mut out = String::new();
    let n: usize = parts.len();
    for i in 0..n
        invariant
            n == parts@.len(),
            out@ == joined(parts.deep_view().take(i as int), sep@),
    {
        let ghost all = parts.deep_view();
        assert(all.take(i + 1).drop_last() =~= all.take(i as int));
        assert(all.take(i + 1).last() == parts@[i as int]@);
        if i > 0 {
            out.append(sep);
        }
        out.append(parts[i].as_str());
        assert(out@ =~= joined(all.take(i + 1), sep@));
    }
    assert(parts.deep_view().take(n as int) =~= parts.deep_view());
    out
}

// ---- concatenation ------------------------------------------------------------

pub fn cat2(a: &str, b: &str) -> (r: String)
    ensures
        r@ == a@ + b@,
{
    let mut s = a.to_owned();
    s.append(b);
    s
}

pub fn cat3(a: &str, b: &str, c: &str) -> (r: String)
    ensures
        r@ == a@ + b@ + c@,
{
    let mut s = a.to_owned();
    s.append(b);
    s.append(c);
    s
}

pub fn cat4(a: &str, b: &str, c: &str, d: &str) -> (r: String)
    ensures
        r@ == a@ + b@ + c@ + d@,
{
    let mut s = a.to_owned();
    s.append(b);
    s.append(c);
    s.append(d);
    s
}

pub fn cat5(a: &str, b: &str, c: &str, d: &str, e: &str) -> (r: String)
    ensures
        r@ == a@ + b@ + c@ + d@ + e@,
{
    let mut s = a.to_owned();
    s.append(b);
    s.append(c);
    s.append(d);
    s.append(e);
    s
}

// ---- numbers ------------------------------------------------------------------

/// The character of one digit, in base sixteen with small letters.
pub open spec fn digit_char(d: int) -> char {
    if d < 10 {
        (48 + d) as char
    } else {
        (87 + d) as char
    }
}

fn char_of_digit(d: u8) -> (c: char)
    requires
        d < 16,
    ensures
        c == digit_char(d as int),
{
    if d < 10 {
        (48 + d) as char
    } else {
        (87 + d) as char
    }
}

/// `n` in decimal.
pub open spec fn decimal(n: nat) -> Seq<char>
    decreases n,
{
    if n < 10 {
        seq![digit_char(n as int)]
    } else {
        decimal(n / 10).push(digit_char((n % 10) as int))
    }
}

fn push_decimal(s: &mut String, n: u128)
    ensures
        final(s)@ == old(s)@ + decimal(n as nat),
    decreases n,
{
    if n >= 10 {
        push_decimal(s, n / 10);
    }
    s.push(char_of_digit((n % 10) as u8));
    assert(s@ =~= old(s)@ + decimal(n as nat));
}

/// The number in decimal.
pub fn number(n: u128) -> (r: String)
    ensures
        r@ == decimal(n as nat),
{
    let mut s = String::new();
    push_decimal(&mut s, n);
    assert(s@ =~= decimal(n as nat));
    s
}

/// The number in decimal, with a minus sign where it is negative.
pub open spec fn signed_decimal(n: int) -> Seq<char> {
    if n < 0 {
        "-"@ + decimal((-n) as nat)
    } else {
        decimal(n as nat)
    }
}

/// The number in decimal, with a minus sign where it is negative.
pub fn signed_number(n: i64) -> (r: String)
    ensures
        r@ == signed_decimal(n as int),
{
    if n < 0 {
        let magnitude: u64 = if n == i64::MIN {
            0x8000_0000_0000_0000
        } else {
            (-n) as u64
        };
        cat2("-", number(magnitude as u128).as_str())
    } else {
        number(n as u128)
    }
}

/// `n` in decimal, with zeros in front up to `width` digits.
pub open spec fn zero_padded(n: nat, width: nat) -> Seq<char>
    decreases width,
{
    if width == 0 {
        if n == 0 {
            Seq::empty()
        } else {
            decimal(n)
        }
    } else {
        zero_padded(n / 10, (width - 1) as nat).push(digit_char((n % 10) as int))
    }
}

/// The number in decimal, with zeros in front up to `width` digits.
pub fn zero_padded_number(n: u64, width: u64) -> (r: String)
    ensures
        r@ == zero_padded(n as nat, width as nat),
    decreases width,
{
    if width == 0 {
        if n == 0 {
            String::new()
        } else {
            number(n as u128)
        }
    } else {
        let mut s = zero_padded_number(n / 10, width - 1);
        s.push(char_of_digit((n % 10) as u8));
        s
    }
}

/// A number below ten to the `width`, padded to `width`, has `width` digits.
pub proof fn zero_padded_is_digits(n: nat, width: nat)
    requires
        n < vstd::arithmetic::power::pow(10, width),
    ensures
        zero_padded(n, width).len() == width,
        forall|i: int| 0 <= i < width ==> digit(#[trigger] zero_padded(n, width)[i]),
    decreases width,
{
    reveal(vstd::arithmetic::power::pow);
    if width > 0 {
        assert(n / 10 < vstd::arithmetic::power::pow(10, (width - 1) as nat)) by (nonlinear_arith)
            requires
                n < 10 * vstd::arithmetic::power::pow(10, (width - 1) as nat),
        ;
        zero_padded_is_digits(n / 10, (width - 1) as nat);
    }
}

/// The bytes as two small hexadecimal digits each.
pub open spec fn hex_of(bytes: Seq<u8>) -> Seq<char>
    decreases bytes.len(),
{
    if bytes.len() == 0 {
        Seq::empty()
    } else {
        hex_of(bytes.drop_last()).push(digit_char(bytes.last() as int / 16)).push(
            digit_char(bytes.last() as int % 16),
        )
    }
}

/// The bytes as two small hexadecimal digits each.
pub fn hex(bytes: &[u8]) -> (r: String)
    ensures
        r@ == hex_of(bytes@),
{
    let mut s = String::new();
    let n: usize = bytes.len();
    for i in 0..n
        invariant
            n == bytes@.len(),
            s@ == hex_of(bytes@.take(i as int)),
    {
        let b: u8 = bytes[i];
        s.push(char_of_digit(b / 16));
        s.push(char_of_digit(b % 16));
        assert(bytes@.take(i + 1).drop_last() =~= bytes@.take(i as int));
    }
    assert(bytes@.take(n as int) =~= bytes@);
    s
}

/// Every character of `s` is a hexadecimal digit.
pub open spec fn all_hex(s: Seq<char>) -> bool {
    forall|i: int| 0 <= i < s.len() ==> hex_digit(#[trigger] s[i])
}

/// Bytes in hexadecimal take two digits each, and nothing but digits.
pub proof fn hex_of_is_hex(bytes: Seq<u8>)
    ensures
        hex_of(bytes).len() == 2 * bytes.len(),
        all_hex(hex_of(bytes)),
    decreases bytes.len(),
{
    if bytes.len() > 0 {
        hex_of_is_hex(bytes.drop_last());
    }
}

/// Two byte strings with the same hexadecimal form are the same.
pub proof fn hex_of_is_injective(a: Seq<u8>, b: Seq<u8>)
    requires
        hex_of(a) == hex_of(b),
    ensures
        a == b,
    decreases a.len(),
{
    hex_of_is_hex(a);
    hex_of_is_hex(b);
    if a.len() > 0 {
        let x = hex_of(a);
        let y = hex_of(b);
        assert(x.drop_last().drop_last() =~= hex_of(a.drop_last()));
        assert(y.drop_last().drop_last() =~= hex_of(b.drop_last()));
        hex_of_is_injective(a.drop_last(), b.drop_last());
        assert(x[x.len() - 1] == digit_char(a.last() as int % 16));
        assert(x[x.len() - 2] == digit_char(a.last() as int / 16));
        assert(y[y.len() - 1] == digit_char(b.last() as int % 16));
        assert(y[y.len() - 2] == digit_char(b.last() as int / 16));
        assert(a.last() == b.last());
        assert(a =~= a.drop_last().push(a.last()));
        assert(b =~= b.drop_last().push(b.last()));
    } else {
        assert(a =~= b);
    }
}

/// Every character of `s` is a decimal digit.
pub open spec fn all_digits(s: Seq<char>) -> bool {
    forall|i: int| 0 <= i < s.len() ==> digit(#[trigger] s[i])
}

/// What a string of decimal digits stands for.
pub open spec fn digits_value(s: Seq<char>) -> nat
    decreases s.len(),
{
    if s.len() == 0 {
        0
    } else {
        (digits_value(s.drop_last()) * 10 + (s.last() as u32 - 48)) as nat
    }
}

/// The number that `s` writes in decimal, an optional plus sign in front, where
/// it is at most `max`.
pub open spec fn written_number(s: Seq<char>, max: nat) -> Option<nat> {
    let digits = if s.len() > 0 && s[0] == '+' {
        s.skip(1)
    } else {
        s
    };
    if digits.len() > 0 && all_digits(digits) && digits_value(digits) <= max {
        Some(digits_value(digits))
    } else {
        None
    }
}

proof fn digits_value_grows(s: Seq<char>, k: int)
    requires
        all_digits(s),
        0 <= k <= s.len(),
    ensures
        digits_value(s.take(k)) <= digits_value(s),
    decreases s.len() - k,
{
    if k < s.len() {
        let longer = s.take(k + 1);
        assert(longer.drop_last() =~= s.take(k));
        assert(digit(s[k]));
        digits_value_grows(s, k + 1);
    } else {
        assert(s.take(k) =~= s);
    }
}

/// Reads a number in decimal, an optional plus sign in front; `None` for
/// anything else and for a number above `max`.
pub fn parse_number(s: &str, max: u32) -> (r: Option<u32>)
    ensures
        match r {
            Some(n) => written_number(s@, max as nat) == Some(n as nat),
            None => written_number(s@, max as nat) is None,
        },
{
    let v = chars_of(s);
    let n: usize = v.len();
    let from: usize = if n > 0 && v[0] == '+' {
        1
    } else {
        0
    };
    if from == n {
        return None;
    }
    let ghost digits = v@.skip(from as int);
    assert(from == 0 ==> digits =~= s@);
    let mut value: u64 = 0;
    for i in from..n
        invariant
            n == v@.len(),
            from <= n,
            digits == v@.skip(from as int),
            digits.len() > 0,
            all_digits(digits.take(i - from)),
            value == digits_value(digits.take(i - from)),
            value <= max,
            written_number(s@, max as nat) == (if all_digits(digits) && digits_value(digits) <= max {
                Some(digits_value(digits))
            } else {
                None
            }),
    {
        let c: char = v[i];
        assert(digits[i - from] == c);
        if !is_digit(c) {
            return None;
        }
        value = value * 10 + (c as u32 - 48) as u64;
        proof {
            let k = i + 1 - from;
            assert(digits.take(k).drop_last() =~= digits.take(i - from));
            assert(digits.take(k) =~= digits.take(i - from).push(c));
            if all_digits(digits) {
                digits_value_grows(digits, k);
            }
        }
        if value > max as u64 {
            return None;
        }
    }
    assert(digits.take(n - from) =~= digits);
    Some(value as u32)
}

// ---- letter case and width ------------------------------------------------------

/// The small letter of an ASCII capital; any other character as it is.
pub open spec fn lowered(c: char) -> char {
    if upper_letter(c) {
        (c as u32 + 32) as char
    } else {
        c
    }
}

/// The string with the small letter for each ASCII capital.
pub fn lowercase(s: &str) -> (r: String)
    ensures
        r@ == s@.map_values(|c: char| lowered(c)),
{
    let mut out = String::new();
    let v = chars_of(s);
    let n: usize = v.len();
    for i in 0..n
        invariant
            n == v@.len(),
            v@ == s@,
            out@ == s@.take(i as int).map_values(|c: char| lowered(c)),
    {
        let c: char = v[i];
        if 'A' <= c && c <= 'Z' {
            out.push((c as u8 + 32) as char);
        } else {
            out.push(c);
        }
        assert(out@ =~= s@.take(i + 1).map_values(|c: char| lowered(c)));
    }
    assert(s@.take(n as int) =~= s@);
    out
}

/// `s` with spaces behind it up to `width` characters.
pub open spec fn padded(s: Seq<char>, width: nat) -> Seq<char>
    decreases width - s.len(),
{
    if s.len() < width {
        padded(s.push(' '), width)
    } else {
        s
    }
}

/// The string with spaces behind it up to `width` characters.
pub fn pad(s: &str, width: usize) -> (r: String)
    ensures
        r@ == padded(s@, width as nat),
{
    let mut out = s.to_owned();
    let mut len: usize = s.unicode_len();
    while len < width
        invariant
            len == out@.len(),
            padded(s@, width as nat) == padded(out@, width as nat),
        decreases width - len,
    {
        out.push(' ');
        len = len + 1;
    }
    out
}

/// `s` without any `c` at its end.
pub open spec fn without_trailing(s: Seq<char>, c: char) -> Seq<char>
    decreases s.len(),
{
    if s.len() > 0 && s.last() == c {
        without_trailing(s.drop_last(), c)
    } else {
        s
    }
}

/// The string without any `c` at its end.
pub fn trim_end_of(s: &str, c: char) -> (r: &str)
    ensures
        r@ == without_trailing(s@, c),
{
    let v = chars_of(s);
    let mut to: usize = v.len();
    assert(s@.subrange(0, to as int) =~= s@);
    while to > 0 && v[to - 1] == c
        invariant
            to <= v@.len(),
            v@ == s@,
            without_trailing(s@, c) == without_trailing(s@.subrange(0, to as int), c),
        decreases to,
    {
        assert(s@.subrange(0, to as int).drop_last() =~= s@.subrange(0, to - 1));
        to = to - 1;
    }
    s.substring_char(0, to)
}

/// `s` without any `c` at its start.
pub open spec fn without_leading(s: Seq<char>, c: char) -> Seq<char>
    decreases s.len(),
{
    if s.len() > 0 && s[0] == c {
        without_leading(s.drop_first(), c)
    } else {
        s
    }
}

/// The string without any `c` at its start.
pub fn trim_start_of(s: &str, c: char) -> (r: &str)
    ensures
        r@ == without_leading(s@, c),
{
    let v = chars_of(s);
    let n: usize = v.len();
    let mut from: usize = 0;
    assert(s@.subrange(0, n as int) =~= s@);
    while from < n && v[from] == c
        invariant
            from <= n,
            n == v@.len(),
            v@ == s@,
            without_leading(s@, c) == without_leading(s@.subrange(from as int, n as int), c),
        decreases n - from,
    {
        assert(s@.subrange(from as int, n as int).drop_first() =~= s@.subrange(
            from + 1,
            n as int,
        ));
        from = from + 1;
    }
    s.substring_char(from, n)
}

// ---- laws -------------------------------------------------------------------------

/// A number in decimal reads back as that number, where it is not too great.
pub proof fn a_decimal_reads_back(n: nat, max: nat)
    ensures
        written_number(decimal(n), max) == (if n <= max {
            Some(n)
        } else {
            None
        }),
        digits_value(decimal(n)) == n,
        all_digits(decimal(n)),
        decimal(n).len() > 0,
{
    decimal_is_digits(n);
    assert(digit(decimal(n)[0]));
}

proof fn decimal_is_digits(n: nat)
    ensures
        decimal(n).len() > 0,
        all_digits(decimal(n)),
        digits_value(decimal(n)) == n,
    decreases n,
{
    if n < 10 {
        let s = decimal(n);
        assert(s.drop_last() =~= Seq::empty());
        assert(digits_value(s.drop_last()) == 0);
        assert(s.last() as u32 - 48 == n);
    } else {
        decimal_is_digits(n / 10);
        let s = decimal(n);
        assert(s.drop_last() =~= decimal(n / 10));
        assert(s.last() as u32 - 48 == n % 10);
        assert forall|i: int| 0 <= i < s.len() implies digit(#[trigger] s[i]) by {
            if i < s.len() - 1 {
                assert(digit(decimal(n / 10)[i]));
            }
        }
    }
}

/// A text that is padded stands at the front, and nothing but spaces follow it.
pub proof fn padding_is_spaces_at_the_end(s: Seq<char>, width: nat, i: int)
    ensures
        padded(s, width).len() == (if s.len() < width {
            width
        } else {
            s.len()
        }),
        0 <= i < s.len() ==> padded(s, width)[i] == s[i],
        s.len() <= i < padded(s, width).len() ==> padded(s, width)[i] == ' ',
    decreases width - s.len(),
{
    if s.len() < width {
        padding_is_spaces_at_the_end(s.push(' '), width, i);
    }
}

/// What is taken off the end of a text is that character and no other, and none of
/// it is left there.
pub proof fn only_the_trailing_ones_go(s: Seq<char>, c: char, i: int)
    ensures
        without_trailing(s, c).len() <= s.len(),
        without_trailing(s, c) == s.take(without_trailing(s, c).len() as int),
        without_trailing(s, c).len() > 0 ==> without_trailing(s, c).last() != c,
        without_trailing(s, c).len() <= i < s.len() ==> s[i] == c,
    decreases s.len(),
{
    if s.len() > 0 && s.last() == c {
        only_the_trailing_ones_go(s.drop_last(), c, i);
        let kept = without_trailing(s, c);
        assert(s.drop_last().take(kept.len() as int) =~= s.take(kept.len() as int));
    } else {
        assert(s.take(s.len() as int) =~= s);
    }
}

/// What stands before the first `c` has none, and a `c` or nothing follows it.
pub proof fn before_the_first_there_is_none(s: Seq<char>, c: char)
    ensures
        ({
            let head = before_first(s, c);
            &&& head.len() <= s.len()
            &&& head == s.take(head.len() as int)
            &&& !head.contains(c)
            &&& head.len() < s.len() ==> s[head.len() as int] == c
        }),
    decreases s.len(),
{
    let head = before_first(s, c);
    if s.len() > 0 && s[0] != c {
        let rest = s.drop_first();
        before_the_first_there_is_none(rest, c);
        let tail = before_first(rest, c);
        assert(head =~= s.take(head.len() as int)) by {
            assert forall|i: int| 0 <= i < head.len() implies head[i] == s[i] by {
                if i > 0 {
                    assert(tail[i - 1] == rest[i - 1]);
                }
            }
        }
        if head.contains(c) {
            let k = choose|k: int| 0 <= k < head.len() && head[k] == c;
            assert(tail[k - 1] == c);
            assert(tail.contains(c));
        }
    } else {
        assert(head =~= s.take(0));
    }
}

/// Trimming takes white space alone, at the two ends alone, and all of it: what is
/// left stands in the text as it stood.
pub proof fn trimming_takes_the_white_space_at_the_ends(s: Seq<char>) -> (ends: (int, int))
    ensures
        0 <= ends.0 <= ends.1 <= s.len(),
        trimmed(s) == s.subrange(ends.0, ends.1),
        forall|i: int| 0 <= i < ends.0 || ends.1 <= i < s.len() ==> white_space(#[trigger] s[i]),
        ends.0 < ends.1 ==> !white_space(s[ends.0]) && !white_space(s[ends.1 - 1]),
{
    let from = leading_white_space(s);
    let rest = s.skip(from);
    let to = trailing_white_space(rest);
    assert(s.subrange(from, from + to) =~= rest.take(to));
    assert forall|i: int| from + to <= i < s.len() implies white_space(#[trigger] s[i]) by {
        assert(rest[i - from] == s[i]);
    }
    trimmed_has_clean_ends(s);
    (from, from + to)
}

proof fn leading_white_space(s: Seq<char>) -> (n: int)
    ensures
        0 <= n <= s.len(),
        trim_start(s) == s.skip(n),
        forall|i: int| 0 <= i < n ==> white_space(#[trigger] s[i]),
    decreases s.len(),
{
    if s.len() > 0 && white_space(s[0]) {
        let n = leading_white_space(s.drop_first());
        assert(s.drop_first().skip(n) =~= s.skip(n + 1));
        assert forall|i: int| 0 <= i < n + 1 implies white_space(#[trigger] s[i]) by {
            if i > 0 {
                assert(s.drop_first()[i - 1] == s[i]);
            }
        }
        n + 1
    } else {
        assert(s.skip(0) =~= s);
        0
    }
}

proof fn trailing_white_space(s: Seq<char>) -> (n: int)
    ensures
        0 <= n <= s.len(),
        trim_end(s) == s.take(n),
        forall|i: int| n <= i < s.len() ==> white_space(#[trigger] s[i]),
    decreases s.len(),
{
    if s.len() > 0 && white_space(s.last()) {
        let n = trailing_white_space(s.drop_last());
        assert(s.drop_last().take(n) =~= s.take(n));
        assert forall|i: int| n <= i < s.len() implies white_space(#[trigger] s[i]) by {
            if i < s.len() - 1 {
                assert(s.drop_last()[i] == s[i]);
            }
        }
        n
    } else {
        assert(s.take(s.len() as int) =~= s);
        s.len() as int
    }
}

/// The ASCII characters that are white space: the tab, the four that end a line or a
/// page, and the space.
pub proof fn ascii_white_space(c: char)
    requires
        c as u32 <= 127,
    ensures
        white_space(c) <==> c == '\t' || c == '\n' || c as u32 == 11 || c as u32 == 12 || c == '\r'
            || c == ' ',
{
}

/// The characters of each set: nothing but ASCII, and of its signs each set has its
/// own.
pub proof fn each_set_has_its_characters(c: char)
    ensures
        in_charset(c, Charset::Id) <==> 'a' <= c <= 'z' || 'A' <= c <= 'Z' || '0' <= c <= '9' || c
            == '_' || c == '-',
        in_charset(c, Charset::Tool) <==> 'a' <= c <= 'z' || '0' <= c <= '9' || c == '_',
        in_charset(c, Charset::Label) <==> 'a' <= c <= 'z' || '0' <= c <= '9' || c == '-',
        in_charset(c, Charset::Model) <==> 'a' <= c <= 'z' || '0' <= c <= '9' || c == '.' || c
            == '-',
        in_charset(c, Charset::Address) <==> 'a' <= c <= 'z' || 'A' <= c <= 'Z' || '0' <= c <= '9'
            || c == '.' || c == ':' || c == '-',
        hex_digit(c) <==> '0' <= c <= '9' || 'a' <= c <= 'f' || 'A' <= c <= 'F',
{
}

/// What a small hexadecimal digit stands for.
pub open spec fn hex_value(c: char) -> int {
    if '0' <= c <= '9' {
        c as u32 - '0' as u32
    } else {
        c as u32 - 'a' as u32 + 10
    }
}

/// Bytes in hexadecimal read back: each byte stands in its place, the greater digit
/// first, in small letters.
pub proof fn hexadecimal_reads_back(bytes: Seq<u8>, i: int)
    requires
        0 <= i < bytes.len(),
    ensures
        hex_of(bytes).len() == 2 * bytes.len(),
        hex_value(hex_of(bytes)[2 * i]) * 16 + hex_value(hex_of(bytes)[2 * i + 1]) == bytes[i],
        0 <= hex_value(hex_of(bytes)[2 * i]) < 16,
        0 <= hex_value(hex_of(bytes)[2 * i + 1]) < 16,
        !upper_letter(hex_of(bytes)[2 * i]),
        !upper_letter(hex_of(bytes)[2 * i + 1]),
    decreases bytes.len(),
{
    hex_of_is_hex(bytes);
    hex_of_is_hex(bytes.drop_last());
    if i < bytes.len() - 1 {
        hexadecimal_reads_back(bytes.drop_last(), i);
        assert(hex_of(bytes)[2 * i] == hex_of(bytes.drop_last())[2 * i]);
        assert(hex_of(bytes)[2 * i + 1] == hex_of(bytes.drop_last())[2 * i + 1]);
    } else {
        let b = bytes.last() as int;
        assert(hex_of(bytes)[2 * i] == digit_char(b / 16));
        assert(hex_of(bytes)[2 * i + 1] == digit_char(b % 16));
    }
}

/// A number with zeros in front reads back as that number.
pub proof fn zeros_in_front_add_nothing(n: nat, width: nat)
    requires
        n < vstd::arithmetic::power::pow(10, width),
    ensures
        digits_value(zero_padded(n, width)) == n,
    decreases width,
{
    reveal(vstd::arithmetic::power::pow);
    if width > 0 {
        assert(n / 10 < vstd::arithmetic::power::pow(10, (width - 1) as nat)) by (nonlinear_arith)
            requires
                n < 10 * vstd::arithmetic::power::pow(10, (width - 1) as nat),
        ;
        zeros_in_front_add_nothing(n / 10, (width - 1) as nat);
        let s = zero_padded(n, width);
        assert(s.drop_last() =~= zero_padded(n / 10, (width - 1) as nat));
        assert(s.last() as u32 - 48 == n % 10);
    }
}

/// A number is written with a sign where it is below zero, and then as the number it
/// lies below zero.
pub proof fn a_sign_stands_in_front(n: int)
    ensures
        n >= 0 ==> digits_value(signed_decimal(n)) == n && signed_decimal(n)[0] != '-',
        n < 0 ==> signed_decimal(n)[0] == '-' && digits_value(signed_decimal(n).skip(1)) == -n,
{
    reveal_strlit("-");
    if n < 0 {
        decimal_is_digits((-n) as nat);
        assert(signed_decimal(n).skip(1) =~= decimal((-n) as nat));
    } else {
        decimal_is_digits(n as nat);
        assert(digit(decimal(n as nat)[0]));
    }
}

/// A capital has its small letter, thirty-two places on; every other character stays.
pub proof fn capitals_alone_are_lowered(c: char)
    ensures
        'A' <= c <= 'Z' ==> 'a' <= lowered(c) <= 'z' && lowered(c) as u32 - 'a' as u32 == c as u32
            - 'A' as u32,
        !('A' <= c <= 'Z') ==> lowered(c) == c,
        lowered(lowered(c)) == lowered(c),
{
}

/// The first piece is what stands before the first separator, or the whole text where
/// there is none.
pub proof fn the_first_piece_ends_at_the_separator(first: Seq<char>, tail: Seq<char>, sep: char)
    requires
        !first.contains(sep),
        tail.len() > 0 ==> tail[0] == sep,
    ensures
        pieces(first + tail, sep)[0] == first,
        pieces(first + tail, sep).len() == 1 <==> tail.len() == 0,
    decreases first.len() + tail.len(),
{
    let s = first + tail;
    if tail.len() > 0 {
        assert(s.drop_last() =~= first + tail.drop_last());
        the_first_piece_ends_at_the_separator(first, tail.drop_last(), sep);
        pieces_is_never_empty(s.drop_last(), sep);
        if tail.len() == 1 {
            assert(s.last() == sep);
        }
    } else if first.len() > 0 {
        assert(s =~= first);
        assert(s.drop_last() =~= first.drop_last() + Seq::<char>::empty());
        assert(first[first.len() - 1] != sep);
        assert(!first.drop_last().contains(sep)) by {
            if first.drop_last().contains(sep) {
                let k = first.drop_last().index_of(sep);
                assert(first[k] == sep);
            }
        }
        the_first_piece_ends_at_the_separator(first.drop_last(), Seq::empty(), sep);
        assert(pieces(s, sep)[0] =~= first);
    } else {
        assert(s =~= Seq::empty());
    }
}

/// Of the characters at the start the equal ones go, all of them and no others.
pub proof fn only_the_leading_ones_go(s: Seq<char>, c: char) -> (n: int)
    ensures
        0 <= n <= s.len(),
        without_leading(s, c) == s.skip(n),
        forall|i: int| 0 <= i < n ==> #[trigger] s[i] == c,
        n < s.len() ==> s[n] != c,
    decreases s.len(),
{
    if s.len() > 0 && s[0] == c {
        let n = only_the_leading_ones_go(s.drop_first(), c);
        assert(s.drop_first().skip(n) =~= s.skip(n + 1));
        assert forall|i: int| 0 <= i < n + 1 implies #[trigger] s[i] == c by {
            if i > 0 {
                assert(s.drop_first()[i - 1] == s[i]);
            }
        }
        n + 1
    } else {
        assert(s.skip(0) =~= s);
        0
    }
}

/// What is joined has the parts in their order, with the separator between each two
/// and nowhere else.
pub proof fn parts_are_joined_in_order(parts: Seq<Seq<char>>, part: Seq<char>, sep: Seq<char>)
    ensures
        joined(Seq::empty(), sep).len() == 0,
        joined(seq![part], sep) == part,
        parts.len() > 0 ==> joined(parts.push(part), sep) == joined(parts, sep) + sep + part,
{
    assert(parts.push(part).drop_last() =~= parts);
}

/// A text begins with what it begins with, and with nothing longer than itself.
pub proof fn a_text_begins_with_its_start(start: Seq<char>, rest: Seq<char>, s: Seq<char>)
    ensures
        begins_with(start + rest, start),
        begins_with(s, start) ==> s.len() >= start.len() && forall|i: int|
            0 <= i < start.len() ==> s[i] == start[i],
{
    assert((start + rest).take(start.len() as int) =~= start);
    if begins_with(s, start) {
        assert forall|i: int| 0 <= i < start.len() implies s[i] == start[i] by {
            assert(s.take(start.len() as int)[i] == start[i]);
        }
    }
}

/// A number is read where it is written in digits, with a plus sign or without, and is
/// not too great; anything else is no number.
pub proof fn only_digits_write_a_number(s: Seq<char>, max: nat)
    ensures
        all_digits(s) && s.len() > 0 && digits_value(s) <= max ==> written_number(s, max) == Some(
            digits_value(s),
        ) && written_number(seq!['+'] + s, max) == Some(digits_value(s)),
        all_digits(s) && digits_value(s) > max ==> written_number(s, max) is None,
        s.len() == 0 ==> written_number(s, max) is None,
        s.len() > 0 && s[0] != '+' && !all_digits(s) ==> written_number(s, max) is None,
        !all_digits(s) ==> written_number(seq!['+'] + s, max) is None,
{
    assert((seq!['+'] + s).skip(1) =~= s);
    if s.len() > 0 && all_digits(s) {
        assert(digit(s[0]));
    }
}

} // verus!
