//! Small text formats the session reads: sysfs numbers, `loginctl` and
//! `getent passwd` lines, colour codes and the `gsettings` theme answer.
use vstd::prelude::*;
use crate::text::{chars_of, trim, trim_bounds, is_space, char_is_space, contains, str_contains};

verus! {

/// A decimal digit.
pub open spec fn is_digit(c: char) -> bool {
    '0' <= c && c <= '9'
}

/// The value of a string of decimal digits.
pub open spec fn digits_value(s: Seq<char>) -> int
    decreases s.len(),
{
    if s.len() == 0 {
        0
    } else {
        digits_value(s.drop_last()) * 10 + (s.last() as int - '0' as int)
    }
}

/// The digits after an optional leading '+'.
pub open spec fn unsigned_digits(s: Seq<char>) -> Seq<char> {
    if s.len() > 0 && s[0] == '+' { s.drop_first() } else { s }
}

/// What `u32::from_str` gives: an optional '+', then one or more decimal
/// digits whose value fits.
pub open spec fn spec_parse_u32(s: Seq<char>) -> Option<u32> {
    let d = unsigned_digits(s);
    if d.len() > 0 && (forall|i: int| 0 <= i < d.len() ==> is_digit(#[trigger] d[i])) && digits_value(d) <= u32::MAX {
        Some(digits_value(d) as u32)
    } else {
        None
    }
}

proof fn lemma_digits_value_nonneg(s: Seq<char>)
    requires
        forall|i: int| 0 <= i < s.len() ==> is_digit(#[trigger] s[i]),
    ensures
        digits_value(s) >= 0,
    decreases s.len(),
{
    if s.len() > 0 {
        lemma_digits_value_nonneg(s.drop_last());
    }
}

proof fn lemma_digits_value_grows(s: Seq<char>, i: int)
    requires
        0 <= i <= s.len(),
        forall|k: int| 0 <= k < s.len() ==> is_digit(#[trigger] s[k]),
    ensures
        digits_value(s.subrange(0, i)) <= digits_value(s),
    decreases s.len() - i,
{
    if i < s.len() {
        let t = s.drop_last();
        assert(s.subrange(0, i) =~= t.subrange(0, i)) by {
        }
        if i <= t.len() {
            lemma_digits_value_grows(t, i);
        }
        lemma_digits_value_nonneg(t);
        assert(s.last() == s[s.len() - 1]);
    } else {
        assert(s.subrange(0, i) =~= s);
    }
}

/// Parses an unsigned 32-bit decimal number as `u32::from_str` does.
pub fn parse_u32(s: &str) -> (r: Option<u32>)
    ensures
        r == spec_parse_u32(s@),
{
    let cs = chars_of(s);
    let n = cs.len();
    let start: usize = if n > 0 && cs[0] == '+' { 1 } else { 0 };
    let ghost d = unsigned_digits(s@);
    assert(d =~= cs@.subrange(start as int, n as int));
    if start >= n {
        return None;
    }
    let mut acc: u64 = 0;
    let mut i: usize = start;
    while i < n
        invariant
            cs@ == s@,
            n == cs@.len(),
            start <= i <= n,
            d == cs@.subrange(start as int, n as int),
            d == unsigned_digits(s@),
            forall|k: int| 0 <= k < i - start ==> is_digit(#[trigger] d[k]),
            acc == digits_value(d.subrange(0, i - start)),
            acc <= u32::MAX,
        decreases n - i,
    {
        let c = cs[i];
        if !('0' <= c && c <= '9') {
            proof {
                let k = i - start;
                assert(d[k] == c);
                assert(!is_digit(d[k]));
                assert(!(forall|m: int| 0 <= m < d.len() ==> is_digit(#[trigger] d[m])));
                assert(d == unsigned_digits(s@));
                assert(spec_parse_u32(s@).is_none());
            }
            return None;
        }
        proof {
            assert(d.subrange(0, i - start + 1).drop_last() =~= d.subrange(0, i - start));
            assert(d.subrange(0, i - start + 1).last() == c);
        }
        let v: u64 = acc * 10 + ((c as u32) - ('0' as u32)) as u64;
        assert(v == digits_value(d.subrange(0, i - start + 1)));
        if v > 0xFFFF_FFFF {
            proof {
                if forall|k: int| 0 <= k < d.len() ==> is_digit(#[trigger] d[k]) {
                    lemma_digits_value_grows(d, i - start + 1);
                }
            }
            return None;
        }
        acc = v;
        i = i + 1;
    }
    assert(d.subrange(0, n - start) =~= d);
    Some(acc as u32)
}

/// A sysfs attribute's number: the text without surrounding whitespace, parsed.
pub fn read_attr_value(text: &str) -> (r: Option<u32>)
    ensures
        r == spec_parse_u32(trim(text@)),
{
    let t = crate::text::trimmed(text);
    parse_u32(t.as_str())
}

/// User ids of regular desktop users: 1000 up to, but not including, 65534.
pub fn is_regular_uid(uid: u32) -> (b: bool)
    ensures
        b == (1000 <= uid && uid < 65534),
{
    1000 <= uid && uid < 65534
}

/// The text before the first occurrence of `sep` (all of it if none).
pub open spec fn before_first(s: Seq<char>, sep: char) -> Seq<char>
    decreases s.len(),
{
    if s.len() == 0 {
        s
    } else if s[0] == sep {
        Seq::empty()
    } else {
        seq![s[0]] + before_first(s.drop_first(), sep)
    }
}

proof fn lemma_before_first_prefix(s: Seq<char>, sep: char, i: int)
    requires
        0 <= i <= s.len(),
        forall|k: int| 0 <= k < i ==> #[trigger] s[k] != sep,
        i == s.len() || s[i] == sep,
    ensures
        before_first(s, sep) == s.subrange(0, i),
    decreases i,
{
    if i == 0 {
        if s.len() == 0 {
            assert(s.subrange(0, 0) =~= s);
        } else {
            assert(s.subrange(0, 0) =~= Seq::<char>::empty());
        }
    } else {
        lemma_before_first_prefix(s.drop_first(), sep, i - 1);
        assert(s.subrange(0, i) =~= seq![s[0]] + s.drop_first().subrange(0, i - 1));
    }
}

/// The text before the first `sep`.
pub fn first_field(s: &str, sep: char) -> (r: String)
    ensures
        r@ == before_first(s@, sep),
{
    let cs = chars_of(s);
    let mut i: usize = 0;
    while i < cs.len() && cs[i] != sep
        invariant
            cs@ == s@,
            i <= cs@.len(),
            forall|k: int| 0 <= k < i ==> #[trigger] cs@[k] != sep,
        decreases cs@.len() - i,
    {
        i = i + 1;
    }
    proof {
        lemma_before_first_prefix(s@, sep, i as int);
    }
    s.substring_char(0, i).to_owned()
}

/// The user name of a `getent passwd` line: its first ':'-separated field.
pub fn passwd_user_name(line: &str) -> (r: String)
    ensures
        r@ == before_first(line@, ':'),
{
    first_field(line, ':')
}

/// The whitespace-separated words of a line, as `str::split_whitespace` gives them.
pub open spec fn words(s: Seq<char>) -> Seq<Seq<char>>
    decreases s.len(),
{
    if s.len() == 0 {
        Seq::empty()
    } else if is_space(s[0]) {
        words(s.drop_first())
    } else {
        proof {
            lemma_word_at_len(s);
        }
        let w = word_at(s);
        seq![w] + words(s.subrange(w.len() as int, s.len() as int))
    }
}

/// The leading run of non-whitespace characters.
pub open spec fn word_at(s: Seq<char>) -> Seq<char>
    decreases s.len(),
{
    if s.len() == 0 || is_space(s[0]) {
        Seq::empty()
    } else {
        seq![s[0]] + word_at(s.drop_first())
    }
}

/// The first word of a text is a prefix of it, and not empty when the text
/// starts with a non-space.
pub proof fn lemma_word_at_len(s: Seq<char>)
    ensures
        word_at(s).len() <= s.len(),
        word_at(s) == s.subrange(0, word_at(s).len() as int),
        s.len() > 0 && !is_space(s[0]) ==> word_at(s).len() > 0,
    decreases s.len(),
{
    if s.len() > 0 && !is_space(s[0]) {
        lemma_word_at_len(s.drop_first());
        assert(word_at(s) =~= s.subrange(0, word_at(s).len() as int));
    } else {
        assert(s.subrange(0, 0) =~= Seq::<char>::empty());
    }
}

proof fn lemma_word_at_exact(s: Seq<char>, j: int)
    requires
        0 <= j <= s.len(),
        forall|k: int| 0 <= k < j ==> !is_space(#[trigger] s[k]),
        j == s.len() || is_space(s[j]),
    ensures
        word_at(s) == s.subrange(0, j),
    decreases j,
{
    if j == 0 {
        assert(s.subrange(0, 0) =~= Seq::<char>::empty());
    } else {
        lemma_word_at_exact(s.drop_first(), j - 1);
        assert(s.subrange(0, j) =~= seq![s[0]] + s.drop_first().subrange(0, j - 1));
    }
}

proof fn lemma_words_skip(s: Seq<char>, i: int)
    requires
        0 <= i <= s.len(),
        forall|k: int| 0 <= k < i ==> is_space(#[trigger] s[k]),
    ensures
        words(s) == words(s.subrange(i, s.len() as int)),
    decreases i,
{
    if i > 0 {
        assert(s.drop_first().subrange(i - 1, s.drop_first().len() as int) =~= s.subrange(i, s.len() as int));
        lemma_words_skip(s.drop_first(), i - 1);
    } else {
        assert(s.subrange(0, s.len() as int) =~= s);
    }
}

/// The first `count` words of `s` (fewer if the line has fewer).
pub fn leading_words(s: &str, count: usize) -> (r: Vec<String>)
    ensures
        r@.len() <= count,
        r@.len() == count || r@.len() == words(s@).len(),
        r@.len() <= words(s@).len(),
        forall|k: int| 0 <= k < r@.len() ==> #[trigger] r@[k]@ == words(s@)[k],
{
    let cs = chars_of(s);
    let n = cs.len();
    let mut out: Vec<String> = Vec::new();
    let mut i: usize = 0;
    assert(cs@.subrange(0, n as int) =~= cs@);
    assert(out@.map_values(|w: String| w@) =~= Seq::<Seq<char>>::empty());
    while out.len() < count
        invariant
            cs@ == s@,
            n == cs@.len(),
            i <= n,
            out@.len() <= count,
            words(s@) == out@.map_values(|w: String| w@) + words(cs@.subrange(i as int, n as int)),
        decreases n - i + count - out@.len(),
    {
        let ghost rest0 = cs@.subrange(i as int, n as int);
        let mut a = i;
        while a < n && char_is_space(cs[a])
            invariant
                cs@ == s@,
                n == cs@.len(),
                i <= a <= n,
                forall|k: int| i <= k < a ==> is_space(#[trigger] cs@[k]),
            decreases n - a,
        {
            a = a + 1;
        }
        proof {
            assert forall|k: int| 0 <= k < a - i implies is_space(#[trigger] rest0[k]) by {
                assert(rest0[k] == cs@[i + k]);
            }
            lemma_words_skip(rest0, a - i);
            assert(rest0.subrange(a - i, rest0.len() as int) =~= cs@.subrange(a as int, n as int));
        }
        if a == n {
            proof {
                assert(cs@.subrange(a as int, n as int) =~= Seq::<char>::empty());
                assert(words(s@) =~= out@.map_values(|w: String| w@));
            }
            return out;
        }
        let mut b = a;
        while b < n && !char_is_space(cs[b])
            invariant
                cs@ == s@,
                n == cs@.len(),
                a <= b <= n,
                forall|k: int| a <= k < b ==> !is_space(#[trigger] cs@[k]),
            decreases n - b,
        {
            b = b + 1;
        }
        let ghost rest = cs@.subrange(a as int, n as int);
        proof {
            assert forall|k: int| 0 <= k < b - a implies !is_space(#[trigger] rest[k]) by {
                assert(rest[k] == cs@[a + k]);
            }
            if b < n {
                assert(rest[b - a] == cs@[b as int]);
            }
            lemma_word_at_exact(rest, b - a);
            assert(rest.subrange(0, b - a) =~= cs@.subrange(a as int, b as int));
            assert(!is_space(rest[0]));
            assert(rest.subrange(b - a, rest.len() as int) =~= cs@.subrange(b as int, n as int));
        }
        let w = s.substring_char(a, b).to_owned();
        let ghost before = out@;
        out.push(w);
        proof {
            assert(out@.map_values(|x: String| x@) =~= before.map_values(|x: String| x@).push(w@));
            assert(words(rest) == seq![w@] + words(cs@.subrange(b as int, n as int)));
            assert(words(s@) =~= out@.map_values(|x: String| x@) + words(cs@.subrange(b as int, n as int)));
        }
        i = b;
    }
    proof {
        assert(words(s@).len() >= out@.map_values(|x: String| x@).len());
        assert forall|k: int| 0 <= k < out@.len() implies #[trigger] out@[k]@ == words(s@)[k] by {
            assert(out@.map_values(|x: String| x@)[k] == out@[k]@);
        }
    }
    out
}

} // verus!

verus! {

/// The text before the first `sep` is a prefix without `sep`, followed by
/// `sep` when it is shorter than the text.
pub proof fn lemma_before_first_len(s: Seq<char>, sep: char)
    ensures
        before_first(s, sep).len() <= s.len(),
        before_first(s, sep) == s.subrange(0, before_first(s, sep).len() as int),
        before_first(s, sep).len() < s.len() ==> s[before_first(s, sep).len() as int] == sep,
        forall|k: int| 0 <= k < before_first(s, sep).len() ==> #[trigger] s[k] != sep,
    decreases s.len(),
{
    if s.len() > 0 && s[0] != sep {
        lemma_before_first_len(s.drop_first(), sep);
        assert(before_first(s, sep) =~= s.subrange(0, before_first(s, sep).len() as int));
        let b = before_first(s, sep);
        assert forall|k: int| 0 <= k < b.len() implies #[trigger] s[k] != sep by {
            if k > 0 {
                assert(s[k] == s.drop_first()[k - 1]);
            }
        }
    } else {
        assert(s.subrange(0, 0) =~= Seq::<char>::empty());
    }
}

/// The pieces of `s` between occurrences of `sep`, as `str::split` gives them.
pub open spec fn split(s: Seq<char>, sep: char) -> Seq<Seq<char>>
    decreases s.len(),
{
    proof {
        lemma_before_first_len(s, sep);
    }
    let b = before_first(s, sep);
    if b.len() >= s.len() {
        seq![s]
    } else {
        seq![b] + split(s.subrange(b.len() as int + 1, s.len() as int), sep)
    }
}

/// Splits `s` at every `sep`.
pub fn split_on(s: &str, sep: char) -> (r: Vec<String>)
    ensures
        r@.map_values(|x: String| x@) == split(s@, sep),
{
    let cs = chars_of(s);
    let n = cs.len();
    let mut out: Vec<String> = Vec::new();
    let mut start: usize = 0;
    assert(cs@.subrange(0, n as int) =~= cs@);
    assert(out@.map_values(|x: String| x@) =~= Seq::<Seq<char>>::empty());
    loop
        invariant
            cs@ == s@,
            n == cs@.len(),
            start <= n,
            split(s@, sep) == out@.map_values(|x: String| x@) + split(cs@.subrange(start as int, n as int), sep),
        decreases n - start,
    {
        let ghost rest = cs@.subrange(start as int, n as int);
        let mut j = start;
        while j < n && cs[j] != sep
            invariant
                cs@ == s@,
                n == cs@.len(),
                start <= j <= n,
                forall|k: int| start <= k < j ==> #[trigger] cs@[k] != sep,
            decreases n - j,
        {
            j = j + 1;
        }
        proof {
            assert forall|k: int| 0 <= k < j - start implies #[trigger] rest[k] != sep by {
                assert(rest[k] == cs@[start + k]);
            }
            if j < n {
                assert(rest[j - start] == cs@[j as int]);
            }
            lemma_before_first_prefix(rest, sep, j - start);
            assert(rest.subrange(0, j - start) =~= cs@.subrange(start as int, j as int));
        }
        let piece = s.substring_char(start, j).to_owned();
        let ghost before = out@;
        out.push(piece);
        proof {
            assert(out@.map_values(|x: String| x@) =~= before.map_values(|x: String| x@).push(piece@));
        }
        if j == n {
            proof {
                assert(split(rest, sep) == seq![rest]);
                assert(split(s@, sep) =~= out@.map_values(|x: String| x@));
            }
            return out;
        }
        proof {
            assert(rest.subrange(j - start + 1, rest.len() as int) =~= cs@.subrange(j + 1, n as int));
            assert(split(s@, sep) =~= out@.map_values(|x: String| x@) + split(cs@.subrange(j + 1, n as int), sep));
        }
        start = j + 1;
    }
}

/// The first line of `loginctl list-sessions` output fields: session id,
/// user and seat, when the line has four or more words.
pub open spec fn spec_session_fields(line: Seq<char>) -> Option<(Seq<char>, Seq<char>, Seq<char>)> {
    let w = words(line);
    if w.len() >= 4 { Some((w[0], w[2], w[3])) } else { None }
}

/// A session worth asking about: on seat0 and not root's.
pub open spec fn spec_session_candidate(line: Seq<char>) -> Option<(Seq<char>, Seq<char>)> {
    match spec_session_fields(line) {
        Some((id, user, seat)) => if seat == "seat0"@ && user != "root"@ { Some((id, user)) } else { None },
        None => None,
    }
}

/// The session id and user of a `loginctl list-sessions` line, if the
/// session is on seat0 and not root's.
pub fn session_candidate(line: &str) -> (r: Option<(String, String)>)
    ensures
        match spec_session_candidate(line@) {
            Some((id, user)) => r matches Some((a, b)) && a@ == id && b@ == user,
            None => r.is_none(),
        },
{
    let w = leading_words(line, 4);
    if w.len() < 4 {
        return None;
    }
    let seat0 = "seat0".to_owned();
    let root = "root".to_owned();
    if w[3] == seat0 && w[2] != root {
        Some((w[0].clone(), w[2].clone()))
    } else {
        None
    }
}

/// Whether `loginctl show-session -p Type` names a graphical session.
pub fn session_is_graphical(info: &str) -> (b: bool)
    ensures
        b == (contains(info@, "Type=wayland"@) || contains(info@, "Type=x11"@)),
{
    str_contains(info, "Type=wayland") || str_contains(info, "Type=x11")
}

/// A hexadecimal digit's value.
pub open spec fn hex_value(c: char) -> Option<u8> {
    if '0' <= c && c <= '9' {
        Some((c as u32 - '0' as u32) as u8)
    } else if 'a' <= c && c <= 'f' {
        Some((c as u32 - 'a' as u32 + 10) as u8)
    } else if 'A' <= c && c <= 'F' {
        Some((c as u32 - 'A' as u32 + 10) as u8)
    } else {
        None
    }
}

fn hex_digit(c: char) -> (r: Option<u8>)
    ensures
        r == hex_value(c),
{
    if '0' <= c && c <= '9' {
        Some(((c as u32) - ('0' as u32)) as u8)
    } else if 'a' <= c && c <= 'f' {
        Some(((c as u32) - ('a' as u32) + 10) as u8)
    } else if 'A' <= c && c <= 'F' {
        Some(((c as u32) - ('A' as u32) + 10) as u8)
    } else {
        None
    }
}

/// What `u8::from_str_radix(.., 16)` gives for two characters: two hex
/// digits, or '+' and one hex digit.
pub open spec fn hex_pair(a: char, b: char) -> Option<u8> {
    match (hex_value(a), hex_value(b)) {
        (Some(x), Some(y)) => Some((x * 16 + y) as u8),
        (None, Some(y)) => if a == '+' { Some(y) } else { None },
        _ => None,
    }
}

fn hex_pair_value(a: char, b: char) -> (r: Option<u8>)
    ensures
        r == hex_pair(a, b),
{
    match (hex_digit(a), hex_digit(b)) {
        (Some(x), Some(y)) => Some(x * 16 + y),
        (None, Some(y)) => if a == '+' { Some(y) } else { None },
        _ => None,
    }
}

/// Leading '#' characters removed.
pub open spec fn strip_hashes(s: Seq<char>) -> Seq<char>
    decreases s.len(),
{
    if s.len() > 0 && s[0] == '#' { strip_hashes(s.drop_first()) } else { s }
}

/// The colour a "#rrggbb" code names, as bytes: the code without surrounding
/// whitespace and leading '#'s must be six characters, read in pairs.
pub open spec fn spec_color_hex(s: Seq<char>) -> Option<(u8, u8, u8)> {
    let t = strip_hashes(trim(s));
    if t.len() == 6 {
        match (hex_pair(t[0], t[1]), hex_pair(t[2], t[3]), hex_pair(t[4], t[5])) {
            (Some(r), Some(g), Some(b)) => Some((r, g, b)),
            _ => None,
        }
    } else {
        None
    }
}

/// Reads a "#rrggbb" colour code.
pub fn parse_color_hex(s: &str) -> (r: Option<(u8, u8, u8)>)
    ensures
        r == spec_color_hex(s@),
{
    let cs = chars_of(s);
    let (a, b) = trim_bounds(&cs);
    let ghost t0 = cs@.subrange(a as int, b as int);
    let mut i = a;
    while i < b && cs[i] == '#'
        invariant
            cs@ == s@,
            a <= i <= b <= cs@.len(),
            t0 == cs@.subrange(a as int, b as int),
            strip_hashes(t0) == strip_hashes(cs@.subrange(i as int, b as int)),
        decreases b - i,
    {
        proof {
            assert(cs@.subrange(i as int, b as int).drop_first() =~= cs@.subrange(i + 1, b as int));
        }
        i = i + 1;
    }
    let ghost t = cs@.subrange(i as int, b as int);
    proof {
        if t.len() > 0 {
            assert(t[0] == cs@[i as int]);
        }
        assert(strip_hashes(t) == t);
    }
    if b - i != 6 {
        return None;
    }
    proof {
        assert(t[0] == cs@[i as int]);
        assert(t[1] == cs@[i + 1]);
        assert(t[2] == cs@[i + 2]);
        assert(t[3] == cs@[i + 3]);
        assert(t[4] == cs@[i + 4]);
        assert(t[5] == cs@[i + 5]);
    }
    let r = hex_pair_value(cs[i], cs[i + 1]);
    let g = hex_pair_value(cs[i + 2], cs[i + 3]);
    let bl = hex_pair_value(cs[i + 4], cs[i + 5]);
    match (r, g, bl) {
        (Some(r), Some(g), Some(bl)) => Some((r, g, bl)),
        _ => None,
    }
}

} // verus!

verus! {

/// Leading copies of `c` removed.
pub open spec fn strip_leading(s: Seq<char>, c: char) -> Seq<char>
    decreases s.len(),
{
    if s.len() > 0 && s[0] == c { strip_leading(s.drop_first(), c) } else { s }
}

/// Trailing copies of `c` removed.
pub open spec fn strip_trailing(s: Seq<char>, c: char) -> Seq<char>
    decreases s.len(),
{
    if s.len() > 0 && s.last() == c { strip_trailing(s.drop_last(), c) } else { s }
}

proof fn lemma_strip_leading_skip(s: Seq<char>, c: char, i: int)
    requires
        0 <= i <= s.len(),
        forall|k: int| 0 <= k < i ==> #[trigger] s[k] == c,
    ensures
        strip_leading(s, c) == strip_leading(s.subrange(i, s.len() as int), c),
    decreases i,
{
    if i > 0 {
        assert(s.drop_first().subrange(i - 1, s.drop_first().len() as int) =~= s.subrange(i, s.len() as int));
        lemma_strip_leading_skip(s.drop_first(), c, i - 1);
    } else {
        assert(s.subrange(0, s.len() as int) =~= s);
    }
}

proof fn lemma_strip_trailing_skip(s: Seq<char>, c: char, j: int)
    requires
        0 <= j <= s.len(),
        forall|k: int| j <= k < s.len() ==> #[trigger] s[k] == c,
    ensures
        strip_trailing(s, c) == strip_trailing(s.subrange(0, j), c),
    decreases s.len() - j,
{
    if j < s.len() {
        assert(s.drop_last().subrange(0, j) =~= s.subrange(0, j));
        lemma_strip_trailing_skip(s.drop_last(), c, j);
    } else {
        assert(s.subrange(0, j) =~= s);
    }
}

/// Bounds of `strip_trailing(strip_leading(s[lo..hi], c), c)` within `s`
/// (when `both`), or of `strip_trailing(s[lo..hi], c)` alone.
fn strip_bounds(cs: &Vec<char>, lo: usize, hi: usize, c: char, both: bool) -> (r: (usize, usize))
    requires
        lo <= hi <= cs@.len(),
    ensures
        lo <= r.0 <= r.1 <= hi,
        both ==> cs@.subrange(r.0 as int, r.1 as int) == strip_trailing(strip_leading(cs@.subrange(lo as int, hi as int), c), c),
        !both ==> cs@.subrange(r.0 as int, r.1 as int) == strip_trailing(cs@.subrange(lo as int, hi as int), c),
{
    let ghost s = cs@.subrange(lo as int, hi as int);
    let mut i = lo;
    if both {
        while i < hi && cs[i] == c
            invariant
                lo <= i <= hi <= cs@.len(),
                s == cs@.subrange(lo as int, hi as int),
                forall|k: int| lo <= k < i ==> #[trigger] cs@[k] == c,
            decreases hi - i,
        {
            i = i + 1;
        }
        proof {
            assert forall|k: int| 0 <= k < i - lo implies #[trigger] s[k] == c by {
                assert(s[k] == cs@[lo + k]);
            }
            lemma_strip_leading_skip(s, c, i - lo);
            let t = s.subrange(i - lo, s.len() as int);
            assert(t =~= cs@.subrange(i as int, hi as int));
            if t.len() > 0 {
                assert(t[0] == cs@[i as int]);
            }
            assert(strip_leading(t, c) == t);
        }
    } else {
        assert(s == cs@.subrange(i as int, hi as int));
    }
    let ghost t = cs@.subrange(i as int, hi as int);
    let mut j = hi;
    while j > i && cs[j - 1] == c
        invariant
            lo <= i <= j <= hi <= cs@.len(),
            t == cs@.subrange(i as int, hi as int),
            forall|k: int| j <= k < hi ==> #[trigger] cs@[k] == c,
        decreases j,
    {
        j = j - 1;
    }
    proof {
        assert forall|k: int| j - i <= k < t.len() implies #[trigger] t[k] == c by {
            assert(t[k] == cs@[i + k]);
        }
        lemma_strip_trailing_skip(t, c, j - i);
        let u = t.subrange(0, j - i);
        assert(u =~= cs@.subrange(i as int, j as int));
        if u.len() > 0 {
            assert(u.last() == cs@[j - 1]);
        }
        assert(strip_trailing(u, c) == u);
    }
    (i, j)
}

/// What `gsettings get org.gnome.desktop.interface gtk-theme` answers: the
/// output without surrounding whitespace and quotes.
pub open spec fn spec_gsettings_theme(out: Seq<char>) -> Option<Seq<char>> {
    let t = strip_trailing(strip_leading(trim(out), '\''), '\'');
    if t.len() > 0 && t != "default"@ { Some(t) } else { None }
}

/// The GTK theme named by `gsettings` output, unless empty or "default".
pub fn gtk_theme_from_gsettings(out: &str) -> (r: Option<String>)
    ensures
        match spec_gsettings_theme(out@) {
            Some(t) => r matches Some(x) && x@ == t,
            None => r.is_none(),
        },
{
    let cs = chars_of(out);
    let (a, b) = trim_bounds(&cs);
    let (i, j) = strip_bounds(&cs, a, b, '\'', true);
    let t = out.substring_char(i, j).to_owned();
    if i < j && t != "default".to_owned() {
        Some(t)
    } else {
        None
    }
}

/// Whether `s` starts with `p`.
pub open spec fn starts_with(s: Seq<char>, p: Seq<char>) -> bool {
    p.len() <= s.len() && s.subrange(0, p.len() as int) == p
}

/// A colour definition line of a GTK stylesheet, "@define-color name #rrggbb;":
/// the name, and the colour if its code reads.
pub open spec fn spec_css_define_color(line: Seq<char>) -> Option<(Seq<char>, (u8, u8, u8))> {
    let t = trim(line);
    let prefix = "@define-color "@;
    if starts_with(t, prefix) {
        let d = t.subrange(prefix.len() as int, t.len() as int);
        let name = word_at(d);
        if name.len() < d.len() {
            let rest = d.subrange(name.len() as int + 1, d.len() as int);
            match spec_color_hex(strip_trailing(trim(rest), ';')) {
                Some(col) => Some((name, col)),
                None => None,
            }
        } else {
            None
        }
    } else {
        None
    }
}

/// Reads a "@define-color" line of a GTK stylesheet.
pub fn css_define_color(line: &str) -> (r: Option<(String, (u8, u8, u8))>)
    ensures
        match spec_css_define_color(line@) {
            Some((n, col)) => r matches Some((x, c2)) && x@ == n && c2 == col,
            None => r.is_none(),
        },
{
    proof {
        reveal_strlit("@define-color ");
    }
    let cs = chars_of(line);
    let (a, b) = trim_bounds(&cs);
    let prefix = chars_of("@define-color ");
    let pl = prefix.len();
    let ghost t = cs@.subrange(a as int, b as int);
    if b - a < pl {
        return None;
    }
    let mut k: usize = 0;
    while k < pl
        invariant
            cs@ == line@,
            prefix@ == "@define-color "@,
            pl == prefix@.len(),
            a <= b <= cs@.len(),
            pl <= b - a,
            t == cs@.subrange(a as int, b as int),
            t == trim(line@),
            k <= pl,
            forall|m: int| 0 <= m < k ==> t[m] == prefix@[m],
        decreases pl - k,
    {
        if cs[a + k] != prefix[k] {
            proof {
                assert(t[k as int] == cs@[a + k]);
                assert(t.subrange(0, pl as int)[k as int] != prefix@[k as int]);
            }
            return None;
        }
        k = k + 1;
    }
    assert(t.subrange(0, pl as int) =~= prefix@);
    let ds = a + pl;
    let ghost d = t.subrange(pl as int, t.len() as int);
    assert(d =~= cs@.subrange(ds as int, b as int));
    let mut e = ds;
    while e < b && !char_is_space(cs[e])
        invariant
            cs@ == line@,
            ds <= e <= b <= cs@.len(),
            forall|m: int| ds <= m < e ==> !is_space(#[trigger] cs@[m]),
        decreases b - e,
    {
        e = e + 1;
    }
    proof {
        assert forall|m: int| 0 <= m < e - ds implies !is_space(#[trigger] d[m]) by {
            assert(d[m] == cs@[ds + m]);
        }
        if e < b {
            assert(d[e - ds] == cs@[e as int]);
        }
        lemma_word_at_exact(d, e - ds);
        assert(d.subrange(0, e - ds) =~= cs@.subrange(ds as int, e as int));
    }
    if e == b {
        return None;
    }
    let name = line.substring_char(ds, e).to_owned();
    let rest = line.substring_char(e + 1, b);
    proof {
        assert(d.subrange(e - ds + 1, d.len() as int) =~= cs@.subrange(e + 1, b as int));
    }
    let rs = chars_of(rest);
    let (ra, rb) = trim_bounds(&rs);
    let (x, y) = strip_bounds(&rs, ra, rb, ';', false);
    let code = rest.substring_char(x, y);
    match parse_color_hex(code) {
        Some(col) => Some((name, col)),
        None => None,
    }
}

} // verus!

verus! {

/// What an INI line holds, as the KDE globals reader reads it.
pub enum IniLine {
    /// "[name]" (after trimming): a section header.
    Section(String),
    /// "key = value": key and value, each trimmed.
    Entry(String, String),
    /// Anything else.
    Other,
}

/// The meaning of one line (trimmed first).
pub open spec fn spec_ini_line(line: Seq<char>) -> (int, Seq<char>, Seq<char>) {
    let t = trim(line);
    if t.len() > 0 && t[0] == '[' && t.last() == ']' {
        (0, t.subrange(1, t.len() - 1), Seq::empty())
    } else {
        let k = before_first(t, '=');
        if k.len() < t.len() {
            (1, trim(k), trim(t.subrange(k.len() as int + 1, t.len() as int)))
        } else {
            (2, Seq::empty(), Seq::empty())
        }
    }
}

/// Reads one INI line.
pub fn ini_line(line: &str) -> (r: IniLine)
    ensures
        ({
            let (kind, a, b) = spec_ini_line(line@);
            &&& kind == 0 ==> (r matches IniLine::Section(n) && n@ == a)
            &&& kind == 1 ==> (r matches IniLine::Entry(k, v) && k@ == a && v@ == b)
            &&& kind == 2 ==> r is Other
        }),
{
    let t = crate::text::trimmed(line);
    let cs = chars_of(t.as_str());
    let n = cs.len();
    if n > 0 && cs[0] == '[' && cs[n - 1] == ']' {
        assert(n >= 2);
        return IniLine::Section(t.as_str().substring_char(1, n - 1).to_owned());
    }
    let k = first_field(t.as_str(), '=');
    let kl = k.as_str().unicode_len();
    proof {
        lemma_before_first_len(t@, '=');
    }
    if kl < n {
        let key = crate::text::trimmed(k.as_str());
        let rest = t.as_str().substring_char(kl + 1, n);
        let val = crate::text::trimmed(rest);
        IniLine::Entry(key, val)
    } else {
        IniLine::Other
    }
}

/// A parsed KDE globals file: the section headers in order, and every
/// (section, key, value) entry in order.
pub struct IniDoc {
    pub sections: Vec<String>,
    pub entries: Vec<(String, String, String)>,
}

/// The reader's state: current section, headers seen, entries read.
pub type IniState = (Seq<char>, Seq<Seq<char>>, Seq<(Seq<char>, Seq<char>, Seq<char>)>);

/// The state after one more line: a header switches section; an entry is
/// kept when a non-empty section is current.
pub open spec fn ini_step(st: IniState, line: Seq<char>) -> IniState {
    let (cur, secs, ents) = st;
    let (kind, a, b) = spec_ini_line(line);
    if kind == 0 {
        (a, secs.push(a), ents)
    } else if kind == 1 && cur.len() > 0 {
        (cur, secs, ents.push((cur, a, b)))
    } else {
        st
    }
}

/// The state after a list of lines.
pub open spec fn ini_fold(lines: Seq<Seq<char>>) -> IniState
    decreases lines.len(),
{
    if lines.len() == 0 {
        (Seq::empty(), Seq::empty(), Seq::empty())
    } else {
        ini_step(ini_fold(lines.drop_last()), lines.last())
    }
}

/// The view of the entries.
pub open spec fn entries_view(e: Seq<(String, String, String)>) -> Seq<(Seq<char>, Seq<char>, Seq<char>)> {
    e.map_values(|t: (String, String, String)| (t.0@, t.1@, t.2@))
}

/// Reads a KDE globals file. Lines are split at '\n'; a '\r' before it is
/// whitespace and trimmed with the rest.
pub fn parse_kdeglobals(content: &str) -> (d: IniDoc)
    ensures
        ({
            let (_, secs, ents) = ini_fold(split(content@, '\n'));
            &&& crate::navigation::names(d.sections@) == secs
            &&& entries_view(d.entries@) == ents
        }),
{
    let lines = split_on(content, '\n');
    let ghost ls = lines@.map_values(|x: String| x@);
    let mut cur = String::new();
    let mut sections: Vec<String> = Vec::new();
    let mut entries: Vec<(String, String, String)> = Vec::new();
    let mut i: usize = 0;
    assert(ls.subrange(0, 0) =~= Seq::<Seq<char>>::empty());
    assert(crate::navigation::names(sections@) =~= Seq::<Seq<char>>::empty());
    assert(entries_view(entries@) =~= Seq::<(Seq<char>, Seq<char>, Seq<char>)>::empty());
    while i < lines.len()
        invariant
            i <= lines@.len(),
            ls == lines@.map_values(|x: String| x@),
            ini_fold(ls.subrange(0, i as int)) == (cur@, crate::navigation::names(sections@), entries_view(entries@)),
        decreases lines@.len() - i,
    {
        proof {
            assert(ls.subrange(0, i + 1).drop_last() =~= ls.subrange(0, i as int));
            assert(ls.subrange(0, i + 1).last() == lines@[i as int]@);
        }
        match ini_line(lines[i].as_str()) {
            IniLine::Section(n) => {
                let n2 = n.clone();
                sections.push(n);
                cur = n2;
                proof {
                    assert(crate::navigation::names(sections@) =~= names_with_last_pushed(sections@));
                }
            },
            IniLine::Entry(k, v) => {
                if cur.as_str().unicode_len() > 0 {
                    let ghost before = entries@;
                    entries.push((cur.clone(), k, v));
                    assert(entries_view(entries@) =~= entries_view(before).push((cur@, entries@.last().1@, entries@.last().2@)));
                }
            },
            IniLine::Other => {},
        }
        i = i + 1;
    }
    assert(ls.subrange(0, lines@.len() as int) =~= ls);
    IniDoc { sections, entries }
}

/// The names of all but the last string, then the last one's.
spec fn names_with_last_pushed(v: Seq<String>) -> Seq<Seq<char>> {
    crate::navigation::names(v.drop_last()).push(v.last()@)
}

/// Whether a section header was read.
pub fn ini_has_section(d: &IniDoc, section: &str) -> (b: bool)
    ensures
        b == crate::navigation::names(d.sections@).contains(section@),
{
    let target = section.to_owned();
    let mut i: usize = 0;
    while i < d.sections.len()
        invariant
            i <= d.sections@.len(),
            target@ == section@,
            forall|k: int| 0 <= k < i ==> #[trigger] d.sections@[k]@ != section@,
        decreases d.sections@.len() - i,
    {
        if d.sections[i] == target {
            assert(crate::navigation::names(d.sections@)[i as int] == section@);
            return true;
        }
        i = i + 1;
    }
    assert forall|k: int| 0 <= k < d.sections@.len() implies #[trigger] crate::navigation::names(d.sections@)[k] != section@ by {
        assert(d.sections@[k]@ != section@);
    }
    false
}

/// The value of the last entry for `key` in `section`: later lines win.
pub open spec fn spec_ini_get(ents: Seq<(Seq<char>, Seq<char>, Seq<char>)>, section: Seq<char>, key: Seq<char>) -> Option<Seq<char>>
    decreases ents.len(),
{
    if ents.len() == 0 {
        None
    } else if ents.last().0 == section && ents.last().1 == key {
        Some(ents.last().2)
    } else {
        spec_ini_get(ents.drop_last(), section, key)
    }
}

/// The value for `key` in `section`, if any.
pub fn ini_get(d: &IniDoc, section: &str, key: &str) -> (r: Option<String>)
    ensures
        match spec_ini_get(entries_view(d.entries@), section@, key@) {
            Some(v) => r matches Some(x) && x@ == v,
            None => r.is_none(),
        },
{
    let sec = section.to_owned();
    let k = key.to_owned();
    let ghost ev = entries_view(d.entries@);
    let mut i: usize = d.entries.len();
    assert(ev.subrange(0, i as int) =~= ev);
    while i > 0
        invariant
            i <= d.entries@.len(),
            ev == entries_view(d.entries@),
            sec@ == section@,
            k@ == key@,
            spec_ini_get(ev, section@, key@) == spec_ini_get(ev.subrange(0, i as int), section@, key@),
        decreases i,
    {
        let e = &d.entries[i - 1];
        proof {
            assert(ev.subrange(0, i as int).drop_last() =~= ev.subrange(0, i - 1));
            assert(ev.subrange(0, i as int).last() == (e.0@, e.1@, e.2@));
        }
        if e.0 == sec && e.1 == k {
            return Some(e.2.clone());
        }
        i = i - 1;
    }
    assert(ev.subrange(0, ev.len() as int) =~= ev);
    None
}

} // verus!

verus! {

/// A colour definition: name and colour bytes.
pub type NamedColor = (String, (u8, u8, u8));

/// The colour definitions of a stylesheet's lines, in order.
pub open spec fn css_definitions(lines: Seq<Seq<char>>) -> Seq<(Seq<char>, (u8, u8, u8))>
    decreases lines.len(),
{
    if lines.len() == 0 {
        Seq::empty()
    } else {
        let prev = css_definitions(lines.drop_last());
        match spec_css_define_color(lines.last()) {
            Some(d) => prev.push(d),
            None => prev,
        }
    }
}

/// The view of colour definitions.
pub open spec fn colors_view(v: Seq<NamedColor>) -> Seq<(Seq<char>, (u8, u8, u8))> {
    v.map_values(|c: NamedColor| (c.0@, c.1))
}

/// The colour definitions of a GTK stylesheet, in order (lines split at '\n').
pub fn parse_gtk_css(css: &str) -> (r: Vec<NamedColor>)
    ensures
        colors_view(r@) == css_definitions(split(css@, '\n')),
{
    let lines = split_on(css, '\n');
    let ghost ls = lines@.map_values(|x: String| x@);
    let mut out: Vec<NamedColor> = Vec::new();
    let mut i: usize = 0;
    assert(colors_view(out@) =~= Seq::<(Seq<char>, (u8, u8, u8))>::empty());
    while i < lines.len()
        invariant
            i <= lines@.len(),
            ls == lines@.map_values(|x: String| x@),
            colors_view(out@) == css_definitions(ls.subrange(0, i as int)),
        decreases lines@.len() - i,
    {
        proof {
            assert(ls.subrange(0, i + 1).drop_last() =~= ls.subrange(0, i as int));
            assert(ls.subrange(0, i + 1).last() == lines@[i as int]@);
        }
        match css_define_color(lines[i].as_str()) {
            Some(d) => {
                let ghost before = out@;
                out.push(d);
                assert(colors_view(out@) =~= colors_view(before).push((out@.last().0@, out@.last().1)));
            },
            None => {},
        }
        i = i + 1;
    }
    assert(ls.subrange(0, lines@.len() as int) =~= ls);
    out
}

/// The colour last defined under `name`.
pub open spec fn spec_color_get(v: Seq<(Seq<char>, (u8, u8, u8))>, name: Seq<char>) -> Option<(u8, u8, u8)>
    decreases v.len(),
{
    if v.len() == 0 {
        None
    } else if v.last().0 == name {
        Some(v.last().1)
    } else {
        spec_color_get(v.drop_last(), name)
    }
}

/// The colour defined under `name`; a later definition wins.
pub fn gtk_color(v: &Vec<NamedColor>, name: &str) -> (r: Option<(u8, u8, u8)>)
    ensures
        r == spec_color_get(colors_view(v@), name@),
{
    let n = name.to_owned();
    let ghost cv = colors_view(v@);
    let mut i: usize = v.len();
    assert(cv.subrange(0, i as int) =~= cv);
    while i > 0
        invariant
            i <= v@.len(),
            cv == colors_view(v@),
            n@ == name@,
            spec_color_get(cv, name@) == spec_color_get(cv.subrange(0, i as int), name@),
        decreases i,
    {
        proof {
            assert(cv.subrange(0, i as int).drop_last() =~= cv.subrange(0, i - 1));
            assert(cv.subrange(0, i as int).last() == (v@[i - 1].0@, v@[i - 1].1));
        }
        if v[i - 1].0 == n {
            return Some(v[i - 1].1);
        }
        i = i - 1;
    }
    None
}

} // verus!

verus! {

/// The variables of the graphical session that the session daemon takes
/// over from the user's systemd environment.
pub open spec fn is_graphical_env_key(k: Seq<char>) -> bool {
    k == "DISPLAY"@ || k == "WAYLAND_DISPLAY"@ || k == "XAUTHORITY"@ || k == "XDG_SESSION_TYPE"@
}

/// A "KEY=value" line of `systemctl --user show-environment`: the key
/// (before the first '=') and the value after it, trimmed, when the key is
/// one of the graphical session's variables.
pub open spec fn spec_graphical_env_entry(line: Seq<char>) -> Option<(Seq<char>, Seq<char>)> {
    let k = before_first(line, '=');
    if k.len() < line.len() && is_graphical_env_key(k) {
        Some((k, trim(line.subrange(k.len() as int + 1, line.len() as int))))
    } else {
        None
    }
}

/// Reads one line of the user's systemd environment.
pub fn graphical_env_entry(line: &str) -> (r: Option<(String, String)>)
    ensures
        match spec_graphical_env_entry(line@) {
            Some((k, v)) => r matches Some((a, b)) && a@ == k && b@ == v,
            None => r.is_none(),
        },
{
    let cs = chars_of(line);
    let n = cs.len();
    let key = first_field(line, '=');
    let kl = key.as_str().unicode_len();
    proof {
        lemma_before_first_len(line@, '=');
    }
    if kl >= n {
        return None;
    }
    let wanted = key == "DISPLAY".to_owned() || key == "WAYLAND_DISPLAY".to_owned()
        || key == "XAUTHORITY".to_owned() || key == "XDG_SESSION_TYPE".to_owned();
    if wanted {
        let value = crate::text::trimmed(line.substring_char(kl + 1, n));
        Some((key, value))
    } else {
        None
    }
}

} // verus!
