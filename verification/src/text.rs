//! Text helpers: comparing, searching and splitting strings, and writing numbers.
use vstd::prelude::*;
use vstd::string::*;
use vstd::utf8::*;

verus! {

/// The text of an optional string.
pub open spec fn opt_text(s: Option<String>) -> Option<Seq<char>> {
    match s {
        Some(t) => Some(t@),
        None => None,
    }
}

/// The texts of a list of strings.
pub open spec fn names(v: Seq<String>) -> Seq<Seq<char>> {
    v.map_values(|s: String| s@)
}

/// The character of the decimal digit `d`.
pub open spec fn digit_char(d: nat) -> char {
    (('0' as nat) + d) as char
}

/// The shortest decimal notation of `n`.
pub open spec fn decimal(n: nat) -> Seq<char>
    decreases n,
{
    if n < 10 {
        seq![digit_char(n)]
    } else {
        decimal(n / 10).push(digit_char(n % 10))
    }
}

fn digit_text(d: u64) -> (r: &'static str)
    requires
        d < 10,
    ensures
        r@ == seq![digit_char(d as nat)],
{
    proof {
        reveal_strlit("0");
        reveal_strlit("1");
        reveal_strlit("2");
        reveal_strlit("3");
        reveal_strlit("4");
        reveal_strlit("5");
        reveal_strlit("6");
        reveal_strlit("7");
        reveal_strlit("8");
        reveal_strlit("9");
    }
    match d {
        0 => "0",
        1 => "1",
        2 => "2",
        3 => "3",
        4 => "4",
        5 => "5",
        6 => "6",
        7 => "7",
        8 => "8",
        _ => "9",
    }
}

/// Appends the decimal notation of `n` to `out`.
pub fn push_decimal(out: &mut String, n: u64)
    ensures
        final(out)@ == old(out)@ + decimal(n as nat),
    decreases n,
{
    if n >= 10 {
        push_decimal(out, n / 10);
    }
    out.append(digit_text(n % 10));
    assert(out@ =~= old(out)@ + decimal(n as nat));
}

/// Two texts have the same UTF-8 bytes only if they are the same text.
proof fn lemma_same_bytes_same_text(a: Seq<char>, b: Seq<char>)
    requires
        encode_utf8(a) == encode_utf8(b),
    ensures
        a == b,
{
    encode_utf8_decode_utf8(a);
    encode_utf8_decode_utf8(b);
}

/// Whether two byte strings are equal.
pub fn bytes_eq(a: &[u8], b: &[u8]) -> (r: bool)
    ensures
        r == (a@ == b@),
{
    if a.len() != b.len() {
        return false;
    }
    let mut i: usize = 0;
    while i < a.len()
        invariant
            i <= a.len(),
            a.len() == b.len(),
            forall|j: int| 0 <= j < i ==> a@[j] == b@[j],
        decreases a.len() - i,
    {
        if a[i] != b[i] {
            return false;
        }
        i += 1;
    }
    assert(a@ =~= b@);
    true
}

/// Whether two strings are equal.
pub fn str_eq(a: &str, b: &str) -> (r: bool)
    ensures
        r == (a@ == b@),
{
    let r = bytes_eq(a.as_bytes(), b.as_bytes());
    proof {
        if r {
            lemma_same_bytes_same_text(a@, b@);
        }
    }
    r
}

/// The length of the part of `s` before the first `c`, or of all of `s` where `c` is absent.
pub open spec fn cut(s: Seq<char>, c: char) -> nat
    decreases s.len(),
{
    if s.len() == 0 || s[0] == c {
        0
    } else {
        1 + cut(s.drop_first(), c)
    }
}

/// `cut` is the only place that has no `c` before it and a `c`, or the end, at it.
pub proof fn lemma_cut(s: Seq<char>, c: char, k: int)
    requires
        0 <= k <= s.len(),
        forall|i: int| 0 <= i < k ==> s[i] != c,
        k == s.len() || s[k] == c,
    ensures
        cut(s, c) == k,
    decreases k,
{
    if k > 0 {
        assert(s[0] != c);
        assert forall|i: int| 0 <= i < k - 1 implies s.drop_first()[i] != c by {
            assert(s.drop_first()[i] == s[i + 1]);
        }
        lemma_cut(s.drop_first(), c, k - 1);
    }
}

/// What `cut` promises: no `c` before it, and a `c` at it unless it is the end.
pub proof fn lemma_cut_bounds(s: Seq<char>, c: char)
    ensures
        cut(s, c) <= s.len(),
        forall|i: int| 0 <= i < cut(s, c) ==> s[i] != c,
        cut(s, c) < s.len() ==> s[cut(s, c) as int] == c,
    decreases s.len(),
{
    if s.len() != 0 && s[0] != c {
        let t = s.drop_first();
        lemma_cut_bounds(t, c);
        assert forall|i: int| 0 <= i < cut(s, c) implies s[i] != c by {
            if i > 0 {
                assert(t[i - 1] == s[i]);
            }
        }
    }
}

/// Whether `part` occurs in `s` as a run of adjacent elements.
pub open spec fn occurs(s: Seq<char>, part: Seq<char>) -> bool {
    exists|i: int|
        0 <= i <= s.len() - part.len() && #[trigger] s.subrange(i, i + part.len()) == part
}

/// Whether `s` begins with `prefix`.
pub open spec fn starts_with(s: Seq<char>, prefix: Seq<char>) -> bool {
    prefix.len() <= s.len() && s.subrange(0, prefix.len() as int) == prefix
}

/// The characters of a string.
pub fn chars_of(s: &str) -> (v: Vec<char>)
    ensures
        v@ == s@,
{
    let mut v: Vec<char> = Vec::new();
    for c in it: s.chars()
        invariant
            v@ == it.seq().take(it.index() as int),
            it.seq() == s@,
    {
        v.push(c);
    }
    assert(v@ =~= s@);
    v
}

/// The position of the first `c`, or the length where there is none.
pub fn find_char(s: &Vec<char>, c: char) -> (r: usize)
    ensures
        r == cut(s@, c),
        r <= s@.len(),
{
    let mut i: usize = 0;
    while i < s.len()
        invariant
            i <= s.len(),
            forall|j: int| 0 <= j < i ==> s@[j] != c,
        decreases s.len() - i,
    {
        if s[i] == c {
            proof {
                lemma_cut(s@, c, i as int);
            }
            return i;
        }
        i += 1;
    }
    proof {
        lemma_cut(s@, c, i as int);
    }
    i
}

/// Whether `part` stands in `s` at position `at`.
fn matches_at(s: &Vec<char>, at: usize, part: &Vec<char>) -> (r: bool)
    requires
        at + part@.len() <= s@.len(),
    ensures
        r == (s@.subrange(at as int, at + part@.len()) == part@),
{
    let mut k: usize = 0;
    while k < part.len()
        invariant
            k <= part.len(),
            at + part.len() <= s.len(),
            forall|j: int| 0 <= j < k ==> s@[at + j] == part@[j],
        decreases part.len() - k,
    {
        if s[at + k] != part[k] {
            assert(s@.subrange(at as int, at + part@.len())[k as int] != part@[k as int]);
            return false;
        }
        k += 1;
    }
    assert(s@.subrange(at as int, at + part@.len()) =~= part@);
    true
}

/// Whether `part` occurs in `s`.
pub fn contains_text(s: &str, part: &str) -> (r: bool)
    ensures
        r == occurs(s@, part@),
{
    let text = chars_of(s);
    let piece = chars_of(part);
    if piece.len() == 0 {
        assert(s@.subrange(0int, 0int + part@.len()) =~= part@);
        return true;
    }
    if piece.len() > text.len() {
        return false;
    }
    let last: usize = text.len() - piece.len();
    let mut i: usize = 0;
    while i <= last
        invariant
            i <= last + 1,
            last == text.len() - piece.len(),
            last < usize::MAX,
            text@ == s@,
            piece@ == part@,
            forall|j: int| 0 <= j < i ==> #[trigger] s@.subrange(j, j + part@.len()) != part@,
        decreases last + 1 - i,
    {
        if matches_at(&text, i, &piece) {
            assert(s@.subrange(i as int, i + part@.len()) == part@);
            return true;
        }
        i += 1;
    }
    false
}

/// Whether `s` begins with `prefix`.
pub fn has_prefix(s: &str, prefix: &str) -> (r: bool)
    ensures
        r == starts_with(s@, prefix@),
{
    let text = chars_of(s);
    let piece = chars_of(prefix);
    piece.len() <= text.len() && matches_at(&text, 0, &piece)
}

/// The part of `s` before the first `c`; all of `s` where `c` is absent.
pub fn before_char(s: &str, c: char) -> (r: &str)
    ensures
        r@ == s@.subrange(0, cut(s@, c) as int),
{
    let end = find_char(&chars_of(s), c);
    s.substring_char(0, end)
}

/// Whether bytes are UTF-8, by `core::str::from_utf8`. Claimed of it: it succeeds exactly on
/// valid UTF-8.
#[verifier::external_body]
fn is_utf8(bytes: &[u8]) -> (r: bool)
    ensures
        r == valid_utf8(bytes@),
{
    core::str::from_utf8(bytes).is_ok()
}

/// Whether a byte is a control character that stands in no text: any but tab, line feed and
/// carriage return.
pub open spec fn is_control(b: u8) -> bool {
    b < 32 && b != 9 && b != 10 && b != 13 || b == 127
}

/// Whether bytes read as text: they are UTF-8 and hold no control character that stands in none.
pub open spec fn reads_as_text(bytes: Seq<u8>) -> bool {
    valid_utf8(bytes) && forall|i: int| 0 <= i < bytes.len() ==> !is_control(#[trigger] bytes[i])
}

/// Whether bytes read as text.
pub fn is_text(bytes: &[u8]) -> (r: bool)
    ensures
        r == reads_as_text(bytes@),
{
    let mut i: usize = 0;
    while i < bytes.len()
        invariant
            i <= bytes.len(),
            forall|j: int| 0 <= j < i ==> !is_control(#[trigger] bytes@[j]),
        decreases bytes.len() - i,
    {
        let b = bytes[i];
        if b < 32 && b != 9 && b != 10 && b != 13 || b == 127 {
            assert(is_control(bytes@[i as int]));
            return false;
        }
        i += 1;
    }
    is_utf8(bytes)
}

/// The number that a row of decimal digits stands for, read from the left.
pub open spec fn digits_value(s: Seq<char>) -> nat
    decreases s.len(),
{
    if s.len() == 0 {
        0
    } else {
        (10 * digits_value(s.drop_last()) + (s.last() as int - 48)) as nat
    }
}

/// A number in decimal notation reads back as that number; it is written in the digits `0` to `9`
/// alone, and begins with a `0` only where it is nothing but that.
pub proof fn law_decimal_reads_back(n: nat)
    ensures
        decimal(n).len() > 0,
        digits_value(decimal(n)) == n,
        forall|i: int| 0 <= i < decimal(n).len() ==> '0' <= #[trigger] decimal(n)[i] <= '9',
        decimal(n)[0] == '0' ==> decimal(n).len() == 1,
    decreases n,
{
    let d = decimal(n);
    reveal_with_fuel(digits_value, 2);
    if n >= 10 {
        law_decimal_reads_back(n / 10);
        let front = decimal(n / 10);
        assert(d.drop_last() =~= front);
        assert(d[0] == front[0]);
        if front[0] == '0' {
            assert(digits_value(front) == 0) by {
                assert(front.drop_last().len() == 0);
            }
        }
    } else {
        assert(d.drop_last().len() == 0);
    }
}

/// A part occurs in a text exactly where the text is something, the part, and something.
pub proof fn law_occurs_means_in_between(s: Seq<char>, part: Seq<char>)
    ensures
        occurs(s, part) <==> exists|front: Seq<char>, back: Seq<char>|
            s == #[trigger] (front + part + back),
        forall|front: Seq<char>, back: Seq<char>| occurs(#[trigger] (front + part + back), part),
{
    assert forall|front: Seq<char>, back: Seq<char>| occurs(
        #[trigger] (front + part + back),
        part,
    ) by {
        let whole = front + part + back;
        let at = front.len() as int;
        assert(whole.subrange(at, at + part.len()) =~= part);
    }
    if occurs(s, part) {
        let i = choose|i: int|
            0 <= i <= s.len() - part.len() && #[trigger] s.subrange(i, i + part.len()) == part;
        let front = s.take(i);
        let back = s.skip(i + part.len());
        assert(s =~= front + s.subrange(i, i + part.len()) + back);
        assert(s == front + part + back);
    }
}

/// A text starts with a prefix exactly if it is the prefix and something behind it.
pub proof fn law_starts_with_means_in_front(s: Seq<char>, prefix: Seq<char>)
    ensures
        starts_with(s, prefix) <==> exists|back: Seq<char>| s == #[trigger] (prefix + back),
        forall|back: Seq<char>| starts_with(#[trigger] (prefix + back), prefix),
{
    assert forall|back: Seq<char>| starts_with(#[trigger] (prefix + back), prefix) by {
        assert((prefix + back).subrange(0, prefix.len() as int) =~= prefix);
    }
    if starts_with(s, prefix) {
        let back = s.skip(prefix.len() as int);
        assert(s =~= s.subrange(0, prefix.len() as int) + back);
        assert(s == prefix + back);
    }
}

/// Cutting at a character finds the first one: in front of it stands none, whatever is behind.
pub proof fn law_cut_finds_the_first(front: Seq<char>, c: char, back: Seq<char>)
    requires
        !front.contains(c),
    ensures
        cut(front + seq![c] + back, c) == front.len(),
        cut(front, c) == front.len(),
{
    let whole = front + seq![c] + back;
    assert forall|i: int| 0 <= i < front.len() implies whole[i] != c && front[i] != c by {
        assert(front.contains(front[i]));
    }
    lemma_cut(whole, c, front.len() as int);
    lemma_cut(front, c, front.len() as int);
}

/// The text of an optional string is there if the string is, and is its text.
pub proof fn law_optional_text(t: Option<String>)
    ensures
        opt_text(t) is Some <==> t is Some,
        t is Some ==> opt_text(t)->0 == t->0@,
{
}

/// The texts of a list are those of its strings, one for one and in their order.
pub proof fn law_names_are_the_texts(v: Seq<String>)
    ensures
        names(v).len() == v.len(),
        forall|i: int| 0 <= i < v.len() ==> #[trigger] names(v)[i] == v[i]@,
{
}

proof fn lemma_plain_char(c: char)
    requires
        c as u32 >= 32 || c == '\t' || c == '\n' || c == '\r',
        c as u32 != 127,
    ensures
        forall|i: int|
            0 <= i < encode_scalar(c as u32).len() ==> !is_control(
                #[trigger] encode_scalar(c as u32)[i],
            ),
{
    char_is_scalar(c);
    let u = c as u32;
    assert(u <= 0x7f ==> (u & 0x7f) as u8 == u) by (bit_vector);
    let x: u8 = ((u >> 6) & 0x1F) as u8;
    let y: u8 = ((u >> 12) & 0x0F) as u8;
    let z: u8 = ((u >> 18) & 0x7) as u8;
    let a: u8 = (u & 0x3F) as u8;
    let b: u8 = ((u >> 6) & 0x3F) as u8;
    let d: u8 = ((u >> 12) & 0x3F) as u8;
    assert((0xC0u8 | x) >= 0x80) by (bit_vector);
    assert((0xE0u8 | y) >= 0x80) by (bit_vector);
    assert((0xF0u8 | z) >= 0x80) by (bit_vector);
    assert((0x80u8 | a) >= 0x80) by (bit_vector);
    assert((0x80u8 | b) >= 0x80) by (bit_vector);
    assert((0x80u8 | d) >= 0x80) by (bit_vector);
}

/// Every text whose characters are printable, tabs or ends of lines reads as text when encoded.
pub proof fn law_text_reads_as_text(s: Seq<char>)
    requires
        forall|i: int|
            0 <= i < s.len() ==> (#[trigger] s[i] as u32 >= 32 && s[i] as u32 != 127) || s[i] == '\t'
                || s[i] == '\n' || s[i] == '\r',
    ensures
        reads_as_text(encode_utf8(s)),
    decreases s.len(),
{
    encode_utf8_valid_utf8(s);
    if s.len() > 0 {
        let rest = s.drop_first();
        assert forall|i: int| 0 <= i < rest.len() implies (#[trigger] rest[i] as u32 >= 32
            && rest[i] as u32 != 127) || rest[i] == '\t' || rest[i] == '\n' || rest[i] == '\r' by {
            assert(rest[i] == s[i + 1]);
        }
        law_text_reads_as_text(rest);
        lemma_plain_char(s[0]);
        let first = encode_scalar(s[0] as u32);
        let all = encode_utf8(s);
        assert(all == first + encode_utf8(rest));
        assert forall|i: int| 0 <= i < all.len() implies !is_control(#[trigger] all[i]) by {
            if i < first.len() {
                assert(all[i] == first[i]);
            } else {
                assert(all[i] == encode_utf8(rest)[i - first.len()]);
            }
        }
    }
}

/// Bytes with a control character anywhere do not read as text, and neither do bytes that are no
/// UTF-8.
pub proof fn law_binary_does_not_read_as_text(front: Seq<u8>, b: u8, back: Seq<u8>)
    ensures
        b < 32 && b != 9 && b != 10 && b != 13 ==> !reads_as_text(front + seq![b] + back),
        b == 127 ==> !reads_as_text(front + seq![b] + back),
        !valid_utf8(front) ==> !reads_as_text(front),
{
    let all = front + seq![b] + back;
    assert(all[front.len() as int] == b);
}

} // verus!
