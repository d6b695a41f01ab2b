//! Dotted-decimal IPv4 address text.
//!
//! A text is an address exactly when it is four octets written in decimal,
//! each without padding, with a dot between neighbours and nothing else.

use vstd::prelude::*;
use vstd::string::StringSliceAdditionalSpecFns;

verus! {

/// What is said of a text that is no IPv4 address.
pub const INVALID_IPV4_SYNTAX: &'static str = "invalid IPv4 address syntax";

/// The bytes that write `0`, `9` and the dot in ASCII.
const DIGIT_ZERO: u8 = 48;

const DIGIT_NINE: u8 = 57;

const DOT: u8 = 46;

/// Whether `c` is one of the ten decimal digits.
pub open spec fn is_digit(c: char) -> bool {
    '0' <= c && c <= '9'
}

/// The number that the digit `c` stands for.
pub open spec fn digit_value(c: char) -> nat
    recommends
        is_digit(c),
{
    (c as int - 48) as nat
}

/// The digit that stands for `d`.
pub open spec fn digit_char(d: nat) -> char
    recommends
        d < 10,
{
    (d + 48) as char
}

/// `n` written in base ten, most significant digit first, without padding.
pub open spec fn decimal(n: nat) -> Seq<char>
    decreases n,
{
    if n < 10 {
        seq![digit_char(n)]
    } else {
        decimal(n / 10).push(digit_char(n % 10))
    }
}

/// The number that a run of digits denotes in base ten.
pub open spec fn decimal_value(s: Seq<char>) -> nat
    decreases s.len(),
{
    if s.len() == 0 {
        0
    } else {
        decimal_value(s.drop_last()) * 10 + digit_value(s.last())
    }
}

/// Whether every character of `s` is a digit.
pub open spec fn all_digits(s: Seq<char>) -> bool {
    forall|i: int| 0 <= i < s.len() ==> is_digit(#[trigger] s[i])
}

/// The four octets written in decimal with dots between them.
pub open spec fn dotted(a: u8, b: u8, c: u8, d: u8) -> Seq<char> {
    decimal(a as nat) + seq!['.'] + decimal(b as nat) + seq!['.'] + decimal(c as nat) + seq!['.']
        + decimal(d as nat)
}

/// Whether `s` is the text of an IPv4 address.
pub open spec fn is_ipv4_text(s: Seq<char>) -> bool {
    exists|a: u8, b: u8, c: u8, d: u8| s == #[trigger] dotted(a, b, c, d)
}

/// The four octets that `s` writes, where it is the text of an IPv4 address.
pub open spec fn octets_of(s: Seq<char>) -> Option<(u8, u8, u8, u8)> {
    if is_ipv4_text(s) {
        Some(choose|o: (u8, u8, u8, u8)| s == #[trigger] dotted(o.0, o.1, o.2, o.3))
    } else {
        None
    }
}

/// The decimal of a number is a non-empty run of digits that starts with a
/// zero only when the number is below ten, and it denotes that number.
pub proof fn lemma_decimal_shape(n: nat)
    ensures
        decimal(n).len() >= 1,
        all_digits(decimal(n)),
        n < 10 <==> decimal(n).len() == 1,
        n >= 10 ==> decimal(n)[0] != '0',
        decimal_value(decimal(n)) == n,
    decreases n,
{
    if n < 10 {
        assert(decimal(n).drop_last() =~= Seq::<char>::empty());
        assert(decimal_value(decimal(n).drop_last()) == 0);
    } else {
        lemma_decimal_shape(n / 10);
        let head = decimal(n / 10);
        assert(decimal(n).drop_last() =~= head);
        assert(decimal(n)[0] == head[0]);
        if n / 10 < 10 {
            assert(head[0] == digit_char(n / 10));
        }
    }
}

/// A run of digits without padding is the decimal of the number it denotes.
pub proof fn lemma_unpadded_is_decimal(s: Seq<char>)
    requires
        s.len() >= 1,
        all_digits(s),
        s.len() > 1 ==> s[0] != '0',
    ensures
        decimal(decimal_value(s)) == s,
    decreases s.len(),
{
    let head = s.drop_last();
    if s.len() == 1 {
        assert(head =~= Seq::<char>::empty());
        assert(decimal_value(head) == 0);
        assert(is_digit(s[0]));
        assert(decimal(decimal_value(s)) =~= s);
    } else {
        assert(all_digits(head)) by {
            assert forall|i: int| 0 <= i < head.len() implies is_digit(#[trigger] head[i]) by {
                assert(head[i] == s[i]);
            }
        }
        assert(head[0] == s[0]);
        lemma_unpadded_is_decimal(head);
        assert(is_digit(s.last()));
        if decimal_value(head) == 0 {
            assert(decimal(0)[0] == '0');
        }
        let n = decimal_value(s);
        assert(n / 10 == decimal_value(head));
        assert(n % 10 == digit_value(s.last()));
        assert(decimal(n) =~= s);
    }
}

/// The decimal of a number below a thousand has at most three digits.
pub proof fn lemma_decimal_len(n: nat)
    requires
        n < 1000,
    ensures
        1 <= decimal(n).len() <= 3,
{
    reveal_with_fuel(decimal, 3);
}

/// From `start` to `end`, `s` holds the decimal of `v`, and the digits stop
/// at `end`.
spec fn octet_at(s: Seq<char>, start: int, v: u8, end: int) -> bool {
    &&& 0 <= start < end <= s.len()
    &&& s.subrange(start, end) == decimal(v as nat)
    &&& (end < s.len() ==> !is_digit(s[end]))
}

/// At most one octet can be read at a given place.
proof fn lemma_octet_at_unique(s: Seq<char>, start: int, v1: u8, end1: int, v2: u8, end2: int)
    requires
        octet_at(s, start, v1, end1),
        octet_at(s, start, v2, end2),
    ensures
        v1 == v2,
        end1 == end2,
{
    lemma_decimal_shape(v1 as nat);
    lemma_decimal_shape(v2 as nat);
    if end1 < end2 {
        assert(s.subrange(start, end2)[end1 - start] == s[end1]);
    }
    if end2 < end1 {
        assert(s.subrange(start, end1)[end2 - start] == s[end2]);
    }
}

/// Reads the octet that starts at `start`, and says where it ends.
fn read_octet(text: &str, start: usize) -> (r: Option<(u8, usize)>)
    requires
        text.is_ascii(),
        start <= text@.len(),
    ensures
        match r {
            Some((v, end)) => octet_at(text@, start as int, v, end as int),
            None => forall|v: u8, end: int| !octet_at(text@, start as int, v, end),
        },
{
    broadcast use vstd::string::is_ascii_spec_bytes;

    let bytes = text.as_bytes();
    let n: usize = bytes.len();
    let ghost s = text@;
    let mut end: usize = start;
    let mut value: u16 = 0;
    while end < n && end - start < 4 && DIGIT_ZERO <= bytes[end] && bytes[end] <= DIGIT_NINE
        invariant
            s == text@,
            text.is_ascii(),
            bytes@ == text.spec_bytes(),
            n == s.len(),
            start <= end <= n,
            end - start <= 4,
            all_digits(s.subrange(start as int, end as int)),
            value == decimal_value(s.subrange(start as int, end as int)),
            value <= 9999,
            end - start <= 3 ==> value <= 999,
            end - start <= 2 ==> value <= 99,
            end - start <= 1 ==> value <= 9,
            end == start ==> value == 0,
        decreases n - end,
    {
        let ghost run = s.subrange(start as int, end as int);
        let ghost next = s.subrange(start as int, end + 1);
        proof {
            assert(is_digit(s[end as int]));
            assert(next.drop_last() =~= run);
            assert(next.last() == s[end as int]);
            assert forall|i: int| 0 <= i < next.len() implies is_digit(#[trigger] next[i]) by {
                if i < run.len() {
                    assert(next[i] == run[i]);
                }
            }
        }
        value = value * 10 + (bytes[end] - DIGIT_ZERO) as u16;
        end += 1;
    }
    let ghost run = s.subrange(start as int, end as int);
    if end == start {
        proof {
            assert forall|v: u8, e: int| !octet_at(s, start as int, v, e) by {
                if octet_at(s, start as int, v, e) {
                    lemma_decimal_shape(v as nat);
                    assert(s.subrange(start as int, e)[0] == s[start as int]);
                }
            }
        }
        return None;
    }
    if end - start == 4 {
        proof {
            assert forall|v: u8, e: int| !octet_at(s, start as int, v, e) by {
                if octet_at(s, start as int, v, e) {
                    lemma_decimal_len(v as nat);
                    assert(run[e - start] == s[e]);
                }
            }
        }
        return None;
    }
    proof {
        assert forall|v: u8, e: int| octet_at(s, start as int, v, e) implies e == end
            && decimal(v as nat) == run by {
            lemma_decimal_shape(v as nat);
            if e < end {
                assert(run[e - start] == s[e]);
            }
            if e > end {
                assert(s.subrange(start as int, e)[end - start] == s[end as int]);
            }
        }
        assert(run[0] == s[start as int]);
    }
    if (end - start > 1 && bytes[start] == DIGIT_ZERO) || value > 255 {
        proof {
            assert forall|v: u8, e: int| !octet_at(s, start as int, v, e) by {
                if octet_at(s, start as int, v, e) {
                    lemma_decimal_shape(v as nat);
                }
            }
        }
        return None;
    }
    proof {
        lemma_unpadded_is_decimal(run);
    }
    Some((value as u8, end))
}

/// `s` is made of the four octets, which end at `e1`, `e2`, `e3` and at the
/// end of `s`, with a dot after each of the first three.
spec fn octets_at(
    s: Seq<char>,
    a: u8,
    b: u8,
    c: u8,
    d: u8,
    e1: int,
    e2: int,
    e3: int,
) -> bool {
    &&& octet_at(s, 0, a, e1)
    &&& e1 < s.len() && s[e1] == '.'
    &&& octet_at(s, e1 + 1, b, e2)
    &&& e2 < s.len() && s[e2] == '.'
    &&& octet_at(s, e2 + 1, c, e3)
    &&& e3 < s.len() && s[e3] == '.'
    &&& octet_at(s, e3 + 1, d, s.len() as int)
}

/// Where the octets of a dotted text stand.
proof fn lemma_dotted_places(a: u8, b: u8, c: u8, d: u8) -> (e: (int, int, int))
    ensures
        octets_at(dotted(a, b, c, d), a, b, c, d, e.0, e.1, e.2),
        forall|i: int|
            0 <= i < dotted(a, b, c, d).len() ==> is_digit(#[trigger] dotted(a, b, c, d)[i])
                || dotted(a, b, c, d)[i] == '.',
{
    let s = dotted(a, b, c, d);
    let (ta, tb, tc, td) = (
        decimal(a as nat),
        decimal(b as nat),
        decimal(c as nat),
        decimal(d as nat),
    );
    lemma_decimal_shape(a as nat);
    lemma_decimal_shape(b as nat);
    lemma_decimal_shape(c as nat);
    lemma_decimal_shape(d as nat);
    let e1: int = ta.len() as int;
    let e2: int = e1 + 1 + tb.len();
    let e3: int = e2 + 1 + tc.len();
    assert(s.len() == e3 + 1 + td.len());
    assert(s.subrange(0, e1) =~= ta);
    assert(s.subrange(e1 + 1, e2) =~= tb);
    assert(s.subrange(e2 + 1, e3) =~= tc);
    assert(s.subrange(e3 + 1, s.len() as int) =~= td);
    assert(s[e1] == '.');
    assert(s[e2] == '.');
    assert(s[e3] == '.');
    assert forall|i: int| 0 <= i < s.len() implies is_digit(#[trigger] s[i]) || s[i] == '.' by {
        if i < e1 {
            assert(s[i] == ta[i]);
        } else if e1 < i < e2 {
            assert(s[i] == tb[i - e1 - 1]);
        } else if e2 < i < e3 {
            assert(s[i] == tc[i - e2 - 1]);
        } else if e3 < i {
            assert(s[i] == td[i - e3 - 1]);
        }
    }
    (e1, e2, e3)
}

/// A text whose octets stand in their places is the dotted text of them.
proof fn lemma_places_dotted(
    s: Seq<char>,
    a: u8,
    b: u8,
    c: u8,
    d: u8,
    e1: int,
    e2: int,
    e3: int,
)
    requires
        octets_at(s, a, b, c, d, e1, e2, e3),
    ensures
        s == dotted(a, b, c, d),
{
    let dot = seq!['.'];
    assert(s =~= s.subrange(0, e1) + dot + s.subrange(e1 + 1, e2) + dot + s.subrange(e2 + 1, e3)
        + dot + s.subrange(e3 + 1, s.len() as int));
}

/// No two addresses are written alike.
pub proof fn lemma_dotted_injective(a1: u8, b1: u8, c1: u8, d1: u8, a2: u8, b2: u8, c2: u8, d2: u8)
    requires
        dotted(a1, b1, c1, d1) == dotted(a2, b2, c2, d2),
    ensures
        a1 == a2,
        b1 == b2,
        c1 == c2,
        d1 == d2,
{
    let s = dotted(a1, b1, c1, d1);
    let e = lemma_dotted_places(a1, b1, c1, d1);
    let f = lemma_dotted_places(a2, b2, c2, d2);
    lemma_octet_at_unique(s, 0, a1, e.0, a2, f.0);
    lemma_octet_at_unique(s, e.0 + 1, b1, e.1, b2, f.1);
    lemma_octet_at_unique(s, e.1 + 1, c1, e.2, c2, f.2);
    lemma_octet_at_unique(s, e.2 + 1, d1, s.len() as int, d2, s.len() as int);
}

/// The octets that a dotted text writes are those it was made of.
pub proof fn lemma_octets_of_dotted(a: u8, b: u8, c: u8, d: u8)
    ensures
        is_ipv4_text(dotted(a, b, c, d)),
        octets_of(dotted(a, b, c, d)) == Some((a, b, c, d)),
{
    let s = dotted(a, b, c, d);
    let given = (a, b, c, d);
    assert(s == dotted(given.0, given.1, given.2, given.3));
    let o = choose|o: (u8, u8, u8, u8)| s == #[trigger] dotted(o.0, o.1, o.2, o.3);
    lemma_dotted_injective(a, b, c, d, o.0, o.1, o.2, o.3);
}

/// Some octets and places that make up `s`, where there are any.
spec fn address_places(s: Seq<char>) -> (u8, u8, u8, u8, int, int, int) {
    choose|a: u8, b: u8, c: u8, d: u8, e1: int, e2: int, e3: int|
        octets_at(s, a, b, c, d, e1, e2, e3)
}

/// An address text is made of its octets in their places, and of ASCII only.
proof fn lemma_address_places(s: Seq<char>)
    requires
        is_ipv4_text(s),
    ensures
        ({
            let w = address_places(s);
            octets_at(s, w.0, w.1, w.2, w.3, w.4, w.5, w.6)
        }),
        vstd::utf8::is_ascii_chars(s),
{
    let (a, b, c, d) = choose|a: u8, b: u8, c: u8, d: u8| s == #[trigger] dotted(a, b, c, d);
    let e = lemma_dotted_places(a, b, c, d);
    assert(octets_at(s, a, b, c, d, e.0, e.1, e.2));
    assert forall|i: int| 0 <= i < s.len() implies '\0' <= #[trigger] s[i] <= '\u{7f}' by {
        assert(is_digit(s[i]) || s[i] == '.');
    }
}

/// An address text has seven to fifteen characters, each a digit or a dot,
/// and the first a digit.
pub proof fn lemma_address_text_shape(s: Seq<char>)
    requires
        is_ipv4_text(s),
    ensures
        7 <= s.len() <= 15,
        is_digit(s[0]),
        forall|i: int| 0 <= i < s.len() ==> is_digit(#[trigger] s[i]) || s[i] == '.',
{
    let (a, b, c, d) = choose|a: u8, b: u8, c: u8, d: u8| s == #[trigger] dotted(a, b, c, d);
    lemma_dotted_places(a, b, c, d);
    lemma_decimal_len(a as nat);
    lemma_decimal_len(b as nat);
    lemma_decimal_len(c as nat);
    lemma_decimal_len(d as nat);
    lemma_decimal_shape(a as nat);
    assert(s[0] == decimal(a as nat)[0]);
}

/// Reads `text` as an IPv4 address in dotted decimal and gives its four
/// octets, or nothing where `text` is no such address.
pub fn parse_ipv4(text: &str) -> (r: Option<(u8, u8, u8, u8)>)
    ensures
        r == octets_of(text@),
        r is Some <==> is_ipv4_text(text@),
        r matches Some(o) ==> text@ == dotted(o.0, o.1, o.2, o.3),
{
    broadcast use vstd::string::is_ascii_spec_bytes;

    let ghost s = text@;
    let ghost w = address_places(s);
    proof {
        if is_ipv4_text(s) {
            lemma_address_places(s);
        }
    }
    if !text.is_ascii() {
        return None;
    }
    let bytes = text.as_bytes();
    let n: usize = bytes.len();
    let (a, e1): (u8, usize) = match read_octet(text, 0) {
        Some(found) => found,
        None => { return None; },
    };
    proof {
        if is_ipv4_text(s) {
            lemma_octet_at_unique(s, 0, a, e1 as int, w.0, w.4);
        }
    }
    if e1 >= n || bytes[e1] != DOT {
        return None;
    }
    let (b, e2): (u8, usize) = match read_octet(text, e1 + 1) {
        Some(found) => found,
        None => { return None; },
    };
    proof {
        if is_ipv4_text(s) {
            lemma_octet_at_unique(s, e1 + 1, b, e2 as int, w.1, w.5);
        }
    }
    if e2 >= n || bytes[e2] != DOT {
        return None;
    }
    let (c, e3): (u8, usize) = match read_octet(text, e2 + 1) {
        Some(found) => found,
        None => { return None; },
    };
    proof {
        if is_ipv4_text(s) {
            lemma_octet_at_unique(s, e2 + 1, c, e3 as int, w.2, w.6);
        }
    }
    if e3 >= n || bytes[e3] != DOT {
        return None;
    }
    let (d, e4): (u8, usize) = match read_octet(text, e3 + 1) {
        Some(found) => found,
        None => { return None; },
    };
    if e4 != n {
        proof {
            if is_ipv4_text(s) {
                lemma_octet_at_unique(s, e3 + 1, d, e4 as int, w.3, s.len() as int);
            }
        }
        return None;
    }
    proof {
        assert(s[e1 as int] == '.' && s[e2 as int] == '.' && s[e3 as int] == '.');
        lemma_places_dotted(s, a, b, c, d, e1 as int, e2 as int, e3 as int);
        lemma_octets_of_dotted(a, b, c, d);
    }
    Some((a, b, c, d))
}

} // verus!
