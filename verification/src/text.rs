//! Text helpers: the small vocabulary in which the other modules state what
//! they read and write. Texts are modelled as sequences of characters.

use vstd::prelude::*;
use vstd::string::*;
use vstd::utf8::*;

verus! {

/// `String::push` appends one character at the end.
pub assume_specification[ String::push ](s: &mut String, c: char)
    ensures
        final(s)@ == old(s)@.push(c),
;

/// The text between double quotes in which the standard formatter shows a
/// string for debugging.
pub uninterp spec fn debug_quoted(s: Seq<char>) -> Seq<char>;

/// `s` as the standard formatter shows it for debugging (`format!` with
/// `{:?}`): between double quotes, with special characters escaped. Which
/// characters are escaped, and how, is left to the formatter.
#[verifier::external_body]
pub(crate) fn quote(s: &str) -> (r: String)
    ensures
        r@ == debug_quoted(s@),
{
    format!("{:?}", s)
}

// ---- models ----

/// The ASCII lower-case form of one character; every other character is kept.
pub open spec fn lower_char(c: char) -> char {
    if 'A' <= c && c <= 'Z' {
        ((c as u32 + 32) as u32) as char
    } else {
        c
    }
}

/// The ASCII lower-case form of a text.
pub open spec fn lower(s: Seq<char>) -> Seq<char> {
    s.map_values(|c: char| lower_char(c))
}

/// The characters with the Unicode `White_Space` property.
pub open spec fn is_white(c: char) -> bool {
    ||| '\u{9}' <= c && c <= '\u{d}'
    ||| c == ' '
    ||| c == '\u{85}'
    ||| c == '\u{a0}'
    ||| c == '\u{1680}'
    ||| '\u{2000}' <= c && c <= '\u{200a}'
    ||| c == '\u{2028}'
    ||| c == '\u{2029}'
    ||| c == '\u{202f}'
    ||| c == '\u{205f}'
    ||| c == '\u{3000}'
}

/// True if `s` begins with `p`.
pub open spec fn starts(s: Seq<char>, p: Seq<char>) -> bool {
    p.len() <= s.len() && s.subrange(0, p.len() as int) == p
}

/// True if `s` ends with `p`.
pub open spec fn ends(s: Seq<char>, p: Seq<char>) -> bool {
    p.len() <= s.len() && s.subrange(s.len() - p.len(), s.len() as int) == p
}

/// The texts held by a list of strings.
pub open spec fn texts(v: Seq<String>) -> Seq<Seq<char>> {
    v.map_values(|s: String| s@)
}

/// The text of an optional string.
pub open spec fn opt_text(o: Option<String>) -> Option<Seq<char>> {
    match o {
        Some(s) => Some(s@),
        None => None,
    }
}

/// The value of an optional text.
pub open spec fn str_text(o: Option<&str>) -> Option<Seq<char>> {
    match o {
        Some(s) => Some(s@),
        None => None,
    }
}

/// True if both texts are the same; texts are equal exactly when their UTF-8
/// bytes are.
pub fn same_text(a: &str, b: &str) -> (r: bool)
    ensures
        r == (a@ == b@),
{
    let x = a.as_bytes();
    let y = b.as_bytes();
    proof {
        encode_utf8_decode_utf8(a@);
        encode_utf8_decode_utf8(b@);
    }
    if x.len() != y.len() {
        return false;
    }
    let mut i: usize = 0;
    while i < x.len()
        invariant
            x@ == encode_utf8(a@),
            y@ == encode_utf8(b@),
            x@.len() == y@.len(),
            i <= x@.len(),
            forall|j: int| 0 <= j < i ==> x@[j] == y@[j],
        decreases x@.len() - i,
    {
        if x[i] != y[i] {
            return false;
        }
        i = i + 1;
    }
    assert(x@ =~= y@);
    true
}

/// The characters of a text, in order.
pub fn chars_of(s: &str) -> (r: Vec<char>)
    ensures
        r@ == s@,
{
    let mut r: Vec<char> = Vec::new();
    for c in it: s.chars()
        invariant
            it.seq() == s@,
            r@ == s@.subrange(0, it.index()),
    {
        r.push(c);
        assert(s@.subrange(0, it.index() + 1) =~= s@.subrange(0, it.index()).push(c));
    }
    assert(s@.subrange(0, s@.len() as int) =~= s@);
    r
}

/// The ASCII lower-case form of `s`.
pub fn ascii_lower(s: &str) -> (r: String)
    ensures
        r@ == lower(s@),
{
    let mut r = String::new();
    for c in it: s.chars()
        invariant
            it.seq() == s@,
            r@ == lower(s@.subrange(0, it.index())),
    {
        let l = lower_of(c);
        r.push(l);
        assert(lower(s@.subrange(0, it.index() + 1)) =~= lower(s@.subrange(0, it.index())).push(
            lower_char(c),
        ));
    }
    assert(s@.subrange(0, s@.len() as int) =~= s@);
    r
}

fn lower_of(c: char) -> (r: char)
    ensures
        r == lower_char(c),
{
    if 'A' <= c && c <= 'Z' {
        ((c as u8) + 32) as char
    } else {
        c
    }
}

/// True if the two texts differ at most in ASCII letter case.
pub fn same_ignoring_case(a: &str, b: &str) -> (r: bool)
    ensures
        r == (lower(a@) == lower(b@)),
{
    let x = ascii_lower(a);
    let y = ascii_lower(b);
    same_text(x.as_str(), y.as_str())
}

/// True if `s` is one of `list`.
pub fn is_one_of(s: &str, list: &Vec<String>) -> (r: bool)
    ensures
        r == texts(list@).contains(s@),
{
    let mut i: usize = 0;
    while i < list.len()
        invariant
            i <= list@.len(),
            forall|j: int| 0 <= j < i ==> texts(list@)[j] != s@,
        decreases list@.len() - i,
    {
        if same_text(s, list[i].as_str()) {
            assert(texts(list@)[i as int] == s@);
            return true;
        }
        i = i + 1;
    }
    false
}

/// True if `s` begins with `p`.
pub fn starts_with(s: &str, p: &str) -> (r: bool)
    ensures
        r == starts(s@, p@),
{
    let x = chars_of(s);
    let y = chars_of(p);
    if x.len() < y.len() {
        return false;
    }
    let mut i: usize = 0;
    while i < y.len()
        invariant
            y@.len() <= x@.len(),
            i <= y@.len(),
            x@ == s@,
            y@ == p@,
            forall|j: int| 0 <= j < i ==> x@[j] == y@[j],
        decreases y@.len() - i,
    {
        if x[i] != y[i] {
            assert(s@.subrange(0, p@.len() as int)[i as int] != p@[i as int]);
            return false;
        }
        i = i + 1;
    }
    assert(s@.subrange(0, p@.len() as int) =~= p@);
    true
}

/// True if `s` ends with `p`.
pub fn ends_with(s: &str, p: &str) -> (r: bool)
    ensures
        r == ends(s@, p@),
{
    let x = chars_of(s);
    let y = chars_of(p);
    if x.len() < y.len() {
        return false;
    }
    let n: usize = x.len();
    let d: usize = n - y.len();
    let mut i: usize = 0;
    while i < y.len()
        invariant
            n == x@.len(),
            y@.len() <= n,
            d == n - y@.len(),
            i <= y@.len(),
            x@ == s@,
            y@ == p@,
            forall|j: int| 0 <= j < i ==> x@[d + j] == y@[j],
        decreases y@.len() - i,
    {
        if x[d + i] != y[i] {
            assert(s@.subrange(s@.len() - p@.len(), s@.len() as int)[i as int] != p@[i as int]);
            return false;
        }
        i = i + 1;
    }
    assert(s@.subrange(s@.len() - p@.len(), s@.len() as int) =~= p@);
    true
}

/// What follows the prefix `p` in `s`, if `s` has it.
pub fn strip_prefix(s: &str, p: &str) -> (r: Option<String>)
    ensures
        match r {
            Some(rest) => starts(s@, p@) && rest@ == s@.skip(p@.len() as int),
            None => !starts(s@, p@),
        },
{
    if starts_with(s, p) {
        let n = p.unicode_len();
        let m = s.unicode_len();
        let rest = s.substring_char(n, m).to_string();
        assert(rest@ =~= s@.skip(p@.len() as int));
        Some(rest)
    } else {
        None
    }
}

/// True if `sub` stands at position `i` of `s`.
pub open spec fn stands_at(s: Seq<char>, sub: Seq<char>, i: int) -> bool {
    0 <= i && i + sub.len() <= s.len() && s.subrange(i, i + sub.len()) == sub
}

/// True if `sub` occurs in `s`.
pub open spec fn has_text(s: Seq<char>, sub: Seq<char>) -> bool {
    exists|i: int| stands_at(s, sub, i)
}

/// True if `sub` occurs in `s`.
pub fn contains_text(s: &str, sub: &str) -> (r: bool)
    ensures
        r == has_text(s@, sub@),
{
    let n: usize = s.unicode_len();
    let mut i: usize = 0;
    loop
        invariant
            i <= n,
            n == s@.len(),
            forall|j: int| 0 <= j < i ==> !stands_at(s@, sub@, j),
        decreases n - i,
    {
        let rest = s.substring_char(i, n);
        if starts_with(rest, sub) {
            proof {
                let m = sub@.len() as int;
                assert(rest@.subrange(0, m) =~= s@.subrange(i as int, i + m));
                assert(stands_at(s@, sub@, i as int));
            }
            return true;
        }
        proof {
            if stands_at(s@, sub@, i as int) {
                let m = sub@.len() as int;
                assert(rest@.subrange(0, m) =~= s@.subrange(i as int, i + m));
            }
        }
        if i == n {
            assert forall|j: int| !stands_at(s@, sub@, j) by {
                if j > n {
                    assert(j + sub@.len() > s@.len());
                }
            }
            return false;
        }
        i = i + 1;
    }
}

/// True if `c` occurs in `s`.
pub fn has_char(s: &str, c: char) -> (r: bool)
    ensures
        r == s@.contains(c),
{
    match find_char(s, c) {
        Some(_) => true,
        None => false,
    }
}

/// The position of the first `c` in `s`.
pub open spec fn first_index(s: Seq<char>, c: char) -> Option<int>
    decreases s.len(),
{
    if s.len() == 0 {
        None
    } else if s[0] == c {
        Some(0)
    } else {
        match first_index(s.drop_first(), c) {
            Some(i) => Some(i + 1),
            None => None,
        }
    }
}

/// What the first position says of the text.
pub proof fn lemma_first_index(s: Seq<char>, c: char)
    ensures
        match first_index(s, c) {
            Some(i) => 0 <= i < s.len() && s[i] == c && forall|j: int| 0 <= j < i ==> s[j] != c,
            None => !s.contains(c),
        },
    decreases s.len(),
{
    if s.len() > 0 && s[0] != c {
        let t = s.drop_first();
        lemma_first_index(t, c);
        match first_index(t, c) {
            Some(i) => {
                assert forall|j: int| 0 <= j < i + 1 implies s[j] != c by {
                    if j > 0 {
                        assert(t[j - 1] == s[j]);
                    }
                }
            },
            None => {
                assert forall|j: int| 0 <= j < s.len() implies s[j] != c by {
                    if j > 0 {
                        assert(t[j - 1] == s[j]);
                        assert(t.contains(t[j - 1]));
                    }
                }
            },
        }
    }
}

/// The position of the first `c` in `s`, counted in characters.
pub fn find_char(s: &str, c: char) -> (r: Option<usize>)
    ensures
        match r {
            Some(i) => first_index(s@, c) == Some(i as int) && i < s@.len() && s@[i as int] == c,
            None => first_index(s@, c) is None && !s@.contains(c),
        },
        r is Some <==> s@.contains(c),
{
    let x = chars_of(s);
    proof {
        lemma_first_index(s@, c);
    }
    let mut i: usize = 0;
    while i < x.len()
        invariant
            i <= x@.len(),
            x@ == s@,
            forall|j: int| 0 <= j < i ==> x@[j] != c,
            match first_index(s@, c) {
                Some(i) => 0 <= i < s@.len() && s@[i] == c && forall|j: int|
                    0 <= j < i ==> s@[j] != c,
                None => !s@.contains(c),
            },
        decreases x@.len() - i,
    {
        if x[i] == c {
            assert(s@.contains(s@[i as int]));
            return Some(i);
        }
        i = i + 1;
    }
    None
}

// ---- trimming ----

/// `s` without its leading white space.
pub open spec fn trim_start(s: Seq<char>) -> Seq<char>
    decreases s.len(),
{
    if s.len() > 0 && is_white(s[0]) {
        trim_start(s.drop_first())
    } else {
        s
    }
}

/// `s` without its trailing white space.
pub open spec fn trim_end(s: Seq<char>) -> Seq<char>
    decreases s.len(),
{
    if s.len() > 0 && is_white(s.last()) {
        trim_end(s.drop_last())
    } else {
        s
    }
}

/// `s` without leading and trailing white space.
pub open spec fn trimmed(s: Seq<char>) -> Seq<char> {
    trim_end(trim_start(s))
}

/// `s` without the `c`s at its end.
pub open spec fn strip_tail(s: Seq<char>, c: char) -> Seq<char>
    decreases s.len(),
{
    if s.len() > 0 && s.last() == c {
        strip_tail(s.drop_last(), c)
    } else {
        s
    }
}

/// True if `c` has the Unicode `White_Space` property.
pub fn is_whitespace(c: char) -> (r: bool)
    ensures
        r == is_white(c),
{
    ('\u{9}' <= c && c <= '\u{d}') || c == ' ' || c == '\u{85}' || c == '\u{a0}' || c
        == '\u{1680}' || ('\u{2000}' <= c && c <= '\u{200a}') || c == '\u{2028}' || c
        == '\u{2029}' || c == '\u{202f}' || c == '\u{205f}' || c == '\u{3000}'
}

/// `s` without leading and trailing white space.
pub fn trim(s: &str) -> (r: String)
    ensures
        r@ == trimmed(s@),
{
    let x = chars_of(s);
    let n: usize = x.len();
    let mut i: usize = 0;
    assert(s@.subrange(0, n as int) =~= s@);
    while i < n && is_whitespace(x[i])
        invariant
            i <= n,
            n == x@.len(),
            x@ == s@,
            trim_start(s@) == trim_start(s@.subrange(i as int, n as int)),
        decreases n - i,
    {
        assert(s@.subrange(i as int, n as int).drop_first() =~= s@.subrange(i + 1, n as int));
        i = i + 1;
    }
    assert(trim_start(s@) == s@.subrange(i as int, n as int));
    let mut k: usize = n;
    while k > i && is_whitespace(x[k - 1])
        invariant
            i <= k <= n,
            n == x@.len(),
            x@ == s@,
            trim_start(s@) == s@.subrange(i as int, n as int),
            trimmed(s@) == trim_end(s@.subrange(i as int, k as int)),
        decreases k,
    {
        assert(s@.subrange(i as int, k as int).drop_last() =~= s@.subrange(i as int, k - 1));
        k = k - 1;
    }
    s.substring_char(i, k).to_string()
}

/// `s` without the `c`s at its end.
pub fn trim_end_char(s: &str, c: char) -> (r: String)
    ensures
        r@ == strip_tail(s@, c),
{
    let x = chars_of(s);
    let mut k: usize = x.len();
    assert(s@.subrange(0, k as int) =~= s@);
    while k > 0 && x[k - 1] == c
        invariant
            k <= x@.len(),
            x@ == s@,
            strip_tail(s@, c) == strip_tail(s@.subrange(0, k as int), c),
        decreases k,
    {
        assert(s@.subrange(0, k as int).drop_last() =~= s@.subrange(0, k - 1));
        k = k - 1;
    }
    s.substring_char(0, k).to_string()
}

// ---- numbers as text ----

/// The decimal digit of a value below ten.
pub open spec fn digit(d: nat) -> char {
    ((48 + d) as u32) as char
}

/// The decimal text of a number.
pub open spec fn decimal(n: nat) -> Seq<char>
    decreases n,
{
    if n < 10 {
        seq![digit(n)]
    } else {
        decimal(n / 10).push(digit(n % 10))
    }
}

/// The decimal text of a signed number.
pub open spec fn signed_decimal(n: int) -> Seq<char> {
    if n < 0 {
        seq!['-'] + decimal((-n) as nat)
    } else {
        decimal(n as nat)
    }
}

/// Appends the decimal text of `n`.
pub fn push_decimal(s: &mut String, n: u64)
    ensures
        final(s)@ == old(s)@ + decimal(n as nat),
    decreases n,
{
    if n >= 10 {
        push_decimal(s, n / 10);
    }
    let d: u8 = (n % 10) as u8;
    s.push((48 + d) as char);
    assert(s@ =~= old(s)@ + decimal(n as nat));
}

/// The decimal text of `n`.
pub fn decimal_text(n: u64) -> (r: String)
    ensures
        r@ == decimal(n as nat),
{
    let mut s = String::new();
    push_decimal(&mut s, n);
    assert(s@ =~= decimal(n as nat));
    s
}

/// Appends the decimal text of a signed number.
pub fn push_signed(s: &mut String, n: i64)
    ensures
        final(s)@ == old(s)@ + signed_decimal(n as int),
{
    let ghost before = s@;
    if n < 0 {
        s.push('-');
        let magnitude: u64 = (-(n + 1)) as u64 + 1;
        push_decimal(s, magnitude);
        assert(s@ =~= before + signed_decimal(n as int));
    } else {
        push_decimal(s, n as u64);
    }
}

/// The lower-case hexadecimal digit of a value below sixteen.
pub open spec fn hex_digit(d: nat) -> char {
    if d < 10 {
        ((48 + d) as u32) as char
    } else {
        ((87 + d) as u32) as char
    }
}

/// The lower-case hexadecimal text of some bytes, two digits each.
pub open spec fn hex(bytes: Seq<u8>) -> Seq<char> {
    Seq::new(
        2 * bytes.len(),
        |i: int|
            if i % 2 == 0 {
                hex_digit((bytes[i / 2] / 16) as nat)
            } else {
                hex_digit((bytes[i / 2] % 16) as nat)
            },
    )
}

fn hex_digit_of(d: u8) -> (r: char)
    requires
        d < 16,
    ensures
        r == hex_digit(d as nat),
{
    if d < 10 {
        (48 + d) as char
    } else {
        (87 + d) as char
    }
}

/// Appends the two hexadecimal digits of `b`.
pub fn push_hex(s: &mut String, b: u8)
    ensures
        final(s)@ == old(s)@ + hex(seq![b]),
{
    s.push(hex_digit_of(b / 16));
    s.push(hex_digit_of(b % 16));
    assert(s@ =~= old(s)@ + hex(seq![b]));
}

/// Hexadecimal text grows byte by byte.
pub proof fn lemma_hex_push(bytes: Seq<u8>, b: u8)
    ensures
        hex(bytes.push(b)) == hex(bytes) + hex(seq![b]),
{
    assert(hex(bytes.push(b)) =~= hex(bytes) + hex(seq![b])) by {
        let n = bytes.len() as int;
        assert forall|i: int| 0 <= i < 2 * (n + 1) implies #[trigger] hex(bytes.push(b))[i] == (hex(
            bytes,
        ) + hex(seq![b]))[i] by {
            if i < 2 * n {
                assert(bytes.push(b)[i / 2] == bytes[i / 2]);
            } else {
                assert(i / 2 == n);
                assert((i - 2 * n) / 2 == 0);
                assert((i - 2 * n) % 2 == i % 2);
            }
        }
    }
}

/// Different bytes have different hexadecimal texts.
pub proof fn lemma_hex_injective(a: Seq<u8>, b: Seq<u8>)
    requires
        hex(a) == hex(b),
    ensures
        a == b,
{
    assert(hex(a).len() == 2 * a.len() && hex(b).len() == 2 * b.len());
    assert forall|i: int| 0 <= i < a.len() implies a[i] == b[i] by {
        assert((2 * i) / 2 == i && (2 * i + 1) / 2 == i);
        assert((2 * i) % 2 == 0 && (2 * i + 1) % 2 == 1);
        assert(hex(a)[2 * i] == hex_digit((a[i] / 16) as nat));
        assert(hex(b)[2 * i] == hex_digit((b[i] / 16) as nat));
        assert(hex(a)[2 * i + 1] == hex_digit((a[i] % 16) as nat));
        assert(hex(b)[2 * i + 1] == hex_digit((b[i] % 16) as nat));
        lemma_hex_digit_injective((a[i] / 16) as nat, (b[i] / 16) as nat);
        lemma_hex_digit_injective((a[i] % 16) as nat, (b[i] % 16) as nat);
    }
    assert(a =~= b);
}

proof fn lemma_hex_digit_injective(d: nat, e: nat)
    requires
        d < 16,
        e < 16,
        hex_digit(d) == hex_digit(e),
    ensures
        d == e,
{
}

/// The lower-case hexadecimal text of `bytes`.
pub fn hex_text(bytes: &[u8]) -> (r: String)
    ensures
        r@ == hex(bytes@),
{
    let mut s = String::new();
    let mut i: usize = 0;
    assert(hex(bytes@.subrange(0, 0)) =~= s@);
    while i < bytes.len()
        invariant
            i <= bytes@.len(),
            s@ == hex(bytes@.subrange(0, i as int)),
        decreases bytes@.len() - i,
    {
        push_hex(&mut s, bytes[i]);
        proof {
            lemma_hex_push(bytes@.subrange(0, i as int), bytes@[i as int]);
            assert(bytes@.subrange(0, i as int).push(bytes@[i as int]) =~= bytes@.subrange(
                0,
                i + 1,
            ));
        }
        i = i + 1;
    }
    assert(bytes@.subrange(0, bytes@.len() as int) =~= bytes@);
    s
}

// ---- text as numbers ----

/// True if `c` is an ASCII digit.
pub open spec fn is_digit(c: char) -> bool {
    '0' <= c && c <= '9'
}

/// True if every character of `s` is an ASCII digit.
pub open spec fn all_digits(s: Seq<char>) -> bool {
    forall|i: int| 0 <= i < s.len() ==> is_digit(#[trigger] s[i])
}

/// The number that a run of digits writes.
pub open spec fn digits_value(s: Seq<char>) -> nat
    decreases s.len(),
{
    if s.len() == 0 {
        0
    } else {
        digits_value(s.drop_last()) * 10 + (s.last() as nat - 48) as nat
    }
}

/// `s` without one leading `+`.
pub open spec fn unsigned_digits(s: Seq<char>) -> Seq<char> {
    if s.len() > 0 && s[0] == '+' {
        s.drop_first()
    } else {
        s
    }
}

/// The unsigned number that `s` writes: an optional `+`, then one or more
/// digits, and nothing else.
pub open spec fn unsigned_value(s: Seq<char>) -> Option<nat> {
    let d = unsigned_digits(s);
    if d.len() > 0 && all_digits(d) {
        Some(digits_value(d))
    } else {
        None
    }
}

/// The decimal text of a number is digits only, and reads back as the number.
pub proof fn lemma_decimal_value(n: nat)
    ensures
        decimal(n).len() > 0,
        all_digits(decimal(n)),
        digits_value(decimal(n)) == n,
        unsigned_value(decimal(n)) == Some(n),
    decreases n,
{
    let d = decimal(n);
    assert(is_digit(digit(n % 10)) && digit(n % 10) as nat == 48 + n % 10);
    if n < 10 {
        assert(d.drop_last() =~= Seq::empty());
        assert(digits_value(d.drop_last()) == 0);
    } else {
        lemma_decimal_value(n / 10);
        assert(d.drop_last() =~= decimal(n / 10));
        assert forall|i: int| 0 <= i < d.len() implies is_digit(#[trigger] d[i]) by {
            if i < d.len() - 1 {
                assert(is_digit(decimal(n / 10)[i]));
            }
        }
    }
    assert(is_digit(d[0]));
    assert(unsigned_digits(d) == d);
}

/// The first occurrence is where nothing before it matches.
pub proof fn lemma_first_index_at(s: Seq<char>, c: char, i: int)
    requires
        0 <= i < s.len(),
        s[i] == c,
        forall|j: int| 0 <= j < i ==> s[j] != c,
    ensures
        first_index(s, c) == Some(i),
{
    lemma_first_index(s, c);
    match first_index(s, c) {
        Some(k) => {
            if k < i {
                assert(s[k] != c);
            } else if i < k {
                assert(s[i] != c);
            }
        },
        None => {
            assert(s.contains(s[i]));
        },
    }
}

proof fn lemma_digits_grow(s: Seq<char>, i: int)
    requires
        0 <= i <= s.len(),
    ensures
        digits_value(s.subrange(0, i)) <= digits_value(s),
    decreases s.len() - i,
{
    if i == s.len() {
        assert(s.subrange(0, i) =~= s);
    } else {
        lemma_digits_grow(s, i + 1);
        assert(s.subrange(0, i + 1).drop_last() =~= s.subrange(0, i));
    }
}

/// The unsigned number that `s` writes, if there is one of at most `max`.
pub fn parse_unsigned(s: &str, max: u64) -> (r: Option<u64>)
    ensures
        r == (match unsigned_value(s@) {
            Some(n) => if n <= max {
                Some(n as u64)
            } else {
                None
            },
            None => None,
        }),
{
    let x = chars_of(s);
    let n: usize = x.len();
    let start: usize = if n > 0 && x[0] == '+' {
        1
    } else {
        0
    };
    let ghost d = unsigned_digits(s@);
    assert(d =~= s@.subrange(start as int, n as int));
    if start == n {
        return None;
    }
    let mut v: u64 = 0;
    let mut i: usize = start;
    assert(d.subrange(0, 0) =~= Seq::<char>::empty());
    while i < n
        invariant
            start <= i <= n,
            n == x@.len(),
            x@ == s@,
            d == unsigned_digits(s@),
            d == s@.subrange(start as int, n as int),
            d.len() > 0,
            forall|j: int| 0 <= j < i - start ==> is_digit(#[trigger] d[j]),
            v == digits_value(d.subrange(0, i - start)),
            v <= max,
        decreases n - i,
    {
        let c = x[i];
        assert(c == d[i - start]);
        if !('0' <= c && c <= '9') {
            return None;
        }
        let w: u128 = v as u128 * 10 + (c as u8 - 48) as u128;
        proof {
            let e = d.subrange(0, i - start + 1);
            assert(e.drop_last() =~= d.subrange(0, i - start));
            assert(e.last() == c);
            lemma_digits_grow(d, i - start + 1);
        }
        if w > max as u128 {
            return None;
        }
        v = w as u64;
        i = i + 1;
    }
    assert(d.subrange(0, n - start) =~= d);
    Some(v)
}

/// A sign that may be missing.
pub open spec fn drop_sign(s: Seq<char>) -> Seq<char> {
    if s.len() > 0 && (s[0] == '+' || s[0] == '-') {
        s.drop_first()
    } else {
        s
    }
}

/// Digits with at most one point among them, and at least one digit.
pub open spec fn is_mantissa(s: Seq<char>) -> bool {
    ||| s.len() > 0 && all_digits(s)
    ||| exists|p: int| #[trigger] is_point(s, p)
}

/// The only non-digit of `s` is the point at `p`.
pub open spec fn is_point(s: Seq<char>, p: int) -> bool {
    &&& 0 <= p < s.len()
    &&& s.len() > 1
    &&& s[p] == '.'
    &&& forall|i: int| 0 <= i < s.len() && i != p ==> is_digit(#[trigger] s[i])
}

/// A whole decimal exponent: an optional sign, then one or more digits.
pub open spec fn is_exponent(s: Seq<char>) -> bool {
    drop_sign(s).len() > 0 && all_digits(drop_sign(s))
}

/// `s` splits at the exponent letter at `p`.
pub open spec fn is_scientific(s: Seq<char>, p: int) -> bool {
    &&& 0 <= p < s.len()
    &&& lower_char(s[p]) == 'e'
    &&& is_mantissa(s.subrange(0, p))
    &&& is_exponent(s.subrange(p + 1, s.len() as int))
}

/// True if `s` writes a floating-point number: an optional sign, then `inf`,
/// `infinity` or `nan` in any letter case, or digits with an optional point
/// and an optional exponent.
pub open spec fn is_number_text(s: Seq<char>) -> bool {
    let u = drop_sign(s);
    ||| lower(u) == "inf"@
    ||| lower(u) == "infinity"@
    ||| lower(u) == "nan"@
    ||| is_mantissa(u)
    ||| exists|p: int| #[trigger] is_scientific(u, p)
}

fn digits_in(x: &Vec<char>, from: usize, to: usize) -> (r: bool)
    requires
        from <= to <= x@.len(),
    ensures
        r == all_digits(x@.subrange(from as int, to as int)),
{
    let mut i: usize = from;
    while i < to
        invariant
            from <= i <= to <= x@.len(),
            forall|j: int| from <= j < i ==> is_digit(#[trigger] x@[j]),
        decreases to - i,
    {
        let c = x[i];
        if !('0' <= c && c <= '9') {
            assert(!is_digit(x@.subrange(from as int, to as int)[i - from]));
            return false;
        }
        i = i + 1;
    }
    assert forall|j: int| 0 <= j < to - from implies is_digit(
        #[trigger] x@.subrange(from as int, to as int)[j],
    ) by {
        assert(is_digit(x@[from + j]));
    }
    true
}

fn mantissa_in(x: &Vec<char>, from: usize, to: usize) -> (r: bool)
    requires
        from <= to <= x@.len(),
    ensures
        r == is_mantissa(x@.subrange(from as int, to as int)),
{
    let ghost s = x@.subrange(from as int, to as int);
    let mut i: usize = from;
    while i < to
        invariant
            from <= i <= to <= x@.len(),
            s == x@.subrange(from as int, to as int),
            forall|j: int| 0 <= j < i - from ==> is_digit(#[trigger] s[j]),
        decreases to - i,
    {
        let c = x[i];
        assert(s[i - from] == c);
        if c == '.' {
            let rest = digits_in(x, i + 1, to);
            let ghost t = x@.subrange(i + 1, to as int);
            proof {
                let p = i - from;
                if rest {
                    assert forall|j: int| 0 <= j < s.len() && j != p implies is_digit(
                        #[trigger] s[j],
                    ) by {
                        if j > p {
                            assert(is_digit(t[j - p - 1]));
                        }
                    }
                    if to - from > 1 {
                        assert(is_point(s, p));
                    } else {
                        assert(!is_digit(s[0]));
                        assert forall|q: int| !(#[trigger] is_point(s, q)) by {}
                    }
                } else {
                    let k = choose|k: int| 0 <= k < t.len() && !is_digit(#[trigger] t[k]);
                    assert(s[p + 1 + k] == t[k]);
                    assert(!is_digit(s[p]));
                    assert forall|q: int| !(#[trigger] is_point(s, q)) by {
                        if is_point(s, q) {
                            if q != p {
                                assert(is_digit(s[p]));
                            } else {
                                assert(is_digit(s[p + 1 + k]));
                            }
                        }
                    }
                }
            }
            return rest && to - from > 1;
        }
        if !('0' <= c && c <= '9') {
            proof {
                let p = i - from;
                assert(!is_digit(s[p]));
                assert forall|q: int| !(#[trigger] is_point(s, q)) by {
                    if is_point(s, q) && q != p {
                        assert(is_digit(s[p]));
                    }
                }
            }
            return false;
        }
        i = i + 1;
    }
    proof {
        assert forall|q: int| !(#[trigger] is_point(s, q)) by {
            if is_point(s, q) {
                assert(is_digit(s[q]));
            }
        }
    }
    to > from
}

fn exponent_in(x: &Vec<char>, from: usize, to: usize) -> (r: bool)
    requires
        from <= to <= x@.len(),
    ensures
        r == is_exponent(x@.subrange(from as int, to as int)),
{
    let ghost s = x@.subrange(from as int, to as int);
    if from < to && (x[from] == '+' || x[from] == '-') {
        assert(drop_sign(s) =~= x@.subrange(from + 1, to as int));
        to > from + 1 && digits_in(x, from + 1, to)
    } else {
        assert(drop_sign(s) =~= s);
        to > from && digits_in(x, from, to)
    }
}

/// True if `s` writes a floating-point number.
pub fn writes_number(s: &str) -> (r: bool)
    ensures
        r == is_number_text(s@),
{
    let x = chars_of(s);
    let n: usize = x.len();
    let from: usize = if n > 0 && (x[0] == '+' || x[0] == '-') {
        1
    } else {
        0
    };
    let ghost u = drop_sign(s@);
    assert(u =~= x@.subrange(from as int, n as int));
    let l = ascii_lower(s.substring_char(from, n));
    if same_text(l.as_str(), "inf") || same_text(l.as_str(), "infinity") || same_text(
        l.as_str(),
        "nan",
    ) {
        return true;
    }
    if mantissa_in(&x, from, n) {
        return true;
    }
    let mut i: usize = from;
    while i < n
        invariant
            from <= i <= n,
            n == x@.len(),
            u == x@.subrange(from as int, n as int),
            u == drop_sign(s@),
            forall|p: int| 0 <= p < i - from ==> !(#[trigger] is_scientific(u, p)),
        decreases n - i,
    {
        let c = x[i];
        assert(u[i - from] == c);
        assert(u.subrange(0, i - from) =~= x@.subrange(from as int, i as int));
        assert(u.subrange(i - from + 1, u.len() as int) =~= x@.subrange(i + 1, n as int));
        if (c == 'e' || c == 'E') && mantissa_in(&x, from, i) && exponent_in(&x, i + 1, n) {
            assert(is_scientific(u, i - from));
            return true;
        }
        i = i + 1;
    }
    assert forall|p: int| !(#[trigger] is_scientific(u, p)) by {}
    false
}

// ---- lists of texts ----

/// The texts of `parts` in order, with `sep` between neighbours.
pub open spec fn joined(parts: Seq<Seq<char>>, sep: Seq<char>) -> Seq<char>
    decreases parts.len(),
{
    if parts.len() == 0 {
        Seq::empty()
    } else if parts.len() == 1 {
        parts[0]
    } else {
        joined(parts.drop_last(), sep) + sep + parts.last()
    }
}

/// The texts of `parts` in order, with `sep` between neighbours.
pub fn join(parts: &Vec<String>, sep: &str) -> (r: String)
    ensures
        r@ == joined(texts(parts@), sep@),
{
    let mut r = String::new();
    let mut i: usize = 0;
    let ghost t = texts(parts@);
    while i < parts.len()
        invariant
            i <= parts@.len(),
            t == texts(parts@),
            r@ == joined(t.subrange(0, i as int), sep@),
        decreases parts@.len() - i,
    {
        if i > 0 {
            r.append(sep);
        }
        r.append(parts[i].as_str());
        proof {
            let u = t.subrange(0, i + 1);
            assert(u.drop_last() =~= t.subrange(0, i as int));
            assert(u.last() == parts@[i as int]@);
            assert(r@ =~= joined(u, sep@));
        }
        i = i + 1;
    }
    assert(t.subrange(0, parts@.len() as int) =~= t);
    r
}

/// The order of texts: by the first character that differs, a proper prefix
/// first. On UTF-8 this is the order of the bytes.
pub open spec fn less(a: Seq<char>, b: Seq<char>) -> bool
    decreases a.len(),
{
    if b.len() == 0 {
        false
    } else if a.len() == 0 {
        true
    } else if a[0] == b[0] {
        less(a.drop_first(), b.drop_first())
    } else {
        a[0] < b[0]
    }
}

/// The order of texts is transitive.
pub proof fn lemma_less_transitive(a: Seq<char>, b: Seq<char>, c: Seq<char>)
    requires
        less(a, b),
        less(b, c),
    ensures
        less(a, c),
    decreases a.len(),
{
    if a.len() > 0 && a[0] == b[0] && b[0] == c[0] {
        lemma_less_transitive(a.drop_first(), b.drop_first(), c.drop_first());
    }
}

/// Of two different texts one comes before the other.
pub proof fn lemma_less_total(a: Seq<char>, b: Seq<char>)
    requires
        a != b,
    ensures
        less(a, b) || less(b, a),
    decreases a.len(),
{
    if a.len() > 0 && b.len() > 0 && a[0] == b[0] {
        if a.drop_first() == b.drop_first() {
            assert(a =~= seq![a[0]] + a.drop_first());
            assert(b =~= seq![b[0]] + b.drop_first());
        }
        lemma_less_total(a.drop_first(), b.drop_first());
    } else if a.len() == 0 && b.len() == 0 {
        assert(a =~= b);
    }
}

/// True if `a` comes before `b`.
pub fn comes_before(a: &str, b: &str) -> (r: bool)
    ensures
        r == less(a@, b@),
{
    let x = chars_of(a);
    let y = chars_of(b);
    let mut i: usize = 0;
    assert(x@.subrange(0, x@.len() as int) =~= x@);
    assert(y@.subrange(0, y@.len() as int) =~= y@);
    while i < x.len() && i < y.len() && x[i] == y[i]
        invariant
            i <= x@.len(),
            i <= y@.len(),
            x@ == a@,
            y@ == b@,
            less(a@, b@) == less(
                x@.subrange(i as int, x@.len() as int),
                y@.subrange(i as int, y@.len() as int),
            ),
        decreases x@.len() - i,
    {
        assert(x@.subrange(i as int, x@.len() as int).drop_first() =~= x@.subrange(
            i + 1,
            x@.len() as int,
        ));
        assert(y@.subrange(i as int, y@.len() as int).drop_first() =~= y@.subrange(
            i + 1,
            y@.len() as int,
        ));
        i = i + 1;
    }
    if i == y.len() {
        false
    } else if i == x.len() {
        true
    } else {
        x[i] < y[i]
    }
}

// ---- laws of texts ----

/// Lower case changes the twenty-six capital letters and nothing else.
pub proof fn law_lower_case_changes_capitals_only(s: Seq<char>)
    ensures
        lower("ABCDEFGHIJKLMNOPQRSTUVWXYZ"@) == "abcdefghijklmnopqrstuvwxyz"@,
        lower(s).len() == s.len(),
        forall|i: int|
            0 <= i < s.len() && !(65 <= s[i] as u32 && s[i] as u32 <= 90) ==> #[trigger] lower(s)[i]
                == s[i],
        forall|i: int|
            0 <= i < s.len() && 65 <= s[i] as u32 && s[i] as u32 <= 90 ==> #[trigger] lower(
                s,
            )[i] as u32 == s[i] as u32 + 32,
        lower(lower(s)) == lower(s),
{
    reveal_strlit("ABCDEFGHIJKLMNOPQRSTUVWXYZ");
    reveal_strlit("abcdefghijklmnopqrstuvwxyz");
    assert(lower("ABCDEFGHIJKLMNOPQRSTUVWXYZ"@) =~= "abcdefghijklmnopqrstuvwxyz"@);
    assert(lower(lower(s)) =~= lower(s));
}

/// The twenty-five white-space characters of Unicode, by their code points.
pub proof fn law_white_space_is_unicode_white_space(c: char)
    ensures
        is_white(c) <==> {
            let n = c as u32;
            ||| 9 <= n <= 13
            ||| n == 32
            ||| n == 133
            ||| n == 160
            ||| n == 5760
            ||| 8192 <= n <= 8202
            ||| n == 8232
            ||| n == 8233
            ||| n == 8239
            ||| n == 8287
            ||| n == 12288
        },
{
}

/// True if a text is nothing but white space.
pub open spec fn all_white(s: Seq<char>) -> bool {
    forall|i: int| 0 <= i < s.len() ==> is_white(#[trigger] s[i])
}

/// True if a text neither begins nor ends with white space.
pub open spec fn is_trim(s: Seq<char>) -> bool {
    s.len() > 0 ==> !is_white(s[0]) && !is_white(s.last())
}

proof fn lemma_trim_start(a: Seq<char>, t: Seq<char>)
    requires
        all_white(a),
        t.len() > 0 ==> !is_white(t[0]),
    ensures
        trim_start(a + t) == t,
    decreases a.len(),
{
    if a.len() == 0 {
        assert(a + t =~= t);
    } else {
        let b = a.drop_first();
        assert forall|i: int| 0 <= i < b.len() implies is_white(#[trigger] b[i]) by {
            assert(is_white(a[i + 1]));
        }
        lemma_trim_start(b, t);
        assert((a + t).drop_first() =~= b + t);
        assert(is_white(a[0]));
        assert((a + t)[0] == a[0]);
    }
}

proof fn lemma_trim_end(t: Seq<char>, b: Seq<char>)
    requires
        all_white(b),
        t.len() > 0 ==> !is_white(t.last()),
    ensures
        trim_end(t + b) == t,
    decreases b.len(),
{
    if b.len() == 0 {
        assert(t + b =~= t);
    } else {
        let c = b.drop_last();
        assert forall|i: int| 0 <= i < c.len() implies is_white(#[trigger] c[i]) by {
            assert(is_white(b[i]));
        }
        lemma_trim_end(t, c);
        assert((t + b).drop_last() =~= t + c);
        assert(is_white(b[b.len() - 1]));
        assert((t + b).last() == b.last());
    }
}

/// Trimming takes all the white space around a text, and nothing of the text.
pub proof fn law_trimming_takes_the_white_space_around(a: Seq<char>, t: Seq<char>, b: Seq<char>)
    requires
        all_white(a),
        all_white(b),
        is_trim(t),
    ensures
        trimmed(a + t + b) == t,
{
    if t.len() == 0 {
        let w = a + b;
        assert forall|i: int| 0 <= i < w.len() implies is_white(#[trigger] w[i]) by {
            if i < a.len() {
                assert(is_white(a[i]));
            } else {
                assert(is_white(b[i - a.len()]));
            }
        }
        assert(a + t + b =~= w + t);
        lemma_trim_start(w, t);
        assert(trim_end(t) == t);
    } else {
        assert(a + t + b =~= a + (t + b));
        assert((t + b)[0] == t[0]);
        lemma_trim_start(a, t + b);
        lemma_trim_end(t, b);
    }
}

/// `n` times the same character.
pub open spec fn repeated(c: char, n: nat) -> Seq<char> {
    Seq::new(n, |i: int| c)
}

/// Stripping takes every `c` from the end of a text, and nothing else.
pub proof fn law_stripping_takes_the_tail(t: Seq<char>, c: char, n: nat)
    requires
        t.len() > 0 ==> t.last() != c,
    ensures
        strip_tail(t + repeated(c, n), c) == t,
    decreases n,
{
    let s = t + repeated(c, n);
    if n == 0 {
        assert(s =~= t);
    } else {
        law_stripping_takes_the_tail(t, c, (n - 1) as nat);
        assert(s.drop_last() =~= t + repeated(c, (n - 1) as nat));
        assert(s.last() == c);
    }
}

/// A number is written in digits, without leading zeros, so that it reads back.
pub proof fn law_numbers_are_written_without_leading_zeros(n: nat)
    ensures
        decimal(n)[0] == '0' ==> n == 0,
        decimal(0) == "0"@,
        digits_value(decimal(n)) == n,
        all_digits(decimal(n)),
    decreases n,
{
    lemma_decimal_value(n);
    reveal_strlit("0");
    assert(decimal(0) =~= "0"@);
    if n >= 10 {
        law_numbers_are_written_without_leading_zeros(n / 10);
        lemma_decimal_value(n / 10);
        assert(decimal(n)[0] == decimal(n / 10)[0]);
    }
}

/// Digits are read from the left, each one tenfold the next; a sign other than one
/// leading plus, or any other character, makes a text no number.
pub proof fn law_numbers_are_read_digit_by_digit(d: Seq<char>, x: char, i: int)
    ensures
        all_digits(d) && '0' <= x <= '9' ==> unsigned_value(d.push(x)) == Some(
            digits_value(d) * 10 + (x as nat - 48) as nat,
        ),
        all_digits(d) && d.len() > 0 ==> unsigned_value(seq!['+'] + d) == unsigned_value(d),
        unsigned_value(Seq::empty()) is None,
        0 <= i < d.len() && !('0' <= d[i] <= '9') && !(i == 0 && d[i] == '+') ==> unsigned_value(
            d,
        ) is None,
        unsigned_value(seq!['+']) is None,
{
    if all_digits(d) && '0' <= x <= '9' {
        let e = d.push(x);
        assert(e.drop_last() =~= d);
        assert forall|k: int| 0 <= k < e.len() implies is_digit(#[trigger] e[k]) by {
            if k < d.len() {
                assert(is_digit(d[k]));
            }
        }
        assert(e[0] != '+') by {
            assert(is_digit(e[0]));
        }
    }
    if all_digits(d) && d.len() > 0 {
        assert(is_digit(d[0]));
        assert((seq!['+'] + d).drop_first() =~= d);
    }
    if 0 <= i < d.len() && !('0' <= d[i] <= '9') && !(i == 0 && d[i] == '+') {
        let u = unsigned_digits(d);
        if d[0] == '+' {
            assert(u[i - 1] == d[i]);
            assert(!is_digit(u[i - 1]));
        } else {
            assert(!is_digit(u[i]));
        }
    }
    assert(unsigned_digits(seq!['+']) =~= Seq::empty());
}

/// Whole and decimal numbers are numbers, with a sign or without.
pub proof fn law_decimals_write_numbers(n: nat, m: nat)
    ensures
        is_number_text(decimal(n)),
        is_number_text(seq!['-'] + decimal(n)),
        is_number_text(seq!['+'] + decimal(n)),
        is_number_text(decimal(n) + seq!['.'] + decimal(m)),
{
    let d = decimal(n);
    let e = decimal(m);
    lemma_decimal_value(n);
    lemma_decimal_value(m);
    assert(is_digit(d[0]) && is_digit(e[0]));
    assert(drop_sign(d) == d);
    assert((seq!['-'] + d).drop_first() =~= d);
    assert((seq!['+'] + d).drop_first() =~= d);
    let p = d + seq!['.'] + e;
    assert(p[0] == d[0]);
    assert(is_point(p, d.len() as int)) by {
        assert forall|k: int| 0 <= k < p.len() && k != d.len() implies is_digit(#[trigger] p[k]) by {
            if k < d.len() {
                assert(is_digit(d[k]));
            } else {
                assert(is_digit(e[k - d.len() - 1]));
            }
        }
    }
}

/// A number may have an exponent, of either letter.
pub proof fn law_exponents_write_numbers(n: nat, m: nat, letter: char)
    requires
        letter == 'e' || letter == 'E',
    ensures
        is_number_text(decimal(n) + seq![letter] + decimal(m)),
{
    let d = decimal(n);
    let e = decimal(m);
    lemma_decimal_value(n);
    lemma_decimal_value(m);
    assert(is_digit(d[0]) && is_digit(e[0]));
    let x = d + seq![letter] + e;
    assert(x[0] == d[0]);
    assert(drop_sign(x) == x);
    let k = d.len() as int;
    assert(x.subrange(0, k) =~= d);
    assert(x.subrange(k + 1, x.len() as int) =~= e);
    assert(drop_sign(e) == e);
    assert(x[k] == letter);
    assert(is_scientific(x, k));
}

/// Three words write numbers too; nothing at all writes none.
pub proof fn law_words_write_numbers()
    ensures
        is_number_text("nan"@),
        is_number_text("inf"@),
        is_number_text("infinity"@),
        !is_number_text(Seq::empty()),
{
    reveal_strlit("nan");
    reveal_strlit("inf");
    reveal_strlit("infinity");
    assert(lower("nan"@) =~= "nan"@);
    assert(lower("inf"@) =~= "inf"@);
    assert(lower("infinity"@) =~= "infinity"@);
    let z = Seq::<char>::empty();
    assert(drop_sign(z) == z);
    assert(lower(z).len() == 0);
    assert(!is_mantissa(z));
}

/// A text that writes a number and is none of the three words is made of digits, signs,
/// points and exponent letters.
pub proof fn law_number_texts_are_numbers(s: Seq<char>, i: int)
    requires
        is_number_text(s),
        0 <= i < s.len(),
        lower(drop_sign(s)) != "inf"@,
        lower(drop_sign(s)) != "infinity"@,
        lower(drop_sign(s)) != "nan"@,
    ensures
        is_digit(s[i]) || s[i] == '+' || s[i] == '-' || s[i] == '.' || s[i] == 'e' || s[i] == 'E',
{
    let u = drop_sign(s);
    let j = i - (s.len() - u.len());
    if j >= 0 {
        assert(u[j] == s[i]);
        if is_mantissa(u) {
            lemma_mantissa_chars(u, j);
        } else {
            let q = choose|q: int| #[trigger] is_scientific(u, q);
            lemma_scientific_chars(u, q, j);
        }
    }
}

proof fn lemma_scientific_chars(u: Seq<char>, q: int, j: int)
    requires
        is_scientific(u, q),
        0 <= j < u.len(),
    ensures
        is_digit(u[j]) || u[j] == '+' || u[j] == '-' || u[j] == '.' || u[j] == 'e' || u[j] == 'E',
{
    let a = u.subrange(0, q);
    let b = u.subrange(q + 1, u.len() as int);
    if j < q {
        assert(a[j] == u[j]);
        lemma_mantissa_chars(a, j);
    } else if j > q {
        assert(b[j - q - 1] == u[j]);
        let c = drop_sign(b);
        let l = j - q - 1 - (b.len() - c.len());
        if l >= 0 {
            assert(c[l] == u[j]);
            assert(is_digit(c[l]));
        }
    }
}

proof fn lemma_mantissa_chars(s: Seq<char>, i: int)
    requires
        is_mantissa(s),
        0 <= i < s.len(),
    ensures
        is_digit(s[i]) || s[i] == '.',
{
    if !all_digits(s) {
        let p = choose|p: int| #[trigger] is_point(s, p);
        assert(i == p || is_digit(s[i]));
    }
}

/// Parts are joined in their order, with the separator between neighbours and nowhere
/// else.
pub proof fn law_joining_separates_neighbours(parts: Seq<Seq<char>>, sep: Seq<char>, x: Seq<char>)
    ensures
        joined(Seq::empty(), sep) == Seq::<char>::empty(),
        joined(seq![x], sep) == x,
        parts.len() > 0 ==> joined(parts.push(x), sep) == joined(parts, sep) + sep + x,
{
    assert(parts.push(x).drop_last() =~= parts);
}

/// Texts are ordered by the code of the first character in which they differ; the
/// beginning of a text comes before it, and no text comes before itself.
pub proof fn law_texts_are_ordered_by_their_first_difference(
    p: Seq<char>,
    a: char,
    b: char,
    s: Seq<char>,
    t: Seq<char>,
)
    ensures
        !less(p, p),
        less(p, p.push(a)),
        (a as u32) < (b as u32) ==> less(p + seq![a] + s, p + seq![b] + t) && !less(
            p + seq![b] + t,
            p + seq![a] + s,
        ),
    decreases p.len(),
{
    let x = p + seq![a] + s;
    let y = p + seq![b] + t;
    if p.len() > 0 {
        let q = p.drop_first();
        law_texts_are_ordered_by_their_first_difference(q, a, b, s, t);
        assert(p.push(a).drop_first() =~= q.push(a));
        assert(x.drop_first() =~= q + seq![a] + s);
        assert(y.drop_first() =~= q + seq![b] + t);
    }
}

/// A text begins with another exactly if something can be put behind that to make it,
/// ends with it exactly if something can be put before it, and holds it if something can
/// be put on both sides.
pub proof fn law_parts_of_texts(a: Seq<char>, p: Seq<char>, b: Seq<char>, s: Seq<char>)
    ensures
        starts(p + b, p),
        ends(a + p, p),
        has_text(a + p + b, p),
        starts(s, p) ==> s == p + s.skip(p.len() as int),
        ends(s, p) ==> s == s.take(s.len() - p.len()) + p,
{
    assert((p + b).subrange(0, p.len() as int) =~= p);
    let e = a + p;
    assert(e.subrange(e.len() - p.len(), e.len() as int) =~= p);
    let h = a + p + b;
    assert(h.subrange(a.len() as int, a.len() as int + p.len()) =~= p);
    assert(stands_at(h, p, a.len() as int));
    if starts(s, p) {
        assert(s =~= s.subrange(0, p.len() as int) + s.skip(p.len() as int));
    }
    if ends(s, p) {
        assert(s =~= s.take(s.len() - p.len()) + s.subrange(s.len() - p.len(), s.len() as int));
    }
}

/// A text that holds another is what stands before it, it, and what stands behind it.
pub proof fn law_held_texts_stand_between(s: Seq<char>, p: Seq<char>)
    requires
        has_text(s, p),
    ensures
        exists|a: Seq<char>, b: Seq<char>| s == #[trigger] (a + p + b),
{
    let i = choose|i: int| stands_at(s, p, i);
    let a = s.take(i);
    let b = s.skip(i + p.len());
    assert(s =~= a + s.subrange(i, i + p.len()) + b);
    assert(s == a + p + b);
}

/// Every byte is written as two hexadecimal digits in lower case, the high one first.
pub proof fn law_bytes_are_written_in_hexadecimal(bytes: Seq<u8>, i: int)
    requires
        0 <= i < bytes.len(),
    ensures
        hex(bytes).len() == 2 * bytes.len(),
        hex(bytes)[2 * i] == "0123456789abcdef"@[bytes[i] as int / 16],
        hex(bytes)[2 * i + 1] == "0123456789abcdef"@[bytes[i] as int % 16],
{
    reveal_strlit("0123456789abcdef");
    assert((2 * i) / 2 == i && (2 * i + 1) / 2 == i);
    assert((2 * i) % 2 == 0 && (2 * i + 1) % 2 == 1);
    let h = (bytes[i] / 16) as nat;
    let l = (bytes[i] % 16) as nat;
    assert(hex_digit(h) == "0123456789abcdef"@[h as int]);
    assert(hex_digit(l) == "0123456789abcdef"@[l as int]);
}

/// A number below zero is written with a dash before its size, any other by its digits
/// alone.
pub proof fn law_signs_are_written(n: nat)
    ensures
        signed_decimal(n as int) == decimal(n),
        n > 0 ==> signed_decimal(-n) == "-"@ + decimal(n),
{
    reveal_strlit("-");
    if n > 0 {
        assert(signed_decimal(-n) =~= "-"@ + decimal(n));
    }
}

/// A sign before a text that has none changes nothing about whether it writes a number.
/// The letter case of the three words does not matter.
pub proof fn law_one_sign_may_stand_first(s: Seq<char>)
    ensures
        s.len() > 0 && s[0] != '+' && s[0] != '-' ==> (is_number_text(seq!['-'] + s)
            <==> is_number_text(s)) && (is_number_text(seq!['+'] + s) <==> is_number_text(s)),
        lower(s) == "nan"@ || lower(s) == "inf"@ || lower(s) == "infinity"@ ==> is_number_text(s),
{
    assert((seq!['-'] + s).drop_first() =~= s);
    assert((seq!['+'] + s).drop_first() =~= s);
    reveal_strlit("nan");
    reveal_strlit("inf");
    reveal_strlit("infinity");
    if lower(s) == "nan"@ || lower(s) == "inf"@ || lower(s) == "infinity"@ {
        assert("nan"@.len() == 3 && "inf"@.len() == 3 && "infinity"@.len() == 8);
        assert(lower(s).len() == s.len());
        assert(lower(s)[0] == lower_char(s[0]));
        assert(drop_sign(s) == s);
    }
}

/// The point of a number may stand before its digits or behind them, but not alone.
pub proof fn law_points_may_stand_at_either_end(n: nat)
    ensures
        is_number_text(seq!['.'] + decimal(n)),
        is_number_text(decimal(n) + seq!['.']),
        !is_number_text(seq!['.']),
{
    let d = decimal(n);
    lemma_decimal_value(n);
    assert(is_digit(d[0]));
    let a = seq!['.'] + d;
    let b = d + seq!['.'];
    assert(is_point(a, 0)) by {
        assert forall|k: int| 0 <= k < a.len() && k != 0 implies is_digit(#[trigger] a[k]) by {
            assert(is_digit(d[k - 1]));
        }
    }
    assert(b[0] == d[0]);
    assert(is_point(b, d.len() as int)) by {
        assert forall|k: int| 0 <= k < b.len() && k != d.len() implies is_digit(
            #[trigger] b[k],
        ) by {
            assert(is_digit(d[k]));
        }
    }
    let p = seq!['.'];
    assert(drop_sign(p) == p);
    reveal_strlit("nan");
    reveal_strlit("inf");
    reveal_strlit("infinity");
    assert(lower(p).len() == 1);
    assert(!is_digit(p[0]));
    assert(!is_mantissa(p));
    assert forall|q: int| !(#[trigger] is_scientific(p, q)) by {
        if is_scientific(p, q) {
            assert(p[q] == '.');
        }
    }
}

/// An exponent is a whole number, with a sign or without; a letter without one behind it
/// writes no number.
pub proof fn law_exponents_are_whole_numbers(n: nat, m: nat, sign: char, letter: char)
    requires
        letter == 'e' || letter == 'E',
        sign == '+' || sign == '-',
    ensures
        is_number_text(decimal(n) + seq![letter] + (seq![sign] + decimal(m))),
        !is_number_text(decimal(n) + seq![letter]),
{
    let d = decimal(n);
    let e = decimal(m);
    lemma_decimal_value(n);
    lemma_decimal_value(m);
    assert(is_digit(d[0]) && is_digit(e[0]));
    let k = d.len() as int;
    let tail = seq![sign] + e;
    let x = d + seq![letter] + tail;
    assert(x[0] == d[0]);
    assert(drop_sign(x) == x);
    assert(x.subrange(0, k) =~= d);
    assert(x.subrange(k + 1, x.len() as int) =~= tail);
    assert(tail[0] == sign);
    assert(drop_sign(tail) =~= e);
    assert(is_exponent(tail));
    assert(x[k] == letter);
    assert(is_scientific(x, k));
    let y = d + seq![letter];
    assert(y[0] == d[0]);
    assert(drop_sign(y) == y);
    lemma_bare_exponent(d, y, letter);
}

proof fn lemma_bare_exponent(d: Seq<char>, y: Seq<char>, letter: char)
    requires
        d.len() > 0,
        all_digits(d),
        letter == 'e' || letter == 'E',
        y == d + seq![letter],
    ensures
        !is_number_text(y),
{
    let k = d.len() as int;
    assert(is_digit(d[0]));
    assert(y[0] == d[0]);
    reveal_strlit("nan");
    reveal_strlit("inf");
    reveal_strlit("infinity");
    assert(lower(y)[0] == lower_char(y[0]));
    assert(y[k] == letter && !is_digit(y[k]));
    assert(!all_digits(y));
    assert forall|p: int| !(#[trigger] is_point(y, p)) by {
        if is_point(y, p) {
            assert(p == k || is_digit(y[k]));
        }
    }
    assert forall|q: int| !(#[trigger] is_scientific(y, q)) by {
        if is_scientific(y, q) {
            if q < k {
                assert(y[q] == d[q]);
                assert(is_digit(d[q]));
            } else {
                let rest = y.subrange(q + 1, y.len() as int);
                assert(rest.len() == 0);
                assert(drop_sign(rest).len() == 0);
            }
        }
    }
}

} // verus!
