//! Text: joining, trimming, searching, and the printed forms of numbers.
use vstd::prelude::*;

use crate::num::Num;
#[allow(unused_imports)]
use crate::num::UNIT;

verus! {

/// Text as the contracts see it.
pub type Str = Seq<char>;

/// `String::push`: puts one character behind the text.
pub assume_specification[ String::push ](s: &mut String, ch: char)
    ensures
        final(s)@ == old(s)@.push(ch),
;

/// The quoted form of a text: in double quotes, with the escapes that Rust's
/// `{:?}` writes.
pub uninterp spec fn quoted(s: Str) -> Str;

/// `format!("{:?}", s)` on a text.  Claims that the result is a function of the
/// text alone; which characters it escapes is left unsaid.
#[verifier::external_body]
pub(crate) fn quote(s: &str) -> (r: String)
    ensures
        r@ == quoted(s@),
{
    format!("{:?}", s)
}

/// Whether two texts are the same.
pub fn same(a: &str, b: &str) -> (r: bool)
    ensures
        r == (a@ == b@),
{
    a.to_owned() == b.to_owned()
}

/// The texts one behind the other.
pub fn cat2(a: &str, b: &str) -> (r: String)
    ensures
        r@ == a@ + b@,
{
    let mut out = a.to_owned();
    out.append(b);
    out
}

/// The texts one behind the other.
pub fn cat3(a: &str, b: &str, c: &str) -> (r: String)
    ensures
        r@ == a@ + b@ + c@,
{
    let mut out = cat2(a, b);
    out.append(c);
    out
}

/// The texts one behind the other.
pub fn cat4(a: &str, b: &str, c: &str, d: &str) -> (r: String)
    ensures
        r@ == a@ + b@ + c@ + d@,
{
    let mut out = cat3(a, b, c);
    out.append(d);
    out
}

/// The texts one behind the other.
pub fn cat5(a: &str, b: &str, c: &str, d: &str, e: &str) -> (r: String)
    ensures
        r@ == a@ + b@ + c@ + d@ + e@,
{
    let mut out = cat4(a, b, c, d);
    out.append(e);
    out
}

/// The texts one behind the other.
pub fn cat6(a: &str, b: &str, c: &str, d: &str, e: &str, f: &str) -> (r: String)
    ensures
        r@ == a@ + b@ + c@ + d@ + e@ + f@,
{
    let mut out = cat5(a, b, c, d, e);
    out.append(f);
    out
}

/// The texts one behind the other.
pub fn cat7(a: &str, b: &str, c: &str, d: &str, e: &str, f: &str, g: &str) -> (r: String)
    ensures
        r@ == a@ + b@ + c@ + d@ + e@ + f@ + g@,
{
    let mut out = cat6(a, b, c, d, e, f);
    out.append(g);
    out
}

/// The texts one behind the other.
pub fn cat8(a: &str, b: &str, c: &str, d: &str, e: &str, f: &str, g: &str, h: &str) -> (r: String)
    ensures
        r@ == a@ + b@ + c@ + d@ + e@ + f@ + g@ + h@,
{
    let mut out = cat7(a, b, c, d, e, f, g);
    out.append(h);
    out
}

/// The texts one behind the other.
pub fn cat9(a: &str, b: &str, c: &str, d: &str, e: &str, f: &str, g: &str, h: &str, i: &str) -> (r: String)
    ensures
        r@ == a@ + b@ + c@ + d@ + e@ + f@ + g@ + h@ + i@,
{
    let mut out = cat8(a, b, c, d, e, f, g, h);
    out.append(i);
    out
}

/// The texts one behind the other.
pub fn cat10(a: &str, b: &str, c: &str, d: &str, e: &str, f: &str, g: &str, h: &str, i: &str, j: &str) -> (r: String)
    ensures
        r@ == a@ + b@ + c@ + d@ + e@ + f@ + g@ + h@ + i@ + j@,
{
    let mut out = cat9(a, b, c, d, e, f, g, h, i);
    out.append(j);
    out
}

/// The texts one behind the other.
pub fn cat11(a: &str, b: &str, c: &str, d: &str, e: &str, f: &str, g: &str, h: &str, i: &str, j: &str, k: &str) -> (r: String)
    ensures
        r@ == a@ + b@ + c@ + d@ + e@ + f@ + g@ + h@ + i@ + j@ + k@,
{
    let mut out = cat10(a, b, c, d, e, f, g, h, i, j);
    out.append(k);
    out
}

/// The texts one behind the other.
pub fn cat12(a: &str, b: &str, c: &str, d: &str, e: &str, f: &str, g: &str, h: &str, i: &str, j: &str, k: &str, l: &str) -> (r: String)
    ensures
        r@ == a@ + b@ + c@ + d@ + e@ + f@ + g@ + h@ + i@ + j@ + k@ + l@,
{
    let mut out = cat11(a, b, c, d, e, f, g, h, i, j, k);
    out.append(l);
    out
}

/// The texts one behind the other.
pub fn cat13(a: &str, b: &str, c: &str, d: &str, e: &str, f: &str, g: &str, h: &str, i: &str, j: &str, k: &str, l: &str, m: &str) -> (r: String)
    ensures
        r@ == a@ + b@ + c@ + d@ + e@ + f@ + g@ + h@ + i@ + j@ + k@ + l@ + m@,
{
    let mut out = cat12(a, b, c, d, e, f, g, h, i, j, k, l);
    out.append(m);
    out
}

/// The characters of a text.
pub fn chars_of(s: &str) -> (r: Vec<char>)
    ensures
        r@ == s@,
{
    let mut out: Vec<char> = Vec::new();
    let n: usize = s.unicode_len();
    let mut i: usize = 0;
    while i < n
        invariant
            i <= n,
            n == s@.len(),
            out@ == s@.take(i as int),
        decreases n - i,
    {
        out.push(s.get_char(i));
        assert(s@.take(i + 1) == s@.take(i as int).push(s@[i as int]));
        i = i + 1;
    }
    assert(s@.take(n as int) == s@);
    out
}

/// The text of the given characters.
pub fn of_chars(v: &Vec<char>) -> (r: String)
    ensures
        r@ == v@,
{
    let mut out = String::new();
    let mut i: usize = 0;
    while i < v.len()
        invariant
            i <= v@.len(),
            out@ == v@.take(i as int),
        decreases v@.len() - i,
    {
        out.push(v[i]);
        assert(v@.take(i + 1) == v@.take(i as int).push(v@[i as int]));
        i = i + 1;
    }
    assert(v@.take(v@.len() as int) == v@);
    out
}

/// Whether the character has Unicode's `White_Space` property.
pub open spec fn is_white(c: char) -> bool {
    let u = c as int;
    ||| 9 <= u <= 13
    ||| u == 0x20
    ||| u == 0x85
    ||| u == 0xA0
    ||| u == 0x1680
    ||| 0x2000 <= u <= 0x200A
    ||| u == 0x2028
    ||| u == 0x2029
    ||| u == 0x202F
    ||| u == 0x205F
    ||| u == 0x3000
}

fn white(c: char) -> (r: bool)
    ensures
        r == is_white(c),
{
    let u: u32 = c as u32;
    (9 <= u && u <= 13) || u == 0x20 || u == 0x85 || u == 0xA0 || u == 0x1680 || (0x2000 <= u && u
        <= 0x200A) || u == 0x2028 || u == 0x2029 || u == 0x202F || u == 0x205F || u == 0x3000
}

/// The text without leading white space.
pub open spec fn trimmed_start(s: Str) -> Str
    decreases s.len(),
{
    if s.len() > 0 && is_white(s[0]) {
        trimmed_start(s.drop_first())
    } else {
        s
    }
}

/// The text without trailing white space.
pub open spec fn trimmed_end(s: Str) -> Str
    decreases s.len(),
{
    if s.len() > 0 && is_white(s.last()) {
        trimmed_end(s.drop_last())
    } else {
        s
    }
}

/// The text without white space at either end.
pub open spec fn trimmed(s: Str) -> Str {
    trimmed_end(trimmed_start(s))
}

/// The text without white space at either end.
pub fn trim(s: &str) -> (r: String)
    ensures
        r@ == trimmed(s@),
{
    let n: usize = s.unicode_len();
    let mut lo: usize = 0;
    assert(s@.skip(0) == s@);
    while lo < n && white(s.get_char(lo))
        invariant
            lo <= n,
            n == s@.len(),
            trimmed_start(s@) == trimmed_start(s@.skip(lo as int)),
        decreases n - lo,
    {
        assert(s@.skip(lo as int).drop_first() == s@.skip(lo + 1));
        lo = lo + 1;
    }
    let ghost kept = s@.skip(lo as int);
    assert(trimmed_start(s@) == kept);
    let mut hi: usize = n;
    assert(s@.subrange(lo as int, n as int) == kept);
    while hi > lo && white(s.get_char(hi - 1))
        invariant
            lo <= hi <= n,
            n == s@.len(),
            trimmed_end(kept) == trimmed_end(s@.subrange(lo as int, hi as int)),
        decreases hi - lo,
    {
        assert(s@.subrange(lo as int, hi as int).drop_last() == s@.subrange(lo as int, hi - 1));
        hi = hi - 1;
    }
    s.substring_char(lo, hi).to_owned()
}

/// Whether nothing but white space is in the text.
pub open spec fn is_blank(s: Str) -> bool {
    trimmed(s).len() == 0
}

/// Whether nothing but white space is in the text.
pub fn blank(s: &str) -> (r: bool)
    ensures
        r == is_blank(s@),
{
    trim(s).as_str().is_empty()
}

/// The lower-case form of an ASCII capital; any other character unchanged.
pub open spec fn lower_char(c: char) -> char {
    if 65 <= c as int <= 90 {
        (c as int + 32) as char
    } else {
        c
    }
}

/// The text with ASCII capitals in lower case.
pub open spec fn lowered(s: Str) -> Str {
    s.map_values(|c: char| lower_char(c))
}

fn lower_one(c: char) -> (r: char)
    ensures
        r == lower_char(c),
{
    let u: u32 = c as u32;
    if 65 <= u && u <= 90 {
        ((u + 32) as u8) as char
    } else {
        c
    }
}

/// The text with ASCII capitals in lower case.
pub fn lower(s: &str) -> (r: String)
    ensures
        r@ == lowered(s@),
{
    let mut out = String::new();
    let n: usize = s.unicode_len();
    let mut i: usize = 0;
    while i < n
        invariant
            i <= n,
            n == s@.len(),
            out@ == lowered(s@).take(i as int),
        decreases n - i,
    {
        out.push(lower_one(s.get_char(i)));
        assert(lowered(s@).take(i + 1) == lowered(s@).take(i as int).push(lowered(s@)[i as int]));
        i = i + 1;
    }
    assert(lowered(s@).take(n as int) == lowered(s@));
    out
}

/// Whether `s` begins with `p`.
pub open spec fn begins_with(s: Str, p: Str) -> bool {
    s.len() >= p.len() && s.take(p.len() as int) == p
}

/// Whether `s` begins with `p`.
pub fn begins(s: &str, p: &str) -> (r: bool)
    ensures
        r == begins_with(s@, p@),
{
    let n: usize = p.unicode_len();
    s.unicode_len() >= n && same(s.substring_char(0, n), p)
}

/// Whether the text holds the character.
pub fn holds_char(s: &str, c: char) -> (r: bool)
    ensures
        r == s@.contains(c),
{
    let n: usize = s.unicode_len();
    let mut i: usize = 0;
    while i < n
        invariant
            i <= n,
            n == s@.len(),
            forall|j: int| 0 <= j < i ==> s@[j] != c,
        decreases n - i,
    {
        if s.get_char(i) == c {
            return true;
        }
        i = i + 1;
    }
    false
}

/// The texts of a list.
pub open spec fn strs(v: Seq<String>) -> Seq<Str> {
    v.map_values(|s: String| s@)
}

/// Whether the list holds the text.
pub fn holds(v: &Vec<String>, s: &str) -> (r: bool)
    ensures
        r == strs(v@).contains(s@),
{
    let mut i: usize = 0;
    while i < v.len()
        invariant
            i <= v@.len(),
            forall|j: int| 0 <= j < i ==> v@[j]@ != s@,
        decreases v@.len() - i,
    {
        if same(v[i].as_str(), s) {
            assert(strs(v@)[i as int] == s@);
            return true;
        }
        i = i + 1;
    }
    assert(forall|j: int| 0 <= j < strs(v@).len() ==> strs(v@)[j] != s@);
    false
}

/// The texts with `sep` between each two.
pub open spec fn joined(v: Seq<Str>, sep: Str) -> Str
    decreases v.len(),
{
    if v.len() == 0 {
        Seq::empty()
    } else if v.len() == 1 {
        v[0]
    } else {
        joined(v.drop_last(), sep) + sep + v.last()
    }
}

/// The texts with `sep` between each two.
pub fn join(v: &Vec<String>, sep: &str) -> (r: String)
    ensures
        r@ == joined(strs(v@), sep@),
{
    let mut out = String::new();
    let mut i: usize = 0;
    while i < v.len()
        invariant
            i <= v@.len(),
            out@ == joined(strs(v@).take(i as int), sep@),
        decreases v@.len() - i,
    {
        let ghost all = strs(v@);
        assert(all.take(i + 1).drop_last() == all.take(i as int));
        assert(all.take(i + 1).last() == v@[i as int]@);
        if i > 0 {
            out.append(sep);
        }
        out.append(v[i].as_str());
        assert(i == 0 ==> out@ == v@[0]@);
        i = i + 1;
    }
    assert(strs(v@).take(v@.len() as int) == strs(v@));
    out
}

/// Where `::` first stands in the text, counted from position `at`.
pub open spec fn colons_from(s: Str, at: int) -> Option<int>
    decreases s.len() - at,
{
    if at < 0 || at + 1 >= s.len() {
        None
    } else if s[at] == ':' && s[at + 1] == ':' {
        Some(at)
    } else {
        colons_from(s, at + 1)
    }
}

/// What stands before and behind the first `::`.
pub open spec fn split_colons(s: Str) -> Option<(Str, Str)> {
    match colons_from(s, 0) {
        Some(k) => Some((s.take(k), s.skip(k + 2))),
        None => None,
    }
}

proof fn lemma_colons_range(s: Str, at: int)
    ensures
        colons_from(s, at) matches Some(k) ==> at <= k && k + 2 <= s.len(),
    decreases s.len() - at,
{
    if !(at < 0 || at + 1 >= s.len() || (s[at] == ':' && s[at + 1] == ':')) {
        lemma_colons_range(s, at + 1);
    }
}

/// What stands before and behind the first `::`.
pub fn split_at_colons(s: &str) -> (r: Option<(String, String)>)
    ensures
        match r {
            Some(p) => split_colons(s@) == Some((p.0@, p.1@)),
            None => split_colons(s@) is None,
        },
{
    let n: usize = s.unicode_len();
    let mut i: usize = 0;
    while i < n && n - i > 1
        invariant
            i <= n,
            n == s@.len(),
            colons_from(s@, 0) == colons_from(s@, i as int),
        decreases n - i,
    {
        if s.get_char(i) == ':' && s.get_char(i + 1) == ':' {
            assert(s@.subrange(0, i as int) == s@.take(i as int));
            assert(s@.subrange(i + 2, n as int) == s@.skip(i + 2));
            return Some(
                (s.substring_char(0, i).to_owned(), s.substring_char(i + 2, n).to_owned()),
            );
        }
        i = i + 1;
    }
    None
}

/// The character of a decimal digit.
pub open spec fn digit(d: int) -> char {
    (48 + d) as char
}

fn digit_char(d: u8) -> (r: char)
    requires
        d < 10,
    ensures
        r == digit(d as int),
{
    (48 + d) as char
}

/// The decimal form of a natural number.
pub open spec fn decimal(n: nat) -> Str
    decreases n,
{
    if n < 10 {
        seq![digit(n as int)]
    } else {
        decimal(n / 10).push(digit((n % 10) as int))
    }
}

/// The decimal form of a natural number.
pub fn count(n: u128) -> (r: String)
    ensures
        r@ == decimal(n as nat),
    decreases n,
{
    if n < 10 {
        let mut out = String::new();
        out.push(digit_char(n as u8));
        assert(out@ == seq![digit(n as int)]);
        out
    } else {
        let mut out = count(n / 10);
        out.push(digit_char((n % 10) as u8));
        out
    }
}

/// The decimal form of an index or a length.
pub fn count_usize(n: usize) -> (r: String)
    ensures
        r@ == decimal(n as nat),
{
    count(n as u128)
}

/// The last `places` decimal digits of a number, with leading zeros.
pub open spec fn padded(v: nat, places: nat) -> Str
    decreases places,
{
    if places == 0 {
        Seq::empty()
    } else {
        padded(v / 10, (places - 1) as nat).push(digit((v % 10) as int))
    }
}

fn pad(v: u128, places: u32) -> (r: String)
    ensures
        r@ == padded(v as nat, places as nat),
    decreases places,
{
    if places == 0 {
        String::new()
    } else {
        let mut out = pad(v / 10, places - 1);
        out.push(digit_char((v % 10) as u8));
        out
    }
}

/// Ten to the power of `k`.
pub open spec fn ten_to(k: nat) -> nat
    decreases k,
{
    if k == 0 {
        1
    } else {
        10 * ten_to((k - 1) as nat)
    }
}

proof fn lemma_ten_to(k: nat)
    requires
        k <= 15,
    ensures
        1 <= ten_to(k) <= 1_000_000_000_000_000,
{
    reveal_with_fuel(ten_to, 16);
}

fn ten_power(k: u32) -> (r: u128)
    requires
        k <= 15,
    ensures
        r == ten_to(k as nat),
        1 <= r <= 1_000_000_000_000_000,
{
    let mut out: u128 = 1;
    let mut i: u32 = 0;
    while i < k
        invariant
            i <= k <= 15,
            out == ten_to(i as nat),
        decreases k - i,
    {
        proof {
            lemma_ten_to(i as nat);
        }
        out = out * 10;
        i = i + 1;
    }
    proof {
        lemma_ten_to(k as nat);
    }
    out
}

/// `a / u` rounded to the nearest whole number, halves to the even one.
pub open spec fn rounded(a: nat, u: nat) -> nat {
    let q = a / u;
    let rest = a % u;
    if 2 * rest > u || (2 * rest == u && q % 2 == 1) {
        q + 1
    } else {
        q
    }
}

/// The size of a count.
pub open spec fn magnitude(n: i128) -> nat {
    if n < 0 {
        (-n) as nat
    } else {
        n as nat
    }
}

fn size_of_count(n: i128) -> (r: u128)
    ensures
        r == magnitude(n),
{
    if n < 0 {
        (-(n + 1)) as u128 + 1
    } else {
        n as u128
    }
}

/// The sign in front of a negative number.
pub open spec fn minus_sign(n: i128) -> Str {
    if n < 0 {
        "-"@
    } else {
        ""@
    }
}

fn sign_text(n: i128) -> (r: &'static str)
    ensures
        r@ == minus_sign(n),
{
    if n < 0 {
        "-"
    } else {
        ""
    }
}

/// The number with exactly `places` digits behind the point.
pub open spec fn fixed(x: Num, places: nat) -> Str {
    match x {
        Num::Nan => "NaN"@,
        Num::PosInf => "inf"@,
        Num::NegInf => "-inf"@,
        Num::Fin(n) => {
            let q = rounded(magnitude(n), ten_to((15 - places) as nat));
            minus_sign(n) + decimal(q / ten_to(places)) + "."@ + padded(q % ten_to(places), places)
        },
    }
}

/// The number with exactly `places` digits behind the point.
pub fn to_fixed(x: Num, places: u32) -> (r: String)
    requires
        1 <= places <= 15,
    ensures
        r@ == fixed(x, places as nat),
{
    match x {
        Num::Nan => "NaN".to_owned(),
        Num::PosInf => "inf".to_owned(),
        Num::NegInf => "-inf".to_owned(),
        Num::Fin(n) => {
            let a: u128 = size_of_count(n);
            let u: u128 = ten_power(15 - places);
            let mut q: u128 = a / u;
            let rest: u128 = a % u;
            if 2 * rest > u || (2 * rest == u && q % 2 == 1) {
                q = q + 1;
            }
            let p: u128 = ten_power(places);
            cat4(sign_text(n), count(q / p).as_str(), ".", pad(q % p, places).as_str())
        },
    }
}

/// The number with three digits behind the point.
pub open spec fn milli3(x: Num) -> Str {
    fixed(x, 3)
}

/// The number with three digits behind the point.
pub fn fix3(x: Num) -> (r: String)
    ensures
        r@ == milli3(x),
{
    to_fixed(x, 3)
}

/// The number with three digits behind the point and always a sign.
pub open spec fn signed3(x: Num) -> Str {
    match x {
        Num::PosInf => "+"@ + milli3(x),
        Num::Fin(n) => if n < 0 {
            milli3(x)
        } else {
            "+"@ + milli3(x)
        },
        _ => milli3(x),
    }
}

/// The number with three digits behind the point and always a sign.
pub fn fix3_signed(x: Num) -> (r: String)
    ensures
        r@ == signed3(x),
{
    match x {
        Num::PosInf => cat2("+", fix3(x).as_str()),
        Num::Fin(n) => if n < 0 {
            fix3(x)
        } else {
            cat2("+", fix3(x).as_str())
        },
        _ => fix3(x),
    }
}

/// The text without trailing zeros.
pub open spec fn without_zeros(s: Str) -> Str
    decreases s.len(),
{
    if s.len() > 0 && s.last() == '0' {
        without_zeros(s.drop_last())
    } else {
        s
    }
}

fn drop_zeros(s: &str) -> (r: String)
    ensures
        r@ == without_zeros(s@),
{
    let mut n: usize = s.unicode_len();
    assert(s@.subrange(0, n as int) == s@);
    while n > 0 && s.get_char(n - 1) == '0'
        invariant
            n <= s@.len(),
            without_zeros(s@) == without_zeros(s@.subrange(0, n as int)),
        decreases n,
    {
        assert(s@.subrange(0, n as int).drop_last() == s@.subrange(0, n - 1));
        n = n - 1;
    }
    s.substring_char(0, n).to_owned()
}

/// The shortest decimal form of a number.
pub open spec fn shown(x: Num) -> Str {
    match x {
        Num::Nan => "NaN"@,
        Num::PosInf => "inf"@,
        Num::NegInf => "-inf"@,
        Num::Fin(n) => {
            let a = magnitude(n);
            let whole = minus_sign(n) + decimal(a / (UNIT as nat));
            if a % (UNIT as nat) == 0 {
                whole
            } else {
                whole + "."@ + without_zeros(padded(a % (UNIT as nat), 15))
            }
        },
    }
}

/// The shortest decimal form of a number.
pub fn show(x: Num) -> (r: String)
    ensures
        r@ == shown(x),
{
    match x {
        Num::Nan => "NaN".to_owned(),
        Num::PosInf => "inf".to_owned(),
        Num::NegInf => "-inf".to_owned(),
        Num::Fin(n) => {
            let a: u128 = size_of_count(n);
            let whole = cat2(sign_text(n), count(a / 1_000_000_000_000_000).as_str());
            let rest: u128 = a % 1_000_000_000_000_000;
            if rest == 0 {
                whole
            } else {
                cat3(whole.as_str(), ".", drop_zeros(pad(rest, 15).as_str()).as_str())
            }
        },
    }
}

/// The number with one digit in front of the point and an exponent.
pub open spec fn with_exponent(n: i128) -> Str {
    let d = decimal(magnitude(n));
    let tail = without_zeros(d.skip(1));
    let lead = minus_sign(n) + d.take(1) + (if tail.len() == 0 {
        ""@
    } else {
        "."@ + tail
    });
    if d.len() < 16 {
        lead + "e-"@ + decimal((16 - d.len()) as nat)
    } else {
        lead + "e"@ + decimal((d.len() - 16) as nat)
    }
}

/// The form of a number in Rust's `{:?}`: a whole number keeps `.0`, and one
/// below a ten-thousandth, or from ten to the sixteenth on, is written with an
/// exponent.
pub open spec fn debugged(x: Num) -> Str {
    match x {
        Num::Fin(n) => {
            let a = magnitude(n);
            if a >= 10_000_000_000_000_000 * (UNIT as nat) || 0 < a < 100_000_000_000 {
                with_exponent(n)
            } else if a % (UNIT as nat) == 0 {
                shown(x) + ".0"@
            } else {
                shown(x)
            }
        },
        _ => shown(x),
    }
}

fn show_with_exponent(n: i128) -> (r: String)
    ensures
        r@ == with_exponent(n),
{
    let d = count(size_of_count(n));
    let len: usize = d.as_str().unicode_len();
    assert(d@.subrange(0, 1) == d@.take(1));
    assert(d@.subrange(1, len as int) == d@.skip(1));
    let tail = drop_zeros(d.as_str().substring_char(1, len));
    let middle = if tail.as_str().is_empty() {
        "".to_owned()
    } else {
        cat2(".", tail.as_str())
    };
    let lead = cat3(sign_text(n), d.as_str().substring_char(0, 1), middle.as_str());
    if len < 16 {
        cat3(lead.as_str(), "e-", count_usize(16 - len).as_str())
    } else {
        cat3(lead.as_str(), "e", count_usize(len - 16).as_str())
    }
}

/// The form of a number in Rust's `{:?}`.
pub fn debug_num(x: Num) -> (r: String)
    ensures
        r@ == debugged(x),
{
    match x {
        Num::Fin(n) => {
            let a: u128 = size_of_count(n);
            if a >= 10_000_000_000_000_000_000_000_000_000_000 || (0 < a && a < 100_000_000_000) {
                show_with_exponent(n)
            } else if a % 1_000_000_000_000_000 == 0 {
                cat2(show(x).as_str(), ".0")
            } else {
                show(x)
            }
        },
        _ => show(x),
    }
}

/// `Some(..)` round the text, or `None`.
pub open spec fn in_some(s: Option<Str>) -> Str {
    match s {
        Some(t) => "Some("@ + t + ")"@,
        None => "None"@,
    }
}

/// The quoted text in `Some(..)`, or `None`.
pub open spec fn quoted_option(s: Option<String>) -> Str {
    match s {
        Some(t) => in_some(Some(quoted(t@))),
        None => in_some(None),
    }
}

/// The quoted text in `Some(..)`, or `None`.
pub fn quote_option(s: &Option<String>) -> (r: String)
    ensures
        r@ == quoted_option(*s),
{
    match s {
        Some(t) => cat3("Some(", quote(t.as_str()).as_str(), ")"),
        None => "None".to_owned(),
    }
}

/// The number in `Some(..)`, or `None`.
pub open spec fn debugged_option(x: Option<Num>) -> Str {
    match x {
        Some(n) => in_some(Some(debugged(n))),
        None => in_some(None),
    }
}

/// The number in `Some(..)`, or `None`.
pub fn debug_option(x: Option<Num>) -> (r: String)
    ensures
        r@ == debugged_option(x),
{
    match x {
        Some(n) => cat3("Some(", debug_num(n).as_str(), ")"),
        None => "None".to_owned(),
    }
}

/// The quoted texts in square brackets.
pub open spec fn quoted_list(v: Seq<String>) -> Str {
    "["@ + joined(v.map_values(|s: String| quoted(s@)), ", "@) + "]"@
}

/// The quoted texts in square brackets.
pub fn quote_list(v: &Vec<String>) -> (r: String)
    ensures
        r@ == quoted_list(v@),
{
    let mut parts: Vec<String> = Vec::new();
    let mut i: usize = 0;
    while i < v.len()
        invariant
            i <= v@.len(),
            strs(parts@) == v@.map_values(|s: String| quoted(s@)).take(i as int),
        decreases v@.len() - i,
    {
        let ghost before = strs(parts@);
        parts.push(quote(v[i].as_str()));
        let ghost all = v@.map_values(|s: String| quoted(s@));
        assert(strs(parts@) == before.push(all[i as int]));
        assert(all.take(i + 1) == all.take(i as int).push(all[i as int]));
        i = i + 1;
    }
    assert(v@.map_values(|s: String| quoted(s@)).take(v@.len() as int) == v@.map_values(
        |s: String| quoted(s@),
    ));
    cat3("[", join(&parts, ", ").as_str(), "]")
}

/// The parts of a text between the places of a character.
pub open spec fn split_on(s: Str, c: char) -> Seq<Str>
    decreases s.len(),
{
    if s.len() == 0 {
        seq![Seq::empty()]
    } else {
        let parts = split_on(s.drop_last(), c);
        if s.last() == c {
            parts.push(Seq::empty())
        } else {
            parts.update(parts.len() - 1, parts.last().push(s.last()))
        }
    }
}

/// There is always a last part.
pub proof fn lemma_split_on(s: Str, c: char)
    ensures
        split_on(s, c).len() > 0,
    decreases s.len(),
{
    if s.len() > 0 {
        lemma_split_on(s.drop_last(), c);
    }
}

/// The parts of a text between the places of a character.
pub fn split_at_char(s: &str, c: char) -> (r: Vec<String>)
    ensures
        strs(r@) == split_on(s@, c),
{
    let mut out: Vec<String> = Vec::new();
    let mut part = String::new();
    let n: usize = s.unicode_len();
    let mut i: usize = 0;
    assert(s@.take(0) =~= Seq::<char>::empty());
    assert(strs(out@).push(part@) =~= seq![Seq::<char>::empty()]);
    while i < n
        invariant
            i <= n,
            n == s@.len(),
            strs(out@).push(part@) == split_on(s@.take(i as int), c),
        decreases n - i,
    {
        let ch = s.get_char(i);
        let ghost before = strs(out@).push(part@);
        assert(s@.take(i + 1).drop_last() =~= s@.take(i as int));
        if ch == c {
            out.push(part);
            part = String::new();
            assert(strs(out@).push(part@) =~= before.push(Seq::<char>::empty()));
        } else {
            part.push(ch);
            assert(strs(out@).push(part@) =~= before.update(
                before.len() - 1,
                before.last().push(ch),
            ));
        }
        i = i + 1;
    }
    assert(s@.take(n as int) =~= s@);
    let ghost before = strs(out@).push(part@);
    out.push(part);
    assert(strs(out@) =~= before);
    out
}

/// The ending of a plural noun.
pub open spec fn plural(n: nat) -> Str {
    if n == 1 {
        ""@
    } else {
        "s"@
    }
}

/// The ending of a plural noun.
pub fn plural_of(n: usize) -> (r: &'static str)
    ensures
        r@ == plural(n as nat),
{
    if n == 1 {
        ""
    } else {
        "s"
    }
}

/// The word for a truth value.
pub open spec fn truth(b: bool) -> Str {
    if b {
        "true"@
    } else {
        "false"@
    }
}

/// The word for a truth value.
pub fn truth_word(b: bool) -> (r: &'static str)
    ensures
        r@ == truth(b),
{
    if b {
        "true"
    } else {
        "false"
    }
}

} // verus!
