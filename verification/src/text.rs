//! Building and comparing text: decimal and hexadecimal numerals, concatenation,
//! lists of characters.

use vstd::prelude::*;
use vstd::string::*;

verus! {

/// The character of a decimal or lower-case hexadecimal digit.
pub open spec fn digit_char(d: int) -> char {
    if d <= 0 { '0' } else if d == 1 { '1' } else if d == 2 { '2' } else if d == 3 { '3' }
    else if d == 4 { '4' } else if d == 5 { '5' } else if d == 6 { '6' } else if d == 7 { '7' }
    else if d == 8 { '8' } else if d == 9 { '9' } else if d == 10 { 'a' } else if d == 11 { 'b' }
    else if d == 12 { 'c' } else if d == 13 { 'd' } else if d == 14 { 'e' } else { 'f' }
}

/// Decimal numeral of a natural number, without leading zeros.
pub open spec fn dec(n: nat) -> Seq<char>
    decreases n,
{
    if n < 10 {
        seq![digit_char(n as int)]
    } else {
        dec(n / 10).push(digit_char((n % 10) as int))
    }
}

/// Decimal numeral of an integer, with a minus sign where it is negative.
pub open spec fn dec_int(n: int) -> Seq<char> {
    if n < 0 {
        seq!['-'] + dec((-n) as nat)
    } else {
        dec(n as nat)
    }
}

/// The `width` lowest hexadecimal digits of a number, highest first.
pub open spec fn hex(n: nat, width: nat) -> Seq<char>
    decreases width,
{
    if width == 0 {
        Seq::empty()
    } else {
        hex(n / 16, (width - 1) as nat).push(digit_char((n % 16) as int))
    }
}

/// The digit as a one-character string.
pub fn digit_str(d: u8) -> (r: &'static str)
    requires
        d < 16,
    ensures
        r@ == seq![digit_char(d as int)],
{
    proof {
        reveal_strlit("0"); reveal_strlit("1"); reveal_strlit("2"); reveal_strlit("3");
        reveal_strlit("4"); reveal_strlit("5"); reveal_strlit("6"); reveal_strlit("7");
        reveal_strlit("8"); reveal_strlit("9"); reveal_strlit("a"); reveal_strlit("b");
        reveal_strlit("c"); reveal_strlit("d"); reveal_strlit("e"); reveal_strlit("f");
    }
    let r: &'static str = match d {
        0 => "0", 1 => "1", 2 => "2", 3 => "3", 4 => "4", 5 => "5", 6 => "6", 7 => "7",
        8 => "8", 9 => "9", 10 => "a", 11 => "b", 12 => "c", 13 => "d", 14 => "e", _ => "f",
    };
    assert(r@ =~= seq![digit_char(d as int)]);
    r
}

pub fn dec_u64(n: u64) -> (r: String)
    ensures
        r@ == dec(n as nat),
    decreases n,
{
    if n < 10 {
        let r = digit_str(n as u8).to_owned();
        r
    } else {
        let mut r = dec_u64(n / 10);
        r.append(digit_str((n % 10) as u8));
        assert(r@ =~= dec(n as nat));
        r
    }
}

pub fn dec_u128(n: u128) -> (r: String)
    ensures
        r@ == dec(n as nat),
    decreases n,
{
    if n < 10 {
        digit_str(n as u8).to_owned()
    } else {
        let mut r = dec_u128(n / 10);
        r.append(digit_str((n % 10) as u8));
        assert(r@ =~= dec(n as nat));
        r
    }
}

pub fn dec_i128(n: i128) -> (r: String)
    requires
        n > i128::MIN,
    ensures
        r@ == dec_int(n as int),
{
    if n < 0 {
        let mut r = "-".to_owned();
        proof { reveal_strlit("-"); }
        let m: u128 = (-n) as u128;
        r.append(dec_u128(m).as_str());
        assert(r@ =~= dec_int(n as int));
        r
    } else {
        dec_u128(n as u128)
    }
}

pub fn dec_usize(n: usize) -> (r: String)
    ensures
        r@ == dec(n as nat),
{
    dec_u64(n as u64)
}

pub fn dec_i64(n: i64) -> (r: String)
    ensures
        r@ == dec_int(n as int),
{
    if n < 0 {
        let mut r = "-".to_owned();
        proof { reveal_strlit("-"); }
        let m: u64 = if n == i64::MIN { 9223372036854775808 } else { (-n) as u64 };
        r.append(dec_u64(m).as_str());
        assert(r@ =~= dec_int(n as int));
        r
    } else {
        dec_u64(n as u64)
    }
}

pub fn hex_u64(n: u64, width: usize) -> (r: String)
    ensures
        r@ == hex(n as nat, width as nat),
    decreases width,
{
    if width == 0 {
        let r = String::new();
        assert(r@ =~= hex(n as nat, 0));
        r
    } else {
        let mut r = hex_u64(n / 16, width - 1);
        r.append(digit_str((n % 16) as u8));
        assert(r@ =~= hex(n as nat, width as nat));
        r
    }
}

pub fn owned(a: &str) -> (r: String)
    ensures
        r@ == a@,
{
    a.to_owned()
}

pub fn join2(a: &str, b: &str) -> (r: String)
    ensures
        r@ == a@ + b@,
{
    let mut r = a.to_owned();
    r.append(b);
    r
}

pub fn join3(a: &str, b: &str, c: &str) -> (r: String)
    ensures
        r@ == a@ + b@ + c@,
{
    let mut r = a.to_owned();
    r.append(b);
    r.append(c);
    r
}

/// The characters of a string.
pub fn chars_of(s: &str) -> (r: Vec<char>)
    ensures
        r@ == s@,
{
    let mut out: Vec<char> = Vec::new();
    for c in it: s.chars()
        invariant
            it.seq() == s@,
            out@ == s@.subrange(0, it.index() as int),
    {
        out.push(c);
        assert(out@ =~= s@.subrange(0, it.index() as int + 1));
    }
    assert(out@ =~= s@);
    out
}

/// Whether two strings hold the same characters.
pub fn same(a: &str, b: &str) -> (r: bool)
    ensures
        r == (a@ == b@),
{
    let x = a.to_owned();
    let y = b.to_owned();
    x == y
}

/// `String::push` of std: the character is appended at the end.
pub assume_specification[ String::push ](s: &mut String, c: char)
    ensures
        final(s)@ == old(s)@.push(c),
;

/// The string made of the given characters.
pub fn from_chars(v: &Vec<char>) -> (r: String)
    ensures
        r@ == v@,
{
    let mut r = String::new();
    let mut i: usize = 0;
    while i < v.len()
        invariant
            i <= v.len(),
            r@ == v@.subrange(0, i as int),
        decreases v.len() - i,
    {
        r.push(v[i]);
        assert(v@.subrange(0, i + 1) =~= v@.subrange(0, i as int).push(v@[i as int]));
        i = i + 1;
    }
    assert(v@.subrange(0, i as int) =~= v@);
    r
}

/// Whether a character has Unicode's `White_Space` property.
pub open spec fn is_white_space(c: char) -> bool {
    let n = c as u32;
    0x9 <= n <= 0xd || n == 0x20 || n == 0x85 || n == 0xa0 || n == 0x1680 || 0x2000 <= n <= 0x200a || n == 0x2028 || n
        == 0x2029 || n == 0x202f || n == 0x205f || n == 0x3000
}

/// `char::is_whitespace` of std: whether the character has the property `White_Space`, whose
/// characters Unicode lists.
pub assume_specification[ char::is_whitespace ](c: char) -> (r: bool)
    ensures
        r == is_white_space(c),
;

/// The text behind its leading white space.
pub open spec fn trimmed_start(s: Seq<char>) -> Seq<char>
    decreases s.len(),
{
    if s.len() > 0 && is_white_space(s[0]) { trimmed_start(s.drop_first()) } else { s }
}

/// The text before its trailing white space.
pub open spec fn trimmed_end(s: Seq<char>) -> Seq<char>
    decreases s.len(),
{
    if s.len() > 0 && is_white_space(s.last()) { trimmed_end(s.drop_last()) } else { s }
}

/// The text without surrounding white space.
pub open spec fn trimmed(s: Seq<char>) -> Seq<char> {
    trimmed_end(trimmed_start(s))
}

pub fn trim(s: &str) -> (r: String)
    ensures
        r@ == trimmed(s@),
{
    let v = chars_of(s);
    let mut lo: usize = 0;
    assert(v@.subrange(0, v@.len() as int) =~= v@);
    while lo < v.len() && v[lo].is_whitespace()
        invariant
            lo <= v.len(),
            trimmed_start(v@) == trimmed_start(v@.subrange(lo as int, v@.len() as int)),
        decreases v.len() - lo,
    {
        assert(v@.subrange(lo as int, v@.len() as int).drop_first() =~= v@.subrange(lo + 1, v@.len() as int));
        lo = lo + 1;
    }
    let ghost rest = v@.subrange(lo as int, v@.len() as int);
    let mut hi: usize = v.len();
    while lo < hi && v[hi - 1].is_whitespace()
        invariant
            lo <= hi <= v.len(),
            trimmed_end(rest) == trimmed_end(v@.subrange(lo as int, hi as int)),
        decreases hi - lo,
    {
        assert(v@.subrange(lo as int, hi as int).drop_last() =~= v@.subrange(lo as int, hi - 1));
        hi = hi - 1;
    }
    let mut out: Vec<char> = Vec::new();
    let mut i: usize = lo;
    while i < hi
        invariant
            lo <= i <= hi <= v.len(),
            out@ == v@.subrange(lo as int, i as int),
        decreases hi - i,
    {
        out.push(v[i]);
        assert(out@ =~= v@.subrange(lo as int, i + 1));
        i = i + 1;
    }
    from_chars(&out)
}

/// Lower case of an ASCII letter, any other character as it is.
pub open spec fn lower_char(c: char) -> char {
    if 'A' <= c <= 'Z' { ((c as u8) + 32) as u8 as char } else { c }
}

/// The text with its ASCII letters in lower case.
pub open spec fn lower(s: Seq<char>) -> Seq<char> {
    s.map_values(|c: char| lower_char(c))
}

pub fn ascii_lower(s: &str) -> (r: String)
    ensures
        r@ == lower(s@),
{
    let v = chars_of(s);
    let mut r = String::new();
    let mut i: usize = 0;
    while i < v.len()
        invariant
            i <= v.len(),
            v@ == s@,
            r@ == lower(s@).subrange(0, i as int),
        decreases v.len() - i,
    {
        let c = v[i];
        let d: char = if 'A' <= c && c <= 'Z' { ((c as u8) + 32) as char } else { c };
        r.push(d);
        assert(r@ =~= lower(s@).subrange(0, i + 1));
        i = i + 1;
    }
    assert(r@ =~= lower(s@));
    r
}

// Formatting.

/// Spaces.
pub open spec fn spaces(n: nat) -> Seq<char> {
    Seq::new(n, |i: int| ' ')
}

/// A text that is filled up with spaces before it.
pub open spec fn padded_left(s: Seq<char>, width: nat) -> Seq<char> {
    if s.len() < width { spaces((width - s.len()) as nat) + s } else { s }
}

/// A text that is filled up with spaces after it.
pub open spec fn padded_right(s: Seq<char>, width: nat) -> Seq<char> {
    if s.len() < width { s + spaces((width - s.len()) as nat) } else { s }
}

fn push_spaces(out: &mut Vec<char>, n: usize)
    ensures
        final(out)@ == old(out)@ + spaces(n as nat),
{
    let ghost before = out@;
    let mut i: usize = 0;
    assert(out@ =~= before + spaces(0));
    while i < n
        invariant
            i <= n,
            out@ == before + spaces(i as nat),
        decreases n - i,
    {
        out.push(' ');
        i = i + 1;
        assert(out@ =~= before + spaces(i as nat));
    }
}

/// A text that is filled up with spaces before it.
pub fn pad_left(s: &str, width: usize) -> (r: String)
    ensures
        r@ == padded_left(s@, width as nat),
{
    let c = chars_of(s);
    if c.len() >= width {
        return owned(s);
    }
    let mut out: Vec<char> = Vec::new();
    push_spaces(&mut out, width - c.len());
    let pad = from_chars(&out);
    assert(pad@ =~= spaces((width - s@.len()) as nat));
    join2(pad.as_str(), s)
}

/// A text that is filled up with spaces after it.
pub fn pad_right(s: &str, width: usize) -> (r: String)
    ensures
        r@ == padded_right(s@, width as nat),
{
    let c = chars_of(s);
    if c.len() >= width {
        return owned(s);
    }
    let mut out: Vec<char> = Vec::new();
    push_spaces(&mut out, width - c.len());
    let pad = from_chars(&out);
    assert(pad@ =~= spaces((width - s@.len()) as nat));
    join2(s, pad.as_str())
}

/// Hexadecimal numeral of a natural number, without leading zeros.
pub open spec fn hex_number(n: nat) -> Seq<char>
    decreases n,
{
    if n < 16 {
        seq![digit_char(n as int)]
    } else {
        hex_number(n / 16).push(digit_char((n % 16) as int))
    }
}

/// Hexadecimal numeral of a natural number, without leading zeros.
pub fn hex_text(n: u64) -> (r: String)
    ensures
        r@ == hex_number(n as nat),
    decreases n,
{
    if n < 16 {
        return owned(digit_str(n as u8));
    }
    let mut out = hex_text(n / 16);
    let ghost before = out@;
    out.append(digit_str((n % 16) as u8));
    assert(out@ =~= before.push(digit_char((n % 16) as int)));
    out
}

/// Texts with a separator between them.
pub open spec fn joined(parts: Seq<Seq<char>>, sep: Seq<char>) -> Seq<char>
    decreases parts.len(),
{
    if parts.len() == 0 {
        Seq::empty()
    } else if parts.len() == 1 {
        parts[0]
    } else {
        joined(parts.drop_last(), sep) + sep + parts.last()
    }
}

/// The characters of strings.
pub open spec fn texts(v: Seq<String>) -> Seq<Seq<char>> {
    Seq::new(v.len(), |i: int| v[i]@)
}

/// Texts with a separator between them.
pub fn join_all(v: &Vec<String>, sep: &str) -> (r: String)
    ensures
        r@ == joined(texts(v@), sep@),
{
    let ghost all = texts(v@);
    let mut out = String::new();
    let mut i: usize = 0;
    assert(all.take(0) =~= Seq::empty());
    while i < v.len()
        invariant
            i <= v@.len(),
            all == texts(v@),
            out@ == joined(all.take(i as int), sep@),
        decreases v@.len() - i,
    {
        assert(all.take(i + 1).drop_last() =~= all.take(i as int));
        assert(all.take(i + 1).last() == v@[i as int]@);
        if i > 0 {
            out.append(sep);
        }
        out.append(v[i].as_str());
        if i == 0 {
            assert(out@ =~= v@[0]@);
        }
        i = i + 1;
    }
    assert(all.take(i as int) =~= all);
    out
}

/// A list of numbers in brackets.
pub open spec fn list_text(v: Seq<i64>) -> Seq<char> {
    "["@ + joined(Seq::new(v.len(), |i: int| dec_int(v[i] as int)), ", "@) + "]"@
}

/// A list of numbers in brackets.
pub fn list_of(v: &[i64]) -> (r: String)
    ensures
        r@ == list_text(v@),
{
    let mut parts: Vec<String> = Vec::new();
    let mut i: usize = 0;
    while i < v.len()
        invariant
            i <= v@.len(),
            parts@.len() == i,
            forall|j: int| 0 <= j < i ==> (#[trigger] parts@[j])@ == dec_int(v@[j] as int),
        decreases v@.len() - i,
    {
        parts.push(dec_i64(v[i]));
        i = i + 1;
    }
    assert(texts(parts@) =~= Seq::new(v@.len(), |i: int| dec_int(v@[i] as int)));
    join3("[", join_all(&parts, ", ").as_str(), "]")
}

} // verus!
