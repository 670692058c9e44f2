//! Plain text building blocks: decimal and hexadecimal renderings of
//! integers, and string assembly with exact views.

use vstd::prelude::*;
use crate::outside::{debug_str, push_char, spec_debug_str};

verus! {

/// The character of a decimal digit.
pub open spec fn digit_char(d: nat) -> char {
    if d == 0 { '0' } else if d == 1 { '1' } else if d == 2 { '2' } else if d == 3 { '3' }
    else if d == 4 { '4' } else if d == 5 { '5' } else if d == 6 { '6' } else if d == 7 { '7' }
    else if d == 8 { '8' } else { '9' }
}

/// The character of a lowercase hexadecimal digit.
pub open spec fn hex_char(d: nat) -> char {
    if d < 10 { digit_char(d) } else if d == 10 { 'a' } else if d == 11 { 'b' } else if d == 12 { 'c' }
    else if d == 13 { 'd' } else if d == 14 { 'e' } else { 'f' }
}

/// The decimal rendering of a natural number, without leading zeros.
pub open spec fn dec(n: nat) -> Seq<char>
    decreases n,
{
    if n < 10 {
        seq![digit_char(n)]
    } else {
        dec(n / 10).push(digit_char(n % 10))
    }
}

/// The decimal rendering of an integer, with a leading minus sign when negative.
pub open spec fn dec_int(i: int) -> Seq<char> {
    if i < 0 { seq!['-'] + dec((-i) as nat) } else { dec(i as nat) }
}

/// Two lowercase hexadecimal characters for one byte.
pub open spec fn hex_byte(b: u8) -> Seq<char> {
    seq![hex_char((b / 16) as nat), hex_char((b % 16) as nat)]
}

/// Lowercase hexadecimal rendering of a byte sequence, two characters per byte.
pub open spec fn hex_bytes(s: Seq<u8>) -> Seq<char>
    decreases s.len(),
{
    if s.len() == 0 {
        Seq::empty()
    } else {
        hex_bytes(s.drop_last()) + hex_byte(s.last())
    }
}

fn digit(d: u64) -> (c: char)
    requires
        d < 10,
    ensures
        c == digit_char(d as nat),
{
    if d == 0 { '0' } else if d == 1 { '1' } else if d == 2 { '2' } else if d == 3 { '3' }
    else if d == 4 { '4' } else if d == 5 { '5' } else if d == 6 { '6' } else if d == 7 { '7' }
    else if d == 8 { '8' } else { '9' }
}

fn hex_digit(d: u8) -> (c: char)
    requires
        d < 16,
    ensures
        c == hex_char(d as nat),
{
    if d < 10 { digit(d as u64) } else if d == 10 { 'a' } else if d == 11 { 'b' } else if d == 12 { 'c' }
    else if d == 13 { 'd' } else if d == 14 { 'e' } else { 'f' }
}

/// Appends the decimal rendering of `n` to `s`.
pub fn push_decimal(s: &mut String, n: u64)
    ensures
        final(s)@ == old(s)@ + dec(n as nat),
    decreases n,
{
    if n >= 10 {
        push_decimal(s, n / 10);
    }
    push_char(s, digit(n % 10));
    proof {
        assert(dec(n as nat) == if n < 10 { seq![digit_char(n as nat)] } else { dec((n / 10) as nat).push(digit_char((n % 10) as nat)) });
        if n < 10 {
            assert(n % 10 == n);
        }
    }
}

/// Appends the decimal rendering of a signed integer to `s`.
pub fn push_decimal_i64(s: &mut String, i: i64)
    ensures
        final(s)@ == old(s)@ + dec_int(i as int),
{
    if i < 0 {
        push_char(s, '-');
        let m: u64 = if i == i64::MIN { 9223372036854775808u64 } else { (-i) as u64 };
        push_decimal(s, m);
        assert(final(s)@ =~= old(s)@ + dec_int(i as int));
    } else {
        push_decimal(s, i as u64);
    }
}

/// The decimal rendering of an unsigned integer.
pub fn u64_to_string(n: u64) -> (s: String)
    ensures
        s@ == dec(n as nat),
{
    let mut s = String::new();
    push_decimal(&mut s, n);
    assert(s@ =~= dec(n as nat));
    s
}

/// Appends the two lowercase hexadecimal characters of a byte.
pub fn push_hex_byte(s: &mut String, b: u8)
    ensures
        final(s)@ == old(s)@ + hex_byte(b),
{
    push_char(s, hex_digit(b / 16));
    push_char(s, hex_digit(b % 16));
    assert(final(s)@ =~= old(s)@ + hex_byte(b));
}

/// Lowercase hexadecimal rendering of a byte slice.
pub fn to_hex(data: &[u8]) -> (s: String)
    ensures
        s@ == hex_bytes(data@),
{
    let mut s = String::new();
    let mut i: usize = 0;
    while i < data.len()
        invariant
            i <= data@.len(),
            s@ == hex_bytes(data@.subrange(0, i as int)),
        decreases data@.len() - i,
    {
        let ghost prev = data@.subrange(0, i as int);
        push_hex_byte(&mut s, data[i]);
        assert(data@.subrange(0, i + 1).drop_last() =~= prev);
        i = i + 1;
    }
    assert(data@.subrange(0, data@.len() as int) =~= data@);
    s
}

} // verus!

verus! {

/// The elements of a list rendered in decimal and separated by `", "`.
pub open spec fn joined_u32(s: Seq<u32>) -> Seq<char>
    decreases s.len(),
{
    if s.len() == 0 {
        Seq::empty()
    } else if s.len() == 1 {
        dec(s[0] as nat)
    } else {
        joined_u32(s.drop_last()) + ", "@ + dec(s.last() as nat)
    }
}

/// The debug rendering of a list of integers, such as `[1, 2, 3]`.
pub open spec fn debug_u32_list(s: Seq<u32>) -> Seq<char> {
    "["@ + joined_u32(s) + "]"@
}

/// Appends the debug rendering of a list of integers.
pub fn push_u32_list(s: &mut String, list: &Vec<u32>)
    ensures
        final(s)@ == old(s)@ + debug_u32_list(list@),
{
    s.append("[");
    let ghost start = s@;
    let mut i: usize = 0;
    while i < list.len()
        invariant
            i <= list@.len(),
            s@ == start + joined_u32(list@.subrange(0, i as int)),
        decreases list@.len() - i,
    {
        let ghost prev = s@;
        if i > 0 {
            s.append(", ");
        }
        push_decimal(s, list[i] as u64);
        proof {
            let sub = list@.subrange(0, i + 1);
            assert(sub.drop_last() =~= list@.subrange(0, i as int));
            if i == 0 {
                assert(sub.len() == 1);
                assert(s@ =~= start + joined_u32(sub));
            } else {
                assert(s@ =~= start + joined_u32(sub));
            }
        }
        i = i + 1;
    }
    assert(list@.subrange(0, list@.len() as int) =~= list@);
    s.append("]");
    assert(s@ =~= old(s)@ + debug_u32_list(list@));
}

/// A new string holding the characters of `t`.
pub fn string_of(t: &str) -> (s: String)
    ensures
        s@ == t@,
{
    String::from_str(t)
}

} // verus!

verus! {

/// `prefix`, the decimal rendering of `n`, then `suffix`.
pub fn text_num(prefix: &str, n: u64, suffix: &str) -> (s: String)
    ensures
        s@ == prefix@ + dec(n as nat) + suffix@,
{
    let mut s = String::from_str(prefix);
    push_decimal(&mut s, n);
    s.append(suffix);
    s
}

/// `a`, decimal `n1`, `b`, decimal `n2`, then `c`.
pub fn text_num2(a: &str, n1: u64, b: &str, n2: u64, c: &str) -> (s: String)
    ensures
        s@ == a@ + dec(n1 as nat) + b@ + dec(n2 as nat) + c@,
{
    let mut s = String::from_str(a);
    push_decimal(&mut s, n1);
    s.append(b);
    push_decimal(&mut s, n2);
    s.append(c);
    s
}

/// `prefix` followed by the decimal rendering of `n`.
pub fn text_then_num(prefix: &str, n: u64) -> (s: String)
    ensures
        s@ == prefix@ + dec(n as nat),
{
    let mut s = String::from_str(prefix);
    push_decimal(&mut s, n);
    s
}

/// `a`, decimal `n1`, `b`, then decimal `n2`.
pub fn text_num_num(a: &str, n1: u64, b: &str, n2: u64) -> (s: String)
    ensures
        s@ == a@ + dec(n1 as nat) + b@ + dec(n2 as nat),
{
    let mut s = String::from_str(a);
    push_decimal(&mut s, n1);
    s.append(b);
    push_decimal(&mut s, n2);
    s
}

/// `prefix` followed by `t`.
pub fn text_concat(prefix: &str, t: &str) -> (s: String)
    ensures
        s@ == prefix@ + t@,
{
    let mut s = String::from_str(prefix);
    s.append(t);
    s
}

} // verus!

verus! {

/// Whether two strings hold the same characters.
pub fn str_eq(a: &str, b: &str) -> (r: bool)
    ensures
        r == (a@ == b@),
{
    let n = a.unicode_len();
    if n != b.unicode_len() {
        return false;
    }
    let mut i: usize = 0;
    while i < n
        invariant
            n == a@.len(),
            n == b@.len(),
            i <= n,
            forall|j: int| 0 <= j < i ==> a@[j] == b@[j],
        decreases n - i,
    {
        if a.get_char(i) != b.get_char(i) {
            return false;
        }
        i = i + 1;
    }
    assert(a@ =~= b@);
    true
}

/// Appends the characters of `s` to `v`.
pub fn append_chars(v: &mut Vec<char>, s: &str)
    ensures
        final(v)@ == old(v)@ + s@,
{
    broadcast use vstd::string::group_string_axioms;
    let ghost start = v@;
    for c in it: s.chars()
        invariant
            it.seq() == s@,
            v@ == start + it.seq().take(it.index() as int),
    {
        v.push(c);
        proof {
            assert(v@ =~= start + it.seq().take(it.index() + 1));
        }
    }
    assert(v@ =~= start + s@);
}

/// A string of the characters `v[from..to]`.
pub fn chars_to_string(v: &Vec<char>, from: usize, to: usize) -> (s: String)
    requires
        from <= to <= v@.len(),
    ensures
        s@ == v@.subrange(from as int, to as int),
{
    let mut s = String::new();
    let mut i = from;
    while i < to
        invariant
            from <= i <= to <= v@.len(),
            s@ == v@.subrange(from as int, i as int),
        decreases to - i,
    {
        push_char(&mut s, v[i]);
        assert(s@ =~= v@.subrange(from as int, i + 1));
        i = i + 1;
    }
    s
}

} // verus!

verus! {

/// The lowercase hexadecimal rendering of a natural number, without
/// leading zeros.
pub open spec fn hex_num(n: nat) -> Seq<char>
    decreases n,
{
    if n < 16 {
        seq![hex_char(n)]
    } else {
        hex_num(n / 16).push(hex_char(n % 16))
    }
}

/// Appends the lowercase hexadecimal rendering of `n`.
pub fn push_hex_u64(s: &mut String, n: u64)
    ensures
        final(s)@ == old(s)@ + hex_num(n as nat),
    decreases n,
{
    if n >= 16 {
        push_hex_u64(s, n / 16);
    }
    push_char(s, hex_digit((n % 16) as u8));
    proof {
        assert(hex_num(n as nat) == if n < 16 { seq![hex_char(n as nat)] } else { hex_num((n / 16) as nat).push(hex_char((n % 16) as nat)) });
        if n < 16 {
            assert(n % 16 == n);
        }
    }
}

/// A count of hundredths shown with two decimals, such as `12.50`.
pub open spec fn fixed2(q: nat) -> Seq<char> {
    dec(q / 100) + seq!['.', digit_char((q % 100) / 10), digit_char(q % 10)]
}

/// `num / den` in hundredths, rounded to the nearest, ties to even.
pub open spec fn hundredths(num: nat, den: nat) -> nat
    recommends
        den > 0,
{
    let q = (100 * num) / den;
    let r = (100 * num) % den;
    if 2 * r > den || (2 * r == den && q % 2 == 1) {
        q + 1
    } else {
        q
    }
}

/// Appends `num / den` with two decimals (rounded to the nearest
/// hundredth, ties to even).
pub fn push_ratio_2dp(s: &mut String, num: u64, den: u64)
    requires
        den > 0,
    ensures
        final(s)@ == old(s)@ + fixed2(hundredths(num as nat, den as nat)),
{
    let n: u128 = 100 * (num as u128);
    let d: u128 = den as u128;
    let q: u128 = n / d;
    let r: u128 = n % d;
    let rounded: u128 = if 2 * r > d || (2 * r == d && q % 2 == 1) { q + 1 } else { q };
    assert(q <= n);
    assert(rounded <= 100 * (u64::MAX as u128) + 1);
    let whole: u128 = rounded / 100;
    let frac: u128 = rounded % 100;
    assert(whole <= u64::MAX as u128) by (nonlinear_arith)
        requires whole == rounded / 100, rounded <= 100 * (u64::MAX as u128) + 1;
    push_decimal(s, whole as u64);
    push_char(s, '.');
    push_char(s, digit((frac / 10) as u64));
    push_char(s, digit((frac % 10) as u64));
    assert(final(s)@ =~= old(s)@ + fixed2(hundredths(num as nat, den as nat)));
}

} // verus!

verus! {

/// The views of a sequence of strings.
pub open spec fn str_views(s: Seq<String>) -> Seq<Seq<char>> {
    s.map_values(|x: String| x@)
}

/// Whether `needle` occurs in `hay` starting at index `i`.
pub open spec fn occurs_at(hay: Seq<char>, needle: Seq<char>, i: int) -> bool {
    0 <= i && i + needle.len() <= hay.len() && hay.subrange(i, i + needle.len()) == needle
}

/// Whether `needle` occurs somewhere in `hay` (the empty string occurs
/// everywhere).
pub open spec fn has_infix(hay: Seq<char>, needle: Seq<char>) -> bool {
    exists|i: int| #[trigger] occurs_at(hay, needle, i)
}

/// Whether `needle` occurs in `hay`, as `str::contains` with a string pattern.
pub fn str_contains(hay: &str, needle: &str) -> (r: bool)
    ensures
        r == has_infix(hay@, needle@),
{
    let n = hay.unicode_len();
    let m = needle.unicode_len();
    if m > n {
        assert forall|i: int| !occurs_at(hay@, needle@, i) by {}
        return false;
    }
    let mut i: usize = 0;
    while i <= n - m
        invariant
            n == hay@.len(),
            m == needle@.len(),
            m <= n,
            i <= n - m + 1,
            forall|k: int| 0 <= k < i ==> !occurs_at(hay@, needle@, k),
        decreases n - m + 1 - i,
    {
        let mut j: usize = 0;
        let mut same = true;
        while j < m
            invariant
                n == hay@.len(),
                m == needle@.len(),
                i + m <= n,
                j <= m,
                same == (forall|k: int| 0 <= k < j ==> hay@[i + k] == needle@[k]),
            decreases m - j,
        {
            if hay.get_char(i + j) != needle.get_char(j) {
                same = false;
            }
            j = j + 1;
        }
        if same {
            assert(hay@.subrange(i as int, i + m) =~= needle@);
            assert(occurs_at(hay@, needle@, i as int));
            return true;
        }
        assert(!occurs_at(hay@, needle@, i as int)) by {
            if occurs_at(hay@, needle@, i as int) {
                let k = choose|k: int| 0 <= k < m && hay@[i + k] != needle@[k];
                assert(hay@.subrange(i as int, i + m)[k] == hay@[i + k]);
            }
        }
        i = i + 1;
    }
    assert forall|k: int| !occurs_at(hay@, needle@, k) by {
        if occurs_at(hay@, needle@, k) {
            assert(0 <= k < i);
        }
    }
    false
}

/// A copy of a list of strings.
pub fn clone_strings(v: &Vec<String>) -> (r: Vec<String>)
    ensures
        r@ == v@,
{
    let mut r: Vec<String> = Vec::new();
    let mut i: usize = 0;
    while i < v.len()
        invariant
            i <= v.len(),
            r@ == v@.subrange(0, i as int),
        decreases v.len() - i,
    {
        r.push(v[i].clone());
        assert(r@ =~= v@.subrange(0, i + 1));
        i = i + 1;
    }
    assert(v@.subrange(0, v.len() as int) =~= v@);
    r
}

} // verus!

verus! {

/// The index of the first `'\n'` at or after `p`, or `s.len()` if none.
pub open spec fn next_newline(s: Seq<char>, p: int) -> int
    decreases s.len() - p,
{
    if p < 0 || p >= s.len() {
        s.len() as int
    } else if s[p] == '\n' {
        p
    } else {
        next_newline(s, p + 1)
    }
}

/// `t` without one trailing carriage return.
pub open spec fn strip_cr(t: Seq<char>) -> Seq<char> {
    if t.len() > 0 && t.last() == '\r' {
        t.drop_last()
    } else {
        t
    }
}

/// Where the next newline after `p` lies, and that none comes before it.
pub proof fn lemma_next_newline_bounds(s: Seq<char>, p: int)
    requires
        0 <= p <= s.len(),
    ensures
        p <= next_newline(s, p) <= s.len(),
        next_newline(s, p) < s.len() ==> s[next_newline(s, p)] == '\n',
        forall|k: int| p <= k < next_newline(s, p) ==> s[k] != '\n',
    decreases s.len() - p,
{
    if p < s.len() && s[p] != '\n' {
        lemma_next_newline_bounds(s, p + 1);
    }
}

/// The lines of `s` from index `p` on, as `str::lines` splits them: at
/// `'\n'`, dropping a `'\r'` just before it; the last line needs no
/// terminator, and nothing follows a final terminator.
pub open spec fn lines_from(s: Seq<char>, p: int) -> Seq<Seq<char>>
    decreases s.len() - p,
{
    if p < 0 || p >= s.len() {
        Seq::empty()
    } else {
        let k = next_newline(s, p);
        proof {
            lemma_next_newline_bounds(s, p);
        }
        if k >= s.len() {
            seq![s.subrange(p, s.len() as int)]
        } else {
            seq![strip_cr(s.subrange(p, k))] + lines_from(s, k + 1)
        }
    }
}

/// The lines of a string, as `str::lines` yields them.
pub fn split_lines(s: &str) -> (r: Vec<String>)
    ensures
        str_views(r@) == lines_from(s@, 0),
{
    let n = s.unicode_len();
    let mut out: Vec<String> = Vec::new();
    let mut p: usize = 0;
    while p < n
        invariant
            n == s@.len(),
            p <= n,
            str_views(out@) + lines_from(s@, p as int) == lines_from(s@, 0),
        decreases n - p,
    {
        proof {
            lemma_next_newline_bounds(s@, p as int);
        }
        let mut k = p;
        while k < n && s.get_char(k) != '\n'
            invariant
                n == s@.len(),
                p <= k <= n,
                next_newline(s@, p as int) == next_newline(s@, k as int),
            decreases n - k,
        {
            k = k + 1;
        }
        let mut line = String::new();
        let mut j = p;
        while j < k
            invariant
                n == s@.len(),
                p <= j <= k <= n,
                line@ == s@.subrange(p as int, j as int),
            decreases k - j,
        {
            push_char(&mut line, s.get_char(j));
            assert(line@ =~= s@.subrange(p as int, j + 1));
            j = j + 1;
        }
        let ghost rest = lines_from(s@, p as int);
        if k < n {
            let mut seg = line;
            if k > p && s.get_char(k - 1) == '\r' {
                seg = chars_prefix(&seg, k - p - 1);
                assert(seg@ == strip_cr(s@.subrange(p as int, k as int)));
            }
            assert(rest == seq![strip_cr(s@.subrange(p as int, k as int))] + lines_from(s@, k + 1));
            out.push(seg);
            p = k + 1;
            assert(str_views(out@) + lines_from(s@, p as int) =~= lines_from(s@, 0));
        } else {
            assert(rest == seq![s@.subrange(p as int, n as int)]);
            out.push(line);
            p = n;
            assert(str_views(out@) + lines_from(s@, p as int) =~= lines_from(s@, 0));
        }
    }
    assert(str_views(out@) =~= lines_from(s@, 0));
    out
}

fn chars_prefix(t: &String, len: usize) -> (r: String)
    requires
        len <= t@.len(),
    ensures
        r@ == t@.subrange(0, len as int),
{
    let mut r = String::new();
    let mut i: usize = 0;
    while i < len
        invariant
            i <= len <= t@.len(),
            r@ == t@.subrange(0, i as int),
        decreases len - i,
    {
        push_char(&mut r, t.as_str().get_char(i));
        assert(r@ =~= t@.subrange(0, i + 1));
        i = i + 1;
    }
    r
}

} // verus!

verus! {

/// The strings of `s` separated by `sep`.
pub open spec fn join_strs(s: Seq<Seq<char>>, sep: Seq<char>) -> Seq<char>
    decreases s.len(),
{
    if s.len() == 0 {
        Seq::empty()
    } else if s.len() == 1 {
        s[0]
    } else {
        join_strs(s.drop_last(), sep) + sep + s.last()
    }
}

/// Appends the strings of `items` separated by `sep`, as `[String]::join`.
pub fn push_joined(out: &mut String, items: &Vec<String>, sep: &str)
    ensures
        final(out)@ == old(out)@ + join_strs(str_views(items@), sep@),
{
    let ghost head = out@;
    let ghost v = str_views(items@);
    let mut i: usize = 0;
    while i < items.len()
        invariant
            i <= items.len(),
            v == str_views(items@),
            out@ == head + join_strs(v.take(i as int), sep@),
        decreases items.len() - i,
    {
        let ghost t = v.take(i + 1);
        assert(t.drop_last() =~= v.take(i as int));
        if i > 0 {
            out.append(sep);
        } else {
            assert(v.take(0) =~= Seq::<Seq<char>>::empty());
        }
        out.append(items[i].as_str());
        assert(out@ =~= head + join_strs(t, sep@));
        i = i + 1;
    }
    assert(v.take(items.len() as int) =~= v);
}

} // verus!

verus! {

/// The view of an optional string.
pub open spec fn opt_view(o: Option<String>) -> Option<Seq<char>> {
    match o {
        Some(s) => Some(s@),
        None => None,
    }
}

/// The `Debug` rendering of an optional string: `None`, or `Some("...")`.
pub open spec fn debug_opt(o: Option<Seq<char>>) -> Seq<char> {
    match o {
        None => "None"@,
        Some(s) => "Some("@ + spec_debug_str(s) + ")"@,
    }
}

/// Appends the `Debug` rendering of an optional string.
pub fn push_debug_opt(s: &mut String, o: &Option<String>)
    ensures
        final(s)@ == old(s)@ + debug_opt(opt_view(*o)),
{
    match o {
        None => {
            s.append("None");
        },
        Some(x) => {
            s.append("Some(");
            let d = debug_str(x.as_str());
            s.append(d.as_str());
            s.append(")");
        },
    }
}

} // verus!
