use vstd::prelude::*;

verus! {

/// `s` begins with `prefix`.
pub open spec fn starts_with(s: Seq<char>, prefix: Seq<char>) -> bool {
    prefix.len() <= s.len() && s.take(prefix.len() as int) == prefix
}

/// The decimal digit of `d`, for `d` below ten.
pub open spec fn digit(d: nat) -> char {
    (('0' as nat) + d) as char
}

/// The decimal writing of `n`, without leading zeros.
pub open spec fn decimal(n: nat) -> Seq<char>
    decreases n,
{
    if n < 10 {
        seq![digit(n)]
    } else {
        decimal(n / 10).push(digit(n % 10))
    }
}

/// The lowercase hexadecimal digit of `d`, for `d` below sixteen.
pub open spec fn hex_digit(d: nat) -> char {
    if d < 10 {
        digit(d)
    } else {
        (('a' as nat) + (d - 10)) as char
    }
}

/// The lowercase hexadecimal writing of `n`, without leading zeros.
pub open spec fn hex(n: nat) -> Seq<char>
    decreases n,
{
    if n < 16 {
        seq![hex_digit(n)]
    } else {
        hex(n / 16).push(hex_digit(n % 16))
    }
}

/// The value of a decimal digit character, by its code point.
pub open spec fn decimal_value(c: char) -> int {
    (c as int) - ('0' as int)
}

/// `c` is one of `0`..`9`.
pub open spec fn is_decimal_digit(c: char) -> bool {
    '0' as int <= c as int <= '9' as int
}

/// The number that a string of decimal digits reads as.
pub open spec fn read_decimal(s: Seq<char>) -> int
    decreases s.len(),
{
    if s.len() == 0 {
        0
    } else {
        read_decimal(s.drop_last()) * 10 + decimal_value(s.last())
    }
}

/// `c` is one of `0`..`9`, `a`..`f`.
pub open spec fn is_hex_digit(c: char) -> bool {
    is_decimal_digit(c) || ('a' as int <= c as int <= 'f' as int)
}

/// The value of a lowercase hexadecimal digit character, by its code point.
pub open spec fn hex_value(c: char) -> int {
    if is_decimal_digit(c) {
        (c as int) - ('0' as int)
    } else {
        (c as int) - ('a' as int) + 10
    }
}

/// The number that a string of lowercase hexadecimal digits reads as.
pub open spec fn read_hex(s: Seq<char>) -> int
    decreases s.len(),
{
    if s.len() == 0 {
        0
    } else {
        read_hex(s.drop_last()) * 16 + hex_value(s.last())
    }
}

/// `s` is the usual writing of `n` in base ten: decimal digits that read back as
/// `n`, with no leading zero unless `n` is zero.
pub open spec fn writes_decimal(s: Seq<char>, n: nat) -> bool {
    &&& s.len() > 0
    &&& forall|i: int| 0 <= i < s.len() ==> is_decimal_digit(#[trigger] s[i])
    &&& read_decimal(s) == n
    &&& (s[0] == '0' ==> n == 0 && s.len() == 1)
}

/// `s` is the usual writing of `n` in lowercase base sixteen: hexadecimal digits
/// that read back as `n`, with no leading zero unless `n` is zero.
pub open spec fn writes_hex(s: Seq<char>, n: nat) -> bool {
    &&& s.len() > 0
    &&& forall|i: int| 0 <= i < s.len() ==> is_hex_digit(#[trigger] s[i])
    &&& read_hex(s) == n
    &&& (s[0] == '0' ==> n == 0 && s.len() == 1)
}

/// A string of decimal digits with a leading non-zero digit reads as at least one.
proof fn lemma_read_decimal_positive(s: Seq<char>)
    requires
        s.len() > 0,
        forall|i: int| 0 <= i < s.len() ==> is_decimal_digit(#[trigger] s[i]),
        s[0] != '0',
    ensures
        read_decimal(s) >= 1,
    decreases s.len(),
{
    if s.len() > 1 {
        let p = s.drop_last();
        assert(p[0] == s[0]);
        assert forall|i: int| 0 <= i < p.len() implies is_decimal_digit(#[trigger] p[i]) by {
            assert(p[i] == s[i]);
        }
        lemma_read_decimal_positive(p);
        assert(is_decimal_digit(s[s.len() - 1]));
        assert(decimal_value(s.last()) >= 0);
    } else {
        assert(is_decimal_digit(s[0]));
        assert(s.last() == s[0]);
        assert(s.drop_last().len() == 0);
        assert(read_decimal(s.drop_last()) == 0);
        assert((s[0] as int) != ('0' as int));
        assert(decimal_value(s.last()) >= 1);
    }
}

/// A string of hexadecimal digits with a leading non-zero digit reads as at least one.
proof fn lemma_read_hex_positive(s: Seq<char>)
    requires
        s.len() > 0,
        forall|i: int| 0 <= i < s.len() ==> is_hex_digit(#[trigger] s[i]),
        s[0] != '0',
    ensures
        read_hex(s) >= 1,
    decreases s.len(),
{
    if s.len() > 1 {
        let p = s.drop_last();
        assert(p[0] == s[0]);
        assert forall|i: int| 0 <= i < p.len() implies is_hex_digit(#[trigger] p[i]) by {
            assert(p[i] == s[i]);
        }
        lemma_read_hex_positive(p);
        assert(is_hex_digit(s[s.len() - 1]));
        assert(hex_value(s.last()) >= 0);
    } else {
        assert(is_hex_digit(s[0]));
        assert(s.last() == s[0]);
        assert(s.drop_last().len() == 0);
        assert(read_hex(s.drop_last()) == 0);
        assert((s[0] as int) != ('0' as int));
        assert(hex_value(s.last()) >= 1);
    }
}

proof fn lemma_digit_value(d: nat)
    requires
        d < 10,
    ensures
        is_decimal_digit(digit(d)),
        decimal_value(digit(d)) == d,
        is_hex_digit(hex_digit(d)),
        hex_value(hex_digit(d)) == d,
        digit(d) == '0' <==> d == 0,
{
    assert((('0' as nat) + d) as char as int == ('0' as nat) + d);
}

proof fn lemma_hex_digit_value(d: nat)
    requires
        d < 16,
    ensures
        is_hex_digit(hex_digit(d)),
        hex_value(hex_digit(d)) == d,
        hex_digit(d) == '0' <==> d == 0,
{
    if d < 10 {
        lemma_digit_value(d);
    } else {
        assert((('a' as nat) + (d - 10)) as char as int == ('a' as nat) + (d - 10));
    }
}

/// Law: `decimal(n)` is the base-ten writing of `n`.
pub proof fn decimal_writes_n(n: nat)
    ensures
        writes_decimal(decimal(n), n),
    decreases n,
{
    lemma_digit_value(n % 10);
    if n < 10 {
        assert(n % 10 == n);
        assert(decimal(n).drop_last().len() == 0);
        assert(decimal(n).last() == digit(n));
        assert(read_decimal(decimal(n)) == read_decimal(decimal(n).drop_last()) * 10 + decimal_value(digit(n)));
        assert(read_decimal(decimal(n)) == n);
    }
    if n >= 10 {
        decimal_writes_n(n / 10);
        let p = decimal(n / 10);
        let s = decimal(n);
        assert(s.drop_last() =~= p);
        assert(s.last() == digit(n % 10));
        assert(read_decimal(s) == read_decimal(p) * 10 + decimal_value(digit(n % 10)));
        assert(n == (n / 10) * 10 + n % 10);
        assert(read_decimal(s) == n);
        assert forall|i: int| 0 <= i < s.len() implies is_decimal_digit(#[trigger] s[i]) by {
            if i < p.len() {
                assert(s[i] == p[i]);
            }
        }
        assert(s[0] == p[0]);
        if p[0] == '0' {
            assert(false);
        }
    }
}

/// Law: `hex(n)` is the lowercase base-sixteen writing of `n`.
pub proof fn hex_writes_n(n: nat)
    ensures
        writes_hex(hex(n), n),
    decreases n,
{
    lemma_hex_digit_value(n % 16);
    if n < 16 {
        assert(n % 16 == n);
        assert(hex(n).drop_last().len() == 0);
        assert(hex(n).last() == hex_digit(n));
        assert(read_hex(hex(n)) == read_hex(hex(n).drop_last()) * 16 + hex_value(hex_digit(n)));
        assert(read_hex(hex(n)) == n);
    }
    if n >= 16 {
        hex_writes_n(n / 16);
        let p = hex(n / 16);
        let s = hex(n);
        assert(s.drop_last() =~= p);
        assert(s.last() == hex_digit(n % 16));
        assert(read_hex(s) == read_hex(p) * 16 + hex_value(hex_digit(n % 16)));
        assert(n == (n / 16) * 16 + n % 16);
        assert(read_hex(s) == n);
        assert forall|i: int| 0 <= i < s.len() implies is_hex_digit(#[trigger] s[i]) by {
            if i < p.len() {
                assert(s[i] == p[i]);
            }
        }
        assert(s[0] == p[0]);
    }
}

/// Law: a writing in base ten is unique: two numbers with the same writing are
/// the same number, and two writings of one number are the same text.
pub proof fn decimal_writing_is_unique(s: Seq<char>, t: Seq<char>, n: nat, m: nat)
    requires
        writes_decimal(s, n),
        writes_decimal(t, m),
    ensures
        s == t <==> n == m,
{
    if s == t {
    }
    if n == m {
        lemma_decimal_writing_unique(s, t, n);
    }
}

proof fn lemma_decimal_writing_unique(s: Seq<char>, t: Seq<char>, n: nat)
    requires
        writes_decimal(s, n),
        writes_decimal(t, n),
    ensures
        s == t,
    decreases s.len(),
{
    let ls = s.last();
    let lt = t.last();
    assert(is_decimal_digit(s[s.len() - 1]));
    assert(is_decimal_digit(t[t.len() - 1]));
    // the last digit is n mod 10
    assert(decimal_value(ls) == n % 10) by (nonlinear_arith)
        requires
            n == read_decimal(s.drop_last()) * 10 + decimal_value(ls),
            0 <= decimal_value(ls) < 10,
    ;
    assert(decimal_value(lt) == n % 10) by (nonlinear_arith)
        requires
            n == read_decimal(t.drop_last()) * 10 + decimal_value(lt),
            0 <= decimal_value(lt) < 10,
    ;
    assert(ls == lt);
    if s.len() == 1 && t.len() == 1 {
        assert(s =~= t);
    } else if s.len() == 1 {
        // n < 10, so the longer t would start with zero
        let p = t.drop_last();
        assert forall|i: int| 0 <= i < p.len() implies is_decimal_digit(#[trigger] p[i]) by {
            assert(p[i] == t[i]);
        }
        assert(p[0] == t[0]);
        if t[0] != '0' {
            lemma_read_decimal_positive(p);
        }
        assert(read_decimal(p) * 10 + decimal_value(lt) >= 10) by (nonlinear_arith)
            requires read_decimal(p) >= 1, decimal_value(lt) >= 0;
    } else if t.len() == 1 {
        let p = s.drop_last();
        assert forall|i: int| 0 <= i < p.len() implies is_decimal_digit(#[trigger] p[i]) by {
            assert(p[i] == s[i]);
        }
        assert(p[0] == s[0]);
        if s[0] != '0' {
            lemma_read_decimal_positive(p);
        }
        assert(read_decimal(p) * 10 + decimal_value(ls) >= 10) by (nonlinear_arith)
            requires read_decimal(p) >= 1, decimal_value(ls) >= 0;
    } else {
        let ps = s.drop_last();
        let pt = t.drop_last();
        assert forall|i: int| 0 <= i < ps.len() implies is_decimal_digit(#[trigger] ps[i]) by {
            assert(ps[i] == s[i]);
        }
        assert forall|i: int| 0 <= i < pt.len() implies is_decimal_digit(#[trigger] pt[i]) by {
            assert(pt[i] == t[i]);
        }
        assert(ps[0] == s[0]);
        assert(pt[0] == t[0]);
        lemma_read_decimal_positive(ps);
        lemma_read_decimal_positive(pt);
        assert(read_decimal(ps) == read_decimal(pt));
        lemma_decimal_writing_unique(ps, pt, read_decimal(ps) as nat);
        assert(s =~= ps.push(ls));
        assert(t =~= pt.push(lt));
    }
}

/// Law: `starts_with` is being a prefix: `s` begins with `prefix` exactly when
/// it is `prefix` followed by the rest of `s`, and never when their first
/// characters differ.
pub proof fn starts_with_is_prefix(s: Seq<char>, prefix: Seq<char>, rest: Seq<char>)
    ensures
        starts_with(s, prefix) <==> s == prefix + s.skip(prefix.len() as int),
        starts_with(prefix + rest, prefix),
        prefix.len() > 0 && s.len() > 0 && s[0] != prefix[0] ==> !starts_with(s, prefix),
{
    if starts_with(s, prefix) {
        assert(s =~= prefix + s.skip(prefix.len() as int));
    }
    if s == prefix + s.skip(prefix.len() as int) {
        assert(s.take(prefix.len() as int) =~= prefix);
    }
    assert((prefix + rest).take(prefix.len() as int) =~= prefix);
    if prefix.len() > 0 && s.len() > 0 && s[0] != prefix[0] && prefix.len() <= s.len() {
        assert(s.take(prefix.len() as int)[0] == s[0]);
    }
}

/// Whether `s` begins with `prefix`.
pub fn has_prefix(s: &str, prefix: &str) -> (r: bool)
    ensures
        r == starts_with(s@, prefix@),
        r == (prefix@.len() <= s@.len() && forall|j: int|
            0 <= j < prefix@.len() ==> s@[j] == #[trigger] prefix@[j]),
{
    let n = prefix.unicode_len();
    if s.unicode_len() < n {
        return false;
    }
    let mut i: usize = 0;
    while i < n
        invariant
            n == prefix@.len(),
            n <= s@.len(),
            i <= n,
            forall|j: int| 0 <= j < i ==> s@[j] == prefix@[j],
        decreases n - i,
    {
        if s.get_char(i) != prefix.get_char(i) {
            assert(s@.take(n as int)[i as int] != prefix@[i as int]);
            assert(s@[i as int] != prefix@[i as int]);
            return false;
        }
        i = i + 1;
    }
    assert(s@.take(n as int) =~= prefix@);
    assert forall|j: int| 0 <= j < prefix@.len() implies s@[j] == #[trigger] prefix@[j] by {
        assert(s@.take(n as int)[j] == s@[j]);
    }
    true
}

/// Whether `s` and `t` hold the same characters.
pub fn same_text(s: &str, t: &str) -> (r: bool)
    ensures
        r == (s@ == t@),
{
    if s.unicode_len() != t.unicode_len() {
        return false;
    }
    let r = has_prefix(s, t);
    assert(s@.take(t@.len() as int) =~= s@);
    r
}

/// The digit of `d`, as text.
fn digit_text(d: usize) -> (r: &'static str)
    requires
        d < 10,
    ensures
        r@ == seq![digit(d as nat)],
{
    proof {
        reveal_strlit("0");
        reveal_strlit("1");
        reveal_strlit("2");
        reveal_strlit("3");
        reveal_strlit("4");
        reveal_strlit("5");
        reveal_strlit("6");
        reveal_strlit("7");
        reveal_strlit("8");
        reveal_strlit("9");
    }
    match d {
        0 => "0",
        1 => "1",
        2 => "2",
        3 => "3",
        4 => "4",
        5 => "5",
        6 => "6",
        7 => "7",
        8 => "8",
        _ => "9",
    }
}

/// The hexadecimal digit of `d`, as text.
fn hex_digit_text(d: usize) -> (r: &'static str)
    requires
        d < 16,
    ensures
        r@ == seq![hex_digit(d as nat)],
{
    if d < 10 {
        return digit_text(d);
    }
    proof {
        reveal_strlit("a");
        reveal_strlit("b");
        reveal_strlit("c");
        reveal_strlit("d");
        reveal_strlit("e");
        reveal_strlit("f");
    }
    match d {
        10 => "a",
        11 => "b",
        12 => "c",
        13 => "d",
        14 => "e",
        _ => "f",
    }
}

/// The lowercase hexadecimal writing of `n`.
pub fn hex_string(n: usize) -> (r: String)
    ensures
        r@ == hex(n as nat),
        writes_hex(r@, n as nat),
    decreases n,
{
    proof {
        hex_writes_n(n as nat);
    }
    if n < 16 {
        String::from_str(hex_digit_text(n))
    } else {
        let mut s = hex_string(n / 16);
        s.append(hex_digit_text(n % 16));
        s
    }
}

/// The decimal writing of `n`.
pub fn decimal_string(n: usize) -> (r: String)
    ensures
        r@ == decimal(n as nat),
        writes_decimal(r@, n as nat),
    decreases n,
{
    proof {
        decimal_writes_n(n as nat);
    }
    if n < 10 {
        String::from_str(digit_text(n))
    } else {
        let mut s = decimal_string(n / 10);
        s.append(digit_text(n % 10));
        s
    }
}

} // verus!
