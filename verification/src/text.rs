use vstd::prelude::*;
use vstd::string::*;

verus! {

/// The character of a decimal digit.
pub open spec fn digit_char(d: nat) -> char {
    if d == 0 { '0' } else if d == 1 { '1' } else if d == 2 { '2' } else if d == 3 { '3' }
    else if d == 4 { '4' } else if d == 5 { '5' } else if d == 6 { '6' } else if d == 7 { '7' }
    else if d == 8 { '8' } else { '9' }
}

/// The decimal text of a natural number, without sign or leading zeros.
pub open spec fn decimal(n: nat) -> Seq<char>
    decreases n,
{
    if n < 10 {
        seq![digit_char(n)]
    } else {
        decimal(n / 10) + seq![digit_char(n % 10)]
    }
}

fn digit_string(d: u64) -> (s: String)
    requires
        d < 10,
    ensures
        s@ == seq![digit_char(d as nat)],
{
    proof {
        reveal_strlit("0");
        reveal_strlit("1");
        reveal_strlit("2");
        reveal_strlit("3");
        reveal_strlit("4");
        reveal_strlit("5");
        reveal_strlit("6");
        reveal_strlit("7");
        reveal_strlit("8");
        reveal_strlit("9");
    }
    if d == 0 { String::from_str("0") } else if d == 1 { String::from_str("1") }
    else if d == 2 { String::from_str("2") } else if d == 3 { String::from_str("3") }
    else if d == 4 { String::from_str("4") } else if d == 5 { String::from_str("5") }
    else if d == 6 { String::from_str("6") } else if d == 7 { String::from_str("7") }
    else if d == 8 { String::from_str("8") } else { String::from_str("9") }
}

/// Decimal text of a number, as `to_string` writes it.
pub fn u64_to_decimal(n: u64) -> (s: String)
    ensures
        s@ == decimal(n as nat),
    decreases n,
{
    if n < 10 {
        digit_string(n)
    } else {
        let mut s = u64_to_decimal(n / 10);
        let d = digit_string(n % 10);
        s.append(d.as_str());
        s
    }
}

} // verus!

verus! {

/// A piece of text between double quotes.
pub open spec fn quoted(s: Seq<char>) -> Seq<char> {
    seq!['"'] + s + seq!['"']
}

/// The first `n` items, each between double quotes, joined by commas.
pub open spec fn quoted_join(items: Seq<Seq<char>>, n: nat) -> Seq<char>
    decreases n,
{
    if n == 0 {
        Seq::empty()
    } else if n == 1 {
        quoted(items[0])
    } else {
        quoted_join(items, (n - 1) as nat) + seq![','] + quoted(items[n - 1])
    }
}

/// The first `n` pieces written one after the other.
pub open spec fn concat_all(items: Seq<Seq<char>>, n: nat) -> Seq<char>
    decreases n,
{
    if n == 0 {
        Seq::empty()
    } else {
        concat_all(items, (n - 1) as nat) + items[n - 1]
    }
}

/// The views of a sequence of strings.
pub open spec fn strings_view(v: Seq<String>) -> Seq<Seq<char>> {
    v.map_values(|s: String| s@)
}

/// The views of a sequence of string slices.
pub open spec fn strs_view(v: Seq<&str>) -> Seq<Seq<char>> {
    v.map_values(|s: &str| s@)
}

/// Writes each item between double quotes, separated by commas.
pub fn join_quoted(items: &[String]) -> (s: String)
    ensures
        s@ == quoted_join(strings_view(items@), items@.len()),
{
    let ghost v = strings_view(items@);
    let mut s = String::new();
    let mut i: usize = 0;
    while i < items.len()
        invariant
            i <= items@.len(),
            v == strings_view(items@),
            s@ == quoted_join(v, i as nat),
        decreases items@.len() - i,
    {
        proof {
            reveal_strlit("\"");
            reveal_strlit(",");
        }
        if i > 0 {
            s.append(",");
        }
        let ghost sep = s@;
        s.append("\"");
        s.append(items[i].as_str());
        s.append("\"");
        proof {
            assert(v[i as int] == items@[i as int]@);
            assert(s@ =~= sep + quoted(v[i as int]));
            if i == 0 {
                assert(sep =~= Seq::<char>::empty());
                assert(s@ =~= quoted_join(v, 1));
            } else {
                assert(sep =~= quoted_join(v, i as nat) + seq![',']);
                assert(s@ =~= quoted_join(v, (i + 1) as nat));
            }
        }
        i = i + 1;
    }
    s
}

/// Writes all pieces one after the other.
pub fn concat_strs(items: &[&str]) -> (s: String)
    ensures
        s@ == concat_all(strs_view(items@), items@.len()),
{
    let ghost v = strs_view(items@);
    let mut s = String::new();
    let mut i: usize = 0;
    while i < items.len()
        invariant
            i <= items@.len(),
            v == strs_view(items@),
            s@ == concat_all(v, i as nat),
        decreases items@.len() - i,
    {
        s.append(items[i]);
        proof {
            assert(v[i as int] == items@[i as int]@);
            assert(s@ =~= concat_all(v, (i + 1) as nat));
        }
        i = i + 1;
    }
    s
}

} // verus!

verus! {

/// Whether a list of strings holds the given string.
pub fn contains_string(items: &Vec<String>, s: &String) -> (r: bool)
    ensures
        r == strings_view(items@).contains(s@),
{
    let ghost v = strings_view(items@);
    let mut i: usize = 0;
    while i < items.len()
        invariant
            i <= items@.len(),
            v == strings_view(items@),
            forall|j: int| 0 <= j < i ==> v[j] != s@,
        decreases items@.len() - i,
    {
        if items[i] == *s {
            proof {
                assert(v[i as int] == s@);
            }
            return true;
        }
        i = i + 1;
    }
    proof {
        if v.contains(s@) {
            let k = choose|k: int| 0 <= k < v.len() && v[k] == s@;
            assert(v[k] != s@);
        }
    }
    false
}

} // verus!

verus! {

/// Whether two strings are equal, character by character.
pub fn eq_str(a: &str, b: &str) -> (r: bool)
    ensures
        r == (a@ == b@),
{
    let n = a.unicode_len();
    if n != b.unicode_len() {
        return false;
    }
    let mut i: usize = 0;
    while i < n
        invariant
            n == a@.len(),
            n == b@.len(),
            i <= n,
            forall|j: int| 0 <= j < i ==> a@[j] == b@[j],
        decreases n - i,
    {
        if a.get_char(i) != b.get_char(i) {
            return false;
        }
        i = i + 1;
    }
    proof {
        assert(a@ =~= b@);
    }
    true
}


/// Where a pattern first occurs in a text, looking from position `i` on.
pub open spec fn find_from(s: Seq<char>, p: Seq<char>, i: nat) -> Option<nat>
    decreases s.len() + 1 - i,
{
    if i + p.len() > s.len() {
        None
    } else if s.subrange(i as int, (i + p.len()) as int) == p {
        Some(i)
    } else {
        find_from(s, p, i + 1)
    }
}

/// The text before and after the first occurrence of a pattern, as `str::split_once` gives them.
pub open spec fn split_once_spec(s: Seq<char>, p: Seq<char>) -> Option<(Seq<char>, Seq<char>)> {
    match find_from(s, p, 0) {
        Some(i) => Some((s.subrange(0, i as int), s.subrange((i + p.len()) as int, s.len() as int))),
        None => None,
    }
}

/// Splits a text at the first occurrence of a pattern.
pub fn split_once(s: &str, pat: &str) -> (r: Option<(String, String)>)
    ensures
        match r {
            Some((a, b)) => split_once_spec(s@, pat@) == Some((a@, b@)),
            None => split_once_spec(s@, pat@) is None,
        },
{
    let n = s.unicode_len();
    let m = pat.unicode_len();
    if m == 0 {
        proof {
            assert(s@.subrange(0, 0) =~= pat@);
            assert(s@.subrange(0, s@.len() as int) =~= s@);
        }
        return Some((String::new(), String::from_str(s)));
    }
    if m > n {
        return None;
    }
    let mut i: usize = 0;
    while i <= n - m
        invariant
            n == s@.len(),
            m == pat@.len(),
            1 <= m <= n,
            find_from(s@, pat@, 0) == find_from(s@, pat@, i as nat),
        decreases n + 1 - i,
    {
        let part = s.substring_char(i, i + m);
        if eq_str(part, pat) {
            let before = s.substring_char(0, i);
            let after = s.substring_char(i + m, n);
            return Some((String::from_str(before), String::from_str(after)));
        }
        i = i + 1;
    }
    None
}

pub open spec fn is_digit(c: char) -> bool {
    '0' <= c && c <= '9'
}

pub open spec fn digit_value(c: char) -> nat {
    (c as u32 - '0' as u32) as nat
}

/// The number written by a sequence of decimal digits.
pub open spec fn digits_value(d: Seq<char>) -> nat
    decreases d.len(),
{
    if d.len() == 0 {
        0
    } else {
        digits_value(d.drop_last()) * 10 + digit_value(d.last())
    }
}

/// Whether every character is a decimal digit.
pub open spec fn all_digits(d: Seq<char>) -> bool {
    forall|i: int| 0 <= i < d.len() ==> is_digit(#[trigger] d[i])
}

/// What `str::parse::<u32>` gives: an optional `+`, then at least one decimal digit and nothing
/// else, for a value that fits.
pub open spec fn parse_u32_spec(s: Seq<char>) -> Option<u32> {
    let d = if s.len() > 0 && s[0] == '+' {
        s.drop_first()
    } else {
        s
    };
    if d.len() > 0 && all_digits(d) && digits_value(d) <= u32::MAX {
        Some(digits_value(d) as u32)
    } else {
        None
    }
}

proof fn lemma_digits_value_grows(d: Seq<char>, c: char)
    requires
        is_digit(c),
    ensures
        digits_value(d.push(c)) == digits_value(d) * 10 + digit_value(c),
        digits_value(d.push(c)) >= digits_value(d),
{
    assert(d.push(c).drop_last() =~= d);
}

proof fn lemma_parse_none_when_not_digits(s: Seq<char>, d: Seq<char>)
    requires
        d == (if s.len() > 0 && s[0] == '+' {
            s.drop_first()
        } else {
            s
        }),
        !all_digits(d) || digits_value(d) > u32::MAX,
    ensures
        parse_u32_spec(s) is None,
{
}

/// Reads a decimal number that fits in a `u32`.
pub fn parse_u32(s: &str) -> (r: Option<u32>)
    ensures
        r == parse_u32_spec(s@),
{
    let n = s.unicode_len();
    let start: usize = if n > 0 && s.get_char(0) == '+' { 1 } else { 0 };
    let ghost d = if s@.len() > 0 && s@[0] == '+' {
        s@.drop_first()
    } else {
        s@
    };
    proof {
        assert(d =~= s@.subrange(start as int, n as int));
    }
    if start >= n {
        return None;
    }
    let mut value: u64 = 0;
    let mut i: usize = start;
    while i < n
        invariant
            n == s@.len(),
            start <= i <= n,
            d =~= s@.subrange(start as int, n as int),
            d == (if s@.len() > 0 && s@[0] == '+' {
                s@.drop_first()
            } else {
                s@
            }),
            forall|j: int| start <= j < i ==> is_digit(#[trigger] s@[j]),
            value == digits_value(s@.subrange(start as int, i as int)),
            value <= u32::MAX,
        decreases n - i,
    {
        let c = s.get_char(i);
        if c < '0' || c > '9' {
            proof {
                assert(d[i - start] == c);
                assert(!is_digit(d[i - start]));
                assert(!all_digits(d));
                lemma_parse_none_when_not_digits(s@, d);
            }
            return None;
        }
        let v = value * 10 + (c as u64 - '0' as u64);
        proof {
            assert(s@.subrange(start as int, i + 1) =~= s@.subrange(start as int, i as int).push(c));
            lemma_digits_value_grows(s@.subrange(start as int, i as int), c);
        }
        if v > 4294967295u64 {
            proof {
                let pre = s@.subrange(start as int, i + 1);
                let rest = s@.subrange(i + 1, n as int);
                assert(pre + rest =~= d);
                if all_digits(d) {
                    assert forall|k: int| 0 <= k < rest.len() implies is_digit(#[trigger] rest[k]) by {
                        assert(rest[k] == d[k + (i + 1 - start)]);
                    }
                    lemma_digits_prefix_bound(pre, rest);
                }
                lemma_parse_none_when_not_digits(s@, d);
            }
            return None;
        }
        value = v;
        i = i + 1;
    }
    proof {
        assert(s@.subrange(start as int, n as int) =~= d);
    }
    Some(value as u32)
}

/// Digits after a prefix never make the number smaller.
proof fn lemma_digits_prefix_bound(a: Seq<char>, b: Seq<char>)
    ensures
        (forall|i: int| 0 <= i < b.len() ==> is_digit(#[trigger] b[i])) ==> digits_value(a + b) >= digits_value(a),
    decreases b.len(),
{
    if b.len() > 0 && (forall|i: int| 0 <= i < b.len() ==> is_digit(#[trigger] b[i])) {
        let b1 = b.drop_last();
        assert forall|i: int| 0 <= i < b1.len() implies is_digit(#[trigger] b1[i]) by {
            assert(b1[i] == b[i]);
        }
        lemma_digits_prefix_bound(a, b1);
        assert((a + b).drop_last() =~= a + b1);
        assert(is_digit(b.last()));
        lemma_digits_value_grows(a + b1, b.last());
        assert(a + b1.push(b.last()) =~= a + b);
        assert((a + b1).push(b.last()) =~= a + b);
    } else if b.len() == 0 {
        assert(a + b =~= a);
    }
}

/// The index of the first of `names` equal to `name`, if any.
pub open spec fn first_index(names: Seq<Seq<char>>, name: Seq<char>, n: nat) -> Option<int>
    decreases n,
{
    if n == 0 {
        None
    } else {
        match first_index(names, name, (n - 1) as nat) {
            Some(i) => Some(i),
            None => if names[n - 1] == name {
                Some(n - 1)
            } else {
                None
            },
        }
    }
}

/// Once found among the first `k` names, the first index stays the same among more of them.
pub proof fn lemma_first_index_stable(names: Seq<Seq<char>>, name: Seq<char>, k: nat, m: nat)
    requires
        k <= m,
        first_index(names, name, k) is Some,
    ensures
        first_index(names, name, m) == first_index(names, name, k),
    decreases m - k,
{
    if k < m {
        lemma_first_index_stable(names, name, k, (m - 1) as nat);
    }
}

/// The index of the first of `names` equal to `name`.
pub fn find_name(names: &Vec<String>, name: &str) -> (r: Option<usize>)
    ensures
        match r {
            Some(i) => first_index(strings_view(names@), name@, names@.len()) == Some(i as int),
            None => first_index(strings_view(names@), name@, names@.len()) is None,
        },
{
    let ghost v = strings_view(names@);
    let mut i: usize = 0;
    while i < names.len()
        invariant
            i <= names@.len(),
            v == strings_view(names@),
            first_index(v, name@, i as nat) is None,
        decreases names@.len() - i,
    {
        if eq_str(names[i].as_str(), name) {
            proof {
                lemma_first_index_stable(v, name@, (i + 1) as nat, names@.len());
            }
            return Some(i);
        }
        i = i + 1;
    }
    None
}

} // verus!
