//! Decimal digits and colon scanning over character sequences.
//!
//! Forwarding specs, probe targets and SSH arguments are all built from
//! decimal port numbers and colon-separated fields; this module holds the
//! spec-level model of both and the verified executable helpers.

use vstd::prelude::*;

verus! {

/// A decimal digit character.
pub open spec fn is_dec_digit(c: char) -> bool {
    48 <= c as int && c as int <= 57
}

/// The numeric value of a digit character.
pub open spec fn dec_digit_val(c: char) -> int {
    c as int - 48
}

/// The digit character for a value in 0..=9.
pub open spec fn dec_digit_char(d: int) -> char {
    if d == 0 {
        '0'
    } else if d == 1 {
        '1'
    } else if d == 2 {
        '2'
    } else if d == 3 {
        '3'
    } else if d == 4 {
        '4'
    } else if d == 5 {
        '5'
    } else if d == 6 {
        '6'
    } else if d == 7 {
        '7'
    } else if d == 8 {
        '8'
    } else {
        '9'
    }
}

/// Every character of the sequence is a decimal digit.
pub open spec fn all_digits(s: Seq<char>) -> bool {
    forall|i: int| 0 <= i < s.len() ==> is_dec_digit(s[i])
}

/// The value of a digit sequence read as a decimal number.
pub open spec fn dec_val(s: Seq<char>) -> int
    decreases s.len(),
{
    if s.len() == 0 {
        0
    } else {
        dec_val(s.drop_last()) * 10 + dec_digit_val(s[s.len() - 1])
    }
}

/// The canonical decimal rendering of a non-negative number.
pub open spec fn dec_rep(n: int) -> Seq<char>
    decreases n,
{
    if n < 10 {
        seq![dec_digit_char(n)]
    } else {
        dec_rep(n / 10).push(dec_digit_char(n % 10))
    }
}

/// What `u16` decimal parsing returns: the value, if the string is a
/// non-empty digit string whose value fits.
pub open spec fn parse_u16_spec(s: Seq<char>) -> Option<u16> {
    if s.len() > 0 && all_digits(s) && dec_val(s) <= 65535 {
        Some(dec_val(s) as u16)
    } else {
        None
    }
}

/// The sequence contains no colon.
pub open spec fn no_colon(s: Seq<char>) -> bool {
    forall|i: int| 0 <= i < s.len() ==> s[i] != ':'
}

/// Index of the last colon in the sequence, or -1 if there is none.
pub open spec fn last_colon(s: Seq<char>) -> int
    decreases s.len(),
{
    if s.len() == 0 {
        -1
    } else if s[s.len() - 1] == ':' {
        s.len() - 1
    } else {
        last_colon(s.drop_last())
    }
}

/// `last_colon` finds a colon with nothing but non-colons after it,
/// and is -1 exactly on colon-free sequences.
pub proof fn lemma_last_colon_props(s: Seq<char>)
    ensures
        -1 <= last_colon(s) < s.len(),
        last_colon(s) == -1 <==> no_colon(s),
        last_colon(s) >= 0 ==> s[last_colon(s)] == ':',
        forall|j: int| last_colon(s) < j < s.len() ==> s[j] != ':',
    decreases s.len(),
{
    if s.len() == 0 {
    } else if s[s.len() - 1] == ':' {
    } else {
        lemma_last_colon_props(s.drop_last());
        assert forall|j: int| last_colon(s) < j < s.len() implies s[j] != ':' by {
            if j < s.len() - 1 {
                assert(s.drop_last()[j] != ':');
            }
        }
        if no_colon(s.drop_last()) && s[s.len() - 1] != ':' {
            assert forall|i: int| 0 <= i < s.len() implies s[i] != ':' by {
                if i < s.len() - 1 {
                    assert(s.drop_last()[i] != ':');
                }
            }
        }
        if no_colon(s) {
            assert forall|i: int| 0 <= i < s.drop_last().len() implies s.drop_last()[i] != ':' by {
                assert(s[i] != ':');
            }
        }
    }
}

/// The last colon of `a + ":" + b` stands at `a.len()` when `b` is
/// colon-free.
pub proof fn lemma_last_colon_concat(a: Seq<char>, b: Seq<char>)
    requires
        no_colon(b),
    ensures
        last_colon(a + seq![':'] + b) == a.len(),
    decreases b.len(),
{
    let s = a + seq![':'] + b;
    if b.len() == 0 {
        assert(s[s.len() - 1] == ':');
    } else {
        assert(s[s.len() - 1] == b[b.len() - 1]);
        assert(s[s.len() - 1] != ':');
        let b2 = b.drop_last();
        assert(no_colon(b2)) by {
            assert forall|i: int| 0 <= i < b2.len() implies b2[i] != ':' by {
                assert(b[i] != ':');
            }
        }
        lemma_last_colon_concat(a, b2);
        assert(s.drop_last() =~= a + seq![':'] + b2);
    }
}

/// A canonical decimal rendering is a non-empty digit string without colons.
pub proof fn lemma_dec_rep_digits(n: int)
    requires
        0 <= n,
    ensures
        dec_rep(n).len() >= 1,
        all_digits(dec_rep(n)),
        no_colon(dec_rep(n)),
    decreases n,
{
    if n < 10 {
        assert(is_dec_digit(dec_digit_char(n)));
    } else {
        lemma_dec_rep_digits(n / 10);
        let s = dec_rep(n);
        let p = dec_rep(n / 10);
        assert(s =~= p + seq![dec_digit_char(n % 10)]);
        assert(is_dec_digit(dec_digit_char(n % 10)));
        assert forall|i: int| 0 <= i < s.len() implies is_dec_digit(s[i]) by {
            if i < p.len() {
                assert(s[i] == p[i]);
            }
        }
    }
    assert forall|i: int| 0 <= i < dec_rep(n).len() implies dec_rep(n)[i] != ':' by {
        assert(is_dec_digit(dec_rep(n)[i]));
    }
}

/// Reading back a canonical rendering yields the number again.
pub proof fn lemma_dec_val_dec_rep(n: int)
    requires
        0 <= n,
    ensures
        dec_val(dec_rep(n)) == n,
    decreases n,
{
    if n < 10 {
        let s = dec_rep(n);
        assert(s.len() == 1);
        assert(s.drop_last() =~= Seq::<char>::empty());
        assert(s[0] == dec_digit_char(n));
        assert(dec_digit_val(dec_digit_char(n)) == n);
        assert(dec_val(s) == dec_val(s.drop_last()) * 10 + dec_digit_val(s[0]));
        assert(dec_val(Seq::<char>::empty()) == 0);
    } else {
        lemma_dec_val_dec_rep(n / 10);
        let s = dec_rep(n);
        let p = dec_rep(n / 10);
        assert(s.drop_last() =~= p);
        assert(s[s.len() - 1] == dec_digit_char(n % 10));
        assert(dec_digit_val(dec_digit_char(n % 10)) == n % 10);
        assert(dec_val(s) == dec_val(p) * 10 + dec_digit_val(s[s.len() - 1]));
        assert(dec_val(s) == n / 10 * 10 + n % 10);
    }
}

/// A digit string has a non-negative value.
pub proof fn lemma_dec_val_nonneg(s: Seq<char>)
    requires
        all_digits(s),
    ensures
        dec_val(s) >= 0,
    decreases s.len(),
{
    if s.len() > 0 {
        assert forall|i: int| 0 <= i < s.drop_last().len() implies is_dec_digit(s.drop_last()[i]) by {
            assert(s.drop_last()[i] == s[i]);
        }
        lemma_dec_val_nonneg(s.drop_last());
        assert(is_dec_digit(s[s.len() - 1]));
    }
}

/// A digit string is worth at least any of its prefixes.
pub proof fn lemma_dec_val_prefix_le(s: Seq<char>, i: int)
    requires
        all_digits(s),
        0 <= i <= s.len(),
    ensures
        dec_val(s.subrange(0, i)) <= dec_val(s),
    decreases s.len() - i,
{
    if i == s.len() {
        assert(s.subrange(0, i) =~= s);
    } else {
        lemma_dec_val_prefix_le(s, i + 1);
        let p = s.subrange(0, i);
        let q = s.subrange(0, i + 1);
        assert(q.drop_last() =~= p);
        assert(all_digits(p)) by {
            assert forall|j: int| 0 <= j < p.len() implies is_dec_digit(p[j]) by {
                assert(p[j] == s[j]);
            }
        }
        lemma_dec_val_nonneg(p);
        assert(is_dec_digit(q[q.len() - 1]));
        assert(dec_val(q) == dec_val(p) * 10 + dec_digit_val(q[i]));
        assert(dec_val(p) <= dec_val(q));
    }
}

/// The digits of the sequence, reversed, as characters.
spec fn rev_chars(ds: Seq<u8>) -> Seq<char>
    decreases ds.len(),
{
    if ds.len() == 0 {
        Seq::<char>::empty()
    } else {
        seq![dec_digit_char(ds[ds.len() - 1] as int)] + rev_chars(ds.drop_last())
    }
}

proof fn lemma_rev_chars_front(ds: Seq<u8>)
    requires
        ds.len() > 0,
    ensures
        rev_chars(ds) =~= rev_chars(ds.drop_first()) + seq![dec_digit_char(ds[0] as int)],
    decreases ds.len(),
{
    if ds.len() == 1 {
        assert(ds.drop_first() =~= Seq::<u8>::empty());
        assert(ds.drop_last() =~= Seq::<u8>::empty());
    } else {
        let dl = ds.drop_last();
        lemma_rev_chars_front(dl);
        assert(dl.drop_first() =~= ds.drop_first().drop_last());
        assert(ds.drop_first()[ds.drop_first().len() - 1] == ds[ds.len() - 1]);
    }
}

/// A one-character string slice holding the given digit.
pub(crate) fn digit_str(d: u8) -> (r: &'static str)
    requires
        d <= 9,
    ensures
        r@ == seq![dec_digit_char(d as int)],
{
    match d {
        0 => {
            proof {
                reveal_strlit("0");
                assert("0"@ =~= seq![dec_digit_char(0)]);
            }
            "0"
        },
        1 => {
            proof {
                reveal_strlit("1");
                assert("1"@ =~= seq![dec_digit_char(1)]);
            }
            "1"
        },
        2 => {
            proof {
                reveal_strlit("2");
                assert("2"@ =~= seq![dec_digit_char(2)]);
            }
            "2"
        },
        3 => {
            proof {
                reveal_strlit("3");
                assert("3"@ =~= seq![dec_digit_char(3)]);
            }
            "3"
        },
        4 => {
            proof {
                reveal_strlit("4");
                assert("4"@ =~= seq![dec_digit_char(4)]);
            }
            "4"
        },
        5 => {
            proof {
                reveal_strlit("5");
                assert("5"@ =~= seq![dec_digit_char(5)]);
            }
            "5"
        },
        6 => {
            proof {
                reveal_strlit("6");
                assert("6"@ =~= seq![dec_digit_char(6)]);
            }
            "6"
        },
        7 => {
            proof {
                reveal_strlit("7");
                assert("7"@ =~= seq![dec_digit_char(7)]);
            }
            "7"
        },
        8 => {
            proof {
                reveal_strlit("8");
                assert("8"@ =~= seq![dec_digit_char(8)]);
            }
            "8"
        },
        _ => {
            proof {
                reveal_strlit("9");
                assert("9"@ =~= seq![dec_digit_char(9)]);
            }
            "9"
        },
    }
}

/// Render a number in canonical decimal.
pub(crate) fn u64_to_string(n: u64) -> (r: String)
    ensures
        r@ == dec_rep(n as int),
{
    let mut digits: Vec<u8> = Vec::new();
    let mut m: u64 = n;
    while m >= 10
        invariant
            dec_rep(n as int) == dec_rep(m as int) + rev_chars(digits@),
            forall|j: int| 0 <= j < digits@.len() ==> digits@[j] <= 9,
        decreases m,
    {
        let d: u8 = (m % 10) as u8;
        proof {
            let ds2 = digits@.push(d);
            assert(ds2.drop_last() =~= digits@);
            assert(rev_chars(ds2) =~= seq![dec_digit_char(d as int)] + rev_chars(digits@));
            assert(dec_rep(m as int) =~= dec_rep(m as int / 10).push(dec_digit_char(m as int % 10)));
            assert(dec_rep(m as int / 10).push(dec_digit_char(m as int % 10)) =~= dec_rep(
                m as int / 10,
            ) + seq![dec_digit_char(m as int % 10)]);
            assert(dec_rep(m as int) + rev_chars(digits@) =~= dec_rep((m / 10) as int) + rev_chars(
                ds2,
            ));
        }
        digits.push(d);
        m = m / 10;
    }
    let d: u8 = m as u8;
    proof {
        let ds2 = digits@.push(d);
        assert(ds2.drop_last() =~= digits@);
        assert(rev_chars(ds2) =~= seq![dec_digit_char(d as int)] + rev_chars(digits@));
        assert(dec_rep(m as int) =~= seq![dec_digit_char(m as int)]);
        assert(dec_rep(n as int) =~= rev_chars(ds2));
    }
    digits.push(d);
    let mut r = String::new();
    let mut i: usize = digits.len();
    proof {
        assert(digits@.subrange(i as int, digits@.len() as int) =~= Seq::<u8>::empty());
    }
    while i > 0
        invariant
            i <= digits.len(),
            dec_rep(n as int) == rev_chars(digits@),
            r@ == rev_chars(digits@.subrange(i as int, digits@.len() as int)),
            forall|j: int| 0 <= j < digits@.len() ==> digits@[j] <= 9,
        decreases i,
    {
        let d = digits[i - 1];
        let ds = digit_str(d);
        proof {
            let tail = digits@.subrange(i - 1, digits@.len() as int);
            lemma_rev_chars_front(tail);
            assert(tail.drop_first() =~= digits@.subrange(i as int, digits@.len() as int));
            assert(rev_chars(tail) =~= r@ + ds@);
        }
        r.append(ds);
        i = i - 1;
    }
    proof {
        assert(digits@.subrange(0, digits@.len() as int) =~= digits@);
    }
    r
}

/// Render a 16-bit number in canonical decimal.
pub(crate) fn u16_to_string(n: u16) -> (r: String)
    ensures
        r@ == dec_rep(n as int),
{
    u64_to_string(n as u64)
}

/// Parse a decimal `u16`, accepting exactly non-empty digit strings whose
/// value fits.
pub(crate) fn parse_u16_str(s: &str) -> (r: Option<u16>)
    ensures
        r == parse_u16_spec(s@),
{
    let n = s.unicode_len();
    if n == 0 {
        return None;
    }
    let mut i: usize = 0;
    while i < n
        invariant
            n == s@.len(),
            i <= n,
            forall|j: int| 0 <= j < i ==> is_dec_digit(s@[j]),
        decreases n - i,
    {
        let c = s.get_char(i);
        let v = c as u32;
        if v < 48 || v > 57 {
            return None;
        }
        i = i + 1;
    }
    let mut val: u32 = 0;
    let mut k: usize = 0;
    proof {
        assert(s@.subrange(0, 0) =~= Seq::<char>::empty());
    }
    while k < n
        invariant
            n == s@.len(),
            k <= n,
            all_digits(s@),
            val == dec_val(s@.subrange(0, k as int)),
            val <= 65535,
        decreases n - k,
    {
        let c = s.get_char(k);
        let d: u32 = c as u32 - 48;
        let next: u32 = val * 10 + d;
        proof {
            let p = s@.subrange(0, k as int);
            let q = s@.subrange(0, k + 1);
            assert(q.drop_last() =~= p);
            assert(dec_val(q) == dec_val(p) * 10 + dec_digit_val(s@[k as int]));
        }
        if next > 65535 {
            proof {
                lemma_dec_val_prefix_le(s@, k + 1);
            }
            return None;
        }
        val = next;
        k = k + 1;
    }
    proof {
        assert(s@.subrange(0, n as int) =~= s@);
    }
    Some(val as u16)
}

/// Find the last colon strictly before `end`, scanning the character
/// prefix `s[..end]`.
pub(crate) fn rfind_colon(s: &str, end: usize) -> (r: Option<usize>)
    requires
        end <= s@.len(),
    ensures
        r is None ==> last_colon(s@.subrange(0, end as int)) == -1,
        r matches Some(i) ==> i < end && last_colon(s@.subrange(0, end as int)) == i as int,
{
    let ghost pre = s@.subrange(0, end as int);
    let mut i: usize = end;
    while i > 0
        invariant
            i <= end <= s@.len(),
            pre == s@.subrange(0, end as int),
            forall|j: int| i <= j < end ==> s@[j] != ':',
        decreases i,
    {
        let c = s.get_char(i - 1);
        if c == ':' {
            proof {
                lemma_last_colon_props(pre);
                assert(pre[i - 1] == ':');
                assert forall|j: int| i - 1 < j < pre.len() implies pre[j] != ':' by {
                    assert(pre[j] == s@[j]);
                }
            }
            return Some(i - 1);
        }
        i = i - 1;
    }
    proof {
        lemma_last_colon_props(pre);
        assert forall|j: int| 0 <= j < pre.len() implies pre[j] != ':' by {
            assert(pre[j] == s@[j]);
        }
    }
    None
}

} // verus!
