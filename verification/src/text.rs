use vstd::prelude::*;
use vstd::string::*;

verus! {

/// True for the ten decimal digit characters.
pub open spec fn is_digit(c: char) -> bool {
    '0' <= c && c <= '9'
}

/// True when every character of `s` is a decimal digit.
pub open spec fn all_digits(s: Seq<char>) -> bool {
    forall|i: int| 0 <= i < s.len() ==> is_digit(#[trigger] s[i])
}

/// The numeric weight of one digit character.
pub open spec fn digit_value(c: char) -> int {
    c as int - '0' as int
}

/// The number written in decimal by the digit characters of `s`.
pub open spec fn dec_value(s: Seq<char>) -> int
    decreases s.len(),
{
    if s.len() == 0 {
        0
    } else {
        10 * dec_value(s.drop_last()) + digit_value(s.last())
    }
}

/// A longer digit prefix never denotes a smaller number.
proof fn lemma_dec_value_prefix(s: Seq<char>, i: int)
    requires
        0 <= i <= s.len(),
        all_digits(s),
    ensures
        0 <= dec_value(s.take(i)) <= dec_value(s),
    decreases s.len() - i,
{
    if i == s.len() {
        assert(s.take(i) =~= s);
        lemma_dec_value_nonneg(s);
    } else {
        lemma_dec_value_prefix(s, i + 1);
        assert(s.take(i + 1).drop_last() =~= s.take(i));
        assert(s.take(i + 1).last() == s[i]);
        lemma_dec_value_nonneg(s.take(i));
    }
}

/// A decimal reading is never negative.
proof fn lemma_dec_value_nonneg(s: Seq<char>)
    requires
        all_digits(s),
    ensures
        dec_value(s) >= 0,
    decreases s.len(),
{
    if s.len() > 0 {
        assert(all_digits(s.drop_last()));
        lemma_dec_value_nonneg(s.drop_last());
        assert(is_digit(s.last()));
    }
}

/// Parses a string as a decimal number: succeeds exactly when the text is
/// one or more digits whose value fits in `usize`.
pub fn string_to_usize(txt: &str) -> (r: Option<usize>)
    ensures
        match r {
            Some(v) => {
                &&& txt@.len() > 0
                &&& all_digits(txt@)
                &&& v as int == dec_value(txt@)
            },
            None => txt@.len() == 0 || !all_digits(txt@) || dec_value(txt@) > usize::MAX,
        },
{
    let n = txt.unicode_len();
    if n == 0 {
        return None;
    }
    let mut acc: usize = 0;
    let mut i: usize = 0;
    while i < n
        invariant
            i <= n,
            n == txt@.len(),
            all_digits(txt@.take(i as int)),
            acc as int == dec_value(txt@.take(i as int)),
        decreases n - i,
    {
        let c = txt.get_char(i);
        if c < '0' || c > '9' {
            assert(!is_digit(txt@[i as int]));
            return None;
        }
        let d = (c as u32 - 48) as usize;
        assert(d == digit_value(txt@[i as int]));
        if acc > (usize::MAX - d) / 10 {
            proof {
                assert(10 * (acc as int) + d > usize::MAX) by (nonlinear_arith)
                    requires
                        acc as int > (usize::MAX as int - d as int) / 10,
                        0 <= d <= 9,
                ;
                assert(txt@.take(i + 1).drop_last() =~= txt@.take(i as int));
                assert(all_digits(txt@.take(i + 1)));
                if all_digits(txt@) {
                    lemma_dec_value_prefix(txt@, i + 1);
                }
            }
            return None;
        }
        proof {
            assert(10 * (acc as int) + d <= usize::MAX) by (nonlinear_arith)
                requires
                    acc as int <= (usize::MAX as int - d as int) / 10,
                    0 <= d <= 9,
            ;
            assert(txt@.take(i + 1).drop_last() =~= txt@.take(i as int));
        }
        acc = acc * 10 + d;
        i += 1;
    }
    proof {
        assert(txt@.take(n as int) =~= txt@);
    }
    Some(acc)
}

/// Decides character equality of two strings.
pub fn str_eq(a: &str, b: &str) -> (r: bool)
    ensures
        r == (a@ == b@),
{
    let an = a.unicode_len();
    let bn = b.unicode_len();
    if an != bn {
        return false;
    }
    let mut i: usize = 0;
    while i < an
        invariant
            i <= an,
            an == a@.len(),
            an == b@.len(),
            forall|j: int| 0 <= j < i ==> a@[j] == b@[j],
        decreases an - i,
    {
        if a.get_char(i) != b.get_char(i) {
            return false;
        }
        i += 1;
    }
    proof {
        assert(a@ =~= b@);
    }
    true
}

/// True when `sub` occurs as a contiguous run of characters inside `hay`.
pub open spec fn has_substring(hay: Seq<char>, sub: Seq<char>) -> bool {
    exists|i: int|
        0 <= i <= hay.len() - sub.len() && #[trigger] hay.subrange(i, i + sub.len()) == sub
}

/// True when `sub` occurs in `hay` starting at position `at`.
fn matches_at(hay: &str, sub: &str, at: usize) -> (b: bool)
    requires
        at + sub@.len() <= hay@.len(),
    ensures
        b == (hay@.subrange(at as int, at + sub@.len()) == sub@),
{
    let hn = hay.unicode_len();
    let sn = sub.unicode_len();
    let mut j: usize = 0;
    while j < sn
        invariant
            j <= sn,
            sn == sub@.len(),
            hn == hay@.len(),
            at + sn <= hn,
            forall|k: int| 0 <= k < j ==> hay@[at + k] == #[trigger] sub@[k],
        decreases sn - j,
    {
        if hay.get_char(at + j) != sub.get_char(j) {
            proof {
                assert(hay@.subrange(at as int, at + sub@.len())[j as int] == hay@[at + j]);
            }
            return false;
        }
        j += 1;
    }
    proof {
        assert(hay@.subrange(at as int, at + sub@.len()) =~= sub@);
    }
    true
}

/// Decides whether `sub` occurs anywhere inside `hay`.
pub fn str_contains(hay: &str, sub: &str) -> (b: bool)
    ensures
        b == has_substring(hay@, sub@),
{
    let hn = hay.unicode_len();
    let sn = sub.unicode_len();
    if sn > hn {
        return false;
    }
    let last = hn - sn;
    let mut i: usize = 0;
    loop
        invariant_except_break
            sn <= hn,
            hn == hay@.len(),
            sn == sub@.len(),
            last == hn - sn,
            i <= last,
            forall|k: int|
                0 <= k < i ==> #[trigger] hay@.subrange(k, k + sub@.len()) != sub@,
        ensures
            forall|k: int|
                0 <= k <= hay@.len() - sub@.len() ==> #[trigger] hay@.subrange(
                    k,
                    k + sub@.len(),
                ) != sub@,
        decreases last - i,
    {
        if matches_at(hay, sub, i) {
            return true;
        }
        if i == last {
            break;
        }
        i += 1;
    }
    false
}

} // verus!
