//! Identifier case conventions and name mangling for the emitted source.
//!
//! The case transforms themselves are outside collaborators: they are pure
//! string functions named here and relied upon through thin wrappers.

use vstd::prelude::*;
use vstd::string::StrSliceExecFns;
use vstd::string::StringExecFns;
use heck::ToUpperCamelCase;
use heck::ToSnakeCase;
use heck::ToShoutySnakeCase;

verus! {

pub uninterp spec fn camel_of(s: Seq<char>) -> Seq<char>;

pub uninterp spec fn snake_of(s: Seq<char>) -> Seq<char>;

pub uninterp spec fn shouty_of(s: Seq<char>) -> Seq<char>;

/// Relies on heck's `to_upper_camel_case`: the result depends on the input
/// characters alone.
#[verifier::external_body]
pub fn to_camel(s: &str) -> (r: String)
    ensures
        r@ == camel_of(s@),
{
    s.to_upper_camel_case()
}

/// Relies on heck's `to_snake_case`: the result depends on the input
/// characters alone.
#[verifier::external_body]
pub fn to_snake(s: &str) -> (r: String)
    ensures
        r@ == snake_of(s@),
{
    s.to_snake_case()
}

/// Relies on heck's `to_shouty_snake_case`: the result depends on the input
/// characters alone.
#[verifier::external_body]
pub fn to_shouty(s: &str) -> (r: String)
    ensures
        r@ == shouty_of(s@),
{
    s.to_shouty_snake_case()
}

pub open spec fn is_digit(c: char) -> bool {
    48 <= c as u32 && c as u32 <= 57
}

pub open spec fn is_digits(s: Seq<char>) -> bool {
    s.len() > 0 && forall|i: int| 0 <= i < s.len() ==> is_digit(#[trigger] s[i])
}

/// The numeric value of a digit string, most significant digit first.
pub open spec fn digits_val(s: Seq<char>) -> int
    decreases s.len(),
{
    if s.len() == 0 {
        0
    } else {
        digits_val(s.take(s.len() - 1)) * 10 + (s[s.len() - 1] as u32 - 48)
    }
}

/// A name that reads as a number within the machine's range is prefixed with
/// an underscore so it can stand as an identifier; any other name is kept.
pub open spec fn as_name_of(s: Seq<char>) -> Seq<char> {
    if is_digits(s) && digits_val(s) <= usize::MAX {
        seq!['_'] + s
    } else {
        s
    }
}

proof fn lemma_digits_val_nonneg(s: Seq<char>)
    requires
        forall|i: int| 0 <= i < s.len() ==> is_digit(#[trigger] s[i]),
    ensures
        digits_val(s) >= 0,
    decreases s.len(),
{
    if s.len() > 0 {
        let s1 = s.take(s.len() - 1);
        assert(forall|i: int| 0 <= i < s1.len() ==> s1[i] == s[i]);
        lemma_digits_val_nonneg(s1);
    }
}

proof fn lemma_digits_val_mono(s: Seq<char>, i: int)
    requires
        0 <= i <= s.len(),
        forall|k: int| 0 <= k < s.len() ==> is_digit(#[trigger] s[k]),
    ensures
        digits_val(s.take(i)) <= digits_val(s),
    decreases s.len(),
{
    if i == s.len() {
        assert(s.take(i) =~= s);
    } else {
        let s1 = s.take(s.len() - 1);
        assert(forall|k: int| 0 <= k < s1.len() ==> s1[k] == s[k]);
        lemma_digits_val_nonneg(s1);
        lemma_digits_val_mono(s1, i);
        assert(s1.take(i) =~= s.take(i));
        assert(digits_val(s1) * 10 >= digits_val(s1));
    }
}

/// A name whose characters read as a number within the machine's range gains
/// a leading underscore; any other name comes back unchanged.
pub fn to_as_name(name: &str) -> (r: String)
    ensures
        r@ == as_name_of(name@),
{
    let n = name.unicode_len();
    if n == 0 {
        return String::from_str(name);
    }
    let maxv: usize = usize::MAX;
    let mut v: usize = 0;
    let mut i: usize = 0;
    while i < n
        invariant
            n == name@.len(),
            i <= n,
            maxv == usize::MAX,
            forall|k: int| 0 <= k < i ==> is_digit(#[trigger] name@[k]),
            v == digits_val(name@.take(i as int)),
        decreases n - i,
    {
        let c = name.get_char(i);
        let u = c as u32;
        if u < 48 || u > 57 {
            proof {
                assert(!is_digit(name@[i as int]));
            }
            return String::from_str(name);
        }
        let d: usize = (u - 48) as usize;
        proof {
            assert(name@.take(i as int + 1).take(i as int) =~= name@.take(i as int));
            assert(name@.take(i as int + 1)[i as int] == name@[i as int]);
            assert(digits_val(name@.take(i as int + 1)) == v * 10 + d);
        }
        if v > maxv / 10 || (v == maxv / 10 && d > maxv % 10) {
            proof {
                assert(10 * (maxv / 10) + maxv % 10 == maxv);
                assert(v * 10 + d > maxv);
                if is_digits(name@) {
                    lemma_digits_val_mono(name@, i as int + 1);
                }
            }
            return String::from_str(name);
        }
        proof {
            assert(10 * (maxv / 10) + maxv % 10 == maxv);
            assert(v * 10 + d <= maxv);
        }
        v = v * 10 + d;
        i = i + 1;
    }
    proof {
        assert(name@.take(n as int) =~= name@);
        assert(is_digits(name@));
        reveal_strlit("_");
    }
    let mut s = String::from_str("_");
    s.append(name);
    proof {
        assert(s@ =~= seq!['_'] + name@);
    }
    s
}

} // verus!
