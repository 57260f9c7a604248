//! Small verified building blocks for text assembly: repetition, decimal
//! rendering, separator joining and line splitting.

use vstd::prelude::*;

verus! {

/// `s` repeated `n` times, in order.
pub open spec fn repeated(s: Seq<char>, n: nat) -> Seq<char>
    decreases n,
{
    if n == 0 {
        Seq::empty()
    } else {
        repeated(s, (n - 1) as nat) + s
    }
}

/// The character for a single decimal digit.
pub open spec fn digit_char(d: nat) -> char {
    if d == 0 {
        '0'
    } else if d == 1 {
        '1'
    } else if d == 2 {
        '2'
    } else if d == 3 {
        '3'
    } else if d == 4 {
        '4'
    } else if d == 5 {
        '5'
    } else if d == 6 {
        '6'
    } else if d == 7 {
        '7'
    } else if d == 8 {
        '8'
    } else {
        '9'
    }
}

/// The decimal rendering of `n`, most significant digit first.
pub open spec fn dec_of(n: nat) -> Seq<char>
    decreases n,
{
    if n < 10 {
        seq![digit_char(n)]
    } else {
        dec_of(n / 10) + seq![digit_char(n % 10)]
    }
}

fn digit_str(d: u64) -> (r: &'static str)
    requires
        d < 10,
    ensures
        r@ == seq![digit_char(d as nat)],
{
    proof {
        reveal_strlit("0");
        reveal_strlit("1");
        reveal_strlit("2");
        reveal_strlit("3");
        reveal_strlit("4");
        reveal_strlit("5");
        reveal_strlit("6");
        reveal_strlit("7");
        reveal_strlit("8");
        reveal_strlit("9");
    }
    if d == 0 {
        "0"
    } else if d == 1 {
        "1"
    } else if d == 2 {
        "2"
    } else if d == 3 {
        "3"
    } else if d == 4 {
        "4"
    } else if d == 5 {
        "5"
    } else if d == 6 {
        "6"
    } else if d == 7 {
        "7"
    } else if d == 8 {
        "8"
    } else {
        "9"
    }
}

/// Appends the decimal rendering of `n` to `out`.
pub fn push_dec(out: &mut String, n: u64)
    ensures
        final(out)@ == old(out)@ + dec_of(n as nat),
    decreases n,
{
    if n >= 10 {
        push_dec(out, n / 10);
    }
    let ghost mid: Seq<char> = out@;
    out.append(digit_str(n % 10));
    proof {
        if n >= 10 {
            assert(out@ =~= old(out)@ + dec_of(n as nat));
        } else {
            assert(out@ =~= old(out)@ + dec_of(n as nat));
        }
    }
}

/// The decimal rendering of `n` as a fresh string.
pub fn dec_str(n: u64) -> (r: String)
    ensures
        r@ == dec_of(n as nat),
{
    let mut s = String::new();
    push_dec(&mut s, n);
    proof {
        assert(s@ =~= dec_of(n as nat));
    }
    s
}

/// The elements of `parts` concatenated with `sep` between consecutive
/// elements.
pub open spec fn joined(parts: Seq<Seq<char>>, sep: Seq<char>) -> Seq<char>
    decreases parts.len(),
{
    if parts.len() == 0 {
        Seq::empty()
    } else if parts.len() == 1 {
        parts[0]
    } else {
        parts[0] + sep + joined(parts.skip(1), sep)
    }
}

fn push_joined(out: &mut String, parts: &Vec<String>, from: usize, sep: &str)
    requires
        from <= parts.len(),
    ensures
        final(out)@ == old(out)@ + joined(parts.deep_view().skip(from as int), sep@),
    decreases parts.len() - from,
{
    if from >= parts.len() {
        proof {
            assert(out@ =~= old(out)@ + joined(parts.deep_view().skip(from as int), sep@));
        }
        return;
    }
    out.append(parts[from].as_str());
    if from + 1 < parts.len() {
        out.append(sep);
        push_joined(out, parts, from + 1, sep);
    }
    proof {
        let pv = parts.deep_view();
        assert(pv.skip(from as int)[0] == parts[from as int]@);
        if from + 1 < parts.len() {
            assert(pv.skip(from as int).skip(1) =~= pv.skip(from as int + 1));
            assert(pv.skip(from as int).len() > 1);
            assert(out@ =~= old(out)@ + joined(pv.skip(from as int), sep@));
        } else {
            assert(pv.skip(from as int).len() == 1);
            assert(out@ =~= old(out)@ + joined(pv.skip(from as int), sep@));
        }
    }
}

/// Concatenates `parts` with `sep` between consecutive elements.
pub fn join_strings(parts: &Vec<String>, sep: &str) -> (r: String)
    ensures
        r@ == joined(parts.deep_view(), sep@),
{
    let mut s = String::new();
    push_joined(&mut s, parts, 0, sep);
    proof {
        assert(parts.deep_view().skip(0) =~= parts.deep_view());
        assert(s@ =~= joined(parts.deep_view(), sep@));
    }
    s
}

/// Relies on itertools' `intersperse` adaptor: the separator is yielded
/// between consecutive items and the pieces are collected in order.
#[verifier::external_body]
pub fn intersperse_join(parts: &Vec<String>, sep: &str) -> (r: String)
    ensures
        r@ == joined(parts.deep_view(), sep@),
{
    itertools::Itertools::intersperse(parts.iter().cloned(), sep.to_string()).collect()
}

/// Index of the first newline in `s`, or `s.len()` if there is none.
pub open spec fn first_nl(s: Seq<char>) -> nat
    decreases s.len(),
{
    if s.len() == 0 {
        0
    } else if s[0] == '\n' {
        0
    } else {
        1 + first_nl(s.skip(1))
    }
}

/// The text emitted for `s` when each of its newline-separated lines is
/// written as an indented line of its own: `ib` repeated `ind` times, the
/// line, then a newline. A trailing newline in `s` does not produce an empty
/// final line.
pub open spec fn lined(ib: Seq<char>, ind: nat, s: Seq<char>) -> Seq<char>
    decreases s.len(),
{
    if s.len() == 0 {
        Seq::empty()
    } else {
        let j = first_nl(s);
        let rest = if j + 1 <= s.len() {
            s.skip(j as int + 1)
        } else {
            Seq::empty()
        };
        (repeated(ib, ind) + s.take(j as int) + "\n"@) + lined(ib, ind, rest)
    }
}

/// A scan that found no newline before `j`, and one at `j` unless `j` is the
/// length, pins down `first_nl`.
pub proof fn lemma_first_nl_is(s: Seq<char>, j: int)
    requires
        0 <= j <= s.len(),
        forall|i: int| 0 <= i < j ==> s[i] != '\n',
        j < s.len() ==> s[j] == '\n',
    ensures
        first_nl(s) == j,
    decreases s.len(),
{
    if s.len() == 0 {
    } else if s[0] == '\n' {
        assert(j == 0);
    } else {
        assert(j >= 1);
        assert forall|i: int| 0 <= i < j - 1 implies s.skip(1)[i] != '\n' by {
            assert(s.skip(1)[i] == s[i + 1]);
        }
        if j - 1 < s.skip(1).len() {
            assert(s.skip(1)[j - 1] == s[j]);
        }
        lemma_first_nl_is(s.skip(1), j - 1);
    }
}

} // verus!
