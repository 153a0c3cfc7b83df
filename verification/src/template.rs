//! Placeholder tokens in translation templates.
//!
//! A template may hold implicit tokens `%s`, consumed in declaration order,
//! and explicit positional tokens `%N$s` naming the one-based argument `N`
//! (at most nine digits). Any other `%` is literal text.

use vstd::prelude::*;
use vstd::string::StrSliceExecFns;

verus! {

/// One placeholder occurrence: the character range it spans in the template
/// and the zero-based argument index it refers to.
#[verifier::ext_equal]
pub struct TokV {
    pub start: int,
    pub end: int,
    pub arg: int,
}

/// Executable form of a placeholder occurrence.
#[derive(Clone, Copy, PartialEq, Eq, Structural, Debug)]
pub struct Token {
    pub start: usize,
    pub end: usize,
    pub arg: usize,
}

/// The mathematical value of a token.
pub open spec fn tok_of(t: Token) -> TokV {
    TokV { start: t.start as int, end: t.end as int, arg: t.arg as int }
}

/// The mathematical values of a token list.
pub open spec fn toks_view(s: Seq<Token>) -> Seq<TokV> {
    s.map(|k: int, t: Token| tok_of(t))
}

/// Whether `c` is a decimal digit.
pub open spec fn is_digit(c: char) -> bool {
    0x30 <= c as u32 && c as u32 <= 0x39
}

/// The value of a digit character.
pub open spec fn digit_val(c: char) -> nat {
    (c as u32 - 0x30) as nat
}

/// The first position at or after `i` that is not a digit (or the end).
pub open spec fn digit_run_end(s: Seq<char>, i: int) -> int
    decreases s.len() - i,
    when 0 <= i <= s.len()
{
    if i >= s.len() {
        i
    } else if is_digit(s[i]) {
        digit_run_end(s, i + 1)
    } else {
        i
    }
}

/// The number the digits `s[i..j)` write in decimal.
pub open spec fn digits_val(s: Seq<char>, i: int, j: int) -> nat
    decreases j - i,
    when i <= j
{
    if j <= i {
        0
    } else {
        digits_val(s, i, j - 1) * 10 + digit_val(s[j - 1])
    }
}

/// Ten to the `k`.
pub open spec fn pow10(k: nat) -> nat
    decreases k,
{
    if k == 0 {
        1nat
    } else {
        10 * pow10((k - 1) as nat)
    }
}

/// Ten to the `k` never shrinks as `k` grows.
pub proof fn lemma_pow10_le(k1: nat, k2: nat)
    requires
        k1 <= k2,
    ensures
        pow10(k1) <= pow10(k2),
        pow10(k1) >= 1,
    decreases k2,
{
    if k1 == k2 {
        if k1 > 0 {
            lemma_pow10_le((k1 - 1) as nat, (k1 - 1) as nat);
        }
    } else {
        lemma_pow10_le(k1, (k2 - 1) as nat);
    }
}

/// A digit run of length `j - i` writes a number below `pow10(j - i)`.
pub proof fn lemma_digits_val_bound(s: Seq<char>, i: int, j: int)
    requires
        0 <= i <= j <= s.len(),
        forall|k: int| i <= k < j ==> is_digit(s[k]),
    ensures
        digits_val(s, i, j) < pow10((j - i) as nat),
    decreases j - i,
{
    if j > i {
        lemma_digits_val_bound(s, i, j - 1);
    }
}

/// An implicit token `%s` stands at `i`.
pub open spec fn implicit_at(s: Seq<char>, i: int) -> bool {
    &&& 0 <= i
    &&& i + 1 < s.len()
    &&& s[i] == '%'
    &&& s[i + 1] == 's'
}

/// An explicit positional token `%N$s` stands at `i`.
pub open spec fn explicit_at(s: Seq<char>, i: int) -> bool {
    &&& 0 <= i
    &&& i < s.len()
    &&& s[i] == '%'
    &&& i + 1 <= s.len()
    &&& {
        let j = digit_run_end(s, i + 1);
        &&& j > i + 1
        &&& j - i - 1 <= 9
        &&& j + 1 < s.len()
        &&& s[j] == '$'
        &&& s[j + 1] == 's'
        &&& digits_val(s, i + 1, j) >= 1
    }
}

/// Where the token standing at `i` ends (exclusive).
pub open spec fn token_end(s: Seq<char>, i: int) -> int {
    if implicit_at(s, i) {
        i + 2
    } else {
        digit_run_end(s, i + 1) + 2
    }
}

/// The occurrences of placeholder tokens in `s[i..]`, template left-to-right,
/// with `next` the zero-based index the next implicit token consumes.
pub open spec fn scan_spec(s: Seq<char>, i: int, next: int) -> Seq<TokV>
    decreases s.len() - i,
    when 0 <= i <= s.len()
{
    if i >= s.len() {
        Seq::empty()
    } else if implicit_at(s, i) {
        seq![TokV { start: i, end: i + 2, arg: next }] + scan_spec(s, i + 2, next + 1)
    } else if explicit_at(s, i) {
        let j = digit_run_end(s, i + 1);
        seq![TokV { start: i, end: j + 2, arg: digits_val(s, i + 1, j) - 1 }] + scan_spec(
            s,
            j + 2,
            next,
        )
    } else {
        scan_spec(s, i + 1, next)
    }
}

/// The digit-run end lies between `i` and the length, everything before it
/// is a digit, and it is maximal.
pub proof fn lemma_dre(s: Seq<char>, i: int)
    requires
        0 <= i <= s.len(),
    ensures
        i <= digit_run_end(s, i) <= s.len(),
        forall|k: int| i <= k < digit_run_end(s, i) ==> is_digit(s[k]),
        digit_run_end(s, i) < s.len() ==> !is_digit(s[digit_run_end(s, i)]),
    decreases s.len() - i,
{
    if i < s.len() && is_digit(s[i]) {
        lemma_dre(s, i + 1);
        assert forall|k: int| i <= k < digit_run_end(s, i) implies is_digit(s[k]) by {
            if k > i {
                assert(is_digit(s[k]));
            }
        }
    }
}

/// Tokens lie inside the template from `lo` on, each spans at least two
/// characters, they are ordered without overlap, and each names a
/// non-negative argument.
pub open spec fn toks_wf(s: Seq<char>, toks: Seq<TokV>, lo: int) -> bool {
    &&& forall|k: int|
        0 <= k < toks.len() ==> ((#[trigger] toks[k]).start >= lo && toks[k].start + 2
            <= toks[k].end && toks[k].end <= s.len() && toks[k].arg >= 0)
    &&& forall|k: int| 0 <= k < toks.len() - 1 ==> (#[trigger] toks[k]).end <= toks[k + 1].start
}

/// What the scan finds is well-formed.
pub proof fn lemma_scan_wf(s: Seq<char>, i: int, next: int)
    requires
        0 <= i <= s.len(),
        next >= 0,
    ensures
        toks_wf(s, scan_spec(s, i, next), i),
    decreases s.len() - i,
{
    let sc = scan_spec(s, i, next);
    if i >= s.len() {
    } else if implicit_at(s, i) {
        lemma_scan_wf(s, i + 2, next + 1);
        let tail = scan_spec(s, i + 2, next + 1);
        assert(forall|k: int| 1 <= k < sc.len() ==> sc[k] == tail[k - 1]);
    } else if explicit_at(s, i) {
        let j = digit_run_end(s, i + 1);
        lemma_dre(s, i + 1);
        lemma_scan_wf(s, j + 2, next);
        let tail = scan_spec(s, j + 2, next);
        assert(forall|k: int| 1 <= k < sc.len() ==> sc[k] == tail[k - 1]);
    } else {
        lemma_scan_wf(s, i + 1, next);
    }
}

/// The first position at or after `start` that is not a digit.
fn digit_run_end_exec(s: &str, n: usize, start: usize) -> (j: usize)
    requires
        n == s@.len(),
        start <= n,
    ensures
        j as int == digit_run_end(s@, start as int),
        start <= j <= n,
        forall|k: int| start <= k < j ==> is_digit(s@[k]),
{
    let mut cur = start;
    while cur < n
        invariant
            start <= cur <= n,
            n == s@.len(),
            digit_run_end(s@, start as int) == digit_run_end(s@, cur as int),
            forall|k: int| start <= k < cur ==> is_digit(s@[k]),
        decreases n - cur,
    {
        let c = s.get_char(cur);
        if !(0x30 <= c as u32 && c as u32 <= 0x39) {
            return cur;
        }
        cur = cur + 1;
    }
    cur
}

/// The value of the digits `s[a..b)`.
fn digits_value_exec(s: &str, n: usize, a: usize, b: usize) -> (v: usize)
    requires
        n == s@.len(),
        a <= b <= n,
        b - a <= 9,
        forall|k: int| a <= k < b ==> is_digit(s@[k]),
    ensures
        v as int == digits_val(s@, a as int, b as int),
        v < 1000000000,
{
    let mut cur = a;
    let mut val: usize = 0;
    while cur < b
        invariant
            a <= cur <= b <= n,
            b - a <= 9,
            n == s@.len(),
            forall|k: int| a <= k < b ==> is_digit(s@[k]),
            val as int == digits_val(s@, a as int, cur as int),
        decreases b - cur,
    {
        proof {
            lemma_digits_val_bound(s@, a as int, cur as int);
            lemma_pow10_le((cur - a) as nat, 8);
            reveal_with_fuel(pow10, 10);
            assert(pow10(8) == 100000000);
        }
        let c = s.get_char(cur);
        let d = c as u32 - 0x30;
        val = val * 10 + (d as usize);
        cur = cur + 1;
    }
    proof {
        lemma_digits_val_bound(s@, a as int, b as int);
        lemma_pow10_le((b - a) as nat, 9);
        reveal_with_fuel(pow10, 10);
        assert(pow10(9) == 1000000000);
    }
    val
}

/// The placeholder occurrences of `s`, in template order.
pub fn scan_template(s: &str) -> (r: Vec<Token>)
    ensures
        toks_view(r@) == scan_spec(s@, 0, 0),
{
    let n = s.unicode_len();
    let mut out: Vec<Token> = Vec::new();
    let mut i: usize = 0;
    let mut next: usize = 0;
    proof {
        assert(toks_view(out@) + scan_spec(s@, 0, 0) =~= scan_spec(s@, 0, 0));
    }
    while i < n
        invariant
            0 <= i <= n,
            next <= i,
            n == s@.len(),
            toks_view(out@) + scan_spec(s@, i as int, next as int) == scan_spec(s@, 0, 0),
        decreases n - i,
    {
        let ghost old_out = out@;
        let c = s.get_char(i);
        if c == '%' {
            if i + 1 < n && s.get_char(i + 1) == 's' {
                let t = Token { start: i, end: i + 2, arg: next };
                out.push(t);
                proof {
                    assert(implicit_at(s@, i as int));
                    assert(toks_view(old_out.push(t)) =~= toks_view(old_out).push(tok_of(t)));
                    assert(toks_view(out@) + scan_spec(s@, i + 2, next + 1) =~= scan_spec(
                        s@,
                        0,
                        0,
                    ));
                }
                i = i + 2;
                next = next + 1;
            } else {
                let j = digit_run_end_exec(s, n, i + 1);
                if j > i + 1 && j - (i + 1) <= 9 && j < n - 1 && s.get_char(j) == '$'
                    && s.get_char(j + 1) == 's' {
                    let v = digits_value_exec(s, n, i + 1, j);
                    if v >= 1 {
                        let t = Token { start: i, end: j + 2, arg: v - 1 };
                        out.push(t);
                        proof {
                            assert(!implicit_at(s@, i as int));
                            assert(explicit_at(s@, i as int));
                            assert(toks_view(old_out.push(t)) =~= toks_view(old_out).push(
                                tok_of(t),
                            ));
                            assert(toks_view(out@) + scan_spec(s@, j + 2, next as int)
                                =~= scan_spec(s@, 0, 0));
                        }
                        i = j + 2;
                    } else {
                        proof {
                            assert(!implicit_at(s@, i as int));
                            assert(!explicit_at(s@, i as int));
                        }
                        i = i + 1;
                    }
                } else {
                    proof {
                        assert(!implicit_at(s@, i as int));
                        assert(!explicit_at(s@, i as int));
                    }
                    i = i + 1;
                }
            }
        } else {
            proof {
                assert(!implicit_at(s@, i as int));
                assert(!explicit_at(s@, i as int));
            }
            i = i + 1;
        }
    }
    proof {
        assert(toks_view(out@) =~= toks_view(out@) + scan_spec(s@, i as int, next as int));
    }
    out
}

} // verus!
