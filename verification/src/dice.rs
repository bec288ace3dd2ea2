//! Damage dice: "NdM" notation, parsed and rolled.

use vstd::prelude::*;
use vstd::string::StrSliceExecFns;

use crate::rng::GameRng;

verus! {

/// A set of `rolls` dice with `faces` faces each, written `"NdM"`.
#[derive(Copy, Clone, Debug, PartialEq, Eq, Structural)]
pub struct Dice {
    pub rolls: u32,
    pub faces: u32,
}

impl Dice {
    /// At least one die with at least one face, and a maximal total that
    /// fits the damage type.
    pub open spec fn wf(&self) -> bool {
        1 <= self.rolls && 1 <= self.faces && self.rolls * self.faces <= i32::MAX
    }

    /// Rolls each die uniformly in `1..=faces` and sums. The total always
    /// lies in `[N, N*M]` for an `"NdM"` dice set.
    pub fn roll(&self, rng: &mut GameRng) -> (r: i32)
        requires
            self.wf(),
        ensures
            self.rolls <= r <= self.rolls * self.faces,
    {
        let mut sum: u32 = 0;
        let mut i: u32 = 0;
        while i < self.rolls
            invariant
                self.wf(),
                i <= self.rolls,
                i <= sum,
                sum <= i * self.faces,
            decreases self.rolls - i,
        {
            proof {
                assert((i + 1) * self.faces <= self.rolls * self.faces) by (nonlinear_arith)
                    requires
                        i + 1 <= self.rolls,
                        self.faces >= 1,
                ;
                assert(i * self.faces + self.faces == (i + 1) * self.faces) by (nonlinear_arith);
            }
            let d = rng.range(1, self.faces as usize);
            sum = sum + d as u32;
            i += 1;
        }
        sum as i32
    }
}

/// The code-point value of a decimal digit character.
pub open spec fn digit_val(c: char) -> int {
    c as int - '0' as int
}

/// Whether `c` is a decimal digit.
pub open spec fn is_digit(c: char) -> bool {
    '0' as int <= c as int <= '9' as int
}

/// A non-empty, all-digit character sequence.
pub open spec fn all_digits(s: Seq<char>) -> bool {
    s.len() >= 1 && forall|i: int| 0 <= i < s.len() ==> is_digit(#[trigger] s[i])
}

/// The number a digit string denotes, most significant digit first.
pub open spec fn digits_val(s: Seq<char>) -> int
    decreases s.len(),
{
    if s.len() == 0 {
        0
    } else {
        digits_val(s.drop_last()) * 10 + digit_val(s.last())
    }
}

/// `s` is the `"NdM"` notation for the dice set `d`: digits, a literal `'d'`,
/// digits, with both numbers positive and the maximal total in range.
pub open spec fn dice_format(s: Seq<char>, d: Dice) -> bool {
    exists|k: int|
        {
            &&& 0 <= k < s.len()
            &&& #[trigger] s[k] == 'd'
            &&& all_digits(s.subrange(0, k))
            &&& all_digits(s.subrange(k + 1, s.len() as int))
            &&& d.rolls == digits_val(s.subrange(0, k))
            &&& d.faces == digits_val(s.subrange(k + 1, s.len() as int))
            &&& d.wf()
        }
}

/// A digit string's value only grows as digits are appended.
proof fn lemma_digits_val_bounds(s: Seq<char>)
    requires
        forall|i: int| 0 <= i < s.len() ==> is_digit(#[trigger] s[i]),
    ensures
        0 <= digits_val(s),
        forall|n: int| 0 <= n <= s.len() ==> #[trigger] digits_val(s.subrange(0, n)) <= digits_val(s),
    decreases s.len(),
{
    if s.len() == 0 {
        assert forall|n: int| 0 <= n <= s.len() implies #[trigger] digits_val(s.subrange(0, n))
            <= digits_val(s) by {
            assert(s.subrange(0, n) =~= s);
        }
    } else {
        let p = s.drop_last();
        lemma_digits_val_bounds(p);
        assert(digits_val(s) == digits_val(p) * 10 + digit_val(s.last()));
        assert(digits_val(p) * 10 >= digits_val(p)) by (nonlinear_arith)
            requires
                digits_val(p) >= 0,
        ;
        assert forall|n: int| 0 <= n <= s.len() implies #[trigger] digits_val(s.subrange(0, n))
            <= digits_val(s) by {
            if n == s.len() {
                assert(s.subrange(0, n) =~= s);
            } else {
                assert(s.subrange(0, n) =~= p.subrange(0, n));
            }
        }
    }
}

/// Reads the digit run `s[from..to)` and returns its value, capped: the
/// result is the exact value where that value is at most `i32::MAX`, and
/// `None` where the run is empty, contains a non-digit, or overflows.
fn parse_digits(s: &str, from: usize, to: usize) -> (r: Option<u32>)
    requires
        from <= to <= s@.len(),
    ensures
        r matches Some(v) ==> {
            &&& all_digits(s@.subrange(from as int, to as int))
            &&& v == digits_val(s@.subrange(from as int, to as int))
            &&& v <= i32::MAX
        },
        r is None ==> {
            ||| !all_digits(s@.subrange(from as int, to as int))
            ||| digits_val(s@.subrange(from as int, to as int)) > i32::MAX
        },
{
    if from == to {
        return None;
    }
    let ghost whole = s@.subrange(from as int, to as int);
    let mut acc: u64 = 0;
    let mut i: usize = from;
    while i < to
        invariant
            from <= i <= to <= s@.len(),
            whole == s@.subrange(from as int, to as int),
            forall|j: int| from <= j < i ==> is_digit(#[trigger] s@[j]),
            acc == if digits_val(whole.subrange(0, i - from)) >= 0x8000_0000 {
                0x8000_0000
            } else {
                digits_val(whole.subrange(0, i - from))
            },
            acc <= 0x8000_0000,
        decreases to - i,
    {
        let c = s.get_char(i);
        let cv = c as u32;
        if cv < 48 || cv > 57 {
            assert(!is_digit(s@[i as int]));
            assert(whole[i - from] == s@[i as int]);
            return None;
        }
        let d64: u64 = (cv - 48) as u64;
        let newacc: u64 = if acc >= 0x8000_0000 {
            0x8000_0000
        } else {
            let t = acc * 10 + d64;
            if t >= 0x8000_0000 {
                0x8000_0000
            } else {
                t
            }
        };
        proof {
            assert(is_digit(s@[i as int]));
            assert(whole[i - from] == s@[i as int]);
            let pre = whole.subrange(0, i - from);
            let nxt = whole.subrange(0, i + 1 - from);
            assert(nxt.drop_last() =~= pre);
            assert(nxt.last() == whole[i - from]);
            assert(digits_val(nxt) == digits_val(pre) * 10 + digit_val(whole[i - from]));
            assert forall|j: int| 0 <= j < pre.len() implies is_digit(#[trigger] pre[j]) by {
                assert(pre[j] == s@[from + j]);
            }
            lemma_digits_val_bounds(pre);
            if digits_val(pre) >= 0x8000_0000 {
                assert(digits_val(pre) * 10 >= 0x8000_0000 * 10) by (nonlinear_arith)
                    requires
                        digits_val(pre) >= 0x8000_0000,
                ;
            }
        }
        acc = newacc;
        i += 1;
    }
    proof {
        assert(whole.subrange(0, to - from) =~= whole);
    }
    if acc >= 0x8000_0000 {
        proof {
            assert(digits_val(whole) >= 0x8000_0000);
        }
        None
    } else {
        Some(acc as u32)
    }
}

/// Parses `"NdM"` dice notation. Returns the dice set exactly when the text
/// is digits, `'d'`, digits, with `N >= 1`, `M >= 1` and `N*M` within range;
/// returns `None` on every other text.
pub fn parse_dice(s: &str) -> (r: Option<Dice>)
    ensures
        r matches Some(d) ==> dice_format(s@, d),
        r is Some <==> exists|d: Dice| dice_format(s@, d),
{
    let len = s.unicode_len();
    let mut k: usize = 0;
    while k < len && s.get_char(k) != 'd'
        invariant
            k <= len,
            len == s@.len(),
            forall|j: int| 0 <= j < k ==> s@[j] != 'd',
        decreases len - k,
    {
        k += 1;
    }
    if k == len {
        return None;
    }
    let n = match parse_digits(s, 0, k) {
        Some(v) => v,
        None => {
            proof {
                lemma_no_dice_at(s@, k as int);
                assert forall|d: Dice| !dice_format(s@, d) by {
                    if dice_format(s@, d) {
                        lemma_rolls_bound(d);
                    }
                }
            }
            return None;
        },
    };
    let m = match parse_digits(s, k + 1, len) {
        Some(v) => v,
        None => {
            proof {
                lemma_no_dice_at(s@, k as int);
                assert forall|d: Dice| !dice_format(s@, d) by {
                    if dice_format(s@, d) {
                        lemma_faces_bound(d);
                    }
                }
            }
            return None;
        },
    };
    proof {
        assert((n as int) * (m as int) <= 0x7fff_ffff * 0x7fff_ffff) by (nonlinear_arith)
            requires
                0 <= n <= 0x7fff_ffff,
                0 <= m <= 0x7fff_ffff,
        ;
    }
    if n == 0 || m == 0 || (n as u64) * (m as u64) > 0x7fff_ffff {
        proof {
            lemma_no_dice_at(s@, k as int);
            assert forall|d: Dice| !dice_format(s@, d) by {
                if dice_format(s@, d) {
                    assert(d.rolls == n && d.faces == m);
                }
            }
        }
        return None;
    }
    let d = Dice { rolls: n, faces: m };
    proof {
        assert(d.rolls * d.faces == (n as u64) * (m as u64));
        assert(d.wf());
        let ghost ki = k as int;
        assert(s@[ki] == 'd');
        assert(dice_format(s@, d));
    }
    Some(d)
}

/// A well-formed dice set never needs more than `i32::MAX` rolls.
proof fn lemma_rolls_bound(d: Dice)
    requires
        d.wf(),
    ensures
        d.rolls <= i32::MAX,
{
    assert(d.rolls * d.faces >= d.rolls * 1) by (nonlinear_arith)
        requires
            d.faces >= 1,
            d.rolls >= 0,
    ;
}

/// A well-formed dice set never has more than `i32::MAX` faces per die.
proof fn lemma_faces_bound(d: Dice)
    requires
        d.wf(),
    ensures
        d.faces <= i32::MAX,
{
    assert(d.rolls * d.faces >= 1 * d.faces) by (nonlinear_arith)
        requires
            d.rolls >= 1,
            d.faces >= 0,
    ;
}

/// If the digit-run conditions fail around the first `'d'` of `s`, no dice
/// set matches `s`; and any matching dice set reads its numbers from that
/// first `'d'`.
proof fn lemma_no_dice_at(s: Seq<char>, k: int)
    requires
        0 <= k < s.len(),
        s[k] == 'd',
        forall|j: int| 0 <= j < k ==> s[j] != 'd',
    ensures
        forall|d: Dice| #[trigger] dice_format(s, d) ==> {
            &&& all_digits(s.subrange(0, k))
            &&& all_digits(s.subrange(k + 1, s.len() as int))
            &&& d.rolls == digits_val(s.subrange(0, k))
            &&& d.faces == digits_val(s.subrange(k + 1, s.len() as int))
            &&& d.wf()
        },
{
    assert forall|d: Dice| #[trigger] dice_format(s, d) implies {
        &&& all_digits(s.subrange(0, k))
        &&& all_digits(s.subrange(k + 1, s.len() as int))
        &&& d.rolls == digits_val(s.subrange(0, k))
        &&& d.faces == digits_val(s.subrange(k + 1, s.len() as int))
        &&& d.wf()
    } by {
        let k2 = choose|k2: int|
            {
                &&& 0 <= k2 < s.len()
                &&& #[trigger] s[k2] == 'd'
                &&& all_digits(s.subrange(0, k2))
                &&& all_digits(s.subrange(k2 + 1, s.len() as int))
                &&& d.rolls == digits_val(s.subrange(0, k2))
                &&& d.faces == digits_val(s.subrange(k2 + 1, s.len() as int))
                &&& d.wf()
            };
        if k2 < k {
            assert(s[k2] != 'd');
            assert(false);
        } else if k2 > k {
            let pre = s.subrange(0, k2);
            assert(pre[k] == s[k]);
            assert(is_digit(pre[k]));
            assert('d' as int > '9' as int);
            assert(false);
        }
    }
}

} // verus!
