//! Time spans as `std::time::Duration` holds them: whole seconds and the
//! nanoseconds below them, here counted together in nanoseconds.

use vstd::prelude::*;

use crate::text::{decimal, digit_char, push_decimal};

verus! {

/// The nanoseconds in one second.
pub const NANOS_PER_SEC: u128 = 1_000_000_000;

/// The longest span: `u64::MAX` seconds and 999 999 999 nanoseconds.
pub open spec fn max_nanos() -> nat {
    ((u64::MAX as nat + 1) * 1_000_000_000 - 1) as nat
}

/// A span of time, counted in nanoseconds.
#[derive(Clone, Copy, Debug, PartialEq, Eq)]
pub struct Duration {
    nanos: u128,
}

impl View for Duration {
    type V = nat;

    /// The span in nanoseconds.
    closed spec fn view(&self) -> nat {
        self.nanos as nat
    }
}

impl Duration {
    #[verifier::type_invariant]
    spec fn fits(self) -> bool {
        self.nanos <= max_nanos()
    }

    /// `secs` seconds and `nanos` nanoseconds; nanoseconds beyond a second
    /// carry into the seconds, which must not overflow.
    pub fn new(secs: u64, nanos: u32) -> (d: Duration)
        requires
            secs + nanos / 1_000_000_000 <= u64::MAX,
        ensures
            d@ == secs * 1_000_000_000 + nanos,
    {
        assert(secs * 1_000_000_000 + nanos <= max_nanos()) by (nonlinear_arith)
            requires
                secs + nanos / 1_000_000_000 <= u64::MAX,
                nanos <= u32::MAX,
        ;
        Duration { nanos: (secs as u128) * NANOS_PER_SEC + (nanos as u128) }
    }

    pub fn from_millis(millis: u64) -> (d: Duration)
        ensures
            d@ == millis * 1_000_000,
    {
        assert(millis * 1_000_000 <= max_nanos()) by (nonlinear_arith)
            requires
                millis <= u64::MAX,
        ;
        Duration { nanos: (millis as u128) * 1_000_000 }
    }

    pub fn from_secs(secs: u64) -> (d: Duration)
        ensures
            d@ == secs * 1_000_000_000,
    {
        assert(secs * 1_000_000_000 <= max_nanos()) by (nonlinear_arith)
            requires
                secs <= u64::MAX,
        ;
        Duration { nanos: (secs as u128) * NANOS_PER_SEC }
    }

    /// Whole milliseconds in the span.
    pub fn as_millis(&self) -> (ms: u128)
        ensures
            ms == self@ / 1_000_000,
    {
        self.nanos / 1_000_000
    }

    /// Whole seconds in the span.
    pub fn as_secs(&self) -> (s: u64)
        ensures
            s == self@ / 1_000_000_000,
    {
        proof {
            use_type_invariant(self);
        }
        assert(self.nanos / 1_000_000_000 <= u64::MAX) by (nonlinear_arith)
            requires
                self.nanos <= max_nanos(),
        ;
        (self.nanos / NANOS_PER_SEC) as u64
    }

    /// The nanoseconds below the whole seconds.
    pub fn subsec_nanos(&self) -> (n: u32)
        ensures
            n == self@ % 1_000_000_000,
    {
        (self.nanos % NANOS_PER_SEC) as u32
    }

    /// The whole span in nanoseconds.
    pub fn as_nanos(&self) -> (n: u128)
        ensures
            n == self@,
    {
        self.nanos
    }
}

/// The digits that `{:?}` prints for the part `f` below the unit, `d` being
/// the value of the first digit: digits as long as something is left.
pub open spec fn fraction_digits(f: nat, d: nat) -> Seq<char>
    decreases d,
{
    if f == 0 || d == 0 {
        Seq::empty()
    } else {
        seq![digit_char(f / d)] + fraction_digits(f % d, d / 10)
    }
}

/// The fraction `{:?}` prints: nothing when `f` is zero, otherwise a dot and
/// its digits without trailing zeros.
pub open spec fn fraction_text(f: nat, d: nat) -> Seq<char> {
    if f == 0 {
        Seq::empty()
    } else {
        seq!['.'] + fraction_digits(f, d)
    }
}

/// How `{:?}` shows a duration of `n` nanoseconds: `1.5s`, `250ms`,
/// `12.5µs`, `0ns`.
pub open spec fn duration_debug_text(n: nat) -> Seq<char> {
    let secs = n / 1_000_000_000;
    let sub = n % 1_000_000_000;
    if secs > 0 {
        decimal(secs) + fraction_text(sub, 100_000_000) + "s"@
    } else if sub >= 1_000_000 {
        decimal(sub / 1_000_000) + fraction_text(sub % 1_000_000, 100_000) + "ms"@
    } else if sub >= 1_000 {
        decimal(sub / 1_000) + fraction_text(sub % 1_000, 100) + "µs"@
    } else {
        decimal(sub) + "ns"@
    }
}

/// `d` is 1, 10, 100, ...
pub open spec fn is_power_of_ten(d: nat) -> bool
    decreases d,
{
    d == 1 || (d >= 10 && d % 10 == 0 && is_power_of_ten(d / 10))
}

fn push_fraction(out: &mut String, f: u64, d: u64)
    requires
        f < 10 * d,
        is_power_of_ten(d as nat),
    ensures
        final(out)@ == old(out)@ + fraction_text(f as nat, d as nat),
{
    if f == 0 {
        return;
    }
    proof {
        reveal_strlit(".");
    }
    out.append(".");
    let ghost start = old(out)@ + seq!['.'];
    assert(out@ == start);
    let mut rest = f;
    let mut unit = d;
    while rest != 0 && unit != 0
        invariant
            unit == 0 || (rest < 10 * unit && is_power_of_ten(unit as nat)),
            out@ + fraction_digits(rest as nat, unit as nat) == start + fraction_digits(
                f as nat,
                d as nat,
            ),
        decreases unit,
    {
        let digit = rest / unit;
        assert(digit < 10) by (nonlinear_arith)
            requires
                rest < 10 * unit,
                unit > 0,
                digit == rest / unit,
        ;
        let ghost before = out@;
        crate::text::push_decimal(out, digit);
        assert(decimal(digit as nat) == seq![digit_char(digit as nat)]);
        let next = rest % unit;
        let next_unit = unit / 10;
        if unit >= 10 {
            assert(unit % 10 == 0 && is_power_of_ten((unit / 10) as nat));
            assert(next < 10 * next_unit) by (nonlinear_arith)
                requires
                    next == rest % unit,
                    next_unit == unit / 10,
                    unit % 10 == 0,
                    unit >= 10,
            ;
        } else {
            assert(unit == 1);
        }
        assert(fraction_digits(rest as nat, unit as nat) == seq![digit_char(digit as nat)]
            + fraction_digits(next as nat, next_unit as nat));
        assert(out@ + fraction_digits(next as nat, next_unit as nat) =~= before
            + fraction_digits(rest as nat, unit as nat));
        rest = next;
        unit = next_unit;
    }
    assert(fraction_digits(rest as nat, unit as nat) == Seq::<char>::empty());
    assert(out@ =~= start + fraction_digits(f as nat, d as nat));
}

impl Duration {
    /// The span as `{:?}` shows it.
    pub fn debug_string(&self) -> (s: String)
        ensures
            s@ == duration_debug_text(self@),
    {
        let secs = self.as_secs();
        let sub = self.subsec_nanos() as u64;
        let mut s = String::new();
        proof {
            reveal_with_fuel(is_power_of_ten, 10);
        }
        assert(is_power_of_ten(100_000_000));
        assert(is_power_of_ten(100_000));
        assert(is_power_of_ten(100));
        if secs > 0 {
            push_decimal(&mut s, secs);
            push_fraction(&mut s, sub, 100_000_000);
            s.append("s");
        } else if sub >= 1_000_000 {
            push_decimal(&mut s, sub / 1_000_000);
            push_fraction(&mut s, sub % 1_000_000, 100_000);
            s.append("ms");
        } else if sub >= 1_000 {
            push_decimal(&mut s, sub / 1_000);
            push_fraction(&mut s, sub % 1_000, 100);
            s.append("µs");
        } else {
            push_decimal(&mut s, sub);
            s.append("ns");
        }
        assert(s@ =~= duration_debug_text(self@));
        s
    }
}

} // verus!
