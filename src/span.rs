//! Elapsed time as whole seconds and the nanoseconds beyond them, and its
//! human-readable rendering.

use vstd::prelude::*;
use vstd::string::*;
use crate::text::{decimal, pad_left, push_decimal, push_padded_left, decimal_text};

verus! {

pub const NANOS_PER_SEC: u32 = 1_000_000_000;

/// A span of elapsed time.
#[derive(Debug, Clone, Copy, PartialEq, Eq, Structural)]
pub struct Span {
    pub secs: u64,
    /// Nanoseconds beyond the whole seconds.
    pub nanos: u32,
}

/// The longest span, in nanoseconds.
pub open spec fn max_span_nanos() -> int {
    u64::MAX as int * NANOS_PER_SEC as int + (NANOS_PER_SEC - 1)
}

/// `n` zero-padded to three digits.
pub open spec fn three_digits(n: nat) -> Seq<char> {
    pad_left(decimal(n), 3, '0')
}

/// The rendering of `secs` seconds and `sub` nanoseconds (`sub` under a
/// billion): seconds with a millisecond fraction from one second up, else
/// milliseconds with a microsecond fraction from one millisecond up, else
/// microseconds with a nanosecond fraction from one microsecond up, else
/// nanoseconds.
pub open spec fn duration_text(secs: nat, sub: nat) -> Seq<char> {
    let millis = sub / 1_000_000;
    let micros = (sub / 1000) % 1000;
    let nanos = sub % 1000;
    if secs != 0 {
        decimal(secs) + seq!['.'] + three_digits(millis) + seq!['s']
    } else if millis > 0 {
        decimal(millis) + seq!['.'] + three_digits(micros) + seq!['m', 's']
    } else if micros > 0 {
        decimal(micros) + seq!['.'] + three_digits(nanos) + seq!['\u{b5}', 's']
    } else {
        decimal(sub) + seq!['n', 's']
    }
}

impl Span {
    pub open spec fn wf(self) -> bool {
        self.nanos < NANOS_PER_SEC
    }

    /// The span in nanoseconds.
    pub open spec fn total(self) -> int {
        self.secs * NANOS_PER_SEC + self.nanos
    }

    /// The span of `nanos` nanoseconds.
    pub fn from_nanos(nanos: u64) -> (r: Span)
        ensures
            r.wf(),
            r.total() == nanos,
    {
        Span { secs: nanos / 1_000_000_000, nanos: (nanos % 1_000_000_000) as u32 }
    }

    /// The span of `nanos` nanoseconds, for any number of them up to the longest span.
    pub fn from_total(nanos: u128) -> (r: Span)
        requires
            nanos <= max_span_nanos(),
        ensures
            r.wf(),
            r.total() == nanos,
            r.secs == nanos / 1_000_000_000,
            r.nanos == nanos % 1_000_000_000,
    {
        let secs = nanos / 1_000_000_000;
        assert(secs <= u64::MAX) by (nonlinear_arith)
            requires
                secs == nanos / 1_000_000_000,
                nanos <= max_span_nanos(),
        ;
        Span { secs: secs as u64, nanos: (nanos % 1_000_000_000) as u32 }
    }

    /// The span in nanoseconds.
    pub fn as_nanos(&self) -> (r: u128)
        requires
            self.wf(),
        ensures
            r == self.total(),
            r <= max_span_nanos(),
    {
        assert(self.secs * NANOS_PER_SEC <= u64::MAX as int * NANOS_PER_SEC) by (nonlinear_arith)
            requires
                self.secs <= u64::MAX,
        ;
        self.secs as u128 * 1_000_000_000 + self.nanos as u128
    }

    /// The human-readable rendering of the span.
    pub fn text(&self) -> (r: String)
        requires
            self.wf(),
        ensures
            r@ == duration_text(self.secs as nat, self.nanos as nat),
    {
        proof {
            reveal_strlit("0");
            reveal_strlit(".");
            reveal_strlit("s");
            reveal_strlit("ms");
            reveal_strlit("\u{b5}s");
            reveal_strlit("ns");
        }
        let millis = self.nanos / 1_000_000;
        let micros = (self.nanos / 1000) % 1000;
        let nanos = self.nanos % 1000;
        let mut out = String::new();
        if self.secs != 0 {
            push_decimal(&mut out, self.secs);
            out.append(".");
            push_padded_left(&mut out, decimal_text(millis as u64).as_str(), 3, "0");
            out.append("s");
        } else if millis > 0 {
            push_decimal(&mut out, millis as u64);
            out.append(".");
            push_padded_left(&mut out, decimal_text(micros as u64).as_str(), 3, "0");
            out.append("ms");
        } else if micros > 0 {
            push_decimal(&mut out, micros as u64);
            out.append(".");
            push_padded_left(&mut out, decimal_text(nanos as u64).as_str(), 3, "0");
            out.append("\u{b5}s");
        } else {
            push_decimal(&mut out, self.nanos as u64);
            out.append("ns");
        }
        assert(out@ =~= duration_text(self.secs as nat, self.nanos as nat));
        out
    }
}

} // verus!
