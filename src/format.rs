//! The canonical text of a duration: `[-]HH:MM:SS[.FFFFFF]`.
use crate::bounds::{lemma_pow10_positive, pow10, ten_pow};
use crate::duration::Duration;
use crate::model::DurationModel;
use vstd::prelude::*;

verus! {

/// The character of the decimal digit `d`.
pub open spec fn digit_char(d: nat) -> char {
    seq!['0', '1', '2', '3', '4', '5', '6', '7', '8', '9'][d as int]
}

/// The last `width` decimal digits of `n`, most significant first.
pub open spec fn padded(n: nat, width: nat) -> Seq<char> {
    Seq::new(width, |i: int| digit_char(n / pow10((width - 1 - i) as nat) % 10))
}

/// The text of `d` with `sep` between hours, minutes and seconds: a `-` when
/// negative, at least two digits of hours, two of minutes and of seconds, then,
/// at a precision above zero, a `.` and that many digits of the fraction.
pub open spec fn format_spec(d: DurationModel, sep: Seq<char>) -> Seq<char> {
    (if d.neg {
        seq!['-']
    } else {
        Seq::empty()
    }) + padded(d.hours, if d.hours >= 100 { 3 } else { 2 }) + sep + padded(d.minutes, 2) + sep
        + padded(d.secs, 2) + (if d.fsp > 0 {
        seq!['.'] + padded(d.micros / pow10((6 - d.fsp) as nat), d.fsp)
    } else {
        Seq::empty()
    })
}

fn push_digit(out: &mut String, d: u32)
    requires
        d < 10,
    ensures
        final(out)@ == old(out)@.push(digit_char(d as nat)),
{
    let digits = "0123456789";
    proof {
        reveal_strlit("0123456789");
    }
    let c = digits.substring_char(d as usize, d as usize + 1);
    assert(c@ =~= seq![digit_char(d as nat)]);
    out.append(c);
}

/// Appends the last `width` decimal digits of `n`.
fn push_padded(out: &mut String, n: u32, width: u32)
    requires
        width <= 9,
    ensures
        final(out)@ == old(out)@ + padded(n as nat, width as nat),
{
    let ghost start = out@;
    let mut i: u32 = 0;
    while i < width
        invariant
            i <= width,
            width <= 9,
            out@ == start + padded(n as nat, width as nat).take(i as int),
        decreases width - i,
    {
        let p = ten_pow(width - 1 - i);
        proof {
            lemma_pow10_positive((width - 1 - i) as nat);
        }
        let d = n / p % 10;
        push_digit(out, d);
        assert(padded(n as nat, width as nat).take(i + 1) =~= padded(n as nat, width as nat).take(
            i as int,
        ).push(digit_char(d as nat)));
        i = i + 1;
    }
    assert(padded(n as nat, width as nat).take(width as int) =~= padded(n as nat, width as nat));
}

impl Duration {
    /// The text of the duration with `sep` between hours, minutes and seconds.
    pub fn format(self, sep: &str) -> (r: String)
        requires
            self@.wf(),
            self@.fsp <= 6,
        ensures
            r@ == format_spec(self@, sep@),
    {
        let mut out = String::new();
        if self.is_neg() {
            proof {
                reveal_strlit("-");
            }
            out.append("-");
        }
        let h = self.hours();
        push_padded(&mut out, h, if h >= 100 { 3 } else { 2 });
        out.append(sep);
        push_padded(&mut out, self.minutes(), 2);
        out.append(sep);
        push_padded(&mut out, self.secs(), 2);
        let fsp = self.fsp();
        if fsp > 0 {
            proof {
                reveal_strlit(".");
            }
            out.append(".");
            let unit = ten_pow(6 - fsp as u32);
            proof {
                lemma_pow10_positive((6 - fsp) as nat);
            }
            push_padded(&mut out, self.micros() / unit, fsp as u32);
        }
        assert(out@ =~= format_spec(self@, sep@));
        out
    }

    /// The canonical text, `[-]HH:MM:SS[.FFFFFF]`.
    pub fn to_string(self) -> (r: String)
        requires
            self@.wf(),
            self@.fsp <= 6,
        ensures
            r@ == format_spec(self@, seq![':']),
    {
        proof {
            reveal_strlit(":");
        }
        self.format(":")
    }

    /// The duration written as a decimal number `[-]HHMMSS[.FFFFFF]`, which is
    /// how it converts to a decimal value.
    pub fn to_decimal_string(self) -> (r: String)
        requires
            self@.wf(),
            self@.fsp <= 6,
        ensures
            r@ == format_spec(self@, Seq::empty()),
    {
        proof {
            reveal_strlit("");
        }
        self.format("")
    }

    /// The duration as a truth value: true when it is not zero.
    pub fn as_mysql_bool(self) -> (r: bool)
        ensures
            r == !self@.is_zero(),
    {
        !self.is_zero()
    }
}

} // verus!
