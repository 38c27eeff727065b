//! Rendering a period's report as one line of text, and the console sink.
//!
//! The line reads `max:<value><unit> <p>%:<value><unit> ... total:<n>
//! duration_nanos:<n> ops/sec:<f>`, percentiles from the highest target to
//! the lowest, every latency auto-scaled to ns, us, ms or s with two
//! decimal places, and the throughput with two decimal places.

use crate::timer::{throughput_centi, throughput_centi_spec, DefaultPrinter, LatPrinter, LatRet};
use std::io::Write;
use vstd::prelude::*;

verus! {

/// The character of one decimal digit.
pub open spec fn digit_char(d: nat) -> char {
    if d == 0 {
        '0'
    } else if d == 1 {
        '1'
    } else if d == 2 {
        '2'
    } else if d == 3 {
        '3'
    } else if d == 4 {
        '4'
    } else if d == 5 {
        '5'
    } else if d == 6 {
        '6'
    } else if d == 7 {
        '7'
    } else if d == 8 {
        '8'
    } else {
        '9'
    }
}

/// The decimal digits of a number, most significant first.
pub open spec fn dec_spec(n: nat) -> Seq<char>
    decreases n,
{
    if n < 10 {
        seq![digit_char(n)]
    } else {
        dec_spec(n / 10) + seq![digit_char(n % 10)]
    }
}

/// A number below one hundred as exactly two digits, zero-padded.
pub open spec fn pad2_spec(f: nat) -> Seq<char> {
    if f < 10 {
        seq!['0'] + dec_spec(f)
    } else {
        dec_spec(f)
    }
}

/// Appends one decimal digit's character.
fn append_digit(s: &mut String, d: u64)
    requires
        d < 10,
    ensures
        final(s)@ == old(s)@ + seq![digit_char(d as nat)],
{
    if d == 0 {
        s.append("0");
        proof {
            reveal_strlit("0");
            assert(s@ =~= old(s)@ + seq![digit_char(d as nat)]);
        }
    } else if d == 1 {
        s.append("1");
        proof {
            reveal_strlit("1");
            assert(s@ =~= old(s)@ + seq![digit_char(d as nat)]);
        }
    } else if d == 2 {
        s.append("2");
        proof {
            reveal_strlit("2");
            assert(s@ =~= old(s)@ + seq![digit_char(d as nat)]);
        }
    } else if d == 3 {
        s.append("3");
        proof {
            reveal_strlit("3");
            assert(s@ =~= old(s)@ + seq![digit_char(d as nat)]);
        }
    } else if d == 4 {
        s.append("4");
        proof {
            reveal_strlit("4");
            assert(s@ =~= old(s)@ + seq![digit_char(d as nat)]);
        }
    } else if d == 5 {
        s.append("5");
        proof {
            reveal_strlit("5");
            assert(s@ =~= old(s)@ + seq![digit_char(d as nat)]);
        }
    } else if d == 6 {
        s.append("6");
        proof {
            reveal_strlit("6");
            assert(s@ =~= old(s)@ + seq![digit_char(d as nat)]);
        }
    } else if d == 7 {
        s.append("7");
        proof {
            reveal_strlit("7");
            assert(s@ =~= old(s)@ + seq![digit_char(d as nat)]);
        }
    } else if d == 8 {
        s.append("8");
        proof {
            reveal_strlit("8");
            assert(s@ =~= old(s)@ + seq![digit_char(d as nat)]);
        }
    } else {
        s.append("9");
        proof {
            reveal_strlit("9");
            assert(s@ =~= old(s)@ + seq![digit_char(d as nat)]);
        }
    }
}

/// Renders a number's decimal digits, most significant first.
fn u128_to_dec(n: u128) -> (s: String)
    ensures
        s@ == dec_spec(n as nat),
    decreases n,
{
    if n < 10 {
        let mut s = String::new();
        append_digit(&mut s, n as u64);
        proof {
            assert(s@ =~= dec_spec(n as nat));
        }
        s
    } else {
        let mut s = u128_to_dec(n / 10);
        append_digit(&mut s, (n % 10) as u64);
        s
    }
}

/// The decimal digits of a 64-bit value.
fn u64_dec(n: u64) -> (s: String)
    ensures
        s@ == dec_spec(n as nat),
{
    u128_to_dec(n as u128)
}

/// Appends a number below one hundred as two zero-padded digits.
fn append_pad2(s: &mut String, f: u64)
    requires
        f < 100,
    ensures
        final(s)@ == old(s)@ + pad2_spec(f as nat),
{
    if f < 10 {
        s.append("0");
        let d = u64_dec(f);
        s.append(d.as_str());
        proof {
            reveal_strlit("0");
            assert(s@ =~= old(s)@ + pad2_spec(f as nat));
        }
    } else {
        let d = u64_dec(f);
        s.append(d.as_str());
    }
}

/// A value scaled down by `div`, in hundredths, rounded to the nearest
/// hundredth.
pub open spec fn scaled_centi(t: nat, div: nat) -> nat {
    (t * 100 + div / 2) / div
}

/// A latency under a given scale: whole units, a dot, and two decimal
/// digits rounded to nearest, then the unit's suffix.
pub open spec fn scaled_spec(t: nat, div: nat, unit: Seq<char>) -> Seq<char> {
    dec_spec(scaled_centi(t, div) / 100) + "."@ + pad2_spec(scaled_centi(t, div) % 100) + unit
}

/// Appends a latency scaled down by `div` with two rounded decimal places
/// and the given unit suffix.
fn append_scaled(s: &mut String, t: u64, div: u64, unit: &str)
    requires
        1000 <= div <= 1000000000,
    ensures
        final(s)@ == old(s)@ + scaled_spec(t as nat, div as nat, unit@),
{
    let c: u128 = ((t as u128) * 100 + (div as u128) / 2) / (div as u128);
    proof {
        assert(c == scaled_centi(t as nat, div as nat));
    }
    let d = u128_to_dec(c / 100);
    s.append(d.as_str());
    s.append(".");
    append_pad2(s, (c % 100) as u64);
    s.append(unit);
    proof {
        assert(s@ =~= old(s)@ + scaled_spec(t as nat, div as nat, unit@));
    }
}

/// One latency as text: auto-scaled to the largest unit that keeps the
/// whole part under one thousand, with two decimal places rounded to
/// nearest and a trailing space.
pub open spec fn time_format_spec(t: nat) -> Seq<char> {
    if t < 1000 {
        dec_spec(t) + ".00ns "@
    } else if t < 1000000 {
        scaled_spec(t, 1000, "us "@)
    } else if t < 1000000000 {
        scaled_spec(t, 1000000, "ms "@)
    } else {
        scaled_spec(t, 1000000000, "s "@)
    }
}

/// Formats one latency with an auto-scaled unit.
pub fn time_format(t: u64) -> (s: String)
    ensures
        s@ == time_format_spec(t as nat),
{
    if t < 1000 {
        let mut s = u64_dec(t);
        s.append(".00ns ");
        s
    } else if t < 1000000 {
        let mut s = String::new();
        append_scaled(&mut s, t, 1000, "us ");
        proof {
            assert(s@ =~= time_format_spec(t as nat));
        }
        s
    } else if t < 1000000000 {
        let mut s = String::new();
        append_scaled(&mut s, t, 1000000, "ms ");
        proof {
            assert(s@ =~= time_format_spec(t as nat));
        }
        s
    } else {
        let mut s = String::new();
        append_scaled(&mut s, t, 1000000000, "s ");
        proof {
            assert(s@ =~= time_format_spec(t as nat));
        }
        s
    }
}

/// A percentile target, in tenths of a percent, as a percentage: the whole
/// percent, and one decimal digit only when the target has a fractional
/// part.
pub open spec fn pct_spec(pm: nat) -> Seq<char> {
    if pm % 10 == 0 {
        dec_spec(pm / 10)
    } else {
        dec_spec(pm / 10) + "."@ + dec_spec(pm % 10)
    }
}

/// Appends a percentile target rendered as a percentage.
fn append_pct(s: &mut String, pm: u64)
    ensures
        final(s)@ == old(s)@ + pct_spec(pm as nat),
{
    let d = u64_dec(pm / 10);
    s.append(d.as_str());
    if pm % 10 != 0 {
        s.append(".");
        let f = u64_dec(pm % 10);
        s.append(f.as_str());
        proof {
            assert(s@ =~= old(s)@ + pct_spec(pm as nat));
        }
    }
}

/// One percentile segment of the report line: the target as a percentage,
/// a separator, and the reconstructed latency.
pub open spec fn entry_spec(pm: u64, nano: u64) -> Seq<char> {
    pct_spec(pm as nat) + "%:"@ + time_format_spec(nano as nat)
}

/// The percentile segments for targets `m` and above, ordered from the
/// highest target down to target `m`.
pub open spec fn segs_down(p: Seq<u64>, n: Seq<u64>, m: int) -> Seq<char>
    decreases p.len() - m,
{
    if m < 0 || m >= p.len() {
        Seq::<char>::empty()
    } else {
        segs_down(p, n, m + 1) + entry_spec(p[m], n[m])
    }
}

impl LatRet {
    /// The report line: the maximum, every percentile from the highest
    /// target to the lowest, the total, the raw duration and the derived
    /// throughput — or a placeholder when the period held no data points.
    pub open spec fn render_spec(&self) -> Seq<char> {
        if self.total == 0 {
            "No data points"@
        } else {
            "max:"@ + time_format_spec(self.max_nanos as nat) + segs_down(
                self.p_tiles@,
                self.nanos@,
                0,
            ) + "total:"@ + dec_spec(self.total as nat) + " duration_nanos:"@ + dec_spec(
                self.duration_nanos as nat,
            ) + " ops/sec:"@ + dec_spec(
                (throughput_centi_spec(self.total as int, self.duration_nanos as int) / 100) as nat,
            ) + "."@ + pad2_spec(
                (throughput_centi_spec(self.total as int, self.duration_nanos as int) % 100) as nat,
            )
        }
    }

    /// Renders the report as one line of text.
    pub fn render(&self) -> (s: String)
        requires
            self.wf(),
        ensures
            s@ == self.render_spec(),
    {
        if self.total == 0 {
            let s = String::from_str("No data points");
            return s;
        }
        let mut s = String::from_str("max:");
        let tf = time_format(self.max_nanos);
        s.append(tf.as_str());
        let mut j: usize = self.p_tiles.len();
        proof {
            assert(s@ =~= "max:"@ + time_format_spec(self.max_nanos as nat) + segs_down(
                self.p_tiles@,
                self.nanos@,
                j as int,
            ));
        }
        while j > 0
            invariant
                self.wf(),
                j <= self.p_tiles@.len(),
                s@ == "max:"@ + time_format_spec(self.max_nanos as nat) + segs_down(
                    self.p_tiles@,
                    self.nanos@,
                    j as int,
                ),
            decreases j,
        {
            j = j - 1;
            append_pct(&mut s, self.p_tiles[j]);
            s.append("%:");
            let tv = time_format(self.nanos[j]);
            s.append(tv.as_str());
            proof {
                assert(s@ =~= "max:"@ + time_format_spec(self.max_nanos as nat) + segs_down(
                    self.p_tiles@,
                    self.nanos@,
                    j as int,
                ));
            }
        }
        s.append("total:");
        let td = u64_dec(self.total);
        s.append(td.as_str());
        s.append(" duration_nanos:");
        let dd = u64_dec(self.duration_nanos);
        s.append(dd.as_str());
        s.append(" ops/sec:");
        let c = throughput_centi(self.total, self.duration_nanos);
        let w = u128_to_dec(c / 100);
        s.append(w.as_str());
        s.append(".");
        append_pad2(&mut s, (c % 100) as u64);
        proof {
            assert(s@ =~= self.render_spec());
        }
        s
    }
}

/// Relies on std::io::Stdout and the writeln macro: writes the given text
/// as one line on standard output.
#[verifier::external_body]
fn console_write_line(line: &str) {
    let _ = writeln!(std::io::stdout(), "{}", line);
}

impl LatPrinter for DefaultPrinter {
    /// Renders the result and prints it on the console as
    /// `<name>, <report>`.
    fn log(&self, name: &str, lat_ret: &LatRet) {
        let mut out = String::new();
        out.append(name);
        out.append(", ");
        let line = lat_ret.render();
        out.append(line.as_str());
        console_write_line(out.as_str());
    }
}

} // verus!
