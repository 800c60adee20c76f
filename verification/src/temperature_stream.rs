//! Periodic CPU temperature samples.
//!
//! The kernel exposes the CPU temperature as one line of text holding an
//! integer number of millidegrees Celsius. The binary reads that line once
//! per fixed interval and this module turns the raw bytes into a sample;
//! keeping millidegrees as an integer loses nothing and keeps every
//! threshold comparison exact.

use vstd::prelude::*;

verus! {

/// One periodic temperature reading: when it was taken (nanoseconds of a
/// monotonic clock) and the CPU temperature in millidegrees Celsius.
#[derive(Clone, Copy, Debug, PartialEq, Eq, Structural)]
pub struct Temperatures {
    pub instant_nanos: u64,
    pub cpu_temp_millidegrees: i64,
}

/// How a sensor line can be rejected: it does not denote an integer, or the
/// integer is too large to represent. Fatal for the pipeline — a sensor
/// that stops making sense cannot be locally repaired.
#[derive(Clone, Copy, Debug, PartialEq, Eq, Structural)]
pub enum Error {
    InvalidReading,
}

/// ASCII bytes that count as surrounding whitespace in the sensor line.
pub open spec fn is_ascii_space(b: u8) -> bool {
    b == 32 || b == 9 || b == 10 || b == 13
}

/// ASCII decimal digits.
pub open spec fn is_ascii_digit(b: u8) -> bool {
    48 <= b && b <= 57
}

/// The bytes with leading whitespace removed.
pub open spec fn trim_start(s: Seq<u8>) -> Seq<u8>
    decreases s.len(),
{
    if s.len() > 0 && is_ascii_space(s[0]) {
        trim_start(s.drop_first())
    } else {
        s
    }
}

/// The bytes with trailing whitespace removed.
pub open spec fn trim_end(s: Seq<u8>) -> Seq<u8>
    decreases s.len(),
{
    if s.len() > 0 && is_ascii_space(s.last()) {
        trim_end(s.drop_last())
    } else {
        s
    }
}

/// The bytes with whitespace removed on both ends.
pub open spec fn trimmed(s: Seq<u8>) -> Seq<u8> {
    trim_end(trim_start(s))
}

pub open spec fn all_digits(s: Seq<u8>) -> bool {
    forall|i: int| 0 <= i < s.len() ==> is_ascii_digit(s[i])
}

/// The number a string of decimal digits denotes, most significant first.
pub open spec fn digits_value(s: Seq<u8>) -> int
    decreases s.len(),
{
    if s.len() == 0 {
        0
    } else {
        digits_value(s.drop_last()) * 10 + (s.last() - 48)
    }
}

/// A well-formed sensor reading, once trimmed: an optional minus sign and
/// then one or more decimal digits.
pub open spec fn well_formed_reading(t: Seq<u8>) -> bool {
    if t.len() > 0 && t[0] == 45 {
        t.len() >= 2 && all_digits(t.drop_first())
    } else {
        t.len() >= 1 && all_digits(t)
    }
}

/// The millidegrees a well-formed trimmed reading denotes.
pub open spec fn reading_value(t: Seq<u8>) -> int {
    if t.len() > 0 && t[0] == 45 {
        -digits_value(t.drop_first())
    } else {
        digits_value(t)
    }
}

/// A string of digits denotes a non-negative number.
proof fn lemma_digits_value_nonneg(s: Seq<u8>)
    requires
        all_digits(s),
    ensures
        digits_value(s) >= 0,
    decreases s.len(),
{
    if s.len() > 0 {
        assert(all_digits(s.drop_last()));
        lemma_digits_value_nonneg(s.drop_last());
    }
}

/// Appending digits never shrinks the denoted number: the whole string
/// denotes at least as much as any of its prefixes.
proof fn lemma_digits_value_prefix(s: Seq<u8>, k: int)
    requires
        all_digits(s),
        0 <= k <= s.len(),
    ensures
        digits_value(s) >= digits_value(s.take(k)),
    decreases s.len() - k,
{
    if k < s.len() {
        assert(s.take(k + 1).drop_last() =~= s.take(k));
        assert(all_digits(s.take(k)));
        lemma_digits_value_nonneg(s.take(k));
        lemma_digits_value_prefix(s, k + 1);
    } else {
        assert(s.take(k) =~= s);
    }
}

fn is_space_byte(b: u8) -> (space: bool)
    ensures
        space == is_ascii_space(b),
{
    b == 32 || b == 9 || b == 10 || b == 13
}

/// `i64::MAX / 10`, the largest magnitude that another digit can safely
/// extend.
pub const I64_MAX_OVER_TEN: u64 = 922_337_203_685_477_580;

/// Parse one sensor line into a temperature sample. The line must hold one
/// integer number of millidegrees Celsius, surrounded by nothing but
/// whitespace; anything else, or a value too large to represent, is
/// rejected — exactly as stated, there is no other failure.
pub fn get_temperatures(instant_nanos: u64, line: &[u8]) -> (result: Result<Temperatures, Error>)
    ensures
        (match result {
            Ok(temps) => {
                &&& well_formed_reading(trimmed(line@))
                &&& -(i64::MAX as int) <= reading_value(trimmed(line@)) <= i64::MAX as int
                &&& temps.cpu_temp_millidegrees == reading_value(trimmed(line@))
                &&& temps.instant_nanos == instant_nanos
            },
            Err(e) => {
                &&& e == Error::InvalidReading
                &&& !(well_formed_reading(trimmed(line@)) && -(i64::MAX as int) <= reading_value(
                    trimmed(line@),
                ) <= i64::MAX as int)
            },
        }),
{
    let n: usize = line.len();
    let mut start: usize = 0;
    proof {
        assert(line@.skip(0) =~= line@);
    }
    while start < n && is_space_byte(line[start])
        invariant
            start <= n,
            n == line@.len(),
            trim_start(line@) == trim_start(line@.skip(start as int)),
        decreases n - start,
    {
        proof {
            assert(line@.skip(start as int)[0] == line@[start as int]);
            assert(line@.skip(start as int).drop_first() =~= line@.skip(start as int + 1));
        }
        start = start + 1;
    }
    proof {
        if start == n {
            assert(line@.skip(start as int) =~= Seq::<u8>::empty());
        }
        assert(trim_start(line@) == line@.skip(start as int));
    }
    let mut end: usize = n;
    proof {
        assert(line@.subrange(start as int, n as int) =~= line@.skip(start as int));
    }
    while end > start && is_space_byte(line[end - 1])
        invariant
            start <= end <= n,
            n == line@.len(),
            trim_end(line@.subrange(start as int, end as int)) == trimmed(line@),
        decreases end,
    {
        proof {
            let t = line@.subrange(start as int, end as int);
            assert(t.last() == line@[end - 1]);
            assert(t.drop_last() =~= line@.subrange(start as int, end as int - 1));
        }
        end = end - 1;
    }
    proof {
        assert(trimmed(line@) == line@.subrange(start as int, end as int));
    }
    let ghost t = line@.subrange(start as int, end as int);
    if start == end {
        // Nothing but whitespace: no reading at all.
        return Err(Error::InvalidReading);
    }
    let negative: bool = line[start] == 45;
    let digits_start: usize = if negative {
        start + 1
    } else {
        start
    };
    let ghost digits = line@.subrange(digits_start as int, end as int);
    proof {
        if negative {
            assert(t.drop_first() =~= digits);
        }
    }
    if digits_start == end {
        // A minus sign alone is no reading.
        return Err(Error::InvalidReading);
    }
    let mut magnitude: u64 = 0;
    let mut idx: usize = digits_start;
    proof {
        assert(line@.subrange(digits_start as int, digits_start as int) =~= Seq::<u8>::empty());
    }
    while idx < end
        invariant
            digits_start <= idx <= end <= n,
            n == line@.len(),
            digits == line@.subrange(digits_start as int, end as int),
            digits_start < end,
            t == line@.subrange(start as int, end as int),
            trimmed(line@) == t,
            negative == (line@[start as int] == 45),
            negative ==> digits_start == start + 1,
            !negative ==> digits_start == start,
            start <= digits_start,
            all_digits(line@.subrange(digits_start as int, idx as int)),
            magnitude == digits_value(line@.subrange(digits_start as int, idx as int)),
            magnitude <= i64::MAX as u64,
        decreases end - idx,
    {
        let ghost prefix = line@.subrange(digits_start as int, idx as int);
        let b: u8 = line[idx];
        if !(b >= 48 && b <= 57) {
            // A non-digit inside the number: the line is malformed.
            proof {
                assert(digits[idx - digits_start] == line@[idx as int]);
                if negative {
                    assert(t.drop_first() =~= digits);
                }
                assert(!well_formed_reading(trimmed(line@)));
            }
            return Err(Error::InvalidReading);
        }
        let d: u64 = (b - 48) as u64;
        proof {
            assert(line@.subrange(digits_start as int, idx as int + 1).drop_last() =~= prefix);
            assert(line@.subrange(digits_start as int, idx as int + 1).last() == line@[idx as int]);
        }
        if magnitude > I64_MAX_OVER_TEN || (magnitude == I64_MAX_OVER_TEN && d > 7) {
            // The value can no longer fit: whatever digits follow, the
            // reading is out of range.
            proof {
                let extended = line@.subrange(digits_start as int, idx as int + 1);
                assert(digits_value(extended) == magnitude * 10 + d);
                assert(digits_value(extended) > i64::MAX as int);
                if well_formed_reading(trimmed(line@)) {
                    if negative {
                        assert(t.drop_first() =~= digits);
                    }
                    assert(all_digits(digits));
                    assert(extended =~= digits.take(idx as int + 1 - digits_start));
                    lemma_digits_value_prefix(digits, idx as int + 1 - digits_start);
                    assert(digits_value(digits) > i64::MAX as int);
                    if negative {
                        assert(reading_value(trimmed(line@)) < -(i64::MAX as int));
                    } else {
                        assert(reading_value(trimmed(line@)) > i64::MAX as int);
                    }
                }
            }
            return Err(Error::InvalidReading);
        }
        magnitude = magnitude * 10 + d;
        idx = idx + 1;
    }
    proof {
        assert(line@.subrange(digits_start as int, idx as int) =~= digits);
        if negative {
            assert(t.drop_first() =~= digits);
            assert(t[0] == line@[start as int]);
        } else {
            assert(t =~= digits);
            assert(t[0] == digits[0]);
        }
        assert(well_formed_reading(trimmed(line@)));
    }
    let cpu_temp_millidegrees: i64 = if negative {
        -(magnitude as i64)
    } else {
        magnitude as i64
    };
    Ok(Temperatures { instant_nanos, cpu_temp_millidegrees })
}

} // verus!
