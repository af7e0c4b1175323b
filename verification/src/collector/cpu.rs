//! Figures of the CPU collector computed from what the system reports:
//! the mean core clock, the model name and the temperature sensor choice.
use vstd::prelude::*;
use crate::collector::gpu_process::sat_add_spec;
use crate::text::{chars_of, opt_view, seq_eq, string_from_chars, trim, trim_chars};

verus! {

broadcast use vstd::string::group_string_axioms;

/// Sum of `freqs`, saturating at `u64::MAX`, added left to right.
pub open spec fn saturating_sum(freqs: Seq<u64>) -> u64
    decreases freqs.len(),
{
    if freqs.len() == 0 {
        0
    } else {
        sat_add_spec(saturating_sum(freqs.drop_last()), freqs.last())
    }
}

/// Mean core clock in MHz: the saturating sum divided by the number of
/// cores (rounding down), 0 with no cores.
pub open spec fn average_frequency_spec(freqs: Seq<u64>) -> u64 {
    if freqs.len() == 0 {
        0
    } else {
        (saturating_sum(freqs) as int / freqs.len() as int) as u64
    }
}

/// Mean core clock in MHz of the per-core clocks `freqs`.
pub fn average_frequency_mhz(freqs: &Vec<u64>) -> (r: u64)
    ensures
        r == average_frequency_spec(freqs@),
{
    let mut sum: u64 = 0;
    let mut i: usize = 0;
    assert(freqs@.take(0) =~= Seq::<u64>::empty());
    while i < freqs.len()
        invariant
            i <= freqs.len(),
            sum == saturating_sum(freqs@.take(i as int)),
        decreases freqs.len() - i,
    {
        assert(freqs@.take(i + 1).drop_last() =~= freqs@.take(i as int));
        sum = sum.saturating_add(freqs[i]);
        i += 1;
    }
    assert(freqs@.take(freqs.len() as int) =~= freqs@);
    if freqs.len() == 0 {
        0
    } else {
        sum / (freqs.len() as u64)
    }
}

/// The model name of the CPU: the first core's brand, trimmed, when not
/// empty.
pub open spec fn cpu_brand_spec(first_brand: Option<Seq<char>>) -> Option<Seq<char>> {
    match first_brand {
        Some(b) => if trim(b).len() > 0 {
            Some(trim(b))
        } else {
            None
        },
        None => None,
    }
}

/// The model name of the CPU from the brand of its first core, if any.
pub fn cpu_brand(first_brand: Option<String>) -> (r: Option<String>)
    ensures
        opt_view(r) == cpu_brand_spec(opt_view(first_brand)),
{
    match first_brand {
        Some(b) => {
            let s = chars_of(b.as_str());
            let t = trim_chars(s.as_slice());
            if t.len() > 0 {
                Some(string_from_chars(t.as_slice()))
            } else {
                None
            }
        },
        None => None,
    }
}

/// The hwmon drivers that report the CPU package temperature.
pub open spec fn is_cpu_temp_sensor_spec(name: Seq<char>) -> bool {
    let n = trim(name);
    n == "k10temp"@ || n == "coretemp"@ || n == "cpu_thermal"@
}

/// Whether a hwmon device with the `name` file contents `name` reports the
/// CPU temperature.
pub fn is_cpu_temp_sensor(name: &str) -> (b: bool)
    ensures
        b == is_cpu_temp_sensor_spec(name@),
{
    let s = chars_of(name);
    let n = trim_chars(s.as_slice());
    seq_eq(n.as_slice(), chars_of("k10temp").as_slice()) || seq_eq(
        n.as_slice(),
        chars_of("coretemp").as_slice(),
    ) || seq_eq(n.as_slice(), chars_of("cpu_thermal").as_slice())
}

} // verus!
