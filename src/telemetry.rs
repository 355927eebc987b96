//! Sensor readings and the JSON payload that reports them.
use vstd::prelude::*;

verus! {

/// Milliseconds between two telemetry cycles.
pub const CYCLE_PERIOD_MS: u64 = 10000;

/// One sample of the sensor. A field is absent when the sample failed.
#[derive(Clone, Copy, Debug, PartialEq, Eq)]
pub struct Reading {
    pub temperature: Option<i8>,
    pub humidity: Option<u8>,
    pub sampled_at: u64,
}

impl Reading {
    /// The reading of one sample cycle: the sensor's values when it gave
    /// some, both fields absent when it failed.
    pub fn from_sample(sample: Option<(i8, u8)>, sampled_at: u64) -> (r: Reading)
        ensures
            r.sampled_at == sampled_at,
            sample is Some ==> r.temperature == Some((sample->0).0) && r.humidity == Some(
                (sample->0).1,
            ),
            sample is None ==> r.temperature is None && r.humidity is None,
    {
        match sample {
            Some((t, h)) => Reading { temperature: Some(t), humidity: Some(h), sampled_at },
            None => Reading { temperature: None, humidity: None, sampled_at },
        }
    }
}

/// The temperature that is reported: zero stands for an absent one.
pub open spec fn reported_temperature(r: Reading) -> int {
    match r.temperature {
        Some(t) => t as int,
        None => 0,
    }
}

/// The humidity that is reported: zero stands for an absent one.
pub open spec fn reported_humidity(r: Reading) -> int {
    match r.humidity {
        Some(h) => h as int,
        None => 0,
    }
}

/// The bytes of an ASCII text.
pub open spec fn ascii(s: Seq<char>) -> Seq<u8> {
    s.map_values(|c: char| c as u8)
}

/// The decimal digits of `n`, most significant first, without leading zeros.
pub open spec fn digits(n: nat) -> Seq<u8>
    decreases n,
{
    if n < 10 {
        seq![(0x30 + n) as u8]
    } else {
        digits(n / 10).push((0x30 + n % 10) as u8)
    }
}

/// `v` written in decimal, with a leading `-` when negative.
pub open spec fn decimal(v: int) -> Seq<u8> {
    if v < 0 {
        seq![0x2Du8] + digits((-v) as nat)
    } else {
        digits(v as nat)
    }
}

/// The JSON object that reports a temperature and a humidity.
pub open spec fn payload_text(temperature: int, humidity: int) -> Seq<u8> {
    ascii("{\"ping\":true,\"temperature\":"@) + decimal(temperature) + ascii(",\"humidity\":"@)
        + decimal(humidity) + ascii("}"@)
}

/// The payload that reports `r`.
pub open spec fn payload_of(r: Reading) -> Seq<u8> {
    payload_text(reported_temperature(r), reported_humidity(r))
}

/// Appends the bytes of an ASCII text.
fn push_ascii(out: &mut Vec<u8>, s: &str)
    requires
        vstd::string::is_ascii(s),
    ensures
        final(out)@ == old(out)@ + ascii(s@),
{
    let b = s.as_bytes();
    proof {
        vstd::string::is_ascii_spec_bytes(s);
        assert(b@ =~= ascii(s@));
    }
    let ghost start = out@;
    let mut i: usize = 0;
    while i < b.len()
        invariant
            i <= b@.len(),
            out@ == start + b@.take(i as int),
        decreases b@.len() - i,
    {
        out.push(b[i]);
        proof {
            assert(b@.take(i + 1) =~= b@.take(i as int).push(b@[i as int]));
        }
        i = i + 1;
    }
    proof {
        assert(b@.take(i as int) =~= b@);
    }
}

/// Appends the decimal digits of `n`.
fn push_digits(out: &mut Vec<u8>, n: u32)
    ensures
        final(out)@ == old(out)@ + digits(n as nat),
    decreases n,
{
    if n >= 10 {
        push_digits(out, n / 10);
    }
    let d: u8 = (n % 10) as u8;
    out.push(0x30 + d);
    proof {
        if n >= 10 {
            assert(digits(n as nat) == digits((n / 10) as nat).push((0x30 + n % 10) as u8));
        }
    }
    assert(final(out)@ =~= old(out)@ + digits(n as nat));
}

/// Appends `v` in decimal.
fn push_decimal(out: &mut Vec<u8>, v: i32)
    ensures
        final(out)@ == old(out)@ + decimal(v as int),
{
    if v < 0 {
        out.push(0x2D);
        let magnitude: u32 = (0i64 - v as i64) as u32;
        push_digits(out, magnitude);
    } else {
        push_digits(out, v as u32);
    }
    assert(final(out)@ =~= old(out)@ + decimal(v as int));
}

/// The JSON payload that reports `r`:
/// `{"ping":true,"temperature":<t>,"humidity":<h>}`, with zero for an
/// absent field. It depends on the two values alone.
pub fn payload(r: &Reading) -> (p: Vec<u8>)
    ensures
        p@ == payload_of(*r),
{
    let t: i32 = match r.temperature {
        Some(t) => t as i32,
        None => 0,
    };
    let h: i32 = match r.humidity {
        Some(h) => h as i32,
        None => 0,
    };
    let mut out: Vec<u8> = Vec::new();
    proof {
        reveal_strlit("{\"ping\":true,\"temperature\":");
        reveal_strlit(",\"humidity\":");
        reveal_strlit("}");
    }
    push_ascii(&mut out, "{\"ping\":true,\"temperature\":");
    push_decimal(&mut out, t);
    push_ascii(&mut out, ",\"humidity\":");
    push_decimal(&mut out, h);
    push_ascii(&mut out, "}");
    assert(out@ =~= payload_of(*r));
    out
}

/// The payload is a function of the reported values: two readings that
/// carry the same temperature and humidity give byte-identical payloads,
/// whenever they were sampled.
pub proof fn lemma_payload_deterministic(a: Reading, b: Reading)
    requires
        a.temperature == b.temperature,
        a.humidity == b.humidity,
    ensures
        payload_of(a) == payload_of(b),
{
}

} // verus!
