use vstd::prelude::*;

verus! {

/// `sample` divided by `divisor`, rounded towards zero.
pub open spec fn quotient(sample: int, divisor: int) -> int {
    if sample >= 0 {
        sample / divisor
    } else {
        -((-sample) / divisor)
    }
}

/// The sum of two samples, held to the range of a sample.
pub open spec fn clipped_sum(a: i16, b: i16) -> int {
    if a + b > i16::MAX {
        i16::MAX as int
    } else if a + b < i16::MIN {
        i16::MIN as int
    } else {
        a + b
    }
}

/// By how much samples are divided when `countdown` frames of a fadeout of
/// `fadeout_length` frames are left: the whole number of times that the
/// countdown goes into the length, at least 1 and at most `i16::MAX`. The
/// divisor is 1 when the fadeout begins and grows as the countdown runs out;
/// with no frame left it is `i16::MAX`.
pub open spec fn fade_divisor_of(fadeout_length: u64, countdown: u64) -> int {
    if countdown == 0 {
        i16::MAX as int
    } else if fadeout_length / countdown > i16::MAX {
        i16::MAX as int
    } else if fadeout_length / countdown < 1 {
        1
    } else {
        (fadeout_length / countdown) as int
    }
}

/// The divisor for samples when `countdown` frames of a fadeout are left.
pub fn fade_divisor(fadeout_length: u64, countdown: u64) -> (divisor: i16)
    ensures
        divisor == fade_divisor_of(fadeout_length, countdown),
        1 <= divisor,
{
    if countdown == 0 {
        return i16::MAX;
    }
    let ratio = fadeout_length / countdown;
    if ratio > 0x7FFF {
        i16::MAX
    } else if ratio < 1 {
        1
    } else {
        ratio as i16
    }
}

fn divide(sample: i32, divisor: i32) -> (result: i16)
    requires
        i16::MIN <= sample <= i16::MAX,
        1 <= divisor,
    ensures
        result == quotient(sample as int, divisor as int),
{
    if sample >= 0 {
        (sample / divisor) as i16
    } else {
        let magnitude: i32 = 0 - sample;
        (0 - magnitude / divisor) as i16
    }
}

/// The divisor for a countdown that may not have begun.
pub open spec fn divisor_of(fadeout_length: u64, countdown: Option<u64>) -> Option<int> {
    match countdown {
        None => None,
        Some(left) => Some(fade_divisor_of(fadeout_length, left)),
    }
}

/// The samples of one machine: while a fadeout runs each is divided by the
/// divisor, without a fadeout they stay as they are.
pub open spec fn faded(audio: Seq<i16>, fadeout_length: u64, countdown: Option<u64>) -> Seq<i16> {
    match divisor_of(fadeout_length, countdown) {
        None => audio,
        Some(d) => Seq::new(audio.len(), |i: int| quotient(audio[i] as int, d) as i16),
    }
}

/// Turns the volume of the samples of one machine down.
pub fn fade(audio: Vec<i16>, fadeout_length: u64, countdown: Option<u64>) -> (out: Vec<i16>)
    ensures
        out@ == faded(audio@, fadeout_length, countdown),
{
    match countdown {
        None => audio,
        Some(left) => {
            let d = fade_divisor(fadeout_length, left);
            let mut out: Vec<i16> = Vec::new();
            let mut i: usize = 0;
            while i < audio.len()
                invariant
                    d >= 1,
                    i <= audio@.len(),
                    out@.len() == i,
                    forall|j: int|
                        0 <= j < i ==> out@[j] == quotient(audio@[j] as int, d as int) as i16,
                decreases audio@.len() - i,
            {
                out.push(divide(audio[i] as i32, d as i32));
                i = i + 1;
            }
            assert(out@ =~= faded(audio@, fadeout_length, countdown));
            out
        },
    }
}

/// The samples of two machines as one: pair by pair their clipped sum,
/// halved, and while a fadeout runs divided by the divisor as well. What one
/// machine has more than the other is left out.
pub open spec fn mixed(
    first: Seq<i16>,
    second: Seq<i16>,
    fadeout_length: u64,
    countdown: Option<u64>,
) -> Seq<i16> {
    let scale = match divisor_of(fadeout_length, countdown) {
        None => 2int,
        Some(d) => 2 * d,
    };
    Seq::new(
        if first.len() <= second.len() {
            first.len()
        } else {
            second.len()
        },
        |i: int| quotient(clipped_sum(first[i], second[i]), scale) as i16,
    )
}

/// Mixes the samples of two machines.
pub fn mix(first: &[i16], second: &[i16], fadeout_length: u64, countdown: Option<u64>) -> (out: Vec<
    i16,
>)
    ensures
        out@ == mixed(first@, second@, fadeout_length, countdown),
{
    let scale: i32 = match countdown {
        None => 2,
        Some(left) => 2 * (fade_divisor(fadeout_length, left) as i32),
    };
    let count = if first.len() <= second.len() {
        first.len()
    } else {
        second.len()
    };
    let mut out: Vec<i16> = Vec::new();
    let mut i: usize = 0;
    while i < count
        invariant
            scale >= 2,
            scale == match divisor_of(fadeout_length, countdown) {
                None => 2int,
                Some(d) => 2 * d,
            },
            count <= first@.len(),
            count <= second@.len(),
            i <= count,
            out@.len() == i,
            forall|j: int|
                0 <= j < i ==> out@[j] == quotient(clipped_sum(first@[j], second@[j]), scale as int)
                    as i16,
        decreases count - i,
    {
        let sum: i32 = first[i] as i32 + second[i] as i32;
        let clipped: i32 = if sum > 0x7FFF {
            0x7FFF
        } else if sum < -0x8000 {
            -0x8000
        } else {
            sum
        };
        out.push(divide(clipped, scale));
        i = i + 1;
    }
    assert(out@ =~= mixed(first@, second@, fadeout_length, countdown));
    out
}

} // verus!
