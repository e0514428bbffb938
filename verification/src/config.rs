use vstd::prelude::*;
use vstd::string::*;
use crate::fixed::Fx;

verus! {

/// Models the size of an image.
#[derive(Clone, Debug, PartialEq, Eq, Structural)]
pub struct Resolution {
    pub width: u32,
    pub height: u32,
}

/// Why a resolution string is rejected.
#[derive(Clone, Copy, Debug, PartialEq, Eq, Structural)]
pub enum ResolutionError {
    /// No `<digits>x<digits>` group occurs in the string.
    Malformed,
    /// A dimension does not fit in 32 bits.
    OutOfRange,
}

/// Describes the properties of the output image.
///
/// * `resolution`: self explanatory.
/// * `fov`: vertical field of view, in degrees.
/// * `samples`: the number of rays that are randomly sent through
///   each pixel and then averaged together; a high number of samples
///   provides more accurate colors, less noise and better
///   anti-aliasing.
/// * `output_filename`: self explanatory.
/// * `threads`: how many workers render in parallel.
#[derive(Clone, Debug)]
pub struct Config {
    pub resolution: Resolution,
    pub fov: Fx,
    pub samples: u32,
    pub output_filename: String,
    pub threads: usize,
}

/// Whether a byte is an ASCII decimal digit.
pub open spec fn is_digit_b(c: u8) -> bool {
    48 <= c <= 57
}

/// Where the run of digits starting at `i` ends: the first position
/// at or after `i` holding no digit.
pub open spec fn digit_run_end(s: Seq<u8>, i: int) -> int
    decreases s.len() - i,
{
    if i < 0 || i >= s.len() || !is_digit_b(s[i]) {
        i
    } else {
        digit_run_end(s, i + 1)
    }
}

/// The run end stays between `i` and the end of the string, and the
/// run itself holds digits only.
pub proof fn lemma_run_end(s: Seq<u8>, i: int)
    requires
        0 <= i <= s.len(),
    ensures
        i <= digit_run_end(s, i) <= s.len(),
        forall|k: int| i <= k < digit_run_end(s, i) ==> is_digit_b(s[k]),
        digit_run_end(s, i) < s.len() ==> !is_digit_b(s[digit_run_end(s, i)]),
    decreases s.len() - i,
{
    if i < s.len() && is_digit_b(s[i]) {
        lemma_run_end(s, i + 1);
    }
}

/// Whether `<digits>x<digits>` (with `x` or `X`) matches at `i`.
pub open spec fn match_at(s: Seq<u8>, i: int) -> bool {
    let e = digit_run_end(s, i);
    0 <= i < s.len() && is_digit_b(s[i]) && e + 1 < s.len() && (s[e] == 120 || s[e] == 88)
        && is_digit_b(s[e + 1])
}

/// The leftmost position at or after `i` where the group matches.
pub open spec fn find_match(s: Seq<u8>, i: int) -> Option<int>
    decreases s.len() - i,
{
    if i < 0 || i >= s.len() {
        None
    } else if match_at(s, i) {
        Some(i)
    } else {
        find_match(s, i + 1)
    }
}

/// Value of a run of decimal digits.
pub open spec fn digits_val(s: Seq<u8>) -> int
    decreases s.len(),
{
    if s.len() == 0 {
        0
    } else {
        10 * digits_val(s.drop_last()) + (s.last() - 48)
    }
}

/// A run of digits has a nonnegative value.
pub proof fn lemma_digits_nonneg(s: Seq<u8>)
    requires
        forall|k: int| 0 <= k < s.len() ==> is_digit_b(s[k]),
    ensures
        digits_val(s) >= 0,
    decreases s.len(),
{
    if s.len() > 0 {
        lemma_digits_nonneg(s.drop_last());
    }
}

/// Reading more digits can only grow the value: the whole run is
/// worth at least any of its prefixes.
pub proof fn lemma_digits_monotone(s: Seq<u8>, k: int)
    requires
        0 <= k <= s.len(),
        forall|j: int| 0 <= j < s.len() ==> is_digit_b(s[j]),
    ensures
        digits_val(s) >= digits_val(s.subrange(0, k)),
    decreases s.len(),
{
    if k == s.len() {
        assert(s.subrange(0, k) =~= s);
    } else {
        let dl = s.drop_last();
        assert(forall|j: int| 0 <= j < dl.len() ==> is_digit_b(dl[j]));
        lemma_digits_monotone(dl, k);
        lemma_digits_nonneg(dl);
        assert(dl.subrange(0, k) =~= s.subrange(0, k));
    }
}

/// The named sizes the parser accepts.
pub open spec fn preset_s(s: Seq<u8>) -> Option<Resolution> {
    if s == seq![55u8, 50u8, 48u8, 112u8] {
        Some(Resolution { width: 1280, height: 720 })
    } else if s == seq![49u8, 48u8, 56u8, 48u8, 112u8] {
        Some(Resolution { width: 1920, height: 1080 })
    } else if s == seq![52u8, 107u8] {
        Some(Resolution { width: 3840, height: 2160 })
    } else if s == seq![56u8, 107u8] {
        Some(Resolution { width: 7680, height: 4320 })
    } else {
        None
    }
}

/// What parsing a resolution string yields: a named preset (720p,
/// 1080p, 4k, 8k), else the leftmost `<digits>x<digits>` group
/// anywhere in the string, both dimensions read in decimal. A string
/// without such a group is malformed; a dimension beyond 32 bits is
/// out of range.
pub open spec fn parse_resolution_s(s: Seq<u8>) -> Result<Resolution, ResolutionError> {
    match preset_s(s) {
        Some(res) => Ok(res),
        None => match find_match(s, 0) {
            None => Err(ResolutionError::Malformed),
            Some(i) => {
                let e = digit_run_end(s, i);
                let he = digit_run_end(s, e + 1);
                let w = digits_val(s.subrange(i, e));
                let h = digits_val(s.subrange(e + 1, he));
                if w <= u32::MAX && h <= u32::MAX {
                    Ok(Resolution { width: w as u32, height: h as u32 })
                } else {
                    Err(ResolutionError::OutOfRange)
                }
            },
        },
    }
}

fn run_end(b: &[u8], i: usize) -> (e: usize)
    requires
        i <= b@.len(),
    ensures
        e as int == digit_run_end(b@, i as int),
        i <= e <= b@.len(),
{
    proof {
        lemma_run_end(b@, i as int);
    }
    let mut j = i;
    while j < b.len() && 48 <= b[j] && b[j] <= 57
        invariant
            i <= j <= b@.len(),
            digit_run_end(b@, i as int) == digit_run_end(b@, j as int),
        decreases b@.len() - j,
    {
        j = j + 1;
    }
    j
}

fn parse_digits(b: &[u8], from: usize, to: usize) -> (r: Option<u32>)
    requires
        from <= to <= b@.len(),
        forall|k: int| from <= k < to ==> is_digit_b(b@[k]),
    ensures
        r matches Some(v) ==> v as int == digits_val(b@.subrange(from as int, to as int))
            && digits_val(b@.subrange(from as int, to as int)) <= u32::MAX,
        r is None ==> digits_val(b@.subrange(from as int, to as int)) > u32::MAX,
{
    let mut acc: u64 = 0;
    let mut i = from;
    proof {
        assert(b@.subrange(from as int, from as int) =~= Seq::<u8>::empty());
    }
    while i < to
        invariant
            from <= i <= to <= b@.len(),
            forall|k: int| from <= k < to ==> is_digit_b(b@[k]),
            acc as int == digits_val(b@.subrange(from as int, i as int)),
            acc <= u32::MAX,
        decreases to - i,
    {
        let d = b[i] - 48;
        acc = acc * 10 + (d as u64);
        proof {
            assert(b@.subrange(from as int, i + 1).drop_last() =~= b@.subrange(
                from as int,
                i as int,
            ));
        }
        if acc > 0xffff_ffff {
            proof {
                let full = b@.subrange(from as int, to as int);
                lemma_digits_monotone(full, i + 1 - from);
                assert(full.subrange(0, i + 1 - from) =~= b@.subrange(from as int, i + 1));
            }
            return None;
        }
        i = i + 1;
    }
    Some(acc as u32)
}

/// Parses a resolution string: one of the named presets, or the
/// leftmost `<digits>x<digits>` group anywhere in the string.
pub fn parse_resolution(s: &str) -> (r: Result<Resolution, ResolutionError>)
    ensures
        r == parse_resolution_s(s.spec_bytes()),
{
    let b: &[u8] = s.as_bytes();
    let n = b.len();
    if n == 4 && b[0] == 55 && b[1] == 50 && b[2] == 48 && b[3] == 112 {
        proof {
            assert(b@ =~= seq![55u8, 50u8, 48u8, 112u8]);
        }
        return Ok(Resolution { width: 1280, height: 720 });
    }
    if n == 5 && b[0] == 49 && b[1] == 48 && b[2] == 56 && b[3] == 48 && b[4] == 112 {
        proof {
            assert(b@ =~= seq![49u8, 48u8, 56u8, 48u8, 112u8]);
        }
        return Ok(Resolution { width: 1920, height: 1080 });
    }
    if n == 2 && b[0] == 52 && b[1] == 107 {
        proof {
            assert(b@ =~= seq![52u8, 107u8]);
        }
        return Ok(Resolution { width: 3840, height: 2160 });
    }
    if n == 2 && b[0] == 56 && b[1] == 107 {
        proof {
            assert(b@ =~= seq![56u8, 107u8]);
        }
        return Ok(Resolution { width: 7680, height: 4320 });
    }
    let mut pos: usize = 0;
    while pos < n
        invariant
            pos <= n,
            n == b@.len(),
            b@ == s.spec_bytes(),
            find_match(b@, 0) == find_match(b@, pos as int),
            preset_s(b@) is None,
        decreases n - pos,
    {
        proof {
            lemma_run_end(b@, pos as int);
        }
        let mut matched = false;
        if 48 <= b[pos] && b[pos] <= 57 {
            let e = run_end(b, pos);
            if n - e > 1 && (b[e] == 120 || b[e] == 88) && 48 <= b[e + 1] && b[e + 1] <= 57 {
                matched = true;
            }
        }
        assert(matched == match_at(b@, pos as int));
        if matched {
            let e = run_end(b, pos);
            proof {
                lemma_run_end(b@, e + 1);
            }
            let he = run_end(b, e + 1);
            let w = parse_digits(b, pos, e);
            let h = parse_digits(b, e + 1, he);
            match (w, h) {
                (Some(width), Some(height)) => {
                    return Ok(Resolution { width, height });
                },
                _ => {
                    return Err(ResolutionError::OutOfRange);
                },
            }
        }
        pos = pos + 1;
    }
    Err(ResolutionError::Malformed)
}

impl core::str::FromStr for Resolution {
    type Err = ResolutionError;

    fn from_str(s: &str) -> Result<Resolution, ResolutionError> {
        parse_resolution(s)
    }
}

} // verus!
