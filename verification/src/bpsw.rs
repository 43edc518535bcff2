//! Planning the number-hunting project's work ranges.
//!
//! The search space is described by arbitrarily large integer bounds, so
//! the bounds are carried as big integers and the arithmetic is done by
//! num-bigint behind trusted wrappers; each wrapper's contract speaks of
//! the integer value the big integer stands for.  The chunking logic —
//! cutting a range into fixed-size chunks and estimating how many tasks a
//! range produces — is verified here against those contracts.

use vstd::prelude::*;

use num_bigint::BigInt;
use num_traits::ToPrimitive;

use crate::text::is_dec_digit;
use crate::text::spec_dec_value;
use crate::text::spec_digits_value;
use crate::text::spec_is_dec;

verus! {

#[verifier::external_type_specification]
#[verifier::external_body]
pub struct ExBigInt(BigInt);

/// The integer a big integer stands for.
pub uninterp spec fn big_val(b: BigInt) -> int;

/// Relies on num-bigint's From<i64> for BigInt: the exact value.
#[verifier::external_body]
fn big_from_i64(v: i64) -> (r: BigInt)
    ensures
        big_val(r) == v,
{
    BigInt::from(v)
}

/// Relies on num-bigint's Clone for BigInt: the same value.
#[verifier::external_body]
fn big_clone(a: &BigInt) -> (r: BigInt)
    ensures
        big_val(r) == big_val(*a),
{
    a.clone()
}

/// Relies on num-bigint's Add for BigInt: exact integer addition.
#[verifier::external_body]
fn big_add(a: &BigInt, b: &BigInt) -> (r: BigInt)
    ensures
        big_val(r) == big_val(*a) + big_val(*b),
{
    a + b
}

/// Relies on num-bigint's Sub for BigInt: exact integer subtraction.
#[verifier::external_body]
fn big_sub(a: &BigInt, b: &BigInt) -> (r: BigInt)
    ensures
        big_val(r) == big_val(*a) - big_val(*b),
{
    a - b
}

/// Relies on num-bigint's Mul for BigInt: exact integer multiplication.
#[verifier::external_body]
fn big_mul(a: &BigInt, b: &BigInt) -> (r: BigInt)
    ensures
        big_val(r) == big_val(*a) * big_val(*b),
{
    a * b
}

/// Relies on num-bigint's Div and Rem for BigInt, which truncate toward
/// zero; on non-negative operands that is Euclidean division.
#[verifier::external_body]
fn big_div_rem(a: &BigInt, b: &BigInt) -> (r: (BigInt, BigInt))
    requires
        big_val(*a) >= 0,
        big_val(*b) > 0,
    ensures
        big_val(r.0) == big_val(*a) / big_val(*b),
        big_val(r.1) == big_val(*a) % big_val(*b),
{
    (a / b, a % b)
}

/// Relies on num-bigint's Ord for BigInt: comparison by integer value.
#[verifier::external_body]
fn big_le(a: &BigInt, b: &BigInt) -> (r: bool)
    ensures
        r == (big_val(*a) <= big_val(*b)),
{
    a <= b
}

/// Relies on num-traits' ToPrimitive::to_u64 on BigInt: the value exactly
/// when it fits in a `u64`, and nothing otherwise.
#[verifier::external_body]
fn big_to_u64(a: &BigInt) -> (r: Option<u64>)
    ensures
        r == (if 0 <= big_val(*a) <= u64::MAX {
            Some(big_val(*a) as u64)
        } else {
            None::<u64>
        }),
{
    a.to_u64()
}

/// Relies on num-bigint's BigInt::parse_bytes with radix 10: a valid
/// decimal string parses to its value.
#[verifier::external_body]
fn big_parse_decimal(s: &str) -> (r: Option<BigInt>)
    ensures
        match r {
            Some(b) => spec_is_dec(s@) ==> big_val(b) == spec_dec_value(s@),
            None => !spec_is_dec(s@),
        },
{
    BigInt::parse_bytes(s.as_bytes(), 10)
}

/// Relies on num-bigint's Display for BigInt: the canonical decimal form
/// of the value, with a leading minus sign for negatives.
#[verifier::external_body]
fn big_to_decimal(a: &BigInt) -> (r: String)
    ensures
        spec_is_dec(r@),
        spec_dec_value(r@) == big_val(*a),
{
    a.to_string()
}

/// A range bound given either as a number or as a decimal string.
pub enum BpswBound {
    Int(i64),
    Str(String),
}

/// A request to start the number-hunting project.
pub struct BpswStartRequest {
    pub start: Option<BpswBound>,
    pub end: Option<BpswBound>,
    pub chunk_size: Option<i64>,
    pub task_types: Option<Vec<String>>,
}

/// The start acknowledgement.
pub struct BpswStartResponse {
    pub status: &'static str,
    pub project_id: i64,
    pub total_tasks: usize,
}

/// The script-sync acknowledgement.
pub struct BpswScriptSyncResponse {
    pub status: &'static str,
    pub project_id: i64,
    pub task_types: Vec<String>,
}

/// Read an optional range bound: a number is taken as it is, a valid
/// decimal string parses to its value.
pub fn parse_bpsw_bound(bound: Option<&BpswBound>) -> (r: Option<BigInt>)
    ensures
        bound matches Some(b) ==> (match *b {
            BpswBound::Int(v) => r matches Some(x) && big_val(x) == v,
            BpswBound::Str(s) => spec_is_dec(s@) ==> (r matches Some(x) && big_val(x)
                == spec_dec_value(s@)),
        }),
        bound is None ==> r is None,
{
    match bound {
        Some(BpswBound::Int(v)) => Some(big_from_i64(*v)),
        Some(BpswBound::Str(s)) => big_parse_decimal(s.as_str()),
        None => None,
    }
}

/// Ten to the given power.
pub open spec fn spec_pow10(e: nat) -> int
    decreases e,
{
    if e == 0 {
        1
    } else {
        10 * spec_pow10((e - 1) as nat)
    }
}

/// Ten raised to `exponent`, as a big integer.
pub fn pow10(exponent: u32) -> (r: BigInt)
    ensures
        big_val(r) == spec_pow10(exponent as nat),
{
    let ten = big_from_i64(10);
    let mut value = big_from_i64(1);
    let mut i: u32 = 0;
    while i < exponent
        invariant
            i <= exponent,
            big_val(ten) == 10,
            big_val(value) == spec_pow10(i as nat),
        decreases exponent - i,
    {
        value = big_mul(&value, &ten);
        i = i + 1;
    }
    value
}

/// The default first bound of the main odd search: ten to the twentieth
/// power, plus one.
pub fn default_main_odds_start() -> (r: BigInt)
    ensures
        big_val(r) == spec_pow10(20) + 1,
{
    let base = pow10(20);
    let one = big_from_i64(1);
    big_add(&base, &one)
}

/// The default first bound of the large-number search: a one, three
/// hundred zeros, and a one — ten to the 301st power, plus one.
pub fn default_large_numbers_start() -> (r: BigInt)
    ensures
        big_val(r) == spec_pow10(301) + 1,
{
    let base = pow10(301);
    let one = big_from_i64(1);
    big_add(&base, &one)
}

/// The digit count the k-search starts from for a target digit count.
pub open spec fn spec_chernick_digits(target_digits: int) -> int {
    let d = (target_digits - 4) / 3;
    if d > 1 {
        d
    } else {
        1
    }
}

/// The first k of the chernick search for a target digit count: ten to
/// one less than the starting digit count.
pub fn chernick_k_start(target_digits: i64) -> (r: BigInt)
    requires
        4 <= target_digits <= 4000000000,
    ensures
        big_val(r) == spec_pow10((spec_chernick_digits(target_digits as int) - 1) as nat),
{
    let d = (target_digits - 4) / 3;
    let digits: i64 = if d > 1 {
        d
    } else {
        1
    };
    let exp: u32 = (digits - 1) as u32;
    proof {
        assert(digits - 1 == spec_chernick_digits(target_digits as int) - 1);
    }
    pow10(exp)
}

/// The last value of a chunk that starts at `start`: `chunk_size - 1`
/// steps further on, or `start` itself for a chunk of one.
pub open spec fn spec_chunk_end(start: int, chunk_size: int, step: int) -> int {
    if chunk_size <= 1 {
        start
    } else {
        start + step * (chunk_size - 1)
    }
}

/// The end of the chunk starting at `start`.
pub fn chunk_end_from(start: &BigInt, chunk_size: i64, step: i64) -> (r: BigInt)
    ensures
        big_val(r) == spec_chunk_end(big_val(*start), chunk_size as int, step as int),
{
    if chunk_size <= 1 {
        return big_clone(start);
    }
    let step_big = big_from_i64(step);
    let count = big_from_i64(chunk_size - 1);
    let offset = big_mul(&step_big, &count);
    big_add(start, &offset)
}

/// The chunk bounds covering `[start, end]`: each chunk runs `chunk_size`
/// steps, the last is clamped to `end`, and the next begins one step
/// after the previous chunk's clamped end.
pub open spec fn spec_ranges(start: int, end: int, chunk_size: int, step: int) -> Seq<(int, int)>
    decreases end + step - start,
        when step >= 1 && chunk_size >= 1
{
    if start > end {
        Seq::empty()
    } else {
        let ce = spec_chunk_end(start, chunk_size, step);
        let clamped = if ce > end {
            end
        } else {
            ce
        };
        seq![(start, clamped)] + spec_ranges(clamped + step, end, chunk_size, step)
    }
}

/// The values of a list of decimal bound pairs.
pub open spec fn spec_range_vals(r: Seq<(String, String)>) -> Seq<(int, int)> {
    r.map_values(|p: (String, String)| (spec_dec_value(p.0@), spec_dec_value(p.1@)))
}

/// Cut `[start, end]` into chunk bounds, as decimal strings.
pub fn chunk_ranges(start: &BigInt, end: &BigInt, chunk_size: i64, step: i64) -> (r: Vec<
    (String, String),
>)
    requires
        step >= 1,
        chunk_size >= 1,
    ensures
        spec_range_vals(r@) == spec_ranges(
            big_val(*start),
            big_val(*end),
            chunk_size as int,
            step as int,
        ),
        forall|k: int|
            0 <= k < r@.len() ==> spec_is_dec((#[trigger] r@[k]).0@) && spec_is_dec(r@[k].1@),
{
    let ghost v0 = big_val(*start);
    let ghost e = big_val(*end);
    let mut ranges: Vec<(String, String)> = Vec::new();
    let step_big = big_from_i64(step);
    let mut current = big_clone(start);
    proof {
        assert(spec_range_vals(ranges@) =~= Seq::<(int, int)>::empty());
    }
    while big_le(&current, end)
        invariant
            step >= 1,
            chunk_size >= 1,
            big_val(step_big) == step,
            e == big_val(*end),
            spec_range_vals(ranges@) + spec_ranges(
                big_val(current),
                e,
                chunk_size as int,
                step as int,
            ) =~= spec_ranges(v0, e, chunk_size as int, step as int),
            forall|k: int|
                0 <= k < ranges@.len() ==> spec_is_dec((#[trigger] ranges@[k]).0@) && spec_is_dec(
                    ranges@[k].1@,
                ),
        decreases e + step - big_val(current),
    {
        let chunk_end = chunk_end_from(&current, chunk_size, step);
        let clamped = if big_le(&chunk_end, end) {
            chunk_end
        } else {
            big_clone(end)
        };
        let ghost ranges_before = ranges@;
        let ghost cur_val = big_val(current);
        let ghost clamped_val = big_val(clamped);
        ranges.push((big_to_decimal(&current), big_to_decimal(&clamped)));
        current = big_add(&clamped, &step_big);
        proof {
            assert(spec_range_vals(ranges@) =~= spec_range_vals(ranges_before).push(
                (cur_val, clamped_val),
            ));
            assert(spec_ranges(cur_val, e, chunk_size as int, step as int) =~= seq![
                (cur_val, clamped_val),
            ] + spec_ranges(clamped_val + step, e, chunk_size as int, step as int));
            assert(spec_range_vals(ranges@) + spec_ranges(
                big_val(current),
                e,
                chunk_size as int,
                step as int,
            ) =~= spec_ranges(v0, e, chunk_size as int, step as int));
        }
    }
    proof {
        assert(spec_ranges(big_val(current), e, chunk_size as int, step as int)
            =~= Seq::<(int, int)>::empty());
        assert(spec_range_vals(ranges@) =~= spec_range_vals(ranges@) + Seq::<(int, int)>::empty());
    }
    ranges
}

/// How many chunks `[start, end]` produces: the ceiling of the span over
/// one chunk's worth of steps, and at least one.
pub open spec fn spec_chunk_estimate(start: int, end: int, chunk_size: int, step: int) -> int {
    let span = end - start;
    let per = chunk_size * step;
    let q = span / per + (if span % per != 0 {
        1int
    } else {
        0int
    });
    if q > 1 {
        q
    } else {
        1
    }
}

/// Estimate how many tasks a range produces.  Fails on a non-positive
/// chunk size or step, on a reversed range, and on an estimate beyond
/// `u64`.
pub fn estimate_bpsw_chunks(start: &BigInt, end: &BigInt, chunk_size: i64, step: i64) -> (r: Result<
    u64,
    String,
>)
    ensures
        chunk_size <= 0 || step <= 0 ==> (r matches Err(m) && m@
            == "chunk_size and step must be positive"@),
        chunk_size > 0 && step > 0 && big_val(*start) > big_val(*end) ==> (r matches Err(m) && m@
            == "start must be <= end"@),
        chunk_size > 0 && step > 0 && big_val(*start) <= big_val(*end) ==> {
            let est = spec_chunk_estimate(
                big_val(*start),
                big_val(*end),
                chunk_size as int,
                step as int,
            );
            if est <= u64::MAX {
                r matches Ok(v) && v == est
            } else {
                r matches Err(m) && m@ == "range too large"@
            }
        },
{
    if chunk_size <= 0 || step <= 0 {
        return Err(String::from_str("chunk_size and step must be positive"));
    }
    if !big_le(start, end) {
        return Err(String::from_str("start must be <= end"));
    }
    let span = big_sub(end, start);
    let step_big = big_from_i64(step);
    let chunk_sized = big_from_i64(chunk_size);
    let chunk_big = big_mul(&chunk_sized, &step_big);
    proof {
        assert(big_val(chunk_big) > 0) by (nonlinear_arith)
            requires
                big_val(chunk_big) == chunk_size as int * step as int,
                chunk_size > 0,
                step > 0,
        ;
    }
    let (q, rem) = big_div_rem(&span, &chunk_big);
    let zero = big_from_i64(0);
    let one = big_from_i64(1);
    let chunks = if big_le(&rem, &zero) {
        q
    } else {
        big_add(&q, &one)
    };
    let final_chunks = if big_le(&chunks, &zero) || big_le(&chunks, &one) {
        one
    } else {
        chunks
    };
    match big_to_u64(&final_chunks) {
        Some(v) => Ok(v),
        None => Err(String::from_str("range too large")),
    }
}


/// The search step each task type advances by: the odd searches step by
/// two, every other search by one.
pub fn default_step_for(task_type: &str) -> (r: i64)
    ensures
        task_type@ == "main_odds"@ || task_type@ == "large_numbers"@ ==> r == 2i64,
        task_type@ != "main_odds"@ && task_type@ != "large_numbers"@ ==> r == 1i64,
{
    if crate::text::str_eq(task_type, "main_odds") || crate::text::str_eq(
        task_type,
        "large_numbers",
    ) {
        2
    } else {
        1
    }
}

/// A task type whose arguments carry explicit range bounds.
pub open spec fn is_ranged_type(t: Seq<char>) -> bool {
    t == "main_odds"@ || t == "large_numbers"@ || t == "chernick"@
}

/// The worker arguments for one chunk: ranged searches get their bounds,
/// generator searches get seed bounds and their preset's digit counts, and
/// the two primality-strict searches get their extra flag.
pub open spec fn spec_bpsw_args(
    task_type: Seq<char>,
    chunk_start: Seq<char>,
    chunk_end: Seq<char>,
    preset: Option<(u64, u64)>,
) -> Seq<Seq<char>> {
    let base = seq!["--task-type"@, task_type];
    if is_ranged_type(task_type) {
        let ranged = base + seq!["--start"@, chunk_start, "--end"@, chunk_end];
        if task_type == "chernick"@ {
            ranged.push("--require-prime-factors"@)
        } else {
            ranged
        }
    } else {
        let p = preset.unwrap();
        let generated = base + seq![
            "--seed-start"@,
            chunk_start,
            "--seed-end"@,
            chunk_end,
            "--target-digits"@,
            crate::text::spec_udec(p.0 as nat),
            "--prime-digits"@,
            crate::text::spec_udec(p.1 as nat),
            "--max-steps"@,
            "5000"@,
        ];
        if task_type == "lambda_plus_one"@ {
            generated.push("--require-prime"@)
        } else {
            generated
        }
    }
}

/// Build the worker arguments for one chunk of a task type.  Generator
/// task types need their preset's target and prime digit counts.
pub fn plan_bpsw_args(
    task_type: &str,
    chunk_start: &str,
    chunk_end: &str,
    preset: Option<(u64, u64)>,
) -> (r: Vec<String>)
    requires
        !is_ranged_type(task_type@) ==> preset is Some,
    ensures
        r.deep_view() == spec_bpsw_args(task_type@, chunk_start@, chunk_end@, preset),
{
    let mut args: Vec<String> = Vec::new();
    args.push(String::from_str("--task-type"));
    args.push(String::from_str(task_type));
    let ranged = crate::text::str_eq(task_type, "main_odds") || crate::text::str_eq(
        task_type,
        "large_numbers",
    ) || crate::text::str_eq(task_type, "chernick");
    if ranged {
        args.push(String::from_str("--start"));
        args.push(String::from_str(chunk_start));
        args.push(String::from_str("--end"));
        args.push(String::from_str(chunk_end));
        if crate::text::str_eq(task_type, "chernick") {
            args.push(String::from_str("--require-prime-factors"));
        }
    } else {
        let (target_digits, prime_digits) = match preset {
            Some(p) => p,
            None => (0, 0),
        };
        args.push(String::from_str("--seed-start"));
        args.push(String::from_str(chunk_start));
        args.push(String::from_str("--seed-end"));
        args.push(String::from_str(chunk_end));
        args.push(String::from_str("--target-digits"));
        args.push(crate::text::u64_to_decimal(target_digits));
        args.push(String::from_str("--prime-digits"));
        args.push(crate::text::u64_to_decimal(prime_digits));
        args.push(String::from_str("--max-steps"));
        args.push(String::from_str("5000"));
        if crate::text::str_eq(task_type, "lambda_plus_one") {
            args.push(String::from_str("--require-prime"));
        }
    }
    proof {
        assert(args.deep_view() =~= spec_bpsw_args(task_type@, chunk_start@, chunk_end@, preset));
    }
    args
}

} // verus!
