//! General helpers on series: length validation, range normalization, and
//! crossover detection between two lines.

use vstd::prelude::*;
use crate::math::{
    div_trunc, div_trunc_i128, lemma_div_trunc_magnitude, lemma_range_minmax, range_max,
    range_min, VAL_MAX,
};
use crate::types::IndicatorError;

verus! {

/// The fixed-point value standing for 1.0 in a normalized series.
pub const NORMALIZED_ONE: i64 = 10_000;

/// Checks that a series is at least `min_length` long and reports
/// `InsufficientData` otherwise.
pub fn validate_data_length(data: &Vec<i64>, min_length: usize) -> (r: Result<
    (),
    IndicatorError,
>)
    ensures
        r is Ok <==> data@.len() >= min_length,
        r is Err ==> r == Err::<(), IndicatorError>(IndicatorError::InsufficientData),
{
    if data.len() < min_length {
        Err(IndicatorError::InsufficientData)
    } else {
        Ok(())
    }
}

/// Scales a fraction of the price scale to whole percent.
pub fn to_percentage(value: i64) -> (r: i64)
    requires
        -92_233_720_368_547_758 <= value <= 92_233_720_368_547_758,
    ensures
        r == value * 100,
{
    value * 100
}

/// Positions each value within the series range: the minimum maps to 0 and
/// the maximum to [`NORMALIZED_ONE`]. A flat series maps to all zeros and an
/// empty one to an empty result.
pub fn normalize_data(data: &Vec<i64>) -> (r: Vec<i64>)
    requires
        forall|i: int| 0 <= i < data@.len() ==> -VAL_MAX <= #[trigger] data@[i] <= VAL_MAX,
    ensures
        r@.len() == data@.len(),
        data@.len() > 0 && range_min(data@, 0, data@.len() as int) == range_max(
            data@,
            0,
            data@.len() as int,
        ) ==> forall|i: int| 0 <= i < r@.len() ==> #[trigger] r@[i] == 0,
        data@.len() > 0 && range_min(data@, 0, data@.len() as int) != range_max(
            data@,
            0,
            data@.len() as int,
        ) ==> forall|i: int|
            0 <= i < r@.len() ==> #[trigger] r@[i] as int == div_trunc(
                (data@[i] - range_min(data@, 0, data@.len() as int)) * NORMALIZED_ONE,
                range_max(data@, 0, data@.len() as int) - range_min(data@, 0, data@.len() as int),
            ),
{
    let n: usize = data.len();
    let mut out: Vec<i64> = Vec::new();
    if n == 0 {
        return out;
    }
    let mut mn: i64 = data[0];
    let mut mx: i64 = data[0];
    let mut k: usize = 1;
    while k < n
        invariant
            1 <= k <= n,
            n == data@.len(),
            mn as int == range_min(data@, 0, k as int),
            mx as int == range_max(data@, 0, k as int),
        decreases n - k,
    {
        if data[k] < mn {
            mn = data[k];
        }
        if data[k] > mx {
            mx = data[k];
        }
        k = k + 1;
    }
    let mut i: usize = 0;
    if mx == mn {
        while i < n
            invariant
                0 <= i <= n,
                n == data@.len(),
                out@.len() == i,
                forall|t: int| 0 <= t < i ==> #[trigger] out@[t] == 0,
            decreases n - i,
        {
            out.push(0);
            i = i + 1;
        }
        return out;
    }
    proof {
        lemma_range_minmax(data@, 0, n as int);
    }
    while i < n
        invariant
            0 <= i <= n,
            n == data@.len(),
            forall|t: int| 0 <= t < data@.len() ==> -VAL_MAX <= #[trigger] data@[t] <= VAL_MAX,
            mn as int == range_min(data@, 0, n as int),
            mx as int == range_max(data@, 0, n as int),
            mn < mx,
            -VAL_MAX <= mn <= mx <= VAL_MAX,
            forall|t: int| 0 <= t < data@.len() ==> mn <= #[trigger] data@[t] <= mx,
            out@.len() == i,
            forall|t: int| 0 <= t < i ==> #[trigger] out@[t] as int == div_trunc(
                (data@[t] - mn as int) * (NORMALIZED_ONE as int),
                mx as int - mn as int,
            ),
        decreases n - i,
    {
        proof {
            let dif = data@[i as int] - mn as int;
            vstd::arithmetic::mul::lemma_mul_inequality(dif, 8_000_000_000, NORMALIZED_ONE as int);
            assert(0 <= dif * (NORMALIZED_ONE as int)) by (nonlinear_arith)
                requires 0 <= dif;
        }
        let num: i128 = ((data[i] - mn) as i128) * (NORMALIZED_ONE as i128);
        proof {
            lemma_div_trunc_magnitude(num as int, (mx - mn) as int);
        }
        let q: i128 = div_trunc_i128(num, (mx - mn) as i128);
        out.push(q as i64);
        i = i + 1;
    }
    out
}

/// Whether the two lines touch or cross between step `i - 1` and step `i`:
/// the signed gap changes sign (or reaches zero) while actually changing.
pub open spec fn crossover_at(a: Seq<i64>, b: Seq<i64>, i: int) -> bool {
    let pd = a[i - 1] - b[i - 1];
    let cd = a[i] - b[i];
    ((pd <= 0 && cd >= 0) || (pd >= 0 && cd <= 0)) && pd != cd
}

/// Marks, for each step after the first, whether the two lines crossed
/// there. Lines of different or too-short lengths give an empty result.
pub fn detect_crossover(line1: &Vec<i64>, line2: &Vec<i64>) -> (r: Vec<bool>)
    requires
        forall|i: int| 0 <= i < line1@.len() ==> -VAL_MAX <= #[trigger] line1@[i] <= VAL_MAX,
        forall|i: int| 0 <= i < line2@.len() ==> -VAL_MAX <= #[trigger] line2@[i] <= VAL_MAX,
    ensures
        line1@.len() != line2@.len() || line1@.len() < 2 ==> r@.len() == 0,
        line1@.len() == line2@.len() && line1@.len() >= 2 ==> {
            &&& r@.len() == line1@.len()
            &&& r@[0] == false
            &&& forall|i: int|
                1 <= i < r@.len() ==> #[trigger] r@[i] == crossover_at(line1@, line2@, i)
        },
{
    let mut out: Vec<bool> = Vec::new();
    let n: usize = line1.len();
    if n != line2.len() || n < 2 {
        return out;
    }
    out.push(false);
    let mut i: usize = 1;
    while i < n
        invariant
            1 <= i <= n,
            n == line1@.len(),
            n == line2@.len(),
            forall|t: int| 0 <= t < line1@.len() ==> -VAL_MAX <= #[trigger] line1@[t] <= VAL_MAX,
            forall|t: int| 0 <= t < line2@.len() ==> -VAL_MAX <= #[trigger] line2@[t] <= VAL_MAX,
            out@.len() == i,
            out@[0] == false,
            forall|t: int| 1 <= t < i ==> #[trigger] out@[t] == crossover_at(line1@, line2@, t),
        decreases n - i,
    {
        let pd: i64 = line1[i - 1] - line2[i - 1];
        let cd: i64 = line1[i] - line2[i];
        let crossed: bool = ((pd <= 0 && cd >= 0) || (pd >= 0 && cd <= 0)) && pd != cd;
        out.push(crossed);
        i = i + 1;
    }
    out
}

} // verus!
