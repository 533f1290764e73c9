//! The integer arithmetic of the virtual machine: every operation either
//! gives the exact result or says why there is none.

use vstd::prelude::*;

verus! {

/// Why an operation of the virtual machine has no result.
#[derive(Clone, Copy, Debug, PartialEq, Eq, Structural)]
pub enum VmError {
    /// The result does not fit the type of the operands.
    Overflow,
    /// The result is infinite.
    Infinity,
    /// The divisor is zero.
    DivideByZero,
}

/// The absolute value of `x`.
pub open spec fn abs(x: int) -> int {
    if x < 0 {
        -x
    } else {
        x
    }
}

/// The quotient of `x` by `d` rounded towards zero, for `d` other than zero.
pub open spec fn truncated_div(x: int, d: int) -> int {
    if (x >= 0) == (d > 0) {
        abs(x) / abs(d)
    } else {
        -(abs(x) / abs(d))
    }
}

/// What is left of `x` after the division by `d` rounded towards zero: it
/// has the sign of `x`.
pub open spec fn truncated_rem(x: int, d: int) -> int {
    x - d * truncated_div(x, d)
}

/// The quotient rounded towards zero, spelled out by the signs of `x` and
/// `d`, with the remainder that goes with it; the quotient is no farther
/// from zero than `x`, and as far only where `d` is 1 or -1; the remainder
/// is nearer to zero than `d`.
pub proof fn lemma_truncated_div(x: int, d: int)
    requires
        d != 0,
    ensures
        x == 0 ==> truncated_div(x, d) == 0 && truncated_rem(x, d) == 0,
        x > 0 && d > 0 ==> truncated_div(x, d) == x / d && truncated_rem(x, d) == x % d,
        x < 0 && d < 0 ==> truncated_div(x, d) == (x * -1) / (d * -1) && truncated_rem(x, d) == ((x
            * -1) % (d * -1)) * -1,
        x < 0 && d > 0 ==> truncated_div(x, d) == ((x * -1) / d) * -1 && truncated_rem(x, d) == ((x
            * -1) % d) * -1,
        x > 0 && d < 0 ==> truncated_div(x, d) == (x / (d * -1)) * -1 && truncated_rem(x, d) == x % (
        d * -1),
        -abs(x) <= truncated_div(x, d) <= abs(x),
        abs(truncated_div(x, d)) == abs(x) && x != 0 ==> abs(d) == 1,
        d == -1 ==> truncated_div(x, d) == -x,
        abs(truncated_rem(x, d)) < abs(d),
{
    let ax = abs(x);
    let ad = abs(d);
    assert(ax == (ax / ad) * ad + ax % ad && 0 <= ax % ad < ad && 0 <= ax / ad <= ax)
        by (nonlinear_arith)
        requires
            ax >= 0,
            ad > 0,
    ;
    assert(ax / ad == ax && ax != 0 ==> ad == 1) by (nonlinear_arith)
        requires
            ax >= 0,
            ad > 0,
            ax == (ax / ad) * ad + ax % ad,
            0 <= ax % ad,
    ;
    assert(ad == 1 ==> ax / ad == ax) by (nonlinear_arith)
        requires
            ax >= 0,
            ad > 0,
            ax == (ax / ad) * ad + ax % ad,
            0 <= ax % ad < ad,
    ;
    let q = ax / ad;
    let m = ax % ad;
    if x >= 0 && d > 0 {
        assert(x - d * q == m) by (nonlinear_arith)
            requires
                x == q * d + m,
        ;
    } else if x >= 0 {
        assert(x - d * (-q) == m) by (nonlinear_arith)
            requires
                x == q * (-d) + m,
        ;
    } else if d > 0 {
        assert(x - d * (-q) == -m) by (nonlinear_arith)
            requires
                -x == q * d + m,
        ;
    } else {
        assert(x - d * q == -m) by (nonlinear_arith)
            requires
                -x == q * (-d) + m,
        ;
    }
}

/// Whether `value` is a number of the type `i32`.
pub open spec fn fits_i32(value: int) -> bool {
    i32::MIN <= value <= i32::MAX
}

/// The sum of `a` and `b`, or `Overflow` where it is no `i32`.
pub open spec fn sum_i32(a: i32, b: i32) -> Result<i32, VmError> {
    if fits_i32(a + b) {
        Ok((a + b) as i32)
    } else {
        Err(VmError::Overflow)
    }
}

/// The difference of `a` and `b`, or `Overflow` where it is no `i32`.
pub open spec fn difference_i32(a: i32, b: i32) -> Result<i32, VmError> {
    if fits_i32(a - b) {
        Ok((a - b) as i32)
    } else {
        Err(VmError::Overflow)
    }
}

/// The product of `a` and `b`, or `Overflow` where it is no `i32`.
pub open spec fn product_i32(a: i32, b: i32) -> Result<i32, VmError> {
    if fits_i32(a * b) {
        Ok((a * b) as i32)
    } else {
        Err(VmError::Overflow)
    }
}

/// The quotient of `a` by `b`, rounded towards zero; `DivideByZero` where `b`
/// is zero, and `Overflow` where the quotient is no `i32`.
pub open spec fn quotient_i32(a: i32, b: i32) -> Result<i32, VmError> {
    if b == 0 {
        Err(VmError::DivideByZero)
    } else if fits_i32(truncated_div(a as int, b as int)) {
        Ok(truncated_div(a as int, b as int) as i32)
    } else {
        Err(VmError::Overflow)
    }
}

/// What is left of `a` after the division by `b` rounded towards zero;
/// `DivideByZero` where `b` is zero, and `Overflow` where the quotient is no
/// `i32`.
pub open spec fn remainder_i32(a: i32, b: i32) -> Result<i32, VmError> {
    if b == 0 {
        Err(VmError::DivideByZero)
    } else if fits_i32(truncated_div(a as int, b as int)) {
        Ok(truncated_rem(a as int, b as int) as i32)
    } else {
        Err(VmError::Overflow)
    }
}

/// Computes `sum_i32`.
pub fn add_i32(a: i32, b: i32) -> (r: Result<i32, VmError>)
    ensures
        r == sum_i32(a, b),
{
    match a.checked_add(b) {
        Some(result) => Ok(result),
        None => Err(VmError::Overflow),
    }
}

/// Computes `difference_i32`.
pub fn sub_i32(a: i32, b: i32) -> (r: Result<i32, VmError>)
    ensures
        r == difference_i32(a, b),
{
    match a.checked_sub(b) {
        Some(result) => Ok(result),
        None => Err(VmError::Overflow),
    }
}

/// Computes `product_i32`.
pub fn mul_i32(a: i32, b: i32) -> (r: Result<i32, VmError>)
    ensures
        r == product_i32(a, b),
{
    match a.checked_mul(b) {
        Some(result) => Ok(result),
        None => Err(VmError::Overflow),
    }
}

/// Computes `quotient_i32`.
pub fn div_i32(a: i32, b: i32) -> (r: Result<i32, VmError>)
    ensures
        r == quotient_i32(a, b),
{
    if b == 0 {
        return Err(VmError::DivideByZero);
    }
    proof {
        lemma_truncated_div(a as int, b as int);
    }
    match a.checked_div(b) {
        Some(result) => Ok(result),
        None => Err(VmError::Overflow),
    }
}

/// Computes `remainder_i32`.
pub fn rem_i32(a: i32, b: i32) -> (r: Result<i32, VmError>)
    ensures
        r == remainder_i32(a, b),
{
    if b == 0 {
        return Err(VmError::DivideByZero);
    }
    proof {
        lemma_truncated_div(a as int, b as int);
    }
    match a.checked_rem(b) {
        Some(result) => Ok(result),
        None => Err(VmError::Overflow),
    }
}

/// `sum_i32` lane by lane: the results of all lanes, or the error of the
/// first lane that has none.
pub fn add_i32_lanes<const N: usize>(a: &[i32; N], b: &[i32; N]) -> (r: Result<[i32; N], VmError>)
    ensures
        r is Ok <==> forall|i: int| 0 <= i < N ==> (#[trigger] sum_i32(a@[i], b@[i])) is Ok,
        r matches Ok(lanes) ==> forall|i: int|
            0 <= i < N ==> Ok::<i32, VmError>(#[trigger] lanes@[i]) == sum_i32(a@[i], b@[i]),
        r matches Err(e) ==> exists|first: int|
            0 <= first < N && (#[trigger] sum_i32(a@[first], b@[first])) == Err::<i32, VmError>(e)
                && forall|i: int| 0 <= i < first ==> (#[trigger] sum_i32(a@[i], b@[i])) is Ok,
{
    let mut lanes = [0i32; N];
    let mut i: usize = 0;
    while i < N
        invariant
            i <= N,
            forall|j: int| 0 <= j < i ==> (#[trigger] sum_i32(a@[j], b@[j])) is Ok,
            forall|j: int|
                0 <= j < i ==> Ok::<i32, VmError>(#[trigger] lanes@[j]) == sum_i32(a@[j], b@[j]),
        decreases N - i,
    {
        match add_i32(a[i], b[i]) {
            Ok(lane) => {
                lanes[i] = lane;
            },
            Err(e) => {
                assert(sum_i32(a@[i as int], b@[i as int]) == Err::<i32, VmError>(e));
                return Err(e);
            },
        }
        i = i + 1;
    }
    Ok(lanes)
}

/// `difference_i32` lane by lane: the results of all lanes, or the error of the
/// first lane that has none.
pub fn sub_i32_lanes<const N: usize>(a: &[i32; N], b: &[i32; N]) -> (r: Result<[i32; N], VmError>)
    ensures
        r is Ok <==> forall|i: int| 0 <= i < N ==> (#[trigger] difference_i32(a@[i], b@[i])) is Ok,
        r matches Ok(lanes) ==> forall|i: int|
            0 <= i < N ==> Ok::<i32, VmError>(#[trigger] lanes@[i]) == difference_i32(a@[i], b@[i]),
        r matches Err(e) ==> exists|first: int|
            0 <= first < N && (#[trigger] difference_i32(a@[first], b@[first])) == Err::<i32, VmError>(e)
                && forall|i: int| 0 <= i < first ==> (#[trigger] difference_i32(a@[i], b@[i])) is Ok,
{
    let mut lanes = [0i32; N];
    let mut i: usize = 0;
    while i < N
        invariant
            i <= N,
            forall|j: int| 0 <= j < i ==> (#[trigger] difference_i32(a@[j], b@[j])) is Ok,
            forall|j: int|
                0 <= j < i ==> Ok::<i32, VmError>(#[trigger] lanes@[j]) == difference_i32(a@[j], b@[j]),
        decreases N - i,
    {
        match sub_i32(a[i], b[i]) {
            Ok(lane) => {
                lanes[i] = lane;
            },
            Err(e) => {
                assert(difference_i32(a@[i as int], b@[i as int]) == Err::<i32, VmError>(e));
                return Err(e);
            },
        }
        i = i + 1;
    }
    Ok(lanes)
}

/// `product_i32` lane by lane: the results of all lanes, or the error of the
/// first lane that has none.
pub fn mul_i32_lanes<const N: usize>(a: &[i32; N], b: &[i32; N]) -> (r: Result<[i32; N], VmError>)
    ensures
        r is Ok <==> forall|i: int| 0 <= i < N ==> (#[trigger] product_i32(a@[i], b@[i])) is Ok,
        r matches Ok(lanes) ==> forall|i: int|
            0 <= i < N ==> Ok::<i32, VmError>(#[trigger] lanes@[i]) == product_i32(a@[i], b@[i]),
        r matches Err(e) ==> exists|first: int|
            0 <= first < N && (#[trigger] product_i32(a@[first], b@[first])) == Err::<i32, VmError>(e)
                && forall|i: int| 0 <= i < first ==> (#[trigger] product_i32(a@[i], b@[i])) is Ok,
{
    let mut lanes = [0i32; N];
    let mut i: usize = 0;
    while i < N
        invariant
            i <= N,
            forall|j: int| 0 <= j < i ==> (#[trigger] product_i32(a@[j], b@[j])) is Ok,
            forall|j: int|
                0 <= j < i ==> Ok::<i32, VmError>(#[trigger] lanes@[j]) == product_i32(a@[j], b@[j]),
        decreases N - i,
    {
        match mul_i32(a[i], b[i]) {
            Ok(lane) => {
                lanes[i] = lane;
            },
            Err(e) => {
                assert(product_i32(a@[i as int], b@[i as int]) == Err::<i32, VmError>(e));
                return Err(e);
            },
        }
        i = i + 1;
    }
    Ok(lanes)
}

/// `quotient_i32` lane by lane: the results of all lanes, or the error of the
/// first lane that has none.
pub fn div_i32_lanes<const N: usize>(a: &[i32; N], b: &[i32; N]) -> (r: Result<[i32; N], VmError>)
    ensures
        r is Ok <==> forall|i: int| 0 <= i < N ==> (#[trigger] quotient_i32(a@[i], b@[i])) is Ok,
        r matches Ok(lanes) ==> forall|i: int|
            0 <= i < N ==> Ok::<i32, VmError>(#[trigger] lanes@[i]) == quotient_i32(a@[i], b@[i]),
        r matches Err(e) ==> exists|first: int|
            0 <= first < N && (#[trigger] quotient_i32(a@[first], b@[first])) == Err::<i32, VmError>(e)
                && forall|i: int| 0 <= i < first ==> (#[trigger] quotient_i32(a@[i], b@[i])) is Ok,
{
    let mut lanes = [0i32; N];
    let mut i: usize = 0;
    while i < N
        invariant
            i <= N,
            forall|j: int| 0 <= j < i ==> (#[trigger] quotient_i32(a@[j], b@[j])) is Ok,
            forall|j: int|
                0 <= j < i ==> Ok::<i32, VmError>(#[trigger] lanes@[j]) == quotient_i32(a@[j], b@[j]),
        decreases N - i,
    {
        match div_i32(a[i], b[i]) {
            Ok(lane) => {
                lanes[i] = lane;
            },
            Err(e) => {
                assert(quotient_i32(a@[i as int], b@[i as int]) == Err::<i32, VmError>(e));
                return Err(e);
            },
        }
        i = i + 1;
    }
    Ok(lanes)
}

/// `remainder_i32` lane by lane: the results of all lanes, or the error of the
/// first lane that has none.
pub fn rem_i32_lanes<const N: usize>(a: &[i32; N], b: &[i32; N]) -> (r: Result<[i32; N], VmError>)
    ensures
        r is Ok <==> forall|i: int| 0 <= i < N ==> (#[trigger] remainder_i32(a@[i], b@[i])) is Ok,
        r matches Ok(lanes) ==> forall|i: int|
            0 <= i < N ==> Ok::<i32, VmError>(#[trigger] lanes@[i]) == remainder_i32(a@[i], b@[i]),
        r matches Err(e) ==> exists|first: int|
            0 <= first < N && (#[trigger] remainder_i32(a@[first], b@[first])) == Err::<i32, VmError>(e)
                && forall|i: int| 0 <= i < first ==> (#[trigger] remainder_i32(a@[i], b@[i])) is Ok,
{
    let mut lanes = [0i32; N];
    let mut i: usize = 0;
    while i < N
        invariant
            i <= N,
            forall|j: int| 0 <= j < i ==> (#[trigger] remainder_i32(a@[j], b@[j])) is Ok,
            forall|j: int|
                0 <= j < i ==> Ok::<i32, VmError>(#[trigger] lanes@[j]) == remainder_i32(a@[j], b@[j]),
        decreases N - i,
    {
        match rem_i32(a[i], b[i]) {
            Ok(lane) => {
                lanes[i] = lane;
            },
            Err(e) => {
                assert(remainder_i32(a@[i as int], b@[i as int]) == Err::<i32, VmError>(e));
                return Err(e);
            },
        }
        i = i + 1;
    }
    Ok(lanes)
}

/// Whether no lane is negative.
pub fn all_non_negative_i32(lanes: &[i32]) -> (positive: bool)
    ensures
        positive == forall|i: int| 0 <= i < lanes@.len() ==> lanes@[i] >= 0,
{
    let mut i: usize = 0;
    while i < lanes.len()
        invariant
            i <= lanes@.len(),
            forall|j: int| 0 <= j < i ==> lanes@[j] >= 0,
        decreases lanes@.len() - i,
    {
        if lanes[i] < 0 {
            return false;
        }
        i = i + 1;
    }
    true
}

/// Whether `value` is a number of the type `i64`.
pub open spec fn fits_i64(value: int) -> bool {
    i64::MIN <= value <= i64::MAX
}

/// The sum of `a` and `b`, or `Overflow` where it is no `i64`.
pub open spec fn sum_i64(a: i64, b: i64) -> Result<i64, VmError> {
    if fits_i64(a + b) {
        Ok((a + b) as i64)
    } else {
        Err(VmError::Overflow)
    }
}

/// The difference of `a` and `b`, or `Overflow` where it is no `i64`.
pub open spec fn difference_i64(a: i64, b: i64) -> Result<i64, VmError> {
    if fits_i64(a - b) {
        Ok((a - b) as i64)
    } else {
        Err(VmError::Overflow)
    }
}

/// The product of `a` and `b`, or `Overflow` where it is no `i64`.
pub open spec fn product_i64(a: i64, b: i64) -> Result<i64, VmError> {
    if fits_i64(a * b) {
        Ok((a * b) as i64)
    } else {
        Err(VmError::Overflow)
    }
}

/// The quotient of `a` by `b`, rounded towards zero; `DivideByZero` where `b`
/// is zero, and `Overflow` where the quotient is no `i64`.
pub open spec fn quotient_i64(a: i64, b: i64) -> Result<i64, VmError> {
    if b == 0 {
        Err(VmError::DivideByZero)
    } else if fits_i64(truncated_div(a as int, b as int)) {
        Ok(truncated_div(a as int, b as int) as i64)
    } else {
        Err(VmError::Overflow)
    }
}

/// What is left of `a` after the division by `b` rounded towards zero;
/// `DivideByZero` where `b` is zero, and `Overflow` where the quotient is no
/// `i64`.
pub open spec fn remainder_i64(a: i64, b: i64) -> Result<i64, VmError> {
    if b == 0 {
        Err(VmError::DivideByZero)
    } else if fits_i64(truncated_div(a as int, b as int)) {
        Ok(truncated_rem(a as int, b as int) as i64)
    } else {
        Err(VmError::Overflow)
    }
}

/// Computes `sum_i64`.
pub fn add_i64(a: i64, b: i64) -> (r: Result<i64, VmError>)
    ensures
        r == sum_i64(a, b),
{
    match a.checked_add(b) {
        Some(result) => Ok(result),
        None => Err(VmError::Overflow),
    }
}

/// Computes `difference_i64`.
pub fn sub_i64(a: i64, b: i64) -> (r: Result<i64, VmError>)
    ensures
        r == difference_i64(a, b),
{
    match a.checked_sub(b) {
        Some(result) => Ok(result),
        None => Err(VmError::Overflow),
    }
}

/// Computes `product_i64`.
pub fn mul_i64(a: i64, b: i64) -> (r: Result<i64, VmError>)
    ensures
        r == product_i64(a, b),
{
    match a.checked_mul(b) {
        Some(result) => Ok(result),
        None => Err(VmError::Overflow),
    }
}

/// Computes `quotient_i64`.
pub fn div_i64(a: i64, b: i64) -> (r: Result<i64, VmError>)
    ensures
        r == quotient_i64(a, b),
{
    if b == 0 {
        return Err(VmError::DivideByZero);
    }
    proof {
        lemma_truncated_div(a as int, b as int);
    }
    match a.checked_div(b) {
        Some(result) => Ok(result),
        None => Err(VmError::Overflow),
    }
}

/// Computes `remainder_i64`.
pub fn rem_i64(a: i64, b: i64) -> (r: Result<i64, VmError>)
    ensures
        r == remainder_i64(a, b),
{
    if b == 0 {
        return Err(VmError::DivideByZero);
    }
    proof {
        lemma_truncated_div(a as int, b as int);
    }
    match a.checked_rem(b) {
        Some(result) => Ok(result),
        None => Err(VmError::Overflow),
    }
}

/// `sum_i64` lane by lane: the results of all lanes, or the error of the
/// first lane that has none.
pub fn add_i64_lanes<const N: usize>(a: &[i64; N], b: &[i64; N]) -> (r: Result<[i64; N], VmError>)
    ensures
        r is Ok <==> forall|i: int| 0 <= i < N ==> (#[trigger] sum_i64(a@[i], b@[i])) is Ok,
        r matches Ok(lanes) ==> forall|i: int|
            0 <= i < N ==> Ok::<i64, VmError>(#[trigger] lanes@[i]) == sum_i64(a@[i], b@[i]),
        r matches Err(e) ==> exists|first: int|
            0 <= first < N && (#[trigger] sum_i64(a@[first], b@[first])) == Err::<i64, VmError>(e)
                && forall|i: int| 0 <= i < first ==> (#[trigger] sum_i64(a@[i], b@[i])) is Ok,
{
    let mut lanes = [0i64; N];
    let mut i: usize = 0;
    while i < N
        invariant
            i <= N,
            forall|j: int| 0 <= j < i ==> (#[trigger] sum_i64(a@[j], b@[j])) is Ok,
            forall|j: int|
                0 <= j < i ==> Ok::<i64, VmError>(#[trigger] lanes@[j]) == sum_i64(a@[j], b@[j]),
        decreases N - i,
    {
        match add_i64(a[i], b[i]) {
            Ok(lane) => {
                lanes[i] = lane;
            },
            Err(e) => {
                assert(sum_i64(a@[i as int], b@[i as int]) == Err::<i64, VmError>(e));
                return Err(e);
            },
        }
        i = i + 1;
    }
    Ok(lanes)
}

/// `difference_i64` lane by lane: the results of all lanes, or the error of the
/// first lane that has none.
pub fn sub_i64_lanes<const N: usize>(a: &[i64; N], b: &[i64; N]) -> (r: Result<[i64; N], VmError>)
    ensures
        r is Ok <==> forall|i: int| 0 <= i < N ==> (#[trigger] difference_i64(a@[i], b@[i])) is Ok,
        r matches Ok(lanes) ==> forall|i: int|
            0 <= i < N ==> Ok::<i64, VmError>(#[trigger] lanes@[i]) == difference_i64(a@[i], b@[i]),
        r matches Err(e) ==> exists|first: int|
            0 <= first < N && (#[trigger] difference_i64(a@[first], b@[first])) == Err::<i64, VmError>(e)
                && forall|i: int| 0 <= i < first ==> (#[trigger] difference_i64(a@[i], b@[i])) is Ok,
{
    let mut lanes = [0i64; N];
    let mut i: usize = 0;
    while i < N
        invariant
            i <= N,
            forall|j: int| 0 <= j < i ==> (#[trigger] difference_i64(a@[j], b@[j])) is Ok,
            forall|j: int|
                0 <= j < i ==> Ok::<i64, VmError>(#[trigger] lanes@[j]) == difference_i64(a@[j], b@[j]),
        decreases N - i,
    {
        match sub_i64(a[i], b[i]) {
            Ok(lane) => {
                lanes[i] = lane;
            },
            Err(e) => {
                assert(difference_i64(a@[i as int], b@[i as int]) == Err::<i64, VmError>(e));
                return Err(e);
            },
        }
        i = i + 1;
    }
    Ok(lanes)
}

/// `product_i64` lane by lane: the results of all lanes, or the error of the
/// first lane that has none.
pub fn mul_i64_lanes<const N: usize>(a: &[i64; N], b: &[i64; N]) -> (r: Result<[i64; N], VmError>)
    ensures
        r is Ok <==> forall|i: int| 0 <= i < N ==> (#[trigger] product_i64(a@[i], b@[i])) is Ok,
        r matches Ok(lanes) ==> forall|i: int|
            0 <= i < N ==> Ok::<i64, VmError>(#[trigger] lanes@[i]) == product_i64(a@[i], b@[i]),
        r matches Err(e) ==> exists|first: int|
            0 <= first < N && (#[trigger] product_i64(a@[first], b@[first])) == Err::<i64, VmError>(e)
                && forall|i: int| 0 <= i < first ==> (#[trigger] product_i64(a@[i], b@[i])) is Ok,
{
    let mut lanes = [0i64; N];
    let mut i: usize = 0;
    while i < N
        invariant
            i <= N,
            forall|j: int| 0 <= j < i ==> (#[trigger] product_i64(a@[j], b@[j])) is Ok,
            forall|j: int|
                0 <= j < i ==> Ok::<i64, VmError>(#[trigger] lanes@[j]) == product_i64(a@[j], b@[j]),
        decreases N - i,
    {
        match mul_i64(a[i], b[i]) {
            Ok(lane) => {
                lanes[i] = lane;
            },
            Err(e) => {
                assert(product_i64(a@[i as int], b@[i as int]) == Err::<i64, VmError>(e));
                return Err(e);
            },
        }
        i = i + 1;
    }
    Ok(lanes)
}

/// `quotient_i64` lane by lane: the results of all lanes, or the error of the
/// first lane that has none.
pub fn div_i64_lanes<const N: usize>(a: &[i64; N], b: &[i64; N]) -> (r: Result<[i64; N], VmError>)
    ensures
        r is Ok <==> forall|i: int| 0 <= i < N ==> (#[trigger] quotient_i64(a@[i], b@[i])) is Ok,
        r matches Ok(lanes) ==> forall|i: int|
            0 <= i < N ==> Ok::<i64, VmError>(#[trigger] lanes@[i]) == quotient_i64(a@[i], b@[i]),
        r matches Err(e) ==> exists|first: int|
            0 <= first < N && (#[trigger] quotient_i64(a@[first], b@[first])) == Err::<i64, VmError>(e)
                && forall|i: int| 0 <= i < first ==> (#[trigger] quotient_i64(a@[i], b@[i])) is Ok,
{
    let mut lanes = [0i64; N];
    let mut i: usize = 0;
    while i < N
        invariant
            i <= N,
            forall|j: int| 0 <= j < i ==> (#[trigger] quotient_i64(a@[j], b@[j])) is Ok,
            forall|j: int|
                0 <= j < i ==> Ok::<i64, VmError>(#[trigger] lanes@[j]) == quotient_i64(a@[j], b@[j]),
        decreases N - i,
    {
        match div_i64(a[i], b[i]) {
            Ok(lane) => {
                lanes[i] = lane;
            },
            Err(e) => {
                assert(quotient_i64(a@[i as int], b@[i as int]) == Err::<i64, VmError>(e));
                return Err(e);
            },
        }
        i = i + 1;
    }
    Ok(lanes)
}

/// `remainder_i64` lane by lane: the results of all lanes, or the error of the
/// first lane that has none.
pub fn rem_i64_lanes<const N: usize>(a: &[i64; N], b: &[i64; N]) -> (r: Result<[i64; N], VmError>)
    ensures
        r is Ok <==> forall|i: int| 0 <= i < N ==> (#[trigger] remainder_i64(a@[i], b@[i])) is Ok,
        r matches Ok(lanes) ==> forall|i: int|
            0 <= i < N ==> Ok::<i64, VmError>(#[trigger] lanes@[i]) == remainder_i64(a@[i], b@[i]),
        r matches Err(e) ==> exists|first: int|
            0 <= first < N && (#[trigger] remainder_i64(a@[first], b@[first])) == Err::<i64, VmError>(e)
                && forall|i: int| 0 <= i < first ==> (#[trigger] remainder_i64(a@[i], b@[i])) is Ok,
{
    let mut lanes = [0i64; N];
    let mut i: usize = 0;
    while i < N
        invariant
            i <= N,
            forall|j: int| 0 <= j < i ==> (#[trigger] remainder_i64(a@[j], b@[j])) is Ok,
            forall|j: int|
                0 <= j < i ==> Ok::<i64, VmError>(#[trigger] lanes@[j]) == remainder_i64(a@[j], b@[j]),
        decreases N - i,
    {
        match rem_i64(a[i], b[i]) {
            Ok(lane) => {
                lanes[i] = lane;
            },
            Err(e) => {
                assert(remainder_i64(a@[i as int], b@[i as int]) == Err::<i64, VmError>(e));
                return Err(e);
            },
        }
        i = i + 1;
    }
    Ok(lanes)
}

/// Whether no lane is negative.
pub fn all_non_negative_i64(lanes: &[i64]) -> (positive: bool)
    ensures
        positive == forall|i: int| 0 <= i < lanes@.len() ==> lanes@[i] >= 0,
{
    let mut i: usize = 0;
    while i < lanes.len()
        invariant
            i <= lanes@.len(),
            forall|j: int| 0 <= j < i ==> lanes@[j] >= 0,
        decreases lanes@.len() - i,
    {
        if lanes[i] < 0 {
            return false;
        }
        i = i + 1;
    }
    true
}

/// Division rounded towards zero overflows in one case only: the least
/// number of a type divided by -1.
pub proof fn lemma_division_overflow(a: i64, b: i64)
    requires
        b != 0,
    ensures
        fits_i64(truncated_div(a as int, b as int)) <==> !(a == i64::MIN && b == -1),
        fits_i32(a as int) && fits_i32(b as int) ==> (fits_i32(truncated_div(a as int, b as int)) <==> !(
        a == i32::MIN && b == -1)),
{
    lemma_truncated_div(a as int, b as int);
}

} // verus!
