//! The model registry and prediction-stage shape checks.
//!
//! Each regression model is a tagged variant carrying its own immutable
//! fitted parameters as scalar bit patterns. The registry keeps the
//! variants in registration order, which later fixes the commitment order.
//! Prediction itself is `intercept + sum of coefficient * feature` over a
//! row (after polynomial expansion for the polynomial variant); that
//! floating-point evaluation happens outside the verified core, while the
//! core checks that each variant's coefficient count matches the (possibly
//! polynomially expanded) feature count and fixes the expansion's monomial
//! order.

use vstd::prelude::*;
use crate::error::ShapeError;

verus! {

/// The sum of a sequence of exponents.
pub open spec fn seq_sum(s: Seq<usize>) -> int
    decreases s.len(),
{
    if s.len() == 0 {
        0
    } else {
        s[0] + seq_sum(s.subrange(1, s.len() as int))
    }
}

proof fn lemma_sum_nonneg(s: Seq<usize>)
    ensures
        seq_sum(s) >= 0,
    decreases s.len(),
{
    if s.len() > 0 {
        lemma_sum_nonneg(s.subrange(1, s.len() as int));
    }
}

proof fn lemma_sum_all_zero(s: Seq<usize>)
    requires
        forall|i: int| 0 <= i < s.len() ==> s[i] == 0,
    ensures
        seq_sum(s) == 0,
    decreases s.len(),
{
    if s.len() > 0 {
        lemma_sum_all_zero(s.subrange(1, s.len() as int));
    }
}

proof fn lemma_sum_cons(x: usize, s: Seq<usize>)
    ensures
        seq_sum(seq![x] + s) == x + seq_sum(s),
{
    let t = seq![x] + s;
    assert(t[0] == x);
    assert(t.subrange(1, t.len() as int) =~= s);
}

proof fn lemma_sum_bump_first(s: Seq<usize>, x: usize)
    requires
        s.len() >= 1,
    ensures
        seq_sum(s.update(0, x)) == seq_sum(s) - s[0] + x,
{
    let t = s.update(0, x);
    assert(t.subrange(1, t.len() as int) =~= s.subrange(1, s.len() as int));
}

/// The number of monomials of total degree exactly `total` over `vars`
/// variables: compositions of `total` into `vars` ordered parts, counted
/// by splitting on whether the first variable's exponent is zero.
pub open spec fn comp_count(vars: nat, total: nat) -> nat
    decreases vars, total,
{
    if vars <= 1 {
        1
    } else if total == 0 {
        1
    } else {
        comp_count((vars - 1) as nat, total) + comp_count(vars, (total - 1) as nat)
    }
}

/// The number of monomials of total degree at most `degree` over `vars`
/// variables: the size of the polynomially expanded feature set.
pub open spec fn poly_feature_count(vars: nat, degree: nat) -> nat
    decreases degree,
{
    if degree == 0 {
        1
    } else {
        poly_feature_count(vars, (degree - 1) as nat) + comp_count(vars, degree)
    }
}

fn comp_count_exec(vars: usize, total: usize) -> (r: Option<u64>)
    requires
        vars >= 1,
    ensures
        match r {
            Some(n) => n == comp_count(vars as nat, total as nat),
            None => comp_count(vars as nat, total as nat) > u64::MAX,
        },
    decreases vars, total,
{
    if vars == 1 || total == 0 {
        Some(1)
    } else {
        match (comp_count_exec(vars - 1, total), comp_count_exec(vars, total - 1)) {
            (Some(x), Some(y)) => x.checked_add(y),
            _ => None,
        }
    }
}

/// The size of the polynomially expanded feature set for a matrix of
/// `cols` columns and the given degree, or `None` when that size exceeds
/// `u64::MAX` (so no coefficient vector can match it).
pub fn expanded_feature_count(cols: usize, degree: usize) -> (r: Option<u64>)
    requires
        cols >= 1,
    ensures
        match r {
            Some(n) => n == poly_feature_count(cols as nat, degree as nat),
            None => poly_feature_count(cols as nat, degree as nat) > u64::MAX,
        },
    decreases degree,
{
    if degree == 0 {
        Some(1)
    } else {
        match (expanded_feature_count(cols, degree - 1), comp_count_exec(cols, degree)) {
            (Some(x), Some(y)) => x.checked_add(y),
            _ => None,
        }
    }
}

/// All exponent vectors of length `vars` summing to exactly `total`, in
/// graded order: the first variable's exponent descends first.
fn monomials_of_degree(vars: usize, total: usize) -> (r: Vec<Vec<usize>>)
    requires
        vars >= 1,
    ensures
        r@.len() == comp_count(vars as nat, total as nat),
        forall|i: int| 0 <= i < r@.len() ==> (#[trigger] r@[i]@).len() == vars,
        forall|i: int| 0 <= i < r@.len() ==> seq_sum(#[trigger] r@[i]@) == total,
        forall|i: int, j: int|
            0 <= i <= j < r@.len() ==> (#[trigger] r@[i]@)[0] >= (#[trigger] r@[j]@)[0],
    decreases vars, total,
{
    let mut out: Vec<Vec<usize>> = Vec::new();
    if vars == 1 {
        let mut v: Vec<usize> = Vec::new();
        v.push(total);
        proof {
            assert(v@ =~= seq![total]);
            assert(v@.subrange(1, 1) =~= Seq::<usize>::empty());
            assert(seq_sum(Seq::<usize>::empty()) == 0);
            assert(seq_sum(v@) == total);
        }
        out.push(v);
        return out;
    }
    if total == 0 {
        let mut v: Vec<usize> = Vec::new();
        let mut k: usize = 0;
        while k < vars
            invariant
                v@.len() == k,
                k <= vars,
                forall|t: int| 0 <= t < k ==> v@[t] == 0,
            decreases vars - k,
        {
            v.push(0);
            k = k + 1;
        }
        proof {
            lemma_sum_all_zero(v@);
        }
        out.push(v);
        return out;
    }
    // First the monomials whose first exponent is at least one, obtained by
    // raising the first exponent of each monomial of the next-lower degree.
    let head = monomials_of_degree(vars, total - 1);
    let mut i: usize = 0;
    while i < head.len()
        invariant
            vars >= 2,
            total >= 1,
            forall|k: int| 0 <= k < head@.len() ==> (#[trigger] head@[k]@).len() == vars,
            forall|k: int| 0 <= k < head@.len() ==> seq_sum(#[trigger] head@[k]@) == total - 1,
            forall|a: int, b: int|
                0 <= a <= b < head@.len() ==> (#[trigger] head@[a]@)[0] >= (#[trigger] head@[b]@)[0],
            i <= head@.len(),
            out@.len() == i,
            forall|k: int| 0 <= k < i ==> (#[trigger] out@[k]@).len() == vars,
            forall|k: int| 0 <= k < i ==> seq_sum(#[trigger] out@[k]@) == total,
            forall|k: int| 0 <= k < i ==> (#[trigger] out@[k]@)[0] == head@[k]@[0] + 1,
        decreases head@.len() - i,
    {
        let src = &head[i];
        proof {
            lemma_sum_nonneg(src@.subrange(1, src@.len() as int));
            assert(seq_sum(src@) == src@[0] + seq_sum(src@.subrange(1, src@.len() as int)));
        }
        let mut v: Vec<usize> = Vec::new();
        let mut j: usize = 0;
        while j < src.len()
            invariant
                src@.len() >= 1,
                src@[0] < usize::MAX,
                v@.len() == j,
                j <= src@.len(),
                forall|t: int|
                    0 <= t < j ==> v@[t] == (if t == 0 {
                        (src@[0] + 1) as usize
                    } else {
                        src@[t]
                    }),
            decreases src@.len() - j,
        {
            if j == 0 {
                v.push(src[0] + 1);
            } else {
                v.push(src[j]);
            }
            j = j + 1;
        }
        proof {
            assert(v@ =~= src@.update(0, (src@[0] + 1) as usize));
            lemma_sum_bump_first(src@, (src@[0] + 1) as usize);
        }
        out.push(v);
        i = i + 1;
    }
    // Then the monomials whose first exponent is zero.
    let mut tail = monomials_of_degree(vars - 1, total);
    let mut i2: usize = 0;
    let ghost head_len = head@.len();
    while i2 < tail.len()
        invariant
            vars >= 2,
            total >= 1,
            forall|k: int| 0 <= k < tail@.len() ==> (#[trigger] tail@[k]@).len() == vars - 1,
            forall|k: int| 0 <= k < tail@.len() ==> seq_sum(#[trigger] tail@[k]@) == total,
            i2 <= tail@.len(),
            out@.len() == head_len + i2,
            forall|k: int| 0 <= k < out@.len() ==> (#[trigger] out@[k]@).len() == vars,
            forall|k: int| 0 <= k < out@.len() ==> seq_sum(#[trigger] out@[k]@) == total,
            forall|a: int, b: int|
                0 <= a <= b < head@.len() ==> (#[trigger] head@[a]@)[0] >= (#[trigger] head@[b]@)[0],
            forall|k: int| 0 <= k < head_len ==> (#[trigger] out@[k]@)[0] == head@[k]@[0] + 1,
            forall|k: int| head_len <= k < out@.len() ==> (#[trigger] out@[k]@)[0] == 0,
        decreases tail@.len() - i2,
    {
        let src = &tail[i2];
        let mut v: Vec<usize> = Vec::new();
        v.push(0);
        let mut j: usize = 0;
        while j < src.len()
            invariant
                v@.len() == j + 1,
                j <= src@.len(),
                v@[0] == 0usize,
                forall|t: int| 1 <= t < j + 1 ==> v@[t] == src@[t - 1],
            decreases src@.len() - j,
        {
            v.push(src[j]);
            j = j + 1;
        }
        proof {
            assert(v@ =~= seq![0usize] + src@);
            lemma_sum_cons(0, src@);
        }
        out.push(v);
        i2 = i2 + 1;
    }
    proof {
        assert(comp_count(vars as nat, total as nat) == comp_count((vars - 1) as nat, total as nat)
            + comp_count(vars as nat, (total - 1) as nat));
        assert forall|a: int, b: int| 0 <= a <= b < out@.len() implies (out@[a]@)[0]
            >= (out@[b]@)[0] by {
            if b < head_len {
                assert((out@[a]@)[0] == head@[a]@[0] + 1);
                assert((out@[b]@)[0] == head@[b]@[0] + 1);
            } else if a < head_len {
                assert((out@[a]@)[0] == head@[a]@[0] + 1);
                assert((out@[b]@)[0] == 0);
            } else {
                assert((out@[a]@)[0] == 0);
                assert((out@[b]@)[0] == 0);
            }
        }
    }
    out
}

/// All exponent vectors of the polynomial expansion of degree `degree`
/// over `cols` features, by ascending total degree; the constant term
/// comes first. For two features and degree two the order is the constant
/// term, the two linear terms, then the three quadratic terms.
pub fn monomial_exponents(cols: usize, degree: usize) -> (r: Vec<Vec<usize>>)
    requires
        cols >= 1,
    ensures
        r@.len() == poly_feature_count(cols as nat, degree as nat),
        forall|i: int| 0 <= i < r@.len() ==> (#[trigger] r@[i]@).len() == cols,
        forall|i: int| 0 <= i < r@.len() ==> seq_sum(#[trigger] r@[i]@) <= degree,
        forall|i: int, j: int|
            0 <= i <= j < r@.len() ==> seq_sum(#[trigger] r@[i]@) <= seq_sum(#[trigger] r@[j]@),
        forall|i: int, j: int|
            0 <= i <= j < r@.len() && seq_sum(#[trigger] r@[i]@) == seq_sum(#[trigger] r@[j]@)
                ==> (r@[i]@)[0] >= (r@[j]@)[0],
        r@.len() >= 1 && seq_sum(r@[0]@) == 0,
{
    let mut out = monomials_of_degree(cols, 0);
    let mut t: usize = 0;
    while t < degree
        invariant
            cols >= 1,
            t <= degree,
            out@.len() == poly_feature_count(cols as nat, t as nat),
            forall|i: int| 0 <= i < out@.len() ==> (#[trigger] out@[i]@).len() == cols,
            forall|i: int| 0 <= i < out@.len() ==> seq_sum(#[trigger] out@[i]@) <= t,
            forall|i: int, j: int|
                0 <= i <= j < out@.len() ==> seq_sum(#[trigger] out@[i]@) <= seq_sum(
                    #[trigger] out@[j]@,
                ),
            forall|i: int, j: int|
                0 <= i <= j < out@.len() && seq_sum(#[trigger] out@[i]@) == seq_sum(
                    #[trigger] out@[j]@,
                ) ==> (out@[i]@)[0] >= (out@[j]@)[0],
            out@.len() >= 1 && seq_sum(out@[0]@) == 0,
        decreases degree - t,
    {
        t = t + 1;
        let mut block = monomials_of_degree(cols, t);
        let ghost prev = out@;
        let ghost added = block@;
        out.append(&mut block);
        proof {
            assert forall|i: int, j: int| 0 <= i <= j < out@.len() implies seq_sum(out@[i]@)
                <= seq_sum(out@[j]@) by {
                if i < prev.len() {
                    assert(out@[i] == prev[i]);
                    assert(seq_sum(out@[i]@) <= t - 1);
                } else {
                    assert(out@[i] == added[i - prev.len()]);
                    assert(seq_sum(out@[i]@) == t);
                }
                if j < prev.len() {
                    assert(out@[j] == prev[j]);
                } else {
                    assert(out@[j] == added[j - prev.len()]);
                    assert(seq_sum(out@[j]@) == t);
                }
            }
            assert forall|i: int, j: int|
                0 <= i <= j < out@.len() && seq_sum(out@[i]@) == seq_sum(out@[j]@) implies (
            out@[i]@)[0] >= (out@[j]@)[0] by {
                if j < prev.len() {
                    assert(out@[i] == prev[i]);
                    assert(out@[j] == prev[j]);
                } else if i >= prev.len() {
                    assert(out@[i] == added[i - prev.len()]);
                    assert(out@[j] == added[j - prev.len()]);
                } else {
                    assert(seq_sum(out@[i]@) <= t - 1);
                    assert(seq_sum(out@[j]@) == t);
                }
            }
        }
    }
    out
}

/// A regression model variant with its immutable fitted parameters, each
/// scalar carried as an IEEE-754 double bit pattern.
#[derive(Debug, Clone, PartialEq, Eq)]
pub enum ModelVariant {
    /// `prediction[i] = intercept + sum_j coefficients[j] * x[i][j]`.
    LinearRegression { intercept: u64, coefficients: Vec<u64> },
    /// Same prediction form as linear regression; the L2 penalty strength
    /// `lambda` only shaped how the parameters were fitted offline.
    RidgeRegression { intercept: u64, coefficients: Vec<u64>, lambda: u64 },
    /// Ridge prediction over the polynomial expansion of each row up to
    /// `degree`, with one coefficient per monomial in expansion order.
    PolynomialRidgeRegression {
        intercept: u64,
        coefficients: Vec<u64>,
        lambda: u64,
        degree: usize,
    },
}

impl ModelVariant {
    /// How many coefficients the variant carries.
    pub open spec fn spec_coefficient_count(self) -> nat {
        match self {
            ModelVariant::LinearRegression { coefficients, .. } => coefficients@.len(),
            ModelVariant::RidgeRegression { coefficients, .. } => coefficients@.len(),
            ModelVariant::PolynomialRidgeRegression { coefficients, .. } => coefficients@.len(),
        }
    }

    /// How many coefficients a matrix of `cols` columns demands.
    pub open spec fn expected_coefficient_count(self, cols: nat) -> nat {
        match self {
            ModelVariant::LinearRegression { .. } => cols,
            ModelVariant::RidgeRegression { .. } => cols,
            ModelVariant::PolynomialRidgeRegression { degree, .. } => poly_feature_count(
                cols,
                degree as nat,
            ),
        }
    }

    /// The variant's coefficient count matches the (possibly expanded)
    /// feature count.
    pub open spec fn shape_ok(self, cols: nat) -> bool {
        self.spec_coefficient_count() == self.expected_coefficient_count(cols)
    }

    /// Checks the variant's coefficient count against the feature count.
    pub fn check_shape(&self, cols: usize) -> (r: Result<(), ShapeError>)
        requires
            cols >= 1,
        ensures
            r is Ok <==> self.shape_ok(cols as nat),
            r is Err ==> r == Err::<(), ShapeError>(ShapeError::CoefficientCountMismatch),
    {
        match self {
            ModelVariant::LinearRegression { coefficients, .. } => {
                if coefficients.len() == cols {
                    Ok(())
                } else {
                    Err(ShapeError::CoefficientCountMismatch)
                }
            },
            ModelVariant::RidgeRegression { coefficients, .. } => {
                if coefficients.len() == cols {
                    Ok(())
                } else {
                    Err(ShapeError::CoefficientCountMismatch)
                }
            },
            ModelVariant::PolynomialRidgeRegression { coefficients, degree, .. } => {
                match expanded_feature_count(cols, *degree) {
                    Some(n) => {
                        if coefficients.len() as u64 == n {
                            Ok(())
                        } else {
                            Err(ShapeError::CoefficientCountMismatch)
                        }
                    },
                    None => {
                        proof {
                            assert(coefficients.len() == coefficients@.len());
                        }
                        Err(ShapeError::CoefficientCountMismatch)
                    },
                }
            },
        }
    }
}

/// A fixed, ordered list of model variants. The registration order is the
/// iteration order of the prediction stage and so the commitment order;
/// it is never reordered.
pub struct ModelRegistry {
    variants: Vec<ModelVariant>,
}

impl View for ModelRegistry {
    type V = Seq<ModelVariant>;

    closed spec fn view(&self) -> Seq<ModelVariant> {
        self.variants@
    }
}

impl ModelRegistry {
    /// An empty registry.
    pub fn new() -> (r: ModelRegistry)
        ensures
            r@ == Seq::<ModelVariant>::empty(),
    {
        ModelRegistry { variants: Vec::new() }
    }

    /// Appends a variant; earlier registrations keep their places.
    pub fn register(&mut self, v: ModelVariant)
        ensures
            final(self)@ == old(self)@.push(v),
    {
        self.variants.push(v);
    }

    /// The number of registered variants.
    pub fn len(&self) -> (r: usize)
        ensures
            r == self@.len(),
    {
        self.variants.len()
    }

    /// The variant at registration position `i`.
    pub fn get(&self, i: usize) -> (r: &ModelVariant)
        requires
            i < self@.len(),
        ensures
            *r == self@[i as int],
    {
        &self.variants[i]
    }

    /// Checks every registered variant against the feature count.
    pub fn validate(&self, cols: usize) -> (r: Result<(), ShapeError>)
        requires
            cols >= 1,
        ensures
            r is Ok <==> (forall|i: int| 0 <= i < self@.len() ==> (#[trigger] self@[i]).shape_ok(
                cols as nat,
            )),
            r is Err ==> r == Err::<(), ShapeError>(ShapeError::CoefficientCountMismatch),
    {
        let n = self.variants.len();
        let mut i: usize = 0;
        while i < n
            invariant
                cols >= 1,
                n == self@.len(),
                i <= n,
                forall|k: int| 0 <= k < i ==> (#[trigger] self@[k]).shape_ok(cols as nat),
            decreases n - i,
        {
            match self.variants[i].check_shape(cols) {
                Ok(_) => {},
                Err(e) => {
                    return Err(e);
                },
            }
            i = i + 1;
        }
        Ok(())
    }
}

} // verus!
