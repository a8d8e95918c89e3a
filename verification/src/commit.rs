//! The commitment emitter.
//!
//! Public outputs of the guest leave through a process-wide, append-only
//! stream. The emitter fixes two things the surrounding proving system
//! depends on: the order of the stream — all prediction vectors in model
//! registration order, then all metric sets in the same order — and the
//! canonical encoding of each value, since a verifier interprets the
//! public-output bytes positionally and byte-exactly.
//!
//! Encoding: every scalar is its 64-bit pattern in little-endian byte
//! order; a prediction vector is its length as a 64-bit little-endian
//! count followed by its scalars; a metric set is the fixed 4-tuple
//! MAE, MSE, RMSE, R-squared.

use vstd::prelude::*;
use crate::metrics::MetricSet;

verus! {

/// One committed public value.
#[derive(Debug, Clone, PartialEq, Eq)]
pub enum CommittedValue {
    /// A model's prediction vector, committed verbatim.
    Predictions(Vec<u64>),
    /// A model's metric set, committed as the 4-tuple.
    Metrics(MetricSet),
}

impl CommittedValue {
    /// The value is the prediction vector `p`.
    pub open spec fn is_predictions_of(self, p: Seq<u64>) -> bool {
        match self {
            CommittedValue::Predictions(q) => q@ == p,
            CommittedValue::Metrics(_) => false,
        }
    }

    /// The value is the metric set `m`.
    pub open spec fn is_metrics_of(self, m: MetricSet) -> bool {
        match self {
            CommittedValue::Predictions(_) => false,
            CommittedValue::Metrics(x) => x == m,
        }
    }
}

/// The eight little-endian bytes of a scalar bit pattern.
pub open spec fn u64_le_bytes(x: u64) -> Seq<u8> {
    seq![
        (x % 256) as u8,
        ((x / 256) % 256) as u8,
        ((x / 0x10000) % 256) as u8,
        ((x / 0x1000000) % 256) as u8,
        ((x / 0x100000000) % 256) as u8,
        ((x / 0x10000000000) % 256) as u8,
        ((x / 0x1000000000000) % 256) as u8,
        ((x / 0x100000000000000) % 256) as u8,
    ]
}

/// The scalars of a vector, encoded in order.
pub open spec fn scalars_bytes(s: Seq<u64>) -> Seq<u8>
    decreases s.len(),
{
    if s.len() == 0 {
        Seq::empty()
    } else {
        scalars_bytes(s.drop_last()) + u64_le_bytes(s.last())
    }
}

/// The canonical encoding of one committed value.
pub open spec fn value_bytes(v: CommittedValue) -> Seq<u8> {
    match v {
        CommittedValue::Predictions(p) => u64_le_bytes(p@.len() as u64) + scalars_bytes(p@),
        CommittedValue::Metrics(m) => u64_le_bytes(m.mae) + u64_le_bytes(m.mse) + u64_le_bytes(
            m.rmse,
        ) + u64_le_bytes(m.r2),
    }
}

/// A verifier reads the stream positionally, so the byte length of every
/// encoded value is fixed by its kind: a prediction vector of `n` scalars
/// occupies `8 + 8 * n` bytes, a metric set always 32.
pub proof fn lemma_value_bytes_len(v: CommittedValue)
    ensures
        v matches CommittedValue::Predictions(p) ==> value_bytes(v).len() == 8 + 8 * p@.len(),
        v is Metrics ==> value_bytes(v).len() == 32,
{
    match v {
        CommittedValue::Predictions(p) => {
            lemma_scalars_bytes_len(p@);
        },
        CommittedValue::Metrics(_) => {},
    }
}

proof fn lemma_scalars_bytes_len(s: Seq<u64>)
    ensures
        scalars_bytes(s).len() == 8 * s.len(),
    decreases s.len(),
{
    if s.len() > 0 {
        lemma_scalars_bytes_len(s.drop_last());
    }
}

/// The scalar encoding is lossless: the eight little-endian bytes of a
/// scalar determine it, so a verifier can decode every committed value
/// from the public-output bytes.
pub proof fn lemma_u64_le_bytes_lossless(x: u64)
    ensures
        ({
            let b = u64_le_bytes(x);
            x == b[0] + 0x100 * b[1] + 0x10000 * b[2] + 0x1000000 * b[3] + 0x100000000 * b[4]
                + 0x10000000000 * b[5] + 0x1000000000000 * b[6] + 0x100000000000000 * b[7]
        }),
{
    let xi = x as int;
    vstd::arithmetic::div_mod::lemma_div_denominator(xi, 0x100, 0x100);
    vstd::arithmetic::div_mod::lemma_div_denominator(xi, 0x10000, 0x100);
    vstd::arithmetic::div_mod::lemma_div_denominator(xi, 0x1000000, 0x100);
    vstd::arithmetic::div_mod::lemma_div_denominator(xi, 0x100000000, 0x100);
    vstd::arithmetic::div_mod::lemma_div_denominator(xi, 0x10000000000, 0x100);
    vstd::arithmetic::div_mod::lemma_div_denominator(xi, 0x1000000000000, 0x100);
    vstd::arithmetic::div_mod::lemma_fundamental_div_mod(xi, 0x100);
    vstd::arithmetic::div_mod::lemma_fundamental_div_mod(xi / 0x100, 0x100);
    vstd::arithmetic::div_mod::lemma_fundamental_div_mod(xi / 0x10000, 0x100);
    vstd::arithmetic::div_mod::lemma_fundamental_div_mod(xi / 0x1000000, 0x100);
    vstd::arithmetic::div_mod::lemma_fundamental_div_mod(xi / 0x100000000, 0x100);
    vstd::arithmetic::div_mod::lemma_fundamental_div_mod(xi / 0x10000000000, 0x100);
    vstd::arithmetic::div_mod::lemma_fundamental_div_mod(xi / 0x1000000000000, 0x100);
    vstd::arithmetic::div_mod::lemma_div_is_ordered(xi, 0xFFFFFFFFFFFFFFFF, 0x100000000000000);
    assert(xi / 0x100000000000000 < 0x100);
    vstd::arithmetic::div_mod::lemma_small_mod(
        (xi / 0x100000000000000) as nat,
        0x100 as nat,
    );
}

/// Appends the eight little-endian bytes of `x`.
fn encode_u64_into(out: &mut Vec<u8>, x: u64)
    ensures
        final(out)@ == old(out)@ + u64_le_bytes(x),
{
    out.push((x % 256) as u8);
    out.push(((x / 256) % 256) as u8);
    out.push(((x / 0x10000) % 256) as u8);
    out.push(((x / 0x1000000) % 256) as u8);
    out.push(((x / 0x100000000) % 256) as u8);
    out.push(((x / 0x10000000000) % 256) as u8);
    out.push(((x / 0x1000000000000) % 256) as u8);
    out.push(((x / 0x100000000000000) % 256) as u8);
    proof {
        assert(out@ =~= old(out)@ + u64_le_bytes(x));
    }
}

/// Encodes one committed value canonically.
pub fn encode_value(value: &CommittedValue) -> (r: Vec<u8>)
    ensures
        r@ == value_bytes(*value),
{
    let mut out: Vec<u8> = Vec::new();
    match value {
        CommittedValue::Predictions(p) => {
            let n = p.len();
            encode_u64_into(&mut out, n as u64);
            let ghost header = out@;
            let mut i: usize = 0;
            while i < n
                invariant
                    n == p@.len(),
                    i <= n,
                    out@ == header + scalars_bytes(p@.subrange(0, i as int)),
                decreases n - i,
            {
                encode_u64_into(&mut out, p[i]);
                proof {
                    let pre = p@.subrange(0, i as int);
                    let cur = p@.subrange(0, i + 1);
                    assert(cur.drop_last() =~= pre);
                    assert(cur.last() == p@[i as int]);
                }
                i = i + 1;
            }
            proof {
                assert(p@.subrange(0, p@.len() as int) =~= p@);
            }
        },
        CommittedValue::Metrics(m) => {
            encode_u64_into(&mut out, m.mae);
            encode_u64_into(&mut out, m.mse);
            encode_u64_into(&mut out, m.rmse);
            encode_u64_into(&mut out, m.r2);
        },
    }
    out
}

/// The write-only, append-ordered sequence of committed public values.
///
/// Opened empty at program start; values are only ever appended, never
/// read back, reordered or rolled back.
pub struct CommitmentStream {
    items: Vec<CommittedValue>,
}

impl View for CommitmentStream {
    type V = Seq<CommittedValue>;

    closed spec fn view(&self) -> Seq<CommittedValue> {
        self.items@
    }
}

impl CommitmentStream {
    /// A fresh, empty stream.
    pub fn new() -> (r: CommitmentStream)
        ensures
            r@ == Seq::<CommittedValue>::empty(),
    {
        CommitmentStream { items: Vec::new() }
    }

    /// Appends one value; everything already committed keeps its place.
    pub fn commit(&mut self, value: CommittedValue)
        ensures
            final(self)@ == old(self)@.push(value),
    {
        self.items.push(value);
    }

    /// How many values have been committed.
    pub fn len(&self) -> (r: usize)
        ensures
            r == self@.len(),
    {
        self.items.len()
    }

    /// The value at stream position `i`.
    pub fn get(&self, i: usize) -> (r: &CommittedValue)
        requires
            i < self@.len(),
        ensures
            *r == self@[i as int],
    {
        &self.items[i]
    }
}

/// An entry-for-entry copy of a scalar vector.
fn copy_scalars(v: &Vec<u64>) -> (r: Vec<u64>)
    ensures
        r@ == v@,
{
    let mut out: Vec<u64> = Vec::new();
    let n = v.len();
    let mut i: usize = 0;
    while i < n
        invariant
            n == v@.len(),
            i <= n,
            out@ =~= v@.subrange(0, i as int),
        decreases n - i,
    {
        out.push(v[i]);
        proof {
            assert(out@ =~= v@.subrange(0, i + 1));
        }
        i = i + 1;
    }
    proof {
        assert(v@.subrange(0, v@.len() as int) =~= v@);
    }
    out
}

/// Commits all results of one run in the order the external interface
/// fixes: the prediction vector of every model, in model registration
/// order, then the metric set of every model, in the same order.
///
/// After the call the stream holds exactly `2 * n` new values for `n`
/// models: positions `0 .. n` of the appended suffix are the prediction
/// vectors and positions `n .. 2 * n` are the metric sets, each at the
/// offset of its model's registration position. Nothing already in the
/// stream moves.
pub fn emit_all(stream: &mut CommitmentStream, predictions: &Vec<Vec<u64>>, metrics: &Vec<MetricSet>)
    requires
        predictions@.len() == metrics@.len(),
    ensures
        final(stream)@.len() == old(stream)@.len() + 2 * predictions@.len(),
        forall|i: int| 0 <= i < old(stream)@.len() ==> final(stream)@[i] == old(stream)@[i],
        forall|i: int|
            0 <= i < predictions@.len() ==> (#[trigger] final(stream)@[old(stream)@.len() + i])
                .is_predictions_of(predictions@[i]@),
        forall|i: int|
            0 <= i < metrics@.len() ==> (#[trigger] final(stream)@[old(stream)@.len()
                + predictions@.len() + i]).is_metrics_of(metrics@[i]),
{
    let ghost init = stream@;
    let n = predictions.len();
    let mut i: usize = 0;
    while i < n
        invariant
            n == predictions@.len(),
            i <= n,
            stream@.len() == init.len() + i,
            forall|k: int| 0 <= k < init.len() ==> stream@[k] == init[k],
            forall|k: int|
                0 <= k < i ==> (#[trigger] stream@[init.len() + k]).is_predictions_of(
                    predictions@[k]@,
                ),
        decreases n - i,
    {
        let p = copy_scalars(&predictions[i]);
        stream.commit(CommittedValue::Predictions(p));
        i = i + 1;
    }
    let mut j: usize = 0;
    while j < n
        invariant
            n == predictions@.len(),
            metrics@.len() == n,
            j <= n,
            stream@.len() == init.len() + n + j,
            forall|k: int| 0 <= k < init.len() ==> stream@[k] == init[k],
            forall|k: int|
                0 <= k < n ==> (#[trigger] stream@[init.len() + k]).is_predictions_of(
                    predictions@[k]@,
                ),
            forall|k: int|
                0 <= k < j ==> (#[trigger] stream@[init.len() + n + k]).is_metrics_of(metrics@[k]),
        decreases n - j,
    {
        let m = metrics[j];
        stream.commit(CommittedValue::Metrics(m));
        j = j + 1;
    }
}

} // verus!
