//! Held-out scoring and the checks that decide whether a model is fitted.
use vstd::prelude::*;

verus! {

/// Why a run fits or scores no model.
#[derive(Clone, Copy, Debug, PartialEq, Eq, Structural)]
pub enum PipelineError {
    /// No records reached the encoder.
    EmptyDataset,
    /// Training was asked for zero epochs.
    NoEpochs,
    /// The split left the training slice or the test slice empty.
    InsufficientData,
    /// Predictions and labels differ in number.
    LengthMismatch,
}

/// Correct predictions out of a number of scored rows; the accuracy is
/// `correct / total`.
#[derive(Clone, Copy, Debug, PartialEq, Eq, Structural)]
pub struct Accuracy {
    pub correct: usize,
    pub total: usize,
}

/// How many positions of `p` and `a` agree, over the first `k`.
pub open spec fn count_matches(p: Seq<u8>, a: Seq<u8>, k: int) -> nat
    decreases k,
{
    if k <= 0 {
        0
    } else {
        count_matches(p, a, k - 1) + if p[k - 1] == a[k - 1] {
            1nat
        } else {
            0nat
        }
    }
}

proof fn lemma_count_matches_bound(p: Seq<u8>, a: Seq<u8>, k: int)
    requires
        0 <= k,
    ensures
        count_matches(p, a, k) <= k,
    decreases k,
{
    if k > 0 {
        lemma_count_matches_bound(p, a, k - 1);
    }
}

/// Scores predictions against the true labels of the test slice.
pub fn evaluate(predicted: &Vec<u8>, actual: &Vec<u8>) -> (r: Result<Accuracy, PipelineError>)
    ensures
        r == Err::<Accuracy, PipelineError>(PipelineError::LengthMismatch) <==> predicted@.len()
            != actual@.len(),
        r == Err::<Accuracy, PipelineError>(PipelineError::InsufficientData) <==> (
        predicted@.len() == actual@.len() && actual@.len() == 0),
        r is Ok <==> (predicted@.len() == actual@.len() && actual@.len() > 0),
        r matches Ok(acc) ==> {
            &&& acc.total == actual@.len()
            &&& acc.correct == count_matches(predicted@, actual@, actual@.len() as int)
            &&& 0 <= acc.correct <= acc.total
            &&& acc.total > 0
        },
{
    if predicted.len() != actual.len() {
        return Err(PipelineError::LengthMismatch);
    }
    if actual.len() == 0 {
        return Err(PipelineError::InsufficientData);
    }
    let n = actual.len();
    let mut correct: usize = 0;
    let mut i: usize = 0;
    while i < n
        invariant
            n == actual@.len(),
            n == predicted@.len(),
            i <= n,
            correct == count_matches(predicted@, actual@, i as int),
        decreases n - i,
    {
        proof { lemma_count_matches_bound(predicted@, actual@, i as int); }
        if predicted[i] == actual[i] {
            correct = correct + 1;
        }
        i = i + 1;
    }
    proof { lemma_count_matches_bound(predicted@, actual@, n as int); }
    Ok(Accuracy { correct, total: n })
}

/// Decides whether a model can be fitted on `n` encoded rows of which
/// `train_len` train, over `max_epochs` epochs.
pub fn check_training(n: usize, train_len: usize, max_epochs: u32) -> (r: Result<(), PipelineError>)
    ensures
        r == Err::<(), PipelineError>(PipelineError::EmptyDataset) <==> n == 0,
        r == Err::<(), PipelineError>(PipelineError::NoEpochs) <==> (n > 0 && max_epochs == 0),
        r == Err::<(), PipelineError>(PipelineError::InsufficientData) <==> (n > 0 && max_epochs
            > 0 && (train_len == 0 || train_len >= n)),
        r is Ok <==> (n > 0 && max_epochs > 0 && 0 < train_len < n),
{
    if n == 0 {
        Err(PipelineError::EmptyDataset)
    } else if max_epochs == 0 {
        Err(PipelineError::NoEpochs)
    } else if train_len == 0 || train_len >= n {
        Err(PipelineError::InsufficientData)
    } else {
        Ok(())
    }
}

} // verus!
