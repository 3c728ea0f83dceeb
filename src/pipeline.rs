//! Encoding, splitting and the training checks of one run, chained.
use vstd::prelude::*;
use crate::encode::{EncodingTables, encodes, fit_encode};
use crate::evaluate::{PipelineError, check_training};
use crate::record::Transaction;
use crate::split::{spec_split_point, split_dataset};

verus! {

/// Default split ratio, as a fraction: seven tenths train.
pub const SPLIT_NUM: u64 = 7;

pub const SPLIT_DEN: u64 = 10;

/// Default number of training epochs.
pub const MAX_EPOCHS: u32 = 10;

/// Default number of nodes drawn for the graph report.
pub const SAMPLE_SIZE: usize = 10;

/// The encoded rows of a run, split into a training and a test slice.
pub struct PreparedData {
    pub tables: EncodingTables,
    pub train_rows: Vec<Vec<i128>>,
    pub train_labels: Vec<u8>,
    pub test_rows: Vec<Vec<i128>>,
    pub test_labels: Vec<u8>,
}

/// Encodes `records`, splits the rows at ratio `num / den`, and checks that
/// a model can be fitted on the result over `max_epochs` epochs.
pub fn prepare(records: &Vec<Transaction>, num: u64, den: u64, max_epochs: u32) -> (r: Result<
    PreparedData,
    PipelineError,
>)
    requires
        0 < num < den,
    ensures
        ({
            let n = records@.len() as int;
            let t = spec_split_point(n, num as int, den as int);
            &&& r == Err::<PreparedData, PipelineError>(PipelineError::EmptyDataset) <==> n == 0
            &&& r == Err::<PreparedData, PipelineError>(PipelineError::NoEpochs) <==> (n > 0
                && max_epochs == 0)
            &&& r == Err::<PreparedData, PipelineError>(PipelineError::InsufficientData) <==> (n
                > 0 && max_epochs > 0 && (t == 0 || t == n))
            &&& r is Ok <==> (n > 0 && max_epochs > 0 && 0 < t < n)
            &&& r matches Ok(p) ==> {
                &&& p.train_rows@.len() == t
                &&& p.train_labels@.len() == t
                &&& encodes(
                    records@,
                    p.tables,
                    p.train_rows@ + p.test_rows@,
                    p.train_labels@ + p.test_labels@,
                )
            }
        }),
{
    let (tables, rows, labels) = fit_encode(records);
    let ghost all_rows = rows@;
    let ghost all_labels = labels@;
    let n = rows.len();
    let (train_rows, test_rows) = split_dataset(rows, num, den);
    let (train_labels, test_labels) = split_dataset(labels, num, den);
    match check_training(n, train_rows.len(), max_epochs) {
        Err(e) => Err(e),
        Ok(()) => {
            assert(train_rows@ + test_rows@ =~= all_rows);
            assert(train_labels@ + test_labels@ =~= all_labels);
            Ok(PreparedData { tables, train_rows, train_labels, test_rows, test_labels })
        },
    }
}

} // verus!
