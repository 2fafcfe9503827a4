//! Training of zstd dictionaries.
use vstd::prelude::*;

verus! {

pub const MIN_TRAIN_FACTOR: usize = 1;

pub const MIN_SAMPLE_COUNT: usize = 7;

pub const TEST_MAX_DICT: usize = 4096;

pub const TEST_WINDOW: usize = 4096;

/// The sum of the sizes of all samples.
pub open spec fn total(sizes: Seq<usize>) -> nat
    decreases sizes.len(),
{
    if sizes.len() == 0 {
        0
    } else {
        total(sizes.drop_last()) + sizes.last() as nat
    }
}

/// Whether the outcome is one that zstd may give when it trains a dictionary of at most
/// `max_size` bytes from `samples`, which are cut into pieces of the given `sizes`. There may
/// be several: zstd fills a buffer that can have more room than was asked for, and needs
/// memory for its work.
pub uninterp spec fn zstd_trains(
    samples: Seq<u8>,
    sizes: Seq<usize>,
    max_size: usize,
    outcome: Option<Seq<u8>>,
) -> bool;

/// `zstd::dict::from_continuous` trains a dictionary from the samples, which are cut into
/// pieces of the given sizes. A dictionary is never empty: it starts with a header. It is an
/// error when the sizes do not add up to the length of the samples, and when there are fewer
/// than `MIN_SAMPLE_COUNT` of them. Which dictionary comes out, how long it is, and whether
/// one does come out otherwise is not stated: it rests on the room and the memory that zstd
/// gets.
#[verifier::external_body]
fn from_continuous(samples: &[u8], sizes: &[usize], max_size: usize) -> (r: Option<Vec<u8>>)
    requires
        max_size <= isize::MAX,
    ensures
        zstd_trains(
            samples@,
            sizes@,
            max_size,
            match r {
                Some(dictionary) => Some(dictionary@),
                None => None,
            },
        ),
        r matches Some(dictionary) ==> dictionary@.len() > 0,
        r is Some ==> total(sizes@) == samples@.len() && sizes@.len() >= MIN_SAMPLE_COUNT,
{
    zstd::dict::from_continuous(samples, sizes, max_size).ok()
}

/// zstd rejects the corpus or the dictionary size.
#[derive(Debug, Clone, Copy, PartialEq, Eq)]
pub struct TrainError;

impl TrainError {
    /// What the error says.
    pub fn message(&self) -> (r: String)
        ensures
            r@ == "Failed to train zstd dictionary"@,
    {
        "Failed to train zstd dictionary".to_owned()
    }
}

/// What a training gives that gave a dictionary or none.
pub fn training_result(trained: Option<Vec<u8>>) -> (r: Result<Vec<u8>, TrainError>)
    ensures
        r == (match trained {
            Some(dictionary) => Ok(dictionary),
            None => Err::<Vec<u8>, TrainError>(TrainError),
        }),
{
    match trained {
        Some(dictionary) => Ok(dictionary),
        None => Err(TrainError),
    }
}

/// Trains a zstd dictionary from concatenated samples and their individual sizes.
///
/// A dictionary size that no allocation can have is an error, as are sizes that do not add
/// up, too few samples, and a corpus that zstd rejects. Otherwise the outcome is that of zstd
/// on these samples and sizes with this limit.
pub fn train_dictionary(samples: &[u8], sizes: &[usize], max_size: usize) -> (r: Result<
    Vec<u8>,
    TrainError,
>)
    ensures
        max_size > isize::MAX || total(sizes@) != samples@.len() || sizes@.len() < MIN_SAMPLE_COUNT
            ==> r == Err::<Vec<u8>, TrainError>(TrainError),
        r matches Ok(dictionary) ==> dictionary@.len() > 0 && zstd_trains(
            samples@,
            sizes@,
            max_size,
            Some(dictionary@),
        ),
        max_size <= isize::MAX && r is Err ==> zstd_trains(samples@, sizes@, max_size, None),
{
    if max_size > isize::MAX as usize {
        return Err(TrainError);
    }
    training_result(from_continuous(samples, sizes, max_size))
}

} // verus!
