//! Loading and saving the one persisted filter, and the decisions of the
//! availability check, from values that the surrounding handler reads
//! from its key-value store and its system of record.
use crate::filter::{
    decode_bits, decode_state, empty_bits, inserted_bits, BloomFilter, Exists, FilterError,
};
use crate::hashing::MAX_KEY_CHARS;
use vstd::prelude::*;

verus! {

/// The key under which the filter's bytes are stored.
pub const STATE_KEY: &'static str = "__state";

/// HTTP status of an available identifier.
pub const STATUS_AVAILABLE: u16 = 200;

/// HTTP status of an identifier that is already taken.
pub const STATUS_TAKEN: u16 = 409;

/// What reading the filter's key from the store gave.
pub enum StoreRead {
    /// The stored bytes.
    Found(Vec<u8>),
    /// No value is stored under the key.
    Missing,
    /// The store failed (connectivity, permission).
    Failed,
}

/// The bits that a read stands for: a fresh filter's where nothing is
/// stored, the decoded bytes where they are well formed, `None` otherwise.
pub open spec fn loaded_bits(read: StoreRead) -> Option<Seq<bool>> {
    match read {
        StoreRead::Found(b) => decode_state(b@),
        StoreRead::Missing => Some(empty_bits()),
        StoreRead::Failed => None,
    }
}

/// The error that a read gives, where it gives no filter.
pub open spec fn load_error(read: StoreRead) -> FilterError {
    match read {
        StoreRead::Failed => FilterError::StoreUnavailable,
        _ => FilterError::CorruptState,
    }
}

/// Turns what was read from the store into a filter: nothing stored gives
/// a fresh filter, stored bytes are decoded, and a failed read is passed
/// on as `StoreUnavailable`.
pub fn load_state(read: StoreRead) -> (r: Result<BloomFilter, FilterError>)
    ensures
        match r {
            Ok(f) => f.wf() && loaded_bits(read) == Some(f.bits()) && f.count() == 0,
            Err(e) => loaded_bits(read) is None && e == load_error(read),
        },
{
    match read {
        StoreRead::Found(bytes) => BloomFilter::from_vec(bytes),
        StoreRead::Missing => Ok(BloomFilter::new()),
        StoreRead::Failed => Err(FilterError::StoreUnavailable),
    }
}

/// One registration against the store: load the filter from what was
/// read, insert `key`, and return the bytes to write back in place of
/// whatever is stored then.
pub fn register(read: StoreRead, key: &str) -> (r: Result<Vec<u8>, FilterError>)
    requires
        key@.len() < MAX_KEY_CHARS,
    ensures
        match r {
            Ok(bytes) => loaded_bits(read) matches Some(bits) && bytes@.len() == 16
                && decode_bits(bytes@) == inserted_bits(bits, key@),
            Err(e) => loaded_bits(read) is None && e == load_error(read),
        },
{
    let mut filter = load_state(read)?;
    filter.insert(key);
    Ok(filter.to_bytes())
}

/// Whether the filter's answer leaves the identifier open, so that the
/// system of record must be asked.
pub fn needs_lookup(answer: Exists) -> (r: bool)
    ensures
        r == (answer == Exists::Maybe),
{
    answer == Exists::Maybe
}

/// The status of an availability check: taken only where the filter says
/// `Maybe` and the system of record confirms it; `taken` is not consulted
/// on `No`.
pub fn availability_status(answer: Exists, taken: bool) -> (r: u16)
    ensures
        r == (if answer == Exists::Maybe && taken {
            STATUS_TAKEN
        } else {
            STATUS_AVAILABLE
        }),
{
    match answer {
        Exists::Maybe if taken => STATUS_TAKEN,
        _ => STATUS_AVAILABLE,
    }
}

} // verus!
