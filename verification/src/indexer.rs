//! The event indexer's decision logic: the server-side filter the
//! stream is configured with, and what happens to each event a streamed
//! block delivers.
//!
//! The stream connection itself suspends on the network and is driven
//! by the caller; a transport error there is fatal to the run and left
//! to the supervising task.
use vstd::prelude::*;

use crate::numeric::parse_u64_spec;
use crate::spot_entry::{decode_event, RawEvent, SpotEntry};
use crate::store::{insert_sorted, pair_records, PriceStore, StoreError};

verus! {

/// The event selector identifying submitted-price-entry events: only
/// events carrying it as their first key pass the stream filter.
pub fn submitted_spot_entry_selector() -> (r: &'static str)
    ensures
        r@ == spec_selector(),
{
    "0x280bb2099800026f90c334a3a23888ffe718a2920ffbbf4f44c6d3d5efb613c"
}

/// The text of the submitted-price-entry selector.
pub open spec fn spec_selector() -> Seq<char> {
    "0x280bb2099800026f90c334a3a23888ffe718a2920ffbbf4f44c6d3d5efb613c"@
}

/// The finality the stream is asked for.
#[derive(PartialEq, Eq, Structural, Clone, Copy, Debug)]
pub enum Finality {
    /// Include not-yet-finalized chain data.
    Pending,
    /// Only accepted blocks.
    Accepted,
    /// Only finalized blocks.
    Finalized,
}

/// The stream configuration the indexer asks the data client for:
/// match only events emitted by this contract that carry this selector
/// as their first key, streaming from this block on, at this finality.
pub struct FilterSpec {
    pub contract_address: String,
    pub selector: String,
    pub starting_block: u64,
    pub finality: Finality,
}

/// Builds the stream configuration for the configured contract: its
/// address, the submitted-price-entry selector as the first key,
/// streaming from the configured starting block with pending finality.
pub fn event_filter(contract_address: &str, starting_block: u64) -> (r: FilterSpec)
    ensures
        r.contract_address@ == contract_address@,
        r.selector@ == spec_selector(),
        r.starting_block == starting_block,
        r.finality == Finality::Pending,
{
    FilterSpec {
        contract_address: contract_address.to_owned(),
        selector: submitted_spot_entry_selector().to_owned(),
        starting_block,
        finality: Finality::Pending,
    }
}

/// Handles one streamed event: an event that decodes to nothing — no
/// sender address, or fewer than six data fields — is skipped; a
/// decodable event's record is persisted into the store under its
/// pair, and a store failure is propagated to the caller as fatal to
/// this run.
pub fn handle_event(store: &mut PriceStore, event: &RawEvent, block_number: u64) -> (r: Result<
    (),
    StoreError,
>)
    requires
        old(store).wf(),
        event.wf(),
    ensures
        final(store).wf(),
        ({
            let fields = event.data@.map_values(|f: Vec<u8>| f@);
            if event.from_address is None || fields.len() < 6 {
                r is Ok && final(store)@ == old(store)@
            } else {
                decode_event(fields, block_number) matches Some(e) && match r {
                    Ok(()) => parse_u64_spec(e.timestamp) matches Some(ts) && {
                        &&& pair_records(final(store)@, e.pair_id) == insert_sorted(
                            pair_records(old(store)@, e.pair_id),
                            ts,
                            e,
                        )
                        &&& forall|p: Seq<char>|
                            p != e.pair_id ==> #[trigger] pair_records(final(store)@, p)
                                == pair_records(old(store)@, p)
                    },
                    Err(StoreError::InvalidTimestamp) => parse_u64_spec(e.timestamp) is None
                        && final(store)@ == old(store)@,
                }
            }
        }),
{
    match SpotEntry::from_event(event, block_number) {
        Some(entry) => store.store(entry),
        None => Ok(()),
    }
}

} // verus!
