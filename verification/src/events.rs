//! Ingested contract events, as the library's logic reads them.
use vstd::prelude::*;
use crate::text::str_equals;

verus! {

/// An event log of a contract, as ingested: its identity (chain, contract, block,
/// transaction, log index), its block, and its decoded payload as JSON text.
#[derive(Clone, Debug)]
pub struct Event {
    /// The event's UUID, as a 128-bit value.
    pub id: u128,
    pub chain_id: i64,
    pub contract_address: String,
    pub contract_name: String,
    pub abi: String,
    /// Decoded parameters, as JSON text.
    pub parameters: String,
    /// Log topics, as JSON text.
    pub topics: String,
    pub block_hash: String,
    pub block_number: i64,
    pub block_timestamp: i64,
    pub transaction_hash: String,
    pub transaction_index: i32,
    pub log_index: i32,
    pub removed: bool,
}

/// The abstract value of an [`Event`].
pub struct EventModel {
    pub id: u128,
    pub chain_id: i64,
    pub contract_address: Seq<char>,
    pub contract_name: Seq<char>,
    pub abi: Seq<char>,
    pub parameters: Seq<char>,
    pub topics: Seq<char>,
    pub block_hash: Seq<char>,
    pub block_number: i64,
    pub block_timestamp: i64,
    pub transaction_hash: Seq<char>,
    pub transaction_index: i32,
    pub log_index: i32,
    pub removed: bool,
}

impl View for Event {
    type V = EventModel;

    open spec fn view(&self) -> EventModel {
        EventModel {
            id: self.id,
            chain_id: self.chain_id,
            contract_address: self.contract_address@,
            contract_name: self.contract_name@,
            abi: self.abi@,
            parameters: self.parameters@,
            topics: self.topics@,
            block_hash: self.block_hash@,
            block_number: self.block_number,
            block_timestamp: self.block_timestamp,
            transaction_hash: self.transaction_hash@,
            transaction_index: self.transaction_index,
            log_index: self.log_index,
            removed: self.removed,
        }
    }
}

/// The views of a list of events.
pub open spec fn events_view(events: Seq<Event>) -> Seq<EventModel> {
    events.map_values(|e: Event| e@)
}

/// Whether two events are the same, field for field.
pub fn same_event(a: &Event, b: &Event) -> (same: bool)
    ensures
        same == (a@ == b@),
{
    a.id == b.id && a.chain_id == b.chain_id && a.block_number == b.block_number
        && a.block_timestamp == b.block_timestamp && a.transaction_index == b.transaction_index
        && a.log_index == b.log_index && a.removed == b.removed && str_equals(
        a.contract_address.as_str(),
        b.contract_address.as_str(),
    ) && str_equals(a.contract_name.as_str(), b.contract_name.as_str()) && str_equals(
        a.abi.as_str(),
        b.abi.as_str(),
    ) && str_equals(a.parameters.as_str(), b.parameters.as_str()) && str_equals(
        a.topics.as_str(),
        b.topics.as_str(),
    ) && str_equals(a.block_hash.as_str(), b.block_hash.as_str()) && str_equals(
        a.transaction_hash.as_str(),
        b.transaction_hash.as_str(),
    )
}


impl Event {
    /// A copy of the event.
    pub fn duplicate(&self) -> (copy: Event)
        ensures
            copy@ == self@,
    {
        Event {
            id: self.id,
            chain_id: self.chain_id,
            contract_address: crate::text::to_owned_string(self.contract_address.as_str()),
            contract_name: crate::text::to_owned_string(self.contract_name.as_str()),
            abi: crate::text::to_owned_string(self.abi.as_str()),
            parameters: crate::text::to_owned_string(self.parameters.as_str()),
            topics: crate::text::to_owned_string(self.topics.as_str()),
            block_hash: crate::text::to_owned_string(self.block_hash.as_str()),
            block_number: self.block_number,
            block_timestamp: self.block_timestamp,
            transaction_hash: crate::text::to_owned_string(self.transaction_hash.as_str()),
            transaction_index: self.transaction_index,
            log_index: self.log_index,
            removed: self.removed,
        }
    }
}

} // verus!
