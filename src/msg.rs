use vstd::prelude::*;
use crate::state::{Attendee, DistributePrize};

verus! {

/// What a round is created with: the oracle address and the window, as
/// RFC 3339 date-time texts.
#[derive(Clone, Debug, PartialEq, Eq)]
pub struct InstantiateMsg {
    pub nois_proxy: String,
    pub time_start: String,
    pub time_end: String,
}

/// The operations on a round. Addresses arrive as text; the oracle's
/// callback carries its job id and the raw randomness bytes.
#[derive(Clone, Debug, PartialEq, Eq)]
pub enum ExecuteMsg {
    Reset { nois_proxy: String, time_start: String, time_end: String },
    SetWhiteList { attendees: Vec<String> },
    SetPrizes { prizes: Vec<String> },
    Roll {},
    NoisReceive { job_id: String, randomness: Vec<u8> },
    LuckyNumber {},
}

/// The read-only questions one can ask of a round.
#[derive(Clone, Copy, Debug, PartialEq, Eq, Structural)]
pub enum QueryMsg {
    GetPrizes {},
    GetDistributePrizes {},
    GetAttendees {},
}

/// Every registered participant, in ascending address order.
#[derive(Clone, Debug, PartialEq, Eq)]
pub struct AttendeeQuery {
    pub attendees: Vec<Attendee>,
}

/// The current prize pool.
#[derive(Clone, Debug, PartialEq, Eq)]
pub struct PrizesQuery {
    pub prizes: Vec<String>,
}

/// The prizes handed out by the roll.
#[derive(Clone, Debug, PartialEq, Eq)]
pub struct DistributePrizesQuery {
    pub prizes: Vec<DistributePrize>,
}

} // verus!
