use vstd::prelude::*;

verus! {

/// The oracle address and the registration window of a round, in
/// nanoseconds since the Unix epoch.
#[derive(Clone, Debug, PartialEq, Eq)]
pub struct Configs {
    pub nois_proxy: String,
    pub time_start: u64,
    pub time_end: u64,
}

/// A registered participant and the lucky number the oracle gave it; all
/// zeros until the oracle's answer lands.
#[derive(Clone, Debug, PartialEq, Eq)]
pub struct Attendee {
    pub address: String,
    pub lucky_number: [u8; 32],
}

/// Whether a whitelisted address has registered.
#[derive(Clone, Copy, Debug, PartialEq, Eq, Structural)]
pub struct Status {
    pub attended: bool,
}

/// A whitelisted address and its status.
#[derive(Clone, Debug, PartialEq, Eq)]
pub struct WhitelistEntry {
    pub address: String,
    pub status: Status,
}

/// The prize that a participant received.
#[derive(Clone, Debug, PartialEq, Eq)]
pub struct DistributePrize {
    pub address: String,
    pub prize: String,
}

/// The prize pool, and whether the oracle has shuffled it.
#[derive(Clone, Debug, PartialEq, Eq)]
pub struct Prizes {
    pub shuffle: bool,
    pub prizes: Vec<String>,
}

impl Attendee {
    pub open spec fn view_pair(self) -> (Seq<char>, Seq<u8>) {
        (self.address@, self.lucky_number@)
    }
}

impl WhitelistEntry {
    pub open spec fn view_pair(self) -> (Seq<char>, bool) {
        (self.address@, self.status.attended)
    }
}

impl DistributePrize {
    pub open spec fn view_pair(self) -> (Seq<char>, Seq<char>) {
        (self.address@, self.prize@)
    }
}

/// The addresses and lucky numbers of a list of attendees.
pub open spec fn attendees_view(s: Seq<Attendee>) -> Seq<(Seq<char>, Seq<u8>)> {
    s.map_values(|a: Attendee| a.view_pair())
}

/// The addresses and statuses of a whitelist.
pub open spec fn whitelist_view(s: Seq<WhitelistEntry>) -> Seq<(Seq<char>, bool)> {
    s.map_values(|e: WhitelistEntry| e.view_pair())
}

/// The addresses and prizes of a distribution.
pub open spec fn distribution_view(s: Seq<DistributePrize>) -> Seq<(Seq<char>, Seq<char>)> {
    s.map_values(|d: DistributePrize| d.view_pair())
}

pub fn clone_attendee(a: &Attendee) -> (r: Attendee)
    ensures
        r.view_pair() == a.view_pair(),
{
    Attendee { address: a.address.clone(), lucky_number: a.lucky_number }
}

pub fn clone_distribute_prize(d: &DistributePrize) -> (r: DistributePrize)
    ensures
        r.view_pair() == d.view_pair(),
{
    DistributePrize { address: d.address.clone(), prize: d.prize.clone() }
}

} // verus!
