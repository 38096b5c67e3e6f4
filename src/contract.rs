use vstd::prelude::*;
use crate::distribution::{addresses_of, distribute, distribution_of, prizes_of, recipients_of};
use crate::error::ContractError;
use crate::msg::{AttendeeQuery, DistributePrizesQuery, PrizesQuery};
use crate::order::{
    address_less, addr_lt, lemma_addr_lt_irreflexive, lemma_addr_lt_total,
    lemma_addr_lt_transitive,
};
use crate::shuffle::{shuffle, shuffle_of, strs};
use crate::state::{
    attendees_view, clone_attendee, clone_distribute_prize, distribution_view, whitelist_view,
    Attendee, Configs, DistributePrize, Prizes, Status, WhitelistEntry,
};
use crate::utils::{convert_datetime_string, generate_lucky_number, lucky_number_of, timestamp_of_text};

verus! {

/// The job id under which the prize pool's randomness is requested.
pub const PRIZES_JOB: &'static str = "set prizes";

/// A request for randomness to send to the oracle; its answer comes back
/// later with the same job id.
#[derive(Clone, Debug, PartialEq, Eq)]
pub struct RandomnessRequest {
    pub oracle: String,
    pub job_id: String,
}

/// What an accepted oracle answer did.
#[derive(Clone, Copy, Debug, PartialEq, Eq, Structural)]
pub enum Received {
    /// The prize pool was shuffled.
    PrizesShuffled,
    /// A registered attendee's lucky number was set.
    LuckyNumberSet,
    /// The job matched nothing pending; nothing changed.
    Ignored,
}

/// One round of the lottery: its owner, configuration, whitelist,
/// attendees, prize pool, distribution and whether it has been rolled.
/// Attendees are kept in ascending order of their addresses' bytes.
#[derive(Debug)]
pub struct Round {
    owner: String,
    configs: Configs,
    whitelist: Vec<WhitelistEntry>,
    attendees: Vec<Attendee>,
    prizes: Prizes,
    distribution: Vec<DistributePrize>,
    round_ended: bool,
}

/// What a round holds, as mathematical values.
pub ghost struct RoundView {
    pub owner: Seq<char>,
    pub oracle: Seq<char>,
    pub time_start: u64,
    pub time_end: u64,
    pub whitelist: Seq<(Seq<char>, bool)>,
    pub attendees: Seq<(Seq<char>, Seq<u8>)>,
    pub prizes: Seq<Seq<char>>,
    pub shuffled: bool,
    pub distribution: Seq<(Seq<char>, Seq<char>)>,
    pub ended: bool,
}

impl View for Round {
    type V = RoundView;

    closed spec fn view(&self) -> RoundView {
        RoundView {
            owner: self.owner@,
            oracle: self.configs.nois_proxy@,
            time_start: self.configs.time_start,
            time_end: self.configs.time_end,
            whitelist: whitelist_view(self.whitelist@),
            attendees: attendees_view(self.attendees@),
            prizes: strs(self.prizes.prizes@),
            shuffled: self.prizes.shuffle,
            distribution: distribution_view(self.distribution@),
            ended: self.round_ended,
        }
    }
}

/// No address is listed twice.
pub open spec fn keys_unique(wl: Seq<(Seq<char>, bool)>) -> bool {
    forall|i: int, j: int| 0 <= i < j < wl.len() ==> wl[i].0 != wl[j].0
}

/// Strictly ascending by address bytes, so no address is listed twice.
pub open spec fn sorted_by_address(a: Seq<(Seq<char>, Seq<u8>)>) -> bool {
    forall|i: int, j: int| 0 <= i < j < a.len() ==> addr_lt(a[i].0, a[j].0)
}

pub open spec fn is_whitelisted(wl: Seq<(Seq<char>, bool)>, k: Seq<char>) -> bool {
    exists|i: int| 0 <= i < wl.len() && wl[i].0 == k
}

pub open spec fn has_attended(wl: Seq<(Seq<char>, bool)>, k: Seq<char>) -> bool {
    exists|i: int| 0 <= i < wl.len() && wl[i] == (k, true)
}

pub open spec fn is_attendee(a: Seq<(Seq<char>, Seq<u8>)>, k: Seq<char>) -> bool {
    exists|i: int| 0 <= i < a.len() && a[i].0 == k
}

/// `new` is `old` with the entry of `k` set to `v`: replaced where `k` was
/// there, inserted where it was not.
pub open spec fn upserted(
    old: Seq<(Seq<char>, Seq<u8>)>,
    new: Seq<(Seq<char>, Seq<u8>)>,
    k: Seq<char>,
    v: Seq<u8>,
) -> bool {
    if is_attendee(old, k) {
        exists|i: int| 0 <= i < old.len() && old[i].0 == k && new == old.update(i, (k, v))
    } else {
        exists|p: int| 0 <= p <= old.len() && new == old.insert(p, (k, v))
    }
}

/// Every whitelisted address marked as registered has an attendee entry.
pub open spec fn attended_registered(
    wl: Seq<(Seq<char>, bool)>,
    a: Seq<(Seq<char>, Seq<u8>)>,
) -> bool {
    forall|i: int| 0 <= i < wl.len() && (#[trigger] wl[i]).1 ==> is_attendee(a, wl[i].0)
}

pub proof fn lemma_insert_keeps_attendee(
    a: Seq<(Seq<char>, Seq<u8>)>,
    p: int,
    e: (Seq<char>, Seq<u8>),
    k: Seq<char>,
)
    requires
        0 <= p <= a.len(),
    ensures
        is_attendee(a, k) ==> is_attendee(a.insert(p, e), k),
        is_attendee(a.insert(p, e), e.0),
{
    let n = a.insert(p, e);
    assert(n[p] == e);
    if is_attendee(a, k) {
        let j = choose|j: int| 0 <= j < a.len() && a[j].0 == k;
        if j < p {
            assert(n[j] == a[j]);
        } else {
            assert(n[j + 1] == a[j]);
        }
    }
}

/// The job is a participant's: its id validated as an address equal to
/// itself, and that address is registered.
pub open spec fn participant_job(
    job_id: Seq<char>,
    job_address: Option<String>,
    a: Seq<(Seq<char>, Seq<u8>)>,
) -> bool {
    &&& job_address.is_some()
    &&& job_address.unwrap()@ == job_id
    &&& is_attendee(a, job_id)
}

/// Some entry of the list is an address that did not validate.
pub open spec fn has_invalid(list: Seq<Option<String>>) -> bool {
    exists|j: int| 0 <= j < list.len() && list[j].is_none()
}

/// `k` is one of the validated addresses of the list.
pub open spec fn listed(list: Seq<Option<String>>, k: Seq<char>) -> bool {
    exists|j: int| 0 <= j < list.len() && list[j].is_some() && list[j].unwrap()@ == k
}

pub open spec fn zero_lucky_number() -> Seq<u8> {
    Seq::new(32, |i: int| 0u8)
}

impl RoundView {
    /// The invariant of a round.
    pub open spec fn wf(self) -> bool {
        &&& keys_unique(self.whitelist)
        &&& sorted_by_address(self.attendees)
        &&& recipients_of(self.distribution).no_duplicates()
        &&& attended_registered(self.whitelist, self.attendees)
        &&& !self.ended ==> self.distribution.len() == 0
        &&& self.ended ==> recipients_of(self.distribution) == addresses_of(self.attendees)
    }

    /// `k` has registered this round: marked so on the whitelist, or
    /// holding an attendee entry.
    pub open spec fn registered(self, k: Seq<char>) -> bool {
        has_attended(self.whitelist, k) || is_attendee(self.attendees, k)
    }

    /// A fresh round: nothing listed, no prizes, nothing handed out.
    pub open spec fn configuring(self) -> bool {
        &&& self.whitelist.len() == 0
        &&& self.attendees.len() == 0
        &&& self.prizes.len() == 0
        &&& !self.shuffled
        &&& self.distribution.len() == 0
        &&& !self.ended
    }

    /// The same round under a new configuration, with everything else cleared.
    pub open spec fn reset_to(self, oracle: Seq<char>, start: u64, end: u64) -> RoundView {
        RoundView {
            owner: self.owner,
            oracle: oracle,
            time_start: start,
            time_end: end,
            whitelist: seq![],
            attendees: seq![],
            prizes: seq![],
            shuffled: false,
            distribution: seq![],
            ended: false,
        }
    }
}

fn clone_strings(v: &Vec<String>) -> (r: Vec<String>)
    ensures
        r@ == v@,
{
    let mut r: Vec<String> = Vec::new();
    let mut i: usize = 0;
    while i < v.len()
        invariant
            i <= v@.len(),
            r@ == v@.subrange(0, i as int),
        decreases v@.len() - i,
    {
        r.push(v[i].clone());
        i = i + 1;
        assert(r@ =~= v@.subrange(0, i as int));
    }
    assert(v@.subrange(0, i as int) =~= v@);
    r
}

fn find_whitelisted(wl: &Vec<WhitelistEntry>, k: &String) -> (r: Option<usize>)
    ensures
        match r {
            Some(i) => i < wl@.len() && wl@[i as int].address@ == k@,
            None => !is_whitelisted(whitelist_view(wl@), k@),
        },
{
    let mut i: usize = 0;
    while i < wl.len()
        invariant
            i <= wl@.len(),
            forall|j: int| 0 <= j < i ==> #[trigger] wl@[j].address@ != k@,
        decreases wl@.len() - i,
    {
        if wl[i].address == *k {
            return Some(i);
        }
        i = i + 1;
    }
    None
}

fn find_attendee(att: &Vec<Attendee>, k: &String) -> (r: Option<usize>)
    ensures
        match r {
            Some(i) => i < att@.len() && att@[i as int].address@ == k@,
            None => !is_attendee(attendees_view(att@), k@),
        },
{
    let mut i: usize = 0;
    while i < att.len()
        invariant
            i <= att@.len(),
            forall|j: int| 0 <= j < i ==> #[trigger] att@[j].address@ != k@,
        decreases att@.len() - i,
    {
        if att[i].address == *k {
            return Some(i);
        }
        i = i + 1;
    }
    None
}

fn upsert_attendee(att: &mut Vec<Attendee>, address: String, lucky: [u8; 32])
    requires
        sorted_by_address(attendees_view(old(att)@)),
    ensures
        sorted_by_address(attendees_view(final(att)@)),
        upserted(attendees_view(old(att)@), attendees_view(final(att)@), address@, lucky@),
{
    let ghost ov = attendees_view(att@);
    let ghost k = address@;
    let mut i: usize = 0;
    while i < att.len() && address_less(&att[i].address, &address)
        invariant
            ov == attendees_view(att@),
            k == address@,
            i <= att@.len(),
            sorted_by_address(ov),
            forall|j: int| 0 <= j < i ==> addr_lt(#[trigger] ov[j].0, k),
        decreases att@.len() - i,
    {
        i = i + 1;
    }
    if i < att.len() && att[i].address == address {
        att.set(i, Attendee { address, lucky_number: lucky });
        proof {
            let nv = attendees_view(att@);
            assert(nv =~= ov.update(i as int, (k, lucky@)));
            assert(ov[i as int].0 == k);
        }
    } else {
        proof {
            assert forall|j: int| 0 <= j < ov.len() implies #[trigger] ov[j].0 != k
                && (j >= i ==> addr_lt(k, ov[j].0)) by {
                if j < i {
                    lemma_addr_lt_irreflexive(k);
                } else {
                    lemma_addr_lt_total(ov[i as int].0, k);
                    if j > i {
                        lemma_addr_lt_transitive(k, ov[i as int].0, ov[j].0);
                    }
                    lemma_addr_lt_irreflexive(k);
                }
            }
        }
        att.insert(i, Attendee { address, lucky_number: lucky });
        proof {
            let nv = attendees_view(att@);
            assert(nv =~= ov.insert(i as int, (k, lucky@)));
            assert forall|a: int, b: int| 0 <= a < b < nv.len() implies addr_lt(
                nv[a].0,
                nv[b].0,
            ) by {
                if b < i {
                } else if b == i {
                } else if a < i {
                    assert(nv[b] == ov[b - 1]);
                    lemma_addr_lt_transitive(nv[a].0, k, nv[b].0);
                } else if a == i {
                    assert(nv[b] == ov[b - 1]);
                } else {
                    assert(nv[a] == ov[a - 1]);
                    assert(nv[b] == ov[b - 1]);
                }
            }
        }
    }
}

fn seed_of(bytes: &Vec<u8>) -> (r: [u8; 32])
    requires
        bytes@.len() == 32,
    ensures
        r@ == bytes@,
{
    let mut seed: [u8; 32] = [0u8; 32];
    let mut i: usize = 0;
    while i < 32
        invariant
            i <= 32,
            bytes@.len() == 32,
            forall|j: int| 0 <= j < i ==> seed@[j] == bytes@[j],
        decreases 32 - i,
    {
        seed[i] = bytes[i];
        i = i + 1;
    }
    assert(seed@ =~= bytes@);
    seed
}

fn whitelist_unique(wl: &Vec<WhitelistEntry>) -> (r: bool)
    ensures
        r == keys_unique(whitelist_view(wl@)),
{
    let ghost v = whitelist_view(wl@);
    let mut i: usize = 0;
    while i < wl.len()
        invariant
            v == whitelist_view(wl@),
            i <= wl@.len(),
            forall|a: int, b: int| 0 <= a < i && a < b < v.len() ==> v[a].0 != v[b].0,
        decreases wl@.len() - i,
    {
        let mut j: usize = i + 1;
        while j < wl.len()
            invariant
                v == whitelist_view(wl@),
                i < j <= wl@.len() || (j == i + 1 && i < wl@.len()),
                forall|a: int, b: int| 0 <= a < i && a < b < v.len() ==> v[a].0 != v[b].0,
                forall|b: int| i < b < j ==> v[i as int].0 != #[trigger] v[b].0,
            decreases wl@.len() - j,
        {
            if wl[i].address == wl[j].address {
                assert(v[i as int].0 == v[j as int].0);
                return false;
            }
            j = j + 1;
        }
        i = i + 1;
    }
    true
}

fn attendees_sorted(att: &Vec<Attendee>) -> (r: bool)
    ensures
        r == sorted_by_address(attendees_view(att@)),
{
    let ghost v = attendees_view(att@);
    let mut i: usize = 0;
    while i < att.len()
        invariant
            v == attendees_view(att@),
            i <= att@.len(),
            forall|a: int, b: int| 0 <= a < i && a < b < v.len() ==> addr_lt(v[a].0, v[b].0),
        decreases att@.len() - i,
    {
        let mut j: usize = i + 1;
        while j < att.len()
            invariant
                v == attendees_view(att@),
                i < att@.len(),
                i < j <= att@.len() || j == i + 1,
                forall|a: int, b: int| 0 <= a < i && a < b < v.len() ==> addr_lt(v[a].0, v[b].0),
                forall|b: int| i < b < j ==> addr_lt(v[i as int].0, #[trigger] v[b].0),
            decreases att@.len() - j,
        {
            if !address_less(&att[i].address, &att[j].address) {
                assert(!addr_lt(v[i as int].0, v[j as int].0));
                return false;
            }
            j = j + 1;
        }
        i = i + 1;
    }
    true
}

fn attended_all_registered(wl: &Vec<WhitelistEntry>, att: &Vec<Attendee>) -> (r: bool)
    ensures
        r == attended_registered(whitelist_view(wl@), attendees_view(att@)),
{
    let ghost wv = whitelist_view(wl@);
    let ghost av = attendees_view(att@);
    let mut i: usize = 0;
    while i < wl.len()
        invariant
            wv == whitelist_view(wl@),
            av == attendees_view(att@),
            i <= wl@.len(),
            forall|j: int| 0 <= j < i && (#[trigger] wv[j]).1 ==> is_attendee(av, wv[j].0),
        decreases wl@.len() - i,
    {
        if wl[i].status.attended {
            match find_attendee(att, &wl[i].address) {
                Some(k) => {
                    assert(av[k as int].0 == wv[i as int].0);
                },
                None => {
                    assert(wv[i as int].1 && !is_attendee(av, wv[i as int].0));
                    return false;
                },
            }
        }
        i = i + 1;
    }
    true
}

fn recipients_match(d: &Vec<DistributePrize>, att: &Vec<Attendee>) -> (r: bool)
    ensures
        r == (recipients_of(distribution_view(d@)) == addresses_of(attendees_view(att@))),
{
    let ghost rv = recipients_of(distribution_view(d@));
    let ghost names = addresses_of(attendees_view(att@));
    if d.len() != att.len() {
        assert(rv.len() != names.len());
        return false;
    }
    let mut i: usize = 0;
    while i < d.len()
        invariant
            rv == recipients_of(distribution_view(d@)),
            names == addresses_of(attendees_view(att@)),
            d@.len() == att@.len(),
            i <= d@.len(),
            forall|j: int| 0 <= j < i ==> rv[j] == names[j],
        decreases d@.len() - i,
    {
        if d[i].address != att[i].address {
            assert(rv[i as int] != names[i as int]);
            return false;
        }
        i = i + 1;
    }
    assert(rv =~= names);
    true
}

fn recipients_unique(d: &Vec<DistributePrize>) -> (r: bool)
    ensures
        r == recipients_of(distribution_view(d@)).no_duplicates(),
{
    let ghost v = recipients_of(distribution_view(d@));
    let mut i: usize = 0;
    while i < d.len()
        invariant
            v == recipients_of(distribution_view(d@)),
            i <= d@.len(),
            forall|a: int, b: int| 0 <= a < i && a < b < v.len() ==> v[a] != v[b],
        decreases d@.len() - i,
    {
        let mut j: usize = i + 1;
        while j < d.len()
            invariant
                v == recipients_of(distribution_view(d@)),
                i < d@.len(),
                i < j <= d@.len() || j == i + 1,
                forall|a: int, b: int| 0 <= a < i && a < b < v.len() ==> v[a] != v[b],
                forall|b: int| i < b < j ==> v[i as int] != #[trigger] v[b],
            decreases d@.len() - j,
        {
            if d[i].address == d[j].address {
                assert(v[i as int] == v[j as int]);
                return false;
            }
            j = j + 1;
        }
        i = i + 1;
    }
    true
}

impl Round {
    /// Starts a round owned by `sender`. `nois_proxy` is the oracle address
    /// once validated, none where it did not validate.
    pub fn instantiate(
        sender: String,
        nois_proxy: Option<String>,
        time_start: String,
        time_end: String,
    ) -> (r: Result<Round, ContractError>)
        ensures
            nois_proxy.is_none() ==> r == Err::<Round, ContractError>(
                ContractError::InvalidProxyAddress,
            ),
            nois_proxy.is_some() && (timestamp_of_text(time_start@).is_none()
                || timestamp_of_text(time_end@).is_none()) ==> r == Err::<Round, ContractError>(
                ContractError::InvalidDateTime,
            ),
            nois_proxy.is_some() && timestamp_of_text(time_start@).is_some()
                && timestamp_of_text(time_end@).is_some() ==> r.is_ok(),
            r.is_ok() ==> r.unwrap()@ == (RoundView {
                owner: sender@,
                oracle: nois_proxy.unwrap()@,
                time_start: timestamp_of_text(time_start@).unwrap(),
                time_end: timestamp_of_text(time_end@).unwrap(),
                whitelist: seq![],
                attendees: seq![],
                prizes: seq![],
                shuffled: false,
                distribution: seq![],
                ended: false,
            }),
            r.is_ok() ==> r.unwrap()@.wf() && r.unwrap()@.configuring(),
    {
        let oracle = match nois_proxy {
            Some(a) => a,
            None => return Err(ContractError::InvalidProxyAddress),
        };
        let start = match convert_datetime_string(time_start) {
            Some(t) => t,
            None => return Err(ContractError::InvalidDateTime),
        };
        let end = match convert_datetime_string(time_end) {
            Some(t) => t,
            None => return Err(ContractError::InvalidDateTime),
        };
        let round = Round {
            owner: sender,
            configs: Configs { nois_proxy: oracle, time_start: start, time_end: end },
            whitelist: Vec::new(),
            attendees: Vec::new(),
            prizes: Prizes { shuffle: false, prizes: Vec::new() },
            distribution: Vec::new(),
            round_ended: false,
        };
        proof {
            assert(round@.whitelist =~= seq![]);
            assert(round@.attendees =~= seq![]);
            assert(round@.prizes =~= seq![]);
            assert(round@.distribution =~= seq![]);
        }
        Ok(round)
    }

    /// Clears the round and configures it anew. Owner only; allowed in any
    /// state.
    pub fn execute_reset(
        &mut self,
        sender: &String,
        nois_proxy: Option<String>,
        time_start: String,
        time_end: String,
    ) -> (r: Result<(), ContractError>)
        requires
            old(self)@.wf(),
        ensures
            final(self)@.wf(),
            sender@ != old(self)@.owner ==> r == Err::<(), ContractError>(
                ContractError::Unauthorized,
            ),
            sender@ == old(self)@.owner && nois_proxy.is_none() ==> r == Err::<(), ContractError>(
                ContractError::InvalidProxyAddress,
            ),
            sender@ == old(self)@.owner && nois_proxy.is_some() && (timestamp_of_text(
                time_start@,
            ).is_none() || timestamp_of_text(time_end@).is_none()) ==> r == Err::<
                (),
                ContractError,
            >(ContractError::InvalidDateTime),
            r.is_err() ==> final(self)@ == old(self)@,
            sender@ == old(self)@.owner && nois_proxy.is_some() && timestamp_of_text(
                time_start@,
            ).is_some() && timestamp_of_text(time_end@).is_some() ==> r.is_ok(),
            r.is_ok() ==> final(self)@ == old(self)@.reset_to(
                nois_proxy.unwrap()@,
                timestamp_of_text(time_start@).unwrap(),
                timestamp_of_text(time_end@).unwrap(),
            ),
    {
        if *sender != self.owner {
            return Err(ContractError::Unauthorized);
        }
        let oracle = match nois_proxy {
            Some(a) => a,
            None => return Err(ContractError::InvalidProxyAddress),
        };
        let start = match convert_datetime_string(time_start) {
            Some(t) => t,
            None => return Err(ContractError::InvalidDateTime),
        };
        let end = match convert_datetime_string(time_end) {
            Some(t) => t,
            None => return Err(ContractError::InvalidDateTime),
        };
        self.configs = Configs { nois_proxy: oracle, time_start: start, time_end: end };
        self.whitelist = Vec::new();
        self.attendees = Vec::new();
        self.prizes = Prizes { shuffle: false, prizes: Vec::new() };
        self.distribution = Vec::new();
        self.round_ended = false;
        proof {
            assert(self@.whitelist =~= seq![]);
            assert(self@.attendees =~= seq![]);
            assert(self@.prizes =~= seq![]);
            assert(self@.distribution =~= seq![]);
        }
        Ok(())
    }

    /// Replaces the prize pool, unshuffled, and asks the oracle for the
    /// randomness that will shuffle it. Owner only; refused once rolled.
    pub fn execute_set_prizes(&mut self, sender: &String, prizes: Vec<String>) -> (r: Result<
        RandomnessRequest,
        ContractError,
    >)
        requires
            old(self)@.wf(),
        ensures
            final(self)@.wf(),
            sender@ != old(self)@.owner ==> r == Err::<RandomnessRequest, ContractError>(
                ContractError::Unauthorized,
            ),
            sender@ == old(self)@.owner && old(self)@.ended ==> r == Err::<
                RandomnessRequest,
                ContractError,
            >(ContractError::RoundEnd),
            r.is_err() ==> final(self)@ == old(self)@,
            sender@ == old(self)@.owner && !old(self)@.ended ==> r.is_ok(),
            r.is_ok() ==> final(self)@ == (RoundView {
                prizes: strs(prizes@),
                shuffled: false,
                ..old(self)@
            }),
            r.is_ok() ==> r.unwrap().oracle@ == old(self)@.oracle && r.unwrap().job_id@
                == PRIZES_JOB@,
    {
        if *sender != self.owner {
            return Err(ContractError::Unauthorized);
        }
        if self.round_ended {
            return Err(ContractError::RoundEnd);
        }
        self.prizes = Prizes { shuffle: false, prizes };
        Ok(RandomnessRequest {
            oracle: self.configs.nois_proxy.clone(),
            job_id: PRIZES_JOB.to_string(),
        })
    }

    /// Replaces the whitelist with the addresses given. An address that has
    /// already registered this round stays marked as registered; the others
    /// are not. An entry that is none stands for an address that did not
    /// validate, and refuses the whole call. Owner only; refused once rolled.
    pub fn execute_set_whitelist(&mut self, sender: &String, attendees: Vec<Option<String>>) -> (r:
        Result<(), ContractError>)
        requires
            old(self)@.wf(),
        ensures
            final(self)@.wf(),
            sender@ != old(self)@.owner ==> r == Err::<(), ContractError>(
                ContractError::Unauthorized,
            ),
            sender@ == old(self)@.owner && old(self)@.ended ==> r == Err::<(), ContractError>(
                ContractError::RoundEnd,
            ),
            sender@ == old(self)@.owner && !old(self)@.ended && has_invalid(attendees@) ==> r
                == Err::<(), ContractError>(ContractError::InvalidAddress),
            r.is_err() ==> final(self)@ == old(self)@,
            sender@ == old(self)@.owner && !old(self)@.ended && !has_invalid(attendees@)
                ==> r.is_ok(),
            r.is_ok() ==> final(self)@ == (RoundView {
                whitelist: final(self)@.whitelist,
                ..old(self)@
            }),
            r.is_ok() ==> forall|k: Seq<char>|
                is_whitelisted(final(self)@.whitelist, k) <==> listed(attendees@, k),
            r.is_ok() ==> forall|i: int|
                0 <= i < final(self)@.whitelist.len() ==> (#[trigger] final(self)@.whitelist[i]).1
                    == is_attendee(old(self)@.attendees, final(self)@.whitelist[i].0),
    {
        if *sender != self.owner {
            return Err(ContractError::Unauthorized);
        }
        if self.round_ended {
            return Err(ContractError::RoundEnd);
        }
        let mut wl: Vec<WhitelistEntry> = Vec::new();
        let mut i: usize = 0;
        while i < attendees.len()
            invariant
                i <= attendees@.len(),
                self@ == old(self)@,
                old(self)@.wf(),
                sender@ == old(self)@.owner,
                !old(self)@.ended,
                keys_unique(whitelist_view(wl@)),
                forall|j: int| 0 <= j < i ==> (#[trigger] attendees@[j]).is_some(),
                forall|k: Seq<char>|
                    is_whitelisted(whitelist_view(wl@), k) <==> listed(
                        attendees@.subrange(0, i as int),
                        k,
                    ),
                forall|j: int|
                    0 <= j < wl@.len() ==> (#[trigger] wl@[j]).status.attended == is_attendee(
                        self@.attendees,
                        wl@[j].address@,
                    ),
            decreases attendees@.len() - i,
        {
            let ghost sub = attendees@.subrange(0, i as int);
            let ghost next = attendees@.subrange(0, i + 1);
            assert(next =~= sub.push(attendees@[i as int]));
            match &attendees[i] {
                None => {
                    assert(has_invalid(attendees@));
                    return Err(ContractError::InvalidAddress);
                },
                Some(a) => {
                    let ghost before = whitelist_view(wl@);
                    let found = find_whitelisted(&wl, a);
                    if found.is_none() {
                        let found_att = find_attendee(&self.attendees, a);
                        let registered = found_att.is_some();
                        proof {
                            if let Some(k) = found_att {
                                assert(self@.attendees[k as int].0 == a@);
                            }
                        }
                        let ghost old_wl = wl@;
                        wl.push(WhitelistEntry { address: a.clone(), status: Status { attended: registered } });
                        assert(whitelist_view(wl@) =~= before.push((a@, registered)));
                        assert forall|j: int| 0 <= j < wl@.len() implies (#[trigger] wl@[j]).status.attended
                            == is_attendee(self@.attendees, wl@[j].address@) by {
                            if j < old_wl.len() {
                                assert(wl@[j] == old_wl[j]);
                            }
                        }
                    }
                    let ghost after = whitelist_view(wl@);
                    proof {
                        assert(next[i as int] == Some(*a));
                        assert(is_whitelisted(after, a@)) by {
                            match found {
                                Some(idx) => {
                                    assert(after[idx as int].0 == a@);
                                },
                                None => {
                                    assert(after[before.len() as int].0 == a@);
                                },
                            }
                        }
                        assert(listed(next, a@));
                    }
                    assert forall|k: Seq<char>|
                        is_whitelisted(after, k) <==> listed(next, k) by {
                        assert(is_whitelisted(before, k) <==> listed(sub, k));
                        if k != a@ {
                            if listed(next, k) {
                                let j = choose|j: int|
                                    0 <= j < next.len() && next[j].is_some() && next[j].unwrap()@ == k;
                                assert(j < i);
                                assert(sub[j] == next[j]);
                                assert(listed(sub, k));
                                let w = choose|w: int| 0 <= w < before.len() && before[w].0 == k;
                                if found.is_none() {
                                    assert(after[w] == before[w]);
                                }
                            }
                            if is_whitelisted(after, k) {
                                let w = choose|w: int| 0 <= w < after.len() && after[w].0 == k;
                                if found.is_none() {
                                    assert(w < before.len());
                                }
                                assert(before[w] == after[w]);
                                assert(is_whitelisted(before, k));
                                let j = choose|j: int|
                                    0 <= j < sub.len() && sub[j].is_some() && sub[j].unwrap()@ == k;
                                assert(next[j] == sub[j]);
                            }
                        }
                    }
                },
            }
            i = i + 1;
        }
        proof {
            assert(attendees@.subrange(0, i as int) =~= attendees@);
            if has_invalid(attendees@) {
                let j = choose|j: int| 0 <= j < attendees@.len() && attendees@[j].is_none();
            }
        }
        self.whitelist = wl;
        Ok(())
    }

    /// Closes the round and hands out the prizes: each attendee, in ascending
    /// address order, reshuffles the remaining pool with its lucky number and
    /// takes the last prize. Owner only; refused once rolled, before the end
    /// of the window, before the pool is shuffled, and where there are more
    /// attendees than prizes.
    pub fn execute_roll(&mut self, sender: &String, now: u64) -> (r: Result<(), ContractError>)
        requires
            old(self)@.wf(),
        ensures
            final(self)@.wf(),
            sender@ != old(self)@.owner ==> r == Err::<(), ContractError>(
                ContractError::Unauthorized,
            ),
            sender@ == old(self)@.owner && old(self)@.ended ==> r == Err::<(), ContractError>(
                ContractError::RoundEnd,
            ),
            sender@ == old(self)@.owner && !old(self)@.ended && now <= old(self)@.time_end ==> r
                == Err::<(), ContractError>(ContractError::GameNotEnded),
            sender@ == old(self)@.owner && !old(self)@.ended && now > old(self)@.time_end
                && !old(self)@.shuffled ==> r == Err::<(), ContractError>(
                ContractError::PrizesNotShuffled,
            ),
            sender@ == old(self)@.owner && !old(self)@.ended && now > old(self)@.time_end
                && old(self)@.shuffled && old(self)@.attendees.len() > old(self)@.prizes.len()
                ==> r == Err::<(), ContractError>(ContractError::InsufficientPrize),
            r.is_err() ==> final(self)@ == old(self)@,
            sender@ == old(self)@.owner && !old(self)@.ended && now > old(self)@.time_end
                && old(self)@.shuffled && old(self)@.attendees.len() <= old(self)@.prizes.len()
                ==> r.is_ok(),
            r.is_ok() ==> final(self)@ == (RoundView {
                distribution: distribution_of(old(self)@.prizes, old(self)@.attendees),
                ended: true,
                ..old(self)@
            }),
            r.is_ok() ==> recipients_of(final(self)@.distribution) == addresses_of(
                old(self)@.attendees,
            ),
            r.is_ok() ==> prizes_of(final(self)@.distribution).to_multiset().subset_of(
                old(self)@.prizes.to_multiset(),
            ),
    {
        if *sender != self.owner {
            return Err(ContractError::Unauthorized);
        }
        if self.round_ended {
            return Err(ContractError::RoundEnd);
        }
        if now <= self.configs.time_end {
            return Err(ContractError::GameNotEnded);
        }
        if !self.prizes.shuffle {
            return Err(ContractError::PrizesNotShuffled);
        }
        if self.attendees.len() > self.prizes.prizes.len() {
            return Err(ContractError::InsufficientPrize);
        }
        let pool = clone_strings(&self.prizes.prizes);
        let dist = distribute(pool, &self.attendees);
        proof {
            let av = attendees_view(self.attendees@);
            let names = addresses_of(av);
            assert forall|a: int, b: int| 0 <= a < names.len() && 0 <= b < names.len() && a != b
                implies names[a] != names[b] by {
                lemma_addr_lt_irreflexive(av[a].0);
            }
        }
        self.distribution = dist;
        self.round_ended = true;
        Ok(())
    }

    /// Registers `sender` for the round at time `now`: records it with an
    /// all-zero lucky number, marks it as registered on the whitelist, and
    /// asks the oracle for randomness under the sender's address as job id.
    /// Refused once rolled, off the whitelist, on a second registration in
    /// the round (even after the whitelist was set again), and outside the
    /// window.
    pub fn execute_lucky_number(&mut self, sender: &String, now: u64) -> (r: Result<
        RandomnessRequest,
        ContractError,
    >)
        requires
            old(self)@.wf(),
        ensures
            final(self)@.wf(),
            old(self)@.ended ==> r == Err::<RandomnessRequest, ContractError>(
                ContractError::RoundEnd,
            ),
            !old(self)@.ended && !is_whitelisted(old(self)@.whitelist, sender@) ==> r == Err::<
                RandomnessRequest,
                ContractError,
            >(ContractError::DeniedAction),
            !old(self)@.ended && is_whitelisted(old(self)@.whitelist, sender@)
                && old(self)@.registered(sender@) ==> r == Err::<RandomnessRequest, ContractError>(
                ContractError::OnlyOnce,
            ),
            !old(self)@.ended && is_whitelisted(old(self)@.whitelist, sender@)
                && !old(self)@.registered(sender@) && now < old(self)@.time_start ==> r == Err::<RandomnessRequest, ContractError>(
                ContractError::GameNotStarted,
            ),
            !old(self)@.ended && is_whitelisted(old(self)@.whitelist, sender@)
                && !old(self)@.registered(sender@) && now >= old(self)@.time_start && now > old(self)@.time_end ==> r == Err::<
                RandomnessRequest,
                ContractError,
            >(ContractError::GameHasEnded),
            r.is_err() ==> final(self)@ == old(self)@,
            !old(self)@.ended && is_whitelisted(old(self)@.whitelist, sender@)
                && !old(self)@.registered(sender@) && old(self)@.time_start <= now <= old(self)@.time_end ==> r.is_ok(),
            r.is_ok() ==> final(self)@ == (RoundView {
                whitelist: final(self)@.whitelist,
                attendees: final(self)@.attendees,
                ..old(self)@
            }),
            r.is_ok() ==> exists|i: int|
                0 <= i < old(self)@.whitelist.len() && old(self)@.whitelist[i] == (sender@, false)
                    && final(self)@.whitelist == old(self)@.whitelist.update(i, (sender@, true)),
            r.is_ok() ==> exists|p: int|
                0 <= p <= old(self)@.attendees.len() && final(self)@.attendees == old(
                    self,
                )@.attendees.insert(p, (sender@, zero_lucky_number())),
            r.is_ok() ==> r.unwrap().oracle@ == old(self)@.oracle && r.unwrap().job_id@ == sender@,
    {
        if self.round_ended {
            return Err(ContractError::RoundEnd);
        }
        let idx = match find_whitelisted(&self.whitelist, sender) {
            Some(i) => i,
            None => return Err(ContractError::DeniedAction),
        };
        let ghost wl = self@.whitelist;
        proof {
            assert(wl[idx as int].0 == sender@);
            assert(has_attended(wl, sender@) <==> wl[idx as int].1) by {
                if has_attended(wl, sender@) {
                    let j = choose|j: int| 0 <= j < wl.len() && wl[j] == (sender@, true);
                    assert(j == idx);
                }
            }
        }
        if self.whitelist[idx].status.attended {
            return Err(ContractError::OnlyOnce);
        }
        if let Some(k) = find_attendee(&self.attendees, sender) {
            assert(self@.attendees[k as int].0 == sender@);
            return Err(ContractError::OnlyOnce);
        }
        if now < self.configs.time_start {
            return Err(ContractError::GameNotStarted);
        }
        if now > self.configs.time_end {
            return Err(ContractError::GameHasEnded);
        }
        let zero: [u8; 32] = vstd::array::array_fill_for_copy_types(0u8);
        assert(zero@ =~= zero_lucky_number());
        let ghost old_att = self@.attendees;
        upsert_attendee(&mut self.attendees, sender.clone(), zero);
        let entry = WhitelistEntry { address: sender.clone(), status: Status { attended: true } };
        self.whitelist.set(idx, entry);
        proof {
            assert(self@.whitelist =~= wl.update(idx as int, (sender@, true)));
            assert(wl[idx as int] == (sender@, false));
            let p = choose|p: int|
                0 <= p <= old_att.len() && self@.attendees == old_att.insert(p, (sender@, zero@));
            let nw = self@.whitelist;
            assert forall|i: int| 0 <= i < nw.len() && (#[trigger] nw[i]).1 implies is_attendee(
                self@.attendees,
                nw[i].0,
            ) by {
                lemma_insert_keeps_attendee(old_att, p, (sender@, zero@), nw[i].0);
                if i != idx {
                    assert(nw[i] == wl[i]);
                }
            }
        }
        Ok(RandomnessRequest { oracle: self.configs.nois_proxy.clone(), job_id: sender.clone() })
    }

    /// Takes the oracle's answer for `job_id`. `job_address` is the job id
    /// validated as an address, none where it did not validate; a job whose
    /// validated address differs from the job id is not a participant's. The
    /// prize job shuffles the pool and marks it shuffled; the job of a
    /// registered attendee sets its lucky number from the randomness; any
    /// other job is accepted and changes nothing. A repeated answer for an attendee
    /// overwrites the lucky number again. Refused from any sender but the
    /// oracle, once rolled, and where the randomness is not 32 bytes.
    pub fn execute_receive(
        &mut self,
        sender: &String,
        job_id: String,
        job_address: Option<String>,
        randomness: Vec<u8>,
    ) -> (r: Result<Received, ContractError>)
        requires
            old(self)@.wf(),
        ensures
            final(self)@.wf(),
            sender@ != old(self)@.oracle ==> r == Err::<Received, ContractError>(
                ContractError::UnauthorizedReceive,
            ),
            sender@ == old(self)@.oracle && old(self)@.ended ==> r == Err::<Received, ContractError>(
                ContractError::RoundEnd,
            ),
            sender@ == old(self)@.oracle && !old(self)@.ended && randomness@.len() != 32 ==> r
                == Err::<Received, ContractError>(ContractError::InvalidRandomness),
            r.is_err() ==> final(self)@ == old(self)@,
            sender@ == old(self)@.oracle && !old(self)@.ended && randomness@.len() == 32
                ==> r.is_ok(),
            r.is_ok() && job_id@ == PRIZES_JOB@ ==> r == Ok::<Received, ContractError>(
                Received::PrizesShuffled,
            ),
            r.is_ok() && job_id@ == PRIZES_JOB@ ==> final(self)@ == (RoundView {
                prizes: shuffle_of(randomness@, old(self)@.prizes),
                shuffled: true,
                ..old(self)@
            }),
            r.is_ok() && job_id@ != PRIZES_JOB@ && !participant_job(
                job_id@,
                job_address,
                old(self)@.attendees,
            ) ==> r == Ok::<Received, ContractError>(Received::Ignored) && final(self)@ == old(
                self,
            )@,
            r.is_ok() && job_id@ != PRIZES_JOB@ && participant_job(
                job_id@,
                job_address,
                old(self)@.attendees,
            ) ==> r == Ok::<Received, ContractError>(Received::LuckyNumberSet) && final(self)@
                == (RoundView { attendees: final(self)@.attendees, ..old(self)@ }),
            r.is_ok() && job_id@ != PRIZES_JOB@ && participant_job(
                job_id@,
                job_address,
                old(self)@.attendees,
            ) ==> exists|i: int|
                0 <= i < old(self)@.attendees.len() && old(self)@.attendees[i].0 == job_id@
                    && final(self)@.attendees == old(self)@.attendees.update(
                    i,
                    (job_id@, lucky_number_of(job_id@, randomness@)),
                ),
    {
        if *sender != self.configs.nois_proxy {
            return Err(ContractError::UnauthorizedReceive);
        }
        if self.round_ended {
            return Err(ContractError::RoundEnd);
        }
        if randomness.len() != 32 {
            return Err(ContractError::InvalidRandomness);
        }
        let seed = seed_of(&randomness);
        let prizes_job = PRIZES_JOB.to_string();
        if job_id == prizes_job {
            let pool = clone_strings(&self.prizes.prizes);
            let shuffled = shuffle(seed, pool);
            self.prizes = Prizes { shuffle: true, prizes: shuffled };
            return Ok(Received::PrizesShuffled);
        }
        let address = match job_address {
            Some(a) => a,
            None => return Ok(Received::Ignored),
        };
        if address != job_id {
            return Ok(Received::Ignored);
        }
        let idx = match find_attendee(&self.attendees, &address) {
            Some(i) => i,
            None => return Ok(Received::Ignored),
        };
        let ghost av = self@.attendees;
        let lucky = generate_lucky_number(&address, seed);
        self.attendees.set(idx, Attendee { address, lucky_number: lucky });
        proof {
            assert(self@.attendees =~= av.update(
                idx as int,
                (av[idx as int].0, lucky_number_of(av[idx as int].0, randomness@)),
            ));
            assert forall|a: int, b: int| 0 <= a < b < self@.attendees.len() implies addr_lt(
                self@.attendees[a].0,
                self@.attendees[b].0,
            ) by {
                assert(self@.attendees[a].0 == av[a].0);
                assert(self@.attendees[b].0 == av[b].0);
            }
            let wl = self@.whitelist;
            assert forall|i: int| 0 <= i < wl.len() && (#[trigger] wl[i]).1 implies is_attendee(
                self@.attendees,
                wl[i].0,
            ) by {
                let j = choose|j: int| 0 <= j < av.len() && av[j].0 == wl[i].0;
                assert(self@.attendees[j].0 == av[j].0);
            }
        }
        Ok(Received::LuckyNumberSet)
    }

    /// The prize pool as it stands.
    pub fn query_get_prizes(&self) -> (r: PrizesQuery)
        ensures
            strs(r.prizes@) == self@.prizes,
    {
        PrizesQuery { prizes: clone_strings(&self.prizes.prizes) }
    }

    /// The prizes handed out by the roll; empty before it.
    pub fn query_get_distribute_prizes(&self) -> (r: DistributePrizesQuery)
        ensures
            distribution_view(r.prizes@) == self@.distribution,
    {
        let mut out: Vec<DistributePrize> = Vec::new();
        let mut i: usize = 0;
        while i < self.distribution.len()
            invariant
                i <= self.distribution@.len(),
                out@.len() == i,
                forall|j: int| 0 <= j < i ==> (#[trigger] out@[j]).view_pair() == self.distribution@[j].view_pair(),
            decreases self.distribution@.len() - i,
        {
            out.push(clone_distribute_prize(&self.distribution[i]));
            i = i + 1;
        }
        assert(distribution_view(out@) =~= distribution_view(self.distribution@));
        DistributePrizesQuery { prizes: out }
    }

    /// Every attendee with its lucky number, in ascending address order.
    pub fn query_get_attendees(&self) -> (r: AttendeeQuery)
        ensures
            attendees_view(r.attendees@) == self@.attendees,
    {
        let mut out: Vec<Attendee> = Vec::new();
        let mut i: usize = 0;
        while i < self.attendees.len()
            invariant
                i <= self.attendees@.len(),
                out@.len() == i,
                forall|j: int| 0 <= j < i ==> (#[trigger] out@[j]).view_pair() == self.attendees@[j].view_pair(),
            decreases self.attendees@.len() - i,
        {
            out.push(clone_attendee(&self.attendees[i]));
            i = i + 1;
        }
        assert(attendees_view(out@) =~= attendees_view(self.attendees@));
        AttendeeQuery { attendees: out }
    }

    /// The whitelist status of an address; none where it is not whitelisted.
    pub fn status_of(&self, address: &String) -> (r: Option<Status>)
        requires
            self@.wf(),
        ensures
            r.is_none() <==> !is_whitelisted(self@.whitelist, address@),
            r.is_some() ==> (r.unwrap().attended <==> has_attended(self@.whitelist, address@)),
    {
        match find_whitelisted(&self.whitelist, address) {
            Some(i) => {
                proof {
                    let wl = self@.whitelist;
                    assert(wl[i as int].0 == address@);
                    if has_attended(wl, address@) {
                        let j = choose|j: int| 0 <= j < wl.len() && wl[j] == (address@, true);
                        assert(j == i);
                    }
                }
                Some(self.whitelist[i].status)
            },
            None => None,
        }
    }

    /// The oracle address and the window of the round.
    pub fn query_configs(&self) -> (r: Configs)
        ensures
            r.nois_proxy@ == self@.oracle,
            r.time_start == self@.time_start,
            r.time_end == self@.time_end,
    {
        Configs {
            nois_proxy: self.configs.nois_proxy.clone(),
            time_start: self.configs.time_start,
            time_end: self.configs.time_end,
        }
    }

    /// Whether the round has been rolled.
    pub fn is_ended(&self) -> (r: bool)
        ensures
            r == self@.ended,
    {
        self.round_ended
    }

    /// Whether the oracle has shuffled the prize pool.
    pub fn is_shuffled(&self) -> (r: bool)
        ensures
            r == self@.shuffled,
    {
        self.prizes.shuffle
    }

    /// The owner of the round.
    pub fn query_owner(&self) -> (r: String)
        ensures
            r@ == self@.owner,
    {
        self.owner.clone()
    }

    /// The whitelist with each address's status.
    pub fn query_whitelist(&self) -> (r: Vec<WhitelistEntry>)
        ensures
            whitelist_view(r@) == self@.whitelist,
    {
        let mut out: Vec<WhitelistEntry> = Vec::new();
        let mut i: usize = 0;
        while i < self.whitelist.len()
            invariant
                i <= self.whitelist@.len(),
                out@.len() == i,
                forall|j: int| 0 <= j < i ==> (#[trigger] out@[j]).view_pair() == self.whitelist@[j].view_pair(),
            decreases self.whitelist@.len() - i,
        {
            let e = &self.whitelist[i];
            out.push(WhitelistEntry { address: e.address.clone(), status: e.status });
            i = i + 1;
        }
        assert(whitelist_view(out@) =~= whitelist_view(self.whitelist@));
        out
    }

    /// Rebuilds a round from what its queries return; none where the parts
    /// break the round's invariant (an address whitelisted twice, attendees
    /// out of address order, a recipient listed twice, an address marked as
    /// registered without an attendee entry, a distribution before the roll,
    /// or one that does not follow the attendees after it).
    pub fn from_parts(
        owner: String,
        configs: Configs,
        whitelist: Vec<WhitelistEntry>,
        attendees: Vec<Attendee>,
        prizes: Prizes,
        distribution: Vec<DistributePrize>,
        round_ended: bool,
    ) -> (r: Option<Round>)
        ensures
            r.is_some() <==> (RoundView {
                owner: owner@,
                oracle: configs.nois_proxy@,
                time_start: configs.time_start,
                time_end: configs.time_end,
                whitelist: whitelist_view(whitelist@),
                attendees: attendees_view(attendees@),
                prizes: strs(prizes.prizes@),
                shuffled: prizes.shuffle,
                distribution: distribution_view(distribution@),
                ended: round_ended,
            }).wf(),
            r.is_some() ==> r.unwrap()@ == (RoundView {
                owner: owner@,
                oracle: configs.nois_proxy@,
                time_start: configs.time_start,
                time_end: configs.time_end,
                whitelist: whitelist_view(whitelist@),
                attendees: attendees_view(attendees@),
                prizes: strs(prizes.prizes@),
                shuffled: prizes.shuffle,
                distribution: distribution_view(distribution@),
                ended: round_ended,
            }),
    {
        if !whitelist_unique(&whitelist) || !attendees_sorted(&attendees) || !recipients_unique(
            &distribution,
        ) || !attended_all_registered(&whitelist, &attendees) {
            return None;
        }
        if round_ended {
            if !recipients_match(&distribution, &attendees) {
                return None;
            }
        } else if distribution.len() != 0 {
            return None;
        }
        Some(Round { owner, configs, whitelist, attendees, prizes, distribution, round_ended })
    }
}

/// A reset leaves a fresh round, whatever the round held before: nothing
/// whitelisted, no attendee, no prizes, nothing shuffled or handed out, and
/// not rolled.
pub proof fn lemma_reset_configuring(v: RoundView, oracle: Seq<char>, start: u64, end: u64)
    ensures
        v.reset_to(oracle, start, end).configuring(),
        v.reset_to(oracle, start, end).wf(),
        v.reset_to(oracle, start, end).owner == v.owner,
{
    assert(recipients_of(v.reset_to(oracle, start, end).distribution) =~= seq![]);
}

/// After a registration the address counts as registered for the rest of
/// the round, whatever whitelist is set afterwards: its attendee entry
/// stays, so a second registration is refused as a repeat.
pub proof fn lemma_registered_once(
    before: RoundView,
    after: RoundView,
    p: int,
    address: Seq<char>,
    lucky: Seq<u8>,
    whitelist: Seq<(Seq<char>, bool)>,
)
    requires
        0 <= p <= before.attendees.len(),
        after.attendees == before.attendees.insert(p, (address, lucky)),
    ensures
        after.registered(address),
        (RoundView { whitelist: whitelist, ..after }).registered(address),
{
    lemma_insert_keeps_attendee(before.attendees, p, (address, lucky), address);
}

} // verus!
