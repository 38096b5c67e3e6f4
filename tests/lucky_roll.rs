use lucky_roll::contract::{RandomnessRequest, Received, Round, PRIZES_JOB};
use lucky_roll::distribution::distribute;
use lucky_roll::error::ContractError;
use lucky_roll::shuffle::shuffle;
use lucky_roll::state::{Attendee, DistributePrize, Status};
use lucky_roll::utils::{convert_datetime_string, generate_lucky_number, generate_true_randomness};
use sha2::{Digest, Sha256};

const T0: u64 = 1_672_531_200_000_000_000;
const T1: u64 = 1_672_617_600_000_000_000;
const MID: u64 = T0 + 3_600_000_000_000;

fn s(x: &str) -> String {
    x.to_string()
}

fn strings(xs: &[&str]) -> Vec<String> {
    xs.iter().map(|x| x.to_string()).collect()
}

fn new_round() -> Round {
    Round::instantiate(
        s("owner"),
        Some(s("oracle")),
        s("2023-01-01T00:00:00Z"),
        s("2023-01-02T00:00:00Z"),
    )
    .unwrap()
}

fn sha(bytes: &[u8]) -> [u8; 32] {
    Sha256::digest(bytes).into()
}

fn lucky(address: &str, randomness: [u8; 32]) -> [u8; 32] {
    let mut seed = address.as_bytes().to_vec();
    seed.extend_from_slice(&randomness);
    sha(&seed)
}

/// A round with prizes shuffled by the oracle and a whitelist of `addrs`.
fn open_round(prizes: &[&str], addrs: &[&str]) -> Round {
    let mut round = new_round();
    round.execute_set_prizes(&s("owner"), strings(prizes)).unwrap();
    round.execute_receive(&s("oracle"), s(PRIZES_JOB), None, vec![7u8; 32]).unwrap();
    let list = addrs.iter().map(|a| Some(a.to_string())).collect();
    round.execute_set_whitelist(&s("owner"), list).unwrap();
    round
}

fn register(round: &mut Round, addr: &str, randomness: [u8; 32]) {
    let req = round.execute_lucky_number(&s(addr), MID).unwrap();
    assert_eq!(req.job_id, s(addr));
    round
        .execute_receive(&s("oracle"), s(addr), Some(s(addr)), randomness.to_vec())
        .unwrap();
}

#[test]
fn convert_datetime_string_parses_rfc3339() {
    assert_eq!(convert_datetime_string(s("2023-01-01T00:00:00Z")), Some(T0));
    assert_eq!(convert_datetime_string(s("2023-01-01T01:00:00+01:00")), Some(T0));
    assert_eq!(convert_datetime_string(s("1970-01-01T00:00:00.000000001Z")), Some(1));
}

#[test]
fn convert_datetime_string_rejects_bad_text() {
    assert_eq!(convert_datetime_string(s("yesterday")), None);
    assert_eq!(convert_datetime_string(s("")), None);
    assert_eq!(convert_datetime_string(s("1969-12-31T23:59:59Z")), None);
}

#[test]
fn generate_lucky_number_hashes_address_and_randomness() {
    let r = [3u8; 32];
    let got = generate_lucky_number(&s("alice"), r);
    assert_eq!(got, lucky("alice", r));
    assert_ne!(got, r);
    assert_ne!(got, generate_lucky_number(&s("bob"), r));
}

#[test]
fn generate_true_randomness_hashes_concatenation() {
    let got = generate_true_randomness(s("alice"), s("abc"));
    assert_eq!(got, sha(b"aliceabc"));
    assert_ne!(got, sha(b"alice"));
    assert_ne!(got, generate_true_randomness(s("alice"), s("abd")));
}

#[test]
fn shuffle_is_a_deterministic_permutation() {
    let items = strings(&["a", "b", "c", "d", "e", "f", "g", "h"]);
    let seed = [52u8; 32];
    let once = shuffle(seed, items.clone());
    let twice = shuffle(seed, items.clone());
    assert_eq!(once, twice);
    assert_eq!(once.len(), items.len());
    let mut sorted = once.clone();
    sorted.sort();
    assert_eq!(sorted, items);
    assert_eq!(once, nois::shuffle(seed, items.clone()));
    assert_ne!(once, items);
}

#[test]
fn shuffle_of_empty_and_single() {
    assert_eq!(shuffle([1u8; 32], vec![]), Vec::<String>::new());
    assert_eq!(shuffle([1u8; 32], strings(&["x"])), strings(&["x"]));
}

#[test]
fn instantiate_starts_a_fresh_round() {
    let round = new_round();
    let c = round.query_configs();
    assert_eq!(c.nois_proxy, s("oracle"));
    assert_eq!(c.time_start, T0);
    assert_eq!(c.time_end, T1);
    assert!(round.query_get_prizes().prizes.is_empty());
    assert!(round.query_get_attendees().attendees.is_empty());
    assert!(round.query_get_distribute_prizes().prizes.is_empty());
    assert!(!round.is_ended());
    assert!(!round.is_shuffled());
}

#[test]
fn instantiate_rejects_bad_inputs() {
    let r = Round::instantiate(s("o"), None, s("2023-01-01T00:00:00Z"), s("2023-01-02T00:00:00Z"));
    assert_eq!(r.unwrap_err(), ContractError::InvalidProxyAddress);
    let r = Round::instantiate(s("o"), Some(s("p")), s("soon"), s("2023-01-02T00:00:00Z"));
    assert_eq!(r.unwrap_err(), ContractError::InvalidDateTime);
    let r = Round::instantiate(s("o"), Some(s("p")), s("2023-01-01T00:00:00Z"), s("later"));
    assert_eq!(r.unwrap_err(), ContractError::InvalidDateTime);
}

#[test]
fn reset_returns_to_configuring() {
    let mut round = open_round(&["gold", "silver"], &["alice", "bob"]);
    register(&mut round, "alice", [9u8; 32]);
    round.execute_roll(&s("owner"), T1 + 1).unwrap();
    assert!(round.is_ended());
    round
        .execute_reset(&s("owner"), Some(s("oracle2")), s("2024-01-01T00:00:00Z"), s("2024-01-02T00:00:00Z"))
        .unwrap();
    assert!(!round.is_ended());
    assert!(!round.is_shuffled());
    assert!(round.query_get_prizes().prizes.is_empty());
    assert!(round.query_get_attendees().attendees.is_empty());
    assert!(round.query_get_distribute_prizes().prizes.is_empty());
    assert_eq!(round.status_of(&s("alice")), None);
    assert_eq!(round.query_configs().nois_proxy, s("oracle2"));
    assert_eq!(round.query_configs().time_start, 1_704_067_200_000_000_000);
}

#[test]
fn reset_refusals() {
    let mut round = new_round();
    let r = round.execute_reset(&s("eve"), Some(s("x")), s("2024-01-01T00:00:00Z"), s("2024-01-02T00:00:00Z"));
    assert_eq!(r, Err(ContractError::Unauthorized));
    let r = round.execute_reset(&s("owner"), None, s("2024-01-01T00:00:00Z"), s("2024-01-02T00:00:00Z"));
    assert_eq!(r, Err(ContractError::InvalidProxyAddress));
    let r = round.execute_reset(&s("owner"), Some(s("x")), s("bad"), s("2024-01-02T00:00:00Z"));
    assert_eq!(r, Err(ContractError::InvalidDateTime));
    assert_eq!(round.query_configs().nois_proxy, s("oracle"));
}

#[test]
fn set_prizes_requests_randomness() {
    let mut round = new_round();
    let req = round.execute_set_prizes(&s("owner"), strings(&["a", "b"])).unwrap();
    assert_eq!(req, RandomnessRequest { oracle: s("oracle"), job_id: s("set prizes") });
    assert_eq!(round.query_get_prizes().prizes, strings(&["a", "b"]));
    assert!(!round.is_shuffled());
    assert_eq!(round.execute_set_prizes(&s("eve"), vec![]), Err(ContractError::Unauthorized));
}

#[test]
fn set_whitelist_collapses_repeats_and_rejects_invalid() {
    let mut round = new_round();
    round
        .execute_set_whitelist(&s("owner"), vec![Some(s("a")), Some(s("b")), Some(s("a"))])
        .unwrap();
    assert_eq!(round.status_of(&s("a")), Some(Status { attended: false }));
    assert_eq!(round.status_of(&s("b")), Some(Status { attended: false }));
    assert_eq!(round.status_of(&s("c")), None);
    let r = round.execute_set_whitelist(&s("owner"), vec![Some(s("c")), None]);
    assert_eq!(r, Err(ContractError::InvalidAddress));
    assert_eq!(round.status_of(&s("a")), Some(Status { attended: false }));
    assert_eq!(round.status_of(&s("c")), None);
    assert_eq!(round.execute_set_whitelist(&s("eve"), vec![]), Err(ContractError::Unauthorized));
}

#[test]
fn register_refusals() {
    let mut round = open_round(&["gold"], &["alice"]);
    assert_eq!(round.execute_lucky_number(&s("mallory"), MID), Err(ContractError::DeniedAction));
    assert_eq!(round.execute_lucky_number(&s("alice"), T0 - 1), Err(ContractError::GameNotStarted));
    assert_eq!(round.execute_lucky_number(&s("alice"), T1 + 1), Err(ContractError::GameHasEnded));
    assert!(round.query_get_attendees().attendees.is_empty());
    assert!(round.execute_lucky_number(&s("alice"), T0).is_ok());
}

#[test]
fn register_only_once() {
    let mut round = open_round(&["gold", "silver"], &["alice"]);
    register(&mut round, "alice", [5u8; 32]);
    let before = round.query_get_attendees();
    assert_eq!(round.status_of(&s("alice")), Some(Status { attended: true }));
    assert_eq!(round.execute_lucky_number(&s("alice"), MID), Err(ContractError::OnlyOnce));
    assert_eq!(round.query_get_attendees(), before);
    assert_eq!(before.attendees[0].lucky_number, lucky("alice", [5u8; 32]));
}

#[test]
fn attendees_listed_in_address_order() {
    let mut round = open_round(&["a", "b", "c"], &["carol", "alice", "bob"]);
    for a in ["carol", "alice", "bob"] {
        round.execute_lucky_number(&s(a), MID).unwrap();
    }
    let list = round.query_get_attendees().attendees;
    let names: Vec<String> = list.iter().map(|a| a.address.clone()).collect();
    assert_eq!(names, strings(&["alice", "bob", "carol"]));
    assert!(list.iter().all(|a| a.lucky_number == [0u8; 32]));
}

#[test]
fn receive_from_other_sender_is_refused() {
    let mut round = open_round(&["gold"], &["alice"]);
    round.execute_lucky_number(&s("alice"), MID).unwrap();
    let before_att = round.query_get_attendees();
    let before_prizes = round.query_get_prizes();
    let r = round.execute_receive(&s("eve"), s("alice"), Some(s("alice")), vec![1u8; 32]);
    assert_eq!(r, Err(ContractError::UnauthorizedReceive));
    let r = round.execute_receive(&s("eve"), s(PRIZES_JOB), None, vec![1u8; 32]);
    assert_eq!(r, Err(ContractError::UnauthorizedReceive));
    assert_eq!(round.query_get_attendees(), before_att);
    assert_eq!(round.query_get_prizes(), before_prizes);
    assert!(round.query_get_distribute_prizes().prizes.is_empty());
}

#[test]
fn receive_rejects_bad_randomness_and_ignores_unknown_jobs() {
    let mut round = open_round(&["gold"], &["alice"]);
    round.execute_lucky_number(&s("alice"), MID).unwrap();
    let r = round.execute_receive(&s("oracle"), s("alice"), Some(s("alice")), vec![1u8; 31]);
    assert_eq!(r, Err(ContractError::InvalidRandomness));
    let before = round.query_get_attendees();
    let r = round.execute_receive(&s("oracle"), s("bob"), Some(s("bob")), vec![1u8; 32]);
    assert_eq!(r, Ok(Received::Ignored));
    let r = round.execute_receive(&s("oracle"), s("!!"), None, vec![1u8; 32]);
    assert_eq!(r, Ok(Received::Ignored));
    let r = round.execute_receive(&s("oracle"), s("bob"), Some(s("alice")), vec![1u8; 32]);
    assert_eq!(r, Ok(Received::Ignored));
    assert_eq!(round.query_get_attendees(), before);
}

#[test]
fn prize_job_shuffles_the_pool() {
    let mut round = new_round();
    let prizes = strings(&["a", "b", "c", "d", "e", "f"]);
    round.execute_set_prizes(&s("owner"), prizes.clone()).unwrap();
    round.execute_receive(&s("oracle"), s(PRIZES_JOB), None, vec![52u8; 32]).unwrap();
    assert!(round.is_shuffled());
    assert_eq!(round.query_get_prizes().prizes, nois::shuffle([52u8; 32], prizes));
}

#[test]
fn roll_refusals() {
    let mut round = new_round();
    round.execute_set_prizes(&s("owner"), strings(&["gold"])).unwrap();
    round.execute_set_whitelist(&s("owner"), vec![Some(s("a")), Some(s("b"))]).unwrap();
    assert_eq!(round.execute_roll(&s("eve"), T1 + 1), Err(ContractError::Unauthorized));
    assert_eq!(round.execute_roll(&s("owner"), T1), Err(ContractError::GameNotEnded));
    assert_eq!(round.execute_roll(&s("owner"), T1 + 1), Err(ContractError::PrizesNotShuffled));
    round.execute_receive(&s("oracle"), s(PRIZES_JOB), None, vec![2u8; 32]).unwrap();
    round.execute_lucky_number(&s("a"), MID).unwrap();
    round.execute_lucky_number(&s("b"), MID).unwrap();
    assert_eq!(round.execute_roll(&s("owner"), T1 + 1), Err(ContractError::InsufficientPrize));
    assert!(!round.is_ended());
    assert!(round.query_get_distribute_prizes().prizes.is_empty());
    assert_eq!(round.query_get_prizes().prizes, strings(&["gold"]));
    assert_eq!(round.query_get_attendees().attendees.len(), 2);
}

#[test]
fn roll_hands_out_distinct_prizes() {
    let mut round = open_round(&["p1", "p2", "p3", "p4"], &["x", "y", "z"]);
    register(&mut round, "z", [1u8; 32]);
    register(&mut round, "x", [2u8; 32]);
    register(&mut round, "y", [3u8; 32]);
    round.execute_roll(&s("owner"), T1 + 1).unwrap();
    let d = round.query_get_distribute_prizes().prizes;
    let names: Vec<String> = d.iter().map(|e| e.address.clone()).collect();
    assert_eq!(names, strings(&["x", "y", "z"]));
    let mut got: Vec<String> = d.iter().map(|e| e.prize.clone()).collect();
    got.sort();
    got.dedup();
    assert_eq!(got.len(), 3);
    assert_eq!(round.execute_roll(&s("owner"), T1 + 2), Err(ContractError::RoundEnd));
    assert_eq!(round.execute_set_prizes(&s("owner"), vec![]), Err(ContractError::RoundEnd));
    assert_eq!(round.execute_set_whitelist(&s("owner"), vec![]), Err(ContractError::RoundEnd));
    assert_eq!(round.execute_lucky_number(&s("x"), MID), Err(ContractError::RoundEnd));
    let r = round.execute_receive(&s("oracle"), s("x"), Some(s("x")), vec![0u8; 32]);
    assert_eq!(r, Err(ContractError::RoundEnd));
}

#[test]
fn distribute_follows_the_reshuffle_rule() {
    let prizes = strings(&["a", "b", "c"]);
    let order = vec![
        Attendee { address: s("m"), lucky_number: [4u8; 32] },
        Attendee { address: s("n"), lucky_number: [5u8; 32] },
    ];
    let got = distribute(prizes.clone(), &order);
    let mut pool = nois::shuffle([4u8; 32], prizes);
    let first = pool.pop().unwrap();
    let mut pool = nois::shuffle([5u8; 32], pool);
    let second = pool.pop().unwrap();
    assert_eq!(
        got,
        vec![
            DistributePrize { address: s("m"), prize: first },
            DistributePrize { address: s("n"), prize: second },
        ]
    );
    assert!(distribute(strings(&["a"]), &vec![]).is_empty());
}

#[test]
fn full_round_scenario() {
    let mut round = new_round();
    round
        .execute_set_whitelist(&s("owner"), vec![Some(s("A")), Some(s("B"))])
        .unwrap();
    let req = round.execute_set_prizes(&s("owner"), strings(&["gold", "silver"])).unwrap();
    assert_eq!(req.job_id, s("set prizes"));
    let r_prizes = [11u8; 32];
    round.execute_receive(&s("oracle"), s("set prizes"), None, r_prizes.to_vec()).unwrap();
    assert!(round.is_shuffled());
    let pool = nois::shuffle(r_prizes, strings(&["gold", "silver"]));
    assert_eq!(round.query_get_prizes().prizes, pool);

    let req = round.execute_lucky_number(&s("A"), MID).unwrap();
    assert_eq!(req, RandomnessRequest { oracle: s("oracle"), job_id: s("A") });
    assert_eq!(round.status_of(&s("A")), Some(Status { attended: true }));
    assert_eq!(
        round.query_get_attendees().attendees,
        vec![Attendee { address: s("A"), lucky_number: [0u8; 32] }]
    );

    let r_a = [42u8; 32];
    round.execute_receive(&s("oracle"), s("A"), Some(s("A")), r_a.to_vec()).unwrap();
    let lucky_a = lucky("A", r_a);
    assert_ne!(lucky_a, [0u8; 32]);
    assert_eq!(
        round.query_get_attendees().attendees,
        vec![Attendee { address: s("A"), lucky_number: lucky_a }]
    );

    round.execute_roll(&s("owner"), T1 + 1).unwrap();
    let expected = nois::shuffle(lucky_a, pool).pop().unwrap();
    assert_eq!(
        round.query_get_distribute_prizes().prizes,
        vec![DistributePrize { address: s("A"), prize: expected }]
    );
    assert!(round.is_ended());
    assert_eq!(round.execute_roll(&s("owner"), T1 + 2), Err(ContractError::RoundEnd));
}

#[test]
fn relisting_keeps_registration() {
    let mut round = open_round(&["gold", "silver"], &["alice", "bob"]);
    register(&mut round, "alice", [6u8; 32]);
    let before = round.query_get_attendees();
    round
        .execute_set_whitelist(&s("owner"), vec![Some(s("alice")), Some(s("bob"))])
        .unwrap();
    assert_eq!(round.status_of(&s("alice")), Some(Status { attended: true }));
    assert_eq!(round.status_of(&s("bob")), Some(Status { attended: false }));
    assert_eq!(round.execute_lucky_number(&s("alice"), MID), Err(ContractError::OnlyOnce));
    assert_eq!(round.query_get_attendees(), before);
    assert_eq!(before.attendees[0].lucky_number, lucky("alice", [6u8; 32]));
}

#[test]
fn dropped_then_relisted_attendee_cannot_register_again() {
    let mut round = open_round(&["gold", "silver"], &["alice"]);
    register(&mut round, "alice", [8u8; 32]);
    round.execute_set_whitelist(&s("owner"), vec![Some(s("bob"))]).unwrap();
    assert_eq!(round.execute_lucky_number(&s("alice"), MID), Err(ContractError::DeniedAction));
    round.execute_set_whitelist(&s("owner"), vec![Some(s("alice"))]).unwrap();
    assert_eq!(round.status_of(&s("alice")), Some(Status { attended: true }));
    assert_eq!(round.execute_lucky_number(&s("alice"), MID), Err(ContractError::OnlyOnce));
    assert_eq!(round.query_get_attendees().attendees[0].lucky_number, lucky("alice", [8u8; 32]));
}

#[test]
fn receive_reports_what_it_did() {
    let mut round = new_round();
    round.execute_set_prizes(&s("owner"), strings(&["a"])).unwrap();
    let r = round.execute_receive(&s("oracle"), s(PRIZES_JOB), None, vec![3u8; 32]);
    assert_eq!(r, Ok(Received::PrizesShuffled));
    round.execute_set_whitelist(&s("owner"), vec![Some(s("alice"))]).unwrap();
    round.execute_lucky_number(&s("alice"), MID).unwrap();
    let r = round.execute_receive(&s("oracle"), s("alice"), Some(s("alice")), vec![3u8; 32]);
    assert_eq!(r, Ok(Received::LuckyNumberSet));
}
