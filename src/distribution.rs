use vstd::prelude::*;
use crate::shuffle::{shuffle, shuffle_of, strs};
use crate::state::{attendees_view, distribution_view, Attendee, DistributePrize};

verus! {

broadcast use vstd::seq_lib::group_to_multiset_ensures;

/// The prizes handed out to `order`, in that order: each participant
/// reshuffles what is left of the pool with its own lucky number and takes
/// the last prize of the result.
pub open spec fn distribution_of(
    prizes: Seq<Seq<char>>,
    order: Seq<(Seq<char>, Seq<u8>)>,
) -> Seq<(Seq<char>, Seq<char>)>
    decreases order.len(),
{
    if order.len() == 0 {
        seq![]
    } else {
        let shuffled = shuffle_of(order[0].1, prizes);
        seq![(order[0].0, shuffled.last())] + distribution_of(
            shuffled.drop_last(),
            order.drop_first(),
        )
    }
}

/// The prizes of a distribution, in order.
pub open spec fn prizes_of(d: Seq<(Seq<char>, Seq<char>)>) -> Seq<Seq<char>> {
    d.map_values(|e: (Seq<char>, Seq<char>)| e.1)
}

/// The addresses of a distribution, in order.
pub open spec fn recipients_of(d: Seq<(Seq<char>, Seq<char>)>) -> Seq<Seq<char>> {
    d.map_values(|e: (Seq<char>, Seq<char>)| e.0)
}

/// The addresses of a list of attendees, in order.
pub open spec fn addresses_of(a: Seq<(Seq<char>, Seq<u8>)>) -> Seq<Seq<char>> {
    a.map_values(|e: (Seq<char>, Seq<u8>)| e.0)
}

proof fn lemma_pop_multiset(s: Seq<Seq<char>>)
    requires
        s.len() > 0,
    ensures
        s.to_multiset() == s.drop_last().to_multiset().insert(s.last()),
{
    assert(s.drop_last().push(s.last()) =~= s);
    vstd::seq_lib::to_multiset_build(s.drop_last(), s.last());
}

/// Hands out prizes to `order`, in that order, as `distribution_of` says.
/// Every participant gets one prize, and the prizes handed out are taken
/// from the pool: none is handed out more often than the pool holds it.
pub fn distribute(prizes: Vec<String>, order: &Vec<Attendee>) -> (r: Vec<DistributePrize>)
    requires
        order@.len() <= prizes@.len(),
    ensures
        distribution_view(r@) == distribution_of(strs(prizes@), attendees_view(order@)),
        recipients_of(distribution_view(r@)) == addresses_of(attendees_view(order@)),
        prizes_of(distribution_view(r@)).to_multiset().subset_of(strs(prizes@).to_multiset()),
{
    let ghost pool = strs(prizes@);
    let ghost ov = attendees_view(order@);
    let mut rest = prizes;
    let mut out: Vec<DistributePrize> = Vec::new();
    let mut i: usize = 0;
    assert(ov.subrange(0, ov.len() as int) =~= ov);
    assert(distribution_view(out@) =~= seq![]);
    while i < order.len()
        invariant
            ov == attendees_view(order@),
            i <= order@.len(),
            rest@.len() + i == prizes@.len(),
            order@.len() <= prizes@.len(),
            out@.len() == i,
            distribution_of(pool, ov) == distribution_view(out@) + distribution_of(
                strs(rest@),
                ov.subrange(i as int, ov.len() as int),
            ),
            forall|j: int| 0 <= j < i ==> #[trigger] out@[j].address@ == ov[j].0,
            strs(rest@).to_multiset().add(prizes_of(distribution_view(out@)).to_multiset())
                == pool.to_multiset(),
        decreases order@.len() - i,
    {
        let attendee = &order[i];
        let ghost before = strs(rest@);
        let ghost tail = ov.subrange(i as int, ov.len() as int);
        let mut shuffled = shuffle(attendee.lucky_number, rest);
        let ghost sv = strs(shuffled@);
        let prize = shuffled.pop().unwrap();
        proof {
            assert(tail[0] == ov[i as int]);
            assert(tail.drop_first() =~= ov.subrange(i + 1, ov.len() as int));
            assert(strs(shuffled@) =~= sv.drop_last());
            lemma_pop_multiset(sv);
        }
        let ghost old_out = out@;
        out.push(DistributePrize { address: attendee.address.clone(), prize });
        proof {
            assert(distribution_view(out@) =~= distribution_view(old_out).push(
                (ov[i as int].0, sv.last()),
            ));
            assert(prizes_of(distribution_view(out@)) =~= prizes_of(distribution_view(old_out)).push(
                sv.last(),
            ));
            vstd::seq_lib::to_multiset_build(prizes_of(distribution_view(old_out)), sv.last());
            assert(distribution_view(out@) + distribution_of(
                strs(shuffled@),
                ov.subrange(i + 1, ov.len() as int),
            ) =~= distribution_view(old_out) + distribution_of(before, tail));
        }
        rest = shuffled;
        i = i + 1;
    }
    proof {
        assert(ov.subrange(i as int, ov.len() as int) =~= seq![]);
        assert(distribution_view(out@) + seq![] =~= distribution_view(out@));
        assert(recipients_of(distribution_view(out@)) =~= addresses_of(ov));
    }
    out
}

/// A list of prizes drawn from a pool that holds no prize twice holds no
/// prize twice either: a distribution never hands out the same prize twice
/// when the pool's prizes are distinct.
pub proof fn lemma_no_prize_twice(assigned: Seq<Seq<char>>, pool: Seq<Seq<char>>)
    requires
        assigned.to_multiset().subset_of(pool.to_multiset()),
        pool.no_duplicates(),
    ensures
        assigned.no_duplicates(),
{
    broadcast use vstd::multiset::group_multiset_axioms;

    pool.lemma_multiset_has_no_duplicates();
    assert forall|x: Seq<char>| assigned.to_multiset().contains(x) implies assigned.to_multiset().count(
        x,
    ) == 1 by {
        assert(pool.to_multiset().count(x) >= assigned.to_multiset().count(x));
        assert(pool.to_multiset().contains(x));
    }
    assigned.lemma_multiset_has_no_duplicates_conv();
}

} // verus!
