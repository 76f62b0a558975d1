//! The bag from which piece types are drawn: each of the seven types comes once
//! before any comes again.

use vstd::prelude::*;
use rand::Rng;
use crate::game::piece::PieceType;

verus! {

/// Number of piece types, and so the size of a full bag.
pub const BAG_SIZE: usize = 7;

/// The seven piece types in the order in which a bag holds them before it is shuffled.
pub open spec fn all_piece_types() -> Seq<PieceType> {
    seq![
        PieceType::I,
        PieceType::O,
        PieceType::T,
        PieceType::S,
        PieceType::Z,
        PieceType::J,
        PieceType::L,
    ]
}

/// A full bag holds each of the seven piece types exactly once.
pub open spec fn is_full_bag(bag: Seq<PieceType>) -> bool {
    &&& bag.len() == BAG_SIZE
    &&& bag.no_duplicates()
    &&& forall|t: PieceType| #[trigger] bag.contains(t)
}

/// The sequence with the entries at `i` and `j` exchanged.
pub open spec fn swapped(bag: Seq<PieceType>, i: int, j: int) -> Seq<PieceType> {
    bag.update(i, bag[j]).update(j, bag[i])
}

/// Whether `picks` can drive a shuffle of a full bag: one pick for each index from
/// the last down to 1, each pick no larger than its index.
pub open spec fn are_picks(picks: Seq<usize>) -> bool {
    &&& picks.len() == BAG_SIZE - 1
    &&& forall|k: int| 0 <= k < picks.len() ==> #[trigger] picks[k] <= BAG_SIZE - 1 - k
}

/// The bag after the first `steps` exchanges of a shuffle: step `k` exchanges the
/// entry at index `len - 1 - k` with the entry at `picks[k]`.
pub open spec fn shuffle_steps(bag: Seq<PieceType>, picks: Seq<usize>, steps: int) -> Seq<PieceType>
    decreases steps,
{
    if steps <= 0 {
        bag
    } else {
        swapped(
            shuffle_steps(bag, picks, steps - 1),
            bag.len() - steps,
            picks[steps - 1] as int,
        )
    }
}

/// The seven piece types shuffled by the given picks.
pub open spec fn shuffled(picks: Seq<usize>) -> Seq<PieceType> {
    shuffle_steps(all_piece_types(), picks, picks.len() as int)
}

/// One draw from a bag: the type that came out and what the bag holds afterwards.
#[verifier::ext_equal]
pub struct Draw {
    pub piece_type: PieceType,
    pub rest: Seq<PieceType>,
}

/// Whether `draw` is a possible draw from `bag`. A bag that holds something gives
/// its last entry. An empty bag is first refilled with the seven types in some
/// order, so the type drawn and the rest together make a full bag.
pub open spec fn is_draw(bag: Seq<PieceType>, draw: Draw) -> bool {
    if bag.len() > 0 {
        draw.piece_type == bag.last() && draw.rest == bag.drop_last()
    } else {
        is_full_bag(draw.rest.push(draw.piece_type))
    }
}

/// The seven piece types in their listed order make a full bag.
pub proof fn lemma_all_piece_types_full()
    ensures
        is_full_bag(all_piece_types()),
{
    let all = all_piece_types();
    assert forall|t: PieceType| #[trigger] all.contains(t) by {
        match t {
            PieceType::I => assert(all[0] == t),
            PieceType::O => assert(all[1] == t),
            PieceType::T => assert(all[2] == t),
            PieceType::S => assert(all[3] == t),
            PieceType::Z => assert(all[4] == t),
            PieceType::J => assert(all[5] == t),
            PieceType::L => assert(all[6] == t),
        }
    }
}

/// Exchanging two entries of a full bag leaves a full bag.
pub proof fn lemma_swap_keeps_full(bag: Seq<PieceType>, i: int, j: int)
    requires
        is_full_bag(bag),
        0 <= i < bag.len(),
        0 <= j < bag.len(),
    ensures
        is_full_bag(swapped(bag, i, j)),
{
    let after = swapped(bag, i, j);
    assert forall|t: PieceType| #[trigger] after.contains(t) by {
        assert(bag.contains(t));
        let k = choose|k: int| 0 <= k < bag.len() && bag[k] == t;
        if k == i {
            assert(after[j] == t);
        } else if k == j {
            assert(after[i] == t);
        } else {
            assert(after[k] == t);
        }
    }
}

/// A shuffle gives a full bag after each of its steps: no type is lost and none
/// comes twice.
pub proof fn lemma_shuffle_keeps_full(picks: Seq<usize>, steps: int)
    requires
        are_picks(picks),
        0 <= steps <= picks.len(),
    ensures
        is_full_bag(shuffle_steps(all_piece_types(), picks, steps)),
    decreases steps,
{
    lemma_all_piece_types_full();
    if steps > 0 {
        lemma_shuffle_keeps_full(picks, steps - 1);
        lemma_swap_keeps_full(
            shuffle_steps(all_piece_types(), picks, steps - 1),
            BAG_SIZE - steps,
            picks[steps - 1] as int,
        );
    }
}

/// A bag that holds no type twice holds at most seven.
pub proof fn lemma_bag_holds_at_most_seven(bag: Seq<PieceType>)
    requires
        bag.no_duplicates(),
    ensures
        bag.len() <= BAG_SIZE,
{
    let all = all_piece_types();
    lemma_all_piece_types_full();
    bag.unique_seq_to_set();
    all.unique_seq_to_set();
    vstd::seq_lib::seq_to_set_is_finite(all);
    assert(bag.to_set().subset_of(all.to_set())) by {
        assert forall|t: PieceType| bag.to_set().contains(t) implies all.to_set().contains(t) by {
            assert(all.contains(t));
        }
    }
    vstd::set_lib::lemma_len_subset(bag.to_set(), all.to_set());
}

/// Every bag has a possible draw.
pub proof fn lemma_draw_exists(bag: Seq<PieceType>) -> (draw: Draw)
    ensures
        is_draw(bag, draw),
{
    if bag.len() > 0 {
        Draw { piece_type: bag.last(), rest: bag.drop_last() }
    } else {
        lemma_all_piece_types_full();
        let all = all_piece_types();
        assert(all.drop_last().push(all.last()) =~= all);
        Draw { piece_type: all.last(), rest: all.drop_last() }
    }
}

/// What is left of a bag without repeats after a draw has no repeats, and does not
/// hold the type that was drawn.
pub proof fn lemma_draw_keeps_distinct(bag: Seq<PieceType>, draw: Draw)
    requires
        bag.no_duplicates(),
        is_draw(bag, draw),
    ensures
        draw.rest.no_duplicates(),
        !draw.rest.contains(draw.piece_type),
{
    let full = draw.rest.push(draw.piece_type);
    assert forall|a: int, b: int|
        0 <= a < draw.rest.len() && 0 <= b < draw.rest.len() && a != b implies draw.rest[a]
        != draw.rest[b] by {
        assert(full[a] == draw.rest[a] && full[b] == draw.rest[b]);
    }
    if draw.rest.contains(draw.piece_type) {
        let k = choose|k: int| 0 <= k < draw.rest.len() && draw.rest[k] == draw.piece_type;
        assert(full[k] == full[draw.rest.len() as int]);
    }
}

/// A random index in `0..=upper` from the thread's generator.
///
/// Calls `rand::thread_rng().gen_range(0..=upper)`. All that is claimed of the
/// result, and not proved here, is that it lies in the range asked for; which index
/// comes is up to the generator. The range is never empty, so `gen_range` does not
/// panic on it. The generator panics where the system gives it no entropy, at its
/// first use in a thread and when it reseeds itself later.
#[verifier::external_body]
fn random_index(upper: usize) -> (index: usize)
    ensures
        index <= upper,
{
    rand::thread_rng().gen_range(0..=upper)
}

/// The seven piece types in their listed order.
fn sorted_bag() -> (bag: Vec<PieceType>)
    ensures
        bag@ == all_piece_types(),
{
    let mut bag: Vec<PieceType> = Vec::new();
    bag.push(PieceType::I);
    bag.push(PieceType::O);
    bag.push(PieceType::T);
    bag.push(PieceType::S);
    bag.push(PieceType::Z);
    bag.push(PieceType::J);
    bag.push(PieceType::L);
    bag
}

/// The seven piece types shuffled by the given picks: for each index from the last
/// down to 1, in that order, the entry there is exchanged with the entry at the
/// next pick.
pub fn shuffled_bag(picks: [usize; 6]) -> (bag: Vec<PieceType>)
    requires
        are_picks(picks@),
    ensures
        bag@ == shuffled(picks@),
        is_full_bag(bag@),
{
    let mut bag = sorted_bag();
    let mut k: usize = 0;
    while k < 6
        invariant
            k <= 6,
            are_picks(picks@),
            bag@ == shuffle_steps(all_piece_types(), picks@, k as int),
            bag@.len() == BAG_SIZE,
        decreases 6 - k,
    {
        let i = BAG_SIZE - 1 - k;
        let j = picks[k];
        let at_i = bag[i];
        let at_j = bag[j];
        bag[i] = at_j;
        bag[j] = at_i;
        k += 1;
    }
    proof {
        lemma_shuffle_keeps_full(picks@, 6);
    }
    bag
}

/// Refills the bag with the seven piece types in a random order.
pub fn fill_bag(bag: &mut Vec<PieceType>)
    ensures
        is_full_bag(final(bag)@),
        exists|picks: Seq<usize>| are_picks(picks) && final(bag)@ == shuffled(picks),
{
    let mut picks: [usize; 6] = [0; 6];
    let mut k: usize = 0;
    while k < 6
        invariant
            k <= 6,
            forall|m: int| 0 <= m < 6 ==> #[trigger] picks@[m] <= BAG_SIZE - 1 - m,
        decreases 6 - k,
    {
        picks[k] = random_index(BAG_SIZE - 1 - k);
        k += 1;
    }
    *bag = shuffled_bag(picks);
}

/// Takes the next piece type out of the bag, refilling the bag first where it is empty.
pub fn draw_piece_type(bag: &mut Vec<PieceType>) -> (piece_type: PieceType)
    ensures
        is_draw(old(bag)@, (Draw { piece_type, rest: final(bag)@ })),
{
    if bag.len() == 0 {
        fill_bag(bag);
    }
    let ghost before = bag@;
    let piece_type = bag.pop().unwrap();
    assert(bag@.push(piece_type) =~= before);
    piece_type
}

/// What the bag holds before the draw at index `i` of a run that starts from `bag`.
pub open spec fn bag_before(bag: Seq<PieceType>, draws: Seq<Draw>, i: int) -> Seq<PieceType> {
    if i <= 0 {
        bag
    } else {
        draws[i - 1].rest
    }
}

/// Whether `draws` is a run of draws that starts from `bag`: each draw is taken
/// from what the draw before it left.
pub open spec fn is_run(bag: Seq<PieceType>, draws: Seq<Draw>) -> bool {
    forall|i: int| 0 <= i < draws.len() ==> is_draw(#[trigger] bag_before(bag, draws, i), draws[i])
}

/// A run goes on with every draw from what its last draw left.
pub proof fn lemma_run_goes_on(bag: Seq<PieceType>, draws: Seq<Draw>, draw: Draw)
    requires
        is_run(bag, draws),
        is_draw(bag_before(bag, draws, draws.len() as int), draw),
    ensures
        is_run(bag, draws.push(draw)),
{
    let longer = draws.push(draw);
    assert forall|i: int| 0 <= i < longer.len() implies is_draw(
        #[trigger] bag_before(bag, longer, i),
        longer[i],
    ) by {
        if i < draws.len() {
            assert(bag_before(bag, longer, i) == bag_before(bag, draws, i));
        }
    }
}

/// How often the type came among the first `upto` draws.
pub open spec fn times_drawn(draws: Seq<Draw>, piece_type: PieceType, upto: int) -> int
    decreases upto,
{
    if upto <= 0 {
        0
    } else {
        times_drawn(draws, piece_type, upto - 1) + if draws[upto - 1].piece_type == piece_type {
            1int
        } else {
            0int
        }
    }
}

/// In a run of draws that starts from an empty bag, after `n` draws: the bag holds
/// what is left of the round, without repeats, and each type has come once in
/// every round that is over and once more if it has come in the round that is on.
proof fn lemma_run_round(draws: Seq<Draw>, piece_type: PieceType, n: int)
    requires
        is_run(Seq::empty(), draws),
        0 <= n <= draws.len(),
    ensures
        bag_before(Seq::empty(), draws, n).len() == (BAG_SIZE - n % 7) % 7,
        bag_before(Seq::empty(), draws, n).no_duplicates(),
        times_drawn(draws, piece_type, n) == n / 7 + if n % 7 != 0 && !bag_before(
            Seq::empty(),
            draws,
            n,
        ).contains(piece_type) {
            1int
        } else {
            0int
        },
    decreases n,
{
    if n > 0 {
        lemma_run_round(draws, piece_type, n - 1);
        let before = bag_before(Seq::empty(), draws, n - 1);
        let draw = draws[n - 1];
        let after = draw.rest;
        assert(is_draw(before, draw));
        lemma_draw_keeps_distinct(before, draw);
        if (n - 1) % 7 == 0 {
            let full = after.push(draw.piece_type);
            if piece_type != draw.piece_type {
                assert(full.contains(piece_type));
                let k = choose|k: int| 0 <= k < full.len() && full[k] == piece_type;
                assert(after[k] == piece_type);
            }
        } else {
            if before.contains(piece_type) && piece_type != draw.piece_type {
                let k = choose|k: int| 0 <= k < before.len() && before[k] == piece_type;
                assert(after[k] == piece_type);
            }
            if after.contains(piece_type) {
                let k = choose|k: int| 0 <= k < after.len() && after[k] == piece_type;
                assert(before[k] == piece_type);
            }
            if n % 7 == 0 {
                assert(before[0] == draw.piece_type);
            }
        }
    }
}

/// Draws from the bag are evenly spread: in a run of draws that starts from an
/// empty bag, each type has come once for every seven draws, and at most once more.
pub proof fn lemma_draws_are_evenly_spread(draws: Seq<Draw>, piece_type: PieceType, n: int)
    requires
        is_run(Seq::empty(), draws),
        0 <= n <= draws.len(),
    ensures
        n / 7 <= times_drawn(draws, piece_type, n) <= n / 7 + 1,
        n % 7 == 0 ==> times_drawn(draws, piece_type, n) == n / 7,
{
    lemma_run_round(draws, piece_type, n);
}

/// Of ten thousand draws that start from an empty bag each type takes 1428 or 1429,
/// whatever the shuffles give: a share within a ten-thousandth of one seventh.
pub proof fn lemma_ten_thousand_draws(draws: Seq<Draw>, piece_type: PieceType)
    requires
        is_run(Seq::empty(), draws),
        draws.len() == 10000,
    ensures
        1428 <= times_drawn(draws, piece_type, 10000) <= 1429,
        -7 < 7 * times_drawn(draws, piece_type, 10000) - 10000 < 7,
{
    lemma_run_round(draws, piece_type, 10000);
}

/// No type comes more than twice in seven draws that follow each other.
pub proof fn lemma_seven_draws_hold_a_type_at_most_twice(
    draws: Seq<Draw>,
    piece_type: PieceType,
    from: int,
)
    requires
        is_run(Seq::empty(), draws),
        0 <= from,
        from + 7 <= draws.len(),
    ensures
        0 <= times_drawn(draws, piece_type, from + 7) - times_drawn(draws, piece_type, from) <= 2,
{
    lemma_run_round(draws, piece_type, from);
    lemma_run_round(draws, piece_type, from + 7);
}

} // verus!
