//! The leveled card allocator. Given a pool of cards, each with a mastery
//! level from 1 to 5, [`get_user_cards`] selects up to `max` card identifiers:
//! a quota pass walks levels 1 through 5 taking each level's fixed share of
//! `max` (carrying any shortfall forward into later levels), and a backfill
//! pass walks levels 5 down to 1 draining the unconsumed remainders until the
//! request is satisfied. The whole selection is pinned down by
//! [`allocate_spec`].

use vstd::prelude::*;
use vstd::arithmetic::div_mod::{
    lemma_div_is_ordered,
    lemma_div_multiples_vanish,
    lemma_fundamental_div_mod,
    lemma_mod_bound,
};
use crate::decimal::dec_digits;
use crate::decimal::usize_to_string;
use std::collections::HashMap;

verus! {

const LEVEL1_PERCENTAGE: usize = 40;

const LEVEL2_PERCENTAGE: usize = 20;

const LEVEL3_PERCENTAGE: usize = 15;

const LEVEL4_PERCENTAGE: usize = 15;

const LEVEL5_PERCENTAGE: usize = 10;

/// One practice card together with the caller's current mastery of it.
pub struct LeveledCard {
    pub id: String,
    pub lvl: usize,
}

/// The mathematical value of a [`LeveledCard`].
pub ghost struct CardView {
    pub id: Seq<char>,
    pub lvl: int,
}

impl View for LeveledCard {
    type V = CardView;

    open spec fn view(&self) -> CardView {
        CardView { id: self.id@, lvl: self.lvl as int }
    }
}

impl DeepView for LeveledCard {
    type V = CardView;

    open spec fn deep_view(&self) -> CardView {
        self@
    }
}

/// An unused description of a deck of cards, kept for the request layer.
pub struct Deck {
    pub description: String,
    pub title: String,
}

/// The share of `max` that one mastery level is entitled to, in percent.
pub open spec fn level_percentage(lvl: int) -> int {
    if lvl == 1 {
        40
    } else if lvl == 2 {
        20
    } else if lvl == 3 {
        15
    } else if lvl == 4 {
        15
    } else if lvl == 5 {
        10
    } else {
        0
    }
}

/// The per-level quota: `max * percentage / 100`, rounded down.
pub open spec fn quota(max: int, lvl: int) -> int {
    max * level_percentage(lvl) / 100
}

/// The identifiers of the cards of `cards` at level `lvl`, in their original
/// relative order.
pub open spec fn level_ids(cards: Seq<CardView>, lvl: int) -> Seq<Seq<char>>
    decreases cards.len(),
{
    if cards.len() == 0 {
        Seq::empty()
    } else {
        let rest = level_ids(cards.drop_last(), lvl);
        if cards.last().lvl == lvl {
            rest.push(cards.last().id)
        } else {
            rest
        }
    }
}

/// Whether every card carries a mastery level between 1 and 5.
pub open spec fn all_levels_valid(cards: Seq<CardView>) -> bool {
    forall|i: int| 0 <= i < cards.len() ==> 1 <= (#[trigger] cards[i]).lvl <= 5
}

/// How many cards the quota pass takes from one bucket of `len` cards, given
/// the level's quota `q` and the shortfall `missing` carried in from earlier
/// levels: an empty bucket contributes nothing, a short bucket is drained
/// whole, and a sufficient bucket yields its quota plus up to `missing` more.
pub open spec fn quota_take(len: int, q: int, missing: int) -> int {
    if len == 0 {
        0
    } else if len < q {
        len
    } else {
        q + vstd::math::min(missing, len - q)
    }
}

/// The shortfall carried out of that bucket: it grows by the deficit of a
/// short (but nonempty) bucket and shrinks by whatever extra a sufficient
/// bucket supplied.
pub open spec fn quota_missing(len: int, q: int, missing: int) -> int {
    if len == 0 {
        missing
    } else if len < q {
        missing + (q - len)
    } else {
        missing - vstd::math::min(missing, len - q)
    }
}

/// The shortfall accumulated once the quota pass has handled levels 1..=lvl.
pub open spec fn missing_after(cards: Seq<CardView>, max: int, lvl: int) -> int
    decreases lvl,
{
    if lvl <= 0 {
        0
    } else {
        quota_missing(
            level_ids(cards, lvl).len() as int,
            quota(max, lvl),
            missing_after(cards, max, lvl - 1),
        )
    }
}

/// How many cards the quota pass takes from level `lvl`.
pub open spec fn quota_taken(cards: Seq<CardView>, max: int, lvl: int) -> int {
    quota_take(
        level_ids(cards, lvl).len() as int,
        quota(max, lvl),
        missing_after(cards, max, lvl - 1),
    )
}

/// The output of the quota pass over levels 1..=lvl: the front of each level's
/// bucket, in ascending level order.
pub open spec fn quota_pass(cards: Seq<CardView>, max: int, lvl: int) -> Seq<Seq<char>>
    decreases lvl,
{
    if lvl <= 0 {
        Seq::empty()
    } else {
        quota_pass(cards, max, lvl - 1) + level_ids(cards, lvl).take(
            quota_taken(cards, max, lvl),
        )
    }
}

/// What level `lvl` still holds once the quota pass is over.
pub open spec fn level_remainder(cards: Seq<CardView>, max: int, lvl: int) -> int {
    level_ids(cards, lvl).len() - quota_taken(cards, max, lvl)
}

/// The slots still unfilled when the backfill pass reaches level `lvl` (it
/// walks levels 5 down to 1, so level 5 sees the quota pass's whole deficit).
pub open spec fn backfill_missing_at(cards: Seq<CardView>, max: int, lvl: int) -> int
    decreases 5 - lvl,
{
    if lvl >= 5 {
        max - quota_pass(cards, max, 5).len()
    } else {
        let m = backfill_missing_at(cards, max, lvl + 1);
        m - vstd::math::min(m, level_remainder(cards, max, lvl + 1))
    }
}

/// How many cards the backfill pass takes from level `lvl`.
pub open spec fn backfill_taken(cards: Seq<CardView>, max: int, lvl: int) -> int {
    vstd::math::min(backfill_missing_at(cards, max, lvl), level_remainder(cards, max, lvl))
}

/// The cards the backfill pass takes from level `lvl`: the next slice of the
/// bucket, right behind what the quota pass consumed.
pub open spec fn backfill_segment(cards: Seq<CardView>, max: int, lvl: int) -> Seq<Seq<char>> {
    level_ids(cards, lvl).subrange(
        quota_taken(cards, max, lvl),
        quota_taken(cards, max, lvl) + backfill_taken(cards, max, lvl),
    )
}

/// The output of the backfill pass, walking levels 5 down to `lvl`.
pub open spec fn backfill_pass(cards: Seq<CardView>, max: int, lvl: int) -> Seq<Seq<char>>
    decreases 6 - lvl,
{
    if lvl > 5 {
        Seq::empty()
    } else {
        backfill_pass(cards, max, lvl + 1) + backfill_segment(cards, max, lvl)
    }
}

/// The whole allocation: the quota pass, truncated to `max` if it overshot,
/// extended by the backfill pass if it fell short.
pub open spec fn allocate_spec(cards: Seq<CardView>, max: int) -> Seq<Seq<char>> {
    let first = quota_pass(cards, max, 5);
    if first.len() >= max {
        first.take(max)
    } else {
        first + backfill_pass(cards, max, 1)
    }
}

/// How many cards the allocation takes from level `lvl` in all, over both
/// passes.
pub open spec fn taken_at_level(cards: Seq<CardView>, max: int, lvl: int) -> int {
    quota_taken(cards, max, lvl) + backfill_taken(cards, max, lvl)
}

/// The five per-level quotas never sum to more than `max` itself.
pub proof fn lemma_quota_sum(max: int)
    requires
        max >= 0,
    ensures
        quota(max, 1) + quota(max, 2) + quota(max, 3) + quota(max, 4) + quota(max, 5) <= max,
        quota(max, 1) >= 0,
        quota(max, 2) >= 0,
        quota(max, 3) >= 0,
        quota(max, 4) >= 0,
        quota(max, 5) >= 0,
{
    lemma_fundamental_div_mod(max * 40, 100);
    lemma_fundamental_div_mod(max * 20, 100);
    lemma_fundamental_div_mod(max * 15, 100);
    lemma_fundamental_div_mod(max * 10, 100);
    lemma_mod_bound(max * 40, 100);
    lemma_mod_bound(max * 20, 100);
    lemma_mod_bound(max * 15, 100);
    lemma_mod_bound(max * 10, 100);
    lemma_div_is_ordered(0, max * 40, 100);
    lemma_div_is_ordered(0, max * 20, 100);
    lemma_div_is_ordered(0, max * 15, 100);
    lemma_div_is_ordered(0, max * 10, 100);
    assert(max * 40 + max * 20 + max * 15 + max * 15 + max * 10 == max * 100) by (nonlinear_arith);
    lemma_div_multiples_vanish(max, 100);
}

/// Bookkeeping for the quota pass: the shortfall never turns negative, each
/// level's take stays within its bucket, and the cards taken so far plus the
/// outstanding shortfall never exceed the quotas seen so far (hence `max`).
pub proof fn lemma_quota_pass_accounting(cards: Seq<CardView>, max: int)
    requires
        max >= 0,
    ensures
        forall|lvl: int|
            1 <= lvl <= 5 ==> 0 <= #[trigger] quota_taken(cards, max, lvl) <= level_ids(
                cards,
                lvl,
            ).len(),
        forall|lvl: int| 0 <= lvl <= 5 ==> #[trigger] missing_after(cards, max, lvl) >= 0,
        forall|lvl: int|
            1 <= lvl <= 5 ==> missing_after(cards, max, lvl - 1) + quota(max, lvl) <= max,
        forall|lvl: int|
            0 <= lvl <= 5 ==> #[trigger] quota_pass(cards, max, lvl).len() + missing_after(
                cards,
                max,
                lvl,
            ) <= max,
        quota_pass(cards, max, 5).len() == quota_taken(cards, max, 1) + quota_taken(cards, max, 2)
            + quota_taken(cards, max, 3) + quota_taken(cards, max, 4) + quota_taken(cards, max, 5),
{
    lemma_quota_sum(max);
    let q1 = quota(max, 1);
    let q2 = quota(max, 2);
    let q3 = quota(max, 3);
    let q4 = quota(max, 4);
    let q5 = quota(max, 5);
    let l1 = level_ids(cards, 1).len() as int;
    let l2 = level_ids(cards, 2).len() as int;
    let l3 = level_ids(cards, 3).len() as int;
    let l4 = level_ids(cards, 4).len() as int;
    let l5 = level_ids(cards, 5).len() as int;
    assert(missing_after(cards, max, 0) == 0);
    assert(quota_pass(cards, max, 0) =~= Seq::<Seq<char>>::empty());
    let m1 = missing_after(cards, max, 1);
    let m2 = missing_after(cards, max, 2);
    let m3 = missing_after(cards, max, 3);
    let m4 = missing_after(cards, max, 4);
    let m5 = missing_after(cards, max, 5);
    let t1 = quota_taken(cards, max, 1);
    let t2 = quota_taken(cards, max, 2);
    let t3 = quota_taken(cards, max, 3);
    let t4 = quota_taken(cards, max, 4);
    let t5 = quota_taken(cards, max, 5);
    assert(0 <= t1 <= l1 && m1 >= 0 && t1 + m1 <= q1);
    assert(0 <= t2 <= l2 && m2 >= 0 && t2 + m2 <= m1 + q2);
    assert(0 <= t3 <= l3 && m3 >= 0 && t3 + m3 <= m2 + q3);
    assert(0 <= t4 <= l4 && m4 >= 0 && t4 + m4 <= m3 + q4);
    assert(0 <= t5 <= l5 && m5 >= 0 && t5 + m5 <= m4 + q5);
    assert(quota_pass(cards, max, 1).len() == t1) by {
        assert(level_ids(cards, 1).take(t1).len() == t1);
    }
    assert(quota_pass(cards, max, 2).len() == t1 + t2) by {
        assert(level_ids(cards, 2).take(t2).len() == t2);
    }
    assert(quota_pass(cards, max, 3).len() == t1 + t2 + t3) by {
        assert(level_ids(cards, 3).take(t3).len() == t3);
    }
    assert(quota_pass(cards, max, 4).len() == t1 + t2 + t3 + t4) by {
        assert(level_ids(cards, 4).take(t4).len() == t4);
    }
    assert(quota_pass(cards, max, 5).len() == t1 + t2 + t3 + t4 + t5) by {
        assert(level_ids(cards, 5).take(t5).len() == t5);
    }
}

/// When every level is between 1 and 5, the five buckets partition the pool.
pub proof fn lemma_level_partition(cards: Seq<CardView>)
    requires
        all_levels_valid(cards),
    ensures
        level_ids(cards, 1).len() + level_ids(cards, 2).len() + level_ids(cards, 3).len()
            + level_ids(cards, 4).len() + level_ids(cards, 5).len() == cards.len(),
    decreases cards.len(),
{
    if cards.len() > 0 {
        let prefix = cards.drop_last();
        assert forall|i: int| 0 <= i < prefix.len() implies 1 <= (#[trigger] prefix[i]).lvl
            <= 5 by {
            assert(prefix[i] == cards[i]);
        }
        lemma_level_partition(prefix);
        assert(1 <= cards.last().lvl <= 5);
    }
}

/// Returns `floor(max * percentage / 100)` for the five fixed per-level
/// percentages (40/20/15/15/10), and 0 for any level outside 1..=5.
pub fn get_count_for_level(max: usize, lvl: usize) -> (r: usize)
    ensures
        r == quota(max as int, lvl as int),
{
    proof {
        lemma_quota_sum(max as int);
        lemma_div_is_ordered(max as int * 40, max as int * 100, 100);
        lemma_div_is_ordered(max as int * 20, max as int * 100, 100);
        lemma_div_is_ordered(max as int * 15, max as int * 100, 100);
        lemma_div_is_ordered(max as int * 10, max as int * 100, 100);
        lemma_div_multiples_vanish(max as int, 100);
    }
    match lvl {
        1 => ((max as u128) * (LEVEL1_PERCENTAGE as u128) / 100) as usize,
        2 => ((max as u128) * (LEVEL2_PERCENTAGE as u128) / 100) as usize,
        3 => ((max as u128) * (LEVEL3_PERCENTAGE as u128) / 100) as usize,
        4 => ((max as u128) * (LEVEL4_PERCENTAGE as u128) / 100) as usize,
        5 => ((max as u128) * (LEVEL5_PERCENTAGE as u128) / 100) as usize,
        _ => 0,
    }
}

/// Appends clones of `bucket[start..start + count]` to `out`.
fn push_range(out: &mut Vec<String>, bucket: &Vec<String>, start: usize, count: usize)
    requires
        start + count <= bucket@.len(),
    ensures
        final(out).deep_view() == old(out).deep_view() + bucket.deep_view().subrange(
            start as int,
            start as int + count as int,
        ),
        final(out)@.len() == old(out)@.len() + count,
{
    let ghost out0 = out.deep_view();
    let blen = bucket.len();
    for j in 0..count
        invariant
            start + count <= blen == bucket@.len(),
            out@.len() == out0.len() + j,
            out.deep_view() == out0 + bucket.deep_view().subrange(
                start as int,
                start as int + j as int,
            ),
    {
        let ghost prev = out.deep_view();
        out.push(bucket[start + j].clone());
        proof {
            let e = bucket.deep_view()[start as int + j];
            assert(out.deep_view() =~= prev.push(e));
            assert(bucket.deep_view().subrange(start as int, start as int + j + 1)
                =~= bucket.deep_view().subrange(start as int, start as int + j as int).push(e));
            assert((out0 + bucket.deep_view().subrange(start as int, start as int + j as int)).push(
                e,
            ) =~= out0 + bucket.deep_view().subrange(start as int, start as int + j as int).push(e));
        }
    }
}

/// One level of the quota pass: takes the level's quota from the front of its
/// bucket (or the whole bucket if it falls short), then up to `missing` more,
/// and reports how many cards it took and the shortfall it carries out.
fn take_quota(out: &mut Vec<String>, bucket: &Vec<String>, q: usize, missing: usize) -> (r: (
    usize,
    usize,
))
    requires
        missing + q <= usize::MAX,
    ensures
        ({
            let len = bucket.deep_view().len() as int;
            &&& r.0 == quota_take(len, q as int, missing as int)
            &&& r.1 == quota_missing(len, q as int, missing as int)
            &&& final(out).deep_view() == old(out).deep_view() + bucket.deep_view().take(
                r.0 as int,
            )
        }),
{
    let len = bucket.len();
    if len == 0 {
        proof {
            assert(out.deep_view() =~= out.deep_view() + bucket.deep_view().take(0));
        }
        return (0, missing);
    }
    if len < q {
        push_range(out, bucket, 0, len);
        return (len, missing + (q - len));
    }
    push_range(out, bucket, 0, q);
    let avail = len - q;
    let extra = if missing <= avail {
        missing
    } else {
        avail
    };
    push_range(out, bucket, q, extra);
    proof {
        assert(out.deep_view() =~= old(out).deep_view() + bucket.deep_view().take(
            q as int + extra as int,
        ));
    }
    (q + extra, missing - extra)
}

/// One level of the quota pass, tied to its place in [`quota_pass`]: takes
/// level `lvl`'s quota (plus carried shortfall) from its bucket and threads
/// the shortfall on.
fn quota_level(
    out: &mut Vec<String>,
    bucket: &Vec<String>,
    max: usize,
    lvl: usize,
    missing_in: usize,
    Ghost(cv): Ghost<Seq<CardView>>,
) -> (r: (usize, usize))
    requires
        1 <= lvl <= 5,
        bucket.deep_view() == level_ids(cv, lvl as int),
        missing_in == missing_after(cv, max as int, lvl as int - 1),
        missing_in + quota(max as int, lvl as int) <= usize::MAX,
        old(out).deep_view() == quota_pass(cv, max as int, lvl as int - 1),
    ensures
        r.0 == quota_taken(cv, max as int, lvl as int),
        r.1 == missing_after(cv, max as int, lvl as int),
        final(out).deep_view() == quota_pass(cv, max as int, lvl as int),
{
    let q = get_count_for_level(max, lvl);
    let r = take_quota(out, bucket, q, missing_in);
    proof {
        assert(out.deep_view() == quota_pass(cv, max as int, lvl as int - 1) + level_ids(
            cv,
            lvl as int,
        ).take(quota_taken(cv, max as int, lvl as int)));
    }
    r
}

/// One level of the backfill pass, tied to its place in [`backfill_pass`]:
/// drains up to `missing_in` cards from what the quota pass left of level
/// `lvl`'s bucket, and reports the slots still unfilled.
fn backfill_level(
    out: &mut Vec<String>,
    bucket: &Vec<String>,
    used: usize,
    missing_in: usize,
    lvl: usize,
    Ghost(cv): Ghost<Seq<CardView>>,
    Ghost(maxi): Ghost<int>,
) -> (r: usize)
    requires
        1 <= lvl <= 5,
        maxi >= 0,
        bucket.deep_view() == level_ids(cv, lvl as int),
        used == quota_taken(cv, maxi, lvl as int),
        missing_in == backfill_missing_at(cv, maxi, lvl as int),
        old(out).deep_view() == quota_pass(cv, maxi, 5) + backfill_pass(cv, maxi, lvl as int + 1),
    ensures
        r == backfill_missing_at(cv, maxi, lvl as int - 1),
        final(out).deep_view() == quota_pass(cv, maxi, 5) + backfill_pass(cv, maxi, lvl as int),
{
    proof {
        lemma_quota_pass_accounting(cv, maxi);
    }
    let rem = bucket.len() - used;
    let take = if missing_in <= rem {
        missing_in
    } else {
        rem
    };
    push_range(out, bucket, used, take);
    proof {
        assert(take == backfill_taken(cv, maxi, lvl as int));
        assert(bucket.deep_view().subrange(used as int, used as int + take as int)
            == backfill_segment(cv, maxi, lvl as int));
        assert(out.deep_view() =~= quota_pass(cv, maxi, 5) + backfill_pass(cv, maxi, lvl as int));
    }
    missing_in - take
}

/// Selects up to `max` card identifiers from the pool, exactly as
/// [`allocate_spec`] says: the quota pass over levels 1..=5, truncation if it
/// overshot `max`, and the backfill pass over levels 5..=1 if it fell short.
/// For a pool of properly leveled cards the output holds exactly `max`
/// identifiers when the pool suffices, and the whole pool otherwise.
pub fn get_user_cards(cards: Vec<LeveledCard>, max: usize) -> (out: Vec<String>)
    ensures
        out.deep_view() == allocate_spec(cards.deep_view(), max as int),
        out@.len() <= max,
        all_levels_valid(cards.deep_view()) && cards@.len() >= max ==> out@.len() == max,
        all_levels_valid(cards.deep_view()) && cards@.len() < max ==> out@.len() == cards@.len(),
{
    let ghost cv = cards.deep_view();
    // Partition the pool into the five level buckets, keeping each card's
    // original relative order; cards outside 1..=5 carry no quota and are
    // dropped.
    let mut b1: Vec<String> = Vec::new();
    let mut b2: Vec<String> = Vec::new();
    let mut b3: Vec<String> = Vec::new();
    let mut b4: Vec<String> = Vec::new();
    let mut b5: Vec<String> = Vec::new();
    for i in 0..cards.len()
        invariant
            cv == cards.deep_view(),
            b1.deep_view() == level_ids(cv.take(i as int), 1),
            b2.deep_view() == level_ids(cv.take(i as int), 2),
            b3.deep_view() == level_ids(cv.take(i as int), 3),
            b4.deep_view() == level_ids(cv.take(i as int), 4),
            b5.deep_view() == level_ids(cv.take(i as int), 5),
    {
        proof {
            assert(cv.take(i + 1).drop_last() =~= cv.take(i as int));
            assert(cv.take(i + 1).last() == cv[i as int]);
        }
        let lvl = cards[i].lvl;
        if lvl == 1 {
            b1.push(cards[i].id.clone());
        } else if lvl == 2 {
            b2.push(cards[i].id.clone());
        } else if lvl == 3 {
            b3.push(cards[i].id.clone());
        } else if lvl == 4 {
            b4.push(cards[i].id.clone());
        } else if lvl == 5 {
            b5.push(cards[i].id.clone());
        }
        proof {
            assert(b1.deep_view() =~= level_ids(cv.take(i + 1), 1));
            assert(b2.deep_view() =~= level_ids(cv.take(i + 1), 2));
            assert(b3.deep_view() =~= level_ids(cv.take(i + 1), 3));
            assert(b4.deep_view() =~= level_ids(cv.take(i + 1), 4));
            assert(b5.deep_view() =~= level_ids(cv.take(i + 1), 5));
        }
    }
    let ghost maxi = max as int;
    proof {
        assert(cv.take(cards@.len() as int) =~= cv);
        lemma_quota_pass_accounting(cv, maxi);
    }
    // The quota pass: levels 1 through 5 in order, threading the shortfall.
    let mut out: Vec<String> = Vec::new();
    proof {
        assert(out.deep_view() =~= quota_pass(cv, maxi, 0));
    }
    let (used1, missing1) = quota_level(&mut out, &b1, max, 1, 0, Ghost(cv));
    let (used2, missing2) = quota_level(&mut out, &b2, max, 2, missing1, Ghost(cv));
    let (used3, missing3) = quota_level(&mut out, &b3, max, 3, missing2, Ghost(cv));
    let (used4, missing4) = quota_level(&mut out, &b4, max, 4, missing3, Ghost(cv));
    let (used5, _missing5) = quota_level(&mut out, &b5, max, 5, missing4, Ghost(cv));
    let length = out.len();
    // All cards requested are there.
    if max == length {
        proof {
            assert(quota_pass(cv, maxi, 5).take(maxi) =~= quota_pass(cv, maxi, 5));
            lemma_allocate_within_max(cv, maxi);
            if all_levels_valid(cv) {
                lemma_allocate_len(cv, maxi);
            }
        }
        return out;
    }
    // Remove extra cards if any.
    if max < length {
        out.truncate(max);
        proof {
            assert(out.deep_view() =~= quota_pass(cv, maxi, 5).take(maxi));
            lemma_allocate_within_max(cv, maxi);
            if all_levels_valid(cv) {
                lemma_allocate_len(cv, maxi);
            }
        }
        return out;
    }
    // Fill the rest of the slots in reverse level order from the buckets'
    // unconsumed remainders.
    let mut missing = max - length;
    proof {
        assert(out.deep_view() =~= quota_pass(cv, maxi, 5) + backfill_pass(cv, maxi, 6));
        assert(missing == backfill_missing_at(cv, maxi, 5));
    }
    missing = backfill_level(&mut out, &b5, used5, missing, 5, Ghost(cv), Ghost(maxi));
    missing = backfill_level(&mut out, &b4, used4, missing, 4, Ghost(cv), Ghost(maxi));
    missing = backfill_level(&mut out, &b3, used3, missing, 3, Ghost(cv), Ghost(maxi));
    missing = backfill_level(&mut out, &b2, used2, missing, 2, Ghost(cv), Ghost(maxi));
    let _ = backfill_level(&mut out, &b1, used1, missing, 1, Ghost(cv), Ghost(maxi));
    proof {
        lemma_allocate_within_max(cv, maxi);
        if all_levels_valid(cv) {
            lemma_allocate_len(cv, maxi);
        }
    }
    out
}

/// Law: the allocation never returns more than `max` cards, whatever levels
/// the pool's cards carry; when the quota pass fell short, the output's
/// length is `max` less only the slots that even the backfill pass could not
/// fill from the buckets' remainders.
pub proof fn lemma_allocate_within_max(cards: Seq<CardView>, max: int)
    requires
        max >= 0,
    ensures
        allocate_spec(cards, max).len() <= max,
        backfill_missing_at(cards, max, 0) >= 0,
        quota_pass(cards, max, 5).len() < max ==> allocate_spec(cards, max).len() == max
            - backfill_missing_at(cards, max, 0),
        backfill_missing_at(cards, max, 0) == ({
            let slack = max - quota_pass(cards, max, 5).len() - (level_remainder(cards, max, 1)
                + level_remainder(cards, max, 2) + level_remainder(cards, max, 3)
                + level_remainder(cards, max, 4) + level_remainder(cards, max, 5));
            if slack >= 0 {
                slack
            } else {
                0
            }
        }),
{
    lemma_quota_pass_accounting(cards, max);
    let first = quota_pass(cards, max, 5);
    let r1 = level_remainder(cards, max, 1);
    let r2 = level_remainder(cards, max, 2);
    let r3 = level_remainder(cards, max, 3);
    let r4 = level_remainder(cards, max, 4);
    let r5 = level_remainder(cards, max, 5);
    let m5 = backfill_missing_at(cards, max, 5);
    let m4 = backfill_missing_at(cards, max, 4);
    let m3 = backfill_missing_at(cards, max, 3);
    let m2 = backfill_missing_at(cards, max, 2);
    let m1 = backfill_missing_at(cards, max, 1);
    let m0 = backfill_missing_at(cards, max, 0);
    assert(m5 == max - first.len());
    assert(m4 == if m5 - r5 >= 0 { m5 - r5 } else { 0 });
    assert(m3 == if m5 - r5 - r4 >= 0 { m5 - r5 - r4 } else { 0 });
    assert(m2 == if m5 - r5 - r4 - r3 >= 0 { m5 - r5 - r4 - r3 } else { 0 });
    assert(m1 == if m5 - r5 - r4 - r3 - r2 >= 0 { m5 - r5 - r4 - r3 - r2 } else { 0 });
    assert(m0 == if m5 - r5 - r4 - r3 - r2 - r1 >= 0 { m5 - r5 - r4 - r3 - r2 - r1 } else { 0 });
    let u5 = backfill_taken(cards, max, 5);
    let u4 = backfill_taken(cards, max, 4);
    let u3 = backfill_taken(cards, max, 3);
    let u2 = backfill_taken(cards, max, 2);
    let u1 = backfill_taken(cards, max, 1);
    assert(u5 + u4 + u3 + u2 + u1 == m5 - m0);
    assert(backfill_segment(cards, max, 5).len() == u5);
    assert(backfill_segment(cards, max, 4).len() == u4);
    assert(backfill_segment(cards, max, 3).len() == u3);
    assert(backfill_segment(cards, max, 2).len() == u2);
    assert(backfill_segment(cards, max, 1).len() == u1);
    assert(backfill_pass(cards, max, 6).len() == 0);
    assert(backfill_pass(cards, max, 5).len() == u5);
    assert(backfill_pass(cards, max, 4).len() == u5 + u4);
    assert(backfill_pass(cards, max, 3).len() == u5 + u4 + u3);
    assert(backfill_pass(cards, max, 2).len() == u5 + u4 + u3 + u2);
    assert(backfill_pass(cards, max, 1).len() == u5 + u4 + u3 + u2 + u1);
    if first.len() >= max {
        assert(first.len() == max);
        assert(first.take(max).len() == max);
    } else {
        assert(allocate_spec(cards, max).len() == max - m0);
    }
}

/// Laws: the allocation returns exactly `max` cards whenever a properly
/// leveled pool holds at least `max` of them, and the whole pool otherwise.
pub proof fn lemma_allocate_len(cards: Seq<CardView>, max: int)
    requires
        max >= 0,
        all_levels_valid(cards),
    ensures
        cards.len() >= max ==> allocate_spec(cards, max).len() == max,
        cards.len() < max ==> allocate_spec(cards, max).len() == cards.len(),
{
    lemma_quota_pass_accounting(cards, max);
    lemma_allocate_within_max(cards, max);
    lemma_level_partition(cards);
    let first = quota_pass(cards, max, 5);
    assert(level_remainder(cards, max, 1) + level_remainder(cards, max, 2) + level_remainder(
        cards,
        max,
        3,
    ) + level_remainder(cards, max, 4) + level_remainder(cards, max, 5) == cards.len()
        - first.len());
    if first.len() >= max {
        assert(first.len() == max);
        assert(first.take(max).len() == max);
        assert(cards.len() >= first.len());
    }
}

/// Law: whenever a level can supply its quota, the allocation takes at least
/// `quota(max, lvl)` cards from that level — the quota pass already takes that
/// many, and the backfill pass only ever adds cards, never removes any.
pub proof fn lemma_quota_floor_met(cards: Seq<CardView>, max: int, lvl: int)
    requires
        max >= 0,
        1 <= lvl <= 5,
        level_ids(cards, lvl).len() >= quota(max, lvl),
    ensures
        taken_at_level(cards, max, lvl) >= quota(max, lvl),
{
    lemma_quota_sum(max);
    lemma_quota_pass_accounting(cards, max);
    assert(quota_taken(cards, max, lvl) >= quota(max, lvl));
    assert(backfill_missing_at(cards, max, 5) >= 0);
    assert(backfill_missing_at(cards, max, 4) >= 0);
    assert(backfill_missing_at(cards, max, 3) >= 0);
    assert(backfill_missing_at(cards, max, 2) >= 0);
    assert(backfill_missing_at(cards, max, 1) >= 0);
    assert(backfill_taken(cards, max, lvl) >= 0);
}

/// The identifiers of all cards, in the order given.
pub open spec fn ids_of(cards: Seq<CardView>) -> Seq<Seq<char>> {
    cards.map_values(|c: CardView| c.id)
}

/// Serves a deal request from an already-fetched pool: when the pool does not
/// exceed the request, every card is returned in the order given; otherwise
/// the leveled allocation picks exactly `max`.
pub fn deal_cards(cards: Vec<LeveledCard>, max: usize) -> (out: Vec<String>)
    ensures
        cards@.len() <= max ==> out.deep_view() == ids_of(cards.deep_view()),
        cards@.len() > max ==> out.deep_view() == allocate_spec(cards.deep_view(), max as int),
        cards@.len() <= max ==> out@.len() == cards@.len(),
        cards@.len() > max ==> out@.len() <= max,
        all_levels_valid(cards.deep_view()) && cards@.len() > max ==> out@.len() == max,
{
    let ghost cv = cards.deep_view();
    if cards.len() <= max {
        let mut out: Vec<String> = Vec::new();
        for i in 0..cards.len()
            invariant
                cv == cards.deep_view(),
                out.deep_view() == ids_of(cv).take(i as int),
        {
            let ghost prev = out.deep_view();
            out.push(cards[i].id.clone());
            proof {
                assert(ids_of(cv)[i as int] == cv[i as int].id);
                assert(out.deep_view() =~= prev.push(cv[i as int].id));
                assert(ids_of(cv).take(i + 1) =~= ids_of(cv).take(i as int).push(
                    ids_of(cv)[i as int],
                ));
            }
        }
        proof {
            assert(ids_of(cv).take(cards@.len() as int) =~= ids_of(cv));
        }
        out
    } else {
        get_user_cards(cards, max)
    }
}

/// Builds a pool of `max` cards whose identifiers are `0`, `1`, ... and whose
/// levels cycle through 1..=5, together with a map from identifier to level.
pub fn _create_test_level_cards(max: usize) -> (r: (Vec<LeveledCard>, HashMap<String, usize>))
    ensures
        r.0.deep_view().len() == max,
        forall|i: int|
            0 <= i < max ==> (#[trigger] r.0.deep_view()[i]).lvl == i % 5 + 1
                && r.0.deep_view()[i].id == dec_digits(i as nat),
        all_levels_valid(r.0.deep_view()),
{
    let mut out: Vec<LeveledCard> = Vec::new();
    let mut level_map: HashMap<String, usize> = HashMap::new();
    for i in 0..max
        invariant
            out.deep_view().len() == i,
            forall|j: int|
                0 <= j < i ==> (#[trigger] out.deep_view()[j]).lvl == j % 5 + 1
                    && out.deep_view()[j].id == dec_digits(j as nat),
    {
        let id = usize_to_string(i);
        let lvl = i % 5 + 1;
        level_map.insert(id.clone(), lvl);
        let ghost prev = out.deep_view();
        out.push(LeveledCard { id, lvl });
        proof {
            assert(out.deep_view() =~= prev.push(
                CardView { id: dec_digits(i as nat), lvl: i % 5 + 1 },
            ));
        }
    }
    (out, level_map)
}

} // verus!
