//! Ranking memes: the first memes of a list in decreasing order of a key.

use vstd::prelude::*;
use vstd::multiset::Multiset;
use crate::models::Meme;

verus! {

broadcast use vstd::seq_lib::group_to_multiset_ensures, vstd::multiset::group_multiset_axioms;

/// The key a ranking orders memes by.
#[derive(Debug, Clone, Copy, PartialEq, Eq, Structural)]
pub enum RankBy {
    /// The instant the meme was posted.
    PostedAt,
    /// The meme's heat.
    Heat,
    /// The meme's score.
    Score,
}

/// The value of the ranking key of a meme.
pub open spec fn rank_key(m: Meme, by: RankBy) -> int {
    match by {
        RankBy::PostedAt => m.posted_at as int,
        RankBy::Heat => m.heat as int,
        RankBy::Score => m.score as int,
    }
}

/// Each ranking orders memes exactly as their field does: by posting instant,
/// by heat key, by score key. In particular a hotter meme ranks strictly
/// above a colder one.
pub proof fn lemma_rank_key_orders_by_field(a: Meme, b: Meme)
    ensures
        (rank_key(a, RankBy::PostedAt) <= rank_key(b, RankBy::PostedAt)) == (a.posted_at
            <= b.posted_at),
        (rank_key(a, RankBy::Heat) <= rank_key(b, RankBy::Heat)) == (a.heat <= b.heat),
        (rank_key(a, RankBy::Score) <= rank_key(b, RankBy::Score)) == (a.score <= b.score),
        (rank_key(a, RankBy::Heat) < rank_key(b, RankBy::Heat)) == (a.heat < b.heat),
{
}

/// The memes of `s` come in decreasing (non-increasing) order of the key.
pub open spec fn sorted_desc(s: Seq<Meme>, by: RankBy) -> bool {
    forall|i: int, j: int| 0 <= i <= j < s.len() ==> rank_key(s[i], by) >= rank_key(s[j], by)
}

/// `top` is a ranking of the first memes of `all`: memes of `all`, in
/// decreasing order of the key, and no meme of `all` that it leaves out ranks
/// above a meme that it holds.
pub open spec fn is_top_of(top: Seq<Meme>, all: Seq<Meme>, by: RankBy) -> bool {
    &&& top.to_multiset().subset_of(all.to_multiset())
    &&& sorted_desc(top, by)
    &&& forall|x: Meme, i: int|
        #![trigger all.to_multiset().count(x), top[i]]
        top.to_multiset().count(x) < all.to_multiset().count(x) && 0 <= i < top.len() ==> rank_key(
            x,
            by,
        ) <= rank_key(top[i], by)
}

fn key_value(m: &Meme, by: RankBy) -> (k: i64)
    ensures
        k == rank_key(*m, by),
{
    match by {
        RankBy::PostedAt => m.posted_at,
        RankBy::Heat => m.heat as i64,
        RankBy::Score => m.score as i64,
    }
}

/// The memes of `s` come in increasing (non-decreasing) order of the key.
pub open spec fn sorted_asc(s: Seq<Meme>, by: RankBy) -> bool {
    forall|i: int, j: int| 0 <= i <= j < s.len() ==> rank_key(s[i], by) <= rank_key(s[j], by)
}

proof fn lemma_pop_multiset(s: Seq<Meme>)
    requires
        s.len() > 0,
    ensures
        s.subrange(0, s.len() - 1).to_multiset() == s.to_multiset().remove(s[s.len() - 1]),
{
    assert(s.subrange(0, s.len() - 1) =~= s.remove(s.len() - 1));
}

/// Merges two lists in decreasing order of the key into one.
fn merge_desc(a: Vec<Meme>, b: Vec<Meme>, by: RankBy) -> (r: Vec<Meme>)
    requires
        sorted_desc(a@, by),
        sorted_desc(b@, by),
    ensures
        sorted_desc(r@, by),
        r@.to_multiset() == a@.to_multiset().add(b@.to_multiset()),
{
    let ghost total = a@.to_multiset().add(b@.to_multiset());
    let mut a = a;
    let mut b = b;
    // The smallest memes taken so far, in increasing order.
    let mut low: Vec<Meme> = Vec::new();
    while a.len() > 0 || b.len() > 0
        invariant
            sorted_desc(a@, by),
            sorted_desc(b@, by),
            sorted_asc(low@, by),
            low@.to_multiset().add(a@.to_multiset()).add(b@.to_multiset()) == total,
            forall|i: int, j: int|
                0 <= i < low.len() && 0 <= j < a.len() ==> rank_key(#[trigger] low@[i], by)
                    <= rank_key(#[trigger] a@[j], by),
            forall|i: int, j: int|
                0 <= i < low.len() && 0 <= j < b.len() ==> rank_key(#[trigger] low@[i], by)
                    <= rank_key(#[trigger] b@[j], by),
        decreases a.len() + b.len(),
    {
        let take_a = if a.len() == 0 {
            false
        } else if b.len() == 0 {
            true
        } else {
            key_value(&a[a.len() - 1], by) <= key_value(&b[b.len() - 1], by)
        };
        let ghost old_low = low@;
        let ghost old_a = a@;
        let ghost old_b = b@;
        let m = if take_a {
            proof {
                lemma_pop_multiset(a@);
            }
            a.pop().unwrap()
        } else {
            proof {
                lemma_pop_multiset(b@);
            }
            b.pop().unwrap()
        };
        low.push(m);
        proof {
            assert(low@ == old_low.push(m));
            assert(low@.to_multiset() == old_low.to_multiset().insert(m));
            assert(low@.to_multiset().add(a@.to_multiset()).add(b@.to_multiset()) =~= total);
            if take_a {
                assert(m == old_a[old_a.len() - 1]);
                assert forall|j: int| 0 <= j < b.len() implies rank_key(m, by) <= rank_key(
                    #[trigger] b@[j],
                    by,
                ) by {
                    if old_b.len() > 0 {
                        assert(rank_key(old_b[j], by) >= rank_key(old_b[old_b.len() - 1], by));
                    }
                }
            } else {
                assert(m == old_b[old_b.len() - 1]);
                assert forall|j: int| 0 <= j < a.len() implies rank_key(m, by) <= rank_key(
                    #[trigger] a@[j],
                    by,
                ) by {
                    assert(rank_key(old_a[j], by) >= rank_key(old_a[old_a.len() - 1], by));
                }
            }
            assert forall|i: int, j: int|
                0 <= i < low.len() && 0 <= j < a.len() implies rank_key(#[trigger] low@[i], by)
                <= rank_key(#[trigger] a@[j], by) by {
                assert(a@[j] == old_a[j]);
                if i < old_low.len() {
                    assert(low@[i] == old_low[i]);
                }
            }
            assert forall|i: int, j: int|
                0 <= i < low.len() && 0 <= j < b.len() implies rank_key(#[trigger] low@[i], by)
                <= rank_key(#[trigger] b@[j], by) by {
                assert(b@[j] == old_b[j]);
                if i < old_low.len() {
                    assert(low@[i] == old_low[i]);
                }
            }
            assert forall|i: int, j: int| 0 <= i <= j < low.len() implies rank_key(low@[i], by)
                <= rank_key(low@[j], by) by {
                if j < old_low.len() {
                    assert(low@[i] == old_low[i]);
                    assert(low@[j] == old_low[j]);
                } else if i < j {
                    assert(low@[i] == old_low[i]);
                    if take_a {
                        assert(rank_key(old_low[i], by) <= rank_key(old_a[old_a.len() - 1], by));
                    } else {
                        assert(rank_key(old_low[i], by) <= rank_key(old_b[old_b.len() - 1], by));
                    }
                }
            }
        }
    }
    proof {
        assert(a@.to_multiset() =~= Multiset::empty());
        assert(b@.to_multiset() =~= Multiset::empty());
        assert(low@.to_multiset() =~= total);
    }
    // Taking the memes off the top of `low` puts them in decreasing order.
    let mut r: Vec<Meme> = Vec::new();
    while low.len() > 0
        invariant
            sorted_asc(low@, by),
            sorted_desc(r@, by),
            r@.to_multiset().add(low@.to_multiset()) == total,
            forall|i: int, j: int|
                0 <= i < r.len() && 0 <= j < low.len() ==> rank_key(#[trigger] low@[j], by)
                    <= rank_key(#[trigger] r@[i], by),
        decreases low.len(),
    {
        let ghost old_low = low@;
        let ghost old_r = r@;
        proof {
            lemma_pop_multiset(low@);
        }
        let m = low.pop().unwrap();
        r.push(m);
        proof {
            assert(m == old_low[old_low.len() - 1]);
            assert(r@ == old_r.push(m));
            assert(r@.to_multiset() == old_r.to_multiset().insert(m));
            assert(r@.to_multiset().add(low@.to_multiset()) =~= total);
            assert forall|i: int, j: int|
                0 <= i < r.len() && 0 <= j < low.len() implies rank_key(#[trigger] low@[j], by)
                <= rank_key(#[trigger] r@[i], by) by {
                assert(low@[j] == old_low[j]);
                if i < old_r.len() {
                    assert(r@[i] == old_r[i]);
                } else {
                    assert(rank_key(old_low[j], by) <= rank_key(old_low[old_low.len() - 1], by));
                }
            }
            assert forall|i: int, j: int| 0 <= i <= j < r.len() implies rank_key(r@[i], by)
                >= rank_key(r@[j], by) by {
                if j < old_r.len() {
                    assert(r@[i] == old_r[i]);
                    assert(r@[j] == old_r[j]);
                } else if i < j {
                    assert(r@[i] == old_r[i]);
                }
            }
        }
    }
    proof {
        assert(low@.to_multiset() =~= Multiset::empty());
        assert(r@.to_multiset() =~= total);
    }
    r
}

/// The memes in decreasing order of the key; among memes of equal key the
/// order is left open.
pub fn sort_by_rank(memes: Vec<Meme>, by: RankBy) -> (r: Vec<Meme>)
    ensures
        sorted_desc(r@, by),
        forall|i: int, j: int| 0 <= i <= j < r.len() ==> rank_key(r@[i], by) >= rank_key(r@[j], by),
        r@.to_multiset() == memes@.to_multiset(),
        r.len() == memes.len(),
    decreases memes.len(),
{
    if memes.len() <= 1 {
        return memes;
    }
    let ghost whole = memes@;
    let mut left = memes;
    let mid = left.len() / 2;
    let right = left.split_off(mid);
    proof {
        assert(whole =~= left@ + right@);
        vstd::seq_lib::lemma_multiset_commutative(left@, right@);
    }
    let sorted_left = sort_by_rank(left, by);
    let sorted_right = sort_by_rank(right, by);
    let r = merge_desc(sorted_left, sorted_right, by);
    proof {
        assert(r@.to_multiset().len() == whole.to_multiset().len());
    }
    r
}

/// The first `quantity` memes of `memes` (all of them, where there are fewer)
/// in decreasing order of the key. Among memes of equal key the order is left
/// open.
pub fn top_by(memes: Vec<Meme>, by: RankBy, quantity: usize) -> (top: Vec<Meme>)
    ensures
        top.len() == if quantity < memes.len() {
            quantity as int
        } else {
            memes.len() as int
        },
        is_top_of(top@, memes@, by),
        quantity >= memes.len() ==> top@.to_multiset() == memes@.to_multiset(),
        top@.to_multiset().subset_of(memes@.to_multiset()),
        forall|i: int, j: int|
            0 <= i <= j < top.len() ==> rank_key(top@[i], by) >= rank_key(top@[j], by),
        forall|x: Meme, i: int|
            #![trigger memes@.to_multiset().count(x), top@[i]]
            top@.to_multiset().count(x) < memes@.to_multiset().count(x) && 0 <= i < top.len()
                ==> rank_key(x, by) <= rank_key(top@[i], by),
{
    let ghost all = memes@;
    let mut top = sort_by_rank(memes, by);
    let ghost full = top@;
    top.truncate(quantity);
    proof {
        let k = top@.len() as int;
        let rest = full.subrange(k, full.len() as int);
        assert(full =~= top@ + rest);
        vstd::seq_lib::lemma_multiset_commutative(top@, rest);
        assert(top@.to_multiset().subset_of(all.to_multiset()));
        assert forall|i: int, j: int| 0 <= i <= j < top.len() implies rank_key(top@[i], by)
            >= rank_key(top@[j], by) by {
            assert(top@[i] == full[i] && top@[j] == full[j]);
        }
        assert forall|x: Meme, i: int|
            #![trigger all.to_multiset().count(x), top@[i]]
            top@.to_multiset().count(x) < all.to_multiset().count(x) && 0 <= i < top.len() implies rank_key(
            x,
            by,
        ) <= rank_key(top@[i], by) by {
            assert(rest.to_multiset().count(x) > 0);
            assert(rest.contains(x));
            let j = choose|j: int| 0 <= j < rest.len() && rest[j] == x;
            assert(rest[j] == full[k + j]);
            assert(top@[i] == full[i]);
        }
        if quantity >= all.len() {
            assert(rest =~= Seq::<Meme>::empty());
            assert(top@.to_multiset() =~= all.to_multiset());
        }
    }
    top
}

} // verus!
