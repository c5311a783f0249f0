//! Ranking and voting logic of the meme board, with the command language of
//! its console front end.

pub mod rating;
pub mod models;
pub mod voting;
pub mod ranking;
pub mod meme_query;
pub mod text;
pub mod cli;

use vstd::prelude::*;

verus! {

/// The `quantity` hottest memes of `memes`, hottest first (all of them where
/// there are fewer). Heats are taken as given: decaying them to the present is
/// the caller's part.
pub fn memes_by_heat(memes: Vec<models::Meme>, quantity: usize) -> (r: Vec<models::Meme>)
    ensures
        r.len() == if quantity < memes.len() {
            quantity as int
        } else {
            memes.len() as int
        },
        ranking::is_top_of(r@, memes@, ranking::RankBy::Heat),
        forall|i: int, j: int| 0 <= i <= j < r.len() ==> r@[i].heat >= r@[j].heat,
        forall|x: models::Meme, i: int|
            #![trigger memes@.to_multiset().count(x), r@[i]]
            r@.to_multiset().count(x) < memes@.to_multiset().count(x) && 0 <= i < r.len() ==> x.heat
                <= r@[i].heat,
{
    let r = ranking::top_by(memes, ranking::RankBy::Heat, quantity);
    proof {
        assert forall|i: int, j: int| 0 <= i <= j < r.len() implies r@[i].heat >= r@[j].heat by {
            ranking::lemma_rank_key_orders_by_field(r@[j], r@[i]);
        }
        assert forall|x: models::Meme, i: int|
            #![trigger memes@.to_multiset().count(x), r@[i]]
            r@.to_multiset().count(x) < memes@.to_multiset().count(x) && 0 <= i < r.len() implies x.heat
            <= r@[i].heat by {
            ranking::lemma_rank_key_orders_by_field(x, r@[i]);
        }
    }
    r
}

} // verus!
