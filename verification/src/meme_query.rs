//! A query over memes: which memes (all, one user's, one tag's) and in which
//! order (as loaded, newest first, hottest first, best rated first).

use vstd::prelude::*;
use crate::models::Meme;
use crate::ranking::{RankBy, sort_by_rank, sorted_desc};

verus! {

/// The order of the query's result.
#[derive(Debug, Clone, Copy, PartialEq, Eq, Structural)]
pub enum Order {
    /// As loaded.
    Unordered,
    Date,
    Heat,
    Rating,
}

/// The memes the query selects.
#[derive(Debug, Clone, Copy, PartialEq, Eq, Structural)]
pub enum Filter {
    /// Every meme.
    All,
    User(i32),
    Tag(i32),
}

/// A query over memes, built step by step: the last filter and the last order
/// given are the ones that hold.
#[derive(Debug, Clone, Copy, PartialEq, Eq, Structural)]
pub struct MemeQuery {
    pub order: Order,
    pub filter: Filter,
}

/// The key that an order ranks by, where it ranks at all.
pub open spec fn rank_of(order: Order) -> Option<RankBy> {
    match order {
        Order::Unordered => None,
        Order::Date => Some(RankBy::PostedAt),
        Order::Heat => Some(RankBy::Heat),
        Order::Rating => Some(RankBy::Score),
    }
}

impl MemeQuery {
    /// All memes, as loaded.
    pub fn new() -> (r: Self)
        ensures
            r == (MemeQuery { order: Order::Unordered, filter: Filter::All }),
    {
        MemeQuery { order: Order::Unordered, filter: Filter::All }
    }

    /// Only the memes with tag `tagid`.
    pub fn by_tag(self, tagid: i32) -> (r: Self)
        ensures
            r == (MemeQuery { filter: Filter::Tag(tagid), ..self }),
    {
        MemeQuery { filter: Filter::Tag(tagid), ..self }
    }

    /// Only the memes of user `userid`.
    pub fn by_user(self, userid: i32) -> (r: Self)
        ensures
            r == (MemeQuery { filter: Filter::User(userid), ..self }),
    {
        MemeQuery { filter: Filter::User(userid), ..self }
    }

    /// Hottest first.
    pub fn order_hot(self) -> (r: Self)
        ensures
            r == (MemeQuery { order: Order::Heat, ..self }),
    {
        MemeQuery { order: Order::Heat, ..self }
    }

    /// Newest first.
    pub fn order_date(self) -> (r: Self)
        ensures
            r == (MemeQuery { order: Order::Date, ..self }),
    {
        MemeQuery { order: Order::Date, ..self }
    }

    /// Best rated first.
    pub fn order_rating(self) -> (r: Self)
        ensures
            r == (MemeQuery { order: Order::Rating, ..self }),
    {
        MemeQuery { order: Order::Rating, ..self }
    }

    /// Puts the memes that the filter selected, `filtered`, in the query's
    /// order. Without an order they stay as they are; otherwise the result
    /// holds the same memes in decreasing order of the order's key, equal keys
    /// in an order left open.
    pub fn execute(&self, filtered: Vec<Meme>) -> (r: Vec<Meme>)
        ensures
            rank_of(self.order) is None ==> r@ == filtered@,
            rank_of(self.order) matches Some(by) ==> r@.to_multiset() == filtered@.to_multiset()
                && sorted_desc(r@, by),
        self.order == Order::Date ==> forall|i: int, j: int|
            0 <= i <= j < r.len() ==> r@[i].posted_at >= r@[j].posted_at,
        self.order == Order::Heat ==> forall|i: int, j: int|
            0 <= i <= j < r.len() ==> r@[i].heat >= r@[j].heat,
        self.order == Order::Rating ==> forall|i: int, j: int|
            0 <= i <= j < r.len() ==> r@[i].score >= r@[j].score,
    {
        let r = match self.order {
            Order::Unordered => filtered,
            Order::Date => sort_by_rank(filtered, RankBy::PostedAt),
            Order::Heat => sort_by_rank(filtered, RankBy::Heat),
            Order::Rating => sort_by_rank(filtered, RankBy::Score),
        };
        proof {
            assert forall|i: int, j: int| 0 <= i <= j < r.len() implies {
                &&& self.order == Order::Date ==> r@[i].posted_at >= r@[j].posted_at
                &&& self.order == Order::Heat ==> r@[i].heat >= r@[j].heat
                &&& self.order == Order::Rating ==> r@[i].score >= r@[j].score
            } by {
                crate::ranking::lemma_rank_key_orders_by_field(r@[j], r@[i]);
            }
        }
        r
    }
}

} // verus!
