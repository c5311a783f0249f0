//! Votes: how one vote changes the stored vote record of its (meme, user)
//! pair and the vote counters of the meme and of its author.
//!
//! Upvoting an already upvoted meme cancels the vote (the same for
//! downvotes); upvoting a downvoted meme cancels the downvote and adds an
//! upvote (the same reversed).

use vstd::prelude::*;
use crate::models::{Action, NewAction};

verus! {

/// The stored vote of one user on one meme, as (is_upvote, is_active);
/// `None` where the user never voted on the meme.
pub type VoteRecord = Option<(bool, bool)>;

/// The record that a stored action stands for.
pub open spec fn record_of(existing: Option<&Action>) -> VoteRecord {
    match existing {
        Some(a) => Some((a.is_upvote, a.is_active)),
        None => None,
    }
}

/// What a record adds to the (upvote, downvote) counters: one for an active
/// vote of its kind, nothing for an inactive or missing one.
pub open spec fn tally(record: VoteRecord) -> (int, int) {
    match record {
        Some((up, active)) => if !active {
            (0, 0)
        } else if up {
            (1, 0)
        } else {
            (0, 1)
        },
        None => (0, 0),
    }
}

/// How a vote rewrites the stored record.
#[derive(Debug, Clone, Copy, PartialEq, Eq, Structural)]
pub enum VoteWrite {
    /// No record yet: insert one, active, of the vote's kind.
    Insert,
    /// The same vote again on an active record: the record becomes inactive.
    Deactivate,
    /// The opposite vote on an active record: the record takes the vote's kind.
    SwitchKind,
    /// A vote on an inactive record: it becomes active, of the vote's kind.
    Reactivate,
}

/// The rewrite that a vote of kind `up` makes of `record`.
pub open spec fn write_for(record: VoteRecord, up: bool) -> VoteWrite {
    match record {
        None => VoteWrite::Insert,
        Some((was_up, active)) => if !active {
            VoteWrite::Reactivate
        } else if was_up == up {
            VoteWrite::Deactivate
        } else {
            VoteWrite::SwitchKind
        },
    }
}

/// The record after a vote of kind `up`.
pub open spec fn record_after(record: VoteRecord, up: bool) -> (bool, bool) {
    match write_for(record, up) {
        VoteWrite::Deactivate => (up, false),
        _ => (up, true),
    }
}

/// The change of the (upvote, downvote) counters that a vote of kind `up`
/// makes, as the vote handling states it case by case.
pub open spec fn vote_change(record: VoteRecord, up: bool) -> (int, int) {
    match write_for(record, up) {
        VoteWrite::Insert | VoteWrite::Reactivate => if up {
            (1, 0)
        } else {
            (0, 1)
        },
        VoteWrite::Deactivate => if up {
            (-1, 0)
        } else {
            (0, -1)
        },
        VoteWrite::SwitchKind => if up {
            (1, -1)
        } else {
            (-1, 1)
        },
    }
}

/// The decision that one vote calls for.
#[derive(Debug, Clone, Copy)]
pub struct VoteOutcome {
    /// How the stored record is rewritten.
    pub write: VoteWrite,
    /// Change of the upvote counters of the meme and of its author.
    pub upchange: i32,
    /// Change of the downvote counters of the meme and of its author.
    pub downchange: i32,
    /// Whether the meme's heat is raised: so it is by the first vote of a
    /// user on a meme, where that vote is an upvote.
    pub heat_bump: bool,
}

/// Decides what vote `action` does, given the stored record of the same
/// (meme, user) pair, if there is one.
pub fn vote_outcome(existing: Option<&Action>, action: &NewAction) -> (r: VoteOutcome)
    ensures
        r.write == write_for(record_of(existing), action.is_upvote),
        (r.upchange as int, r.downchange as int) == vote_change(
            record_of(existing),
            action.is_upvote,
        ),
        r.heat_bump == (existing.is_none() && action.is_upvote),
        r.write == VoteWrite::Insert <==> existing.is_none(),
        existing.is_none() ==> if action.is_upvote {
            r.upchange == 1 && r.downchange == 0
        } else {
            r.upchange == 0 && r.downchange == 1
        },
        existing matches Some(e) && !e.is_active ==> r.write == VoteWrite::Reactivate && if action.is_upvote {
            r.upchange == 1 && r.downchange == 0
        } else {
            r.upchange == 0 && r.downchange == 1
        },
        existing matches Some(e) && e.is_active && e.is_upvote == action.is_upvote ==> r.write
            == VoteWrite::Deactivate && if action.is_upvote {
            r.upchange == -1 && r.downchange == 0
        } else {
            r.upchange == 0 && r.downchange == -1
        },
        existing matches Some(e) && e.is_active && e.is_upvote != action.is_upvote ==> r.write
            == VoteWrite::SwitchKind && if action.is_upvote {
            r.upchange == 1 && r.downchange == -1
        } else {
            r.upchange == -1 && r.downchange == 1
        },
{
    match existing {
        None => {
            if action.is_upvote {
                VoteOutcome { write: VoteWrite::Insert, upchange: 1, downchange: 0, heat_bump: true }
            } else {
                VoteOutcome { write: VoteWrite::Insert, upchange: 0, downchange: 1, heat_bump: false }
            }
        },
        Some(existing_action) => {
            if existing_action.is_active() {
                if existing_action.action_kind() == action.action_kind() {
                    if existing_action.is_upvote {
                        VoteOutcome { write: VoteWrite::Deactivate, upchange: -1, downchange: 0, heat_bump: false }
                    } else {
                        VoteOutcome { write: VoteWrite::Deactivate, upchange: 0, downchange: -1, heat_bump: false }
                    }
                } else if action.is_upvote {
                    VoteOutcome { write: VoteWrite::SwitchKind, upchange: 1, downchange: -1, heat_bump: false }
                } else {
                    VoteOutcome { write: VoteWrite::SwitchKind, upchange: -1, downchange: 1, heat_bump: false }
                }
            } else if action.is_upvote {
                VoteOutcome { write: VoteWrite::Reactivate, upchange: 1, downchange: 0, heat_bump: false }
            } else {
                VoteOutcome { write: VoteWrite::Reactivate, upchange: 0, downchange: 1, heat_bump: false }
            }
        },
    }
}

/// The record stored after `action`, where `existing` was stored before it;
/// `now` is the instant a new record is stamped with.
pub fn record_after_vote(existing: Option<&Action>, action: &NewAction, now: i64) -> (r: Action)
    ensures
        (r.is_upvote, r.is_active) == record_after(record_of(existing), action.is_upvote),
        existing.is_none() ==> r.memeid == action.memeid && r.userid == action.userid
            && r.posted_at == now,
        existing matches Some(e) ==> r.memeid == e.memeid && r.userid == e.userid
            && r.posted_at == e.posted_at,
        existing matches Some(e) ==> (e.is_active && e.is_upvote == action.is_upvote ==> !r.is_active
            && r.is_upvote == e.is_upvote),
        !(existing matches Some(e) && e.is_active && e.is_upvote == action.is_upvote) ==> r.is_active
            && r.is_upvote == action.is_upvote,
{
    match existing {
        None => Action {
            memeid: action.memeid,
            userid: action.userid,
            is_upvote: action.is_upvote,
            is_active: true,
            posted_at: now,
        },
        Some(e) => {
            let deactivate = e.is_active && e.is_upvote == action.is_upvote;
            Action {
                memeid: e.memeid,
                userid: e.userid,
                is_upvote: action.is_upvote,
                is_active: !deactivate,
                posted_at: e.posted_at,
            }
        },
    }
}

/// The counters of a user once the votes of one of the user's memes are taken
/// out of them.
pub fn counts_without_meme(user: (i32, i32), meme: (i32, i32)) -> (r: (i32, i32))
    requires
        i32::MIN <= user.0 - meme.0 <= i32::MAX,
        i32::MIN <= user.1 - meme.1 <= i32::MAX,
    ensures
        r.0 == user.0 - meme.0,
        r.1 == user.1 - meme.1,
{
    (user.0 - meme.0, user.1 - meme.1)
}

/// A record is inserted exactly where there is none; a vote on a cancelled
/// record reactivates it, whatever its kind; the same vote on an active record
/// cancels it; the other vote on an active record switches its kind.
pub proof fn lemma_write_cases(record: VoteRecord, up: bool)
    ensures
        (write_for(record, up) == VoteWrite::Insert) == (record is None),
        record matches Some((k, false)) ==> write_for(record, up) == VoteWrite::Reactivate,
        record == Some((up, true)) ==> write_for(record, up) == VoteWrite::Deactivate,
        record == Some((!up, true)) ==> write_for(record, up) == VoteWrite::SwitchKind,
{
}

/// Cancelling a vote keeps its kind; any other vote leaves the record active
/// and of the vote's kind. So a vote changes the recorded kind only where it
/// makes the record active.
pub proof fn lemma_record_after_cases(record: VoteRecord, up: bool)
    ensures
        record == Some((up, true)) ==> record_after(record, up) == (up, false),
        record != Some((up, true)) ==> record_after(record, up) == (up, true),
        !record_after(record, up).1 ==> (record matches Some((k, a)) && a && k == record_after(
            record,
            up,
        ).0),
{
}

/// The counter change of each case: one vote of its kind for a new or
/// reactivated record, minus one for a cancelled vote, one moved across for a
/// switched vote.
pub proof fn lemma_vote_change_cases(record: VoteRecord, up: bool)
    ensures
        (record is None || record matches Some((k, false))) ==> vote_change(record, up) == if up {
            (1int, 0int)
        } else {
            (0int, 1int)
        },
        record == Some((up, true)) ==> vote_change(record, up) == if up {
            (-1int, 0int)
        } else {
            (0int, -1int)
        },
        record == Some((!up, true)) ==> vote_change(record, up) == if up {
            (1int, -1int)
        } else {
            (-1int, 1int)
        },
{
}

/// The counters change by exactly what the record adds after the vote minus
/// what it added before: the counters of a meme count its active votes.
pub proof fn lemma_change_is_tally_difference(record: VoteRecord, up: bool)
    ensures
        vote_change(record, up).0 == tally(Some(record_after(record, up))).0 - tally(record).0,
        vote_change(record, up).1 == tally(Some(record_after(record, up))).1 - tally(record).1,
{
}

/// Upvoting an upvoted meme cancels the upvote, and the same for downvotes;
/// voting against an active vote replaces it with the new one; any other vote
/// counts as one vote of its kind.
pub proof fn lemma_vote_rules(record: VoteRecord, up: bool)
    ensures
        record == Some((up, true)) ==> tally(Some(record_after(record, up))) == (0int, 0int),
        record == Some((!up, true)) || record == Some((up, false)) || record == Some((!up, false))
            || record is None ==> tally(Some(record_after(record, up))) == (if up {
            (1int, 0int)
        } else {
            (0int, 1int)
        }),
{
}

/// Voting the same way twice leaves the counters as they were, unless the
/// first of the two votes replaced an active vote of the other kind.
pub proof fn lemma_same_vote_twice(record: VoteRecord, up: bool)
    requires
        record != Some((!up, true)),
    ensures
        ({
            let once = Some(record_after(record, up));
            let twice = Some(record_after(once, up));
            vote_change(record, up).0 + vote_change(once, up).0 == 0
                && vote_change(record, up).1 + vote_change(once, up).1 == 0
                && tally(twice) == tally(record)
        }),
{
}

/// The record of a (meme, user) pair after a history of votes, oldest first,
/// starting with no record.
pub open spec fn replay(votes: Seq<bool>) -> VoteRecord
    decreases votes.len(),
{
    if votes.len() == 0 {
        None
    } else {
        Some(record_after(replay(votes.drop_last()), votes.last()))
    }
}

/// The sum of the counter changes of a history of votes.
pub open spec fn total_change(votes: Seq<bool>) -> (int, int)
    decreases votes.len(),
{
    if votes.len() == 0 {
        (0, 0)
    } else {
        let before = total_change(votes.drop_last());
        let change = vote_change(replay(votes.drop_last()), votes.last());
        (before.0 + change.0, before.1 + change.1)
    }
}

/// After any history of votes of one user on one meme, the changes made to the
/// counters add up to what the final record counts: zero or one vote, of the
/// kind of the last vote that was not cancelled.
pub proof fn lemma_history_tally(votes: Seq<bool>)
    ensures
        total_change(votes) == tally(replay(votes)),
        0 <= total_change(votes).0 <= 1,
        0 <= total_change(votes).1 <= 1,
        total_change(votes).0 + total_change(votes).1 <= 1,
    decreases votes.len(),
{
    if votes.len() > 0 {
        lemma_history_tally(votes.drop_last());
        lemma_change_is_tally_difference(replay(votes.drop_last()), votes.last());
    }
}

/// The record of `voter` among the records of a meme's voters.
pub open spec fn record_in(records: Map<int, (bool, bool)>, voter: int) -> VoteRecord {
    if records.dom().contains(voter) {
        Some(records[voter])
    } else {
        None
    }
}

/// The records of a meme's voters after a history of votes on the meme, each
/// a (voter, kind) pair, oldest first.
pub open spec fn voter_records(votes: Seq<(int, bool)>) -> Map<int, (bool, bool)>
    decreases votes.len(),
{
    if votes.len() == 0 {
        Map::empty()
    } else {
        let before = voter_records(votes.drop_last());
        let (voter, up) = votes.last();
        before.insert(voter, record_after(record_in(before, voter), up))
    }
}

/// The sum of the changes that a history of votes makes to the meme's
/// (upvote, downvote) counters.
pub open spec fn meme_change(votes: Seq<(int, bool)>) -> (int, int)
    decreases votes.len(),
{
    if votes.len() == 0 {
        (0, 0)
    } else {
        let before = meme_change(votes.drop_last());
        let (voter, up) = votes.last();
        let change = vote_change(record_in(voter_records(votes.drop_last()), voter), up);
        (before.0 + change.0, before.1 + change.1)
    }
}

/// The voters whose record is `record`.
pub open spec fn voters_with(records: Map<int, (bool, bool)>, record: (bool, bool)) -> Set<int> {
    records.dom().filter(|voter: int| records[voter] == record)
}

proof fn lemma_voter_records_finite(votes: Seq<(int, bool)>)
    ensures
        voter_records(votes).dom().finite(),
    decreases votes.len(),
{
    if votes.len() > 0 {
        lemma_voter_records_finite(votes.drop_last());
    }
}

proof fn lemma_voters_with_step(
    records: Map<int, (bool, bool)>,
    voter: int,
    new: (bool, bool),
    record: (bool, bool),
)
    requires
        records.dom().finite(),
    ensures
        voters_with(records.insert(voter, new), record).len() == voters_with(records, record).len()
            + (if new == record {
            1int
        } else {
            0int
        }) - (if record_in(records, voter) == Some(record) {
            1int
        } else {
            0int
        }),
        voters_with(records.insert(voter, new), record).finite(),
{
    let before = voters_with(records, record);
    let after = voters_with(records.insert(voter, new), record);
    records.dom().lemma_len_filter(|u: int| records[u] == record);
    assert(before.contains(voter) == (record_in(records, voter) == Some(record)));
    if new == record {
        assert(after =~= before.insert(voter));
    } else {
        assert(after =~= before.remove(voter));
    }
}

/// After any history of votes on a meme, its counters have changed by the
/// number of voters whose vote is an active upvote, and by the number whose
/// vote is an active downvote: the counters count the active votes.
pub proof fn lemma_meme_counters(votes: Seq<(int, bool)>)
    ensures
        meme_change(votes).0 == voters_with(voter_records(votes), (true, true)).len(),
        meme_change(votes).1 == voters_with(voter_records(votes), (false, true)).len(),
    decreases votes.len(),
{
    if votes.len() == 0 {
        assert(voters_with(voter_records(votes), (true, true)) =~= Set::empty());
        assert(voters_with(voter_records(votes), (false, true)) =~= Set::empty());
    } else {
        let prefix = votes.drop_last();
        lemma_meme_counters(prefix);
        lemma_voter_records_finite(prefix);
        let before = voter_records(prefix);
        let (voter, up) = votes.last();
        let old = record_in(before, voter);
        let new = record_after(old, up);
        lemma_change_is_tally_difference(old, up);
        lemma_voters_with_step(before, voter, new, (true, true));
        lemma_voters_with_step(before, voter, new, (false, true));
    }
}

/// The sums of the (upvote, downvote) counters of a list of memes.
pub open spec fn sum_counts(memes: Seq<(int, int)>) -> (int, int)
    decreases memes.len(),
{
    if memes.len() == 0 {
        (0, 0)
    } else {
        let before = sum_counts(memes.drop_last());
        (before.0 + memes.last().0, before.1 + memes.last().1)
    }
}

proof fn lemma_sum_counts_update(memes: Seq<(int, int)>, k: int, x: (int, int))
    requires
        0 <= k < memes.len(),
    ensures
        sum_counts(memes.update(k, x)) == (sum_counts(memes).0 - memes[k].0 + x.0, sum_counts(
            memes,
        ).1 - memes[k].1 + x.1),
    decreases memes.len(),
{
    let updated = memes.update(k, x);
    if k == memes.len() - 1 {
        assert(updated.drop_last() =~= memes.drop_last());
    } else {
        lemma_sum_counts_update(memes.drop_last(), k, x);
        assert(updated.drop_last() =~= memes.drop_last().update(k, x));
    }
}

proof fn lemma_sum_counts_remove(memes: Seq<(int, int)>, k: int)
    requires
        0 <= k < memes.len(),
    ensures
        sum_counts(memes.remove(k)) == (sum_counts(memes).0 - memes[k].0, sum_counts(memes).1
            - memes[k].1),
    decreases memes.len(),
{
    let removed = memes.remove(k);
    if k == memes.len() - 1 {
        assert(removed =~= memes.drop_last());
    } else {
        lemma_sum_counts_remove(memes.drop_last(), k);
        assert(removed.drop_last() =~= memes.drop_last().remove(k));
        assert(removed.last() == memes.last());
    }
}

/// The counters of an author are the sums over the author's memes. A vote on
/// the author's meme `k` adds its change both to that meme's counters and to
/// the author's, and so the author's counters stay the sums over the memes.
pub proof fn lemma_author_counters_after_vote(
    memes: Seq<(int, int)>,
    author: (int, int),
    k: int,
    record: VoteRecord,
    up: bool,
)
    requires
        author == sum_counts(memes),
        0 <= k < memes.len(),
    ensures
        ({
            let change = vote_change(record, up);
            let meme_after = (memes[k].0 + change.0, memes[k].1 + change.1);
            (author.0 + change.0, author.1 + change.1) == sum_counts(memes.update(k, meme_after))
        }),
{
    let change = vote_change(record, up);
    lemma_sum_counts_update(memes, k, (memes[k].0 + change.0, memes[k].1 + change.1));
}

/// The counters of an author are the sums over the author's memes. Deleting
/// meme `k` takes its counters out of the author's (as `counts_without_meme`
/// computes), which leaves the sums over the remaining memes.
pub proof fn lemma_author_counters_after_removal(memes: Seq<(int, int)>, author: (int, int), k: int)
    requires
        author == sum_counts(memes),
        0 <= k < memes.len(),
    ensures
        (author.0 - memes[k].0, author.1 - memes[k].1) == sum_counts(memes.remove(k)),
{
    lemma_sum_counts_remove(memes, k);
}

/// The counters of an author whose memes have these vote histories: the sums
/// of what the histories did to each meme's counters.
pub open spec fn author_change(histories: Seq<Seq<(int, bool)>>) -> (int, int) {
    sum_counts(histories.map_values(|h: Seq<(int, bool)>| meme_change(h)))
}

/// The board as one author sees it, over the histories of votes on the
/// author's memes: one more vote on meme `k` keeps every meme's counters equal
/// to the number of its active upvotes and downvotes, and the author's
/// counters equal to the sums over the memes; both change by the vote's change.
pub proof fn lemma_board_after_vote(histories: Seq<Seq<(int, bool)>>, k: int, voter: int, up: bool)
    requires
        0 <= k < histories.len(),
    ensures
        ({
            let after = histories.update(k, histories[k].push((voter, up)));
            let change = vote_change(record_in(voter_records(histories[k]), voter), up);
            &&& meme_change(after[k]) == (meme_change(histories[k]).0 + change.0, meme_change(
                histories[k],
            ).1 + change.1)
            &&& meme_change(after[k]).0 == voters_with(voter_records(after[k]), (true, true)).len()
            &&& meme_change(after[k]).1 == voters_with(voter_records(after[k]), (false, true)).len()
            &&& author_change(after) == (author_change(histories).0 + change.0, author_change(
                histories,
            ).1 + change.1)
        }),
{
    let history = histories[k].push((voter, up));
    let after = histories.update(k, history);
    assert(history.drop_last() =~= histories[k]);
    lemma_meme_counters(history);
    let f = |h: Seq<(int, bool)>| meme_change(h);
    let counts = histories.map_values(f);
    assert(after.map_values(f) =~= counts.update(k, meme_change(history)));
    lemma_sum_counts_update(counts, k, meme_change(history));
}

/// Deleting meme `k` of an author leaves the author's counters equal to the
/// sums over the remaining memes: the author's counters minus meme `k`'s.
pub proof fn lemma_board_after_removal(histories: Seq<Seq<(int, bool)>>, k: int)
    requires
        0 <= k < histories.len(),
    ensures
        author_change(histories.remove(k)) == (author_change(histories).0 - meme_change(
            histories[k],
        ).0, author_change(histories).1 - meme_change(histories[k]).1),
{
    let f = |h: Seq<(int, bool)>| meme_change(h);
    let counts = histories.map_values(f);
    assert(histories.remove(k).map_values(f) =~= counts.remove(k));
    lemma_sum_counts_remove(counts, k);
}

} // verus!
