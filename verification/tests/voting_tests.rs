use std::collections::BTreeMap;
use memebot_backend::models::{Action, NewAction};
use memebot_backend::voting::{counts_without_meme, record_after_vote, vote_outcome, VoteWrite};

fn stored(is_upvote: bool, is_active: bool) -> Action {
    Action { memeid: 7, userid: 3, is_upvote, is_active, posted_at: 1_000 }
}

#[test]
fn first_vote_inserts_a_record() {
    let up = vote_outcome(None, &NewAction::new_upvote(7, 3));
    assert_eq!(up.write, VoteWrite::Insert);
    assert_eq!((up.upchange, up.downchange), (1, 0));
    assert!(up.heat_bump);
    let down = vote_outcome(None, &NewAction::new_downvote(7, 3));
    assert_eq!(down.write, VoteWrite::Insert);
    assert_eq!((down.upchange, down.downchange), (0, 1));
    assert!(!down.heat_bump);
}

#[test]
fn same_vote_again_cancels_it() {
    let up = vote_outcome(Some(&stored(true, true)), &NewAction::new_upvote(7, 3));
    assert_eq!(up.write, VoteWrite::Deactivate);
    assert_eq!((up.upchange, up.downchange), (-1, 0));
    let down = vote_outcome(Some(&stored(false, true)), &NewAction::new_downvote(7, 3));
    assert_eq!(down.write, VoteWrite::Deactivate);
    assert_eq!((down.upchange, down.downchange), (0, -1));
}

#[test]
fn opposite_vote_replaces_it() {
    let up = vote_outcome(Some(&stored(false, true)), &NewAction::new_upvote(7, 3));
    assert_eq!(up.write, VoteWrite::SwitchKind);
    assert_eq!((up.upchange, up.downchange), (1, -1));
    assert!(!up.heat_bump);
    let down = vote_outcome(Some(&stored(true, true)), &NewAction::new_downvote(7, 3));
    assert_eq!(down.write, VoteWrite::SwitchKind);
    assert_eq!((down.upchange, down.downchange), (-1, 1));
}

#[test]
fn vote_on_a_cancelled_record_counts_again() {
    for was_up in [true, false] {
        let up = vote_outcome(Some(&stored(was_up, false)), &NewAction::new_upvote(7, 3));
        assert_eq!(up.write, VoteWrite::Reactivate);
        assert_eq!((up.upchange, up.downchange), (1, 0));
        let down = vote_outcome(Some(&stored(was_up, false)), &NewAction::new_downvote(7, 3));
        assert_eq!((down.upchange, down.downchange), (0, 1));
    }
}

#[test]
fn record_after_vote_stamps_new_records_only() {
    let fresh = record_after_vote(None, &NewAction::new_upvote(7, 3), 55);
    assert_eq!((fresh.memeid, fresh.userid, fresh.is_upvote, fresh.is_active, fresh.posted_at), (7, 3, true, true, 55));
    let old = stored(true, true);
    let cancelled = record_after_vote(Some(&old), &NewAction::new_upvote(7, 3), 55);
    assert_eq!((cancelled.is_upvote, cancelled.is_active, cancelled.posted_at), (true, false, 1_000));
    let switched = record_after_vote(Some(&old), &NewAction::new_downvote(7, 3), 55);
    assert_eq!((switched.is_upvote, switched.is_active), (false, true));
}

/// Replays a history of votes, keeping the counters as the board does, and
/// checks that they always count the one active vote, if any.
#[test]
fn history_counters_count_the_active_vote() {
    let history = [true, true, true, false, false, true, false, true, true];
    let mut record: Option<Action> = None;
    let mut counts = (0i32, 0i32);
    for (step, up) in history.iter().enumerate() {
        let action = if *up { NewAction::new_upvote(7, 3) } else { NewAction::new_downvote(7, 3) };
        let outcome = vote_outcome(record.as_ref(), &action);
        counts = (counts.0 + outcome.upchange, counts.1 + outcome.downchange);
        let next = record_after_vote(record.as_ref(), &action, step as i64);
        record = Some(next);
        let expected = match record {
            Some(r) if r.is_active && r.is_upvote => (1, 0),
            Some(r) if r.is_active => (0, 1),
            _ => (0, 0),
        };
        assert_eq!(counts, expected, "after step {}", step);
    }
}

#[test]
fn removing_a_memes_votes_from_its_author() {
    assert_eq!(counts_without_meme((10, 4), (3, 4)), (7, 0));
    assert_eq!(counts_without_meme((0, 0), (2, 1)), (-2, -1));
}

/// Several users vote on one meme; the meme's counters always equal the number
/// of active upvotes and of active downvotes among the stored records.
#[test]
fn meme_counters_count_active_votes_of_all_voters() {
    let history = [(1, true), (2, false), (1, true), (3, true), (2, true), (1, false), (3, true), (2, true)];
    let mut records: BTreeMap<i32, Action> = BTreeMap::new();
    let mut counts = (0i32, 0i32);
    for (step, (user, up)) in history.iter().enumerate() {
        let action = if *up { NewAction::new_upvote(7, *user) } else { NewAction::new_downvote(7, *user) };
        let outcome = vote_outcome(records.get(user), &action);
        counts = (counts.0 + outcome.upchange, counts.1 + outcome.downchange);
        let next = record_after_vote(records.get(user), &action, step as i64);
        records.insert(*user, next);
        let ups = records.values().filter(|r| r.is_active && r.is_upvote).count() as i32;
        let downs = records.values().filter(|r| r.is_active && !r.is_upvote).count() as i32;
        assert_eq!(counts, (ups, downs), "after step {}", step);
    }
    assert_eq!(counts, (0, 1));
}

/// An author with three memes: after every vote the author's counters are the
/// sums over the memes, and after a deletion they are the sums over the rest.
#[test]
fn author_counters_are_sums_over_memes() {
    let mut records: BTreeMap<(i32, i32), Action> = BTreeMap::new();
    let mut memes: BTreeMap<i32, (i32, i32)> = [(1, (0, 0)), (2, (0, 0)), (3, (0, 0))].into_iter().collect();
    let mut author = (0i32, 0i32);
    let history = [(1, 10, true), (2, 10, false), (1, 11, true), (3, 12, false), (1, 10, true), (2, 11, true), (2, 10, true)];
    for (step, (meme, user, up)) in history.iter().enumerate() {
        let action = if *up { NewAction::new_upvote(*meme, *user) } else { NewAction::new_downvote(*meme, *user) };
        let key = (*meme, *user);
        let outcome = vote_outcome(records.get(&key), &action);
        let c = memes.get_mut(meme).unwrap();
        *c = (c.0 + outcome.upchange, c.1 + outcome.downchange);
        author = (author.0 + outcome.upchange, author.1 + outcome.downchange);
        records.insert(key, record_after_vote(records.get(&key), &action, step as i64));
        let sum = memes.values().fold((0, 0), |s, c| (s.0 + c.0, s.1 + c.1));
        assert_eq!(author, sum, "after step {}", step);
    }
    let removed = memes.remove(&2).unwrap();
    author = counts_without_meme(author, removed);
    let sum = memes.values().fold((0, 0), |s, c| (s.0 + c.0, s.1 + c.1));
    assert_eq!(author, sum);
    assert_eq!(author, (1, 1));
}
