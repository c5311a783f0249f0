//! The records of the board: memes, users, votes, tags.
//!
//! Ratings (`score`, `heat`, `userscore`) are held as order keys (see
//! `rating`), instants as microseconds since the Unix epoch.

use vstd::prelude::*;

verus! {

/// A posted meme with its vote counters.
#[derive(Debug)]
pub struct Meme {
    pub memeid: i32,
    pub authorid: i32,
    pub image: String,
    pub upvote: i32,
    pub downvote: i32,
    /// Order key of the score.
    pub score: u32,
    /// Order key of the heat.
    pub heat: u32,
    /// Microseconds since the Unix epoch.
    pub last_action: i64,
    /// Microseconds since the Unix epoch.
    pub posted_at: i64,
}

/// A user with the vote counters of all the user's memes.
#[derive(Debug)]
pub struct User {
    pub userid: i32,
    pub username: String,
    pub userupvote: i32,
    pub userdownvote: i32,
    /// Order key of the user's score.
    pub userscore: u32,
}

/// The vote of one user on one meme, as recorded.
#[derive(Debug, Clone, Copy)]
pub struct Action {
    pub memeid: i32,
    pub userid: i32,
    pub is_upvote: bool,
    pub is_active: bool,
    /// Microseconds since the Unix epoch.
    pub posted_at: i64,
}

/// A tag that memes can carry.
pub struct Tag {
    pub tagid: i32,
    pub tagname: String,
}

/// The link between a meme and one of its tags.
#[derive(Debug, Clone, Copy)]
pub struct MemeTag {
    pub tagid: i32,
    pub memeid: i32,
}

/// The two kinds of vote.
#[derive(Debug, Clone, Copy, PartialEq, Eq, Structural)]
pub enum ActionKind {
    Upvote,
    Downvote,
}

/// The kind of a vote, from its upvote flag.
pub open spec fn kind_of(is_upvote: bool) -> ActionKind {
    if is_upvote {
        ActionKind::Upvote
    } else {
        ActionKind::Downvote
    }
}

impl ActionKind {
    pub fn is_upvote(&self) -> (r: bool)
        ensures
            r == (*self == ActionKind::Upvote),
            kind_of(r) == *self,
    {
        match self {
            ActionKind::Upvote => true,
            ActionKind::Downvote => false,
        }
    }
}

impl Action {
    /// Returns the (memeid, userid) pair that identifies this vote.
    pub fn get_key(&self) -> (r: (i32, i32))
        ensures
            r == (self.memeid, self.userid),
    {
        (self.memeid, self.userid)
    }

    pub fn is_active(&self) -> (r: bool)
        ensures
            r == self.is_active,
    {
        self.is_active
    }

    /// When the vote was first cast, in microseconds since the Unix epoch.
    pub fn get_timestamp(&self) -> (r: i64)
        ensures
            r == self.posted_at,
    {
        self.posted_at
    }

    /// The kind of the vote.
    pub fn action_kind(&self) -> (r: ActionKind)
        ensures
            r == kind_of(self.is_upvote),
            (r == ActionKind::Upvote) == self.is_upvote,
    {
        if self.is_upvote {
            ActionKind::Upvote
        } else {
            ActionKind::Downvote
        }
    }
}

impl MemeTag {
    pub fn new(memeid: i32, tagid: i32) -> (r: MemeTag)
        ensures
            r.memeid == memeid,
            r.tagid == tagid,
    {
        MemeTag { memeid, tagid }
    }
}

/// A user to be registered.
pub struct NewUser {
    pub userid: i32,
    pub username: String,
}

impl NewUser {
    pub fn new(userid: i32, username: &str) -> (r: NewUser)
        ensures
            r.userid == userid,
            r.username@ == username@,
    {
        NewUser { userid, username: username.to_owned() }
    }
}

/// A meme to be posted.
pub struct NewMeme {
    pub author: i32,
    pub image: String,
}

impl NewMeme {
    pub fn new(img: &str, author: i32) -> (r: NewMeme)
        ensures
            r.author == author,
            r.image@ == img@,
    {
        NewMeme { author, image: img.to_owned() }
    }
}

/// A vote to be cast by user `userid` on meme `memeid`.
#[derive(Debug, Clone, Copy, PartialEq, Eq, Structural)]
pub struct NewAction {
    pub memeid: i32,
    pub userid: i32,
    pub is_upvote: bool,
}

impl NewAction {
    pub fn action_kind(&self) -> (r: ActionKind)
        ensures
            r == kind_of(self.is_upvote),
            (r == ActionKind::Upvote) == self.is_upvote,
    {
        if self.is_upvote {
            ActionKind::Upvote
        } else {
            ActionKind::Downvote
        }
    }

    pub fn new_upvote(memeid: i32, userid: i32) -> (r: Self)
        ensures
            r == (NewAction { memeid, userid, is_upvote: true }),
    {
        Self { memeid, userid, is_upvote: true }
    }

    pub fn new_downvote(memeid: i32, userid: i32) -> (r: Self)
        ensures
            r == (NewAction { memeid, userid, is_upvote: false }),
    {
        Self { memeid, userid, is_upvote: false }
    }

    pub fn new(memeid: i32, userid: i32, action: ActionKind) -> (r: Self)
        ensures
            r.memeid == memeid,
            r.userid == userid,
            kind_of(r.is_upvote) == action,
            r.is_upvote == (action == ActionKind::Upvote),
    {
        match action {
            ActionKind::Upvote => Self::new_upvote(memeid, userid),
            ActionKind::Downvote => Self::new_downvote(memeid, userid),
        }
    }
}

/// All users and all memes, side by side.
pub struct AllTest {
    pub users: Vec<User>,
    pub memes: Vec<Meme>,
}

impl AllTest {
    pub fn new(users: Vec<User>, memes: Vec<Meme>) -> (r: Self)
        ensures
            r.users == users,
            r.memes == memes,
    {
        Self { users, memes }
    }
}

} // verus!
