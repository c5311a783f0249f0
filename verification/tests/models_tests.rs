use memebot_backend::models::{Action, ActionKind, AllTest, MemeTag, NewAction, NewMeme, NewUser};

#[test]
fn action_accessors() {
    let a = Action { memeid: 4, userid: 9, is_upvote: false, is_active: true, posted_at: 77 };
    assert_eq!(a.get_key(), (4, 9));
    assert!(a.is_active());
    assert_eq!(a.get_timestamp(), 77);
    assert_eq!(a.action_kind(), ActionKind::Downvote);
    let b = Action { is_upvote: true, ..a };
    assert_eq!(b.action_kind(), ActionKind::Upvote);
}

#[test]
fn action_kinds() {
    assert!(ActionKind::Upvote.is_upvote());
    assert!(!ActionKind::Downvote.is_upvote());
    assert_eq!(NewAction::new(1, 2, ActionKind::Upvote), NewAction::new_upvote(1, 2));
    assert_eq!(NewAction::new(1, 2, ActionKind::Downvote), NewAction::new_downvote(1, 2));
    assert_eq!(NewAction::new_downvote(1, 2).action_kind(), ActionKind::Downvote);
    assert_eq!(NewAction::new_upvote(1, 2), NewAction { memeid: 1, userid: 2, is_upvote: true });
}

#[test]
fn constructors() {
    let u = NewUser::new(3, "carol");
    assert_eq!((u.userid, u.username.as_str()), (3, "carol"));
    let m = NewMeme::new("dog.jpg", 3);
    assert_eq!((m.author, m.image.as_str()), (3, "dog.jpg"));
    let t = MemeTag::new(5, 6);
    assert_eq!((t.memeid, t.tagid), (5, 6));
    let all = AllTest::new(Vec::new(), Vec::new());
    assert!(all.users.is_empty() && all.memes.is_empty());
}
