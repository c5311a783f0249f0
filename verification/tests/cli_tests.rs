use memebot_backend::cli::{
    add_meme_tag_test, create_meme_test, create_tag_test, create_user_test, delete_meme_test,
    downvote_test, parse_command, upvote_test, CliError, Command, HELPMESSAGE,
};

#[test]
fn adduser_arguments() {
    assert_eq!(create_user_test(&[]).err(), Some(CliError::MissingUserIdAndName));
    assert_eq!(create_user_test(&["x"]).err(), Some(CliError::MissingUserName));
    assert_eq!(create_user_test(&["x", "bob"]).err(), Some(CliError::UserIdParse));
    let user = create_user_test(&["12", "bob", "extra"]).unwrap();
    assert_eq!((user.userid, user.username.as_str()), (12, "bob"));
}

#[test]
fn addmeme_arguments() {
    assert_eq!(create_meme_test(&[]).err(), Some(CliError::MissingMemeArguments));
    assert_eq!(create_meme_test(&["cat.png"]).err(), Some(CliError::MissingAuthorId));
    assert_eq!(create_meme_test(&["cat.png", "me"]).err(), Some(CliError::AuthorIdParse));
    let meme = create_meme_test(&["cat.png", "-3"]).unwrap();
    assert_eq!((meme.image.as_str(), meme.author), ("cat.png", -3));
}

#[test]
fn vote_arguments() {
    assert_eq!(upvote_test(&["1"]), Err(CliError::NotEnoughArguments));
    assert_eq!(upvote_test(&["a", "b"]), Err(CliError::MemeIdParse));
    assert_eq!(upvote_test(&["1", "b"]), Err(CliError::UserIdParse));
    let up = upvote_test(&["1", "2"]).unwrap();
    assert_eq!((up.memeid, up.userid, up.is_upvote), (1, 2, true));
    assert_eq!(downvote_test(&[]), Err(CliError::NotEnoughArguments));
    assert_eq!(downvote_test(&["x", "2"]), Err(CliError::MemeIdParse));
    let down = downvote_test(&["4", "+5"]).unwrap();
    assert_eq!((down.memeid, down.userid, down.is_upvote), (4, 5, false));
}

#[test]
fn tag_arguments() {
    assert_eq!(create_tag_test(&[]), Err(CliError::NotEnoughArguments));
    assert_eq!(create_tag_test(&["funny", "x"]).unwrap(), "funny");
    assert_eq!(add_meme_tag_test(&["3"]).err(), Some(CliError::NotEnoughArguments));
    assert_eq!(add_meme_tag_test(&["q", "4"]).err(), Some(CliError::MemeIdParse));
    assert_eq!(add_meme_tag_test(&["3", "q"]).err(), Some(CliError::UserIdParse));
    let link = add_meme_tag_test(&["3", "4"]).unwrap();
    assert_eq!((link.memeid, link.tagid), (3, 4));
}

#[test]
fn delmeme_arguments() {
    assert_eq!(delete_meme_test(&[]), Err(CliError::NotEnoughArguments));
    assert_eq!(delete_meme_test(&["nine"]), Err(CliError::MemeIdParse));
    assert_eq!(delete_meme_test(&["9"]), Ok(9));
}

#[test]
fn error_messages() {
    let expected = [
        (CliError::MissingUserIdAndName, "Missing arguments USERID USERNAME"),
        (CliError::MissingUserName, "Missing argument USERNAME"),
        (CliError::UserIdParse, "Error parsing userid"),
        (CliError::MissingMemeArguments, "Missing arguments"),
        (CliError::MissingAuthorId, "Invalid or missing arguments"),
        (CliError::AuthorIdParse, "Cannot parse AUTHORID"),
        (CliError::NotEnoughArguments, "Not enough arguments"),
        (CliError::MemeIdParse, "Error parsing memeid"),
        (CliError::InvalidCommand, "Invalid command"),
    ];
    for (e, text) in expected.iter() {
        assert_eq!(e.message(), *text);
    }
}

#[test]
fn command_lines() {
    match parse_command("adduser 5 alice\n") {
        Ok(Command::AddUser(u)) => assert_eq!((u.userid, u.username.as_str()), (5, "alice")),
        _ => panic!("adduser"),
    }
    match parse_command("addmeme a.png 5\n") {
        Ok(Command::AddMeme(m)) => assert_eq!((m.image.as_str(), m.author), ("a.png", 5)),
        _ => panic!("addmeme"),
    }
    match parse_command("addtag cats\n") {
        Ok(Command::AddTag(t)) => assert_eq!(t, "cats"),
        _ => panic!("addtag"),
    }
    match parse_command("addmemetag 1 2\n") {
        Ok(Command::AddMemeTag(l)) => assert_eq!((l.memeid, l.tagid), (1, 2)),
        _ => panic!("addmemetag"),
    }
    match parse_command("upvote 1 2\n") {
        Ok(Command::Upvote(a)) => assert_eq!((a.memeid, a.userid, a.is_upvote), (1, 2, true)),
        _ => panic!("upvote"),
    }
    match parse_command("downvote 1 2\n") {
        Ok(Command::Downvote(a)) => assert_eq!((a.memeid, a.userid, a.is_upvote), (1, 2, false)),
        _ => panic!("downvote"),
    }
    assert!(matches!(parse_command("delmeme 8\n"), Ok(Command::DeleteMeme(8))));
    assert!(matches!(parse_command("print\n"), Ok(Command::Print)));
    assert!(matches!(parse_command("printuser\n"), Ok(Command::PrintUsers)));
    assert!(matches!(parse_command("printtags\n"), Ok(Command::PrintTags)));
    assert!(matches!(parse_command("printmeta\n"), Ok(Command::PrintMeta)));
    assert!(matches!(parse_command("printhot\n"), Ok(Command::PrintHot)));
    assert!(matches!(parse_command("help\n"), Ok(Command::Help)));
}

#[test]
fn command_line_errors() {
    assert!(matches!(parse_command("\n"), Err(CliError::InvalidCommand)));
    assert!(matches!(parse_command("Print\n"), Err(CliError::InvalidCommand)));
    assert!(matches!(parse_command(" print\n"), Err(CliError::InvalidCommand)));
    assert!(matches!(parse_command("upvote 1\n"), Err(CliError::NotEnoughArguments)));
    assert!(matches!(parse_command("upvote 1  2\n"), Err(CliError::UserIdParse)));
    assert!(matches!(parse_command("adduser\n"), Err(CliError::MissingUserIdAndName)));
    // The last character is taken for the line break, whatever it is.
    assert!(matches!(parse_command("helpx"), Ok(Command::Help)));
    assert!(matches!(parse_command("help"), Err(CliError::InvalidCommand)));
}

#[test]
fn help_message_lists_the_commands() {
    for word in ["adduser", "addmeme", "addtag", "addmemetag", "upvote", "downvote", "print",
                 "printmeta", "printtags", "printuser", "printhot", "delmeme", "help"] {
        assert!(HELPMESSAGE.contains(word));
    }
}

#[test]
fn joined_words_read_as_their_command() {
    let words = ["upvote", "12", "34"];
    let line = format!("{}\n", words.join(" "));
    assert_eq!(memebot_backend::text::split_words(&line[..line.len() - 1]), words.to_vec());
    match parse_command(&line) {
        Ok(Command::Upvote(a)) => {
            assert_eq!(Ok(a), upvote_test(&words[1..]));
        }
        _ => panic!("upvote"),
    }
    let words = ["addmeme", "x.png", "7", "extra"];
    let line = format!("{}\n", words.join(" "));
    match (parse_command(&line), create_meme_test(&words[1..])) {
        (Ok(Command::AddMeme(m)), Ok(n)) => assert_eq!((m.image, m.author), (n.image, n.author)),
        _ => panic!("addmeme"),
    }
}
