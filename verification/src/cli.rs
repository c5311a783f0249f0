//! The console front end: what each command line asks for, or why it is
//! refused. Running the request against the database is the caller's part.

use vstd::prelude::*;
use crate::models::{Meme, MemeTag, NewAction, NewMeme, NewUser};
use crate::text::{parse_i32, spec_parse_i32, split_spaces, split_words, views};

verus! {

/// The commands the console understands.
pub const HELPMESSAGE: &'static str = "COMMANDS:
adduser USERID USERNAME\taddmeme IMAGE AUTHORID
addtag TAGNAME\taddmemetag MEMEID TAGID
upvote MEMEID FROMUSERID\tdownvote MEMEID FROMUSERID
print\tprintmeta\tprinttags\tprintuser\tprinthot
delmeme MEMEID
help";

/// How many memes the hot list shows.
pub const HOT_LIST_LEN: usize = 10;

/// Why a command line was refused.
#[derive(Debug, Clone, Copy, PartialEq, Eq, Structural)]
pub enum CliError {
    /// `adduser` without arguments.
    MissingUserIdAndName,
    /// `adduser` with a user id only.
    MissingUserName,
    /// A user id that is not an `i32`; also a tag id that is not one.
    UserIdParse,
    /// `addmeme` without arguments.
    MissingMemeArguments,
    /// `addmeme` with an image only.
    MissingAuthorId,
    /// An author id that is not an `i32`.
    AuthorIdParse,
    /// Fewer arguments than the command takes.
    NotEnoughArguments,
    /// A meme id that is not an `i32`.
    MemeIdParse,
    /// An unknown command word.
    InvalidCommand,
}

/// The message that reports an error.
pub open spec fn error_text(e: CliError) -> Seq<char> {
    match e {
        CliError::MissingUserIdAndName => "Missing arguments USERID USERNAME"@,
        CliError::MissingUserName => "Missing argument USERNAME"@,
        CliError::UserIdParse => "Error parsing userid"@,
        CliError::MissingMemeArguments => "Missing arguments"@,
        CliError::MissingAuthorId => "Invalid or missing arguments"@,
        CliError::AuthorIdParse => "Cannot parse AUTHORID"@,
        CliError::NotEnoughArguments => "Not enough arguments"@,
        CliError::MemeIdParse => "Error parsing memeid"@,
        CliError::InvalidCommand => "Invalid command"@,
    }
}

impl CliError {
    /// The message that reports this error.
    pub fn message(&self) -> (r: String)
        ensures
            r@ == error_text(*self),
            *self == CliError::MissingUserIdAndName ==> r@ == "Missing arguments USERID USERNAME"@,
            *self == CliError::MissingUserName ==> r@ == "Missing argument USERNAME"@,
            *self == CliError::UserIdParse ==> r@ == "Error parsing userid"@,
            *self == CliError::MissingMemeArguments ==> r@ == "Missing arguments"@,
            *self == CliError::MissingAuthorId ==> r@ == "Invalid or missing arguments"@,
            *self == CliError::AuthorIdParse ==> r@ == "Cannot parse AUTHORID"@,
            *self == CliError::NotEnoughArguments ==> r@ == "Not enough arguments"@,
            *self == CliError::MemeIdParse ==> r@ == "Error parsing memeid"@,
            *self == CliError::InvalidCommand ==> r@ == "Invalid command"@,
    {
        match self {
            CliError::MissingUserIdAndName => String::from_str("Missing arguments USERID USERNAME"),
            CliError::MissingUserName => String::from_str("Missing argument USERNAME"),
            CliError::UserIdParse => String::from_str("Error parsing userid"),
            CliError::MissingMemeArguments => String::from_str("Missing arguments"),
            CliError::MissingAuthorId => String::from_str("Invalid or missing arguments"),
            CliError::AuthorIdParse => String::from_str("Cannot parse AUTHORID"),
            CliError::NotEnoughArguments => String::from_str("Not enough arguments"),
            CliError::MemeIdParse => String::from_str("Error parsing memeid"),
            CliError::InvalidCommand => String::from_str("Invalid command"),
        }
    }
}

/// `adduser USERID USERNAME`: the user id and name, from the arguments.
pub open spec fn spec_create_user_test(args: Seq<Seq<char>>) -> Result<(int, Seq<char>), CliError> {
    if args.len() == 0 {
        Err(CliError::MissingUserIdAndName)
    } else if args.len() == 1 {
        Err(CliError::MissingUserName)
    } else {
        match spec_parse_i32(args[0]) {
            Some(id) => Ok((id, args[1])),
            None => Err(CliError::UserIdParse),
        }
    }
}

/// `addmeme IMAGE AUTHORID`: the image and the author id.
pub open spec fn spec_create_meme_test(args: Seq<Seq<char>>) -> Result<(Seq<char>, int), CliError> {
    if args.len() == 0 {
        Err(CliError::MissingMemeArguments)
    } else if args.len() == 1 {
        Err(CliError::MissingAuthorId)
    } else {
        match spec_parse_i32(args[1]) {
            Some(id) => Ok((args[0], id)),
            None => Err(CliError::AuthorIdParse),
        }
    }
}

/// Two ids, the meme id first. Both words must be there before either is
/// read; a second id that is not an `i32` is reported as a user id that is
/// not one, also where it is a tag id.
pub open spec fn spec_two_ids(args: Seq<Seq<char>>) -> Result<(int, int), CliError> {
    if args.len() < 2 {
        Err(CliError::NotEnoughArguments)
    } else {
        match (spec_parse_i32(args[0]), spec_parse_i32(args[1])) {
            (Some(a), Some(b)) => Ok((a, b)),
            (None, _) => Err(CliError::MemeIdParse),
            (_, None) => Err(CliError::UserIdParse),
        }
    }
}

/// `addtag TAGNAME`: the tag name.
pub open spec fn spec_create_tag_test(args: Seq<Seq<char>>) -> Result<Seq<char>, CliError> {
    if args.len() == 0 {
        Err(CliError::NotEnoughArguments)
    } else {
        Ok(args[0])
    }
}

/// `delmeme MEMEID`: the meme id.
pub open spec fn spec_delete_meme_test(args: Seq<Seq<char>>) -> Result<int, CliError> {
    if args.len() == 0 {
        Err(CliError::NotEnoughArguments)
    } else {
        match spec_parse_i32(args[0]) {
            Some(id) => Ok(id),
            None => Err(CliError::MemeIdParse),
        }
    }
}

/// The two ids of a vote or of a tag link, as `spec_two_ids` states.
fn two_ids(args: &[&str]) -> (r: Result<(i32, i32), CliError>)
    ensures
        match r {
            Ok((a, b)) => spec_two_ids(views(args@)) == Ok::<(int, int), CliError>((a as int, b as int)),
            Err(e) => spec_two_ids(views(args@)) == Err::<(int, int), CliError>(e),
        },
{
    if args.len() < 2 {
        return Err(CliError::NotEnoughArguments);
    }
    let first = parse_i32(args[0]);
    let second = parse_i32(args[1]);
    match (first, second) {
        (Some(a), Some(b)) => Ok((a, b)),
        (None, _) => Err(CliError::MemeIdParse),
        (_, None) => Err(CliError::UserIdParse),
    }
}

/// `adduser USERID USERNAME`: the user to register.
pub fn create_user_test(args: &[&str]) -> (r: Result<NewUser, CliError>)
    ensures
        match r {
            Ok(u) => spec_create_user_test(views(args@)) == Ok::<(int, Seq<char>), CliError>(
                (u.userid as int, u.username@),
            ),
            Err(e) => spec_create_user_test(views(args@)) == Err::<(int, Seq<char>), CliError>(e),
        },
        args.len() == 0 ==> (r matches Err(e) && e == CliError::MissingUserIdAndName),
        args.len() == 1 ==> (r matches Err(e) && e == CliError::MissingUserName),
        args.len() >= 2 && spec_parse_i32(args@[0]@) is None ==> (r matches Err(e) && e
            == CliError::UserIdParse),
        args.len() >= 2 && spec_parse_i32(args@[0]@) is Some ==> r is Ok,
        r matches Ok(u) ==> args.len() >= 2 && spec_parse_i32(args@[0]@) == Some(u.userid as int)
            && u.username@ == args@[1]@,
{
    if args.len() == 0 {
        return Err(CliError::MissingUserIdAndName);
    }
    if args.len() == 1 {
        return Err(CliError::MissingUserName);
    }
    match parse_i32(args[0]) {
        Some(userid) => Ok(NewUser::new(userid, args[1])),
        None => Err(CliError::UserIdParse),
    }
}

/// `addmeme IMAGE AUTHORID`: the meme to post.
pub fn create_meme_test(args: &[&str]) -> (r: Result<NewMeme, CliError>)
    ensures
        match r {
            Ok(m) => spec_create_meme_test(views(args@)) == Ok::<(Seq<char>, int), CliError>(
                (m.image@, m.author as int),
            ),
            Err(e) => spec_create_meme_test(views(args@)) == Err::<(Seq<char>, int), CliError>(e),
        },
        args.len() == 0 ==> (r matches Err(e) && e == CliError::MissingMemeArguments),
        args.len() == 1 ==> (r matches Err(e) && e == CliError::MissingAuthorId),
        args.len() >= 2 && spec_parse_i32(args@[1]@) is None ==> (r matches Err(e) && e
            == CliError::AuthorIdParse),
        args.len() >= 2 && spec_parse_i32(args@[1]@) is Some ==> r is Ok,
        r matches Ok(m) ==> args.len() >= 2 && m.image@ == args@[0]@ && spec_parse_i32(args@[1]@)
            == Some(m.author as int),
{
    if args.len() == 0 {
        return Err(CliError::MissingMemeArguments);
    }
    if args.len() == 1 {
        return Err(CliError::MissingAuthorId);
    }
    match parse_i32(args[1]) {
        Some(author) => Ok(NewMeme::new(args[0], author)),
        None => Err(CliError::AuthorIdParse),
    }
}

/// `upvote MEMEID FROMUSERID`: the upvote to cast.
pub fn upvote_test(args: &[&str]) -> (r: Result<NewAction, CliError>)
    ensures
        match r {
            Ok(a) => a.is_upvote && spec_two_ids(views(args@)) == Ok::<(int, int), CliError>(
                (a.memeid as int, a.userid as int),
            ),
            Err(e) => spec_two_ids(views(args@)) == Err::<(int, int), CliError>(e),
        },
        args.len() < 2 ==> (r matches Err(e) && e == CliError::NotEnoughArguments),
        args.len() >= 2 && spec_parse_i32(args@[0]@) is None ==> (r matches Err(e) && e
            == CliError::MemeIdParse),
        args.len() >= 2 && spec_parse_i32(args@[0]@) is Some && spec_parse_i32(args@[1]@) is None
            ==> (r matches Err(e) && e == CliError::UserIdParse),
        args.len() >= 2 && spec_parse_i32(args@[0]@) is Some && spec_parse_i32(args@[1]@) is Some
            ==> r is Ok,
        r matches Ok(x) ==> x.is_upvote && args.len() >= 2 && spec_parse_i32(args@[0]@) == Some(
            x.memeid as int,
        ) && spec_parse_i32(args@[1]@) == Some(x.userid as int),
{
    match two_ids(args) {
        Ok((memeid, userid)) => Ok(NewAction::new_upvote(memeid, userid)),
        Err(e) => Err(e),
    }
}

/// `downvote MEMEID FROMUSERID`: the downvote to cast.
pub fn downvote_test(args: &[&str]) -> (r: Result<NewAction, CliError>)
    ensures
        match r {
            Ok(a) => !a.is_upvote && spec_two_ids(views(args@)) == Ok::<(int, int), CliError>(
                (a.memeid as int, a.userid as int),
            ),
            Err(e) => spec_two_ids(views(args@)) == Err::<(int, int), CliError>(e),
        },
        args.len() < 2 ==> (r matches Err(e) && e == CliError::NotEnoughArguments),
        args.len() >= 2 && spec_parse_i32(args@[0]@) is None ==> (r matches Err(e) && e
            == CliError::MemeIdParse),
        args.len() >= 2 && spec_parse_i32(args@[0]@) is Some && spec_parse_i32(args@[1]@) is None
            ==> (r matches Err(e) && e == CliError::UserIdParse),
        args.len() >= 2 && spec_parse_i32(args@[0]@) is Some && spec_parse_i32(args@[1]@) is Some
            ==> r is Ok,
        r matches Ok(x) ==> !x.is_upvote && args.len() >= 2 && spec_parse_i32(args@[0]@) == Some(
            x.memeid as int,
        ) && spec_parse_i32(args@[1]@) == Some(x.userid as int),
{
    match two_ids(args) {
        Ok((memeid, userid)) => Ok(NewAction::new_downvote(memeid, userid)),
        Err(e) => Err(e),
    }
}

/// `addtag TAGNAME`: the name of the tag to create.
pub fn create_tag_test(args: &[&str]) -> (r: Result<String, CliError>)
    ensures
        match r {
            Ok(name) => spec_create_tag_test(views(args@)) == Ok::<Seq<char>, CliError>(name@),
            Err(e) => spec_create_tag_test(views(args@)) == Err::<Seq<char>, CliError>(e),
        },
        args.len() == 0 ==> (r matches Err(e) && e == CliError::NotEnoughArguments),
        args.len() >= 1 ==> (r matches Ok(name) && name@ == args@[0]@),
{
    if args.len() == 0 {
        return Err(CliError::NotEnoughArguments);
    }
    Ok(args[0].to_owned())
}

/// `addmemetag MEMEID TAGID`: the link to add.
pub fn add_meme_tag_test(args: &[&str]) -> (r: Result<MemeTag, CliError>)
    ensures
        match r {
            Ok(t) => spec_two_ids(views(args@)) == Ok::<(int, int), CliError>(
                (t.memeid as int, t.tagid as int),
            ),
            Err(e) => spec_two_ids(views(args@)) == Err::<(int, int), CliError>(e),
        },
        args.len() < 2 ==> (r matches Err(e) && e == CliError::NotEnoughArguments),
        args.len() >= 2 && spec_parse_i32(args@[0]@) is None ==> (r matches Err(e) && e
            == CliError::MemeIdParse),
        args.len() >= 2 && spec_parse_i32(args@[0]@) is Some && spec_parse_i32(args@[1]@) is None
            ==> (r matches Err(e) && e == CliError::UserIdParse),
        args.len() >= 2 && spec_parse_i32(args@[0]@) is Some && spec_parse_i32(args@[1]@) is Some
            ==> r is Ok,
        r matches Ok(x) ==> args.len() >= 2 && spec_parse_i32(args@[0]@) == Some(x.memeid as int)
            && spec_parse_i32(args@[1]@) == Some(x.tagid as int),
{
    match two_ids(args) {
        Ok((memeid, tagid)) => Ok(MemeTag::new(memeid, tagid)),
        Err(e) => Err(e),
    }
}

/// `delmeme MEMEID`: the id of the meme to delete.
pub fn delete_meme_test(args: &[&str]) -> (r: Result<i32, CliError>)
    ensures
        match r {
            Ok(id) => spec_delete_meme_test(views(args@)) == Ok::<int, CliError>(id as int),
            Err(e) => spec_delete_meme_test(views(args@)) == Err::<int, CliError>(e),
        },
        args.len() == 0 ==> r == Err::<i32, CliError>(CliError::NotEnoughArguments),
        args.len() >= 1 ==> r == match spec_parse_i32(args@[0]@) {
            Some(id) => Ok::<i32, CliError>(id as i32),
            None => Err::<i32, CliError>(CliError::MemeIdParse),
        },
{
    if args.len() == 0 {
        return Err(CliError::NotEnoughArguments);
    }
    match parse_i32(args[0]) {
        Some(id) => Ok(id),
        None => Err(CliError::MemeIdParse),
    }
}

/// `printhot`: the memes to list, hottest first, at most `HOT_LIST_LEN`.
pub fn print_hot(memes: Vec<Meme>) -> (r: Vec<Meme>)
    ensures
        r.len() == if HOT_LIST_LEN < memes.len() {
            HOT_LIST_LEN as int
        } else {
            memes.len() as int
        },
        crate::ranking::is_top_of(r@, memes@, crate::ranking::RankBy::Heat),
        forall|i: int, j: int| 0 <= i <= j < r.len() ==> r@[i].heat >= r@[j].heat,
        forall|x: Meme, i: int|
            #![trigger memes@.to_multiset().count(x), r@[i]]
            r@.to_multiset().count(x) < memes@.to_multiset().count(x) && 0 <= i < r.len() ==> x.heat
                <= r@[i].heat,
{
    crate::memes_by_heat(memes, HOT_LIST_LEN)
}

/// A command line, read.
pub enum Command {
    AddUser(NewUser),
    AddMeme(NewMeme),
    AddTag(String),
    AddMemeTag(MemeTag),
    Upvote(NewAction),
    Downvote(NewAction),
    DeleteMeme(i32),
    Print,
    PrintUsers,
    PrintTags,
    PrintMeta,
    PrintHot,
    Help,
}

/// A command, with its text as character sequences and its ids as integers.
pub enum CommandView {
    AddUser(int, Seq<char>),
    AddMeme(Seq<char>, int),
    AddTag(Seq<char>),
    AddMemeTag(int, int),
    Upvote(int, int),
    Downvote(int, int),
    DeleteMeme(int),
    Print,
    PrintUsers,
    PrintTags,
    PrintMeta,
    PrintHot,
    Help,
}

impl View for Command {
    type V = CommandView;

    open spec fn view(&self) -> CommandView {
        match self {
            Command::AddUser(u) => CommandView::AddUser(u.userid as int, u.username@),
            Command::AddMeme(m) => CommandView::AddMeme(m.image@, m.author as int),
            Command::AddTag(t) => CommandView::AddTag(t@),
            Command::AddMemeTag(t) => CommandView::AddMemeTag(t.memeid as int, t.tagid as int),
            Command::Upvote(a) => if a.is_upvote {
                CommandView::Upvote(a.memeid as int, a.userid as int)
            } else {
                CommandView::Downvote(a.memeid as int, a.userid as int)
            },
            Command::Downvote(a) => if a.is_upvote {
                CommandView::Upvote(a.memeid as int, a.userid as int)
            } else {
                CommandView::Downvote(a.memeid as int, a.userid as int)
            },
            Command::DeleteMeme(id) => CommandView::DeleteMeme(*id as int),
            Command::Print => CommandView::Print,
            Command::PrintUsers => CommandView::PrintUsers,
            Command::PrintTags => CommandView::PrintTags,
            Command::PrintMeta => CommandView::PrintMeta,
            Command::PrintHot => CommandView::PrintHot,
            Command::Help => CommandView::Help,
        }
    }
}

/// The command that the words of a line ask for: the first word names it, the
/// words after it are its arguments.
pub open spec fn spec_command(words: Seq<Seq<char>>) -> Result<CommandView, CliError> {
    let name = words[0];
    let args = words.subrange(1, words.len() as int);
    if name == "adduser"@ {
        match spec_create_user_test(args) {
            Ok((id, user)) => Ok(CommandView::AddUser(id, user)),
            Err(e) => Err(e),
        }
    } else if name == "addmeme"@ {
        match spec_create_meme_test(args) {
            Ok((image, author)) => Ok(CommandView::AddMeme(image, author)),
            Err(e) => Err(e),
        }
    } else if name == "addtag"@ {
        match spec_create_tag_test(args) {
            Ok(tag) => Ok(CommandView::AddTag(tag)),
            Err(e) => Err(e),
        }
    } else if name == "addmemetag"@ {
        match spec_two_ids(args) {
            Ok((meme, tag)) => Ok(CommandView::AddMemeTag(meme, tag)),
            Err(e) => Err(e),
        }
    } else if name == "upvote"@ {
        match spec_two_ids(args) {
            Ok((meme, user)) => Ok(CommandView::Upvote(meme, user)),
            Err(e) => Err(e),
        }
    } else if name == "downvote"@ {
        match spec_two_ids(args) {
            Ok((meme, user)) => Ok(CommandView::Downvote(meme, user)),
            Err(e) => Err(e),
        }
    } else if name == "delmeme"@ {
        match spec_delete_meme_test(args) {
            Ok(id) => Ok(CommandView::DeleteMeme(id)),
            Err(e) => Err(e),
        }
    } else if name == "print"@ {
        Ok(CommandView::Print)
    } else if name == "printuser"@ {
        Ok(CommandView::PrintUsers)
    } else if name == "printtags"@ {
        Ok(CommandView::PrintTags)
    } else if name == "printmeta"@ {
        Ok(CommandView::PrintMeta)
    } else if name == "printhot"@ {
        Ok(CommandView::PrintHot)
    } else if name == "help"@ {
        Ok(CommandView::Help)
    } else {
        Err(CliError::InvalidCommand)
    }
}

/// The command that an input line asks for. The line's last character (its
/// line break) is dropped and the rest split at each space.
pub open spec fn spec_parse_command(input: Seq<char>) -> Result<CommandView, CliError> {
    spec_command(split_spaces(input.drop_last()))
}

/// Words after those that a command reads are ignored: each reading of the
/// arguments depends on its first words only, the id of `delmeme` on the
/// first word after the command, those of `upvote`, `downvote` and
/// `addmemetag` on the first two.
pub proof fn lemma_extra_words_ignored(args: Seq<Seq<char>>, extra: Seq<Seq<char>>)
    ensures
        args.len() >= 2 ==> spec_create_user_test(args + extra) == spec_create_user_test(args)
            && spec_create_meme_test(args + extra) == spec_create_meme_test(args) && spec_two_ids(
            args + extra,
        ) == spec_two_ids(args) && spec_two_ids(args) == spec_two_ids(args.subrange(0, 2)),
        args.len() >= 1 ==> spec_create_tag_test(args + extra) == spec_create_tag_test(args)
            && spec_delete_meme_test(args + extra) == spec_delete_meme_test(args)
            && spec_delete_meme_test(args) == spec_delete_meme_test(args.subrange(0, 1)),
{
    if args.len() >= 1 {
        assert((args + extra)[0] == args[0]);
        assert(args.subrange(0, 1)[0] == args[0]);
    }
    if args.len() >= 2 {
        assert((args + extra)[1] == args[1]);
        assert(args.subrange(0, 2)[0] == args[0]);
        assert(args.subrange(0, 2)[1] == args[1]);
    }
}

/// What each command word reads from the words after it: a line is read by
/// its first word, and the arguments are the words that follow, in order.
pub proof fn lemma_command_words(words: Seq<Seq<char>>)
    requires
        words.len() >= 1,
    ensures
        words[0] == "adduser"@ && words.len() >= 3 ==> (spec_parse_i32(words[1]) matches Some(
            id,
        ) ==> spec_command(words) == Ok::<CommandView, CliError>(CommandView::AddUser(id, words[2]))),
        words[0] == "addmeme"@ && words.len() >= 3 ==> (spec_parse_i32(words[2]) matches Some(
            author,
        ) ==> spec_command(words) == Ok::<CommandView, CliError>(
            CommandView::AddMeme(words[1], author),
        )),
        words[0] == "addtag"@ && words.len() >= 2 ==> spec_command(words) == Ok::<
            CommandView,
            CliError,
        >(CommandView::AddTag(words[1])),
        words[0] == "addmemetag"@ && words.len() >= 3 ==> (spec_parse_i32(words[1]) matches Some(
            m,
        ) ==> (spec_parse_i32(words[2]) matches Some(t) ==> spec_command(words) == Ok::<
            CommandView,
            CliError,
        >(CommandView::AddMemeTag(m, t)))),
        words[0] == "upvote"@ && words.len() >= 3 ==> (spec_parse_i32(words[1]) matches Some(m) ==> (
        spec_parse_i32(words[2]) matches Some(u) ==> spec_command(words) == Ok::<
            CommandView,
            CliError,
        >(CommandView::Upvote(m, u)))),
        words[0] == "downvote"@ && words.len() >= 3 ==> (spec_parse_i32(words[1]) matches Some(
            m,
        ) ==> (spec_parse_i32(words[2]) matches Some(u) ==> spec_command(words) == Ok::<
            CommandView,
            CliError,
        >(CommandView::Downvote(m, u)))),
        words[0] == "delmeme"@ && words.len() >= 2 ==> spec_command(words) == match spec_parse_i32(
            words[1],
        ) {
            Some(id) => Ok::<CommandView, CliError>(CommandView::DeleteMeme(id)),
            None => Err::<CommandView, CliError>(CliError::MemeIdParse),
        },
        words[0] == "print"@ ==> spec_command(words) == Ok::<CommandView, CliError>(
            CommandView::Print,
        ),
        words[0] == "printuser"@ ==> spec_command(words) == Ok::<CommandView, CliError>(
            CommandView::PrintUsers,
        ),
        words[0] == "printtags"@ ==> spec_command(words) == Ok::<CommandView, CliError>(
            CommandView::PrintTags,
        ),
        words[0] == "printmeta"@ ==> spec_command(words) == Ok::<CommandView, CliError>(
            CommandView::PrintMeta,
        ),
        words[0] == "printhot"@ ==> spec_command(words) == Ok::<CommandView, CliError>(
            CommandView::PrintHot,
        ),
        words[0] == "help"@ ==> spec_command(words) == Ok::<CommandView, CliError>(
            CommandView::Help,
        ),
        words[0] != "adduser"@ && words[0] != "addmeme"@ && words[0] != "addtag"@ && words[0]
            != "addmemetag"@ && words[0] != "upvote"@ && words[0] != "downvote"@ && words[0]
            != "delmeme"@ && words[0] != "print"@ && words[0] != "printuser"@ && words[0]
            != "printtags"@ && words[0] != "printmeta"@ && words[0] != "printhot"@ && words[0]
            != "help"@ ==> spec_command(words) == Err::<CommandView, CliError>(
            CliError::InvalidCommand,
        ),
{
    reveal_strlit("adduser");
    reveal_strlit("addmeme");
    reveal_strlit("addtag");
    reveal_strlit("addmemetag");
    reveal_strlit("upvote");
    reveal_strlit("downvote");
    reveal_strlit("delmeme");
    reveal_strlit("print");
    reveal_strlit("printuser");
    reveal_strlit("printtags");
    reveal_strlit("printmeta");
    reveal_strlit("printhot");
    reveal_strlit("help");
    assert("adduser"@.len() == 7 && "addmeme"@.len() == 7 && "addtag"@.len() == 6
        && "addmemetag"@.len() == 10 && "upvote"@.len() == 6 && "downvote"@.len() == 8
        && "delmeme"@.len() == 7 && "print"@.len() == 5 && "printuser"@.len() == 9
        && "printtags"@.len() == 9 && "printmeta"@.len() == 9 && "printhot"@.len() == 8
        && "help"@.len() == 4);
    assert("adduser"@[3] == 'u' && "addmeme"@[3] == 'm' && "delmeme"@[0] == 'd');
    assert("addtag"@[0] == 'a' && "upvote"@[0] == 'u');
    assert("downvote"@[0] == 'd' && "printhot"@[0] == 'p');
    assert("printuser"@[5] == 'u' && "printtags"@[5] == 't' && "printmeta"@[5] == 'm');
    let args = words.subrange(1, words.len() as int);
    if words.len() >= 2 {
        assert(args[0] == words[1]);
    }
    if words.len() >= 3 {
        assert(args[1] == words[2]);
    }
}

/// A line made of space-free words joined by single spaces and ended by any
/// character (its line break) reads as the command its first word names, with
/// the words after it as that command's arguments.
pub proof fn lemma_command_of_joined_words(words: Seq<Seq<char>>, line_break: char)
    requires
        words.len() >= 1,
        forall|k: int| 0 <= k < words.len() ==> crate::text::space_free(#[trigger] words[k]),
    ensures
        spec_parse_command(crate::text::join_spaces(words).push(line_break)) == spec_command(words),
{
    assert(crate::text::join_spaces(words).push(line_break).drop_last()
        =~= crate::text::join_spaces(words));
    crate::text::lemma_join_split(words);
}

/// Whether two strings are the same text.
fn same_text(a: &str, b: &str) -> (r: bool)
    ensures
        r == (a@ == b@),
{
    let n = a.unicode_len();
    if n != b.unicode_len() {
        return false;
    }
    let mut i: usize = 0;
    while i < n
        invariant
            n == a@.len() == b@.len(),
            i <= n,
            forall|j: int| 0 <= j < i ==> a@[j] == b@[j],
        decreases n - i,
    {
        if a.get_char(i) != b.get_char(i) {
            return false;
        }
        i = i + 1;
    }
    assert(a@ =~= b@);
    true
}

/// Reads an input line: drops its last character (its line break), splits
/// the rest at each space, and reads the command that the first word names.
pub fn parse_command(input: &str) -> (r: Result<Command, CliError>)
    requires
        input@.len() > 0,
        (input@.last() as u32) < 0x80,
    ensures
        match r {
            Ok(c) => spec_parse_command(input@) == Ok::<CommandView, CliError>(c@),
            Err(e) => spec_parse_command(input@) == Err::<CommandView, CliError>(e),
        },
{
    let n = input.unicode_len();
    let line = input.substring_char(0, n - 1);
    assert(line@ =~= input@.drop_last());
    let words = split_words(line);
    proof {
        crate::text::lemma_split_len(line@);
    }
    let name = words[0];
    let args = &words.as_slice()[1..words.len()];
    assert(views(args@) =~= views(words@).subrange(1, words@.len() as int));
    if same_text(name, "adduser") {
        match create_user_test(args) {
            Ok(user) => Ok(Command::AddUser(user)),
            Err(e) => Err(e),
        }
    } else if same_text(name, "addmeme") {
        match create_meme_test(args) {
            Ok(meme) => Ok(Command::AddMeme(meme)),
            Err(e) => Err(e),
        }
    } else if same_text(name, "addtag") {
        match create_tag_test(args) {
            Ok(tag) => Ok(Command::AddTag(tag)),
            Err(e) => Err(e),
        }
    } else if same_text(name, "addmemetag") {
        match add_meme_tag_test(args) {
            Ok(link) => Ok(Command::AddMemeTag(link)),
            Err(e) => Err(e),
        }
    } else if same_text(name, "upvote") {
        match upvote_test(args) {
            Ok(action) => Ok(Command::Upvote(action)),
            Err(e) => Err(e),
        }
    } else if same_text(name, "downvote") {
        match downvote_test(args) {
            Ok(action) => Ok(Command::Downvote(action)),
            Err(e) => Err(e),
        }
    } else if same_text(name, "delmeme") {
        match delete_meme_test(args) {
            Ok(id) => Ok(Command::DeleteMeme(id)),
            Err(e) => Err(e),
        }
    } else if same_text(name, "print") {
        Ok(Command::Print)
    } else if same_text(name, "printuser") {
        Ok(Command::PrintUsers)
    } else if same_text(name, "printtags") {
        Ok(Command::PrintTags)
    } else if same_text(name, "printmeta") {
        Ok(Command::PrintMeta)
    } else if same_text(name, "printhot") {
        Ok(Command::PrintHot)
    } else if same_text(name, "help") {
        Ok(Command::Help)
    } else {
        Err(CliError::InvalidCommand)
    }
}

/// The database connection type of the console, declared so that a session
/// can hold one.
#[verifier::external_type_specification]
#[verifier::external_body]
pub struct ExPgConnection(diesel::pg::PgConnection);

/// A console session over one database connection.
pub struct Cli {
    conn: diesel::pg::PgConnection,
}

impl Cli {
    /// The connection the session holds.
    pub closed spec fn held_connection(&self) -> diesel::pg::PgConnection {
        self.conn
    }

    /// A session over `conn`, a connection already established.
    pub fn new(conn: diesel::pg::PgConnection) -> (r: Cli)
        ensures
            r.held_connection() == conn,
    {
        Cli { conn }
    }

    /// The session's connection.
    pub fn connection(&self) -> (r: &diesel::pg::PgConnection)
        ensures
            *r == self.held_connection(),
    {
        &self.conn
    }
}

} // verus!
