//! The chat side: which command a message gives, whom it mentions, and the
//! texts of the replies.

use vstd::prelude::*;

verus! {

/// What a chat message asks for.
#[derive(PartialEq, Eq, Structural, Clone, Copy, Debug)]
pub enum ChatCommand {
    /// Start a login ("登录农场").
    Login,
    /// Show the recent output of the sender's process ("农场状态").
    Status,
    /// Reply with the sender's nickname ("获取QQ名").
    Nickname,
    /// Anything else; ignored.
    Other,
}

pub open spec fn login_prefix() -> Seq<char> {
    seq!['登', '录', '农', '场']
}

pub open spec fn status_prefix() -> Seq<char> {
    seq!['农', '场', '状', '态']
}

pub open spec fn nickname_prefix() -> Seq<char> {
    seq!['获', '取', 'Q', 'Q', '名']
}

pub open spec fn has_prefix(s: Seq<char>, p: Seq<char>) -> bool {
    p.len() <= s.len() && s.subrange(0, p.len() as int) == p
}

/// The command that a message with text `text` gives.
pub open spec fn command_of(text: Seq<char>) -> ChatCommand {
    if has_prefix(text, login_prefix()) {
        ChatCommand::Login
    } else if has_prefix(text, status_prefix()) {
        ChatCommand::Status
    } else if has_prefix(text, nickname_prefix()) {
        ChatCommand::Nickname
    } else {
        ChatCommand::Other
    }
}

fn starts_with(text: &Vec<char>, prefix: &[char]) -> (r: bool)
    ensures
        r == has_prefix(text@, prefix@),
{
    if prefix.len() > text.len() {
        return false;
    }
    let mut i: usize = 0;
    while i < prefix.len()
        invariant
            prefix@.len() <= text@.len(),
            i <= prefix@.len(),
            forall|j: int| 0 <= j < i ==> text@[j] == prefix@[j],
        decreases prefix@.len() - i,
    {
        if text[i] != prefix[i] {
            assert(text@.subrange(0, prefix@.len() as int)[i as int] != prefix@[i as int]);
            return false;
        }
        i += 1;
    }
    assert(text@.subrange(0, prefix@.len() as int) =~= prefix@);
    true
}

/// Reads the command at the start of a message's text.
pub fn parse_command(text: &Vec<char>) -> (r: ChatCommand)
    ensures
        r == command_of(text@),
{
    let login: [char; 4] = ['登', '录', '农', '场'];
    let status: [char; 4] = ['农', '场', '状', '态'];
    let nickname: [char; 5] = ['获', '取', 'Q', 'Q', '名'];
    assert(login@ =~= login_prefix());
    assert(status@ =~= status_prefix());
    assert(nickname@ =~= nickname_prefix());
    if starts_with(text, &login) {
        ChatCommand::Login
    } else if starts_with(text, &status) {
        ChatCommand::Status
    } else if starts_with(text, &nickname) {
        ChatCommand::Nickname
    } else {
        ChatCommand::Other
    }
}

/// One segment of a chat message: its type, and the account number it
/// carries under "qq", if any.
pub struct Segment {
    pub kind: String,
    pub qq: Option<String>,
}

/// The account number of the last "at" segment of `segs` that carries one;
/// empty when none does.
pub open spec fn last_mention(segs: Seq<Segment>) -> Seq<char>
    decreases segs.len(),
{
    if segs.len() == 0 {
        Seq::empty()
    } else if segs.last().kind@ == "at"@ && segs.last().qq is Some {
        segs.last().qq->0@
    } else {
        last_mention(segs.drop_last())
    }
}

/// The account number mentioned last in a message, or an empty string.
pub fn get_qq_number(segments: &Vec<Segment>) -> (r: String)
    ensures
        r@ == last_mention(segments@),
{
    let at = "at".to_owned();
    let mut qq_number = String::new();
    let mut i: usize = 0;
    while i < segments.len()
        invariant
            i <= segments@.len(),
            at@ == "at"@,
            qq_number@ == last_mention(segments@.subrange(0, i as int)),
        decreases segments@.len() - i,
    {
        let seg = &segments[i];
        assert(segments@.subrange(0, i + 1).drop_last() =~= segments@.subrange(0, i as int));
        if seg.kind == at {
            match &seg.qq {
                Some(q) => {
                    qq_number = q.clone();
                },
                None => {},
            }
        }
        i += 1;
    }
    assert(segments@.subrange(0, segments@.len() as int) =~= segments@);
    qq_number
}

/// The reply to a status request: a heading line, then each output line on
/// a line of its own.
pub open spec fn status_text_of(lines: Seq<String>) -> Seq<char>
    decreases lines.len(),
{
    if lines.len() == 0 {
        STATUS_HEADING@
    } else {
        status_text_of(lines.drop_last()) + lines.last()@ + "\n"@
    }
}

pub const STATUS_HEADING: &'static str = "农场状态：\n";

/// The reply to a status request from a user without a session.
pub const NOT_LOGGED_IN: &'static str = "您还未登录，请先登录后操作";

/// The reply sent when a confirmed login starts the user's process; the
/// nickname goes between this and `STARTING_SUFFIX`.
pub const STARTING_PREFIX: &'static str = "正在为[ ";

pub const STARTING_SUFFIX: &'static str = " ]启动脚本！";

/// Writes the reply to a status request for the given output lines.
pub fn status_text(lines: &Vec<String>) -> (r: String)
    ensures
        r@ == status_text_of(lines@),
{
    let mut text = STATUS_HEADING.to_owned();
    let mut i: usize = 0;
    while i < lines.len()
        invariant
            i <= lines@.len(),
            text@ == status_text_of(lines@.subrange(0, i as int)),
        decreases lines@.len() - i,
    {
        assert(lines@.subrange(0, i + 1).drop_last() =~= lines@.subrange(0, i as int));
        text = text.concat(lines[i].as_str()).concat("\n");
        i += 1;
    }
    assert(lines@.subrange(0, lines@.len() as int) =~= lines@);
    text
}

/// The reply sent when `nickname`'s process is being started.
pub fn starting_text(nickname: &String) -> (r: String)
    ensures
        r@ == STARTING_PREFIX@ + nickname@ + STARTING_SUFFIX@,
{
    STARTING_PREFIX.to_owned().concat(nickname.as_str()).concat(STARTING_SUFFIX)
}

} // verus!
