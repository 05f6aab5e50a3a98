//! Commands that are typed into the chat, and what is answered to them.

use crate::messages::ChatType;
use crate::text::{
    before_first, before_first_is_first, enclose, find, join, joined, pieces, split,
    text_is_cut_at_its_first_separator, texts,
};
use vstd::prelude::*;

verus! {

/// A command: what is to be done, and the rest of the line.
#[derive(Debug)]
pub struct ChatCall {
    pub keyword: String,
    pub args: String,
}

/// The keyword of a command line: all up to the first space.
pub open spec fn keyword_of(cmd: Seq<char>) -> Seq<char> {
    cmd.take(before_first(cmd, ' ') as int)
}

/// The arguments of a command line: all after the first space.
pub open spec fn args_of(cmd: Seq<char>) -> Seq<char> {
    let n = before_first(cmd, ' ') as int;
    if n < cmd.len() {
        cmd.skip(n + 1)
    } else {
        Seq::empty()
    }
}

/// What plugins are told of a command that the server does not know.
#[derive(Debug)]
pub struct ChatCommandEvent {
    pub command: String,
    pub command_args: Vec<String>,
    pub player: u64,
}

/// What is done about a command: it is executed on its arguments, the plugins are
/// told of it, or nothing is done. How a known command is stored is left to the
/// caller.
#[derive(Debug)]
pub enum ChatAction<C> {
    Execute(C, String),
    AskPlugins(ChatCommandEvent),
    Ignore,
}

/// What one plugin makes of a command.
#[derive(Debug)]
pub enum PluginReply {
    Lines(Vec<String>),
    Error(String),
}

/// What the plugins make of a command.
#[derive(Debug)]
pub enum PluginOutcome {
    Replies(Vec<PluginReply>),
    /// The plugins could not be asked.
    Failed,
}

/// [`PluginReply`], by the text it holds.
pub enum ReplyView {
    Lines(Seq<Seq<char>>),
    Error(Seq<char>),
}

impl View for PluginReply {
    type V = ReplyView;

    open spec fn view(&self) -> ReplyView {
        match *self {
            PluginReply::Lines(lines) => ReplyView::Lines(texts(lines@)),
            PluginReply::Error(e) => ReplyView::Error(e@),
        }
    }
}

/// A line of chat that answers a command.
#[derive(Debug)]
pub struct ChatLine {
    pub kind: ChatType,
    pub text: String,
}

impl View for ChatLine {
    type V = (ChatType, Seq<char>);

    open spec fn view(&self) -> (ChatType, Seq<char>) {
        (self.kind, self.text@)
    }
}

/// The views of the lines.
pub open spec fn line_views(lines: Seq<ChatLine>) -> Seq<(ChatType, Seq<char>)> {
    lines.map_values(|l: ChatLine| l@)
}

/// The answer to a command that nobody knows.
pub open spec fn unknown_command(keyword: Seq<char>) -> (ChatType, Seq<char>) {
    (
        ChatType::CommandError,
        "Unknown command '/"@ + keyword + "'.\nType '/help' for available commands"@,
    )
}

/// The answer to a command that the plugins could not be asked about.
pub open spec fn internal_error(keyword: Seq<char>) -> (ChatType, Seq<char>) {
    (
        ChatType::CommandError,
        "Internal error while executing '/"@ + keyword
            + "'.\nContact the server administrator"@,
    )
}

/// The answer to a command that a plugin failed at.
pub open spec fn plugin_error(keyword: Seq<char>, e: Seq<char>) -> (ChatType, Seq<char>) {
    (
        ChatType::CommandError,
        "Error occurred while executing command '/"@ + keyword + "'.\n"@ + e,
    )
}

/// What is answered to the player on behalf of one plugin.
pub open spec fn reply_lines(keyword: Seq<char>, reply: ReplyView) -> Seq<(ChatType, Seq<char>)> {
    match reply {
        ReplyView::Lines(lines) => if lines.len() == 0 {
            Seq::empty()
        } else {
            seq![(ChatType::CommandInfo, joined(lines, "\n"@))]
        },
        ReplyView::Error(e) => seq![plugin_error(keyword, e)],
    }
}

/// What is answered on behalf of some plugins, one after the other.
pub open spec fn all_reply_lines(keyword: Seq<char>, replies: Seq<PluginReply>) -> Seq<
    (ChatType, Seq<char>),
>
    decreases replies.len(),
{
    if replies.len() == 0 {
        Seq::empty()
    } else {
        all_reply_lines(keyword, replies.drop_last()) + reply_lines(keyword, replies.last()@)
    }
}

/// What is answered to a command that the server left to its plugins.
pub open spec fn answer(keyword: Seq<char>, outcome: PluginOutcome) -> Seq<(ChatType, Seq<char>)> {
    match outcome {
        PluginOutcome::Replies(replies) => if replies@.len() == 0 {
            seq![unknown_command(keyword)]
        } else {
            all_reply_lines(keyword, replies@)
        },
        PluginOutcome::Failed => seq![internal_error(keyword)],
    }
}

/// Parts a command line into its keyword and its arguments.
pub fn split_command(cmd: &str) -> (call: ChatCall)
    ensures
        call.keyword@ == keyword_of(cmd@),
        call.args@ == args_of(cmd@),
{
    let n: usize = find(cmd, ' ');
    let len: usize = cmd.unicode_len();
    proof {
        before_first_is_first(cmd@, ' ');
        assert(cmd@.subrange(0, n as int) =~= cmd@.take(n as int));
    }
    let keyword = cmd.substring_char(0, n).to_string();
    let args = if n < len {
        assert(cmd@.subrange(n + 1, len as int) =~= cmd@.skip(n + 1));
        cmd.substring_char(n + 1, len).to_string()
    } else {
        String::new()
    };
    ChatCall { keyword, args }
}

/// What plugins are told of a command that the server does not know.
pub fn plugin_event(call: &ChatCall, player: u64) -> (event: ChatCommandEvent)
    ensures
        event.command@ == call.keyword@,
        texts(event.command_args@) == pieces(call.args@, ' '),
        event.player == player,
{
    ChatCommandEvent {
        command: call.keyword.clone(),
        command_args: split(call.args.as_str(), ' '),
        player,
    }
}

/// What is answered to a command that the server left to its plugins.
pub fn answer_lines(keyword: &str, outcome: PluginOutcome) -> (lines: Vec<ChatLine>)
    ensures
        line_views(lines@) == answer(keyword@, outcome),
{
    let mut lines: Vec<ChatLine> = Vec::new();
    match outcome {
        PluginOutcome::Replies(replies) => {
            if replies.len() == 0 {
                let text = enclose(
                    "Unknown command '/",
                    keyword,
                    "'.\nType '/help' for available commands",
                );
                lines.push(ChatLine { kind: ChatType::CommandError, text });
                assert(line_views(lines@) =~= seq![unknown_command(keyword@)]);
            } else {
                assert(line_views(lines@) =~= Seq::empty());
                for reply in it: replies.into_iter()
                    invariant
                        it.seq() == replies@,
                        line_views(lines@) == all_reply_lines(
                            keyword@,
                            replies@.take(it.index()),
                        ),
                {
                    let ghost before = line_views(lines@);
                    let ghost next = replies@.take(it.index() + 1);
                    proof {
                        assert(next.drop_last() =~= replies@.take(it.index()));
                    }
                    match reply {
                        PluginReply::Lines(text) => {
                            if text.len() > 0 {
                                let text = join(&text, "\n");
                                lines.push(ChatLine { kind: ChatType::CommandInfo, text });
                            }
                        },
                        PluginReply::Error(e) => {
                            let text = enclose(
                                "Error occurred while executing command '/",
                                keyword,
                                "'.\n",
                            ).concat(e.as_str());
                            lines.push(ChatLine { kind: ChatType::CommandError, text });
                        },
                    }
                    assert(line_views(lines@) =~= before + reply_lines(keyword@, reply@));
                }
                assert(replies@.take(replies@.len() as int) =~= replies@);
            }
        },
        PluginOutcome::Failed => {
            let text = enclose(
                "Internal error while executing '/",
                keyword,
                "'.\nContact the server administrator",
            );
            lines.push(ChatLine { kind: ChatType::CommandError, text });
            assert(line_views(lines@) =~= seq![internal_error(keyword@)]);
        },
    }
    lines
}

/// Nothing of a command line is lost but the first space: the keyword holds none,
/// and with a space and the arguments behind it gives the line back. A line
/// without a space is all keyword.
pub proof fn command_line_is_kept(cmd: Seq<char>)
    ensures
        !keyword_of(cmd).contains(' '),
        cmd.contains(' ') ==> cmd == keyword_of(cmd) + seq![' '] + args_of(cmd),
        !cmd.contains(' ') ==> keyword_of(cmd) == cmd && args_of(cmd).len() == 0,
{
    let n = before_first(cmd, ' ') as int;
    before_first_is_first(cmd, ' ');
    if cmd.contains(' ') {
        let i = cmd.index_of(' ');
        assert(n < cmd.len());
        assert(cmd =~= keyword_of(cmd) + seq![' '] + args_of(cmd));
    } else {
        if n < cmd.len() {
            assert(cmd[n] == ' ');
        }
        assert(keyword_of(cmd) =~= cmd);
    }
}

/// A command is left without an answer only by plugins that were asked, and of
/// which every one answered with no lines.
pub proof fn silence_comes_from_plugins(keyword: Seq<char>, outcome: PluginOutcome)
    ensures
        answer(keyword, outcome).len() == 0 <==> (outcome matches PluginOutcome::Replies(replies)
            && replies@.len() > 0 && forall|i: int|
            0 <= i < replies@.len() ==> ((#[trigger] replies@[i])@ matches ReplyView::Lines(lines)
                && lines.len() == 0)),
{
    if let PluginOutcome::Replies(replies) = outcome {
        lemma_silent_replies(keyword, replies@);
    }
}

proof fn lemma_silent_replies(keyword: Seq<char>, replies: Seq<PluginReply>)
    ensures
        all_reply_lines(keyword, replies).len() == 0 <==> forall|i: int|
            0 <= i < replies.len() ==> ((#[trigger] replies[i])@ matches ReplyView::Lines(lines)
                && lines.len() == 0),
    decreases replies.len(),
{
    if replies.len() > 0 {
        let rest = replies.drop_last();
        lemma_silent_replies(keyword, rest);
        assert(forall|i: int| 0 <= i < rest.len() ==> rest[i] == #[trigger] replies[i]);
        if all_reply_lines(keyword, replies).len() == 0 {
            assert forall|i: int| 0 <= i < replies.len() implies ((
            #[trigger] replies[i])@ matches ReplyView::Lines(lines) && lines.len() == 0) by {
                if i < rest.len() {
                    assert(rest[i]@ is Lines);
                }
            }
        } else if all_reply_lines(keyword, rest).len() > 0 {
            let i = choose|i: int|
                0 <= i < rest.len() && !((#[trigger] rest[i])@ matches ReplyView::Lines(lines)
                    && lines.len() == 0);
            assert(!(replies[i]@ matches ReplyView::Lines(lines) && lines.len() == 0));
        } else {
            assert(!(replies[replies.len() - 1]@ matches ReplyView::Lines(lines) && lines.len()
                == 0));
        }
    }
}

/// A command is answered by one line where no plugin knows it, or where the plugins
/// could not be asked; otherwise by what its plugins reply.
pub proof fn answers_are_exact(keyword: Seq<char>, replies: Vec<PluginReply>)
    ensures
        replies@.len() == 0 ==> answer(keyword, PluginOutcome::Replies(replies)) == seq![
            (
                ChatType::CommandError,
                "Unknown command '/"@ + keyword + "'.\nType '/help' for available commands"@,
            ),
        ],
        answer(keyword, PluginOutcome::Failed) == seq![
            (
                ChatType::CommandError,
                "Internal error while executing '/"@ + keyword
                    + "'.\nContact the server administrator"@,
            ),
        ],
        replies@.len() > 0 ==> answer(keyword, PluginOutcome::Replies(replies))
            == all_reply_lines(keyword, replies@),
{
}

/// One more plugin adds its own line behind those of the others: its lines joined
/// into one, unless it has none; or its error, with the command that it failed at.
pub proof fn plugins_are_heard_one_by_one(
    keyword: Seq<char>,
    replies: Seq<PluginReply>,
    lines: Vec<String>,
    e: String,
)
    ensures
        all_reply_lines(keyword, Seq::empty()).len() == 0,
        all_reply_lines(keyword, replies.push(PluginReply::Lines(lines))) == if lines@.len() == 0 {
            all_reply_lines(keyword, replies)
        } else {
            all_reply_lines(keyword, replies).push(
                (ChatType::CommandInfo, joined(texts(lines@), "\n"@)),
            )
        },
        all_reply_lines(keyword, replies.push(PluginReply::Error(e))) == all_reply_lines(
            keyword,
            replies,
        ).push(
            (
                ChatType::CommandError,
                "Error occurred while executing command '/"@ + keyword + "'.\n"@ + e@,
            ),
        ),
{
    let before = all_reply_lines(keyword, replies);
    assert(replies.push(PluginReply::Lines(lines)).drop_last() =~= replies);
    assert(replies.push(PluginReply::Error(e)).drop_last() =~= replies);
    assert(before + Seq::<(ChatType, Seq<char>)>::empty() =~= before);
    let info = (ChatType::CommandInfo, joined(texts(lines@), "\n"@));
    assert(before + seq![info] =~= before.push(info));
    let failure = (
        ChatType::CommandError,
        "Error occurred while executing command '/"@ + keyword + "'.\n"@ + e@,
    );
    assert(before + seq![failure] =~= before.push(failure));
}

/// A command is parted at its first space, whatever stands on either side.
pub proof fn commands_are_parted_at_the_first_space(keyword: Seq<char>, args: Seq<char>)
    requires
        !keyword.contains(' '),
    ensures
        keyword_of(keyword + seq![' '] + args) == keyword,
        args_of(keyword + seq![' '] + args) == args,
        keyword_of(keyword) == keyword,
        args_of(keyword).len() == 0,
{
    text_is_cut_at_its_first_separator(keyword, args, ' ');
    let cmd = keyword + seq![' '] + args;
    assert(cmd.take(keyword.len() as int) =~= keyword);
    assert(cmd.skip(keyword.len() as int + 1) =~= args);
    assert(keyword.take(keyword.len() as int) =~= keyword);
}

/// Replies and lines of chat are seen as they are.
pub proof fn replies_are_seen_as_they_are(
    lines: Vec<String>,
    e: String,
    line: ChatLine,
    all: Seq<ChatLine>,
)
    ensures
        PluginReply::Lines(lines)@ == ReplyView::Lines(texts(lines@)),
        PluginReply::Error(e)@ == ReplyView::Error(e@),
        line@ == (line.kind, line.text@),
        line_views(all).len() == all.len(),
        forall|i: int| 0 <= i < all.len() ==> #[trigger] line_views(all)[i] == all[i]@,
{
}

} // verus!
