use veloren_server::chat::{
    answer_lines, plugin_event, split_command, ChatCall, ChatLine, PluginOutcome, PluginReply,
};
use veloren_server::messages::ChatType;
use veloren_server::text::{enclose, find, join, split};

fn strings(parts: &[&str]) -> Vec<String> {
    parts.iter().map(|p| p.to_string()).collect()
}

fn pairs(lines: Vec<ChatLine>) -> Vec<(ChatType, String)> {
    lines.into_iter().map(|l| (l.kind, l.text)).collect()
}

#[test]
fn the_first_separator_is_found() {
    assert_eq!(find("give sword 3", ' '), 4);
    assert_eq!(find("help", ' '), 4);
    assert_eq!(find("", ' '), 0);
    assert_eq!(find("\u{e9}\u{e9} x", ' '), 2);
}

#[test]
fn text_is_cut_at_every_separator() {
    assert_eq!(split("a b c", ' '), strings(&["a", "b", "c"]));
    assert_eq!(split("", ' '), strings(&[""]));
    assert_eq!(split(" a  b ", ' '), strings(&["", "a", "", "b", ""]));
    assert_eq!(split("\u{fc}ber alles", ' '), strings(&["\u{fc}ber", "alles"]));
}

#[test]
fn joined_pieces_give_the_text_back() {
    for text in ["", " ", "a b", "  a b  c ", "no-space"] {
        assert_eq!(join(&split(text, ' '), " "), text);
    }
    assert_eq!(join(&strings(&["x", "y"]), "\n"), "x\ny");
    assert_eq!(join(&vec![], "\n"), "");
    assert_eq!(enclose("<", "x", ">"), "<x>");
}

#[test]
fn a_command_is_parted_at_its_first_space() {
    let call = split_command("give sword 3");
    assert_eq!((call.keyword.as_str(), call.args.as_str()), ("give", "sword 3"));
    let call = split_command("help");
    assert_eq!((call.keyword.as_str(), call.args.as_str()), ("help", ""));
    let call = split_command(" x");
    assert_eq!((call.keyword.as_str(), call.args.as_str()), ("", "x"));
    let call = split_command("tell ");
    assert_eq!((call.keyword.as_str(), call.args.as_str()), ("tell", ""));
    let call = split_command("\u{e9}t\u{e9} \u{fc}  y");
    assert_eq!((call.keyword.as_str(), call.args.as_str()), ("\u{e9}t\u{e9}", "\u{fc}  y"));
}

#[test]
fn plugins_are_told_the_arguments_one_by_one() {
    let call = ChatCall { keyword: "dance".to_string(), args: "fast  now".to_string() };
    let event = plugin_event(&call, 42);
    assert_eq!(event.command, "dance");
    assert_eq!(event.command_args, strings(&["fast", "", "now"]));
    assert_eq!(event.player, 42);
    let event = plugin_event(&split_command("dance"), 1);
    assert_eq!(event.command_args, strings(&[""]));
}

#[test]
fn a_command_that_no_plugin_knows_is_unknown() {
    assert_eq!(
        pairs(answer_lines("frobnicate", PluginOutcome::Replies(vec![]))),
        vec![(
            ChatType::CommandError,
            "Unknown command '/frobnicate'.\nType '/help' for available commands".to_string()
        )]
    );
}

#[test]
fn plugins_that_cannot_be_asked_are_an_internal_error() {
    assert_eq!(
        pairs(answer_lines("dance", PluginOutcome::Failed)),
        vec![(
            ChatType::CommandError,
            "Internal error while executing '/dance'.\nContact the server administrator".to_string()
        )]
    );
}

#[test]
fn every_plugin_is_heard_in_turn() {
    let replies = vec![
        PluginReply::Lines(strings(&["one", "two"])),
        PluginReply::Lines(vec![]),
        PluginReply::Error("out of breath".to_string()),
        PluginReply::Lines(strings(&["done"])),
    ];
    assert_eq!(
        pairs(answer_lines("dance", PluginOutcome::Replies(replies))),
        vec![
            (ChatType::CommandInfo, "one\ntwo".to_string()),
            (
                ChatType::CommandError,
                "Error occurred while executing command '/dance'.\nout of breath".to_string()
            ),
            (ChatType::CommandInfo, "done".to_string()),
        ]
    );
}

#[test]
fn plugins_may_be_silent() {
    let replies = vec![PluginReply::Lines(vec![]), PluginReply::Lines(vec![])];
    assert_eq!(pairs(answer_lines("dance", PluginOutcome::Replies(replies))), vec![]);
    let replies = vec![PluginReply::Lines(strings(&[""]))];
    assert_eq!(
        pairs(answer_lines("dance", PluginOutcome::Replies(replies))),
        vec![(ChatType::CommandInfo, "".to_string())]
    );
}
