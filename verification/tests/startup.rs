use std::collections::HashSet;
use veloren_server::admin::AdminChange;
use veloren_server::banned_words::{
    collect_banned_words, load_banned_words, parse_banned_words, BannedWordsFile, FileContents,
    NamedWordList, WordList,
};
use veloren_server::{add_admin, remove_admin, EditableSettings, HwStats, ServerError};

fn file(path: &str, text: &str) -> BannedWordsFile {
    BannedWordsFile { path: path.to_string(), contents: FileContents::Bytes(text.as_bytes().to_vec()) }
}

fn message(e: ServerError) -> String {
    match e {
        ServerError::Other(text) => text,
    }
}

fn editable(admins: &[u128]) -> EditableSettings {
    EditableSettings {
        server_description: "a server".to_string(),
        admins: admins.iter().copied().collect::<HashSet<u128>>(),
    }
}

#[test]
fn words_come_in_the_order_of_the_files() {
    let files = vec![file("a.ron", "[\"one\", \"two\"]"), file("b.ron", "[]"), file("c.ron", "[\"three\",]")];
    assert_eq!(load_banned_words(files).unwrap(), vec!["one", "two", "three"]);
}

#[test]
fn no_files_ban_no_words() {
    assert_eq!(load_banned_words(vec![]).unwrap(), Vec::<String>::new());
}

#[test]
fn a_file_that_is_no_list_of_words_stops_the_server() {
    for text in ["", "(", "[1]", "\"one\"", "[\"one\" \"two\"]", "[\"one\"] more"] {
        let files = vec![file("good.ron", "[\"one\"]"), file("bad.ron", text)];
        assert_eq!(
            message(load_banned_words(files).unwrap_err()),
            "Couldn't read banned words file \"bad.ron\""
        );
    }
}

#[test]
fn a_file_that_cannot_be_read_to_its_end_is_reported_like_one_without_words() {
    let files = vec![BannedWordsFile { path: "torn.ron".to_string(), contents: FileContents::Unreadable }];
    assert_eq!(
        message(load_banned_words(files).unwrap_err()),
        "Couldn't read banned words file \"torn.ron\""
    );
}

#[test]
fn a_file_that_cannot_be_opened_is_reported_with_the_reason() {
    let files = vec![BannedWordsFile {
        path: "gone.ron".to_string(),
        contents: FileContents::Unopened("No such file or directory (os error 2)".to_string()),
    }];
    assert_eq!(
        message(load_banned_words(files).unwrap_err()),
        "Couldn't open banned words file \"gone.ron\". Error: No such file or directory (os error 2)"
    );
}

#[test]
fn the_first_file_that_fails_decides() {
    let files = vec![
        file("bad.ron", "]"),
        BannedWordsFile { path: "gone.ron".to_string(), contents: FileContents::Unopened("gone".to_string()) },
    ];
    assert_eq!(
        message(load_banned_words(files).unwrap_err()),
        "Couldn't read banned words file \"bad.ron\""
    );
}

#[test]
fn lists_are_collected_without_a_parser() {
    let lists = vec![
        NamedWordList { path: "a".to_string(), list: WordList::Words(vec!["x".to_string()]) },
        NamedWordList { path: "b".to_string(), list: WordList::Words(vec!["y".to_string(), "x".to_string()]) },
    ];
    assert_eq!(collect_banned_words(lists).unwrap(), vec!["x", "y", "x"]);
    let lists = vec![
        NamedWordList { path: "a".to_string(), list: WordList::Words(vec!["x".to_string()]) },
        NamedWordList { path: "b".to_string(), list: WordList::Unopened("why".to_string()) },
    ];
    assert_eq!(
        message(collect_banned_words(lists).unwrap_err()),
        "Couldn't open banned words file \"b\". Error: why"
    );
}

#[test]
fn a_file_keeps_its_path_when_it_is_parsed() {
    let named = parse_banned_words(file("dir/words.ron", "// a comment\n[\n  \"caf\u{e9}\",\n]\n"));
    assert_eq!(named.path, "dir/words.ron");
    match named.list {
        WordList::Words(words) => assert_eq!(words, vec!["caf\u{e9}"]),
        _ => panic!("the file lists one word"),
    }
}

#[test]
fn an_admin_is_added_once() {
    let mut settings = editable(&[1]);
    assert_eq!(add_admin::<()>(Ok(2), &mut settings), AdminChange::Added);
    assert_eq!(add_admin::<()>(Ok(2), &mut settings), AdminChange::AlreadyAdmin);
    assert_eq!(settings.admins, [1, 2].iter().copied().collect());
    assert_eq!(settings.server_description, "a server");
}

#[test]
fn an_admin_is_removed_once() {
    let mut settings = editable(&[1, 2]);
    assert_eq!(remove_admin::<()>(Ok(2), &mut settings), AdminChange::Removed);
    assert_eq!(remove_admin::<()>(Ok(2), &mut settings), AdminChange::NotAdmin);
    assert_eq!(settings.admins, [1].iter().copied().collect());
}

#[test]
fn adding_and_removing_an_admin_undo_each_other() {
    let mut settings = editable(&[7]);
    add_admin::<()>(Ok(9), &mut settings);
    remove_admin::<()>(Ok(9), &mut settings);
    assert_eq!(settings.admins, [7].iter().copied().collect());
    remove_admin::<()>(Ok(7), &mut settings);
    add_admin::<()>(Ok(7), &mut settings);
    assert_eq!(settings.admins, [7].iter().copied().collect());
}

#[test]
fn an_unknown_user_changes_nothing() {
    let mut settings = editable(&[1]);
    assert_eq!(add_admin(Err("no such user"), &mut settings), AdminChange::UnknownUser);
    assert_eq!(remove_admin(Err("no such user"), &mut settings), AdminChange::UnknownUser);
    assert_eq!(settings.admins, [1].iter().copied().collect());
}

#[test]
fn thread_counts_are_kept_in_32_bits() {
    assert_eq!(HwStats::new(8, 4), HwStats { hardware_threads: 8, rayon_threads: 4 });
    let many = u32::MAX as usize + 3;
    assert_eq!(HwStats::new(many, 1).hardware_threads, 2);
}

#[test]
fn the_machine_has_threads() {
    let stats = HwStats::detect();
    assert_eq!(stats.hardware_threads as usize, num_cpus::get());
    assert_eq!(stats.rayon_threads as usize, num_cpus::get());
}

#[test]
fn admins_may_be_added_in_either_order() {
    let mut one = editable(&[]);
    let mut other = editable(&[]);
    for uuid in [4, 8] {
        add_admin::<()>(Ok(uuid), &mut one);
    }
    for uuid in [8, 4] {
        add_admin::<()>(Ok(uuid), &mut other);
    }
    assert_eq!(one.admins, other.admins);
}
