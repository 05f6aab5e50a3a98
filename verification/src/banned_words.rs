//! The words that no player may be called by, read from the files that the
//! settings name.

use crate::settings::ServerError;
use crate::text::{enclose, texts};
use vstd::prelude::*;

verus! {

/// What was found at the path of a file.
#[derive(Debug)]
pub enum FileContents {
    /// The file could not be opened; with what the system says of it.
    Unopened(String),
    /// The file was opened, and could not be read to its end.
    Unreadable,
    Bytes(Vec<u8>),
}

/// A file that lists banned words.
#[derive(Debug)]
pub struct BannedWordsFile {
    pub path: String,
    pub contents: FileContents,
}

/// What a file gave.
#[derive(Debug)]
pub enum WordList {
    /// The file could not be opened; with what the system says of it.
    Unopened(String),
    /// The file could not be read, or is no list of words.
    Unreadable,
    Words(Vec<String>),
}

/// What a file gave, with its path.
#[derive(Debug)]
pub struct NamedWordList {
    pub path: String,
    pub list: WordList,
}

/// [`WordList`], by the text it holds.
pub enum WordListView {
    Unopened(Seq<char>),
    Unreadable,
    Words(Seq<Seq<char>>),
}

impl View for WordList {
    type V = WordListView;

    open spec fn view(&self) -> WordListView {
        match *self {
            WordList::Unopened(why) => WordListView::Unopened(why@),
            WordList::Unreadable => WordListView::Unreadable,
            WordList::Words(words) => WordListView::Words(texts(words@)),
        }
    }
}

impl View for NamedWordList {
    type V = (Seq<char>, WordListView);

    open spec fn view(&self) -> (Seq<char>, WordListView) {
        (self.path@, self.list@)
    }
}

/// The views of the word lists.
pub open spec fn list_views(lists: Seq<NamedWordList>) -> Seq<(Seq<char>, WordListView)> {
    lists.map_values(|l: NamedWordList| l@)
}

/// The list of strings that `ron::de::from_reader` makes of a text in RON; none
/// where it reports an error.
pub uninterp spec fn ron_string_list(bytes: Seq<u8>) -> Option<Seq<Seq<char>>>;

/// Why the parser of word lists refused a text.
#[verifier::external_type_specification]
#[verifier::external_body]
pub struct ExRonError(ron::Error);

/// Calls `ron::de::from_reader` on the bytes, for a list of strings. It reads
/// them to their end, and makes the same of the same bytes: the list that they
/// spell in RON, or an error. The contract gives that outcome a name, and leaves
/// unsaid what the grammar of RON is and what the error says. The parser skips
/// comments by recursion, so that its need of stack grows with the number of
/// comments in a row.
#[verifier::external_body]
fn parse_ron_strings(bytes: &[u8]) -> (r: Result<Vec<String>, ron::Error>)
    ensures
        (match r {
            Ok(words) => Some(texts(words@)),
            Err(_) => None,
        }) == ron_string_list(bytes@),
{
    ron::de::from_reader(bytes)
}

/// What the contents of a file give.
pub open spec fn words_in(contents: FileContents) -> WordListView {
    match contents {
        FileContents::Unopened(why) => WordListView::Unopened(why@),
        FileContents::Unreadable => WordListView::Unreadable,
        FileContents::Bytes(bytes) => match ron_string_list(bytes@) {
            Some(words) => WordListView::Words(words),
            None => WordListView::Unreadable,
        },
    }
}

/// The error for a file that could not be opened.
pub open spec fn open_error(path: Seq<char>, why: Seq<char>) -> Seq<char> {
    "Couldn't open banned words file \""@ + path + "\". Error: "@ + why
}

/// The error for a file that could not be read or is no list of words.
pub open spec fn read_error(path: Seq<char>) -> Seq<char> {
    "Couldn't read banned words file \""@ + path + "\""@
}

/// What a file adds to the banned words, or the error that it stops with.
pub open spec fn words_or_error(list: (Seq<char>, WordListView)) -> Result<
    Seq<Seq<char>>,
    Seq<char>,
> {
    match list.1 {
        WordListView::Unopened(why) => Err(open_error(list.0, why)),
        WordListView::Unreadable => Err(read_error(list.0)),
        WordListView::Words(words) => Ok(words),
    }
}

/// The words of all lists one after the other, or the error of the first list
/// that has one.
pub open spec fn all_words(lists: Seq<(Seq<char>, WordListView)>) -> Result<
    Seq<Seq<char>>,
    Seq<char>,
>
    decreases lists.len(),
{
    if lists.len() == 0 {
        Ok(Seq::empty())
    } else {
        match all_words(lists.drop_last()) {
            Ok(words) => match words_or_error(lists.last()) {
                Ok(more) => Ok(words + more),
                Err(e) => Err(e),
            },
            Err(e) => Err(e),
        }
    }
}

/// The outcome of a start-up step, by the text it holds.
pub open spec fn outcome(r: Result<Vec<String>, ServerError>) -> Result<Seq<Seq<char>>, Seq<char>> {
    match r {
        Ok(words) => Ok(texts(words@)),
        Err(e) => Err(e.message()),
    }
}

/// The views of what the files give.
pub open spec fn parsed_files(files: Seq<BannedWordsFile>) -> Seq<(Seq<char>, WordListView)> {
    files.map_values(|f: BannedWordsFile| (f.path@, words_in(f.contents)))
}

/// Reads the list of words out of a file.
pub fn parse_banned_words(file: BannedWordsFile) -> (list: NamedWordList)
    ensures
        list@ == (file.path@, words_in(file.contents)),
{
    let list = match file.contents {
        FileContents::Unopened(why) => WordList::Unopened(why),
        FileContents::Unreadable => WordList::Unreadable,
        FileContents::Bytes(bytes) => match parse_ron_strings(bytes.as_slice()) {
            Ok(words) => WordList::Words(words),
            Err(_) => WordList::Unreadable,
        },
    };
    NamedWordList { path: file.path, list }
}

/// Puts the words of all lists into one list, or stops at the first list that
/// could not be had.
pub fn collect_banned_words(lists: Vec<NamedWordList>) -> (r: Result<Vec<String>, ServerError>)
    ensures
        outcome(r) == all_words(list_views(lists@)),
{
    let ghost views = list_views(lists@);
    let mut banned_words: Vec<String> = Vec::new();
    assert(texts(banned_words@) =~= Seq::empty());
    for named in it: lists.into_iter()
        invariant
            it.seq() == lists@,
            views == list_views(lists@),
            all_words(views.take(it.index())) == Ok::<Seq<Seq<char>>, Seq<char>>(
                texts(banned_words@),
            ),
    {
        let ghost seen = views.take(it.index());
        let ghost next = views.take(it.index() + 1);
        let ghost before = texts(banned_words@);
        proof {
            assert(next.drop_last() =~= seen);
            assert(next.last() == named@);
        }
        match named.list {
            WordList::Unopened(why) => {
                let text = enclose(
                    "Couldn't open banned words file \"",
                    named.path.as_str(),
                    "\". Error: ",
                ).concat(why.as_str());
                proof {
                    failing_list_decides(views, it.index() + 1);
                }
                return Err(ServerError::Other(text));
            },
            WordList::Unreadable => {
                let text = enclose(
                    "Couldn't read banned words file \"",
                    named.path.as_str(),
                    "\"",
                );
                proof {
                    failing_list_decides(views, it.index() + 1);
                }
                return Err(ServerError::Other(text));
            },
            WordList::Words(words) => {
                let mut list = words;
                banned_words.append(&mut list);
                assert(texts(banned_words@) =~= before + texts(words@));
            },
        }
    }
    assert(views.take(views.len() as int) =~= views);
    Ok(banned_words)
}

/// Nothing that comes after a list that could not be had changes the outcome.
pub proof fn failing_list_decides(lists: Seq<(Seq<char>, WordListView)>, n: int)
    requires
        0 <= n <= lists.len(),
        all_words(lists.take(n)) is Err,
    ensures
        all_words(lists) == all_words(lists.take(n)),
    decreases lists.len(),
{
    if n == lists.len() {
        assert(lists.take(n) =~= lists);
    } else {
        assert(lists.drop_last().take(n) =~= lists.take(n));
        failing_list_decides(lists.drop_last(), n);
    }
}

/// The words can be had just when every list can be had.
pub proof fn words_need_every_list(lists: Seq<(Seq<char>, WordListView)>)
    ensures
        all_words(lists) is Ok <==> forall|i: int|
            0 <= i < lists.len() ==> (#[trigger] lists[i]).1 is Words,
    decreases lists.len(),
{
    if lists.len() > 0 {
        let rest = lists.drop_last();
        words_need_every_list(rest);
        assert(forall|i: int| 0 <= i < rest.len() ==> rest[i] == lists[i]);
        if all_words(lists) is Ok {
            assert forall|i: int| 0 <= i < lists.len() implies (#[trigger] lists[i]).1 is Words by {
                if i < rest.len() {
                    assert(rest[i].1 is Words);
                }
            }
        }
    }
}

/// The words that the files ban, in the order of the files; or why they could not
/// be had.
pub fn load_banned_words(files: Vec<BannedWordsFile>) -> (r: Result<Vec<String>, ServerError>)
    ensures
        outcome(r) == all_words(parsed_files(files@)),
{
    let mut lists: Vec<NamedWordList> = Vec::new();
    for file in it: files.into_iter()
        invariant
            it.seq() == files@,
            list_views(lists@) == parsed_files(files@.take(it.index())),
    {
        let ghost before = list_views(lists@);
        let list = parse_banned_words(file);
        lists.push(list);
        proof {
            assert(list_views(lists@) =~= before.push(list@));
            assert(parsed_files(files@.take(it.index() + 1)) =~= before.push(list@));
        }
    }
    assert(files@.take(files@.len() as int) =~= files@);
    collect_banned_words(lists)
}

/// What one file gives decides alone what comes of it: its words, or an error that
/// names its path and, where it could not be opened, the reason.
pub proof fn one_list_gives_its_words_or_its_error(
    path: Seq<char>,
    why: Seq<char>,
    words: Seq<Seq<char>>,
)
    ensures
        all_words(Seq::empty()) == Ok::<Seq<Seq<char>>, Seq<char>>(Seq::empty()),
        all_words(seq![(path, WordListView::Words(words))]) == Ok::<Seq<Seq<char>>, Seq<char>>(
            words,
        ),
        all_words(seq![(path, WordListView::Unreadable)]) == Err::<Seq<Seq<char>>, Seq<char>>(
            "Couldn't read banned words file \""@ + path + "\""@,
        ),
        all_words(seq![(path, WordListView::Unopened(why))]) == Err::<Seq<Seq<char>>, Seq<char>>(
            "Couldn't open banned words file \""@ + path + "\". Error: "@ + why,
        ),
{
    reveal_with_fuel(all_words, 2);
    let nothing = Seq::<(Seq<char>, WordListView)>::empty();
    assert(seq![(path, WordListView::Words(words))].drop_last() =~= nothing);
    assert(seq![(path, WordListView::Unreadable)].drop_last() =~= nothing);
    assert(seq![(path, WordListView::Unopened(why))].drop_last() =~= nothing);
    assert(Seq::<Seq<char>>::empty() + words =~= words);
}

/// Files that are read in two goes give the words of both, one after the other, or
/// the error that comes first.
pub proof fn lists_are_taken_in_order(
    first: Seq<(Seq<char>, WordListView)>,
    second: Seq<(Seq<char>, WordListView)>,
)
    ensures
        all_words(first + second) == match all_words(first) {
            Err(e) => Err(e),
            Ok(words) => match all_words(second) {
                Err(e) => Err(e),
                Ok(more) => Ok::<Seq<Seq<char>>, Seq<char>>(words + more),
            },
        },
    decreases second.len(),
{
    if second.len() == 0 {
        assert(first + second =~= first);
        if let Ok(words) = all_words(first) {
            assert(words + Seq::<Seq<char>>::empty() =~= words);
        }
    } else {
        let all = first + second;
        assert(all.drop_last() =~= first + second.drop_last());
        assert(all.last() == second.last());
        lists_are_taken_in_order(first, second.drop_last());
        if let (Ok(words), Ok(more)) = (all_words(first), all_words(second)) {
            let before = all_words(second.drop_last())->Ok_0;
            let last = words_or_error(second.last())->Ok_0;
            assert((words + before) + last =~= words + (before + last));
        }
    }
}

/// Each file is parsed under its own path and by its own contents: a file that was
/// not opened keeps the reason, one that was not read to its end is unreadable, and
/// any other gives what the parser makes of its bytes.
pub proof fn files_are_parsed_one_by_one(files: Seq<BannedWordsFile>, i: int)
    requires
        0 <= i < files.len(),
    ensures
        parsed_files(files).len() == files.len(),
        parsed_files(files)[i].0 == files[i].path@,
        files[i].contents matches FileContents::Unopened(why) ==> parsed_files(files)[i].1
            == WordListView::Unopened(why@),
        files[i].contents is Unreadable ==> parsed_files(files)[i].1 is Unreadable,
        files[i].contents matches FileContents::Bytes(bytes) ==> parsed_files(files)[i].1 == (
        match ron_string_list(bytes@) {
            Some(words) => WordListView::Words(words),
            None => WordListView::Unreadable,
        }),
{
}

/// A word list is seen as it is, and so is what comes of all lists.
pub proof fn word_lists_are_seen_as_they_are(
    path: String,
    why: String,
    words: Vec<String>,
    lists: Seq<NamedWordList>,
    e: ServerError,
)
    ensures
        (NamedWordList { path, list: WordList::Unopened(why) })@ == (
            path@,
            WordListView::Unopened(why@),
        ),
        (NamedWordList { path, list: WordList::Unreadable })@ == (path@, WordListView::Unreadable),
        (NamedWordList { path, list: WordList::Words(words) })@ == (
            path@,
            WordListView::Words(texts(words@)),
        ),
        list_views(lists).len() == lists.len(),
        forall|i: int| 0 <= i < lists.len() ==> #[trigger] list_views(lists)[i] == lists[i]@,
        outcome(Ok(words)) == Ok::<Seq<Seq<char>>, Seq<char>>(texts(words@)),
        outcome(Err(e)) == Err::<Seq<Seq<char>>, Seq<char>>(e.message()),
{
}

} // verus!
