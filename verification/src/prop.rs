//! The property commands of the chat bot: `/set`, `/get`, `/wifi`,
//! `/tswkey` and `/tsrkey`. Each takes the words of its message, separated by
//! single spaces: the command word, then its arguments. Properties are files
//! under the station's directory.

use vstd::prelude::*;
use crate::text::{joined, join_path, push_char, split_any, split_on, trim, trimmed, views};

verus! {

/// What the bot does for a property command.
#[derive(Debug)]
pub enum PropAction {
    /// Send this text.
    Reply(String),
    /// Send this text, then the help of the property commands.
    UsageAndHelp(String),
    /// Write `content` to the file at `path`, then reply with `set_reply`.
    Write { path: String, content: String },
    /// Read the file at `path`, then reply with `get_reply`.
    Read { path: String },
    /// Store the wireless credentials, then reply with `wifi_reply`.
    StoreWifi { ssid: String, key: String },
    /// Set the ThingSpeak write key; nothing is sent.
    SetWriteKey(String),
    /// Set the ThingSpeak read key; nothing is sent.
    SetReadKey(String),
}

/// The view of what the bot does for a property command.
pub enum PropView {
    Reply(Seq<char>),
    UsageAndHelp(Seq<char>),
    Write { path: Seq<char>, content: Seq<char> },
    Read { path: Seq<char> },
    StoreWifi { ssid: Seq<char>, key: Seq<char> },
    SetWriteKey(Seq<char>),
    SetReadKey(Seq<char>),
}

impl View for PropAction {
    type V = PropView;

    open spec fn view(&self) -> PropView {
        match self {
            PropAction::Reply(t) => PropView::Reply(t@),
            PropAction::UsageAndHelp(t) => PropView::UsageAndHelp(t@),
            PropAction::Write { path, content } => PropView::Write {
                path: path@,
                content: content@,
            },
            PropAction::Read { path } => PropView::Read { path: path@ },
            PropAction::StoreWifi { ssid, key } => PropView::StoreWifi { ssid: ssid@, key: key@ },
            PropAction::SetWriteKey(k) => PropView::SetWriteKey(k@),
            PropAction::SetReadKey(k) => PropView::SetReadKey(k@),
        }
    }
}

/// The words of a message, separated by single spaces.
pub open spec fn words(text: Seq<char>) -> Seq<Seq<char>> {
    split_on(text, seq![' '])
}

fn words_of(text: &str) -> (w: Vec<String>)
    ensures
        views(w@) == words(text@),
{
    let sep: [char; 1] = [' '];
    assert(sep@ =~= seq![' ']);
    split_any(text, &sep)
}

fn word(w: &Vec<String>, i: usize) -> (r: &str)
    requires
        i < w@.len(),
    ensures
        r@ == views(w@)[i as int],
{
    w[i].as_str()
}

// ---------------------------------------------------------------------------
// /set
// ---------------------------------------------------------------------------

/// The usage text of `/set`, for the message `text`.
pub open spec fn set_usage(text: Seq<char>) -> Seq<char> {
    "set properte wrong format "@ + text + "\n                /set directory/prop  value\n            "@
}

/// What `/set path value` does in the station directory `root`: write the
/// trimmed value (the third word) to the path (the second word) joined to
/// `root`; with fewer than three words, send the usage text.
pub open spec fn set_plan(root: Seq<char>, text: Seq<char>) -> PropView {
    let w = words(text);
    if w.len() > 2 {
        PropView::Write { path: joined(root, w[1]), content: trimmed(w[2]) }
    } else {
        PropView::Reply(set_usage(text))
    }
}

/// What `/set` does for the message `text` in the station directory `root`.
pub fn set_action(root: &str, text: &str) -> (a: PropAction)
    ensures
        a@ == set_plan(root@, text@),
{
    let w = words_of(text);
    if w.len() > 2 {
        PropAction::Write { path: join_path(root, word(&w, 1)), content: trim(word(&w, 2)) }
    } else {
        PropAction::Reply(
            String::from_str("set properte wrong format ").concat(text).concat(
                "\n                /set directory/prop  value\n            ",
            ),
        )
    }
}

/// `/set` writes exactly when the message has at least three words: it
/// writes the third word, trimmed (so with no white space at either end), to
/// the station directory joined with the second word; with fewer words it
/// writes nothing and replies.
pub proof fn lemma_set_writes_third_word(root: Seq<char>, text: Seq<char>)
    ensures
        (set_plan(root, text) is Write) <==> words(text).len() > 2,
        (set_plan(root, text) is Reply) <==> words(text).len() <= 2,
        set_plan(root, text) matches PropView::Write { path, content } ==> path == joined(
            root,
            words(text)[1],
        ) && content == trimmed(words(text)[2]) && trimmed(content) == content,
{
    if words(text).len() > 2 {
        crate::text::lemma_trim_idempotent(words(text)[2]);
    }
}

/// The reply to `/set path value` after writing: where the write failed with
/// error text `e`, `set prop path write value value - e`, otherwise
/// `prop path valeu changed value `.
pub open spec fn set_answer(text: Seq<char>, error: Option<Seq<char>>) -> Seq<char> {
    let w = words(text);
    match error {
        Some(e) => "set prop "@ + w[1] + " write value "@ + w[2] + " - "@ + e,
        None => "prop "@ + w[1] + " valeu changed "@ + w[2] + " "@,
    }
}

/// The reply to `/set` after writing; `error` is the error text where the
/// write failed.
pub fn set_reply(text: &str, error: Option<String>) -> (r: String)
    requires
        words(text@).len() > 2,
    ensures
        r@ == set_answer(
            text@,
            match error {
                Some(e) => Some(e@),
                None => None,
            },
        ),
{
    let w = words_of(text);
    match error {
        Some(e) => String::from_str("set prop ").concat(word(&w, 1)).concat(" write value ").concat(
            word(&w, 2),
        ).concat(" - ").concat(e.as_str()),
        None => String::from_str("prop ").concat(word(&w, 1)).concat(" valeu changed ").concat(
            word(&w, 2),
        ).concat(" "),
    }
}

// ---------------------------------------------------------------------------
// /get
// ---------------------------------------------------------------------------

/// The last piece that names something, skipping empty pieces and `.`.
pub open spec fn last_named(pieces: Seq<Seq<char>>) -> Option<Seq<char>>
    decreases pieces.len(),
{
    if pieces.len() == 0 {
        None
    } else if pieces.last().len() == 0 || pieces.last() == "."@ {
        last_named(pieces.drop_last())
    } else {
        Some(pieces.last())
    }
}

/// The file name of a path, as `Path::file_name` gives it on Unix: its last
/// component, where that is not `..`.
pub open spec fn file_name(path: Seq<char>) -> Option<Seq<char>> {
    match last_named(split_on(path, seq!['/'])) {
        Some(n) => if n == ".."@ {
            None
        } else {
            Some(n)
        },
        None => None,
    }
}

/// The file name of a path, as `Path::new(path).file_name()` gives it on
/// Unix.
pub fn path_file_name(path: &str) -> (r: Option<String>)
    ensures
        match r {
            Some(n) => file_name(path@) == Some(n@),
            None => file_name(path@) is None,
        },
{
    let sep: [char; 1] = ['/'];
    assert(sep@ =~= seq!['/']);
    let pieces = split_any(path, &sep);
    let ghost pv = views(pieces@);
    let mut i: usize = pieces.len();
    assert(pv.take(i as int) =~= pv);
    while i > 0
        invariant
            i <= pieces@.len(),
            pv == views(pieces@),
            pv == split_on(path@, seq!['/']),
            last_named(pv.take(i as int)) == last_named(pv),
        decreases i,
    {
        let p = pieces[i - 1].as_str();
        assert(pv[i - 1] == p@);
        assert(pv.take(i as int).drop_last() =~= pv.take(i - 1));
        assert(pv.take(i as int).last() == p@);
        proof {
            reveal_strlit(".");
            reveal_strlit("..");
        }
        if p.unicode_len() == 0 || crate::text::text_eq(p, ".") {
            i = i - 1;
        } else {
            assert(last_named(pv.take(i as int)) == Some(p@));
            if crate::text::text_eq(p, "..") {
                return None;
            }
            return Some(String::from_str(p));
        }
    }
    assert(pv.take(0) =~= Seq::<Seq<char>>::empty());
    None
}

/// What `last_named` finds is a name: not empty, and not `.`.
pub proof fn lemma_last_named_is_a_name(pieces: Seq<Seq<char>>)
    ensures
        last_named(pieces) matches Some(n) ==> n.len() > 0 && n != "."@,
    decreases pieces.len(),
{
    if pieces.len() > 0 && (pieces.last().len() == 0 || pieces.last() == "."@) {
        lemma_last_named_is_a_name(pieces.drop_last());
    }
}

/// The file name of a path whose last piece is a plain name, one that does
/// not start with a dot, is that piece, whatever the directories before it
/// are called.
pub proof fn lemma_file_name_of_plain_last(path: Seq<char>)
    requires
        split_on(path, seq!['/']).last().len() > 0,
        split_on(path, seq!['/']).last()[0] != '.',
    ensures
        file_name(path) == Some(split_on(path, seq!['/']).last()),
{
    reveal_strlit(".");
    reveal_strlit("..");
    crate::text::lemma_split_nonempty(path, seq!['/']);
    let n = split_on(path, seq!['/']).last();
    assert(n != "."@) by {
        assert("."@[0] == '.');
    }
    assert(n != ".."@) by {
        assert(".."@[0] == '.');
    }
}

/// The usage text of `/get`, for the message `text`.
pub open spec fn get_usage(text: Seq<char>) -> Seq<char> {
    "set properte wrong format "@ + text + "\n                /get path/prop\n            "@
}

/// What `/get path` does in the station directory `root`: where the file
/// name of the path joined to `root` starts with a dot, reply `get hidden
/// file` and read nothing; otherwise read that file; with fewer than two
/// words, send the usage text.
pub open spec fn get_plan(root: Seq<char>, text: Seq<char>) -> PropView {
    let w = words(text);
    if w.len() > 1 {
        let p = joined(root, w[1]);
        let n = file_name(p)->0;
        if n.len() > 0 && n[0] == '.' {
            PropView::Reply("get hidden file"@)
        } else {
            PropView::Read { path: p }
        }
    } else {
        PropView::Reply(get_usage(text))
    }
}

/// Whether `/get` can look at the file name of its path: a path whose file
/// name is missing (such as one ending in `..`) is not one the station can
/// show.
pub open spec fn get_has_name(root: Seq<char>, text: Seq<char>) -> bool {
    words(text).len() > 1 ==> file_name(joined(root, words(text)[1])) is Some
}

/// What `/get` does for the message `text` in the station directory `root`.
pub fn get_action(root: &str, text: &str) -> (a: PropAction)
    requires
        get_has_name(root@, text@),
    ensures
        a@ == get_plan(root@, text@),
{
    let w = words_of(text);
    if w.len() > 1 {
        let p = join_path(root, word(&w, 1));
        let n = match path_file_name(p.as_str()) {
            Some(n) => n,
            None => {
                assert(false);
                String::new()
            },
        };
        if crate::bot::is_hidden(n.as_str()) {
            PropAction::Reply(String::from_str("get hidden file"))
        } else {
            PropAction::Read { path: p }
        }
    } else {
        PropAction::Reply(
            String::from_str("set properte wrong format ").concat(text).concat(
                "\n                /get path/prop\n            ",
            ),
        )
    }
}

/// `/get path` refuses exactly the files whose name (the last component of
/// the station directory joined with the path) starts with a dot, and reads
/// every other file, at that joined path.
pub proof fn lemma_get_refuses_exactly_hidden_names(root: Seq<char>, text: Seq<char>)
    requires
        words(text).len() > 1,
        (file_name(joined(root, words(text)[1])) is Some),
    ensures
        file_name(joined(root, words(text)[1]))->0.len() > 0,
        file_name(joined(root, words(text)[1]))->0[0] == '.' ==> get_plan(root, text)
            == PropView::Reply("get hidden file"@),
        file_name(joined(root, words(text)[1]))->0[0] != '.' ==> get_plan(root, text)
            == (PropView::Read { path: joined(root, words(text)[1]) }),
{
    lemma_last_named_is_a_name(split_on(joined(root, words(text)[1]), seq!['/']));
}

/// `/get path` reads the file at the station directory joined with the path
/// whenever the last piece of that joined path is a plain name, one that does
/// not start with a dot, whatever the station directory and the directories
/// on the path are called (even where they start with a dot).
pub proof fn lemma_get_reads_plain_names(root: Seq<char>, text: Seq<char>)
    requires
        words(text).len() > 1,
        split_on(joined(root, words(text)[1]), seq!['/']).last().len() > 0,
        split_on(joined(root, words(text)[1]), seq!['/']).last()[0] != '.',
    ensures
        get_plan(root, text) == (PropView::Read { path: joined(root, words(text)[1]) }),
{
    lemma_file_name_of_plain_last(joined(root, words(text)[1]));
}

/// The reply to `/get path` after reading: what was read, or
/// `get prop path  - e` where reading failed with error text `e`.
pub open spec fn get_answer(text: Seq<char>, read: Result<Seq<char>, Seq<char>>) -> Seq<char> {
    match read {
        Ok(v) => v,
        Err(e) => "get prop "@ + words(text)[1] + "  - "@ + e,
    }
}

/// The reply to a `/get` whose file could be read is exactly what the file
/// holds; where reading failed, the reply ends with the error text.
pub proof fn lemma_get_reply_is_the_file(text: Seq<char>, read: Result<Seq<char>, Seq<char>>)
    ensures
        read matches Ok(v) ==> get_answer(text, read) == v,
        read matches Err(e) ==> get_answer(text, read).len() >= e.len() && get_answer(
            text,
            read,
        ).subrange(get_answer(text, read).len() - e.len(), get_answer(text, read).len() as int)
            == e,
{
    if let Err(e) = read {
        let m = get_answer(text, read);
        assert(m.subrange(m.len() - e.len(), m.len() as int) =~= e);
    }
}

/// The reply to `/get` after reading the file: its contents, or the error
/// text where reading failed.
pub fn get_reply(text: &str, read: Result<String, String>) -> (r: String)
    requires
        words(text@).len() > 1,
    ensures
        r@ == get_answer(
            text@,
            match read {
                Ok(v) => Ok(v@),
                Err(e) => Err(e@),
            },
        ),
{
    match read {
        Ok(v) => v,
        Err(e) => {
            let w = words_of(text);
            String::from_str("get prop ").concat(word(&w, 1)).concat("  - ").concat(e.as_str())
        },
    }
}

// ---------------------------------------------------------------------------
// /wifi, /tswkey, /tsrkey
// ---------------------------------------------------------------------------

/// What `/wifi ssid key` does: store the credentials once; with fewer than
/// three words, send the usage text and the help.
pub open spec fn wifi_plan(text: Seq<char>) -> PropView {
    let w = words(text);
    if w.len() > 2 {
        PropView::StoreWifi { ssid: w[1], key: w[2] }
    } else {
        PropView::UsageAndHelp(
            "change wifi credential wrond data "@ + text + " for example /wifi myssid mypsk"@,
        )
    }
}

/// `/wifi` stores credentials exactly when the message has at least three
/// words, the second as the network name and the third as the key; with
/// fewer it stores nothing and sends the usage text and the help.
pub proof fn lemma_wifi_stores_two_words(text: Seq<char>)
    ensures
        (wifi_plan(text) is StoreWifi) <==> words(text).len() > 2,
        (wifi_plan(text) is UsageAndHelp) <==> words(text).len() <= 2,
        wifi_plan(text) matches PropView::StoreWifi { ssid, key } ==> ssid == words(text)[1] && key
            == words(text)[2],
{
}

/// What `/wifi` does for the message `text`.
pub fn wifi_action(text: &str) -> (a: PropAction)
    ensures
        a@ == wifi_plan(text@),
{
    let w = words_of(text);
    if w.len() > 2 {
        PropAction::StoreWifi {
            ssid: String::from_str(word(&w, 1)),
            key: String::from_str(word(&w, 2)),
        }
    } else {
        PropAction::UsageAndHelp(
            String::from_str("change wifi credential wrond data ").concat(text).concat(
                " for example /wifi myssid mypsk",
            ),
        )
    }
}

/// The reply to `/wifi` after storing the credentials: nothing where it
/// worked, `change wifi credential failed - e` where it failed with error
/// text `e`.
pub fn wifi_reply(error: Option<String>) -> (r: Option<String>)
    ensures
        match error {
            Some(e) => r matches Some(t) && t@ == "change wifi credential failed - "@ + e@,
            None => r is None,
        },
{
    match error {
        Some(e) => Some(String::from_str("change wifi credential failed - ").concat(e.as_str())),
        None => None,
    }
}

/// What `/tswkey key` (where `write`) or `/tsrkey key` does: set the key;
/// with fewer than two words, send the usage text and the help.
pub open spec fn key_plan(text: Seq<char>, write: bool) -> PropView {
    let w = words(text);
    if w.len() > 1 {
        if write {
            PropView::SetWriteKey(w[1])
        } else {
            PropView::SetReadKey(w[1])
        }
    } else {
        PropView::UsageAndHelp("set thingspeak write api "@ + text)
    }
}

/// The write key is set only by `/tswkey` (`write`) and the read key only by
/// `/tsrkey`; each is set exactly when the message has a second word, to that
/// word.
pub proof fn lemma_keys_do_not_mix(text: Seq<char>, write: bool)
    ensures
        (key_plan(text, write) is SetWriteKey) ==> write,
        (key_plan(text, write) is SetReadKey) ==> !write,
        (key_plan(text, write) is UsageAndHelp) <==> words(text).len() <= 1,
        key_plan(text, write) matches PropView::SetWriteKey(k) ==> k == words(text)[1],
        key_plan(text, write) matches PropView::SetReadKey(k) ==> k == words(text)[1],
{
}

/// What `/tswkey` (where `write`) or `/tsrkey` does for the message `text`.
pub fn key_action(text: &str, write: bool) -> (a: PropAction)
    ensures
        a@ == key_plan(text@, write),
{
    let w = words_of(text);
    if w.len() > 1 {
        let k = String::from_str(word(&w, 1));
        if write {
            PropAction::SetWriteKey(k)
        } else {
            PropAction::SetReadKey(k)
        }
    } else {
        PropAction::UsageAndHelp(String::from_str("set thingspeak write api ").concat(text))
    }
}

} // verus!
