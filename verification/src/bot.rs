//! The command language of the station's chat bot. A message is a command
//! word, `/` and a name, that may be followed by `@` and the bot's name, and
//! then by arguments separated by spaces.

use vstd::prelude::*;
use crate::text::{
    chars_of, ends_with, has_suffix, join_path, joined, push_char, split_any, split_on, text_eq,
    views,
};

verus! {

/// A command to the bot.
#[derive(Debug)]
pub enum BotCommand {
    /// `/start`: greet and show the status.
    Start,
    /// `/help`, and anything the bot does not know: show the commands.
    Help,
    /// `/status`: show the channels and the network.
    Status,
    /// `/getvals [id]`: the value of channel `id`, or the values of all.
    GetVals(Option<String>),
    /// `/ls [dir]`: the files of the station, or of one of its directories.
    Ls(Option<String>),
    /// `/csv [dir]`: the measurement tables.
    Csv(Option<String>),
    /// `/download day` or `/d day`: send the table of a day; `None` where the
    /// day is missing.
    Download(Option<String>),
    /// `/dl` or `/tg`: send today's table.
    DownloadLast,
    /// `/get path`: show a property; `None` where the path is missing.
    Get(Option<String>),
    /// `/set path value`: change a property; `None` where an argument is
    /// missing.
    SetProp(Option<(String, String)>),
    /// `/wifi ssid key`: change the wireless credentials; `None` where an
    /// argument is missing.
    Wifi(Option<(String, String)>),
    /// `/tswkey key`: change the ThingSpeak write key.
    TsWKey(Option<String>),
    /// `/tsrkey key`: change the ThingSpeak read key.
    TsRKey(Option<String>),
}

/// The view of a command.
pub enum CommandView {
    Start,
    Help,
    Status,
    GetVals(Option<Seq<char>>),
    Ls(Option<Seq<char>>),
    Csv(Option<Seq<char>>),
    Download(Option<Seq<char>>),
    DownloadLast,
    Get(Option<Seq<char>>),
    SetProp(Option<(Seq<char>, Seq<char>)>),
    Wifi(Option<(Seq<char>, Seq<char>)>),
    TsWKey(Option<Seq<char>>),
    TsRKey(Option<Seq<char>>),
}

/// The view of an optional text.
pub open spec fn view_opt(o: Option<String>) -> Option<Seq<char>> {
    match o {
        Some(s) => Some(s@),
        None => None,
    }
}

/// The view of an optional pair of texts.
pub open spec fn view_pair(o: Option<(String, String)>) -> Option<(Seq<char>, Seq<char>)> {
    match o {
        Some(p) => Some((p.0@, p.1@)),
        None => None,
    }
}

impl View for BotCommand {
    type V = CommandView;

    open spec fn view(&self) -> CommandView {
        match self {
            BotCommand::Start => CommandView::Start,
            BotCommand::Help => CommandView::Help,
            BotCommand::Status => CommandView::Status,
            BotCommand::GetVals(a) => CommandView::GetVals(view_opt(*a)),
            BotCommand::Ls(a) => CommandView::Ls(view_opt(*a)),
            BotCommand::Csv(a) => CommandView::Csv(view_opt(*a)),
            BotCommand::Download(a) => CommandView::Download(view_opt(*a)),
            BotCommand::DownloadLast => CommandView::DownloadLast,
            BotCommand::Get(a) => CommandView::Get(view_opt(*a)),
            BotCommand::SetProp(a) => CommandView::SetProp(view_pair(*a)),
            BotCommand::Wifi(a) => CommandView::Wifi(view_pair(*a)),
            BotCommand::TsWKey(a) => CommandView::TsWKey(view_opt(*a)),
            BotCommand::TsRKey(a) => CommandView::TsRKey(view_opt(*a)),
        }
    }
}

/// The name of a day's table: the day as given where it already ends with
/// `.csv`, the day and `.csv` otherwise.
pub open spec fn csv_name(day: Seq<char>) -> Seq<char> {
    if has_suffix(day, ".csv"@) {
        day
    } else {
        day + ".csv"@
    }
}

/// The name of a day's table: `day` where it already ends with `.csv`,
/// `day.csv` otherwise.
pub fn csv_file_name(day: &str) -> (r: String)
    ensures
        r@ == csv_name(day@),
{
    if ends_with(day, ".csv") {
        String::from_str(day)
    } else {
        String::from_str(day).concat(".csv")
    }
}

/// Naming a day's table twice names the same table: `/download 20200911`
/// and `/download 20200911.csv` send the same file.
pub proof fn lemma_csv_name_idempotent(day: Seq<char>)
    ensures
        csv_name(csv_name(day)) == csv_name(day),
{
    if !has_suffix(day, ".csv"@) {
        let n = day + ".csv"@;
        assert(n.subrange(n.len() - ".csv"@.len(), n.len() as int) =~= ".csv"@);
    }
}

/// The name of a day's table always ends with `.csv`: a day given with it
/// is kept as it is, one given without it gets `.csv` appended.
pub proof fn lemma_csv_name_is_a_table(day: Seq<char>)
    ensures
        has_suffix(csv_name(day), ".csv"@),
        has_suffix(day, ".csv"@) ==> csv_name(day) == day,
        !has_suffix(day, ".csv"@) ==> csv_name(day).len() == day.len() + 4 && csv_name(day).take(
            day.len() as int,
        ) == day,
{
    reveal_strlit(".csv");
    if !has_suffix(day, ".csv"@) {
        let n = day + ".csv"@;
        assert(n.subrange(n.len() - ".csv"@.len(), n.len() as int) =~= ".csv"@);
        assert(n.take(day.len() as int) =~= day);
    }
}

/// The argument at `i` where there is one.
pub open spec fn arg_at(a: Seq<Seq<char>>, i: int) -> Option<Seq<char>> {
    if a.len() > i {
        Some(a[i])
    } else {
        None
    }
}

/// The argument where there is exactly one.
pub open spec fn only_arg(a: Seq<Seq<char>>) -> Option<Seq<char>> {
    if a.len() == 2 {
        Some(a[1])
    } else {
        None
    }
}

/// The first two arguments where there are two.
pub open spec fn two_args(a: Seq<Seq<char>>) -> Option<(Seq<char>, Seq<char>)> {
    if a.len() > 2 {
        Some((a[1], a[2]))
    } else {
        None
    }
}

/// The command that the text of a message gives: its command word is the
/// text up to the first space or `@`; its arguments are the words after the
/// first space.
pub open spec fn command_of(text: Seq<char>) -> CommandView {
    let word = split_on(text, seq![' ', '@'])[0];
    let a = split_on(text, seq![' ']);
    if word == "/start"@ {
        CommandView::Start
    } else if word == "/help"@ {
        CommandView::Help
    } else if word == "/status"@ {
        CommandView::Status
    } else if word == "/getvals"@ {
        CommandView::GetVals(arg_at(a, 1))
    } else if word == "/ls"@ {
        CommandView::Ls(only_arg(a))
    } else if word == "/csv"@ {
        CommandView::Csv(only_arg(a))
    } else if word == "/download"@ || word == "/d"@ {
        CommandView::Download(
            match only_arg(a) {
                Some(d) => Some(csv_name(d)),
                None => None,
            },
        )
    } else if word == "/dl"@ || word == "/tg"@ {
        CommandView::DownloadLast
    } else if word == "/get"@ {
        CommandView::Get(arg_at(a, 1))
    } else if word == "/set"@ {
        CommandView::SetProp(two_args(a))
    } else if word == "/wifi"@ {
        CommandView::Wifi(two_args(a))
    } else if word == "/tswkey"@ {
        CommandView::TsWKey(arg_at(a, 1))
    } else if word == "/tsrkey"@ {
        CommandView::TsRKey(arg_at(a, 1))
    } else {
        CommandView::Help
    }
}

/// The command word of a message: the text up to the first space or `@`.
pub open spec fn command_word(text: Seq<char>) -> Seq<char> {
    split_on(text, seq![' ', '@'])[0]
}

/// The arguments a command carries are the words of the message after the
/// command word, separated by single spaces: the first one (where there is
/// one, or for `/ls`, `/csv` and `/download`, where it is the only one), or
/// the first two.
pub proof fn lemma_command_arguments(text: Seq<char>)
    ensures
        command_of(text) matches CommandView::GetVals(a) ==> a == (if split_on(text, seq![' ']).len() > 1 {
            Some(split_on(text, seq![' '])[1])
        } else {
            None
        }),
        command_of(text) matches CommandView::Get(a) ==> a == (if split_on(text, seq![' ']).len() > 1 {
            Some(split_on(text, seq![' '])[1])
        } else {
            None
        }),
        command_of(text) matches CommandView::Ls(a) ==> a == (if split_on(text, seq![' ']).len() == 2 {
            Some(split_on(text, seq![' '])[1])
        } else {
            None
        }),
        command_of(text) matches CommandView::Csv(a) ==> a == (if split_on(text, seq![' ']).len() == 2 {
            Some(split_on(text, seq![' '])[1])
        } else {
            None
        }),
        command_of(text) matches CommandView::Download(a) ==> a == (if split_on(text, seq![' ']).len() == 2 {
            Some(csv_name(split_on(text, seq![' '])[1]))
        } else {
            None
        }),
        command_of(text) matches CommandView::SetProp(a) ==> a == (if split_on(text, seq![' ']).len() > 2 {
            Some((split_on(text, seq![' '])[1], split_on(text, seq![' '])[2]))
        } else {
            None
        }),
        command_of(text) matches CommandView::Wifi(a) ==> a == (if split_on(text, seq![' ']).len() > 2 {
            Some((split_on(text, seq![' '])[1], split_on(text, seq![' '])[2]))
        } else {
            None
        }),
        command_of(text) matches CommandView::TsWKey(a) ==> a == (if split_on(text, seq![' ']).len() > 1 {
            Some(split_on(text, seq![' '])[1])
        } else {
            None
        }),
        command_of(text) matches CommandView::TsRKey(a) ==> a == (if split_on(text, seq![' ']).len() > 1 {
            Some(split_on(text, seq![' '])[1])
        } else {
            None
        }),
{
}

/// Each command comes only from its own command word: in particular the
/// read key is changed only by `/tsrkey` and the write key only by
/// `/tswkey`.
pub proof fn lemma_command_from_its_word(text: Seq<char>)
    ensures
        (command_of(text) is Start) ==> command_word(text) == "/start"@,
        (command_of(text) is Status) ==> command_word(text) == "/status"@,
        (command_of(text) is GetVals) ==> command_word(text) == "/getvals"@,
        (command_of(text) is Ls) ==> command_word(text) == "/ls"@,
        (command_of(text) is Csv) ==> command_word(text) == "/csv"@,
        (command_of(text) is Download) ==> command_word(text) == "/download"@ || command_word(text)
            == "/d"@,
        (command_of(text) is DownloadLast) ==> command_word(text) == "/dl"@ || command_word(text)
            == "/tg"@,
        (command_of(text) is Get) ==> command_word(text) == "/get"@,
        (command_of(text) is SetProp) ==> command_word(text) == "/set"@,
        (command_of(text) is Wifi) ==> command_word(text) == "/wifi"@,
        (command_of(text) is TsWKey) ==> command_word(text) == "/tswkey"@,
        (command_of(text) is TsRKey) ==> command_word(text) == "/tsrkey"@,
{
}

/// The key commands: `/tswkey key` changes the write key and `/tsrkey key`
/// the read key, each carrying the second word of the message (the words
/// separated by single spaces) where there is one.
pub proof fn lemma_key_commands(text: Seq<char>)
    ensures
        command_word(text) == "/tswkey"@ ==> command_of(text) == CommandView::TsWKey(
            if split_on(text, seq![' ']).len() > 1 {
                Some(split_on(text, seq![' '])[1])
            } else {
                None
            },
        ),
        command_word(text) == "/tsrkey"@ ==> command_of(text) == CommandView::TsRKey(
            if split_on(text, seq![' ']).len() > 1 {
                Some(split_on(text, seq![' '])[1])
            } else {
                None
            },
        ),
{
    reveal_strlit("/start");
    reveal_strlit("/help");
    reveal_strlit("/status");
    reveal_strlit("/getvals");
    reveal_strlit("/ls");
    reveal_strlit("/csv");
    reveal_strlit("/download");
    reveal_strlit("/d");
    reveal_strlit("/dl");
    reveal_strlit("/tg");
    reveal_strlit("/get");
    reveal_strlit("/set");
    reveal_strlit("/wifi");
    reveal_strlit("/tswkey");
    reveal_strlit("/tsrkey");
    let w = command_word(text);
    if w == "/tswkey"@ || w == "/tsrkey"@ {
        assert(w.len() == 7);
        assert(w[2] != "/status"@[2]);
        assert(w != "/start"@);
        assert(w != "/help"@);
        assert(w != "/status"@);
        assert(w != "/getvals"@);
        assert(w != "/ls"@);
        assert(w != "/csv"@);
        assert(w != "/download"@);
        assert(w != "/d"@);
        assert(w != "/dl"@);
        assert(w != "/tg"@);
        assert(w != "/get"@);
        assert(w != "/set"@);
        assert(w != "/wifi"@);
    }
    if w == "/tsrkey"@ {
        assert(w[3] != "/tswkey"@[3]);
        assert(w != "/tswkey"@);
    }
}

fn clone_at(v: &Vec<String>, i: usize) -> (r: String)
    requires
        i < v@.len(),
    ensures
        r@ == views(v@)[i as int],
{
    v[i].clone()
}

/// The command that the text of a message gives.
pub fn parse_command(text: &str) -> (c: BotCommand)
    ensures
        c@ == command_of(text@),
{
    let word_seps: [char; 2] = [' ', '@'];
    let arg_seps: [char; 1] = [' '];
    assert(word_seps@ =~= seq![' ', '@']);
    assert(arg_seps@ =~= seq![' ']);
    let words = split_any(text, &word_seps);
    let a = split_any(text, &arg_seps);
    proof {
        crate::text::lemma_split_nonempty(text@, seq![' ', '@']);
    }
    let ghost av = views(a@);
    assert(views(words@)[0] == words@[0]@);
    let w = words[0].as_str();
    let n = a.len();
    if text_eq(w, "/start") {
        BotCommand::Start
    } else if text_eq(w, "/help") {
        BotCommand::Help
    } else if text_eq(w, "/status") {
        BotCommand::Status
    } else if text_eq(w, "/getvals") {
        BotCommand::GetVals(if n > 1 { Some(clone_at(&a, 1)) } else { None })
    } else if text_eq(w, "/ls") {
        BotCommand::Ls(if n == 2 { Some(clone_at(&a, 1)) } else { None })
    } else if text_eq(w, "/csv") {
        BotCommand::Csv(if n == 2 { Some(clone_at(&a, 1)) } else { None })
    } else if text_eq(w, "/download") || text_eq(w, "/d") {
        BotCommand::Download(
            if n == 2 {
                assert(views(a@)[1] == a@[1]@);
                Some(csv_file_name(a[1].as_str()))
            } else {
                None
            },
        )
    } else if text_eq(w, "/dl") || text_eq(w, "/tg") {
        BotCommand::DownloadLast
    } else if text_eq(w, "/get") {
        BotCommand::Get(if n > 1 { Some(clone_at(&a, 1)) } else { None })
    } else if text_eq(w, "/set") {
        BotCommand::SetProp(if n > 2 { Some((clone_at(&a, 1), clone_at(&a, 2))) } else { None })
    } else if text_eq(w, "/wifi") {
        BotCommand::Wifi(if n > 2 { Some((clone_at(&a, 1), clone_at(&a, 2))) } else { None })
    } else if text_eq(w, "/tswkey") {
        BotCommand::TsWKey(if n > 1 { Some(clone_at(&a, 1)) } else { None })
    } else if text_eq(w, "/tsrkey") {
        BotCommand::TsRKey(if n > 1 { Some(clone_at(&a, 1)) } else { None })
    } else {
        BotCommand::Help
    }
}

/// The reply to a `/download` that does not give exactly one day.
pub open spec fn download_usage_text() -> Seq<char> {
    "dowonload cmd wrong format /download YYYMMDD for example:`/download 20200911` to download data `11 Sep. 2020`"@
}

/// What `/download day` does with the tables under `dir`, for the message
/// `text` (its words separated by single spaces): with exactly one argument,
/// send the table of that day, at `dir` joined with its name (`Ok`); with any
/// other number of words, reply with the usage text (`Err`).
pub open spec fn download_plan(dir: Seq<char>, text: Seq<char>) -> Result<Seq<char>, Seq<char>> {
    let w = split_on(text, seq![' ']);
    if w.len() == 2 {
        Ok(joined(dir, csv_name(w[1])))
    } else {
        Err(download_usage_text())
    }
}

/// `/download` sends a table exactly when the message has one argument; the
/// table is the one named by that argument (with `.csv` added where it lacks
/// it) under `dir`. Any other message is answered with the usage text.
pub proof fn lemma_download_one_day(dir: Seq<char>, text: Seq<char>)
    ensures
        (download_plan(dir, text) is Ok) <==> split_on(text, seq![' ']).len() == 2,
        download_plan(dir, text) matches Ok(p) ==> p == joined(dir, csv_name(split_on(text, seq![' '])[1]))
            && has_suffix(p, csv_name(split_on(text, seq![' '])[1])),
        download_plan(dir, text) matches Err(m) ==> m
            == "dowonload cmd wrong format /download YYYMMDD for example:`/download 20200911` to download data `11 Sep. 2020`"@,
{
    if split_on(text, seq![' ']).len() == 2 {
        crate::text::lemma_joined_parts(dir, csv_name(split_on(text, seq![' '])[1]));
    }
}

/// What `/download` does with the tables under `dir` for the message `text`:
/// the path of the table to send, or the usage text to reply with.
pub fn download_action(dir: &str, text: &str) -> (r: Result<String, String>)
    ensures
        match r {
            Ok(p) => download_plan(dir@, text@) == Ok::<Seq<char>, Seq<char>>(p@),
            Err(m) => download_plan(dir@, text@) == Err::<Seq<char>, Seq<char>>(m@),
        },
{
    let seps: [char; 1] = [' '];
    assert(seps@ =~= seq![' ']);
    let w = split_any(text, &seps);
    if w.len() == 2 {
        assert(views(w@)[1] == w@[1]@);
        let name = csv_file_name(w[1].as_str());
        Ok(join_path(dir, name.as_str()))
    } else {
        Err(
            String::from_str(
                "dowonload cmd wrong format /download YYYMMDD for example:`/download 20200911` to download data `11 Sep. 2020`",
            ),
        )
    }
}

/// A command to the station bot.
#[derive(Debug)]
pub enum StationCommand {
    /// `/start`: greet.
    Start,
    /// `/help`, and anything the bot does not know: show the commands and
    /// the property commands.
    Help,
    /// `/system`: whether the station is online.
    System,
    /// `/channel [id]`: the value of channel `id`, or the values of all.
    Channel(Option<String>),
    /// `/status`: the channels, then the system.
    Status,
    /// `/reboot`: announce a reboot.
    Reboot,
    /// `/leave`: leave the chat.
    Leave,
    /// `/ls [dir]`: the files of the station, or of one of its directories.
    Ls(Option<String>),
    /// `/csv`: list the measurement tables where `true`; a `/csv` with
    /// exactly one argument sends nothing.
    Csv(bool),
    /// `/get path`: the whole message goes to `prop::get_action`.
    Get,
    /// `/set path value`: the whole message goes to `prop::set_action`.
    SetProp,
}

/// The view of a station command.
pub enum StationView {
    Start,
    Help,
    System,
    Channel(Option<Seq<char>>),
    Status,
    Reboot,
    Leave,
    Ls(Option<Seq<char>>),
    Csv(bool),
    Get,
    SetProp,
}

impl View for StationCommand {
    type V = StationView;

    open spec fn view(&self) -> StationView {
        match self {
            StationCommand::Start => StationView::Start,
            StationCommand::Help => StationView::Help,
            StationCommand::System => StationView::System,
            StationCommand::Channel(a) => StationView::Channel(view_opt(*a)),
            StationCommand::Status => StationView::Status,
            StationCommand::Reboot => StationView::Reboot,
            StationCommand::Leave => StationView::Leave,
            StationCommand::Ls(a) => StationView::Ls(view_opt(*a)),
            StationCommand::Csv(l) => StationView::Csv(*l),
            StationCommand::Get => StationView::Get,
            StationCommand::SetProp => StationView::SetProp,
        }
    }
}

/// The command that the text of a message gives the station bot: its words
/// are separated by single spaces, and the first one names the command.
pub open spec fn station_command_of(text: Seq<char>) -> StationView {
    let a = split_on(text, seq![' ']);
    let word = a[0];
    if word == "/start"@ {
        StationView::Start
    } else if word == "/help"@ {
        StationView::Help
    } else if word == "/system"@ {
        StationView::System
    } else if word == "/channel"@ {
        StationView::Channel(arg_at(a, 1))
    } else if word == "/status"@ {
        StationView::Status
    } else if word == "/reboot"@ {
        StationView::Reboot
    } else if word == "/leave"@ {
        StationView::Leave
    } else if word == "/ls"@ {
        StationView::Ls(only_arg(a))
    } else if word == "/csv"@ {
        StationView::Csv(a.len() != 2)
    } else if word == "/get"@ {
        StationView::Get
    } else if word == "/set"@ {
        StationView::SetProp
    } else {
        StationView::Help
    }
}

/// Each station command comes only from its own command word (the first
/// word of the message, the words separated by single spaces), and carries
/// the words after it: `/channel` its first argument where there is one,
/// `/ls` its argument where it is the only one; `/csv` lists the tables
/// except where it has exactly one argument.
pub proof fn lemma_station_command_from_its_word(text: Seq<char>)
    ensures
        (station_command_of(text) is Start) ==> split_on(text, seq![' '])[0] == "/start"@,
        (station_command_of(text) is System) ==> split_on(text, seq![' '])[0] == "/system"@,
        (station_command_of(text) is Status) ==> split_on(text, seq![' '])[0] == "/status"@,
        (station_command_of(text) is Reboot) ==> split_on(text, seq![' '])[0] == "/reboot"@,
        (station_command_of(text) is Leave) ==> split_on(text, seq![' '])[0] == "/leave"@,
        (station_command_of(text) is Get) ==> split_on(text, seq![' '])[0] == "/get"@,
        (station_command_of(text) is SetProp) ==> split_on(text, seq![' '])[0] == "/set"@,
        station_command_of(text) matches StationView::Channel(a) ==> split_on(text, seq![' '])[0]
            == "/channel"@ && a == (if split_on(text, seq![' ']).len() > 1 {
            Some(split_on(text, seq![' '])[1])
        } else {
            None
        }),
        station_command_of(text) matches StationView::Ls(a) ==> split_on(text, seq![' '])[0]
            == "/ls"@ && a == (if split_on(text, seq![' ']).len() == 2 {
            Some(split_on(text, seq![' '])[1])
        } else {
            None
        }),
        station_command_of(text) matches StationView::Csv(l) ==> split_on(text, seq![' '])[0]
            == "/csv"@ && l == (split_on(text, seq![' ']).len() != 2),
{
}

/// The command that the text of a message gives the station bot.
pub fn parse_station_command(text: &str) -> (c: StationCommand)
    ensures
        c@ == station_command_of(text@),
{
    let seps: [char; 1] = [' '];
    assert(seps@ =~= seq![' ']);
    let a = split_any(text, &seps);
    proof {
        crate::text::lemma_split_nonempty(text@, seq![' ']);
    }
    assert(views(a@)[0] == a@[0]@);
    let w = a[0].as_str();
    let n = a.len();
    if text_eq(w, "/start") {
        StationCommand::Start
    } else if text_eq(w, "/help") {
        StationCommand::Help
    } else if text_eq(w, "/system") {
        StationCommand::System
    } else if text_eq(w, "/channel") {
        StationCommand::Channel(if n > 1 { Some(clone_at(&a, 1)) } else { None })
    } else if text_eq(w, "/status") {
        StationCommand::Status
    } else if text_eq(w, "/reboot") {
        StationCommand::Reboot
    } else if text_eq(w, "/leave") {
        StationCommand::Leave
    } else if text_eq(w, "/ls") {
        StationCommand::Ls(if n == 2 { Some(clone_at(&a, 1)) } else { None })
    } else if text_eq(w, "/csv") {
        StationCommand::Csv(n != 2)
    } else if text_eq(w, "/get") {
        StationCommand::Get
    } else if text_eq(w, "/set") {
        StationCommand::SetProp
    } else {
        StationCommand::Help
    }
}

/// The answer to `/system`: whether the station is online.
pub open spec fn system_answer(online: bool) -> Seq<char> {
    if online {
        "*status:* `ONLINE`\n"@
    } else {
        "*status:* `OFFLINE`\n"@
    }
}

/// The answer to `/system`, for whether the station is online.
pub fn system_text(online: bool) -> (r: String)
    ensures
        r@ == system_answer(online),
{
    if online {
        String::from_str("*status:* `ONLINE`\n")
    } else {
        String::from_str("*status:* `OFFLINE`\n")
    }
}

/// The first answer to `/status`: the table of the channels, or `*Empty*`
/// where it could not be made.
pub fn status_text(table: Option<String>) -> (r: String)
    ensures
        r@ == match table {
            Some(t) => t@,
            None => "*Empty*"@,
        },
{
    match table {
        Some(t) => t,
        None => String::from_str("*Empty*"),
    }
}

/// The answer to `/reboot`.
pub fn reboot_text() -> (r: String)
    ensures
        r@ == "reboot system"@,
{
    String::from_str("reboot system")
}

/// Whether a file name is that of a hidden file, which the bot does not
/// show: one that starts with a dot.
pub fn is_hidden(name: &str) -> (b: bool)
    ensures
        b == (name@.len() > 0 && name@[0] == '.'),
{
    let v = chars_of(name);
    v.len() > 0 && v[0] == '.'
}

/// The values of the channels, separated by commas.
pub open spec fn comma_joined(values: Seq<Seq<char>>) -> Seq<char>
    decreases values.len(),
{
    if values.len() == 0 {
        Seq::empty()
    } else if values.len() == 1 {
        values[0]
    } else {
        comma_joined(values.drop_last()) + seq![','] + values.last()
    }
}

/// The values of the channels in one message: one value alone is itself;
/// each further value follows the ones before it after a comma.
pub proof fn lemma_comma_joined_push(values: Seq<Seq<char>>, v: Seq<char>)
    ensures
        comma_joined(seq![v]) == v,
        values.len() > 0 ==> comma_joined(values.push(v)) == comma_joined(values) + seq![','] + v,
{
    assert(values.push(v).drop_last() =~= values);
}

/// The values of all channels in one message, separated by commas.
pub fn join_values(values: &Vec<String>) -> (r: String)
    ensures
        r@ == comma_joined(views(values@)),
{
    let ghost vv = views(values@);
    let mut r = String::new();
    let mut i: usize = 0;
    assert(vv.take(0) =~= Seq::<Seq<char>>::empty());
    while i < values.len()
        invariant
            i <= values@.len(),
            vv == views(values@),
            r@ == comma_joined(vv.take(i as int)),
        decreases values@.len() - i,
    {
        assert(vv.take(i + 1).drop_last() =~= vv.take(i as int));
        assert(vv.take(i + 1).last() == values@[i as int]@);
        if i > 0 {
            push_char(&mut r, ',');
        } else {
            assert(vv.take(1) =~= seq![vv[0]]);
        }
        r.append(values[i].as_str());
        i = i + 1;
    }
    assert(vv.take(values@.len() as int) =~= vv);
    r
}

} // verus!
