use vstd::prelude::*;
use crate::app::UiState;
use crate::text::{
    chars_eq, chars_of, contains, find_chars, matches_at_exec, split_words, starts_with,
    string_from_chars, string_views, trim, trim_chars, views, words,
};

verus! {

/// Lowest and highest field of view (degrees) the game accepts.
pub const FOV_MIN: u32 = 50;
pub const FOV_MAX: u32 = 110;

/// `v.clamp(50, 110)`.
pub open spec fn clamp_fov_spec(v: u32) -> u32 {
    if v < FOV_MIN {
        FOV_MIN
    } else if v > FOV_MAX {
        FOV_MAX
    } else {
        v
    }
}

/// The field of view kept for a requested value: clamped to 50..=110.
pub fn clamp_fov(v: u32) -> (r: u32)
    ensures
        r == clamp_fov_spec(v),
        FOV_MIN <= r <= FOV_MAX,
{
    if v < FOV_MIN {
        FOV_MIN
    } else if v > FOV_MAX {
        FOV_MAX
    } else {
        v
    }
}

// ---------------------------------------------------------------------
// Decimal numbers.
// ---------------------------------------------------------------------

pub open spec fn is_digit(c: char) -> bool {
    '0' <= c && c <= '9'
}

pub open spec fn all_digits(s: Seq<char>) -> bool {
    forall|i: int| 0 <= i < s.len() ==> is_digit(#[trigger] s[i])
}

/// The number written by the decimal digits `s`.
pub open spec fn decimal_value(s: Seq<char>) -> nat
    decreases s.len(),
{
    if s.len() == 0 {
        0
    } else {
        decimal_value(s.drop_last()) * 10 + ((s.last() as u32) - ('0' as u32)) as nat
    }
}

/// `u32::from_str`: an optional `+`, then at least one decimal digit and
/// nothing else, for a value that fits in a `u32`.
pub open spec fn parse_u32_spec(s: Seq<char>) -> Option<u32> {
    let d = if s.len() > 0 && s[0] == '+' {
        s.drop_first()
    } else {
        s
    };
    if d.len() == 0 || !all_digits(d) || decimal_value(d) > u32::MAX {
        None
    } else {
        Some(decimal_value(d) as u32)
    }
}

proof fn lemma_decimal_value_grows(s: Seq<char>, c: char)
    requires
        is_digit(c),
    ensures
        decimal_value(s.push(c)) >= decimal_value(s),
        decimal_value(s.push(c)) == decimal_value(s) * 10 + ((c as u32) - ('0' as u32)),
{
    assert(s.push(c).drop_last() =~= s);
}

proof fn lemma_decimal_value_prefix(s: Seq<char>, i: int)
    requires
        0 <= i <= s.len(),
        all_digits(s),
    ensures
        decimal_value(s.take(i)) <= decimal_value(s),
    decreases s.len() - i,
{
    if i < s.len() {
        lemma_decimal_value_prefix(s, i + 1);
        assert(s.take(i + 1) =~= s.take(i).push(s[i]));
        lemma_decimal_value_grows(s.take(i), s[i]);
    } else {
        assert(s.take(i) =~= s);
    }
}

/// Parses a decimal `u32` exactly as `str::parse::<u32>` does.
pub fn parse_u32(v: &Vec<char>) -> (r: Option<u32>)
    ensures
        r == parse_u32_spec(v@),
{
    let n = v.len();
    let start: usize = if n > 0 && v[0] == '+' {
        1
    } else {
        0
    };
    let ghost d = v@.skip(start as int);
    proof {
        if start == 1 {
            assert(d =~= v@.drop_first());
        } else {
            assert(d =~= v@);
        }
    }
    if start == n {
        return None;
    }
    let mut acc: u64 = 0;
    let mut i = start;
    while i < n
        invariant
            start <= i <= n,
            start < n,
            n == v@.len(),
            d == v@.skip(start as int),
            d == (if v@.len() > 0 && v@[0] == '+' {
                v@.drop_first()
            } else {
                v@
            }),
            d.len() == n - start,
            all_digits(d.take(i - start)),
            acc == decimal_value(d.take(i - start)),
            acc <= u32::MAX,
        decreases n - i,
    {
        let c = v[i];
        if !('0' <= c && c <= '9') {
            proof {
                assert(d[i - start] == c);
                assert(!all_digits(d));
            }
            return None;
        }
        let digit = (c as u32 - '0' as u32) as u64;
        proof {
            assert(d.take(i - start + 1) =~= d.take(i - start).push(c));
            lemma_decimal_value_grows(d.take(i - start), c);
        }
        acc = acc * 10 + digit;
        i = i + 1;
        if acc > 0xFFFF_FFFF {
            proof {
                if all_digits(d) {
                    lemma_decimal_value_prefix(d, i - start);
                }
            }
            return None;
        }
    }
    proof {
        assert(d.take(n - start) =~= d);
    }
    Some(acc as u32)
}


// ---------------------------------------------------------------------
// Commands.
// ---------------------------------------------------------------------

/// A console command line, as the game understands it.
#[derive(Debug)]
pub enum ConsoleCommand {
    /// `help`
    Help,
    /// `clear`
    Clear,
    /// `version`
    Version,
    /// `quit` or `exit`
    Quit,
    /// `tp x y z`: the three coordinate words, for the caller to read as
    /// numbers.
    Teleport(String, String, String),
    /// `tp` with other than three arguments.
    TeleportUsage,
    /// `noclip`
    Noclip,
    /// `flashlight` or `flash`
    Flashlight,
    /// `shadows` or `shadow`
    Shadows,
    /// `fov <degrees>`: the requested value clamped to 50..=110.
    Fov(u32),
    /// `fov` without a readable number.
    FovUsage,
    /// `map` alone.
    MapUsage,
    /// `map list`
    MapList,
    /// `map new` without a name.
    MapNewUsage,
    /// `map new <name>`
    MapNew(String),
    /// `map save`
    MapSave,
    /// `map <name>`: load that map.
    MapLoad(String),
    /// Any other first word.
    Unknown(String),
}

/// The meaning of a command line, over character sequences.
pub ghost enum CommandView {
    Help,
    Clear,
    Version,
    Quit,
    Teleport(Seq<char>, Seq<char>, Seq<char>),
    TeleportUsage,
    Noclip,
    Flashlight,
    Shadows,
    Fov(u32),
    FovUsage,
    MapUsage,
    MapList,
    MapNewUsage,
    MapNew(Seq<char>),
    MapSave,
    MapLoad(Seq<char>),
    Unknown(Seq<char>),
}

impl View for ConsoleCommand {
    type V = CommandView;

    open spec fn view(&self) -> CommandView {
        match self {
            ConsoleCommand::Help => CommandView::Help,
            ConsoleCommand::Clear => CommandView::Clear,
            ConsoleCommand::Version => CommandView::Version,
            ConsoleCommand::Quit => CommandView::Quit,
            ConsoleCommand::Teleport(x, y, z) => CommandView::Teleport(x@, y@, z@),
            ConsoleCommand::TeleportUsage => CommandView::TeleportUsage,
            ConsoleCommand::Noclip => CommandView::Noclip,
            ConsoleCommand::Flashlight => CommandView::Flashlight,
            ConsoleCommand::Shadows => CommandView::Shadows,
            ConsoleCommand::Fov(v) => CommandView::Fov(*v),
            ConsoleCommand::FovUsage => CommandView::FovUsage,
            ConsoleCommand::MapUsage => CommandView::MapUsage,
            ConsoleCommand::MapList => CommandView::MapList,
            ConsoleCommand::MapNewUsage => CommandView::MapNewUsage,
            ConsoleCommand::MapNew(n) => CommandView::MapNew(n@),
            ConsoleCommand::MapSave => CommandView::MapSave,
            ConsoleCommand::MapLoad(n) => CommandView::MapLoad(n@),
            ConsoleCommand::Unknown(w) => CommandView::Unknown(w@),
        }
    }
}

/// What the words of a command line ask for (`None` for a blank line).
pub open spec fn command_of_words(w: Seq<Seq<char>>) -> Option<CommandView> {
    if w.len() == 0 {
        None
    } else {
        let c = w[0];
        Some(
            if c == seq!['h', 'e', 'l', 'p'] {
                CommandView::Help
            } else if c == seq!['c', 'l', 'e', 'a', 'r'] {
                CommandView::Clear
            } else if c == seq!['v', 'e', 'r', 's', 'i', 'o', 'n'] {
                CommandView::Version
            } else if c == seq!['q', 'u', 'i', 't'] || c == seq!['e', 'x', 'i', 't'] {
                CommandView::Quit
            } else if c == seq!['t', 'p'] {
                if w.len() == 4 {
                    CommandView::Teleport(w[1], w[2], w[3])
                } else {
                    CommandView::TeleportUsage
                }
            } else if c == seq!['n', 'o', 'c', 'l', 'i', 'p'] {
                CommandView::Noclip
            } else if c == seq!['f', 'l', 'a', 's', 'h', 'l', 'i', 'g', 'h', 't'] || c == seq![
                'f',
                'l',
                'a',
                's',
                'h',
            ] {
                CommandView::Flashlight
            } else if c == seq!['s', 'h', 'a', 'd', 'o', 'w', 's'] || c == seq![
                's',
                'h',
                'a',
                'd',
                'o',
                'w',
            ] {
                CommandView::Shadows
            } else if c == seq!['f', 'o', 'v'] {
                if w.len() < 2 {
                    CommandView::FovUsage
                } else {
                    match parse_u32_spec(w[1]) {
                        Some(v) => CommandView::Fov(clamp_fov_spec(v)),
                        None => CommandView::FovUsage,
                    }
                }
            } else if c == seq!['m', 'a', 'p'] {
                if w.len() < 2 {
                    CommandView::MapUsage
                } else if w[1] == seq!['l', 'i', 's', 't'] {
                    CommandView::MapList
                } else if w[1] == seq!['n', 'e', 'w'] {
                    if w.len() < 3 {
                        CommandView::MapNewUsage
                    } else {
                        CommandView::MapNew(w[2])
                    }
                } else if w[1] == seq!['s', 'a', 'v', 'e'] {
                    CommandView::MapSave
                } else {
                    CommandView::MapLoad(w[1])
                }
            } else {
                CommandView::Unknown(c)
            },
        )
    }
}

/// Reads a console line: its whitespace-separated words decide the
/// command (`None` for a line with no words).
pub fn parse_command(line: &str) -> (r: Option<ConsoleCommand>)
    ensures
        match r {
            None => command_of_words(words(line@)) is None,
            Some(c) => command_of_words(words(line@)) == Some(c@),
        },
{
    let chars = chars_of(line);
    let w = split_words(&chars);
    let ghost ws = views(w@);
    assert(ws.len() == w@.len());
    if w.len() == 0 {
        return None;
    }
    assert(ws[0] == w@[0]@);
    let c = &w[0];
    let cmd = if chars_eq(c, &['h', 'e', 'l', 'p']) {
        ConsoleCommand::Help
    } else if chars_eq(c, &['c', 'l', 'e', 'a', 'r']) {
        ConsoleCommand::Clear
    } else if chars_eq(c, &['v', 'e', 'r', 's', 'i', 'o', 'n']) {
        ConsoleCommand::Version
    } else if chars_eq(c, &['q', 'u', 'i', 't']) || chars_eq(c, &['e', 'x', 'i', 't']) {
        ConsoleCommand::Quit
    } else if chars_eq(c, &['t', 'p']) {
        if w.len() == 4 {
            assert(ws[1] == w@[1]@ && ws[2] == w@[2]@ && ws[3] == w@[3]@);
            ConsoleCommand::Teleport(
                string_from_chars(&w[1]),
                string_from_chars(&w[2]),
                string_from_chars(&w[3]),
            )
        } else {
            ConsoleCommand::TeleportUsage
        }
    } else if chars_eq(c, &['n', 'o', 'c', 'l', 'i', 'p']) {
        ConsoleCommand::Noclip
    } else if chars_eq(c, &['f', 'l', 'a', 's', 'h', 'l', 'i', 'g', 'h', 't']) || chars_eq(
        c,
        &['f', 'l', 'a', 's', 'h'],
    ) {
        ConsoleCommand::Flashlight
    } else if chars_eq(c, &['s', 'h', 'a', 'd', 'o', 'w', 's']) || chars_eq(
        c,
        &['s', 'h', 'a', 'd', 'o', 'w'],
    ) {
        ConsoleCommand::Shadows
    } else if chars_eq(c, &['f', 'o', 'v']) {
        if w.len() < 2 {
            ConsoleCommand::FovUsage
        } else {
            assert(ws[1] == w@[1]@);
            match parse_u32(&w[1]) {
                Some(v) => ConsoleCommand::Fov(clamp_fov(v)),
                None => ConsoleCommand::FovUsage,
            }
        }
    } else if chars_eq(c, &['m', 'a', 'p']) {
        if w.len() < 2 {
            ConsoleCommand::MapUsage
        } else {
            assert(ws[1] == w@[1]@);
            if chars_eq(&w[1], &['l', 'i', 's', 't']) {
                ConsoleCommand::MapList
            } else if chars_eq(&w[1], &['n', 'e', 'w']) {
                if w.len() < 3 {
                    ConsoleCommand::MapNewUsage
                } else {
                    assert(ws[2] == w@[2]@);
                    ConsoleCommand::MapNew(string_from_chars(&w[2]))
                }
            } else if chars_eq(&w[1], &['s', 'a', 'v', 'e']) {
                ConsoleCommand::MapSave
            } else {
                ConsoleCommand::MapLoad(string_from_chars(&w[1]))
            }
        }
    } else {
        ConsoleCommand::Unknown(string_from_chars(c))
    };
    Some(cmd)
}


// ---------------------------------------------------------------------
// Console output.
// ---------------------------------------------------------------------

/// How a console log line is coloured.
#[derive(Debug, Clone, Copy, PartialEq, Eq, Structural)]
pub enum LineKind {
    /// An echoed command (`> ...`).
    Input,
    /// A line mentioning `Error` or `Failed`.
    Error,
    /// Indented help text.
    Help,
    /// Anything else.
    Output,
}

pub open spec fn line_kind(l: Seq<char>) -> LineKind {
    if starts_with(l, seq!['>']) {
        LineKind::Input
    } else if contains(l, seq!['E', 'r', 'r', 'o', 'r']) || contains(l, seq!['F', 'a', 'i', 'l', 'e', 'd']) {
        LineKind::Error
    } else if starts_with(l, seq![' ', ' ']) {
        LineKind::Help
    } else {
        LineKind::Output
    }
}

/// The colour class of a console log line.
pub fn console_line_kind(line: &str) -> (k: LineKind)
    ensures
        k == line_kind(line@),
{
    let v = chars_of(line);
    let prompt: [char; 1] = ['>'];
    let error: [char; 5] = ['E', 'r', 'r', 'o', 'r'];
    let failed: [char; 6] = ['F', 'a', 'i', 'l', 'e', 'd'];
    let indent: [char; 2] = [' ', ' '];
    assert(prompt@ =~= seq!['>']);
    assert(error@ =~= seq!['E', 'r', 'r', 'o', 'r']);
    assert(failed@ =~= seq!['F', 'a', 'i', 'l', 'e', 'd']);
    assert(indent@ =~= seq![' ', ' ']);
    if matches_at_exec(&v, &prompt, 0) {
        LineKind::Input
    } else if find_chars(&v, &error).is_some() || find_chars(&v, &failed).is_some() {
        LineKind::Error
    } else if matches_at_exec(&v, &indent, 0) {
        LineKind::Help
    } else {
        LineKind::Output
    }
}

pub open spec fn digit_char(d: nat) -> char {
    (('0' as u32) + d) as char
}

/// The decimal representation of `n` (no sign, no leading zeros).
pub open spec fn decimal_digits(n: nat) -> Seq<char>
    decreases n,
{
    if n < 10 {
        seq![digit_char(n)]
    } else {
        decimal_digits(n / 10).push(digit_char(n % 10))
    }
}

fn push_decimal(out: &mut Vec<char>, n: u64)
    ensures
        final(out)@ == old(out)@ + decimal_digits(n as nat),
    decreases n,
{
    if n >= 10 {
        push_decimal(out, n / 10);
    }
    let digit = match n % 10 {
        0 => '0',
        1 => '1',
        2 => '2',
        3 => '3',
        4 => '4',
        5 => '5',
        6 => '6',
        7 => '7',
        8 => '8',
        _ => '9',
    };
    proof {
        assert(digit == digit_char((n % 10) as nat));
    }
    out.push(digit);
    proof {
        if n >= 10 {
            assert(final(out)@ =~= old(out)@ + decimal_digits(n as nat));
        } else {
            assert(final(out)@ =~= old(out)@ + decimal_digits(n as nat));
        }
    }
}

/// `n` written in decimal, as `format!("{}", n)` does.
pub fn decimal_string(n: u64) -> (s: String)
    ensures
        s@ == decimal_digits(n as nat),
{
    let mut v: Vec<char> = Vec::new();
    push_decimal(&mut v, n);
    assert(v@ =~= decimal_digits(n as nat));
    string_from_chars(&v)
}


/// One line of the `map list` answer: the name indented, marked when it
/// is the loaded map.
pub open spec fn map_list_entry(name: Seq<char>, current: Seq<char>) -> Seq<char> {
    "  "@ + name + if name == current {
        " (current)"@
    } else {
        Seq::empty()
    }
}

/// The answer to `map list`.
pub open spec fn map_list_lines(maps: Seq<Seq<char>>, current: Seq<char>) -> Seq<Seq<char>> {
    if maps.len() == 0 {
        seq!["No maps found in assets/maps/"@]
    } else {
        seq!["Available maps:"@] + maps.map_values(|n: Seq<char>| map_list_entry(n, current))
    }
}

/// The console lines answering `map list`, given the map list and the
/// loaded map's name.
pub fn map_list_reply(maps: &Vec<String>, current: &String) -> (lines: Vec<String>)
    ensures
        string_views(lines@) == map_list_lines(string_views(maps@), current@),
{
    let n = maps.len();
    let mut lines: Vec<String> = Vec::new();
    if n == 0 {
        lines.push("No maps found in assets/maps/".to_owned());
        assert(string_views(lines@) =~= map_list_lines(string_views(maps@), current@));
        return lines;
    }
    lines.push("Available maps:".to_owned());
    let mut i: usize = 0;
    while i < n
        invariant
            n == maps@.len(),
            i <= n,
            string_views(lines@) == seq!["Available maps:"@] + string_views(maps@).take(
                i as int,
            ).map_values(|m: Seq<char>| map_list_entry(m, current@)),
        decreases n - i,
    {
        let mut line = "  ".to_owned();
        line.append(maps[i].as_str());
        if maps[i] == *current {
            line.append(" (current)");
        }
        let ghost before = lines@;
        lines.push(line);
        proof {
            assert(line@ == map_list_entry(maps@[i as int]@, current@));
            assert(string_views(lines@) =~= string_views(before).push(line@));
            assert(string_views(maps@).take(i + 1) =~= string_views(maps@).take(i as int).push(
                maps@[i as int]@,
            ));
            assert(string_views(maps@).take(i + 1).map_values(
                |m: Seq<char>| map_list_entry(m, current@),
            ) =~= string_views(maps@).take(i as int).map_values(
                |m: Seq<char>| map_list_entry(m, current@),
            ).push(line@));
        }
        i = i + 1;
    }
    assert(string_views(maps@).take(n as int) =~= string_views(maps@));
    lines
}

/// The answer to `fov <degrees>`.
pub open spec fn fov_reply_spec(v: u32) -> Seq<char> {
    "FOV set to "@ + decimal_digits(v as nat) + "\u{00b0} (restart applies)"@
}

/// The console line confirming a field-of-view request.
pub fn fov_reply(v: u32) -> (s: String)
    ensures
        s@ == fov_reply_spec(v),
{
    let mut s = "FOV set to ".to_owned();
    let d = decimal_string(v as u64);
    s.append(d.as_str());
    s.append("\u{00b0} (restart applies)");
    s
}

/// The console line confirming that a map was loaded.
pub fn map_loaded_reply(name: &str, entity_count: usize) -> (s: String)
    ensures
        s@ == "Loaded map '"@ + name@ + "' ("@ + decimal_digits(entity_count as nat)
            + " entities)"@,
{
    let mut s = "Loaded map '".to_owned();
    s.append(name);
    s.append("' (");
    let d = decimal_string(entity_count as u64);
    s.append(d.as_str());
    s.append(" entities)");
    s
}

/// A line entered at the console prompt: the command (the line trimmed)
/// and its echo `> command` for the log, or `None` for a blank line,
/// which is neither echoed nor run.
pub fn submit_console_line(input: &str) -> (r: Option<(String, String)>)
    ensures
        r is None <==> trim(input@).len() == 0,
        r matches Some((cmd, echo)) ==> cmd@ == trim(input@) && echo@ == "> "@ + trim(input@),
{
    let chars = chars_of(input);
    let t = trim_chars(&chars);
    if t.len() == 0 {
        return None;
    }
    let cmd = string_from_chars(&t);
    let mut echo = "> ".to_owned();
    echo.append(cmd.as_str());
    Some((cmd, echo))
}

// ---------------------------------------------------------------------
// Running commands.
// ---------------------------------------------------------------------

/// What the game must still do for a command, besides logging its lines.
#[derive(Debug)]
pub enum ConsoleAction {
    /// Nothing.
    Nothing,
    /// Empty the console log.
    ClearLog,
    /// Leave the game.
    Quit,
    /// Stop the player (noclip was switched).
    StopPlayer,
    /// Read the three words as coordinates and move the player there.
    Teleport(String, String, String),
    /// Re-read the maps directory and log the map list.
    ListMaps,
    /// Create and save an empty map under this name.
    CreateMap(String),
    /// Save the scene as the loaded map, under its name.
    SaveMap(String),
    /// Load the named map.
    LoadMap(String),
}

pub ghost enum ActionView {
    Nothing,
    ClearLog,
    Quit,
    StopPlayer,
    Teleport(Seq<char>, Seq<char>, Seq<char>),
    ListMaps,
    CreateMap(Seq<char>),
    SaveMap(Seq<char>),
    LoadMap(Seq<char>),
}

impl View for ConsoleAction {
    type V = ActionView;

    open spec fn view(&self) -> ActionView {
        match self {
            ConsoleAction::Nothing => ActionView::Nothing,
            ConsoleAction::ClearLog => ActionView::ClearLog,
            ConsoleAction::Quit => ActionView::Quit,
            ConsoleAction::StopPlayer => ActionView::StopPlayer,
            ConsoleAction::Teleport(x, y, z) => ActionView::Teleport(x@, y@, z@),
            ConsoleAction::ListMaps => ActionView::ListMaps,
            ConsoleAction::CreateMap(n) => ActionView::CreateMap(n@),
            ConsoleAction::SaveMap(n) => ActionView::SaveMap(n@),
            ConsoleAction::LoadMap(n) => ActionView::LoadMap(n@),
        }
    }
}

/// The answer to `help`.
pub open spec fn help_lines() -> Seq<Seq<char>> {
    seq![
        "Available commands:"@,
        "  help              - Show this help"@,
        "  clear             - Clear console"@,
        "  version           - Show version"@,
        "  quit              - Exit game"@,
        "  tp x y z          - Teleport to position"@,
        "  noclip            - Toggle noclip fly mode"@,
        "  flashlight        - Toggle flashlight"@,
        "  shadows           - Toggle sun shadows"@,
        "  fov <degrees>     - Set field of view (50-110)"@,
        "  map <name>        - Load a map"@,
        "  map list          - List available maps"@,
        "  map new <name>    - Create a new empty map"@,
        "  map save          - Save current map"@,
    ]
}

/// The answer to `map` alone.
pub open spec fn map_usage_lines() -> Seq<Seq<char>> {
    seq![
        "Usage:"@,
        "  map <name>      - Load a map"@,
        "  map list        - List available maps"@,
        "  map new <name>  - Create new map"@,
        "  map save        - Save current map"@,
    ]
}

/// What a command does to the UI state, the lines it logs at once, and
/// what is left for the game to do, given the loaded map's name.
pub open spec fn console_step_spec(s: UiState, c: CommandView, current_map: Seq<char>) -> (
    UiState,
    Seq<Seq<char>>,
    ActionView,
) {
    match c {
        CommandView::Help => (s, help_lines(), ActionView::Nothing),
        CommandView::Clear => (s, seq![], ActionView::ClearLog),
        CommandView::Version => (s, seq!["PhotonEngine v0.1"@], ActionView::Nothing),
        CommandView::Quit => (s, seq![], ActionView::Quit),
        CommandView::Teleport(x, y, z) => (s, seq![], ActionView::Teleport(x, y, z)),
        CommandView::TeleportUsage => (s, seq!["Usage: tp <x> <y> <z>"@], ActionView::Nothing),
        CommandView::Noclip => (
            UiState { noclip: !s.noclip, ..s },
            if !s.noclip {
                seq!["Noclip ON (WASD=move, Space=up, C/Ctrl=down, Shift=fast)"@]
            } else {
                seq!["Noclip OFF"@]
            },
            ActionView::StopPlayer,
        ),
        CommandView::Flashlight => (
            UiState { flashlight: !s.flashlight, ..s },
            if !s.flashlight {
                seq!["Flashlight ON"@]
            } else {
                seq!["Flashlight OFF"@]
            },
            ActionView::Nothing,
        ),
        CommandView::Shadows => (
            s,
            seq!["Toggle shadows in Settings (SHIFT+ESC \u{2192} Settings)"@],
            ActionView::Nothing,
        ),
        CommandView::Fov(v) => (s, seq![fov_reply_spec(v)], ActionView::Nothing),
        CommandView::FovUsage => (s, seq!["Usage: fov <degrees> (50-110)"@], ActionView::Nothing),
        CommandView::MapUsage => (s, map_usage_lines(), ActionView::Nothing),
        CommandView::MapList => (s, seq![], ActionView::ListMaps),
        CommandView::MapNewUsage => (s, seq!["Usage: map new <name>"@], ActionView::Nothing),
        CommandView::MapNew(n) => (s, seq![], ActionView::CreateMap(n)),
        CommandView::MapSave => if current_map.len() == 0 {
            (s, seq!["No map loaded to save"@], ActionView::Nothing)
        } else {
            (s, seq![], ActionView::SaveMap(current_map))
        },
        CommandView::MapLoad(n) => (s, seq![], ActionView::LoadMap(n)),
        CommandView::Unknown(w) => (s, seq!["Unknown command: "@ + w], ActionView::Nothing),
    }
}

fn help_reply() -> (lines: Vec<String>)
    ensures
        string_views(lines@) == help_lines(),
{
    let mut lines: Vec<String> = Vec::new();
    lines.push("Available commands:".to_owned());
    lines.push("  help              - Show this help".to_owned());
    lines.push("  clear             - Clear console".to_owned());
    lines.push("  version           - Show version".to_owned());
    lines.push("  quit              - Exit game".to_owned());
    lines.push("  tp x y z          - Teleport to position".to_owned());
    lines.push("  noclip            - Toggle noclip fly mode".to_owned());
    lines.push("  flashlight        - Toggle flashlight".to_owned());
    lines.push("  shadows           - Toggle sun shadows".to_owned());
    lines.push("  fov <degrees>     - Set field of view (50-110)".to_owned());
    lines.push("  map <name>        - Load a map".to_owned());
    lines.push("  map list          - List available maps".to_owned());
    lines.push("  map new <name>    - Create a new empty map".to_owned());
    lines.push("  map save          - Save current map".to_owned());
    assert(string_views(lines@) =~= help_lines());
    lines
}

fn map_usage_reply() -> (lines: Vec<String>)
    ensures
        string_views(lines@) == map_usage_lines(),
{
    let mut lines: Vec<String> = Vec::new();
    lines.push("Usage:".to_owned());
    lines.push("  map <name>      - Load a map".to_owned());
    lines.push("  map list        - List available maps".to_owned());
    lines.push("  map new <name>  - Create new map".to_owned());
    lines.push("  map save        - Save current map".to_owned());
    assert(string_views(lines@) =~= map_usage_lines());
    lines
}

fn one_line(line: String) -> (lines: Vec<String>)
    ensures
        string_views(lines@) == seq![line@],
{
    let mut lines: Vec<String> = Vec::new();
    lines.push(line);
    assert(string_views(lines@) =~= seq![lines@[0]@]);
    lines
}

/// Runs a console command: updates the flashlight and noclip switches,
/// returns the lines to log and what the game must still do (files,
/// teleport, quitting), given the loaded map's name.
pub fn run_console_command(state: &mut UiState, command: ConsoleCommand, current_map: &String) -> (r: (
    Vec<String>,
    ConsoleAction,
))
    ensures
        (*final(state), string_views(r.0@), r.1@) == console_step_spec(
            *old(state),
            command@,
            current_map@,
        ),
{
    let none: Vec<String> = Vec::new();
    assert(string_views(none@) =~= Seq::<Seq<char>>::empty());
    match command {
        ConsoleCommand::Help => (help_reply(), ConsoleAction::Nothing),
        ConsoleCommand::Clear => (none, ConsoleAction::ClearLog),
        ConsoleCommand::Version => (one_line("PhotonEngine v0.1".to_owned()), ConsoleAction::Nothing),
        ConsoleCommand::Quit => (none, ConsoleAction::Quit),
        ConsoleCommand::Teleport(x, y, z) => (none, ConsoleAction::Teleport(x, y, z)),
        ConsoleCommand::TeleportUsage => (
            one_line("Usage: tp <x> <y> <z>".to_owned()),
            ConsoleAction::Nothing,
        ),
        ConsoleCommand::Noclip => {
            state.noclip = !state.noclip;
            let line = if state.noclip {
                "Noclip ON (WASD=move, Space=up, C/Ctrl=down, Shift=fast)".to_owned()
            } else {
                "Noclip OFF".to_owned()
            };
            (one_line(line), ConsoleAction::StopPlayer)
        },
        ConsoleCommand::Flashlight => {
            state.flashlight = !state.flashlight;
            let line = if state.flashlight {
                "Flashlight ON".to_owned()
            } else {
                "Flashlight OFF".to_owned()
            };
            (one_line(line), ConsoleAction::Nothing)
        },
        ConsoleCommand::Shadows => (
            one_line("Toggle shadows in Settings (SHIFT+ESC \u{2192} Settings)".to_owned()),
            ConsoleAction::Nothing,
        ),
        ConsoleCommand::Fov(v) => (one_line(fov_reply(v)), ConsoleAction::Nothing),
        ConsoleCommand::FovUsage => (
            one_line("Usage: fov <degrees> (50-110)".to_owned()),
            ConsoleAction::Nothing,
        ),
        ConsoleCommand::MapUsage => (map_usage_reply(), ConsoleAction::Nothing),
        ConsoleCommand::MapList => (none, ConsoleAction::ListMaps),
        ConsoleCommand::MapNewUsage => (
            one_line("Usage: map new <name>".to_owned()),
            ConsoleAction::Nothing,
        ),
        ConsoleCommand::MapNew(n) => (none, ConsoleAction::CreateMap(n)),
        ConsoleCommand::MapSave => {
            if current_map.as_str().unicode_len() == 0 {
                (one_line("No map loaded to save".to_owned()), ConsoleAction::Nothing)
            } else {
                (none, ConsoleAction::SaveMap(current_map.clone()))
            }
        },
        ConsoleCommand::MapLoad(n) => (none, ConsoleAction::LoadMap(n)),
        ConsoleCommand::Unknown(w) => {
            let mut line = "Unknown command: ".to_owned();
            line.append(w.as_str());
            (one_line(line), ConsoleAction::Nothing)
        },
    }
}

/// `noclip` switches noclip, whichever way, stops the player and logs
/// one line; `flashlight` switches the flashlight and asks nothing more;
/// no other command changes the UI state.
pub proof fn lemma_console_switches(s: UiState, c: CommandView, current_map: Seq<char>)
    ensures
        console_step_spec(s, CommandView::Noclip, current_map).0 == (UiState { noclip: !s.noclip, ..s }),
        console_step_spec(s, CommandView::Noclip, current_map).1.len() == 1,
        console_step_spec(s, CommandView::Noclip, current_map).2 == ActionView::StopPlayer,
        console_step_spec(s, CommandView::Flashlight, current_map).0 == (UiState {
            flashlight: !s.flashlight,
            ..s
        }),
        console_step_spec(s, CommandView::Flashlight, current_map).1.len() == 1,
        console_step_spec(s, CommandView::Flashlight, current_map).2 == ActionView::Nothing,
        !(c is Noclip) && !(c is Flashlight) ==> console_step_spec(s, c, current_map).0 == s,
{
}

/// `map save` saves the loaded map under its name, and with no map loaded
/// only says so.
pub proof fn lemma_console_map_save(s: UiState, current_map: Seq<char>)
    ensures
        current_map.len() > 0 ==> console_step_spec(s, CommandView::MapSave, current_map).2
            == ActionView::SaveMap(current_map),
        current_map.len() > 0 ==> console_step_spec(s, CommandView::MapSave, current_map).1.len()
            == 0,
        current_map.len() == 0 ==> console_step_spec(s, CommandView::MapSave, current_map).2
            == ActionView::Nothing,
        current_map.len() == 0 ==> console_step_spec(s, CommandView::MapSave, current_map).1.len()
            == 1,
{
}

} // verus!
