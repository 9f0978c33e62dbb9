use vstd::prelude::*;
use crate::app::WindowMode;
use crate::text::{
    chars_of, find, find_chars, find_from, is_ws, leading_ws, lemma_find_from, lemma_find_from_at,
    lemma_find_from_first, lemma_find_from_none, lemma_leading_ws, matches_at, matches_at_exec,
    starts_with, string_from_chars, sub_chars, trim_start, trim_start_chars,
};

verus! {

// ---------------------------------------------------------------------
// Game settings.
// ---------------------------------------------------------------------

/// Window mode as saved in `config.json`.
#[derive(Debug, Clone, Copy, PartialEq, Eq, Structural)]
pub enum WindowModeConfig {
    Windowed,
    Borderless,
    Exclusive,
}

impl Default for WindowModeConfig {
    fn default() -> (r: WindowModeConfig)
        ensures
            r == WindowModeConfig::Windowed,
    {
        WindowModeConfig::Windowed
    }
}

/// The player settings saved in `config.json`.
#[derive(Debug, Clone, Copy, PartialEq, Eq, Structural)]
pub struct GameConfig {
    /// Master volume slider, 0..=100.
    pub volume: u32,
    /// Mouse sensitivity slider, 0..=100.
    pub sensitivity: u32,
    /// Frame-rate cap (0 = uncapped).
    pub fps_limit: u32,
    pub window_mode: WindowModeConfig,
    /// Field of view in degrees.
    pub fov: u32,
    pub shadows_enabled: bool,
}

/// Volume a config without that field gets.
pub fn default_volume() -> (v: u32)
    ensures
        v == 75,
{
    75
}

/// Mouse sensitivity a config without that field gets.
pub fn default_sensitivity() -> (v: u32)
    ensures
        v == 50,
{
    50
}

/// Frame-rate cap a config without that field gets.
pub fn default_fps_limit() -> (v: u32)
    ensures
        v == 400,
{
    400
}

/// Field of view a config without that field gets.
pub fn default_fov() -> (v: u32)
    ensures
        v == 75,
{
    75
}

/// Value of a switch that is on unless the config says otherwise.
pub fn default_true() -> (b: bool)
    ensures
        b,
{
    true
}

pub open spec fn default_game_config() -> GameConfig {
    GameConfig {
        volume: 75,
        sensitivity: 50,
        fps_limit: 400,
        window_mode: WindowModeConfig::Windowed,
        fov: 75,
        shadows_enabled: true,
    }
}

impl Default for GameConfig {
    /// Volume 75, sensitivity 50, 400 fps cap, windowed, 75 degrees field
    /// of view, shadows on (the values a missing field also takes).
    fn default() -> (c: GameConfig)
        ensures
            c == default_game_config(),
    {
        GameConfig {
            volume: default_volume(),
            sensitivity: default_sensitivity(),
            fps_limit: default_fps_limit(),
            window_mode: WindowModeConfig::Windowed,
            fov: default_fov(),
            shadows_enabled: default_true(),
        }
    }
}

pub open spec fn mode_to_config(m: WindowMode) -> WindowModeConfig {
    match m {
        WindowMode::Windowed => WindowModeConfig::Windowed,
        WindowMode::Borderless => WindowModeConfig::Borderless,
        WindowMode::Exclusive => WindowModeConfig::Exclusive,
    }
}

pub open spec fn config_to_mode(c: WindowModeConfig) -> WindowMode {
    match c {
        WindowModeConfig::Windowed => WindowMode::Windowed,
        WindowModeConfig::Borderless => WindowMode::Borderless,
        WindowModeConfig::Exclusive => WindowMode::Exclusive,
    }
}

impl<'a> From<&'a WindowMode> for WindowModeConfig {
    /// The saved form of a window mode.
    fn from(mode: &'a WindowMode) -> (c: WindowModeConfig) {
        match mode {
            WindowMode::Windowed => WindowModeConfig::Windowed,
            WindowMode::Borderless => WindowModeConfig::Borderless,
            WindowMode::Exclusive => WindowModeConfig::Exclusive,
        }
    }
}

impl<'a> vstd::std_specs::convert::FromSpecImpl<&'a WindowMode> for WindowModeConfig {
    open spec fn obeys_from_spec() -> bool {
        true
    }

    open spec fn from_spec(mode: &'a WindowMode) -> WindowModeConfig {
        mode_to_config(*mode)
    }
}

impl<'a> From<&'a WindowModeConfig> for WindowMode {
    /// The window mode a saved setting stands for.
    fn from(cfg: &'a WindowModeConfig) -> (m: WindowMode) {
        match cfg {
            WindowModeConfig::Windowed => WindowMode::Windowed,
            WindowModeConfig::Borderless => WindowMode::Borderless,
            WindowModeConfig::Exclusive => WindowMode::Exclusive,
        }
    }
}

impl<'a> vstd::std_specs::convert::FromSpecImpl<&'a WindowModeConfig> for WindowMode {
    open spec fn obeys_from_spec() -> bool {
        true
    }

    open spec fn from_spec(cfg: &'a WindowModeConfig) -> WindowMode {
        config_to_mode(*cfg)
    }
}

/// Saving a window mode and reading it back gives the same mode, and the
/// other way round.
pub proof fn lemma_window_mode_config_round_trip(m: WindowMode, c: WindowModeConfig)
    ensures
        config_to_mode(mode_to_config(m)) == m,
        mode_to_config(config_to_mode(c)) == c,
{
}

/// The config saved from the in-game settings.
pub fn config_from_settings(
    volume: u32,
    sensitivity: u32,
    fps_limit: u32,
    window_mode: WindowMode,
    fov: u32,
    shadows_enabled: bool,
) -> (c: GameConfig)
    ensures
        c == (GameConfig {
            volume,
            sensitivity,
            fps_limit,
            window_mode: mode_to_config(window_mode),
            fov,
            shadows_enabled,
        }),
{
    GameConfig {
        volume,
        sensitivity,
        fps_limit,
        window_mode: WindowModeConfig::from(&window_mode),
        fov,
        shadows_enabled,
    }
}

// ---------------------------------------------------------------------
// Comment stripping for the JSON config files.
// ---------------------------------------------------------------------

/// Number of `c` characters in `s`.
pub open spec fn count_char(s: Seq<char>, c: char) -> nat
    decreases s.len(),
{
    if s.len() == 0 {
        0
    } else {
        count_char(s.drop_last(), c) + if s.last() == c {
            1nat
        } else {
            0nat
        }
    }
}

/// A line ended by `\r\n` loses its `\r` as well (as `str::lines` does).
pub open spec fn strip_cr(l: Seq<char>) -> Seq<char> {
    if l.len() > 0 && l.last() == '\r' {
        l.drop_last()
    } else {
        l
    }
}

/// What one line of a config file becomes: nothing if, once indented
/// whitespace is skipped, it starts with `//`; cut before its first `//`
/// when an even number of `"` precede it (the `//` is not inside a
/// string); otherwise kept. Kept text ends with a newline.
pub open spec fn json_line_out(line: Seq<char>) -> Seq<char> {
    if starts_with(trim_start(line), seq!['/', '/']) {
        Seq::empty()
    } else {
        match find(line, seq!['/', '/']) {
            Some(p) => if count_char(line.take(p), '"') % 2 == 0 {
                line.take(p).push('\n')
            } else {
                line.push('\n')
            },
            None => line.push('\n'),
        }
    }
}

/// `strip_json_comments` over characters, line by line (`str::lines`).
pub open spec fn strip_json_comments_spec(s: Seq<char>) -> Seq<char>
    decreases s.len(),
{
    if s.len() == 0 {
        Seq::empty()
    } else {
        match find(s, seq!['\n']) {
            None => json_line_out(s),
            Some(k) => {
                proof {
                    lemma_find_from(s, seq!['\n'], 0);
                }
                json_line_out(strip_cr(s.take(k))) + strip_json_comments_spec(s.skip(k + 1))
            },
        }
    }
}

fn count_quotes(v: &Vec<char>) -> (c: usize)
    ensures
        c == count_char(v@, '"'),
{
    let n = v.len();
    let mut c: usize = 0;
    let mut i: usize = 0;
    while i < n
        invariant
            n == v@.len(),
            i <= n,
            c == count_char(v@.take(i as int), '"'),
            c <= i,
        decreases n - i,
    {
        assert(v@.take(i + 1).drop_last() =~= v@.take(i as int));
        if v[i] == '"' {
            c = c + 1;
        }
        i = i + 1;
    }
    assert(v@.take(n as int) =~= v@);
    c
}

fn json_line(line: &Vec<char>) -> (out: Vec<char>)
    ensures
        out@ == json_line_out(line@),
{
    let t = trim_start_chars(line);
    if matches_at_exec(&t, &['/', '/'], 0) {
        return Vec::new();
    }
    match find_chars(line, &['/', '/']) {
        Some(p) => {
            proof {
                lemma_find_from(line@, seq!['/', '/'], 0);
            }
            let mut before = sub_chars(line, 0, p);
            assert(before@ =~= line@.take(p as int));
            if count_quotes(&before) % 2 == 0 {
                before.push('\n');
                before
            } else {
                let mut all = sub_chars(line, 0, line.len());
                assert(all@ =~= line@);
                all.push('\n');
                all
            }
        },
        None => {
            let mut all = sub_chars(line, 0, line.len());
            assert(all@ =~= line@);
            all.push('\n');
            all
        },
    }
}

/// Removes `//` comments from a JSON config text: comment-only lines are
/// dropped and a trailing `// ...` is cut from a line when the `//` is
/// not inside a string literal. Every kept line ends with `\n`.
pub fn strip_json_comments(json: &str) -> (r: String)
    ensures
        r@ == strip_json_comments_spec(json@),
{
    let chars = chars_of(json);
    let n = chars.len();
    let mut out: Vec<char> = Vec::new();
    let mut start: usize = 0;
    assert(chars@.skip(0) =~= chars@);
    while start < n
        invariant
            n == chars@.len(),
            start <= n,
            out@ + strip_json_comments_spec(chars@.skip(start as int)) == strip_json_comments_spec(
                json@,
            ),
            chars@ == json@,
        decreases n - start,
    {
        let rest = sub_chars(&chars, start, n);
        assert(rest@ =~= chars@.skip(start as int));
        let ghost before = out@;
        let newline: [char; 1] = ['\n'];
        assert(newline@ =~= seq!['\n']);
        match find_chars(&rest, &newline) {
            None => {
                let mut piece = json_line(&rest);
                out.append(&mut piece);
                proof {
                    assert(out@ =~= before + json_line_out(rest@));
                    assert(chars@.skip(n as int) =~= Seq::<char>::empty());
                }
                start = n;
            },
            Some(k) => {
                proof {
                    lemma_find_from(rest@, seq!['\n'], 0);
                }
                let mut line = sub_chars(&rest, 0, k);
                assert(line@ =~= rest@.take(k as int));
                if k > 0 && line[k - 1] == '\r' {
                    line.pop();
                }
                assert(line@ =~= strip_cr(rest@.take(k as int)));
                let mut piece = json_line(&line);
                out.append(&mut piece);
                proof {
                    assert(rest@.skip(k + 1) =~= chars@.skip(start + k + 1));
                    assert(out@ =~= before + json_line_out(strip_cr(rest@.take(k as int))));
                }
                start = start + k + 1;
            },
        }
    }
    assert(chars@.skip(n as int) =~= Seq::<char>::empty());
    string_from_chars(&out)
}

// ---------------------------------------------------------------------
// What stripping leaves.
// ---------------------------------------------------------------------

/// A line that is a `//` comment once its indentation is skipped.
pub open spec fn comment_line(l: Seq<char>) -> bool {
    starts_with(trim_start(l), seq!['/', '/'])
}

/// No line of `t` (split at `\n`) is a comment line.
pub open spec fn no_comment_lines(t: Seq<char>) -> bool
    decreases t.len(),
{
    if t.len() == 0 {
        true
    } else {
        match find(t, seq!['\n']) {
            None => !comment_line(t),
            Some(k) => {
                proof {
                    lemma_find_from(t, seq!['\n'], 0);
                }
                !comment_line(t.take(k)) && no_comment_lines(t.skip(k + 1))
            },
        }
    }
}

/// The text a kept line keeps, before its newline.
pub open spec fn kept_text(line: Seq<char>) -> Seq<char> {
    match find(line, seq!['/', '/']) {
        Some(p) => if count_char(line.take(p), '"') % 2 == 0 {
            line.take(p)
        } else {
            line
        },
        None => line,
    }
}

proof fn lemma_no_newline_char(s: Seq<char>, i: int)
    requires
        0 <= i,
        find_from(s, seq!['\n'], i) is None,
    ensures
        forall|j: int| i <= j < s.len() ==> s[j] != '\n',
{
    lemma_find_from(s, seq!['\n'], i);
    assert forall|j: int| i <= j < s.len() implies s[j] != '\n' by {
        if s[j] == '\n' {
            assert(s.subrange(j, j + 1) =~= seq!['\n']);
            assert(matches_at(s, seq!['\n'], j));
        }
    }
}

/// A kept line is a prefix of the line, no comment line, and stripping
/// it again keeps all of it.
proof fn lemma_kept_text(line: Seq<char>)
    requires
        !comment_line(line),
    ensures
        json_line_out(line) == kept_text(line).push('\n'),
        kept_text(line).len() <= line.len(),
        kept_text(line) == line.take(kept_text(line).len() as int),
        !comment_line(kept_text(line)),
        json_line_out(kept_text(line)) == kept_text(line).push('\n'),
{
    let n = seq!['/', '/'];
    assert(line.take(line.len() as int) =~= line);
    match find(line, n) {
        None => {},
        Some(p) => {
            lemma_find_from(line, n, 0);
            if count_char(line.take(p), '"') % 2 == 0 {
                let x = line.take(p);
                assert forall|k: int| 0 <= k implies !matches_at(x, n, k) by {
                    if matches_at(x, n, k) {
                        assert(line.subrange(k, k + 2) =~= x.subrange(k, k + 2));
                        assert(matches_at(line, n, k));
                        if k < p {
                            lemma_find_from_first(line, n, 0, k);
                        }
                    }
                }
                lemma_find_from_none(x, n, 0);
                if comment_line(x) {
                    let a = leading_ws(x) as int;
                    lemma_leading_ws(x);
                    lemma_leading_ws(line);
                    let t = trim_start(x);
                    assert(t[0] == x[a] && t[1] == x[a + 1]);
                    assert(x[a] == '/' && x[a + 1] == '/');
                    assert(!is_ws('/'));
                    let b = leading_ws(line) as int;
                    if b < a {
                        assert(x[b] == line[b]);
                        assert(is_ws(x[b]));
                    }
                    if b > a {
                        assert(line[a] == x[a]);
                        assert(is_ws(line[a]));
                    }
                    assert(b == a);
                    let u = trim_start(line);
                    assert(u[0] == line[a] && u[1] == line[a + 1]);
                    assert(u.subrange(0, 2) =~= n);
                    assert(comment_line(line));
                }
            }
        },
    }
}

/// A line without `\n`, its newline and more text: stripping and the
/// comment-line test both take the line first, then the rest.
proof fn lemma_line_then_rest(x: Seq<char>, r: Seq<char>)
    requires
        forall|j: int| 0 <= j < x.len() ==> x[j] != '\n',
    ensures
        strip_json_comments_spec(x.push('\n') + r) == json_line_out(strip_cr(x))
            + strip_json_comments_spec(r),
        no_comment_lines(x.push('\n') + r) == (!comment_line(x) && no_comment_lines(r)),
{
    let t = x.push('\n') + r;
    let n = seq!['\n'];
    let m = x.len() as int;
    assert(t.subrange(m, m + 1) =~= n);
    assert forall|k: int| 0 <= k < m implies !matches_at(t, n, k) by {
        assert(t.subrange(k, k + 1)[0] == x[k]);
    }
    lemma_find_from_at(t, n, 0, m);
    assert(t.take(m) =~= x);
    assert(t.skip(m + 1) =~= r);
}

/// What stripping `//` comments leaves: text that is empty or ends with a
/// newline, in which no line is a comment line; and, for text without
/// `\r`, stripping the result again changes nothing.
pub proof fn lemma_strip_json_comments_laws(s: Seq<char>)
    ensures
        strip_json_comments_spec(s).len() == 0 || strip_json_comments_spec(s).last() == '\n',
        no_comment_lines(strip_json_comments_spec(s)),
        !s.contains('\r') ==> strip_json_comments_spec(strip_json_comments_spec(s))
            == strip_json_comments_spec(s),
    decreases s.len(),
{
    let out = strip_json_comments_spec(s);
    if s.len() == 0 {
        return;
    }
    let n = seq!['\n'];
    lemma_find_from(s, n, 0);
    match find(s, n) {
        None => {
            lemma_no_newline_char(s, 0);
            if !comment_line(s) {
                lemma_kept_text(s);
                let x = kept_text(s);
                assert forall|j: int| 0 <= j < x.len() implies x[j] != '\n' by {
                    assert(x[j] == s[j]);
                }
                assert(out == x.push('\n'));
                assert(x.push('\n') + Seq::<char>::empty() =~= x.push('\n'));
                lemma_line_then_rest(x, Seq::empty());
                if !s.contains('\r') {
                    if x.len() > 0 {
                        assert(x.last() == s[x.len() - 1]);
                    }
                    assert(strip_cr(x) == x);
                }
            }
        },
        Some(k) => {
            let rest = s.skip(k + 1);
            lemma_strip_json_comments_laws(rest);
            let r = strip_json_comments_spec(rest);
            let head = s.take(k);
            let line = strip_cr(head);
            assert forall|j: int| 0 <= j < line.len() implies line[j] != '\n' by {
                assert(line[j] == s[j]);
                if s[j] == '\n' {
                    assert(s.subrange(j, j + 1) =~= n);
                    lemma_find_from_first(s, n, 0, j);
                }
            }
            if !s.contains('\r') {
                assert forall|j: int| 0 <= j < rest.len() implies rest[j] != '\r' by {
                    assert(rest[j] == s[j + k + 1]);
                }
                if head.len() > 0 {
                    assert(head.last() == s[k - 1]);
                }
                assert(line == head);
            }
            if comment_line(line) {
                assert(out =~= r);
            } else {
                lemma_kept_text(line);
                let x = kept_text(line);
                assert forall|j: int| 0 <= j < x.len() implies x[j] != '\n' by {
                    assert(x[j] == line[j]);
                }
                assert(out == x.push('\n') + r);
                lemma_line_then_rest(x, r);
                if !s.contains('\r') {
                    if x.len() > 0 {
                        assert(x.last() == line[x.len() - 1]);
                        assert(line[x.len() - 1] == s[x.len() - 1]);
                    }
                    assert(strip_cr(x) == x);
                }
                if r.len() > 0 {
                    assert((x.push('\n') + r).last() == r.last());
                }
            }
        },
    }
}

} // verus!
