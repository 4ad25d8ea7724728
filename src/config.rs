use vstd::prelude::*;
use vstd::string::StrSliceExecFns;

use crate::buffer::trim_end;
use crate::glyphs::{is_whitespace, is_ws, Symbols};
use crate::tools::PathMode;

verus! {

/// How line numbers are shown.
#[derive(Debug, Clone, Copy, PartialEq, Eq, Structural)]
pub enum LineNumberMode {
    Relative,
    Absolute,
}

/// True iff `s` spells `lo`, each letter either as in `lo` or as in `up`.
pub open spec fn same_word(s: Seq<char>, lo: Seq<char>, up: Seq<char>) -> bool {
    s.len() == lo.len() && forall|i: int| 0 <= i < s.len() ==> (#[trigger] s[i] == lo[i] || s[i] == up[i])
}

fn matches_word(s: &Vec<char>, lo: &Vec<char>, up: &Vec<char>) -> (r: bool)
    requires
        lo@.len() == up@.len(),
    ensures
        r == same_word(s@, lo@, up@),
{
    let n = s.len();
    if n != lo.len() {
        return false;
    }
    let mut i: usize = 0;
    while i < n
        invariant
            n == s@.len(),
            n == lo@.len(),
            n == up@.len(),
            i <= n,
            forall|k: int| 0 <= k < i ==> (#[trigger] s@[k] == lo@[k] || s@[k] == up@[k]),
        decreases n - i,
    {
        let c = s[i];
        if c != lo[i] && c != up[i] {
            return false;
        }
        i += 1;
    }
    true
}

/// The line number mode that `s` names, ignoring case.
pub open spec fn line_mode_spec(s: Seq<char>) -> Option<LineNumberMode> {
    if same_word(s, seq!['r', 'e', 'l', 'a', 't', 'i', 'v', 'e'], seq!['R', 'E', 'L', 'A', 'T', 'I', 'V', 'E'])
        || same_word(s, seq!['r', 'e', 'l'], seq!['R', 'E', 'L']) {
        Some(LineNumberMode::Relative)
    } else if same_word(s, seq!['a', 'b', 's', 'o', 'l', 'u', 't', 'e'], seq!['A', 'B', 'S', 'O', 'L', 'U', 'T', 'E'])
        || same_word(s, seq!['a', 'b', 's'], seq!['A', 'B', 'S']) {
        Some(LineNumberMode::Absolute)
    } else {
        None
    }
}

impl LineNumberMode {
    /// Reads a line number mode: "relative" or "rel", "absolute" or "abs", in
    /// any case.
    pub fn parse(s: &str) -> (r: Option<LineNumberMode>)
        ensures
            r == line_mode_spec(s@),
    {
        let t = chars_of(s);
        Self::parse_chars(&t)
    }

    fn parse_chars(s: &Vec<char>) -> (r: Option<LineNumberMode>)
        ensures
            r == line_mode_spec(s@),
    {
        let relative = vec!['r', 'e', 'l', 'a', 't', 'i', 'v', 'e'];
        let relative_up = vec!['R', 'E', 'L', 'A', 'T', 'I', 'V', 'E'];
        let rel = vec!['r', 'e', 'l'];
        let rel_up = vec!['R', 'E', 'L'];
        let absolute = vec!['a', 'b', 's', 'o', 'l', 'u', 't', 'e'];
        let absolute_up = vec!['A', 'B', 'S', 'O', 'L', 'U', 'T', 'E'];
        let abs = vec!['a', 'b', 's'];
        let abs_up = vec!['A', 'B', 'S'];
        assert(relative@ =~= seq!['r', 'e', 'l', 'a', 't', 'i', 'v', 'e']);
        assert(relative_up@ =~= seq!['R', 'E', 'L', 'A', 'T', 'I', 'V', 'E']);
        assert(rel@ =~= seq!['r', 'e', 'l']);
        assert(rel_up@ =~= seq!['R', 'E', 'L']);
        assert(absolute@ =~= seq!['a', 'b', 's', 'o', 'l', 'u', 't', 'e']);
        assert(absolute_up@ =~= seq!['A', 'B', 'S', 'O', 'L', 'U', 'T', 'E']);
        assert(abs@ =~= seq!['a', 'b', 's']);
        assert(abs_up@ =~= seq!['A', 'B', 'S']);
        if matches_word(s, &relative, &relative_up) || matches_word(s, &rel, &rel_up) {
            Some(LineNumberMode::Relative)
        } else if matches_word(s, &absolute, &absolute_up) || matches_word(s, &abs, &abs_up) {
            Some(LineNumberMode::Absolute)
        } else {
            None
        }
    }
}
/// A display colour: the terminal's own, or red, green and blue.
#[derive(Debug, Clone, Copy, PartialEq, Eq, Structural)]
pub enum Color {
    TerminalDefault,
    Rgb(u8, u8, u8),
}

/// The value of a hexadecimal digit.
pub open spec fn hex_val(c: char) -> Option<u8> {
    if '0' <= c <= '9' {
        Some((c as u32 - '0' as u32) as u8)
    } else if 'a' <= c <= 'f' {
        Some((c as u32 - 'a' as u32 + 10) as u8)
    } else if 'A' <= c <= 'F' {
        Some((c as u32 - 'A' as u32 + 10) as u8)
    } else {
        None
    }
}

/// The byte that the two hexadecimal digits `hi` and `lo` spell.
pub open spec fn hex_pair(hi: char, lo: char) -> Option<u8> {
    match (hex_val(hi), hex_val(lo)) {
        (Some(a), Some(b)) => Some((a * 16 + b) as u8),
        _ => None,
    }
}

pub open spec fn word_transparent() -> Seq<char> {
    seq!['t', 'r', 'a', 'n', 's', 'p', 'a', 'r', 'e', 'n', 't']
}

/// The colour that `s` names: "transparent" for the terminal's own, or `#`
/// and six hexadecimal digits.
pub open spec fn color_spec(s: Seq<char>) -> Option<Color> {
    if s == word_transparent() {
        Some(Color::TerminalDefault)
    } else if s.len() == 7 && s[0] == '#' {
        match (hex_pair(s[1], s[2]), hex_pair(s[3], s[4]), hex_pair(s[5], s[6])) {
            (Some(r), Some(g), Some(b)) => Some(Color::Rgb(r, g, b)),
            _ => None,
        }
    } else {
        None
    }
}

fn hex_digit(c: char) -> (r: Option<u8>)
    ensures
        r == hex_val(c),
{
    if '0' <= c && c <= '9' {
        Some((c as u32 - '0' as u32) as u8)
    } else if 'a' <= c && c <= 'f' {
        Some((c as u32 - 'a' as u32 + 10) as u8)
    } else if 'A' <= c && c <= 'F' {
        Some((c as u32 - 'A' as u32 + 10) as u8)
    } else {
        None
    }
}

fn hex_byte(hi: char, lo: char) -> (r: Option<u8>)
    ensures
        r == hex_pair(hi, lo),
{
    match (hex_digit(hi), hex_digit(lo)) {
        (Some(a), Some(b)) => Some(a * 16 + b),
        _ => None,
    }
}

/// Reads a colour: "transparent", or `#` and six hexadecimal digits.
pub fn parse_color(s: &str) -> (r: Option<Color>)
    ensures
        r == color_spec(s@),
{
    let n = s.unicode_len();
    if n == 11 {
        let word = vec!['t', 'r', 'a', 'n', 's', 'p', 'a', 'r', 'e', 'n', 't'];
        let mut i: usize = 0;
        while i < 11
            invariant
                n == s@.len(),
                n == 11,
                word@ == word_transparent(),
                i <= 11,
                forall|k: int| 0 <= k < i ==> s@[k] == word_transparent()[k],
            decreases 11 - i,
        {
            if s.get_char(i) != word[i] {
                return None;
            }
            i += 1;
        }
        assert(s@ =~= word_transparent());
        return Some(Color::TerminalDefault);
    }
    if n != 7 || s.get_char(0) != '#' {
        return None;
    }
    let r = hex_byte(s.get_char(1), s.get_char(2));
    let g = hex_byte(s.get_char(3), s.get_char(4));
    let b = hex_byte(s.get_char(5), s.get_char(6));
    match (r, g, b) {
        (Some(r), Some(g), Some(b)) => Some(Color::Rgb(r, g, b)),
        _ => None,
    }
}

/// The editor's settings.
#[derive(Clone, Copy, Debug, PartialEq, Eq, Structural)]
pub struct Options {
    pub path_mode: PathMode,
    pub keep_trailing_ws: bool,
    pub strip_margin_ws: bool,
    pub line_mode: Option<LineNumberMode>,
    pub box_cursor_start: bool,
    pub show_mode: bool,
    pub symbols: Symbols,
}

/// The routing mode that follows `m` when cycling: routed after any other,
/// right-angled after routed.
pub open spec fn next_path_mode(m: PathMode) -> PathMode {
    if m == PathMode::Routed {
        PathMode::Snap90
    } else {
        PathMode::Routed
    }
}

impl Options {
    /// Apply one line of a settings file: `key = value`, both trimmed. A line
    /// without `=`, an unknown key, or a value that does not read changes
    /// nothing; a line mode given before is kept; a symbol takes the first
    /// glyph of its value.
    pub fn apply_config_line(&mut self, line: &str)
        ensures
            *final(self) == with_config_line(*old(self), line@),
    {
        let t = chars_of(line);
        let mut k: usize = 0;
        while k < t.len() && t[k] != '='
            invariant
                k <= t@.len(),
                eq_from(t@, k as int) == eq_from(t@, 0),
            decreases t@.len() - k,
        {
            k += 1;
        }
        if k >= t.len() {
            return;
        }
        let key = trimmed_part(&t, 0, k);
        let value = trimmed_part(&t, k + 1, t.len());
        assert(t@.take(k as int) =~= t@.subrange(0, k as int));
        assert(t@.skip(k + 1) =~= t@.subrange(k + 1, t@.len() as int));
        self.apply_setting(&key, &value);
    }

    fn apply_setting(&mut self, key: &Vec<char>, value: &Vec<char>)
        ensures
            *final(self) == with_setting(*old(self), key@, value@),
    {
        let line_mode = vec!['l', 'i', 'n', 'e', '_', 'm', 'o', 'd', 'e'];
        let box_start = vec!['b', 'o', 'x', '_', 'c', 'u', 'r', 's', 'o', 'r', '_', 's', 't', 'a', 'r', 't'];
        let show_mode = vec!['s', 'h', 'o', 'w', '_', 'm', 'o', 'd', 'e'];
        assert(line_mode@ =~= seq!['l', 'i', 'n', 'e', '_', 'm', 'o', 'd', 'e']);
        assert(box_start@ =~= seq!['b', 'o', 'x', '_', 'c', 'u', 'r', 's', 'o', 'r', '_', 's', 't', 'a', 'r', 't']);
        assert(show_mode@ =~= seq!['s', 'h', 'o', 'w', '_', 'm', 'o', 'd', 'e']);
        if same_chars(key, &line_mode) {
            if self.line_mode.is_none() {
                let m = LineNumberMode::parse_chars(value);
                if m.is_some() {
                    self.line_mode = m;
                }
            }
            return;
        }
        if same_chars(key, &box_start) {
            if let Some(b) = parse_bool(value) {
                self.box_cursor_start = b;
            }
            return;
        }
        if same_chars(key, &show_mode) {
            if let Some(b) = parse_bool(value) {
                self.show_mode = b;
            }
            return;
        }
        let prefix = vec!['s', 'y', 'm', 'b', 'o', 'l', '_'];
        assert(prefix@ =~= word_symbol());
        if key.len() <= 7 || value.len() == 0 {
            return;
        }
        assert(!is_keyword(key@));
        let mut j: usize = 0;
        while j < 7
            invariant
                j <= 7,
                !is_keyword(key@),
                *self == *old(self),
                value@.len() > 0,
                key@.len() > 7,
                prefix@ == word_symbol(),
                forall|q: int| 0 <= q < j ==> key@[q] == prefix@[q],
            decreases 7 - j,
        {
            if key[j] != prefix[j] {
                assert(key@.take(7)[j as int] != word_symbol()[j as int]);
                assert(key@.take(7) != word_symbol());
                return;
            }
            j += 1;
        }
        assert(key@.take(7) =~= word_symbol());
        let mut rest: Vec<char> = Vec::new();
        let mut q: usize = 7;
        while q < key.len()
            invariant
                7 <= q <= key@.len(),
                !is_keyword(key@),
                *self == *old(self),
                value@.len() > 0,
                key@.take(7) == word_symbol(),
                rest@ =~= key@.subrange(7, q as int),
            decreases key@.len() - q,
        {
            rest.push(key[q]);
            q += 1;
        }
        assert(rest@ =~= key@.skip(7));
        let names = symbol_name_list();
        let mut i: usize = 0;
        while i < 24
            invariant
                i <= 24,
                !is_keyword(key@),
                *self == *old(self),
                value@.len() > 0,
                key@.len() > 7,
                key@.take(7) == word_symbol(),
                rest@ == key@.skip(7),
                names@.len() == 24,
                forall|n: int| 0 <= n < 24 ==> (#[trigger] names@[n])@ == symbol_names()[n],
                find_name(rest@, i as int) == find_name(rest@, 0),
            decreases 24 - i,
        {
            if same_chars(&names[i], &rest) {
                assert(find_name(rest@, i as int) == i);
                let c = value[0];
                set_symbol(&mut self.symbols, i, c);
                return;
            }
            i += 1;
        }
    }

    /// Switch between routed connectors and right-angled ones.
    pub fn cycle_path_mode(&mut self)
        ensures
            final(self).path_mode == next_path_mode(old(self).path_mode),
            final(self).keep_trailing_ws == old(self).keep_trailing_ws,
            final(self).strip_margin_ws == old(self).strip_margin_ws,
            final(self).line_mode == old(self).line_mode,
            final(self).box_cursor_start == old(self).box_cursor_start,
            final(self).show_mode == old(self).show_mode,
            final(self).symbols == old(self).symbols,
    {
        self.path_mode = match self.path_mode {
            PathMode::Routed => PathMode::Snap90,
            _ => PathMode::Routed,
        };
    }
}

/// `t` without its leading whitespace.
pub open spec fn trim_start(t: Seq<char>) -> Seq<char>
    decreases t.len(),
{
    if t.len() > 0 && is_ws(t[0]) {
        trim_start(t.drop_first())
    } else {
        t
    }
}

/// `t` without whitespace at either end.
pub open spec fn trim_ws(t: Seq<char>) -> Seq<char> {
    trim_end(trim_start(t))
}

/// The index of the first `=` in `t` at or after `i`, or the length of `t`.
pub open spec fn eq_from(t: Seq<char>, i: int) -> int
    decreases t.len() - i,
{
    if i >= t.len() || t[i] == '=' {
        i
    } else {
        eq_from(t, i + 1)
    }
}

/// The names of the symbol settings, in the order of the fields of `Symbols`.
pub open spec fn symbol_names() -> Seq<Seq<char>> {
    seq![
        seq!['n'], seq!['s'], seq!['w'], seq!['e'], seq!['d', 'a', 's', 'h'], seq!['p', 'i', 'p', 'e'],
        seq!['d', 'i', 'a', 'g'], seq!['d', 'i', 'a', 'g', '2'], seq!['g', 'a', 'i', 'd'],
        seq!['g', 'a', 'i', 'd', '2'], seq!['p', 'l', 'u', 's'], seq!['c', 'u', 'r', 's'],
        seq!['b', 'r', 'c', 'o', 'r', 'n'], seq!['b', 'l', 'c', 'o', 'r', 'n'],
        seq!['t', 'r', 'c', 'o', 'r', 'n'], seq!['t', 'l', 'c', 'o', 'r', 'n'],
        seq!['v', 'l', 'i', 'n', 'e'], seq!['h', 'l', 'i', 'n', 'e'],
        seq!['l', 'h', 'i', 'n', 't', 'e', 'r'], seq!['r', 'h', 'i', 'n', 't', 'e', 'r'],
        seq!['b', 'v', 'i', 'n', 't', 'e', 'r'], seq!['t', 'v', 'i', 'n', 't', 'e', 'r'],
        seq!['c', 'i', 'n', 't', 'e', 'r'], seq!['u', 'b', 'o', 'x'],
    ]
}

/// `s` with its symbol number `i`, in field order, set to `c`.
pub open spec fn with_symbol(s: Symbols, i: int, c: char) -> Symbols {
    if i == 0 { Symbols { n: c, ..s } }
    else if i == 1 { Symbols { s: c, ..s } }
    else if i == 2 { Symbols { w: c, ..s } }
    else if i == 3 { Symbols { e: c, ..s } }
    else if i == 4 { Symbols { dash: c, ..s } }
    else if i == 5 { Symbols { pipe: c, ..s } }
    else if i == 6 { Symbols { diag: c, ..s } }
    else if i == 7 { Symbols { diag2: c, ..s } }
    else if i == 8 { Symbols { gaid: c, ..s } }
    else if i == 9 { Symbols { gaid2: c, ..s } }
    else if i == 10 { Symbols { plus: c, ..s } }
    else if i == 11 { Symbols { curs: c, ..s } }
    else if i == 12 { Symbols { brcorn: c, ..s } }
    else if i == 13 { Symbols { blcorn: c, ..s } }
    else if i == 14 { Symbols { trcorn: c, ..s } }
    else if i == 15 { Symbols { tlcorn: c, ..s } }
    else if i == 16 { Symbols { vline: c, ..s } }
    else if i == 17 { Symbols { hline: c, ..s } }
    else if i == 18 { Symbols { lhinter: c, ..s } }
    else if i == 19 { Symbols { rhinter: c, ..s } }
    else if i == 20 { Symbols { bvinter: c, ..s } }
    else if i == 21 { Symbols { tvinter: c, ..s } }
    else if i == 22 { Symbols { cinter: c, ..s } }
    else { Symbols { ubox: c, ..s } }
}

/// The number of the first symbol setting at or after `i` named `name`, or 24.
pub open spec fn find_name(name: Seq<char>, i: int) -> int
    decreases 24 - i,
{
    if i >= 24 {
        24
    } else if symbol_names()[i] == name {
        i
    } else {
        find_name(name, i + 1)
    }
}

/// True iff `key` names one of the settings that are not symbols.
pub open spec fn is_keyword(key: Seq<char>) -> bool {
    key == seq!['l', 'i', 'n', 'e', '_', 'm', 'o', 'd', 'e'] || key == seq![
        'b',
        'o',
        'x',
        '_',
        'c',
        'u',
        'r',
        's',
        'o',
        'r',
        '_',
        's',
        't',
        'a',
        'r',
        't',
    ] || key == seq!['s', 'h', 'o', 'w', '_', 'm', 'o', 'd', 'e']
}

pub open spec fn word_symbol() -> Seq<char> {
    seq!['s', 'y', 'm', 'b', 'o', 'l', '_']
}

/// The value that `v` spells as a boolean setting.
pub open spec fn bool_spec(v: Seq<char>) -> Option<bool> {
    if v == seq!['t', 'r', 'u', 'e'] {
        Some(true)
    } else if v == seq!['f', 'a', 'l', 's', 'e'] {
        Some(false)
    } else {
        None
    }
}

/// The settings after reading the setting `key = value`. A line mode given
/// before is kept; an unknown key, or a value that does not read, changes
/// nothing; a symbol takes the first glyph of its value.
pub open spec fn with_setting(o: Options, key: Seq<char>, value: Seq<char>) -> Options {
    if key == seq!['l', 'i', 'n', 'e', '_', 'm', 'o', 'd', 'e'] {
        if o.line_mode is None && line_mode_spec(value) is Some {
            Options { line_mode: line_mode_spec(value), ..o }
        } else {
            o
        }
    } else if key == seq!['b', 'o', 'x', '_', 'c', 'u', 'r', 's', 'o', 'r', '_', 's', 't', 'a', 'r', 't'] {
        match bool_spec(value) {
            Some(b) => Options { box_cursor_start: b, ..o },
            None => o,
        }
    } else if key == seq!['s', 'h', 'o', 'w', '_', 'm', 'o', 'd', 'e'] {
        match bool_spec(value) {
            Some(b) => Options { show_mode: b, ..o },
            None => o,
        }
    } else if key.len() > 7 && key.take(7) == word_symbol() && value.len() > 0 && find_name(
        key.skip(7),
        0,
    ) < 24 {
        Options { symbols: with_symbol(o.symbols, find_name(key.skip(7), 0), value[0]), ..o }
    } else {
        o
    }
}

/// The settings after reading one line of a settings file: `key = value`,
/// both trimmed; a line without `=` changes nothing.
pub open spec fn with_config_line(o: Options, line: Seq<char>) -> Options {
    let k = eq_from(line, 0);
    if k >= line.len() {
        o
    } else {
        with_setting(o, trim_ws(line.take(k)), trim_ws(line.skip(k + 1)))
    }
}

fn chars_of(s: &str) -> (r: Vec<char>)
    ensures
        r@ == s@,
{
    let n = s.unicode_len();
    let mut r: Vec<char> = Vec::new();
    let mut i: usize = 0;
    while i < n
        invariant
            n == s@.len(),
            i <= n,
            r@ =~= s@.take(i as int),
        decreases n - i,
    {
        r.push(s.get_char(i));
        i += 1;
    }
    r
}

/// Returns `t[lo..hi]` without whitespace at either end.
fn trimmed_part(t: &Vec<char>, lo: usize, hi: usize) -> (r: Vec<char>)
    requires
        lo <= hi <= t@.len(),
    ensures
        r@ == trim_ws(t@.subrange(lo as int, hi as int)),
{
    let ghost part = t@.subrange(lo as int, hi as int);
    let mut a: usize = lo;
    while a < hi && is_whitespace(t[a])
        invariant
            lo <= a <= hi,
            hi <= t@.len(),
            trim_start(t@.subrange(a as int, hi as int)) == trim_start(part),
        decreases hi - a,
    {
        assert(t@.subrange(a as int, hi as int).drop_first() =~= t@.subrange(a + 1, hi as int));
        a += 1;
    }
    assert(trim_start(t@.subrange(a as int, hi as int)) == t@.subrange(a as int, hi as int));
    let mut b: usize = hi;
    while b > a && is_whitespace(t[b - 1])
        invariant
            a <= b <= hi,
            hi <= t@.len(),
            trim_end(t@.subrange(a as int, b as int)) == trim_end(t@.subrange(a as int, hi as int)),
        decreases b,
    {
        assert(t@.subrange(a as int, b as int).drop_last() =~= t@.subrange(a as int, b - 1));
        b -= 1;
    }
    let mut r: Vec<char> = Vec::new();
    let mut k: usize = a;
    while k < b
        invariant
            a <= k <= b,
            b <= t@.len(),
            r@ =~= t@.subrange(a as int, k as int),
        decreases b - k,
    {
        r.push(t[k]);
        k += 1;
    }
    assert(trim_end(r@) == r@);
    r
}

fn same_chars(a: &Vec<char>, b: &Vec<char>) -> (r: bool)
    ensures
        r == (a@ == b@),
{
    if a.len() != b.len() {
        return false;
    }
    let mut i: usize = 0;
    while i < a.len()
        invariant
            a@.len() == b@.len(),
            i <= a@.len(),
            forall|k: int| 0 <= k < i ==> a@[k] == b@[k],
        decreases a@.len() - i,
    {
        if a[i] != b[i] {
            return false;
        }
        i += 1;
    }
    assert(a@ =~= b@);
    true
}

fn parse_bool(v: &Vec<char>) -> (r: Option<bool>)
    ensures
        r == bool_spec(v@),
{
    let t = vec!['t', 'r', 'u', 'e'];
    let f = vec!['f', 'a', 'l', 's', 'e'];
    assert(t@ =~= seq!['t', 'r', 'u', 'e']);
    assert(f@ =~= seq!['f', 'a', 'l', 's', 'e']);
    if same_chars(v, &t) {
        Some(true)
    } else if same_chars(v, &f) {
        Some(false)
    } else {
        None
    }
}

fn set_symbol(s: &mut Symbols, i: usize, c: char)
    requires
        i < 24,
    ensures
        *final(s) == with_symbol(*old(s), i as int, c),
{
    if i == 0 { s.n = c; }
    else if i == 1 { s.s = c; }
    else if i == 2 { s.w = c; }
    else if i == 3 { s.e = c; }
    else if i == 4 { s.dash = c; }
    else if i == 5 { s.pipe = c; }
    else if i == 6 { s.diag = c; }
    else if i == 7 { s.diag2 = c; }
    else if i == 8 { s.gaid = c; }
    else if i == 9 { s.gaid2 = c; }
    else if i == 10 { s.plus = c; }
    else if i == 11 { s.curs = c; }
    else if i == 12 { s.brcorn = c; }
    else if i == 13 { s.blcorn = c; }
    else if i == 14 { s.trcorn = c; }
    else if i == 15 { s.tlcorn = c; }
    else if i == 16 { s.vline = c; }
    else if i == 17 { s.hline = c; }
    else if i == 18 { s.lhinter = c; }
    else if i == 19 { s.rhinter = c; }
    else if i == 20 { s.bvinter = c; }
    else if i == 21 { s.tvinter = c; }
    else if i == 22 { s.cinter = c; }
    else { s.ubox = c; }
}

fn symbol_name_list() -> (r: Vec<Vec<char>>)
    ensures
        r@.len() == 24,
        forall|i: int| 0 <= i < 24 ==> (#[trigger] r@[i])@ == symbol_names()[i],
{
    let r = vec![
        vec!['n'], vec!['s'], vec!['w'], vec!['e'], vec!['d', 'a', 's', 'h'], vec!['p', 'i', 'p', 'e'],
        vec!['d', 'i', 'a', 'g'], vec!['d', 'i', 'a', 'g', '2'], vec!['g', 'a', 'i', 'd'],
        vec!['g', 'a', 'i', 'd', '2'], vec!['p', 'l', 'u', 's'], vec!['c', 'u', 'r', 's'],
        vec!['b', 'r', 'c', 'o', 'r', 'n'], vec!['b', 'l', 'c', 'o', 'r', 'n'],
        vec!['t', 'r', 'c', 'o', 'r', 'n'], vec!['t', 'l', 'c', 'o', 'r', 'n'],
        vec!['v', 'l', 'i', 'n', 'e'], vec!['h', 'l', 'i', 'n', 'e'],
        vec!['l', 'h', 'i', 'n', 't', 'e', 'r'], vec!['r', 'h', 'i', 'n', 't', 'e', 'r'],
        vec!['b', 'v', 'i', 'n', 't', 'e', 'r'], vec!['t', 'v', 'i', 'n', 't', 'e', 'r'],
        vec!['c', 'i', 'n', 't', 'e', 'r'], vec!['u', 'b', 'o', 'x'],
    ];
    assert forall|i: int| 0 <= i < 24 implies (#[trigger] r@[i])@ == symbol_names()[i] by {
        assert(r@[i]@ =~= symbol_names()[i]);
    }
    r
}

} // verus!

