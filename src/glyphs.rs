use vstd::prelude::*;

verus! {

pub const N: char = '▲';
pub const S: char = '▼';
pub const W: char = '◀';
pub const E: char = '▶';

pub const SP: char = ' ';
pub const DASH: char = '-';
pub const PIPE: char = '|';
pub const DIAG: char = '/';
pub const DIAG2: char = '╱';
pub const GAID: char = '\\';
pub const GAID2: char = '╲';
pub const PLUS: char = '+';
pub const CURS: char = '_';

pub const BRCORN: char = '┘';
pub const BLCORN: char = '└';
pub const TRCORN: char = '┐';
pub const TLCORN: char = '┌';
pub const VLINE: char = '│';
pub const HLINE: char = '─';

pub const LHINTER: char = '├';
pub const RHINTER: char = '┤';
pub const BVINTER: char = '┴';
pub const TVINTER: char = '┬';
pub const CINTER: char = '┼';
pub const UBOX: char = '□';

/// The glyphs that drawing operations use for each role.
#[derive(Clone, Copy, Debug, PartialEq, Eq, Structural)]
pub struct Symbols {
    pub n: char,
    pub s: char,
    pub w: char,
    pub e: char,
    pub dash: char,
    pub pipe: char,
    pub diag: char,
    pub diag2: char,
    pub gaid: char,
    pub gaid2: char,
    pub plus: char,
    pub curs: char,
    pub brcorn: char,
    pub blcorn: char,
    pub trcorn: char,
    pub tlcorn: char,
    pub vline: char,
    pub hline: char,
    pub lhinter: char,
    pub rhinter: char,
    pub bvinter: char,
    pub tvinter: char,
    pub cinter: char,
    pub ubox: char,
}

/// The symbol table that the editor starts with.
pub open spec fn default_symbols() -> Symbols {
    Symbols {
        n: N,
        s: S,
        w: W,
        e: E,
        dash: DASH,
        pipe: PIPE,
        diag: DIAG,
        diag2: DIAG2,
        gaid: GAID,
        gaid2: GAID2,
        plus: PLUS,
        curs: CURS,
        brcorn: BRCORN,
        blcorn: BLCORN,
        trcorn: TRCORN,
        tlcorn: TLCORN,
        vline: VLINE,
        hline: HLINE,
        lhinter: LHINTER,
        rhinter: RHINTER,
        bvinter: BVINTER,
        tvinter: TVINTER,
        cinter: CINTER,
        ubox: UBOX,
    }
}

impl Default for Symbols {
    fn default() -> (r: Self)
        ensures
            r == default_symbols(),
    {
        Symbols {
            n: N,
            s: S,
            w: W,
            e: E,
            dash: DASH,
            pipe: PIPE,
            diag: DIAG,
            diag2: DIAG2,
            gaid: GAID,
            gaid2: GAID2,
            plus: PLUS,
            curs: CURS,
            brcorn: BRCORN,
            blcorn: BLCORN,
            trcorn: TRCORN,
            tlcorn: TLCORN,
            vline: VLINE,
            hline: HLINE,
            lhinter: LHINTER,
            rhinter: RHINTER,
            bvinter: BVINTER,
            tvinter: TVINTER,
            cinter: CINTER,
            ubox: UBOX,
        }
    }
}

/// The strength of a glyph when two non-forced writes meet in one cell.
pub open spec fn rank(c: char) -> nat {
    if c == PLUS {
        5
    } else if c == DASH {
        4
    } else if c == PIPE {
        3
    } else if c == DIAG {
        2
    } else if c == GAID {
        1
    } else {
        0
    }
}

/// Returns the overlap precedence for `c`: higher values are less likely to be
/// overwritten by non-forced writes.
pub fn precedence(c: char) -> (r: usize)
    ensures
        r == rank(c),
{
    if c == PLUS {
        5
    } else if c == DASH {
        4
    } else if c == PIPE {
        3
    } else if c == DIAG {
        2
    } else if c == GAID {
        1
    } else {
        0
    }
}

/// True iff an existing glyph `old` keeps a non-forced write of `new` out of its
/// cell: it differs from `new` and is at least as strong. Blank cells rank
/// lowest, like any other glyph without a rank of its own.
pub open spec fn blocks(old: char, new: char) -> bool {
    old != new && rank(old) >= rank(new)
}

/// Whitespace as `char::is_whitespace` defines it.
pub open spec fn is_ws(c: char) -> bool {
    c == ' ' || ('\t' <= c <= '\r') || c == '\u{85}' || c == '\u{a0}' || c == '\u{1680}'
        || ('\u{2000}' <= c <= '\u{200a}') || c == '\u{2028}' || c == '\u{2029}'
        || c == '\u{202f}' || c == '\u{205f}' || c == '\u{3000}'
}

/// Returns true iff `c` is whitespace.
pub fn is_whitespace(c: char) -> (r: bool)
    ensures
        r == is_ws(c),
{
    c == ' ' || ('\t' <= c && c <= '\r') || c == '\u{85}' || c == '\u{a0}' || c == '\u{1680}'
        || ('\u{2000}' <= c && c <= '\u{200a}') || c == '\u{2028}' || c == '\u{2029}'
        || c == '\u{202f}' || c == '\u{205f}' || c == '\u{3000}'
}

} // verus!
