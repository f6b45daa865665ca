//! QR codes of bookmark URLs, drawn with block characters for a terminal.
use vstd::prelude::*;
use crate::bookmark::{HookResult, PluginInfo};
use crate::plugin_config::{lookup, on_unless_false, PluginConfig};
use crate::strutil::{push_char, push_str};

verus! {

/// Why no QR code could be made.
#[derive(Debug, Clone, Copy, PartialEq, Eq, Structural)]
pub enum QrFailure {
    DataTooLong,
    InvalidVersion,
    UnsupportedCharacterSet,
    InvalidEciDesignator,
    InvalidCharacter,
}

/// How a failure reads (as `qrcode::types::QrError` displays it).
pub open spec fn failure_text(f: QrFailure) -> Seq<char> {
    match f {
        QrFailure::DataTooLong => "data too long"@,
        QrFailure::InvalidVersion => "invalid version"@,
        QrFailure::UnsupportedCharacterSet => "unsupported character set"@,
        QrFailure::InvalidEciDesignator => "invalid ECI designator"@,
        QrFailure::InvalidCharacter => "invalid character"@,
    }
}

/// The QR symbol `qrcode::QrCode::new` makes of the text's bytes: its width
/// in modules and the modules row by row (dark ones `true`), or why it
/// could not.
pub uninterp spec fn qr_symbol(data: Seq<char>) -> Result<(usize, Seq<bool>), QrFailure>;

/// `qrcode::QrCode::new` on the bytes of `data`, with the symbol's `width`
/// and its modules from `to_colors` (dark as `true`).  The modules are the
/// `width` rows of `width` modules each.
#[verifier::external_body]
fn qr_encode(data: &str) -> (r: Result<(usize, Vec<bool>), QrFailure>)
    ensures
        match r {
            Ok((w, m)) => qr_symbol(data@) == Ok::<(usize, Seq<bool>), QrFailure>((w, m@)) && m@.len() == w * w,
            Err(f) => qr_symbol(data@) == Err::<(usize, Seq<bool>), QrFailure>(f),
        },
{
    match qrcode::QrCode::new(data.as_bytes()) {
        Ok(code) => Ok((code.width(), code.to_colors().into_iter().map(|c| c == qrcode::Color::Dark).collect())),
        Err(qrcode::types::QrError::DataTooLong) => Err(QrFailure::DataTooLong),
        Err(qrcode::types::QrError::InvalidVersion) => Err(QrFailure::InvalidVersion),
        Err(qrcode::types::QrError::UnsupportedCharacterSet) => Err(QrFailure::UnsupportedCharacterSet),
        Err(qrcode::types::QrError::InvalidEciDesignator) => Err(QrFailure::InvalidEciDesignator),
        Err(qrcode::types::QrError::InvalidCharacter) => Err(QrFailure::InvalidCharacter),
    }
}

/// `n` blank cells, two spaces each.
pub open spec fn blanks(n: nat) -> Seq<char>
    decreases n,
{
    if n == 0 {
        Seq::empty()
    } else {
        blanks((n - 1) as nat) + "  "@
    }
}

/// A module drawn two characters wide.
pub open spec fn cell_text(dark: bool) -> Seq<char> {
    if dark {
        "██"@
    } else {
        "  "@
    }
}

/// The first `x` modules of row `y`.
pub open spec fn row_cells(w: nat, m: Seq<bool>, y: nat, x: nat) -> Seq<char>
    decreases x,
{
    if x == 0 {
        Seq::empty()
    } else {
        row_cells(w, m, y, (x - 1) as nat) + cell_text(m[y * w + x - 1])
    }
}

/// The first `n` rows, each between two blank cells on either side.
pub open spec fn rows_text(w: nat, m: Seq<bool>, n: nat) -> Seq<char>
    decreases n,
{
    if n == 0 {
        Seq::empty()
    } else {
        rows_text(w, m, (n - 1) as nat) + blanks(2) + row_cells(w, m, (n - 1) as nat, w) + blanks(2)
            + "\n"@
    }
}

/// A blank line as wide as the code and its border.
pub open spec fn edge(w: nat) -> Seq<char> {
    blanks(w + 4) + "\n"@
}

/// The full drawing: two blank lines, the rows, two blank lines.
pub open spec fn qr_art(w: nat, m: Seq<bool>) -> Seq<char> {
    edge(w) + edge(w) + rows_text(w, m, w) + edge(w) + edge(w)
}

/// One character for two modules, one above the other.
pub open spec fn half_block(top: bool, bottom: bool) -> char {
    if top && bottom {
        '█'
    } else if top {
        '▀'
    } else if bottom {
        '▄'
    } else {
        ' '
    }
}

/// Whether module (`x`, `y`) is dark; below the last row nothing is.
pub open spec fn dark_at(w: nat, m: Seq<bool>, y: nat, x: nat) -> bool {
    if y < w {
        m[(y * w + x) as int]
    } else {
        false
    }
}

/// The first `x` characters of the line for rows `y` and `y + 1`.
pub open spec fn pair_cells(w: nat, m: Seq<bool>, y: nat, x: nat) -> Seq<char>
    decreases x,
{
    if x == 0 {
        Seq::empty()
    } else {
        pair_cells(w, m, y, (x - 1) as nat).push(
            half_block(dark_at(w, m, y, (x - 1) as nat), dark_at(w, m, y + 1, (x - 1) as nat)),
        )
    }
}

/// The first `k` lines of the compact drawing, line `j` for rows `2j` and
/// `2j + 1`.
pub open spec fn compact_text(w: nat, m: Seq<bool>, k: nat) -> Seq<char>
    decreases k,
{
    if k == 0 {
        Seq::empty()
    } else {
        compact_text(w, m, (k - 1) as nat) + pair_cells(w, m, 2 * (k - 1) as nat, w) + "\n"@
    }
}

/// The message for a failure.
pub open spec fn failure_message(f: QrFailure) -> Seq<char> {
    "Failed to generate QR code: "@ + failure_text(f)
}

pub open spec fn text_result(r: Result<String, String>) -> Result<Seq<char>, Seq<char>> {
    match r {
        Ok(s) => Ok(s@),
        Err(e) => Err(e@),
    }
}

/// A width whose square fits leaves room for the border.
proof fn lemma_width_room(w: usize)
    requires
        w * w <= usize::MAX,
    ensures
        w + 4 <= usize::MAX,
{
    if w > 4 {
        assert(w * w >= 5 * w) by (nonlinear_arith)
            requires
                w > 4,
        ;
    }
}

proof fn lemma_cell_index(w: int, y: int, x: int)
    requires
        0 <= y < w,
        0 <= x < w,
    ensures
        0 <= y * w + x < w * w,
{
    assert(y * w + x < w * w) by (nonlinear_arith)
        requires
            0 <= y < w,
            0 <= x < w,
    ;
    assert(0 <= y * w) by (nonlinear_arith)
        requires
            0 <= y,
            0 <= w,
    ;
}

fn push_blanks(out: &mut String, n: usize)
    ensures
        final(out)@ == old(out)@ + blanks(n as nat),
{
    let mut i: usize = 0;
    let ghost o0 = out@;
    while i < n
        invariant
            i <= n,
            out@ == o0 + blanks(i as nat),
        decreases n - i,
    {
        push_str(out, "  ");
        assert(out@ =~= o0 + blanks((i + 1) as nat));
        i += 1;
    }
}

/// The drawing of a symbol `w` modules wide.
fn draw(w: usize, m: &Vec<bool>) -> (r: String)
    requires
        m@.len() == w * w,
    ensures
        r@ == qr_art(w as nat, m@),
{
    proof {
        assert(m.len() == m@.len());
        lemma_width_room(w);
        reveal_strlit("\n");
    }
    let mut out = String::new();
    push_blanks(&mut out, w + 4);
    push_char(&mut out, '\n');
    push_blanks(&mut out, w + 4);
    push_char(&mut out, '\n');
    let ghost head = out@;
    assert(head =~= edge(w as nat) + edge(w as nat));
    let mut y: usize = 0;
    while y < w
        invariant
            y <= w,
            m@.len() == w * w,
            w * w <= usize::MAX,
            head == edge(w as nat) + edge(w as nat),
            out@ == head + rows_text(w as nat, m@, y as nat),
        decreases w - y,
    {
        let ghost before = out@;
        push_blanks(&mut out, 2);
        let ghost row_start = out@;
        let mut x: usize = 0;
        while x < w
            invariant
                x <= w,
                y < w,
                m@.len() == w * w,
                w * w <= usize::MAX,
                row_start == before + blanks(2),
                before == head + rows_text(w as nat, m@, y as nat),
                out@ == row_start + row_cells(w as nat, m@, y as nat, x as nat),
            decreases w - x,
        {
            proof {
                lemma_cell_index(w as int, y as int, x as int);
            }
            let ghost o = out@;
            if m[y * w + x] {
                push_str(&mut out, "██");
            } else {
                push_str(&mut out, "  ");
            }
            assert(out@ =~= row_start + row_cells(w as nat, m@, y as nat, (x + 1) as nat));
            x += 1;
        }
        let ghost cells = row_cells(w as nat, m@, y as nat, w as nat);
        proof {
            reveal_strlit("\n");
        }
        push_blanks(&mut out, 2);
        push_char(&mut out, '\n');
        assert(out@ =~= before + blanks(2) + cells + blanks(2) + "\n"@);
        assert(rows_text(w as nat, m@, (y + 1) as nat) == rows_text(w as nat, m@, y as nat) + blanks(2)
            + cells + blanks(2) + "\n"@);
        assert(out@ =~= head + rows_text(w as nat, m@, (y + 1) as nat));
        y += 1;
    }
    let ghost mid = out@;
    push_blanks(&mut out, w + 4);
    push_char(&mut out, '\n');
    push_blanks(&mut out, w + 4);
    push_char(&mut out, '\n');
    assert(out@ =~= qr_art(w as nat, m@));
    out
}

/// The compact drawing: two rows of modules per line.
fn draw_compact(w: usize, m: &Vec<bool>) -> (r: String)
    requires
        m@.len() == w * w,
    ensures
        r@ == compact_text(w as nat, m@, ((w + 1) / 2) as nat),
{
    proof {
        assert(m.len() == m@.len());
        lemma_width_room(w);
        reveal_strlit("\n");
    }
    let mut out = String::new();
    let mut y: usize = 0;
    let mut k: usize = 0;
    while y < w
        invariant
            y == 2 * k,
            y <= w + 1,
            w + 4 <= usize::MAX,
            m@.len() == w * w,
            w * w <= usize::MAX,
            out@ == compact_text(w as nat, m@, k as nat),
        decreases w + 1 - y,
    {
        let ghost line_start = out@;
        let mut x: usize = 0;
        while x < w
            invariant
                x <= w,
                y < w,
                y == 2 * k,
                w + 4 <= usize::MAX,
                m@.len() == w * w,
                w * w <= usize::MAX,
                line_start == compact_text(w as nat, m@, k as nat),
                out@ == line_start + pair_cells(w as nat, m@, y as nat, x as nat),
            decreases w - x,
        {
            proof {
                lemma_cell_index(w as int, y as int, x as int);
            }
            let top = m[y * w + x];
            let bottom = if y + 1 < w {
                proof {
                    lemma_cell_index(w as int, y + 1, x as int);
                }
                m[(y + 1) * w + x]
            } else {
                false
            };
            assert(top == dark_at(w as nat, m@, y as nat, x as nat));
            assert(bottom == dark_at(w as nat, m@, (y + 1) as nat, x as nat));
            let ch = if top && bottom {
                '█'
            } else if top {
                '▀'
            } else if bottom {
                '▄'
            } else {
                ' '
            };
            push_char(&mut out, ch);
            assert(out@ =~= line_start + pair_cells(w as nat, m@, y as nat, (x + 1) as nat));
            x += 1;
        }
        push_char(&mut out, '\n');
        proof {
            reveal_strlit("\n");
        }
        assert(2 * k == 2 * ((k + 1) - 1) as nat);
        assert(out@ =~= compact_text(w as nat, m@, (k + 1) as nat));
        y += 2;
        k += 1;
    }
    assert(k == (w + 1) / 2);
    out
}

/// The QR-code plugin.
pub struct QrPlugin {
    pub enabled: bool,
}

impl QrPlugin {
    /// Enabled.
    pub fn new() -> (p: Self)
        ensures
            p.enabled,
    {
        QrPlugin { enabled: true }
    }

    pub fn info(&self) -> (i: PluginInfo)
        ensures
            i.name@ == "qr"@,
            i.version@ == "1.0.0"@,
            i.description@ == "Generates QR codes for bookmark URLs"@,
            i.author@ == "bukurs"@,
    {
        PluginInfo::new("qr", "1.0.0", "Generates QR codes for bookmark URLs", "bukurs")
    }

    /// Reads `enabled`.
    pub fn on_load(&mut self, config: &PluginConfig) -> (r: HookResult)
        ensures
            r is Continue,
            final(self).enabled == on_unless_false(lookup(config.view(), "enabled"@), old(self).enabled),
    {
        self.enabled = config.flag_unless_false("enabled", self.enabled);
        HookResult::Continue
    }

    /// The QR code of `data` drawn with `██` for dark modules inside a
    /// border two modules wide; the reason where no code can be made.
    pub fn generate_qr(data: &str) -> (r: Result<String, String>)
        ensures
            text_result(r) == (match qr_symbol(data@) {
                Ok((w, m)) => Ok(qr_art(w as nat, m)),
                Err(f) => Err(failure_message(f)),
            }),
    {
        match qr_encode(data) {
            Ok((w, m)) => Ok(draw(w, &m)),
            Err(f) => Err(Self::failure_string(f)),
        }
    }

    /// The QR code of `data` drawn compactly, two rows of modules per line
    /// with half-block characters; the reason where no code can be made.
    pub fn generate_qr_compact(data: &str) -> (r: Result<String, String>)
        ensures
            text_result(r) == (match qr_symbol(data@) {
                Ok((w, m)) => Ok(compact_text(w as nat, m, ((w + 1) / 2) as nat)),
                Err(f) => Err(failure_message(f)),
            }),
    {
        match qr_encode(data) {
            Ok((w, m)) => Ok(draw_compact(w, &m)),
            Err(f) => Err(Self::failure_string(f)),
        }
    }

    fn failure_string(f: QrFailure) -> (r: String)
        ensures
            r@ == failure_message(f),
    {
        let mut out = crate::strutil::owned("Failed to generate QR code: ");
        match f {
            QrFailure::DataTooLong => push_str(&mut out, "data too long"),
            QrFailure::InvalidVersion => push_str(&mut out, "invalid version"),
            QrFailure::UnsupportedCharacterSet => push_str(&mut out, "unsupported character set"),
            QrFailure::InvalidEciDesignator => push_str(&mut out, "invalid ECI designator"),
            QrFailure::InvalidCharacter => push_str(&mut out, "invalid character"),
        }
        out
    }
}

} // verus!
