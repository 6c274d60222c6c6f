//! A QR code of the public URL, drawn with half-block characters so that two
//! module rows fit in one terminal line.

use vstd::prelude::*;

use crate::text::concat2;

verus! {

#[derive(Debug, Clone)]
pub struct TerminalQr {
    pub lines: Vec<String>,
}

/// The lines of a QR drawing, each followed by a newline.
pub open spec fn qr_text(lines: Seq<Seq<char>>) -> Seq<char>
    decreases lines.len(),
{
    if lines.len() == 0 {
        Seq::empty()
    } else {
        qr_text(lines.drop_last()) + lines.last() + "\n"@
    }
}

impl TerminalQr {
    /// The drawing as printed.
    pub fn render(&self) -> (s: String)
        ensures
            s@ == qr_text(self.lines@.map_values(|l: String| l@)),
    {
        let ghost ls = self.lines@.map_values(|l: String| l@);
        let mut s = String::new();
        let mut i: usize = 0;
        assert(ls.subrange(0, 0) =~= Seq::<Seq<char>>::empty());
        while i < self.lines.len()
            invariant
                i <= self.lines@.len(),
                ls == self.lines@.map_values(|l: String| l@),
                s@ == qr_text(ls.subrange(0, i as int)),
            decreases self.lines@.len() - i,
        {
            let ghost before = s@;
            s.append(self.lines[i].as_str());
            s.append("\n");
            proof {
                assert(ls.subrange(0, i + 1).drop_last() =~= ls.subrange(0, i as int));
                assert(s@ =~= qr_text(ls.subrange(0, i + 1)));
            }
            i = i + 1;
        }
        assert(ls.subrange(0, self.lines@.len() as int) =~= ls);
        s
    }
}

/// The modules of a QR code: `width` modules per side, row by row, `true`
/// for dark.
pub struct QrMatrix {
    pub width: usize,
    pub dark: Vec<bool>,
}

/// What `qrcode::QrCode::new` makes of `data`: the width and the modules
/// (`true` for dark), or `None` when the data does not fit.
pub uninterp spec fn qr_encoding(data: Seq<u8>) -> Option<(nat, Seq<bool>)>;

/// Encodes `data` with `qrcode::QrCode::new` (medium error correction, the
/// smallest version that fits) and keeps `width()` and the modules as
/// booleans (`to_vec`, dark is `true`). Besides naming the outcome, the
/// contract states what the crate's source shows of every code it builds:
/// `width * width` modules, and a width between 21 and 177 (versions 1 to 40).
#[verifier::external_body]
#[allow(deprecated)]
fn encode_qr(data: &[u8]) -> (r: Option<QrMatrix>)
    ensures
        match r {
            Some(m) => qr_encoding(data@) == Some((m.width as nat, m.dark@)) && m.dark@.len()
                == m.width * m.width && 21 <= m.width <= 177,
            None => qr_encoding(data@) is None,
        },
{
    match qrcode::QrCode::new(data) {
        Ok(code) => Some(QrMatrix { width: code.width(), dark: code.to_vec() }),
        Err(_) => None,
    }
}

/// The width of the quiet zone around the code.
pub const QUIET: usize = 2;

/// Whether module `(row, col)` of a `w`-wide code is dark; positions outside
/// the code are light.
pub open spec fn module_dark(dark: Seq<bool>, w: int, row: int, col: int) -> bool {
    0 <= row < w && 0 <= col < w && row * w + col < dark.len() && dark[row * w + col]
}

/// Whether drawing position `(row, col)` lies in the quiet zone.
pub open spec fn in_quiet_zone(w: int, row: int, col: int) -> bool {
    row < 2 || row >= 2 + w || col < 2 || col >= 2 + w
}

/// The character drawn for rows `row` and `row + 1` at column `col`: the top
/// half is dark in the quiet zone or on a dark module, the bottom half only
/// on a dark module.
pub open spec fn qr_cell(dark: Seq<bool>, w: int, row: int, col: int) -> char {
    let top = in_quiet_zone(w, row, col) || module_dark(dark, w, row - 2, col - 2);
    let bottom = row + 1 < w + 4 && !in_quiet_zone(w, row + 1, col) && module_dark(
        dark,
        w,
        row + 1 - 2,
        col - 2,
    );
    if top && bottom {
        '█'
    } else if top {
        '▀'
    } else if bottom {
        '▄'
    } else {
        ' '
    }
}

/// The terminal line that draws rows `row` and `row + 1`.
pub open spec fn qr_line(dark: Seq<bool>, w: int, row: int) -> Seq<char> {
    Seq::new((w + 4) as nat, |col: int| qr_cell(dark, w, row, col))
}

/// The lines of the drawing of a `w`-wide code with its quiet zone.
pub open spec fn qr_lines(dark: Seq<bool>, w: int) -> Seq<Seq<char>> {
    Seq::new(((w + 5) / 2) as nat, |k: int| qr_line(dark, w, 2 * k))
}

/// What `render_qr` draws for `text`.
pub open spec fn qr_drawing(text: Seq<char>) -> Seq<Seq<char>> {
    match qr_encoding(vstd::utf8::encode_utf8(text)) {
        Some((w, dark)) => qr_lines(dark, w as int),
        None => seq!["QR unavailable for: "@ + text],
    }
}

/// Whether module `(row, col)` of a code of `qr_size` modules per side is
/// dark; positions outside the code are light.
pub fn qr_module_dark(colors: &Vec<bool>, qr_size: usize, row: usize, col: usize) -> (b: bool)
    requires
        qr_size * qr_size <= usize::MAX,
    ensures
        b == module_dark(colors@, qr_size as int, row as int, col as int),
{
    if row >= qr_size || col >= qr_size {
        return false;
    }
    assert(row * qr_size + col < qr_size * qr_size) by (nonlinear_arith)
        requires
            row < qr_size,
            col < qr_size,
    ;
    assert(row * qr_size <= qr_size * qr_size) by (nonlinear_arith)
        requires
            row < qr_size,
    ;
    let idx = row * qr_size + col;
    if idx < colors.len() {
        colors[idx]
    } else {
        false
    }
}

fn cell_str(top: bool, bottom: bool) -> (s: &'static str)
    ensures
        s@ == seq![
            if top && bottom {
                '█'
            } else if top {
                '▀'
            } else if bottom {
                '▄'
            } else {
                ' '
            },
        ],
{
    proof {
        reveal_strlit("█");
        reveal_strlit("▀");
        reveal_strlit("▄");
        reveal_strlit(" ");
    }
    let s = if top && bottom {
        "█"
    } else if top {
        "▀"
    } else if bottom {
        "▄"
    } else {
        " "
    };
    assert(s@ =~= seq![
        if top && bottom {
            '█'
        } else if top {
            '▀'
        } else if bottom {
            '▄'
        } else {
            ' '
        },
    ]);
    s
}

fn draw_line(colors: &Vec<bool>, qr_size: usize, row: usize) -> (line: String)
    requires
        21 <= qr_size <= 177,
        row < qr_size + 4,
    ensures
        line@ == qr_line(colors@, qr_size as int, row as int),
{
    let total = qr_size + 4;
    let mut line = String::new();
    let mut col: usize = 0;
    assert(qr_size * qr_size <= 177 * 177) by (nonlinear_arith)
        requires
            qr_size <= 177,
    ;
    while col < total
        invariant
            qr_size * qr_size <= 177 * 177,
            total == qr_size + 4,
            21 <= qr_size <= 177,
            row < total,
            col <= total,
            line@ =~= qr_line(colors@, qr_size as int, row as int).take(col as int),
        decreases total - col,
    {
        let in_quiet = row < QUIET || row >= QUIET + qr_size || col < QUIET || col >= QUIET
            + qr_size;
        let top = in_quiet || qr_module_dark(colors, qr_size, row - QUIET, col - QUIET);
        let bottom = row + 1 < total && !(row + 1 < QUIET || row + 1 >= QUIET + qr_size || col
            < QUIET || col >= QUIET + qr_size) && qr_module_dark(
            colors,
            qr_size,
            row + 1 - QUIET,
            col - QUIET,
        );
        let ghost before = line@;
        line.append(cell_str(top, bottom));
        proof {
            assert(qr_line(colors@, qr_size as int, row as int).take(col + 1) =~= before.push(
                qr_cell(colors@, qr_size as int, row as int, col as int),
            ));
        }
        col = col + 1;
    }
    line
}

/// Render a URL as a terminal QR code. Returns a banner-shaped `TerminalQr`
/// even if the URL cannot be encoded: then a single line says so. An encoded
/// code is 21 to 177 modules wide, so every line of its drawing is 25 to 181
/// characters wide.
pub fn render_qr(text: &str) -> (qr: TerminalQr)
    ensures
        qr.lines@.map_values(|l: String| l@) == qr_drawing(text@),
        match qr_encoding(vstd::utf8::encode_utf8(text@)) {
            Some((w, dark)) => {
                &&& 21 <= w <= 177
                &&& dark.len() == w * w
                &&& qr.lines@.len() == (w + 5) / 2
                &&& forall|k: int|
                    0 <= k < qr.lines@.len() ==> (#[trigger] qr.lines@[k])@.len() == w + 4
            },
            None => qr.lines@.len() == 1,
        },
{
    let code = match encode_qr(text.as_bytes()) {
        Some(code) => code,
        None => {
            let mut lines: Vec<String> = Vec::new();
            lines.push(concat2("QR unavailable for: ", text));
            assert(lines@.map_values(|l: String| l@) =~= qr_drawing(text@));
            return TerminalQr { lines };
        },
    };
    let qr_size = code.width;
    let total = qr_size + 4;
    let mut lines: Vec<String> = Vec::new();
    let mut row: usize = 0;
    let ghost expected = qr_lines(code.dark@, qr_size as int);
    while row < total
        invariant
            total == qr_size + 4,
            code.dark@.len() == qr_size * qr_size,
            21 <= qr_size <= 177,
            row % 2 == 0,
            row <= total + 1,
            expected == qr_lines(code.dark@, qr_size as int),
            lines@.len() == row / 2,
            forall|k: int| 0 <= k < lines@.len() ==> (#[trigger] lines@[k])@ == expected[k],
        decreases total + 1 - row,
    {
        let line = draw_line(&code.dark, qr_size, row);
        lines.push(line);
        row = row + 2;
    }
    assert(lines@.map_values(|l: String| l@) =~= expected);
    proof {
        lemma_qr_drawing_shape(code.dark@, qr_size as int);
        assert forall|k: int| 0 <= k < lines@.len() implies (#[trigger] lines@[k])@.len()
            == qr_size + 4 by {
            assert(lines@[k]@ == expected[k]);
        }
    }
    TerminalQr { lines }
}

/// Every line of a QR drawing is as wide as the code plus its quiet zone,
/// the lines cover all module rows two by two, and only the four
/// half-block characters are used.
pub proof fn lemma_qr_drawing_shape(dark: Seq<bool>, w: int)
    requires
        w >= 0,
    ensures
        forall|k: int|
            0 <= k < qr_lines(dark, w).len() ==> (#[trigger] qr_lines(dark, w)[k]).len() == w
                + 4,
        qr_lines(dark, w).len() * 2 >= w + 4,
        forall|k: int, c: int|
            0 <= k < qr_lines(dark, w).len() && 0 <= c < w + 4 ==> {
                let ch = #[trigger] qr_lines(dark, w)[k][c];
                ch == '█' || ch == '▀' || ch == '▄' || ch == ' '
            },
{
}

/// Whether the upper half of a drawn character is dark.
pub open spec fn top_half_dark(ch: char) -> bool {
    ch == '█' || ch == '▀'
}

/// Whether the lower half of a drawn character is dark.
pub open spec fn bottom_half_dark(ch: char) -> bool {
    ch == '█' || ch == '▄'
}

/// Every module of the code is drawn once, where it belongs, so the drawing
/// scans back to the code: after a quiet zone of two module rows and two
/// columns, line `k` shows module row `2k - 2` in the upper halves of its
/// characters and module row `2k - 1` in the lower halves. So module
/// `(r, c)` sits at column `c + 2` of line `(r + 2) / 2`, in the upper half
/// when `r` is even and in the lower half when `r` is odd, dark exactly when
/// the module is.
pub proof fn lemma_qr_modules_drawn(dark: Seq<bool>, w: int, r: int, c: int)
    requires
        dark.len() == w * w,
        0 <= r < w,
        0 <= c < w,
    ensures
        ({
            let lines = qr_lines(dark, w);
            let k = (r + 2) / 2;
            &&& 0 <= k < lines.len()
            &&& lines[k].len() == w + 4
            &&& r % 2 == 0 ==> top_half_dark(lines[k][c + 2]) == dark[r * w + c]
            &&& r % 2 == 1 ==> bottom_half_dark(lines[k][c + 2]) == dark[r * w + c]
        }),
{
    assert(0 <= r * w + c < w * w) by (nonlinear_arith)
        requires
            0 <= r < w,
            0 <= c < w,
    ;
    let k = (r + 2) / 2;
    let lines = qr_lines(dark, w);
    assert(lines[k] == qr_line(dark, w, 2 * k));
    assert(lines[k][c + 2] == qr_cell(dark, w, 2 * k, c + 2));
    assert(module_dark(dark, w, r, c) == dark[r * w + c]);
}

/// The two columns on each side of the code are quiet zone: their characters
/// are dark in the upper half on every line, as are all characters of the
/// first line, which draws the two quiet rows above the code.
pub proof fn lemma_qr_quiet_zone(dark: Seq<bool>, w: int, k: int, c: int)
    requires
        w >= 0,
        0 <= k < qr_lines(dark, w).len(),
        0 <= c < w + 4,
        c < 2 || c >= w + 2 || k == 0,
    ensures
        top_half_dark(qr_lines(dark, w)[k][c]),
{
    let lines = qr_lines(dark, w);
    assert(lines[k] == qr_line(dark, w, 2 * k));
    assert(lines[k][c] == qr_cell(dark, w, 2 * k, c));
}

} // verus!
