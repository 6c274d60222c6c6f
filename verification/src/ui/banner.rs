//! The session banner: the public URL, the forwarding target and the status,
//! drawn in a box.

use vstd::prelude::*;

use crate::client::TunnelSession;
use crate::text::{
    concat3, decimal, lemma_repeat_len, lines_of, push_decimal, push_repeat, repeat, split_lines,
};
use crate::ui::log::{ANSI_CYAN, ANSI_GREEN, ANSI_YELLOW};

verus! {

#[derive(Debug, Clone, Copy)]
pub enum ConnectionStatus {
    Live,
    Connecting,
    Reconnecting { attempt: u32 },
}

/// The status text of a connection state.
pub open spec fn status_label_text(s: ConnectionStatus) -> Seq<char> {
    match s {
        ConnectionStatus::Live => "● LIVE"@,
        ConnectionStatus::Connecting => "◌ CONNECTING..."@,
        ConnectionStatus::Reconnecting { attempt } => "▲ RECONNECTING (Attempt "@ + decimal(
            attempt as nat,
        ) + ")..."@,
    }
}

/// The escape sequence of a connection state's colour.
pub open spec fn status_color(s: ConnectionStatus) -> Seq<char> {
    match s {
        ConnectionStatus::Live => ANSI_GREEN@,
        ConnectionStatus::Connecting => ANSI_CYAN@,
        ConnectionStatus::Reconnecting { .. } => ANSI_YELLOW@,
    }
}

impl ConnectionStatus {
    /// The status text and its colour.
    pub fn as_label(self) -> (r: (String, &'static str))
        ensures
            r.0@ == status_label_text(self),
            r.1@ == status_color(self),
    {
        match self {
            ConnectionStatus::Live => ("● LIVE".to_owned(), ANSI_GREEN),
            ConnectionStatus::Connecting => ("◌ CONNECTING...".to_owned(), ANSI_CYAN),
            ConnectionStatus::Reconnecting { attempt } => {
                let mut label = "▲ RECONNECTING (Attempt ".to_owned();
                push_decimal(&mut label, attempt as u64);
                label.append(")...");
                (label, ANSI_YELLOW)
            },
        }
    }
}

#[derive(Debug, Clone)]
pub struct Banner<'a> {
    pub public_url: &'a str,
    pub forwarding: &'a str,
    pub status: ConnectionStatus,
    pub relay: &'a str,
    pub version: &'a str,
}

impl<'a> Banner<'a> {
    pub fn new(
        public_url: &'a str,
        forwarding: &'a str,
        status: ConnectionStatus,
        relay: &'a str,
        version: &'a str,
    ) -> (b: Self)
        ensures
            b.public_url == public_url,
            b.forwarding == forwarding,
            b.status == status,
            b.relay == relay,
            b.version == version,
    {
        Banner { public_url, forwarding, status, relay, version }
    }
}

/// The text inside the box, before it is split into lines.
pub open spec fn content_text(
    public_url: Seq<char>,
    forwarding: Seq<char>,
    status: ConnectionStatus,
    relay: Seq<char>,
) -> Seq<char> {
    "\x1b[1;36mPublic URL :\x1b[0m  "@ + public_url + "\n\x1b[1;37mForwarding :\x1b[0m  "@
        + forwarding + "\n\x1b[1;37mStatus     :\x1b[0m  "@ + status_color(status) + "\x1b[1m"@
        + status_label_text(status) + "  ("@ + relay + ")"@
}

/// The text inside the box of a banner.
pub open spec fn banner_content(b: Banner) -> Seq<char> {
    content_text(b.public_url@, b.forwarding@, b.status, b.relay@)
}

/// The widest of `ls`, in characters.
pub open spec fn max_width(ls: Seq<Seq<char>>) -> nat
    decreases ls.len(),
{
    if ls.len() == 0 {
        0
    } else {
        let w = max_width(ls.drop_last());
        if ls.last().len() > w {
            ls.last().len()
        } else {
            w
        }
    }
}

/// One row of the box: the line between two bars, padded to `width`.
pub open spec fn box_row(l: Seq<char>, width: nat) -> Seq<char> {
    "│"@ + l + repeat(" "@, (width - l.len()) as nat) + "│"@
}

/// The rows of the box, each followed by a newline.
pub open spec fn box_rows(ls: Seq<Seq<char>>, width: nat) -> Seq<char>
    decreases ls.len(),
{
    if ls.len() == 0 {
        Seq::empty()
    } else {
        box_rows(ls.drop_last(), width) + box_row(ls.last(), width) + "\n"@
    }
}

/// The whole banner: the title line, then the content in a box as wide as
/// its widest line.
pub open spec fn banner_text_of(
    public_url: Seq<char>,
    forwarding: Seq<char>,
    status: ConnectionStatus,
    relay: Seq<char>,
    version: Seq<char>,
) -> Seq<char> {
    let ls = lines_of(content_text(public_url, forwarding, status, relay));
    let w = max_width(ls);
    "localshare "@ + version + " • Share your local server instantly"@ + "\n"@ + "┌"@ + repeat(
        "─"@,
        w,
    ) + "┐"@ + "\n"@ + box_rows(ls, w) + "└"@ + repeat("─"@, w) + "┘"@ + "\n"@
}

/// The banner as printed.
pub open spec fn banner_text(b: Banner) -> Seq<char> {
    banner_text_of(b.public_url@, b.forwarding@, b.status, b.relay@, b.version@)
}

proof fn lemma_max_width(ls: Seq<Seq<char>>)
    ensures
        forall|i: int| 0 <= i < ls.len() ==> (#[trigger] ls[i]).len() <= max_width(ls),
    decreases ls.len(),
{
    if ls.len() > 0 {
        lemma_max_width(ls.drop_last());
        assert forall|i: int| 0 <= i < ls.len() implies (#[trigger] ls[i]).len() <= max_width(
            ls,
        ) by {
            if i < ls.len() - 1 {
                assert(ls.drop_last()[i] == ls[i]);
            }
        }
    }
}


/// Every row of a banner's box is exactly as wide as the widest line plus
/// the two bars, so the box is drawn without ragged edges.
pub proof fn lemma_banner_rows_aligned(b: Banner)
    ensures
        forall|i: int|
            0 <= i < lines_of(banner_content(b)).len() ==> (#[trigger] box_row(
                lines_of(banner_content(b))[i],
                max_width(lines_of(banner_content(b))),
            )).len() == max_width(lines_of(banner_content(b))) + 2,
{
    let ls = lines_of(banner_content(b));
    let w = max_width(ls);
    lemma_max_width(ls);
    reveal_strlit("│");
    reveal_strlit(" ");
    assert forall|i: int| 0 <= i < ls.len() implies (#[trigger] box_row(ls[i], w)).len() == w
        + 2 by {
        lemma_repeat_len(" "@, (w - ls[i].len()) as nat);
    }
}

impl<'a> Banner<'a> {
    /// The banner as it is printed.
    pub fn render(&self) -> (s: String)
        ensures
            s@ == banner_text(*self),
    {
        let (status_text, status_color) = self.status.as_label();
        let mut content = concat3("\x1b[1;36mPublic URL :\x1b[0m  ", self.public_url, "\n\x1b[1;37mForwarding :\x1b[0m  ");
        content.append(self.forwarding);
        content.append("\n\x1b[1;37mStatus     :\x1b[0m  ");
        content.append(status_color);
        content.append("\x1b[1m");
        content.append(status_text.as_str());
        content.append("  (");
        content.append(self.relay);
        content.append(")");
        assert(content@ =~= banner_content(*self));
        let lines = split_lines(content.as_str());
        let ghost ls = lines@.map_values(|l: String| l@);
        let mut w: usize = 0;
        let mut i: usize = 0;
        assert(ls.subrange(0, 0) =~= Seq::<Seq<char>>::empty());
        while i < lines.len()
            invariant
                i <= lines@.len(),
                ls == lines@.map_values(|l: String| l@),
                w == max_width(ls.subrange(0, i as int)),
            decreases lines@.len() - i,
        {
            let n = lines[i].as_str().unicode_len();
            assert(ls.subrange(0, i + 1).drop_last() =~= ls.subrange(0, i as int));
            if n > w {
                w = n;
            }
            i = i + 1;
        }
        assert(ls.subrange(0, lines@.len() as int) =~= ls);
        let mut s = concat3("localshare ", self.version, " • Share your local server instantly");
        s.append("\n");
        s.append("┌");
        push_repeat(&mut s, "─", w);
        s.append("┐");
        s.append("\n");
        let ghost head = s@;
        proof {
            lemma_max_width(ls);
        }
        let mut j: usize = 0;
        assert(s@ =~= head + box_rows(ls.subrange(0, 0), w as nat));
        while j < lines.len()
            invariant
                j <= lines@.len(),
                ls == lines@.map_values(|l: String| l@),
                w == max_width(ls),
                forall|k: int| 0 <= k < ls.len() ==> (#[trigger] ls[k]).len() <= w,
                s@ == head + box_rows(ls.subrange(0, j as int), w as nat),
            decreases lines@.len() - j,
        {
            let line = lines[j].as_str();
            let n = line.unicode_len();
            assert(ls[j as int] == line@);
            assert(n <= w);
            let ghost before = s@;
            s.append("│");
            s.append(line);
            push_repeat(&mut s, " ", w - n);
            s.append("│");
            s.append("\n");
            proof {
                assert(ls[j as int] == line@);
                assert(ls.subrange(0, j + 1).drop_last() =~= ls.subrange(0, j as int));
                assert(s@ =~= before + box_row(line@, w as nat) + "\n"@);
                assert(s@ =~= head + box_rows(ls.subrange(0, j + 1), w as nat));
            }
            j = j + 1;
        }
        assert(ls.subrange(0, lines@.len() as int) =~= ls);
        s.append("└");
        push_repeat(&mut s, "─", w);
        s.append("┘");
        s.append("\n");
        assert(s@ =~= banner_text(*self));
        s
    }
}

/// The banner of a live session.
pub fn session_to_banner<'a>(
    session: &'a TunnelSession,
    forwarding: &'a str,
    relay: &'a str,
    version: &'a str,
) -> (b: Banner<'a>)
    ensures
        b.public_url@ == session.public_url@,
        b.forwarding == forwarding,
        b.status == ConnectionStatus::Live,
        b.relay == relay,
        b.version == version,
{
    Banner::new(session.public_url.as_str(), forwarding, ConnectionStatus::Live, relay, version)
}

} // verus!
