//! The text that the panels and dialogs show, as lines of toned pieces: which words are
//! drawn, in which colour of the palette, and whether bold. Drawing them is left to the
//! terminal layer.

use vstd::prelude::*;
use crate::manager::types::{ClientEntry, DeviceInfo, NetworkInfo, ServerEntry};
use crate::text::{decimal, push_decimal, push_str};
use crate::ipv4::{ipv4_text, format_ipv4};
use crate::tui::app::Mode;

verus! {

/// A colour of the palette (`Plain` is the terminal's own).
#[derive(Clone, Copy, Debug, PartialEq, Eq, Structural)]
pub enum Hue {
    Plain,
    Primary,
    Secondary,
    Muted,
    Cyan,
    Magenta,
    Orange,
    Teal,
    Yellow,
    Red,
    Green,
    Blue,
}

/// How a piece of text is drawn: its colour and whether it is bold.
#[derive(Clone, Copy, Debug, PartialEq, Eq, Structural)]
pub struct Tone {
    pub hue: Hue,
    pub bold: bool,
}

/// A piece of text with its tone.
#[derive(Debug)]
pub struct Segment {
    pub text: String,
    pub tone: Tone,
}

/// The tone of regular text in `hue`.
pub open spec fn plain(hue: Hue) -> Tone {
    Tone { hue, bold: false }
}

/// The tone of bold text in `hue`.
pub open spec fn bold(hue: Hue) -> Tone {
    Tone { hue, bold: true }
}

/// Text and tone of a piece.
pub open spec fn seg_view(s: Segment) -> (Seq<char>, Tone) {
    (s.text@, s.tone)
}

/// Text and tone of each piece of a line.
pub open spec fn line_view(l: Seq<Segment>) -> Seq<(Seq<char>, Tone)> {
    l.map_values(|s: Segment| seg_view(s))
}

/// Text and tone of each piece of each line.
pub open spec fn lines_view(ls: Seq<Vec<Segment>>) -> Seq<Seq<(Seq<char>, Tone)>> {
    ls.map_values(|l: Vec<Segment>| line_view(l@))
}

fn seg(text: &str, hue: Hue, is_bold: bool) -> (r: Segment)
    ensures
        seg_view(r) == (text@, Tone { hue, bold: is_bold }),
{
    Segment { text: text.to_owned(), tone: Tone { hue, bold: is_bold } }
}

fn seg_owned(text: String, hue: Hue, is_bold: bool) -> (r: Segment)
    ensures
        seg_view(r) == (text@, Tone { hue, bold: is_bold }),
{
    Segment { text, tone: Tone { hue, bold: is_bold } }
}

fn line1(a: Segment) -> (r: Vec<Segment>)
    ensures
        line_view(r@) == seq![seg_view(a)],
{
    let mut r: Vec<Segment> = Vec::new();
    r.push(a);
    proof {
        assert(line_view(r@) =~= seq![seg_view(a)]);
    }
    r
}

fn line2(a: Segment, b: Segment) -> (r: Vec<Segment>)
    ensures
        line_view(r@) == seq![seg_view(a), seg_view(b)],
{
    let mut r: Vec<Segment> = Vec::new();
    r.push(a);
    r.push(b);
    proof {
        assert(line_view(r@) =~= seq![seg_view(a), seg_view(b)]);
    }
    r
}

/// A labelled value of the detail panel: the label in the secondary colour, the value in
/// the primary one.
pub open spec fn field_line(label: Seq<char>, value: Seq<char>) -> Seq<(Seq<char>, Tone)> {
    seq![(label, plain(Hue::Secondary)), (value, plain(Hue::Primary))]
}

fn field(label: &str, value: &str) -> (r: Vec<Segment>)
    ensures
        line_view(r@) == field_line(label@, value@),
{
    line2(seg(label, Hue::Secondary, false), seg(value, Hue::Primary, false))
}

fn decimal_text(n: u64) -> (r: String)
    ensures
        r@ == decimal(n as nat),
{
    let mut s = String::new();
    push_decimal(&mut s, n);
    proof {
        assert(s@ =~= decimal(n as nat));
    }
    s
}

/// The lines of the detail panel for a device.
pub open spec fn detail_spec(info: DeviceInfo) -> Seq<Seq<(Seq<char>, Tone)>> {
    match info {
        DeviceInfo::Server { name, ip, public_ip, listen_port, private_key, public_key, preshared_keys_count } => seq![
            seq![("\u{25A0} Server: "@, bold(Hue::Cyan)), (name@, bold(Hue::Primary))],
            field_line("Internal IP:  "@, ip@),
            field_line("Public IP:    "@, public_ip@),
            field_line("Port:         "@, decimal(listen_port as nat)),
            field_line("Private Key:  "@, private_key@),
            field_line("Public Key:   "@, public_key@),
            field_line("PSK Count:    "@, decimal(preshared_keys_count as nat)),
        ],
        DeviceInfo::Client { name, ip, private_key, public_key } => seq![
            seq![("\u{25CF} Client: "@, bold(Hue::Magenta)), (name@, bold(Hue::Primary))],
            field_line("Internal IP:  "@, ip@),
            field_line("Private Key:  "@, private_key@),
            field_line("Public Key:   "@, public_key@),
        ],
    }
}

/// The lines that the detail panel shows for a device.
pub fn device_detail_lines(info: &DeviceInfo) -> (r: Vec<Vec<Segment>>)
    ensures
        lines_view(r@) == detail_spec(*info),
{
    let mut r: Vec<Vec<Segment>> = Vec::new();
    match info {
        DeviceInfo::Server { name, ip, public_ip, listen_port, private_key, public_key, preshared_keys_count } => {
            r.push(line2(seg("\u{25A0} Server: ", Hue::Cyan, true), seg(name.as_str(), Hue::Primary, true)));
            r.push(field("Internal IP:  ", ip.as_str()));
            r.push(field("Public IP:    ", public_ip.as_str()));
            let port = decimal_text(*listen_port as u64);
            r.push(field("Port:         ", port.as_str()));
            r.push(field("Private Key:  ", private_key.as_str()));
            r.push(field("Public Key:   ", public_key.as_str()));
            let count = decimal_text(*preshared_keys_count as u64);
            r.push(field("PSK Count:    ", count.as_str()));
        },
        DeviceInfo::Client { name, ip, private_key, public_key } => {
            r.push(line2(seg("\u{25CF} Client: ", Hue::Magenta, true), seg(name.as_str(), Hue::Primary, true)));
            r.push(field("Internal IP:  ", ip.as_str()));
            r.push(field("Private Key:  ", private_key.as_str()));
            r.push(field("Public Key:   ", public_key.as_str()));
        },
    }
    proof {
        assert(lines_view(r@) =~= detail_spec(*info));
    }
    r
}

/// A row of the device table: the type label in its colour, then the name and the
/// address in the primary colour.
pub open spec fn device_row(label: Seq<char>, hue: Hue, name: Seq<char>, ip: Seq<char>) -> Seq<(Seq<char>, Tone)> {
    seq![(label, plain(hue)), (name, plain(Hue::Primary)), (ip, plain(Hue::Primary))]
}

/// The rows of the device table: one per server (`Server`, cyan), then one per client
/// (`Client`, magenta), each in list order.
pub open spec fn device_table_spec(servers: Seq<ServerEntry>, clients: Seq<ClientEntry>) -> Seq<Seq<(Seq<char>, Tone)>> {
    servers.map_values(|s: ServerEntry| device_row("Server"@, Hue::Cyan, s.name@, s.ip@))
        + clients.map_values(|c: ClientEntry| device_row("Client"@, Hue::Magenta, c.name@, c.ip@))
}

fn row3(label: &str, hue: Hue, name: &str, ip: &str) -> (r: Vec<Segment>)
    ensures
        line_view(r@) == device_row(label@, hue, name@, ip@),
{
    let mut r: Vec<Segment> = Vec::new();
    r.push(seg(label, hue, false));
    r.push(seg(name, Hue::Primary, false));
    r.push(seg(ip, Hue::Primary, false));
    proof {
        assert(line_view(r@) =~= device_row(label@, hue, name@, ip@));
    }
    r
}

/// The rows that the device list shows, servers first, then clients.
pub fn device_table_rows(servers: &Vec<ServerEntry>, clients: &Vec<ClientEntry>) -> (r: Vec<Vec<Segment>>)
    ensures
        lines_view(r@) == device_table_spec(servers@, clients@),
{
    let mut r: Vec<Vec<Segment>> = Vec::new();
    let mut i: usize = 0;
    while i < servers.len()
        invariant
            i <= servers@.len(),
            r@.len() == i,
            forall|k: int| 0 <= k < i ==> line_view(#[trigger] r@[k]@)
                == device_row("Server"@, Hue::Cyan, servers@[k].name@, servers@[k].ip@),
        decreases servers@.len() - i,
    {
        let s = &servers[i];
        let row = row3("Server", Hue::Cyan, s.name.as_str(), s.ip.as_str());
        r.push(row);
        i = i + 1;
    }
    let n = r.len();
    let mut j: usize = 0;
    while j < clients.len()
        invariant
            n == servers@.len(),
            j <= clients@.len(),
            r@.len() == n + j,
            forall|k: int| 0 <= k < n ==> line_view(#[trigger] r@[k]@)
                == device_row("Server"@, Hue::Cyan, servers@[k].name@, servers@[k].ip@),
            forall|k: int| n <= k < n + j ==> line_view(#[trigger] r@[k]@)
                == device_row("Client"@, Hue::Magenta, clients@[k - n].name@, clients@[k - n].ip@),
        decreases clients@.len() - j,
    {
        let c = &clients[j];
        let row = row3("Client", Hue::Magenta, c.name.as_str(), c.ip.as_str());
        r.push(row);
        j = j + 1;
    }
    proof {
        let want = device_table_spec(servers@, clients@);
        assert forall|k: int| 0 <= k < r@.len() implies #[trigger] lines_view(r@)[k] == want[k] by {
            if k < n {
                assert(line_view(r@[k]@) == device_row("Server"@, Hue::Cyan, servers@[k].name@, servers@[k].ip@));
            } else {
                assert(line_view(r@[k]@) == device_row("Client"@, Hue::Magenta, clients@[k - n].name@, clients@[k - n].ip@));
            }
        }
        assert(lines_view(r@) =~= want);
    }
    r
}

} // verus!

verus! {

/// A heading of the help overlay.
pub open spec fn section_line(t: Seq<char>) -> Seq<(Seq<char>, Tone)> {
    seq![(t, bold(Hue::Orange))]
}

/// A key binding of the help overlay: the keys in bold teal, what they do in the secondary
/// colour.
pub open spec fn binding_line(keys: Seq<char>, what: Seq<char>) -> Seq<(Seq<char>, Tone)> {
    seq![(keys, bold(Hue::Teal)), (what, plain(Hue::Secondary))]
}

fn empty_line() -> (r: Vec<Segment>)
    ensures
        line_view(r@) == Seq::<(Seq<char>, Tone)>::empty(),
{
    let r: Vec<Segment> = Vec::new();
    proof {
        assert(line_view(r@) =~= Seq::<(Seq<char>, Tone)>::empty());
    }
    r
}

fn binding(keys: &str, what: &str) -> (r: Vec<Segment>)
    ensures
        line_view(r@) == binding_line(keys@, what@),
{
    line2(seg(keys, Hue::Teal, true), seg(what, Hue::Secondary, false))
}

/// The lines of the help overlay.
pub open spec fn help_spec() -> Seq<Seq<(Seq<char>, Tone)>> {
    seq![
        section_line(" Navigation"@),
        binding_line("  TAB / SHIFT+TAB  "@, "Switch Panel"@),
        binding_line("  UP/K  DOWN/J     "@, "Navigate List / Scroll Config"@),
        binding_line("  HOME / END       "@, "First / Last Device"@),
        Seq::<(Seq<char>, Tone)>::empty(),
        section_line(" Network"@),
        binding_line("  CTRL+I           "@, "Initialize / Reinitialize Network"@),
        binding_line("  CTRL+E           "@, "Edit Network Config"@),
        binding_line("  CTRL+O           "@, "Edit Export Directory"@),
        Seq::<(Seq<char>, Tone)>::empty(),
        section_line(" Device List"@),
        binding_line("  A                "@, "Add New Device"@),
        binding_line("  E                "@, "Edit Selected Device"@),
        binding_line("  D                "@, "Delete Selected Device"@),
        binding_line("  S                "@, "Generate Device Config"@),
        binding_line("  G                "@, "Generate All Configs"@),
        binding_line("  PGUP / PGDN      "@, "Scroll Device Detail"@),
        Seq::<(Seq<char>, Tone)>::empty(),
        section_line(" Forms / Modals"@),
        binding_line("  TAB / SHIFT+TAB  "@, "Next / Previous Field"@),
        binding_line("  ENTER            "@, "Submit / Next Field"@),
        binding_line("  ESC              "@, "Cancel / Close"@),
        Seq::<(Seq<char>, Tone)>::empty(),
        binding_line("  ?                "@, "Help"@),
        binding_line("  Q                "@, "Quit"@),
        binding_line("  CTRL+C           "@, "Force Quit"@),
    ]
}

/// The lines that the help overlay shows: the key bindings, grouped by where they apply.
pub fn help_text_lines() -> (r: Vec<Vec<Segment>>)
    ensures
        lines_view(r@) == help_spec(),
{
    let mut r: Vec<Vec<Segment>> = Vec::new();
    r.push(line1(seg(" Navigation", Hue::Orange, true)));
    r.push(binding("  TAB / SHIFT+TAB  ", "Switch Panel"));
    r.push(binding("  UP/K  DOWN/J     ", "Navigate List / Scroll Config"));
    r.push(binding("  HOME / END       ", "First / Last Device"));
    r.push(empty_line());
    r.push(line1(seg(" Network", Hue::Orange, true)));
    r.push(binding("  CTRL+I           ", "Initialize / Reinitialize Network"));
    r.push(binding("  CTRL+E           ", "Edit Network Config"));
    r.push(binding("  CTRL+O           ", "Edit Export Directory"));
    r.push(empty_line());
    r.push(line1(seg(" Device List", Hue::Orange, true)));
    r.push(binding("  A                ", "Add New Device"));
    r.push(binding("  E                ", "Edit Selected Device"));
    r.push(binding("  D                ", "Delete Selected Device"));
    r.push(binding("  S                ", "Generate Device Config"));
    r.push(binding("  G                ", "Generate All Configs"));
    r.push(binding("  PGUP / PGDN      ", "Scroll Device Detail"));
    r.push(empty_line());
    r.push(line1(seg(" Forms / Modals", Hue::Orange, true)));
    r.push(binding("  TAB / SHIFT+TAB  ", "Next / Previous Field"));
    r.push(binding("  ENTER            ", "Submit / Next Field"));
    r.push(binding("  ESC              ", "Cancel / Close"));
    r.push(empty_line());
    r.push(binding("  ?                ", "Help"));
    r.push(binding("  Q                ", "Quit"));
    r.push(binding("  CTRL+C           ", "Force Quit"));
    proof {
        assert(lines_view(r@) =~= help_spec());
    }
    r
}

} // verus!

verus! {

/// A configuration line whose trimmed text is a section header such as `[Peer]`.
pub open spec fn is_section(t: Seq<char>) -> bool {
    t.len() > 0 && t[0] == '[' && t.last() == ']'
}

/// `i` is the position of the first `=` of `l`.
pub open spec fn first_eq_at(l: Seq<char>, i: int) -> bool {
    &&& 0 <= i < l.len()
    &&& l[i] == '='
    &&& forall|j: int| 0 <= j < i ==> l[j] != '='
}

/// A line of the configuration preview: section headers in bold orange; for a setting, the
/// key up to the first `=` in teal, the `=` muted and the value in the primary colour;
/// anything else in the primary colour.
pub open spec fn config_line_spec(l: Seq<char>) -> Seq<(Seq<char>, Tone)> {
    if is_section(crate::text::trim(l)) {
        seq![(l, bold(Hue::Orange))]
    } else if exists|i: int| first_eq_at(l, i) {
        let p = choose|i: int| first_eq_at(l, i);
        seq![(l.take(p), plain(Hue::Teal)), ("="@, plain(Hue::Muted)), (l.skip(p + 1), plain(Hue::Primary))]
    } else {
        seq![(l, plain(Hue::Primary))]
    }
}

proof fn lemma_first_eq_unique(l: Seq<char>, i: int, k: int)
    requires
        first_eq_at(l, i),
        first_eq_at(l, k),
    ensures
        i == k,
{
    if i < k {
        assert(l[i] != '=');
    } else if k < i {
        assert(l[k] != '=');
    }
}

/// The pieces of one line of the configuration preview.
pub fn config_line_segments(line: &str) -> (r: Vec<Segment>)
    ensures
        line_view(r@) == config_line_spec(line@),
{
    let chars = crate::text::chars_of(line);
    let n = chars.len();
    let (a, b) = crate::text::trim_bounds(&chars, 0, n);
    proof {
        assert(chars@.subrange(0, n as int) =~= line@);
    }
    if b > a && chars[a] == '[' && chars[b - 1] == ']' {
        proof {
            let t = chars@.subrange(a as int, b as int);
            assert(t[0] == chars@[a as int]);
            assert(t.last() == chars@[b - 1]);
        }
        return line1(seg(line, Hue::Orange, true));
    }
    proof {
        let t = chars@.subrange(a as int, b as int);
        if t.len() > 0 {
            assert(t[0] == chars@[a as int]);
            assert(t.last() == chars@[b - 1]);
        }
    }
    let mut i: usize = 0;
    while i < n
        invariant
            n == chars@.len(),
            chars@ == line@,
            i <= n,
            forall|j: int| 0 <= j < i ==> chars@[j] != '=',
            !is_section(crate::text::trim(line@)),
        decreases n - i,
    {
        if chars[i] == '=' {
            let key = crate::text::string_of(&chars.as_slice()[0..i]);
            let value = crate::text::string_of(&chars.as_slice()[i + 1..n]);
            let mut r: Vec<Segment> = Vec::new();
            r.push(seg_owned(key, Hue::Teal, false));
            r.push(seg("=", Hue::Muted, false));
            r.push(seg_owned(value, Hue::Primary, false));
            proof {
                assert(first_eq_at(line@, i as int));
                let p = choose|k: int| first_eq_at(line@, k);
                lemma_first_eq_unique(line@, i as int, p);
                assert(chars@.subrange(0, i as int) =~= line@.take(i as int));
                assert(chars@.subrange(i + 1, n as int) =~= line@.skip(i + 1));
                assert(line_view(r@) =~= config_line_spec(line@));
            }
            return r;
        }
        i = i + 1;
    }
    proof {
        assert(!exists|k: int| first_eq_at(line@, k));
    }
    line1(seg(line, Hue::Primary, false))
}

} // verus!

verus! {

/// `l` without one trailing carriage return.
pub open spec fn strip_cr(l: Seq<char>) -> Seq<char> {
    if l.len() > 0 && l.last() == '\r' {
        l.drop_last()
    } else {
        l
    }
}

/// The lines of `s` as `str::lines` yields them: split at each `\n`, a `\r` before the
/// `\n` dropped, and no line after a final `\n`.
pub open spec fn text_lines(s: Seq<char>) -> Seq<Seq<char>> {
    let f = crate::text::fields(s, '\n');
    let ended = f.drop_last().map_values(|l: Seq<char>| strip_cr(l));
    if f.last().len() == 0 {
        ended
    } else {
        ended.push(f.last())
    }
}

/// The lines of the configuration preview for `content`, each highlighted as
/// [`config_line_spec`] says.
pub open spec fn preview_spec(content: Seq<char>) -> Seq<Seq<(Seq<char>, Tone)>> {
    text_lines(content).map_values(|l: Seq<char>| config_line_spec(l))
}

/// The highlighted lines of the configuration preview.
pub fn config_preview_lines(content: &str) -> (r: Vec<Vec<Segment>>)
    ensures
        lines_view(r@) == preview_spec(content@),
{
    let chars = crate::text::chars_of(content);
    let n = chars.len();
    let bounds = crate::text::split_bounds(&chars, 0, n, '\n');
    let ghost f = crate::text::fields(content@, '\n');
    proof {
        assert(chars@.subrange(0, n as int) =~= content@);
        crate::text::lemma_fields_nonempty(content@, '\n');
    }
    let m = bounds.len();
    let mut r: Vec<Vec<Segment>> = Vec::new();
    let mut k: usize = 0;
    while k + 1 < m
        invariant
            n == chars@.len(),
            chars@ == content@,
            f == crate::text::fields(content@, '\n'),
            m == bounds@.len(),
            m == f.len(),
            m >= 1,
            k + 1 <= m,
            forall|j: int| 0 <= j < bounds@.len() ==> 0 <= (#[trigger] bounds@[j]).0 <= bounds@[j].1 <= n,
            forall|j: int| 0 <= j < bounds@.len() ==> chars@.subrange((#[trigger] bounds@[j]).0 as int, bounds@[j].1 as int)
                == f[j],
            lines_view(r@) == f.drop_last().map_values(|l: Seq<char>| strip_cr(l)).take(k as int).map_values(
                |l: Seq<char>| config_line_spec(l),
            ),
        decreases m - k,
    {
        let (lo, hi) = bounds[k];
        let end = if hi > lo && chars[hi - 1] == '\r' { hi - 1 } else { hi };
        let text = crate::text::string_of(&chars.as_slice()[lo..end]);
        let line = config_line_segments(text.as_str());
        let ghost before = lines_view(r@);
        r.push(line);
        proof {
            let piece = chars@.subrange(lo as int, hi as int);
            assert(piece == f[k as int]);
            if hi > lo && chars@[hi - 1] == '\r' {
                assert(piece.last() == chars@[hi - 1]);
                assert(chars@.subrange(lo as int, end as int) =~= piece.drop_last());
            } else {
                if piece.len() > 0 {
                    assert(piece.last() == chars@[hi - 1]);
                }
                assert(chars@.subrange(lo as int, end as int) =~= piece);
            }
            assert(text@ == strip_cr(f[k as int]));
            let g = f.drop_last().map_values(|l: Seq<char>| strip_cr(l));
            assert(g[k as int] == strip_cr(f[k as int]));
            assert(g.take(k + 1) =~= g.take(k as int).push(g[k as int]));
            assert(lines_view(r@) =~= before.push(line_view(line@)));
            assert(lines_view(r@) =~= g.take(k + 1).map_values(|l: Seq<char>| config_line_spec(l)));
        }
        k = k + 1;
    }
    let (lo, hi) = bounds[m - 1];
    let ghost g = f.drop_last().map_values(|l: Seq<char>| strip_cr(l));
    proof {
        assert(g.take(k as int) =~= g);
        assert(chars@.subrange(lo as int, hi as int) == f.last());
    }
    if hi > lo {
        let text = crate::text::string_of(&chars.as_slice()[lo..hi]);
        let line = config_line_segments(text.as_str());
        let ghost before = lines_view(r@);
        r.push(line);
        proof {
            assert(lines_view(r@) =~= before.push(line_view(line@)));
            assert(lines_view(r@) =~= g.push(f.last()).map_values(|l: Seq<char>| config_line_spec(l)));
        }
    } else {
        proof {
            assert(f.last().len() == 0);
        }
    }
    r
}

} // verus!

verus! {

/// Columns taken by a log entry's time stamp and the space after it.
pub const STAMP_WIDTH: usize = 22;

/// `n` spaces.
pub open spec fn spaces(n: nat) -> Seq<char> {
    Seq::new(n, |i: int| ' ')
}

/// The lines of one log entry when messages wrap at `w` columns: the first piece after the
/// time stamp, each further piece indented by [`STAMP_WIDTH`] spaces; with no room to
/// wrap, or an empty message, the whole message on one line.
pub open spec fn entry_lines(ts: Seq<char>, msg: Seq<char>, w: nat) -> Seq<Seq<(Seq<char>, Tone)>> {
    let stamp = (ts + " "@, plain(Hue::Muted));
    if w == 0 || msg.len() == 0 {
        seq![seq![stamp, (msg, plain(Hue::Primary))]]
    } else {
        let cs = crate::tui::panels::chunks(msg, w);
        Seq::new(
            cs.len(),
            |i: int|
                if i == 0 {
                    seq![stamp, (cs[i], plain(Hue::Primary))]
                } else {
                    seq![(spaces(STAMP_WIDTH as nat), plain(Hue::Plain)), (cs[i], plain(Hue::Primary))]
                },
        )
    }
}

/// The lines of all log entries, oldest first.
pub open spec fn all_log_lines(logs: Seq<(String, String)>, w: nat) -> Seq<Seq<(Seq<char>, Tone)>>
    decreases logs.len(),
{
    if logs.len() == 0 {
        Seq::empty()
    } else {
        all_log_lines(logs.drop_last(), w) + entry_lines(logs.last().0@, logs.last().1@, w)
    }
}

/// What the log panel shows in an area of `width` by `height`: the last `height` lines of
/// the entries, wrapped to the width left after the time stamps.
pub open spec fn log_spec(logs: Seq<(String, String)>, width: nat, height: nat) -> Seq<Seq<(Seq<char>, Tone)>> {
    let w: nat = if width > STAMP_WIDTH { (width - STAMP_WIDTH) as nat } else { 0 };
    let all = all_log_lines(logs, w);
    if all.len() > height {
        all.skip(all.len() - height)
    } else {
        all
    }
}

fn space_text(n: usize) -> (r: String)
    ensures
        r@ == spaces(n as nat),
{
    let mut s = String::new();
    let mut i: usize = 0;
    while i < n
        invariant
            i <= n,
            s@ == spaces(i as nat),
        decreases n - i,
    {
        crate::text::push_char(&mut s, ' ');
        proof {
            assert(s@ =~= spaces((i + 1) as nat));
        }
        i = i + 1;
    }
    s
}

fn stamp_text(ts: &str) -> (r: String)
    ensures
        r@ == ts@ + " "@,
{
    let mut s = ts.to_owned();
    push_str(&mut s, " ");
    s
}

/// Appends the lines of one log entry.
fn push_entry_lines(r: &mut Vec<Vec<Segment>>, ts: &str, msg: &str, w: usize)
    ensures
        lines_view(final(r)@) == lines_view(old(r)@) + entry_lines(ts@, msg@, w as nat),
{
    let ghost before = lines_view(r@);
    if w == 0 || msg.is_empty() {
        r.push(line2(seg_owned(stamp_text(ts), Hue::Muted, false), seg(msg, Hue::Primary, false)));
        proof {
            assert(lines_view(r@) =~= before + entry_lines(ts@, msg@, w as nat));
        }
        return;
    }
    proof {
        assert(msg@.len() != 0);
    }
    let pieces = crate::tui::panels::char_chunks(msg, w);
    let ghost cs = crate::tui::panels::chunks(msg@, w as nat);
    let ghost el = entry_lines(ts@, msg@, w as nat);
    let m = pieces.len();
    proof {
        assert(pieces@.map_values(|x: String| x@).len() == m);
    }
    let mut j: usize = 0;
    while j < m
        invariant
            w > 0,
            msg@.len() > 0,
            m == pieces@.len(),
            pieces@.map_values(|x: String| x@) == cs,
            cs == crate::tui::panels::chunks(msg@, w as nat),
            el == entry_lines(ts@, msg@, w as nat),
            el.len() == m,
            j <= m,
            lines_view(r@) == before + el.take(j as int),
        decreases m - j,
    {
        let piece = pieces[j].clone();
        proof {
            assert(pieces@.map_values(|x: String| x@)[j as int] == pieces@[j as int]@);
        }
        let lead = if j == 0 {
            seg_owned(stamp_text(ts), Hue::Muted, false)
        } else {
            seg_owned(space_text(STAMP_WIDTH), Hue::Plain, false)
        };
        let ghost mid = lines_view(r@);
        let line = line2(lead, seg_owned(piece, Hue::Primary, false));
        r.push(line);
        proof {
            assert(el[j as int] == line_view(line@));
            assert(el.take(j + 1) =~= el.take(j as int).push(el[j as int]));
            assert(lines_view(r@) =~= mid.push(line_view(line@)));
        }
        j = j + 1;
    }
    proof {
        assert(el.take(m as int) =~= el);
    }
}

/// The lines that the log panel shows in an area of `width` columns and `height` rows.
pub fn log_view_lines(logs: &Vec<(String, String)>, width: u16, height: u16) -> (r: Vec<Vec<Segment>>)
    ensures
        lines_view(r@) == log_spec(logs@, width as nat, height as nat),
{
    let w: usize = if width as usize > STAMP_WIDTH { width as usize - STAMP_WIDTH } else { 0 };
    let mut all: Vec<Vec<Segment>> = Vec::new();
    let n = logs.len();
    let mut i: usize = 0;
    while i < n
        invariant
            n == logs@.len(),
            i <= n,
            lines_view(all@) == all_log_lines(logs@.take(i as int), w as nat),
        decreases n - i,
    {
        push_entry_lines(&mut all, logs[i].0.as_str(), logs[i].1.as_str(), w);
        proof {
            let t = logs@.take(i + 1);
            assert(t.drop_last() =~= logs@.take(i as int));
            assert(t.last() == logs@[i as int]);
        }
        i = i + 1;
    }
    proof {
        assert(logs@.take(n as int) =~= logs@);
    }
    let total = all.len();
    let skip = if total > height as usize { total - height as usize } else { 0 };
    let ghost av = lines_view(all@);
    let r = all.split_off(skip);
    proof {
        assert(lines_view(r@) =~= av.subrange(skip as int, total as int));
        assert(av.subrange(skip as int, total as int) =~= if av.len() > height { av.skip(av.len() - height) } else { av });
    }
    r
}

} // verus!

verus! {

/// The `[Y] Yes   [N] No` line of the confirmation dialogs.
pub open spec fn yes_no_line() -> Seq<(Seq<char>, Tone)> {
    seq![
        (" [Y] "@, bold(Hue::Red)),
        ("Yes   "@, plain(Hue::Secondary)),
        (" [N] "@, bold(Hue::Green)),
        ("No"@, plain(Hue::Secondary)),
    ]
}

fn yes_no() -> (r: Vec<Segment>)
    ensures
        line_view(r@) == yes_no_line(),
{
    let mut r: Vec<Segment> = Vec::new();
    r.push(seg(" [Y] ", Hue::Red, true));
    r.push(seg("Yes   ", Hue::Secondary, false));
    r.push(seg(" [N] ", Hue::Green, true));
    r.push(seg("No", Hue::Secondary, false));
    proof {
        assert(line_view(r@) =~= yes_no_line());
    }
    r
}

/// The text of the dialog that confirms deleting device `name` of type `device_type`.
pub open spec fn confirm_delete_spec(name: Seq<char>, device_type: Seq<char>) -> Seq<Seq<(Seq<char>, Tone)>> {
    seq![
        Seq::empty(),
        seq![
            ("Delete "@ + device_type + " "@, plain(Hue::Primary)),
            ("'"@ + name + "'"@, bold(Hue::Red)),
            ("?"@, plain(Hue::Primary)),
        ],
        Seq::empty(),
        yes_no_line(),
    ]
}

/// The lines of the dialog that confirms deleting a device.
pub fn confirm_delete_lines(name: &str, device_type: &str) -> (r: Vec<Vec<Segment>>)
    ensures
        lines_view(r@) == confirm_delete_spec(name@, device_type@),
{
    let mut what = "Delete ".to_owned();
    push_str(&mut what, device_type);
    push_str(&mut what, " ");
    let mut quoted = "'".to_owned();
    push_str(&mut quoted, name);
    push_str(&mut quoted, "'");
    let mut question: Vec<Segment> = Vec::new();
    question.push(seg_owned(what, Hue::Primary, false));
    question.push(seg_owned(quoted, Hue::Red, true));
    question.push(seg("?", Hue::Primary, false));
    proof {
        assert(line_view(question@) =~= confirm_delete_spec(name@, device_type@)[1]);
    }
    let mut r: Vec<Vec<Segment>> = Vec::new();
    r.push(empty_line());
    r.push(question);
    r.push(empty_line());
    r.push(yes_no());
    proof {
        assert(lines_view(r@) =~= confirm_delete_spec(name@, device_type@));
    }
    r
}

/// The text of the dialog that confirms reinitializing the network.
pub open spec fn confirm_reinit_spec() -> Seq<Seq<(Seq<char>, Tone)>> {
    seq![
        Seq::empty(),
        seq![("This will reset the network configuration."@, plain(Hue::Primary))],
        seq![("All existing devices will be removed!"@, bold(Hue::Red))],
        Seq::empty(),
        yes_no_line(),
    ]
}

/// The lines of the dialog that confirms reinitializing the network.
pub fn confirm_reinit_lines() -> (r: Vec<Vec<Segment>>)
    ensures
        lines_view(r@) == confirm_reinit_spec(),
{
    let mut r: Vec<Vec<Segment>> = Vec::new();
    r.push(empty_line());
    r.push(line1(seg("This will reset the network configuration.", Hue::Primary, false)));
    r.push(line1(seg("All existing devices will be removed!", Hue::Red, true)));
    r.push(empty_line());
    r.push(yes_no());
    proof {
        assert(lines_view(r@) =~= confirm_reinit_spec());
    }
    r
}

/// The text of the dialog that asks which kind of device to add.
pub open spec fn choose_device_spec() -> Seq<Seq<(Seq<char>, Tone)>> {
    seq![
        Seq::empty(),
        seq![("Choose device type:"@, plain(Hue::Primary))],
        Seq::empty(),
        seq![
            (" [S] "@, bold(Hue::Cyan)),
            ("Server   "@, plain(Hue::Secondary)),
            (" [C] "@, bold(Hue::Magenta)),
            ("Client   "@, plain(Hue::Secondary)),
            (" ESC "@, bold(Hue::Muted)),
            ("Cancel"@, plain(Hue::Muted)),
        ],
    ]
}

/// The lines of the dialog that asks which kind of device to add.
pub fn choose_device_lines() -> (r: Vec<Vec<Segment>>)
    ensures
        lines_view(r@) == choose_device_spec(),
{
    let mut keys: Vec<Segment> = Vec::new();
    keys.push(seg(" [S] ", Hue::Cyan, true));
    keys.push(seg("Server   ", Hue::Secondary, false));
    keys.push(seg(" [C] ", Hue::Magenta, true));
    keys.push(seg("Client   ", Hue::Secondary, false));
    keys.push(seg(" ESC ", Hue::Muted, true));
    keys.push(seg("Cancel", Hue::Muted, false));
    proof {
        assert(line_view(keys@) =~= choose_device_spec()[3]);
    }
    let mut r: Vec<Vec<Segment>> = Vec::new();
    r.push(empty_line());
    r.push(line1(seg("Choose device type:", Hue::Primary, false)));
    r.push(empty_line());
    r.push(keys);
    proof {
        assert(lines_view(r@) =~= choose_device_spec());
    }
    r
}

/// What the overview panel says before the network is initialized.
pub open spec fn not_initialized_spec() -> Seq<Seq<(Seq<char>, Tone)>> {
    seq![
        seq![("\u{26A0} "@, bold(Hue::Yellow)), ("Network not initialized"@, bold(Hue::Yellow))],
        seq![
            ("Press "@, plain(Hue::Secondary)),
            ("[CTRL+I]"@, bold(Hue::Yellow)),
            (" to initialize the network"@, plain(Hue::Secondary)),
        ],
    ]
}

/// The lines of the overview panel before the network is initialized.
pub fn not_initialized_lines() -> (r: Vec<Vec<Segment>>)
    ensures
        lines_view(r@) == not_initialized_spec(),
{
    let mut press: Vec<Segment> = Vec::new();
    press.push(seg("Press ", Hue::Secondary, false));
    press.push(seg("[CTRL+I]", Hue::Yellow, true));
    press.push(seg(" to initialize the network", Hue::Secondary, false));
    proof {
        assert(line_view(press@) =~= not_initialized_spec()[1]);
    }
    let mut r: Vec<Vec<Segment>> = Vec::new();
    r.push(line2(seg("\u{26A0} ", Hue::Yellow, true), seg("Network not initialized", Hue::Yellow, true)));
    r.push(press);
    proof {
        assert(lines_view(r@) =~= not_initialized_spec());
    }
    r
}

} // verus!

verus! {

/// `a - b - ...` of the range ends shown in the overview.
pub open spec fn span_text(a: u32, b: u32) -> Seq<char> {
    ipv4_text(a) + " - "@ + ipv4_text(b)
}

fn span(a: u32, b: u32) -> (r: String)
    ensures
        r@ == span_text(a, b),
{
    let mut s = format_ipv4(a);
    push_str(&mut s, " - ");
    let t = format_ipv4(b);
    push_str(&mut s, t.as_str());
    s
}

/// The subnet and address ranges at the top of the overview panel.
pub open spec fn overview_spec(info: NetworkInfo) -> Seq<Seq<(Seq<char>, Tone)>> {
    seq![
        seq![("Subnet:       "@, plain(Hue::Secondary)), (info.subnet@, bold(Hue::Primary))],
        seq![
            ("Server range: "@, plain(Hue::Secondary)),
            (span_text(info.server_start_ip, info.server_end_ip), plain(Hue::Primary)),
        ],
        seq![
            ("Client range: "@, plain(Hue::Secondary)),
            (span_text(info.client_start_ip, info.client_end_ip), plain(Hue::Primary)),
        ],
    ]
}

/// The lines at the top of the overview panel of an initialized network.
pub fn overview_lines(info: &NetworkInfo) -> (r: Vec<Vec<Segment>>)
    ensures
        lines_view(r@) == overview_spec(*info),
{
    let mut r: Vec<Vec<Segment>> = Vec::new();
    r.push(line2(seg("Subnet:       ", Hue::Secondary, false), seg(info.subnet.as_str(), Hue::Primary, true)));
    r.push(line2(
        seg("Server range: ", Hue::Secondary, false),
        seg_owned(span(info.server_start_ip, info.server_end_ip), Hue::Primary, false),
    ));
    r.push(line2(
        seg("Client range: ", Hue::Secondary, false),
        seg_owned(span(info.client_start_ip, info.client_end_ip), Hue::Primary, false),
    ));
    proof {
        assert(lines_view(r@) =~= overview_spec(*info));
    }
    r
}

/// The label of a capacity gauge: `count/capacity (free free)`, where the free places
/// are those of the capacity not taken (none when more are taken).
pub open spec fn capacity_text(count: u32, capacity: u32) -> Seq<char> {
    let free: nat = if capacity > count { (capacity - count) as nat } else { 0 };
    decimal(count as nat) + "/"@ + decimal(capacity as nat) + " ("@ + decimal(free) + " free)"@
}

/// The label of a capacity gauge.
pub fn capacity_label(count: u32, capacity: u32) -> (r: String)
    ensures
        r@ == capacity_text(count, capacity),
{
    let free = capacity.saturating_sub(count);
    let mut s = String::new();
    push_decimal(&mut s, count as u64);
    push_str(&mut s, "/");
    push_decimal(&mut s, capacity as u64);
    push_str(&mut s, " (");
    push_decimal(&mut s, free as u64);
    push_str(&mut s, " free)");
    proof {
        assert(s@ =~= capacity_text(count, capacity));
    }
    s
}

/// A hint bar: each key in bold orange followed by `:` and what it does, muted; two plain
/// spaces between consecutive pairs.
pub open spec fn hint_spec(pairs: Seq<(Seq<char>, Seq<char>)>) -> Seq<(Seq<char>, Tone)>
    decreases pairs.len(),
{
    if pairs.len() == 0 {
        Seq::empty()
    } else {
        let pre = hint_spec(pairs.drop_last());
        let sep = if pairs.len() > 1 { seq![("  "@, plain(Hue::Plain))] } else { Seq::empty() };
        pre + sep + seq![(pairs.last().0, bold(Hue::Orange)), (":"@ + pairs.last().1, plain(Hue::Muted))]
    }
}

/// The keys and descriptions of hint pairs.
pub open spec fn pair_views(pairs: Seq<(&str, &str)>) -> Seq<(Seq<char>, Seq<char>)> {
    pairs.map_values(|p: (&str, &str)| (p.0@, p.1@))
}

/// The pieces of a hint bar for `(key, description)` pairs.
pub fn hint_segments(pairs: &[(&str, &str)]) -> (r: Vec<Segment>)
    ensures
        line_view(r@) == hint_spec(pair_views(pairs@)),
{
    let mut r: Vec<Segment> = Vec::new();
    let n = pairs.len();
    let mut i: usize = 0;
    proof {
        assert(line_view(r@) =~= hint_spec(pair_views(pairs@).take(0)));
    }
    while i < n
        invariant
            n == pairs@.len(),
            i <= n,
            line_view(r@) == hint_spec(pair_views(pairs@).take(i as int)),
        decreases n - i,
    {
        let ghost pre = line_view(r@);
        let (key, desc) = pairs[i];
        if i > 0 {
            r.push(seg("  ", Hue::Plain, false));
        }
        r.push(seg(key, Hue::Orange, true));
        let mut d = ":".to_owned();
        push_str(&mut d, desc);
        r.push(seg_owned(d, Hue::Muted, false));
        proof {
            let t = pair_views(pairs@).take(i + 1);
            assert(t.drop_last() =~= pair_views(pairs@).take(i as int));
            assert(t.last() == (key@, desc@));
            assert(line_view(r@) =~= hint_spec(t));
        }
        i = i + 1;
    }
    proof {
        assert(pair_views(pairs@).take(n as int) =~= pair_views(pairs@));
    }
    r
}

/// The hint at the right of the status bar.
pub open spec fn status_hint() -> Seq<char> {
    "Q:Quit  ?:Help  TAB:Panel"@
}

/// The status bar in `width` columns: a green check mark and `Ready`, then the key hint
/// pushed right by spaces. The spaces are counted as the width less the UTF-8 lengths of
/// the left part (9 bytes) and of the hint (25 bytes), and none when that is negative.
pub open spec fn status_spec(width: nat) -> Seq<(Seq<char>, Tone)> {
    let pad: nat = if width > 34 { (width - 34) as nat } else { 0 };
    seq![
        ("\u{2714} "@, plain(Hue::Green)),
        ("Ready"@, plain(Hue::Primary)),
        (spaces(pad), plain(Hue::Plain)),
        (status_hint(), plain(Hue::Muted)),
    ]
}

/// The pieces of the status bar in `width` columns.
pub fn status_line(width: u16) -> (r: Vec<Segment>)
    ensures
        line_view(r@) == status_spec(width as nat),
{
    let icon = "\u{2714} ";
    let label = "Ready";
    let hint = "Q:Quit  ?:Help  TAB:Panel";
    let left_len: usize = 9;
    let hint_len: usize = 25;
    let pad = (width as usize).saturating_sub(left_len).saturating_sub(hint_len);
    let mut r: Vec<Segment> = Vec::new();
    r.push(seg(icon, Hue::Green, false));
    r.push(seg(label, Hue::Primary, false));
    r.push(seg_owned(space_text(pad), Hue::Plain, false));
    r.push(seg(hint, Hue::Muted, false));
    proof {
        assert(line_view(r@) =~= status_spec(width as nat));
    }
    r
}

} // verus!

verus! {

/// A rectangle of the terminal, in cells.
#[derive(Clone, Copy, Debug, PartialEq, Eq, Structural)]
pub struct Area {
    pub x: u16,
    pub y: u16,
    pub width: u16,
    pub height: u16,
}

/// `a + b`, or `u16::MAX` where that does not fit.
pub open spec fn sat_add(a: int, b: int) -> int {
    if a + b > u16::MAX { u16::MAX as int } else { a + b }
}

/// `a - b`, or 0 where that is negative.
pub open spec fn sat_sub(a: int, b: int) -> int {
    if a > b { a - b } else { 0 }
}

/// The smaller of `a` and `b`.
pub open spec fn min_of(a: int, b: int) -> int {
    if a < b { a } else { b }
}

/// A box of `width` by `height` centred in `area`, cut down to the area's size.
pub open spec fn centered_spec(width: u16, height: u16, area: Area) -> Area {
    Area {
        x: sat_add(area.x as int, sat_sub(area.width as int, width as int) / 2) as u16,
        y: sat_add(area.y as int, sat_sub(area.height as int, height as int) / 2) as u16,
        width: min_of(width as int, area.width as int) as u16,
        height: min_of(height as int, area.height as int) as u16,
    }
}

/// The box of `width` by `height` centred in `area` where dialogs are drawn.
pub fn centered(width: u16, height: u16, area: Area) -> (r: Area)
    ensures
        r == centered_spec(width, height, area),
{
    let x = area.x.saturating_add(area.width.saturating_sub(width) / 2);
    let y = area.y.saturating_add(area.height.saturating_sub(height) / 2);
    Area {
        x,
        y,
        width: if width < area.width { width } else { area.width },
        height: if height < area.height { height } else { area.height },
    }
}

/// The shadow of a dialog drawn at `area` on a screen of `screen_width` by
/// `screen_height`: two cells right and one down, clipped to the screen; none where
/// nothing of it is on screen.
pub open spec fn shadow_spec(area: Area, screen_width: u16, screen_height: u16) -> Option<Area> {
    let sx = sat_add(area.x as int, 2);
    let sy = sat_add(area.y as int, 1);
    if sx >= screen_width || sy >= screen_height {
        None
    } else {
        let w = min_of(area.width as int, sat_sub(screen_width as int, sx));
        let h = min_of(area.height as int, sat_sub(screen_height as int, sy));
        if w == 0 || h == 0 {
            None
        } else {
            Some(Area { x: sx as u16, y: sy as u16, width: w as u16, height: h as u16 })
        }
    }
}

/// Where the shadow of a dialog at `area` is drawn, if anywhere.
pub fn shadow_area(area: Area, screen_width: u16, screen_height: u16) -> (r: Option<Area>)
    ensures
        r == shadow_spec(area, screen_width, screen_height),
{
    let sx = area.x.saturating_add(2);
    let sy = area.y.saturating_add(1);
    if sx >= screen_width || sy >= screen_height {
        return None;
    }
    let room_w = screen_width.saturating_sub(sx);
    let room_h = screen_height.saturating_sub(sy);
    let w = if area.width < room_w { area.width } else { room_w };
    let h = if area.height < room_h { area.height } else { room_h };
    if w == 0 || h == 0 {
        return None;
    }
    Some(Area { x: sx, y: sy, width: w, height: h })
}

/// The size of a form dialog with `fields` fields on a screen `screen_width` wide: four
/// rows per field (label and boxed input) and six more (blank, buttons, border, padding),
/// saturated; 56 columns, or four less than the screen where that is narrower.
pub open spec fn form_size_spec(fields: nat, screen_width: u16) -> (u16, u16) {
    let n = if fields > u16::MAX { u16::MAX as int } else { fields as int };
    let rows = if n * 4 > u16::MAX { u16::MAX as int } else { n * 4 };
    (min_of(56, sat_sub(screen_width as int, 4)) as u16, sat_add(rows, 6) as u16)
}

/// Width and height of a form dialog.
pub fn form_size(fields: usize, screen_width: u16) -> (r: (u16, u16))
    ensures
        r == form_size_spec(fields as nat, screen_width),
{
    let n: u16 = if fields > u16::MAX as usize { u16::MAX } else { fields as u16 };
    let rows: u16 = if n > 16383 { u16::MAX } else { n * 4 };
    let height = rows.saturating_add(6);
    let room = screen_width.saturating_sub(4);
    let width: u16 = if room < 56 { room } else { 56 };
    (width, height)
}

/// The title of the form dialog open in `mode`, if a form is open.
pub open spec fn form_title_spec(mode: Mode) -> Option<Seq<char>> {
    match mode {
        Mode::InitNetwork => Some("Initialize Network"@),
        Mode::AddServer => Some("Add Server"@),
        Mode::AddClient => Some("Add Client"@),
        Mode::EditServer { name } => Some("Edit Server: "@ + name@),
        Mode::EditClient { name } => Some("Edit Client: "@ + name@),
        Mode::EditNetworkConfig => Some("Edit Network Config"@),
        _ => None,
    }
}

/// The title of the form dialog open in `mode`.
pub fn form_title(mode: &Mode) -> (r: Option<String>)
    ensures
        match r {
            Some(t) => form_title_spec(*mode) == Some(t@),
            None => form_title_spec(*mode) is None,
        },
{
    match mode {
        Mode::InitNetwork => Some("Initialize Network".to_owned()),
        Mode::AddServer => Some("Add Server".to_owned()),
        Mode::AddClient => Some("Add Client".to_owned()),
        Mode::EditServer { name } => {
            let mut t = "Edit Server: ".to_owned();
            push_str(&mut t, name.as_str());
            Some(t)
        },
        Mode::EditClient { name } => {
            let mut t = "Edit Client: ".to_owned();
            push_str(&mut t, name.as_str());
            Some(t)
        },
        Mode::EditNetworkConfig => Some("Edit Network Config".to_owned()),
        _ => None,
    }
}

/// The title of the configuration preview: the file of the selected device, if any.
pub open spec fn preview_title_spec(name: Option<String>) -> Seq<char> {
    match name {
        Some(n) => "Config: "@ + n@ + ".conf"@,
        None => "Config Preview"@,
    }
}

/// The title of the configuration preview panel.
pub fn preview_title(name: &Option<String>) -> (r: String)
    ensures
        r@ == preview_title_spec(*name),
{
    match name {
        Some(n) => {
            let mut t = "Config: ".to_owned();
            push_str(&mut t, n.as_str());
            push_str(&mut t, ".conf");
            t
        },
        None => "Config Preview".to_owned(),
    }
}

} // verus!
