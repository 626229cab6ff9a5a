//! Terminal table formatting of session lists, log previews and the process
//! exit codes.

use vstd::prelude::*;

use crate::error::PortalError;
use crate::selection::{AccountSessions, NamedSession};
use crate::text::{chars_of, owned, string_from_chars, views};
use crate::RunStatus;

verus! {

/// Terminal columns taken by one character: control characters take none,
/// common wide East Asian characters take two, everything else one.
pub open spec fn char_width(c: char) -> nat {
    let u = c as u32;
    if u <= 0x1f || (0x7f <= u && u <= 0x9f) {
        0
    } else if (0x1100 <= u && u <= 0x115f) || (0x2329 <= u && u <= 0x232a) || (0x2e80 <= u && u
        <= 0xa4cf) || (0xac00 <= u && u <= 0xd7a3) || (0xf900 <= u && u <= 0xfaff) || (0xfe10 <= u
        && u <= 0xfe19) || (0xfe30 <= u && u <= 0xfe6f) || (0xff00 <= u && u <= 0xff60) || (0xffe0
        <= u && u <= 0xffe6) || (0x20000 <= u && u <= 0x3fffd) {
        2
    } else {
        1
    }
}

/// Terminal columns taken by a text.
pub open spec fn text_width(s: Seq<char>) -> nat
    decreases s.len(),
{
    if s.len() == 0 {
        0
    } else {
        text_width(s.drop_last()) + char_width(s.last())
    }
}

/// Estimates terminal display width for one character.
pub fn char_display_width(value: char) -> (r: usize)
    ensures
        r == char_width(value),
{
    let u = value as u32;
    if u <= 0x1f || (0x7f <= u && u <= 0x9f) {
        0
    } else if (0x1100 <= u && u <= 0x115f) || (0x2329 <= u && u <= 0x232a) || (0x2e80 <= u && u
        <= 0xa4cf) || (0xac00 <= u && u <= 0xd7a3) || (0xf900 <= u && u <= 0xfaff) || (0xfe10 <= u
        && u <= 0xfe19) || (0xfe30 <= u && u <= 0xfe6f) || (0xff00 <= u && u <= 0xff60) || (0xffe0
        <= u && u <= 0xffe6) || (0x20000 <= u && u <= 0x3fffd) {
        2
    } else {
        1
    }
}

proof fn lemma_text_width_bound(s: Seq<char>)
    ensures
        text_width(s) <= 2 * s.len(),
    decreases s.len(),
{
    if s.len() > 0 {
        lemma_text_width_bound(s.drop_last());
    }
}

/// Calculates terminal display width for a string.
pub fn terminal_display_width(value: &str) -> (r: usize)
    requires
        value@.len() <= usize::MAX / 2,
    ensures
        r == text_width(value@),
{
    let cs = chars_of(value);
    let mut total: usize = 0;
    let mut i: usize = 0;
    while i < cs.len()
        invariant
            i <= cs@.len(),
            cs@ == value@,
            cs@.len() <= usize::MAX / 2,
            total == text_width(cs@.take(i as int)),
        decreases cs@.len() - i,
    {
        proof {
            assert(cs@.take(i + 1).drop_last() == cs@.take(i as int));
            lemma_text_width_bound(cs@.take(i as int));
        }
        total = total + char_display_width(cs[i]);
        i = i + 1;
    }
    assert(cs@.take(cs@.len() as int) == cs@);
    total
}

/// A text padded with spaces to at least `width` terminal columns.
pub open spec fn padded(s: Seq<char>, width: nat) -> Seq<char> {
    if text_width(s) >= width {
        s
    } else {
        s + Seq::new((width - text_width(s)) as nat, |i: int| ' ')
    }
}

/// Pads a string to a display width using spaces.
pub fn pad_display(value: &str, width: usize) -> (r: String)
    requires
        value@.len() <= usize::MAX / 2,
    ensures
        r@ == padded(value@, width as nat),
{
    let used = terminal_display_width(value);
    let padding = if width > used {
        width - used
    } else {
        0
    };
    let mut cs = chars_of(value);
    let ghost base = cs@;
    let mut k: usize = 0;
    while k < padding
        invariant
            k <= padding,
            cs@ == base + Seq::new(k as nat, |i: int| ' '),
        decreases padding - k,
    {
        cs.push(' ');
        k = k + 1;
        assert(cs@ =~= base + Seq::new(k as nat, |i: int| ' '));
    }
    assert(padding == 0 ==> cs@ =~= base);
    string_from_chars(cs.as_slice())
}

/// Returns a display name, falling back to `未知` for an empty name.
pub fn display_name(name: &str) -> (r: &str)
    ensures
        r@ == (if name@.len() == 0 {
            "未知"@
        } else {
            name@
        }),
{
    if name.is_empty() {
        "未知"
    } else {
        name
    }
}

/// Returns a display value, falling back to `-` for an empty value.
pub fn display_value(value: &str) -> (r: &str)
    ensures
        r@ == (if value@.len() == 0 {
            "-"@
        } else {
            value@
        }),
{
    if value.is_empty() {
        "-"
    } else {
        value
    }
}

/// The process exit code for a run status: none (success) when every target
/// succeeded, `1` on partial failure.
pub fn run_exit_code(status: RunStatus) -> (r: Option<u8>)
    ensures
        r == (match status {
            RunStatus::Success => None::<u8>,
            RunStatus::PartialFailure => Some(1u8),
        }),
{
    match status {
        RunStatus::Success => None,
        RunStatus::PartialFailure => Some(1),
    }
}

/// The process exit code for an error: `2` for invalid configuration, `1`
/// for runtime failures.
pub fn exit_code_for_error(err: &PortalError) -> (r: u8)
    ensures
        r == (if *err is InvalidConfig {
            2u8
        } else {
            1u8
        }),
{
    if err.is_invalid_config() {
        2
    } else {
        1
    }
}

/// The process exit code when the configuration cannot be loaded: `2` when
/// the file cannot be read or parsed or is invalid, `1` for anything else.
pub fn config_load_exit_code(err: &PortalError) -> (r: u8)
    ensures
        r == (if *err is ConfigRead || *err is ConfigParse || *err is InvalidConfig {
            2u8
        } else {
            1u8
        }),
{
    match err {
        PortalError::ConfigRead { .. } => 2,
        PortalError::ConfigParse { .. } => 2,
        PortalError::InvalidConfig(_) => 2,
        _ => 1,
    }
}

/// The first ten characters of a token, enough to relate log lines without
/// revealing the whole authorization token.
pub fn token_preview(token: Option<&str>) -> (r: Option<String>)
    ensures
        match token {
            None => r is None,
            Some(t) => r matches Some(p) && p@ == (if t@.len() <= 10 {
                t@
            } else {
                t@.take(10)
            }),
        },
{
    match token {
        None => None,
        Some(t) => {
            let cs = chars_of(t);
            let mut out: Vec<char> = Vec::new();
            let mut i: usize = 0;
            while i < cs.len() && i < 10
                invariant
                    i <= cs@.len(),
                    i <= 10,
                    cs@ == t@,
                    out@ == cs@.take(i as int),
                decreases cs@.len() - i,
            {
                out.push(cs[i]);
                i = i + 1;
                assert(out@ == cs@.take(i as int));
            }
            assert(t@.len() <= 10 ==> cs@.take(i as int) == t@);
            Some(string_from_chars(out.as_slice()))
        },
    }
}

// ---------------------------------------------------------------------------
// Session tables.

/// The text shown for a session name: the name, or `未知` when it is empty.
pub open spec fn shown_name(name: Seq<char>) -> Seq<char> {
    if name.len() == 0 {
        "未知"@
    } else {
        name
    }
}

/// The text shown for a session field: the value, or `-` when it is empty.
pub open spec fn shown_value(value: Seq<char>) -> Seq<char> {
    if value.len() == 0 {
        "-"@
    } else {
        value
    }
}

/// The header line of a session table.
pub open spec fn table_header() -> Seq<char> {
    padded("名称"@, 9) + "  "@ + padded("MAC"@, 18) + "  "@ + padded("IP"@, 15) + "  "@ + padded(
        "设备"@,
        8,
    ) + "  登录时间"@
}

/// The line of one session in a session table: name, MAC, IP and device
/// padded to their columns, then the login time.
pub open spec fn table_row(s: NamedSession) -> Seq<char> {
    padded(shown_name(s.name@), 9) + "  "@ + padded(s.mac@, 18) + "  "@ + padded(
        shown_value(s.user_ip@),
        15,
    ) + "  "@ + padded(shown_value(s.device_type@), 8) + "  "@ + shown_value(s.start_time@)
}

/// The lines of a session table: the header, then one line per session.
pub open spec fn table_lines(sessions: Seq<NamedSession>) -> Seq<Seq<char>> {
    seq![table_header()] + sessions.map_values(|s: NamedSession| table_row(s))
}

/// Whether the padded texts of a session are short enough to measure.
pub open spec fn measurable(s: NamedSession) -> bool {
    &&& s.name@.len() <= usize::MAX / 2
    &&& s.mac@.len() <= usize::MAX / 2
    &&& s.user_ip@.len() <= usize::MAX / 2
    &&& s.device_type@.len() <= usize::MAX / 2
}

/// The table line of one session.
fn session_row(s: &NamedSession) -> (r: String)
    requires
        measurable(*s),
    ensures
        r@ == table_row(*s),
{
    proof {
        reveal_strlit("未知");
        reveal_strlit("-");
    }
    let mut line = pad_display(display_name(s.name.as_str()), 9);
    line.append("  ");
    line.append(pad_display(s.mac.as_str(), 18).as_str());
    line.append("  ");
    line.append(pad_display(display_value(s.user_ip.as_str()), 15).as_str());
    line.append("  ");
    line.append(pad_display(display_value(s.device_type.as_str()), 8).as_str());
    line.append("  ");
    line.append(display_value(s.start_time.as_str()));
    line
}

/// Formats sessions as a terminal table: a header line, then one line per
/// session with its name (or `未知`), MAC, IP, device and login time (`-` for
/// an empty field), columns aligned by terminal width.
pub fn session_table(sessions: &Vec<NamedSession>) -> (r: Vec<String>)
    requires
        forall|i: int| 0 <= i < sessions@.len() ==> measurable(#[trigger] sessions@[i]),
    ensures
        views(r@) == table_lines(sessions@),
{
    proof {
        reveal_strlit("名称");
        reveal_strlit("MAC");
        reveal_strlit("IP");
        reveal_strlit("设备");
    }
    let mut header = pad_display("名称", 9);
    header.append("  ");
    header.append(pad_display("MAC", 18).as_str());
    header.append("  ");
    header.append(pad_display("IP", 15).as_str());
    header.append("  ");
    header.append(pad_display("设备", 8).as_str());
    header.append("  登录时间");
    let mut out: Vec<String> = Vec::new();
    out.push(header);
    let mut i: usize = 0;
    while i < sessions.len()
        invariant
            i <= sessions@.len(),
            forall|k: int| 0 <= k < sessions@.len() ==> measurable(#[trigger] sessions@[k]),
            views(out@) == table_lines(sessions@.take(i as int)),
        decreases sessions@.len() - i,
    {
        let line = session_row(&sessions[i]);
        let ghost before = out@;
        out.push(line);
        i = i + 1;
        proof {
            assert(views(before.push(line)) == views(before).push(line@));
            assert(sessions@.take(i as int).map_values(|s: NamedSession| table_row(s))
                == sessions@.take(i - 1).map_values(|s: NamedSession| table_row(s)).push(
                table_row(sessions@[i - 1]),
            ));
        }
    }
    assert(sessions@.take(sessions@.len() as int) == sessions@);
    out
}

/// The lines of grouped session tables: for each account, a blank line
/// (except before the first), `账号: ` and the username, then its table.
pub open spec fn account_lines(groups: Seq<AccountSessions>) -> Seq<Seq<char>>
    decreases groups.len(),
{
    if groups.len() == 0 {
        Seq::empty()
    } else {
        let prev = account_lines(groups.drop_last());
        let g = groups.last();
        let spaced = if groups.len() > 1 {
            prev.push(Seq::empty())
        } else {
            prev
        };
        spaced.push("账号: "@ + g.account@) + table_lines(g.sessions@)
    }
}

/// Formats the sessions of several accounts: each account's table under an
/// `账号: <username>` line, accounts separated by a blank line.
pub fn account_session_tables(groups: &Vec<AccountSessions>) -> (r: Vec<String>)
    requires
        forall|g: int, i: int|
            0 <= g < groups@.len() && 0 <= i < groups@[g].sessions@.len() ==> measurable(
                #[trigger] groups@[g].sessions@[i],
            ),
    ensures
        views(r@) == account_lines(groups@),
{
    let mut out: Vec<String> = Vec::new();
    let mut g: usize = 0;
    while g < groups.len()
        invariant
            g <= groups@.len(),
            forall|a: int, i: int|
                0 <= a < groups@.len() && 0 <= i < groups@[a].sessions@.len() ==> measurable(
                    #[trigger] groups@[a].sessions@[i],
                ),
            views(out@) == account_lines(groups@.take(g as int)),
        decreases groups@.len() - g,
    {
        let group = &groups[g];
        let ghost before = out@;
        if g > 0 {
            out.push(String::new());
        }
        let mut title = owned("账号: ");
        title.append(group.account.as_str());
        out.push(title);
        let ghost mid = out@;
        let table = session_table(&group.sessions);
        let mut t: usize = 0;
        while t < table.len()
            invariant
                t <= table@.len(),
                out@ == mid + table@.take(t as int),
            decreases table@.len() - t,
        {
            out.push(table[t].clone());
            t = t + 1;
            assert(out@ =~= mid + table@.take(t as int));
        }
        g = g + 1;
        proof {
            assert(table@.take(table@.len() as int) == table@);
            let gs = groups@.take(g as int);
            assert(gs.drop_last() == groups@.take(g - 1));
            assert(gs.last() == *group);
            assert(views(mid + table@) == views(mid) + views(table@));
            if g > 1 {
                assert(views(mid) == views(before).push(Seq::empty()).push("账号: "@ + group.account@));
            } else {
                assert(views(mid) == views(before).push("账号: "@ + group.account@));
            }
        }
    }
    assert(groups@.take(groups@.len() as int) == groups@);
    out
}

} // verus!
