//! Start-up banners, logos and information panels, in colour or plain text.

use vstd::prelude::*;
use crate::strutil::str_eq;
use crate::strutil::{push_str, push_char, push_u64_decimal, nat_decimal};

verus! {

/// Whether output may be coloured, from the environment: `NO_COLOR` set
/// turns colour off; `RUSTMINIDB_COLOR` forces it off (`0`, `false`, `off`,
/// `no`) or on (`1`, `true`, `on`, `yes`); otherwise Windows terminals have
/// colour, and elsewhere a `TERM` other than `dumb` does.
pub open spec fn colour_setting(no_color: bool, setting: Option<Seq<char>>, term: Option<Seq<char>>, windows: bool) -> bool {
    if no_color {
        false
    } else if setting matches Some(v) && (v == "0"@ || v == "false"@ || v == "off"@ || v == "no"@) {
        false
    } else if setting matches Some(v) && (v == "1"@ || v == "true"@ || v == "on"@ || v == "yes"@) {
        true
    } else if windows {
        true
    } else {
        term matches Some(t) && t != "dumb"@
    }
}

/// Whether output may be coloured (`colour_setting`).
pub fn colour_enabled(no_color: bool, setting: Option<&str>, term: Option<&str>, windows: bool) -> (r: bool)
    ensures
        r == colour_setting(no_color, match setting { Some(v) => Some(v@), None => None },
            match term { Some(t) => Some(t@), None => None }, windows),
{
    proof {
        reveal_strlit("0"); reveal_strlit("false"); reveal_strlit("off"); reveal_strlit("no");
        reveal_strlit("1"); reveal_strlit("true"); reveal_strlit("on"); reveal_strlit("yes");
        reveal_strlit("dumb");
    }
    if no_color {
        return false;
    }
    match setting {
        Some(v) => {
            if str_eq(v, "0") || str_eq(v, "false") || str_eq(v, "off") || str_eq(v, "no") {
                return false;
            }
            if str_eq(v, "1") || str_eq(v, "true") || str_eq(v, "on") || str_eq(v, "yes") {
                return true;
            }
        },
        None => {},
    }
    if windows {
        return true;
    }
    match term {
        Some(t) => !str_eq(t, "dumb"),
        None => false,
    }
}


broadcast use vstd::string::group_string_axioms;

/// The ANSI code that resets colours.
pub open spec fn reset() -> Seq<char> { "\x1b[0m"@ }
/// The ANSI code for bold text.
pub open spec fn bold() -> Seq<char> { "\x1b[1m"@ }
/// The ANSI code for dim text.
pub open spec fn dim() -> Seq<char> { "\x1b[2m"@ }
/// The ANSI code for cyan.
pub open spec fn cyan() -> Seq<char> { "\x1b[36m"@ }
/// The ANSI code for green.
pub open spec fn green() -> Seq<char> { "\x1b[32m"@ }
/// The ANSI code for yellow.
pub open spec fn yellow() -> Seq<char> { "\x1b[33m"@ }
/// The ANSI code for magenta.
pub open spec fn magenta() -> Seq<char> { "\x1b[35m"@ }
/// The ANSI code for blue.
pub open spec fn blue() -> Seq<char> { "\x1b[34m"@ }

fn reset_str() -> (s: &'static str) ensures s@ == reset() { "\x1b[0m" }
fn bold_str() -> (s: &'static str) ensures s@ == bold() { "\x1b[1m" }
fn dim_str() -> (s: &'static str) ensures s@ == dim() { "\x1b[2m" }
fn cyan_str() -> (s: &'static str) ensures s@ == cyan() { "\x1b[36m" }
fn green_str() -> (s: &'static str) ensures s@ == green() { "\x1b[32m" }
fn yellow_str() -> (s: &'static str) ensures s@ == yellow() { "\x1b[33m" }
fn magenta_str() -> (s: &'static str) ensures s@ == magenta() { "\x1b[35m" }
fn blue_str() -> (s: &'static str) ensures s@ == blue() { "\x1b[34m" }

/// The lines of the m logo.
pub open spec fn m_logo_lines() -> Seq<Seq<char>> {
    seq![""@, "    ██████╗"@, "    ██╔══██╗"@, "    ██████╔╝"@, "    ██╔══██╗"@, "    ██║  ██║"@, "    ╚═╝  ╚═╝"@]
}

fn m_logo_line(i: usize) -> (s: &'static str)
    requires
        i < 7,
    ensures
        s@ == m_logo_lines()[i as int],
{
    match i {
        0 => "",
        1 => "    ██████╗",
        2 => "    ██╔══██╗",
        3 => "    ██████╔╝",
        4 => "    ██╔══██╗",
        5 => "    ██║  ██║",
        _ => "    ╚═╝  ╚═╝",
    }
}

/// The lines of the logo.
pub open spec fn logo_lines() -> Seq<Seq<char>> {
    seq![""@, "  ╔══════════════════════════════════════════════════════╗"@, "  ║                                                      ║"@, "  ║    ██████╗ ██╗   ██╗███████╗████████╗               ║"@, "  ║    ██╔══██╗██║   ██║██╔════╝╚══██╔══╝               ║"@, "  ║    ██████╔╝██║   ██║███████╗   ██║                  ║"@, "  ║    ██╔══██╗██║   ██║╚════██║   ██║                  ║"@, "  ║    ██║  ██║╚██████╔╝███████║   ██║                  ║"@, "  ║    ╚═╝  ╚═╝ ╚═════╝ ╚══════╝   ╚═╝                  ║"@, "  ║                                                      ║"@, "  ║    ███╗   ███╗██╗███╗   ██╗██╗██████╗ ██████╗       ║"@, "  ║    ████╗ ████║██║████╗  ██║██║██╔══██╗██╔══██╗      ║"@, "  ║    ██╔████╔██║██║██╔██╗ ██║██║██████╔╝██████╔╝      ║"@, "  ║    ██║╚██╔╝██║██║██║╚██╗██║██║██╔══██╗██╔══██╗      ║"@, "  ║    ██║ ╚═╝ ██║██║██║ ╚████║██║██████╔╝██████╔╝      ║"@, "  ║    ╚═╝     ╚═╝╚═╝╚═╝  ╚═══╝╚═╝╚═════╝ ╚═════╝       ║"@, "  ║                                                      ║"@, "  ╚══════════════════════════════════════════════════════╝"@]
}

fn logo_line(i: usize) -> (s: &'static str)
    requires
        i < 18,
    ensures
        s@ == logo_lines()[i as int],
{
    match i {
        0 => "",
        1 => "  ╔══════════════════════════════════════════════════════╗",
        2 => "  ║                                                      ║",
        3 => "  ║    ██████╗ ██╗   ██╗███████╗████████╗               ║",
        4 => "  ║    ██╔══██╗██║   ██║██╔════╝╚══██╔══╝               ║",
        5 => "  ║    ██████╔╝██║   ██║███████╗   ██║                  ║",
        6 => "  ║    ██╔══██╗██║   ██║╚════██║   ██║                  ║",
        7 => "  ║    ██║  ██║╚██████╔╝███████║   ██║                  ║",
        8 => "  ║    ╚═╝  ╚═╝ ╚═════╝ ╚══════╝   ╚═╝                  ║",
        9 => "  ║                                                      ║",
        10 => "  ║    ███╗   ███╗██╗███╗   ██╗██╗██████╗ ██████╗       ║",
        11 => "  ║    ████╗ ████║██║████╗  ██║██║██╔══██╗██╔══██╗      ║",
        12 => "  ║    ██╔████╔██║██║██╔██╗ ██║██║██████╔╝██████╔╝      ║",
        13 => "  ║    ██║╚██╔╝██║██║██║╚██╗██║██║██╔══██╗██╔══██╗      ║",
        14 => "  ║    ██║ ╚═╝ ██║██║██║ ╚████║██║██████╔╝██████╔╝      ║",
        15 => "  ║    ╚═╝     ╚═╝╚═╝╚═╝  ╚═══╝╚═╝╚═════╝ ╚═════╝       ║",
        16 => "  ║                                                      ║",
        _ => "  ╚══════════════════════════════════════════════════════╝",
    }
}

/// The lines of the compact logo.
pub open spec fn compact_logo_lines() -> Seq<Seq<char>> {
    seq![""@, "   _  _  __  __  _  _  ___  _  _  ___"@, "  | \\| |/ _\\ \\/ / | \\| | _ \\| \\| | _ \\"@, "  | .` | (_ >  <  | .` |   /| .` |  _/"@, "  |_|\\_|\\___/_/\\_\\|_|\\_|_|_\\|_|\\_|_|"@]
}

fn compact_logo_line(i: usize) -> (s: &'static str)
    requires
        i < 5,
    ensures
        s@ == compact_logo_lines()[i as int],
{
    match i {
        0 => "",
        1 => "   _  _  __  __  _  _  ___  _  _  ___",
        2 => "  | \\| |/ _\\ \\/ / | \\| | _ \\| \\| | _ \\",
        3 => "  | .` | (_ >  <  | .` |   /| .` |  _/",
        _ => "  |_|\\_|\\___/_/\\_\\|_|\\_|_|_\\|_|\\_|_|",
    }
}

/// The colours of the lines of the small logo (the last one repeats).
pub open spec fn m_palette() -> Seq<Seq<char>> {
    seq![blue(), cyan(), magenta(), cyan(), blue(), magenta()]
}

/// The colours of the lines of the large logo (the last one repeats).
pub open spec fn logo_palette() -> Seq<Seq<char>> {
    seq![cyan(), cyan(), cyan(), cyan(), blue(), blue(), blue(), magenta(), cyan(), magenta(), magenta(), blue(),
        blue(), cyan(), cyan(), cyan(), cyan()]
}

fn m_colour(i: usize) -> (s: &'static str)
    ensures
        s@ == m_palette()[if i < 5 { i as int } else { 5 }],
{
    if i == 0 { blue_str() } else if i == 1 { cyan_str() } else if i == 2 { magenta_str() }
    else if i == 3 { cyan_str() } else if i == 4 { blue_str() } else { magenta_str() }
}

fn logo_colour(i: usize) -> (s: &'static str)
    ensures
        s@ == logo_palette()[if i < 16 { i as int } else { 16 }],
{
    if i <= 3 { cyan_str() } else if i <= 6 { blue_str() } else if i == 7 { magenta_str() } else if i == 8 { cyan_str() }
    else if i <= 10 { magenta_str() } else if i <= 12 { blue_str() } else { cyan_str() }
}

/// The lines, each followed by a line break.
pub open spec fn lines_text(ls: Seq<Seq<char>>) -> Seq<char>
    decreases ls.len(),
{
    if ls.len() == 0 { Seq::empty() } else { lines_text(ls.drop_last()) + ls.last() + "\n"@ }
}

/// The lines, each in its palette colour (the last colour repeating) and
/// followed by a reset and a line break.
pub open spec fn coloured_lines(ls: Seq<Seq<char>>, palette: Seq<Seq<char>>) -> Seq<char>
    decreases ls.len(),
{
    if ls.len() == 0 {
        Seq::empty()
    } else {
        let i = ls.len() - 1;
        let c = palette[if i < palette.len() - 1 { i } else { palette.len() - 1 }];
        coloured_lines(ls.drop_last(), palette) + c + ls.last() + reset() + "\n"@
    }
}

/// The small logo, plain.
pub fn m_logo_text() -> (r: String)
    ensures
        r@ == lines_text(m_logo_lines()),
{
    let mut out = String::new();
    let mut i: usize = 0;
    while i < 7
        invariant
            i <= 7,
            out@ == lines_text(m_logo_lines().take(i as int)),
        decreases 7 - i,
    {
        proof { assert(m_logo_lines().take(i + 1).drop_last() =~= m_logo_lines().take(i as int)); }
        push_str(&mut out, m_logo_line(i));
        push_str(&mut out, "\n");
        i += 1;
    }
    assert(m_logo_lines().take(7) =~= m_logo_lines());
    out
}

/// The small logo in colour.
pub fn coloured_m_logo() -> (r: String)
    ensures
        r@ == coloured_lines(m_logo_lines(), m_palette()),
{
    let mut out = String::new();
    let mut i: usize = 0;
    while i < 7
        invariant
            i <= 7,
            out@ == coloured_lines(m_logo_lines().take(i as int), m_palette()),
        decreases 7 - i,
    {
        proof { assert(m_logo_lines().take(i + 1).drop_last() =~= m_logo_lines().take(i as int)); }
        push_str(&mut out, m_colour(i));
        push_str(&mut out, m_logo_line(i));
        push_str(&mut out, reset_str());
        push_str(&mut out, "\n");
        i += 1;
    }
    assert(m_logo_lines().take(7) =~= m_logo_lines());
    out
}

/// The large logo, plain.
pub fn logo_text() -> (r: String)
    ensures
        r@ == lines_text(logo_lines()),
{
    let mut out = String::new();
    let mut i: usize = 0;
    while i < 18
        invariant
            i <= 18,
            out@ == lines_text(logo_lines().take(i as int)),
        decreases 18 - i,
    {
        proof { assert(logo_lines().take(i + 1).drop_last() =~= logo_lines().take(i as int)); }
        push_str(&mut out, logo_line(i));
        push_str(&mut out, "\n");
        i += 1;
    }
    assert(logo_lines().take(18) =~= logo_lines());
    out
}

/// The large logo in colour.
pub fn coloured_logo() -> (r: String)
    ensures
        r@ == coloured_lines(logo_lines(), logo_palette()),
{
    let mut out = String::new();
    let mut i: usize = 0;
    while i < 18
        invariant
            i <= 18,
            out@ == coloured_lines(logo_lines().take(i as int), logo_palette()),
        decreases 18 - i,
    {
        proof { assert(logo_lines().take(i + 1).drop_last() =~= logo_lines().take(i as int)); }
        push_str(&mut out, logo_colour(i));
        push_str(&mut out, logo_line(i));
        push_str(&mut out, reset_str());
        push_str(&mut out, "\n");
        i += 1;
    }
    assert(logo_lines().take(18) =~= logo_lines());
    out
}

/// The compact logo.
pub fn compact_logo_text() -> (r: String)
    ensures
        r@ == lines_text(compact_logo_lines()),
{
    let mut out = String::new();
    let mut i: usize = 0;
    while i < 5
        invariant
            i <= 5,
            out@ == lines_text(compact_logo_lines().take(i as int)),
        decreases 5 - i,
    {
        proof { assert(compact_logo_lines().take(i + 1).drop_last() =~= compact_logo_lines().take(i as int)); }
        push_str(&mut out, compact_logo_line(i));
        push_str(&mut out, "\n");
        i += 1;
    }
    assert(compact_logo_lines().take(5) =~= compact_logo_lines());
    out
}

/// The small logo, in colour when `colour` holds (what `print_m_icon` prints).
pub fn m_icon_text(colour: bool) -> (r: String)
    ensures
        r@ == if colour { coloured_lines(m_logo_lines(), m_palette()) } else { lines_text(m_logo_lines()) },
{
    if colour { coloured_m_logo() } else { m_logo_text() }
}

/// The logo with the version and storage lines.
pub open spec fn logo_with_info_spec(version: Seq<char>, detailed: bool, colour: bool) -> Seq<char> {
    let logo = if colour && detailed {
        coloured_lines(logo_lines(), logo_palette())
    } else if detailed {
        lines_text(logo_lines())
    } else {
        lines_text(compact_logo_lines())
    };
    if !detailed {
        logo + "\n RustMinidb v"@ + version + "  —  Embedded Relational Database\n"@
    } else {
        let info = if colour {
            " "@ + magenta() + "◈"@ + reset() + bold() + " RustMinidb v"@ + version + reset() + dim()
                + " — Embedded Relational Database"@ + reset() + "\n "@ + dim()
                + "  Homepage: https://rustminidb.dev   License: BSL-1.1"@ + reset() + "\n "@ + dim()
                + "  Storage: redb (single-file, ACID, MVCC)"@ + reset()
        } else {
            " ◈ RustMinidb v"@ + version + " — Embedded Relational Database\n Homepage: https://rustminidb.dev   License: BSL-1.1\n Storage: redb (single-file, ACID, MVCC)"@
        };
        logo + "\n"@ + info + "\n"@
    }
}

/// The logo with the version and storage lines.
pub fn logo_with_info(version: &str, detailed: bool, colour: bool) -> (r: String)
    ensures
        r@ == logo_with_info_spec(version@, detailed, colour),
{
    let mut out = if colour && detailed { coloured_logo() } else if detailed { logo_text() } else { compact_logo_text() };
    if !detailed {
        push_str(&mut out, "\n RustMinidb v");
        push_str(&mut out, version);
        push_str(&mut out, "  —  Embedded Relational Database\n");
        return out;
    }
    push_str(&mut out, "\n");
    if colour {
        push_str(&mut out, " ");
        push_str(&mut out, magenta_str());
        push_str(&mut out, "◈");
        push_str(&mut out, reset_str());
        push_str(&mut out, bold_str());
        push_str(&mut out, " RustMinidb v");
        push_str(&mut out, version);
        push_str(&mut out, reset_str());
        push_str(&mut out, dim_str());
        push_str(&mut out, " — Embedded Relational Database");
        push_str(&mut out, reset_str());
        push_str(&mut out, "\n ");
        push_str(&mut out, dim_str());
        push_str(&mut out, "  Homepage: https://rustminidb.dev   License: BSL-1.1");
        push_str(&mut out, reset_str());
        push_str(&mut out, "\n ");
        push_str(&mut out, dim_str());
        push_str(&mut out, "  Storage: redb (single-file, ACID, MVCC)");
        push_str(&mut out, reset_str());
    } else {
        push_str(&mut out, " ◈ RustMinidb v");
        push_str(&mut out, version);
        push_str(&mut out, " — Embedded Relational Database\n Homepage: https://rustminidb.dev   License: BSL-1.1\n Storage: redb (single-file, ACID, MVCC)");
    }
    push_str(&mut out, "\n");
    assert(out@ =~= logo_with_info_spec(version@, detailed, colour));
    out
}

/// The detailed banner of this version (what `print_banner` prints).
pub fn banner_text(colour: bool) -> (r: String)
    ensures
        r@ == logo_with_info_spec("0.2.0"@, true, colour),
{
    logo_with_info(crate::version(), true, colour)
}

/// The compact banner, without colour.
pub fn banner_text_compact() -> (r: String)
    ensures
        r@ == "\n"@ + lines_text(compact_logo_lines()) + "\n RustMinidb v"@ + "0.2.0"@
            + "  —  Embedded Relational Database\n Homepage: https://rustminidb.dev   License: BSL-1.1\n"@,
{
    let mut out = String::from_str("\n");
    push_str(&mut out, compact_logo_text().as_str());
    push_str(&mut out, "\n RustMinidb v");
    push_str(&mut out, crate::version());
    push_str(&mut out, "  —  Embedded Relational Database\n Homepage: https://rustminidb.dev   License: BSL-1.1\n");
    out
}

/// The parts joined with a separator.
pub open spec fn join_with(parts: Seq<Seq<char>>, sep: Seq<char>) -> Seq<char>
    decreases parts.len(),
{
    if parts.len() == 0 { Seq::empty() } else if parts.len() == 1 { parts[0] } else { join_with(parts.drop_last(), sep) + sep + parts.last() }
}

/// The views of string slices.
pub open spec fn strs_view(v: Seq<&str>) -> Seq<Seq<char>> {
    v.map_values(|s: &str| s@)
}

fn push_joined(out: &mut String, parts: &[&str], sep: &str)
    ensures
        final(out)@ == old(out)@ + join_with(strs_view(parts@), sep@),
{
    let ghost pv = strs_view(parts@);
    let mut i: usize = 0;
    while i < parts.len()
        invariant
            i <= parts@.len(),
            pv == strs_view(parts@),
            out@ == old(out)@ + join_with(pv.take(i as int), sep@),
        decreases parts.len() - i,
    {
        proof {
            assert(pv.take(i + 1).drop_last() =~= pv.take(i as int));
            assert(pv.take(i + 1).last() == parts@[i as int]@);
            if i == 0 {
                assert(pv.take(1)[0] == pv[0]);
            }
        }
        if i > 0 {
            push_str(out, sep);
        }
        push_str(out, parts[i]);
        i += 1;
        assert(out@ =~= old(out)@ + join_with(pv.take(i as int), sep@));
    }
    assert(pv.take(i as int) =~= pv);
}

/// The horizontal rule of the information panel.
pub open spec fn border(colour: bool) -> Seq<char> {
    if colour {
        cyan() + "━━━━━━━━━━━━━━━━━━━━━━━━━━━━━━━━━━━━━━━━━━━━"@ + reset()
    } else {
        "━━━━━━━━━━━━━━━━━━━━━━━━━━━━━━━━━━━━━━━━━━━━━━━━"@
    }
}

/// The system information panel.
pub open spec fn system_info_spec(version: Seq<char>, features: Seq<Seq<char>>, colour: bool, os: Seq<char>, arch: Seq<char>) -> Seq<char> {
    "  "@ + border(colour) + "\n"@
        + "   "@ + (if colour { bold() + yellow() } else { Seq::empty() }) + "System Information"@ + reset() + "\n"@
        + "  "@ + border(colour) + "\n"@
        + "    Version         :  "@ + version + "\n"@
        + "    Storage Engine  :  redb (single-file, ACID)\n"@
        + "    Platform        :  "@ + os + "\n"@
        + "    Architecture    :  "@ + arch + "\n"@
        + "    Features        :  "@ + join_with(features, ", "@) + "\n"@
        + "  "@ + border(colour) + "\n"@
}

fn border_str(colour: bool) -> (s: String)
    ensures
        s@ == border(colour),
{
    if colour {
        let mut s = String::from_str(cyan_str());
        push_str(&mut s, "━━━━━━━━━━━━━━━━━━━━━━━━━━━━━━━━━━━━━━━━━━━━");
        push_str(&mut s, reset_str());
        s
    } else {
        String::from_str("━━━━━━━━━━━━━━━━━━━━━━━━━━━━━━━━━━━━━━━━━━━━━━━━")
    }
}

/// The system information panel; the platform and architecture names are
/// given by the caller.
pub fn system_info_panel(version: &str, features: &[&str], colour: bool, os: &str, arch: &str) -> (r: String)
    ensures
        r@ == system_info_spec(version@, strs_view(features@), colour, os@, arch@),
{
    let b = border_str(colour);
    let mut p = String::from_str("  ");
    push_str(&mut p, b.as_str());
    push_str(&mut p, "\n");
    push_str(&mut p, "   ");
    if colour {
        push_str(&mut p, bold_str());
        push_str(&mut p, yellow_str());
    }
    push_str(&mut p, "System Information");
    push_str(&mut p, reset_str());
    push_str(&mut p, "\n");
    push_str(&mut p, "  ");
    push_str(&mut p, b.as_str());
    push_str(&mut p, "\n");
    push_str(&mut p, "    Version         :  ");
    push_str(&mut p, version);
    push_str(&mut p, "\n");
    push_str(&mut p, "    Storage Engine  :  redb (single-file, ACID)\n");
    push_str(&mut p, "    Platform        :  ");
    push_str(&mut p, os);
    push_str(&mut p, "\n");
    push_str(&mut p, "    Architecture    :  ");
    push_str(&mut p, arch);
    push_str(&mut p, "\n");
    push_str(&mut p, "    Features        :  ");
    push_joined(&mut p, features, ", ");
    push_str(&mut p, "\n");
    push_str(&mut p, "  ");
    push_str(&mut p, b.as_str());
    push_str(&mut p, "\n");
    assert(p@ =~= system_info_spec(version@, strs_view(features@), colour, os@, arch@));
    p
}

/// The check mark of the features panel.
pub open spec fn check_mark(colour: bool) -> Seq<char> {
    if colour { green() + "✓"@ + reset() } else { "✓"@ }
}

/// The features panel lines for the features.
pub open spec fn feature_lines(features: Seq<Seq<char>>, colour: bool) -> Seq<char>
    decreases features.len(),
{
    if features.len() == 0 {
        Seq::empty()
    } else {
        feature_lines(features.drop_last(), colour) + "    "@ + check_mark(colour) + "  "@ + features.last() + "\n"@
    }
}

/// The features panel: nothing without features, else a title and a line
/// per feature.
pub open spec fn features_spec(features: Seq<Seq<char>>, colour: bool) -> Seq<char> {
    if features.len() == 0 {
        Seq::empty()
    } else {
        "  "@ + (if colour { bold() } else { Seq::empty() }) + "Enabled Features"@ + reset() + "\n"@
            + feature_lines(features, colour)
    }
}

/// The features panel.
pub fn features_panel(features: &[&str], colour: bool) -> (r: String)
    ensures
        r@ == features_spec(strs_view(features@), colour),
{
    let ghost fv = strs_view(features@);
    let mut p = String::new();
    if features.len() == 0 {
        return p;
    }
    let check = if colour {
        let mut c = String::from_str(green_str());
        push_str(&mut c, "✓");
        push_str(&mut c, reset_str());
        c
    } else {
        String::from_str("✓")
    };
    push_str(&mut p, "  ");
    if colour {
        push_str(&mut p, bold_str());
    }
    push_str(&mut p, "Enabled Features");
    push_str(&mut p, reset_str());
    push_str(&mut p, "\n");
    let ghost head = p@;
    let mut i: usize = 0;
    while i < features.len()
        invariant
            i <= features@.len(),
            fv == strs_view(features@),
            check@ == check_mark(colour),
            p@ == head + feature_lines(fv.take(i as int), colour),
        decreases features.len() - i,
    {
        proof {
            assert(fv.take(i + 1).drop_last() =~= fv.take(i as int));
            assert(fv.take(i + 1).last() == features@[i as int]@);
        }
        push_str(&mut p, "    ");
        push_str(&mut p, check.as_str());
        push_str(&mut p, "  ");
        push_str(&mut p, features[i]);
        push_str(&mut p, "\n");
        i += 1;
        assert(p@ =~= head + feature_lines(fv.take(i as int), colour));
    }
    assert(fv.take(i as int) =~= fv);
    assert(p@ =~= features_spec(fv, colour));
    p
}

/// The detailed banner with the system information and features panels.
pub fn banner_text_detailed(version: &str, features: &[&str], colour: bool, os: &str, arch: &str) -> (r: String)
    ensures
        r@ == logo_with_info_spec(version@, true, colour) + "\n"@
            + system_info_spec(version@, strs_view(features@), colour, os@, arch@) + "\n"@
            + features_spec(strs_view(features@), colour),
{
    let mut out = logo_with_info(version, true, colour);
    push_str(&mut out, "\n");
    push_str(&mut out, system_info_panel(version, features, colour, os, arch).as_str());
    push_str(&mut out, "\n");
    push_str(&mut out, features_panel(features, colour).as_str());
    out
}

/// The one-line start-up message (without its line break).
pub fn info_line_text(colour: bool) -> (r: String)
    ensures
        r@ == if colour {
            magenta() + "██╗  ██╗ "@ + green() + "RustMinidb v"@ + "0.2.0"@ + reset()
                + " — Embedded Relational Database (redb, ACID)"@
        } else {
            "M  RustMinidb v"@ + "0.2.0"@ + " — Embedded Relational Database (redb, ACID)"@
        },
{
    let mut out = String::new();
    if colour {
        push_str(&mut out, magenta_str());
        push_str(&mut out, "██╗  ██╗ ");
        push_str(&mut out, green_str());
        push_str(&mut out, "RustMinidb v");
        push_str(&mut out, crate::version());
        push_str(&mut out, reset_str());
        push_str(&mut out, " — Embedded Relational Database (redb, ACID)");
    } else {
        push_str(&mut out, "M  RustMinidb v");
        push_str(&mut out, crate::version());
        push_str(&mut out, " — Embedded Relational Database (redb, ACID)");
    }
    out
}

/// The authentication status lines (followed by an empty line).
pub fn auth_status_text(enabled: bool, colour: bool) -> (r: String)
    ensures
        r@ == (if enabled {
            if colour {
                "  "@ + green() + "✓"@ + reset() + " "@ + bold() + "API Authentication: ENABLED"@ + reset()
                    + " (Bearer Token required)"@
            } else {
                "  ✓ API Authentication: ENABLED (Bearer Token required)"@
            }
        } else {
            if colour {
                "  "@ + yellow() + "⚠"@ + reset() + " "@ + dim() + "API Authentication: DISABLED"@ + reset()
                    + " (set --api-token or RUSTMINIDB_API_TOKEN)"@
            } else {
                "  ⚠ API Authentication: DISABLED (set --api-token or RUSTMINIDB_API_TOKEN)"@
            }
        }) + "\n\n"@,
{
    let mut out = String::new();
    if enabled {
        if colour {
            push_str(&mut out, "  ");
            push_str(&mut out, green_str());
            push_str(&mut out, "✓");
            push_str(&mut out, reset_str());
            push_str(&mut out, " ");
            push_str(&mut out, bold_str());
            push_str(&mut out, "API Authentication: ENABLED");
            push_str(&mut out, reset_str());
            push_str(&mut out, " (Bearer Token required)");
        } else {
            push_str(&mut out, "  ✓ API Authentication: ENABLED (Bearer Token required)");
        }
    } else {
        if colour {
            push_str(&mut out, "  ");
            push_str(&mut out, yellow_str());
            push_str(&mut out, "⚠");
            push_str(&mut out, reset_str());
            push_str(&mut out, " ");
            push_str(&mut out, dim_str());
            push_str(&mut out, "API Authentication: DISABLED");
            push_str(&mut out, reset_str());
            push_str(&mut out, " (set --api-token or RUSTMINIDB_API_TOKEN)");
        } else {
            push_str(&mut out, "  ⚠ API Authentication: DISABLED (set --api-token or RUSTMINIDB_API_TOKEN)");
        }
    }
    push_str(&mut out, "\n\n");
    out
}

/// The text padded with spaces on the right to `w` characters.
pub open spec fn pad_right(s: Seq<char>, w: nat) -> Seq<char> {
    if s.len() >= w { s } else { s + Seq::new((w - s.len()) as nat, |i: int| ' ') }
}

/// Appends text padded with spaces on the right to `w` characters (`{:<w}`).
fn push_padded(out: &mut String, s: &str, w: usize)
    ensures
        final(out)@ == old(out)@ + pad_right(s@, w as nat),
{
    push_str(out, s);
    let n = crate::strutil::chars_of(s).len();
    let mut k = n;
    while k < w
        invariant
            n == s@.len(),
            n <= k,
            k <= w || k == n,
            out@ == old(out)@ + s@ + Seq::new((k - n) as nat, |i: int| ' '),
        decreases w - k,
    {
        push_char(out, ' ');
        k += 1;
        assert(out@ =~= old(out)@ + s@ + Seq::new((k - n) as nat, |i: int| ' '));
    }
    assert(out@ =~= old(out)@ + pad_right(s@, w as nat));
}

/// The lines of the server information panel.
pub open spec fn server_lines(host: Seq<char>, port: u16, db_name: Seq<char>, colour: bool) -> Seq<Seq<char>> {
    if colour {
        seq![
            "  "@ + magenta() + "╔══════════════════════════════════════════════════╗"@ + reset(),
            "  "@ + magenta() + "║"@ + reset() + "              "@ + bold() + cyan() + "M"@ + reset() + " DB Server"@ + bold() + "               "@ + magenta() + "║"@ + reset(),
            "  "@ + magenta() + "║"@ + reset() + "     RustMinidb — Lightweight Embedded DB      "@ + magenta() + "║"@ + reset(),
            "  "@ + magenta() + "╠══════════════════════════════════════════════════╣"@ + reset(),
            "  "@ + magenta() + "║"@ + reset() + "  Version:  "@ + pad_right("0.2.0"@, 38) + " "@ + magenta() + "║"@ + reset(),
            "  "@ + magenta() + "║"@ + reset() + "  Server:   http://"@ + host + ":"@ + pad_right(nat_decimal(port as nat), 29) + " "@ + magenta() + "║"@ + reset(),
            "  "@ + magenta() + "║"@ + reset() + "  Database: "@ + pad_right(db_name, 39) + " "@ + magenta() + "║"@ + reset(),
            "  "@ + magenta() + "║"@ + reset() + "  Storage:  redb (ACID, single-file)           "@ + magenta() + "║"@ + reset(),
            "  "@ + magenta() + "╠══════════════════════════════════════════════════╣"@ + reset(),
            "  "@ + magenta() + "║"@ + reset() + "  API Endpoints:                                  "@ + magenta() + "║"@ + reset(),
            "  "@ + magenta() + "║"@ + reset() + "    GET  /              - Web Admin UI            "@ + magenta() + "║"@ + reset(),
            "  "@ + magenta() + "║"@ + reset() + "    POST /v1/query      - Execute SQL             "@ + magenta() + "║"@ + reset(),
            "  "@ + magenta() + "║"@ + reset() + "    GET  /v1/health     - Health check            "@ + magenta() + "║"@ + reset(),
            "  "@ + magenta() + "║"@ + reset() + "    GET  /v1/tables     - List tables             "@ + magenta() + "║"@ + reset(),
            "  "@ + magenta() + "║"@ + reset() + "    GET  /v1/schema/{t} - Table schema          "@ + magenta() + "║"@ + reset(),
            "  "@ + magenta() + "║"@ + reset() + "    GET  /v1/export     - Export SQL              "@ + magenta() + "║"@ + reset(),
            "  "@ + magenta() + "║"@ + reset() + "    GET  /v1/metrics    - Server metrics          "@ + magenta() + "║"@ + reset(),
            "  "@ + magenta() + "╚══════════════════════════════════════════════════╝"@ + reset()
        ]
    } else {
        seq![
            "  ╔══════════════════════════════════════════════════╗"@,
            "  ║                M DB Server                      ║"@,
            "  ║     RustMinidb — Lightweight Embedded DB        ║"@,
            "  ╠══════════════════════════════════════════════════╣"@,
            "  ║  Version:  "@ + pad_right("0.2.0"@, 38) + "║"@,
            "  ║  Server:   http://"@ + host + ":"@ + pad_right(nat_decimal(port as nat), 29) + "║"@,
            "  ║  Database: "@ + pad_right(db_name, 39) + "║"@,
            "  ║  Storage:  redb (ACID, single-file)             ║"@,
            "  ╠══════════════════════════════════════════════════╣"@,
            "  ║  API Endpoints:                                  ║"@,
            "  ║    GET  /              - Web Admin UI            ║"@,
            "  ║    POST /v1/query      - Execute SQL             ║"@,
            "  ║    GET  /v1/health     - Health check            ║"@,
            "  ║    GET  /v1/tables     - List tables             ║"@,
            "  ║    GET  /v1/schema/{t} - Table schema          ║"@,
            "  ║    GET  /v1/export     - Export SQL              ║"@,
            "  ║    GET  /v1/metrics    - Server metrics          ║"@,
            "  ╚══════════════════════════════════════════════════╝"@
        ]
    }
}

fn server_line(i: usize, host: &str, port_text: &String, port: u16, db_name: &str, colour: bool) -> (r: String)
    requires
        i < 18,
        port_text@ == nat_decimal(port as nat),
    ensures
        r@ == server_lines(host@, port, db_name@, colour)[i as int],
{
    let mut out = String::new();
    match i {
        0 => {
            if colour {
                push_str(&mut out, "  ");
                push_str(&mut out, magenta_str());
                push_str(&mut out, "╔══════════════════════════════════════════════════╗");
                push_str(&mut out, reset_str());
            } else {
                push_str(&mut out, "  ╔══════════════════════════════════════════════════╗");
            }
        },
        1 => {
            if colour {
                push_str(&mut out, "  ");
                push_str(&mut out, magenta_str());
                push_str(&mut out, "║");
                push_str(&mut out, reset_str());
                push_str(&mut out, "              ");
                push_str(&mut out, bold_str());
                push_str(&mut out, cyan_str());
                push_str(&mut out, "M");
                push_str(&mut out, reset_str());
                push_str(&mut out, " DB Server");
                push_str(&mut out, bold_str());
                push_str(&mut out, "               ");
                push_str(&mut out, magenta_str());
                push_str(&mut out, "║");
                push_str(&mut out, reset_str());
            } else {
                push_str(&mut out, "  ║                M DB Server                      ║");
            }
        },
        2 => {
            if colour {
                push_str(&mut out, "  ");
                push_str(&mut out, magenta_str());
                push_str(&mut out, "║");
                push_str(&mut out, reset_str());
                push_str(&mut out, "     RustMinidb — Lightweight Embedded DB      ");
                push_str(&mut out, magenta_str());
                push_str(&mut out, "║");
                push_str(&mut out, reset_str());
            } else {
                push_str(&mut out, "  ║     RustMinidb — Lightweight Embedded DB        ║");
            }
        },
        3 => {
            if colour {
                push_str(&mut out, "  ");
                push_str(&mut out, magenta_str());
                push_str(&mut out, "╠══════════════════════════════════════════════════╣");
                push_str(&mut out, reset_str());
            } else {
                push_str(&mut out, "  ╠══════════════════════════════════════════════════╣");
            }
        },
        4 => {
            if colour {
                push_str(&mut out, "  ");
                push_str(&mut out, magenta_str());
                push_str(&mut out, "║");
                push_str(&mut out, reset_str());
                push_str(&mut out, "  Version:  ");
                push_padded(&mut out, crate::version(), 38);
                push_str(&mut out, " ");
                push_str(&mut out, magenta_str());
                push_str(&mut out, "║");
                push_str(&mut out, reset_str());
            } else {
                push_str(&mut out, "  ║  Version:  ");
                push_padded(&mut out, crate::version(), 38);
                push_str(&mut out, "║");
            }
        },
        5 => {
            if colour {
                push_str(&mut out, "  ");
                push_str(&mut out, magenta_str());
                push_str(&mut out, "║");
                push_str(&mut out, reset_str());
                push_str(&mut out, "  Server:   http://");
                push_str(&mut out, host);
                push_str(&mut out, ":");
                push_padded(&mut out, port_text.as_str(), 29);
                push_str(&mut out, " ");
                push_str(&mut out, magenta_str());
                push_str(&mut out, "║");
                push_str(&mut out, reset_str());
            } else {
                push_str(&mut out, "  ║  Server:   http://");
                push_str(&mut out, host);
                push_str(&mut out, ":");
                push_padded(&mut out, port_text.as_str(), 29);
                push_str(&mut out, "║");
            }
        },
        6 => {
            if colour {
                push_str(&mut out, "  ");
                push_str(&mut out, magenta_str());
                push_str(&mut out, "║");
                push_str(&mut out, reset_str());
                push_str(&mut out, "  Database: ");
                push_padded(&mut out, db_name, 39);
                push_str(&mut out, " ");
                push_str(&mut out, magenta_str());
                push_str(&mut out, "║");
                push_str(&mut out, reset_str());
            } else {
                push_str(&mut out, "  ║  Database: ");
                push_padded(&mut out, db_name, 39);
                push_str(&mut out, "║");
            }
        },
        7 => {
            if colour {
                push_str(&mut out, "  ");
                push_str(&mut out, magenta_str());
                push_str(&mut out, "║");
                push_str(&mut out, reset_str());
                push_str(&mut out, "  Storage:  redb (ACID, single-file)           ");
                push_str(&mut out, magenta_str());
                push_str(&mut out, "║");
                push_str(&mut out, reset_str());
            } else {
                push_str(&mut out, "  ║  Storage:  redb (ACID, single-file)             ║");
            }
        },
        8 => {
            if colour {
                push_str(&mut out, "  ");
                push_str(&mut out, magenta_str());
                push_str(&mut out, "╠══════════════════════════════════════════════════╣");
                push_str(&mut out, reset_str());
            } else {
                push_str(&mut out, "  ╠══════════════════════════════════════════════════╣");
            }
        },
        9 => {
            if colour {
                push_str(&mut out, "  ");
                push_str(&mut out, magenta_str());
                push_str(&mut out, "║");
                push_str(&mut out, reset_str());
                push_str(&mut out, "  API Endpoints:                                  ");
                push_str(&mut out, magenta_str());
                push_str(&mut out, "║");
                push_str(&mut out, reset_str());
            } else {
                push_str(&mut out, "  ║  API Endpoints:                                  ║");
            }
        },
        10 => {
            if colour {
                push_str(&mut out, "  ");
                push_str(&mut out, magenta_str());
                push_str(&mut out, "║");
                push_str(&mut out, reset_str());
                push_str(&mut out, "    GET  /              - Web Admin UI            ");
                push_str(&mut out, magenta_str());
                push_str(&mut out, "║");
                push_str(&mut out, reset_str());
            } else {
                push_str(&mut out, "  ║    GET  /              - Web Admin UI            ║");
            }
        },
        11 => {
            if colour {
                push_str(&mut out, "  ");
                push_str(&mut out, magenta_str());
                push_str(&mut out, "║");
                push_str(&mut out, reset_str());
                push_str(&mut out, "    POST /v1/query      - Execute SQL             ");
                push_str(&mut out, magenta_str());
                push_str(&mut out, "║");
                push_str(&mut out, reset_str());
            } else {
                push_str(&mut out, "  ║    POST /v1/query      - Execute SQL             ║");
            }
        },
        12 => {
            if colour {
                push_str(&mut out, "  ");
                push_str(&mut out, magenta_str());
                push_str(&mut out, "║");
                push_str(&mut out, reset_str());
                push_str(&mut out, "    GET  /v1/health     - Health check            ");
                push_str(&mut out, magenta_str());
                push_str(&mut out, "║");
                push_str(&mut out, reset_str());
            } else {
                push_str(&mut out, "  ║    GET  /v1/health     - Health check            ║");
            }
        },
        13 => {
            if colour {
                push_str(&mut out, "  ");
                push_str(&mut out, magenta_str());
                push_str(&mut out, "║");
                push_str(&mut out, reset_str());
                push_str(&mut out, "    GET  /v1/tables     - List tables             ");
                push_str(&mut out, magenta_str());
                push_str(&mut out, "║");
                push_str(&mut out, reset_str());
            } else {
                push_str(&mut out, "  ║    GET  /v1/tables     - List tables             ║");
            }
        },
        14 => {
            if colour {
                push_str(&mut out, "  ");
                push_str(&mut out, magenta_str());
                push_str(&mut out, "║");
                push_str(&mut out, reset_str());
                push_str(&mut out, "    GET  /v1/schema/{t} - Table schema          ");
                push_str(&mut out, magenta_str());
                push_str(&mut out, "║");
                push_str(&mut out, reset_str());
            } else {
                push_str(&mut out, "  ║    GET  /v1/schema/{t} - Table schema          ║");
            }
        },
        15 => {
            if colour {
                push_str(&mut out, "  ");
                push_str(&mut out, magenta_str());
                push_str(&mut out, "║");
                push_str(&mut out, reset_str());
                push_str(&mut out, "    GET  /v1/export     - Export SQL              ");
                push_str(&mut out, magenta_str());
                push_str(&mut out, "║");
                push_str(&mut out, reset_str());
            } else {
                push_str(&mut out, "  ║    GET  /v1/export     - Export SQL              ║");
            }
        },
        16 => {
            if colour {
                push_str(&mut out, "  ");
                push_str(&mut out, magenta_str());
                push_str(&mut out, "║");
                push_str(&mut out, reset_str());
                push_str(&mut out, "    GET  /v1/metrics    - Server metrics          ");
                push_str(&mut out, magenta_str());
                push_str(&mut out, "║");
                push_str(&mut out, reset_str());
            } else {
                push_str(&mut out, "  ║    GET  /v1/metrics    - Server metrics          ║");
            }
        },
        _ => {
            if colour {
                push_str(&mut out, "  ");
                push_str(&mut out, magenta_str());
                push_str(&mut out, "╚══════════════════════════════════════════════════╝");
                push_str(&mut out, reset_str());
            } else {
                push_str(&mut out, "  ╚══════════════════════════════════════════════════╝");
            }
        },
    }
    assert(out@ =~= server_lines(host@, port, db_name@, colour)[i as int]);
    out
}

/// The server information panel: version, address, database, storage and
/// the HTTP endpoints, between empty lines (what `print_server_info` prints).
pub fn server_info_text(host: &str, port: u16, db_name: &str, colour: bool) -> (r: String)
    ensures
        r@ == "\n"@ + lines_text(server_lines(host@, port, db_name@, colour)) + "\n"@,
{
    let port_text = crate::strutil::u64_to_string(port as u64);
    let ghost ls = server_lines(host@, port, db_name@, colour);
    let mut out = String::from_str("\n");
    let mut i: usize = 0;
    while i < 18
        invariant
            i <= 18,
            ls == server_lines(host@, port, db_name@, colour),
            ls.len() == 18,
            port_text@ == nat_decimal(port as nat),
            out@ == "\n"@ + lines_text(ls.take(i as int)),
        decreases 18 - i,
    {
        proof { assert(ls.take(i + 1).drop_last() =~= ls.take(i as int)); }
        let line = server_line(i, host, &port_text, port, db_name, colour);
        push_str(&mut out, line.as_str());
        push_str(&mut out, "\n");
        i += 1;
        assert(out@ =~= "\n"@ + lines_text(ls.take(i as int)));
    }
    assert(ls.take(18) =~= ls);
    push_str(&mut out, "\n");
    out
}

} // verus!
