//! Hyprpaper configuration: reading per-monitor wallpaper assignments and
//! boolean settings, and writing the managed configuration HyprCube owns.
use vstd::prelude::*;

use crate::text::{lossy_text, utf8_lossy, join_lines, lemma_join_append, push_char, lines, lines_of, split_once, split_once_spec, str_eq, str_starts_with, trim, trim_string};

use crate::panels::{pairs_view, PanelError, PanelField};
use crate::widget::{Dropdown, TextInput, Toggle};

verus! {

broadcast use {vstd::seq::group_seq_axioms, vstd::string::group_string_axioms};

/// One wallpaper assignment as it is read back: monitor, image path and fit
/// mode.
pub type AssignmentView = (Seq<char>, Seq<char>, Seq<char>);

/// The reader's state between two lines.
pub struct ReadState {
    pub in_block: bool,
    pub monitor: Seq<char>,
    pub path: Seq<char>,
    pub mode: Seq<char>,
    pub out: Seq<AssignmentView>,
}

pub open spec fn cover() -> Seq<char> {
    "cover"@
}

pub open spec fn initial_state() -> ReadState {
    ReadState { in_block: false, monitor: seq![], path: seq![], mode: cover(), out: seq![] }
}

/// A trimmed line that opens a `wallpaper { ... }` block.
pub open spec fn opens_block(line: Seq<char>) -> bool {
    &&& line.len() >= "wallpaper"@.len()
    &&& line.take("wallpaper"@.len() as int) == "wallpaper"@
    &&& line.len() > 0
    &&& line.last() == '{'
}

/// The first two comma-separated fields of a legacy `wallpaper = mon, path`
/// value, trimmed; `None` when there is no comma.
pub open spec fn legacy_fields(value: Seq<char>) -> Option<(Seq<char>, Seq<char>)> {
    match split_once_spec(value, ',') {
        Some((first, rest)) => {
            let second = match split_once_spec(rest, ',') {
                Some((s, _)) => s,
                None => rest,
            };
            Some((trim(first), trim(second)))
        },
        None => None,
    }
}

/// How one line (already trimmed) changes the reader's state.
pub open spec fn read_step(st: ReadState, line: Seq<char>) -> ReadState {
    if opens_block(line) {
        ReadState { in_block: true, monitor: seq![], path: seq![], mode: cover(), ..st }
    } else if st.in_block && line == "}"@ {
        let out = if st.monitor.len() > 0 && st.path.len() > 0 {
            st.out.push((st.monitor, st.path, st.mode))
        } else {
            st.out
        };
        ReadState { in_block: false, out, ..st }
    } else {
        match split_once_spec(line, '=') {
            None => st,
            Some((k, v)) => {
                let key = trim(k);
                let value = trim(v);
                if st.in_block {
                    if key == "monitor"@ {
                        ReadState { monitor: value, ..st }
                    } else if key == "path"@ {
                        ReadState { path: value, ..st }
                    } else if key == "fit_mode"@ {
                        ReadState { mode: value, ..st }
                    } else {
                        st
                    }
                } else if key == "wallpaper"@ {
                    match legacy_fields(value) {
                        Some((mon, wallpaper)) => ReadState {
                            out: st.out.push((mon, wallpaper, cover())),
                            ..st
                        },
                        None => st,
                    }
                } else {
                    st
                }
            },
        }
    }
}

/// The state after reading the (untrimmed) lines `ls` in order.
pub open spec fn read_lines(ls: Seq<Seq<char>>) -> ReadState
    decreases ls.len(),
{
    if ls.len() == 0 {
        initial_state()
    } else {
        read_step(read_lines(ls.drop_last()), trim(ls.last()))
    }
}

/// The wallpaper assignments a Hyprpaper configuration text makes, in order:
/// each complete `wallpaper { monitor = .. path = .. fit_mode = .. }` block
/// with a monitor and a path, and each legacy `wallpaper = monitor, path`
/// line (whose fit mode is `cover`).
pub open spec fn spec_assignments(source: Seq<char>) -> Seq<AssignmentView> {
    read_lines(lines(source)).out
}

pub open spec fn view_triple(t: (String, String, String)) -> AssignmentView {
    (t.0@, t.1@, t.2@)
}

pub open spec fn triples_view(v: Seq<(String, String, String)>) -> Seq<AssignmentView> {
    v.map_values(|t: (String, String, String)| view_triple(t))
}

/// Reads the wallpaper assignments out of a Hyprpaper configuration text.
pub fn parse_wallpaper_assignments(source: &str) -> (r: Vec<(String, String, String)>)
    ensures
        triples_view(r@) == spec_assignments(source@),
{
    let ls = lines_of(source);
    let ghost gl = lines(source@);
    let mut assignments: Vec<(String, String, String)> = Vec::new();
    let mut in_block = false;
    let mut monitor = String::new();
    let mut path = String::new();
    let mut mode = "cover".to_string();
    let mut i: usize = 0;
    assert(gl.take(0) =~= Seq::<Seq<char>>::empty());
    assert(triples_view(assignments@) =~= Seq::<AssignmentView>::empty());
    assert(mode@ == cover());
    while i < ls.len()
        invariant
            ls@.len() == gl.len(),
            gl == lines(source@),
            forall|j: int| 0 <= j < ls@.len() ==> (#[trigger] ls@[j])@ == gl[j],
            i <= ls@.len(),
            read_lines(gl.take(i as int)) == (ReadState {
                in_block,
                monitor: monitor@,
                path: path@,
                mode: mode@,
                out: triples_view(assignments@),
            }),
        decreases ls@.len() - i,
    {
        let line = trim_string(ls[i].as_str());
        proof {
            assert(gl.take(i + 1).drop_last() =~= gl.take(i as int));
            assert(gl.take(i + 1).last() == gl[i as int]);
        }
        let ghost st = read_lines(gl.take(i as int));
        let starts = str_starts_with(line.as_str(), "wallpaper");
        let n = line.as_str().unicode_len();
        if starts && n > 0 && line.as_str().get_char(n - 1) == '{' {
            in_block = true;
            monitor = String::new();
            path = String::new();
            mode = "cover".to_string();
            i = i + 1;
            continue;
        }
        if in_block && str_eq(line.as_str(), "}") {
            if monitor.as_str().unicode_len() > 0 && path.as_str().unicode_len() > 0 {
                let ghost before = assignments@;
                assignments.push((monitor.clone(), path.clone(), mode.clone()));
                proof {
                    assert(triples_view(assignments@) =~= triples_view(before).push(
                        (monitor@, path@, mode@),
                    ));
                }
            }
            in_block = false;
            i = i + 1;
            continue;
        }
        match split_once(line.as_str(), '=') {
            None => {},
            Some((k, v)) => {
                let key = trim_string(k.as_str());
                let value = trim_string(v.as_str());
                if in_block {
                    if str_eq(key.as_str(), "monitor") {
                        monitor = value;
                    } else if str_eq(key.as_str(), "path") {
                        path = value;
                    } else if str_eq(key.as_str(), "fit_mode") {
                        mode = value;
                    }
                } else if str_eq(key.as_str(), "wallpaper") {
                    match split_once(value.as_str(), ',') {
                        Some((first, rest)) => {
                            let second = match split_once(rest.as_str(), ',') {
                                Some((s, _)) => s,
                                None => rest,
                            };
                            let mon = trim_string(first.as_str());
                            let wallpaper = trim_string(second.as_str());
                            let ghost before = assignments@;
                            assignments.push((mon, wallpaper, "cover".to_string()));
                            proof {
                                assert(triples_view(assignments@) =~= triples_view(before).push(
                                    (mon@, wallpaper@, cover()),
                                ));
                            }
                        },
                        None => {},
                    }
                }
            },
        }
        i = i + 1;
    }
    proof {
        assert(gl.take(ls@.len() as int) =~= gl);
    }
    assignments
}

// ---------------------------------------------------------------------------
// Boolean settings
// ---------------------------------------------------------------------------

/// What `str::parse::<bool>` gives.
pub open spec fn spec_parse_bool(s: Seq<char>) -> Option<bool> {
    if s == "true"@ {
        Some(true)
    } else if s == "false"@ {
        Some(false)
    } else {
        None
    }
}

/// The value a single line gives to the setting `wanted`, if any: a
/// `key = value` line whose trimmed key is `wanted` and whose trimmed value
/// is `true` or `false`.
pub open spec fn line_bool(line: Seq<char>, wanted: Seq<char>) -> Option<bool> {
    match split_once_spec(line, '=') {
        Some((k, v)) => if trim(k) == wanted {
            spec_parse_bool(trim(v))
        } else {
            None
        },
        None => None,
    }
}

/// The value of the last line of `ls` that sets `wanted`, or `default`.
pub open spec fn last_bool(ls: Seq<Seq<char>>, wanted: Seq<char>, default: bool) -> bool
    decreases ls.len(),
{
    if ls.len() == 0 {
        default
    } else {
        match line_bool(ls.last(), wanted) {
            Some(b) => b,
            None => last_bool(ls.drop_last(), wanted, default),
        }
    }
}

fn parse_bool(s: &str) -> (r: Option<bool>)
    ensures
        r == spec_parse_bool(s@),
{
    if str_eq(s, "true") {
        Some(true)
    } else if str_eq(s, "false") {
        Some(false)
    } else {
        None
    }
}

/// The boolean setting `wanted` as the last line that sets it gives it, or
/// `default` when no line does.
pub fn parse_bool_setting(source: &str, wanted: &str, default: bool) -> (r: bool)
    ensures
        r == last_bool(lines(source@), wanted@, default),
{
    let ls = lines_of(source);
    let ghost gl = lines(source@);
    let mut result: Option<bool> = None;
    let mut i: usize = 0;
    while i < ls.len()
        invariant
            ls@.len() == gl.len(),
            gl == lines(source@),
            forall|j: int| 0 <= j < ls@.len() ==> (#[trigger] ls@[j])@ == gl[j],
            i <= ls@.len(),
            last_bool(gl.take(i as int), wanted@, default) == match result {
                Some(b) => b,
                None => default,
            },
            result is None ==> last_bool(gl.take(i as int), wanted@, default) == default,
            forall|d: bool| result is None ==> #[trigger] last_bool(gl.take(i as int), wanted@, d) == d,
        decreases ls@.len() - i,
    {
        proof {
            assert(gl.take(i + 1).drop_last() =~= gl.take(i as int));
            assert(gl.take(i + 1).last() == gl[i as int]);
        }
        match split_once(ls[i].as_str(), '=') {
            Some((k, v)) => {
                let key = trim_string(k.as_str());
                if str_eq(key.as_str(), wanted) {
                    let value = trim_string(v.as_str());
                    match parse_bool(value.as_str()) {
                        Some(b) => {
                            result = Some(b);
                        },
                        None => {},
                    }
                }
            },
            None => {},
        }
        proof {
            assert forall|d: bool| result is None implies #[trigger] last_bool(gl.take(i + 1), wanted@, d) == d by {
                assert(last_bool(gl.take(i as int), wanted@, d) == d);
            }
        }
        i = i + 1;
    }
    proof {
        assert(gl.take(ls@.len() as int) =~= gl);
    }
    match result {
        Some(b) => b,
        None => default,
    }
}


// ---------------------------------------------------------------------------
// The managed configuration file
// ---------------------------------------------------------------------------

/// A connected output and the wallpaper assigned to it.
#[derive(Debug)]
pub struct WallpaperMonitor {
    pub name: String,
    pub description: String,
    pub x: i32,
    pub y: i32,
    pub width: u32,
    pub height: u32,
    pub path: String,
    pub fit_mode: String,
}

impl WallpaperMonitor {
    /// The assignment this monitor carries: name, image path, fit mode.
    pub open spec fn assignment(&self) -> AssignmentView {
        (self.name@, self.path@, self.fit_mode@)
    }
}

pub open spec fn assignments_of(ms: Seq<WallpaperMonitor>) -> Seq<AssignmentView> {
    ms.map_values(|m: WallpaperMonitor| m.assignment())
}

pub open spec fn managed_header() -> Seq<char> {
    "# Managed by HyprCube. Edit through HyprCube or remove the source line."@
}

pub open spec fn bool_text(b: bool) -> Seq<char> {
    if b {
        "true"@
    } else {
        "false"@
    }
}

pub open spec fn header_lines(ipc: bool, splash: bool) -> Seq<Seq<char>> {
    seq![managed_header(), seq![], "ipc = "@ + bool_text(ipc), "splash = "@ + bool_text(splash)]
}

/// The lines of one `wallpaper { ... }` block, preceded by a blank line.
pub open spec fn block_lines(a: AssignmentView) -> Seq<Seq<char>> {
    seq![
        seq![],
        "wallpaper {"@,
        "    monitor = "@ + a.0,
        "    path = "@ + a.1,
        "    fit_mode = "@ + a.2,
        "}"@,
    ]
}

/// The assignments that are written: those with an image path.
pub open spec fn written(ms: Seq<AssignmentView>) -> Seq<AssignmentView>
    decreases ms.len(),
{
    if ms.len() == 0 {
        seq![]
    } else if ms.last().1.len() > 0 {
        written(ms.drop_last()).push(ms.last())
    } else {
        written(ms.drop_last())
    }
}

pub open spec fn blocks_lines(ws: Seq<AssignmentView>) -> Seq<Seq<char>>
    decreases ws.len(),
{
    if ws.len() == 0 {
        seq![]
    } else {
        blocks_lines(ws.drop_last()) + block_lines(ws.last())
    }
}

/// The managed Hyprpaper file: a header with the `ipc` and `splash`
/// settings, then one block per monitor that has an image path.
pub open spec fn managed_text(ipc: bool, splash: bool, ms: Seq<AssignmentView>) -> Seq<char> {
    join_lines(header_lines(ipc, splash) + blocks_lines(written(ms)))
}

proof fn lemma_join_push(ls: Seq<Seq<char>>, l: Seq<char>)
    ensures
        join_lines(ls.push(l)) == join_lines(ls) + l + seq!['\n'],
{
    lemma_join_append(ls, seq![l]);
    assert(ls.push(l) =~= ls + seq![l]);
    assert(seq![l].drop_first() =~= Seq::<Seq<char>>::empty());
    assert(join_lines(Seq::<Seq<char>>::empty()) == Seq::<char>::empty());
    assert(seq![l][0] == l);
    assert(join_lines(seq![l]) =~= l + seq!['\n']);
}

/// Appends `a`, then `b`, then a newline.
fn push_line(buf: &mut String, a: &str, b: &str)
    ensures
        final(buf)@ == old(buf)@ + a@ + b@ + seq!['\n'],
{
    buf.append(a);
    buf.append(b);
    push_char(buf, '\n');
}

fn bool_str(b: bool) -> (r: &'static str)
    ensures
        r@ == bool_text(b),
{
    if b {
        "true"
    } else {
        "false"
    }
}

/// The text of the managed Hyprpaper configuration file.
pub fn managed_config_text(ipc: bool, splash: bool, monitors: &Vec<WallpaperMonitor>) -> (r: String)
    ensures
        r@ == managed_text(ipc, splash, assignments_of(monitors@)),
{
    let ghost ms = assignments_of(monitors@);
    let ghost hl = header_lines(ipc, splash);
    let mut buf = String::new();
    proof {
        reveal_strlit("");
        assert(hl =~= seq![managed_header()].push(seq![]).push("ipc = "@ + bool_text(ipc)).push(
            "splash = "@ + bool_text(splash),
        ));
        assert(Seq::<Seq<char>>::empty().push(managed_header()) =~= seq![managed_header()]);
        lemma_join_push(Seq::<Seq<char>>::empty(), managed_header());
        lemma_join_push(seq![managed_header()], seq![]);
        lemma_join_push(seq![managed_header()].push(seq![]), "ipc = "@ + bool_text(ipc));
        lemma_join_push(
            seq![managed_header()].push(seq![]).push("ipc = "@ + bool_text(ipc)),
            "splash = "@ + bool_text(splash),
        );
    }
    push_line(&mut buf, "# Managed by HyprCube. Edit through HyprCube or remove the source line.", "");
    push_line(&mut buf, "", "");
    push_line(&mut buf, "ipc = ", bool_str(ipc));
    push_line(&mut buf, "splash = ", bool_str(splash));
    assert(buf@ =~= join_lines(hl));
    let mut i: usize = 0;
    assert(ms.take(0) =~= Seq::<AssignmentView>::empty());
    while i < monitors.len()
        invariant
            ms == assignments_of(monitors@),
            hl == header_lines(ipc, splash),
            i <= monitors@.len(),
            buf@ == join_lines(hl + blocks_lines(written(ms.take(i as int)))),
        decreases monitors@.len() - i,
    {
        let m = &monitors[i];
        proof {
            assert(ms.take(i + 1).drop_last() =~= ms.take(i as int));
            assert(ms.take(i + 1).last() == m.assignment());
        }
        if m.path.as_str().unicode_len() > 0 {
            let ghost before = hl + blocks_lines(written(ms.take(i as int)));
            let ghost a = m.assignment();
            proof {
                reveal_strlit("");
                let b = block_lines(a);
                assert(written(ms.take(i + 1)) == written(ms.take(i as int)).push(a));
                assert(written(ms.take(i as int)).push(a).drop_last() =~= written(ms.take(i as int)));
                assert(hl + blocks_lines(written(ms.take(i + 1))) =~= before + b);
                assert(before + b =~= before.push(b[0]).push(b[1]).push(b[2]).push(b[3]).push(b[4]).push(b[5]));
                lemma_join_push(before, b[0]);
                lemma_join_push(before.push(b[0]), b[1]);
                lemma_join_push(before.push(b[0]).push(b[1]), b[2]);
                lemma_join_push(before.push(b[0]).push(b[1]).push(b[2]), b[3]);
                lemma_join_push(before.push(b[0]).push(b[1]).push(b[2]).push(b[3]), b[4]);
                lemma_join_push(before.push(b[0]).push(b[1]).push(b[2]).push(b[3]).push(b[4]), b[5]);
            }
            push_line(&mut buf, "", "");
            push_line(&mut buf, "wallpaper {", "");
            push_line(&mut buf, "    monitor = ", m.name.as_str());
            push_line(&mut buf, "    path = ", m.path.as_str());
            push_line(&mut buf, "    fit_mode = ", m.fit_mode.as_str());
            push_line(&mut buf, "}", "");
            assert(buf@ =~= join_lines(hl + blocks_lines(written(ms.take(i + 1)))));
        } else {
            assert(written(ms.take(i + 1)) == written(ms.take(i as int)));
        }
        i = i + 1;
    }
    assert(ms.take(monitors@.len() as int) =~= ms);
    buf
}


// ---------------------------------------------------------------------------
// The `source` line in the user's hyprpaper.conf
// ---------------------------------------------------------------------------

pub open spec fn source_line() -> Seq<char> {
    "source = ~/.config/hypr/hyprpaper-hyprcube.conf"@
}

pub open spec fn managed_comment() -> Seq<char> {
    "# HyprCube-managed dynamic wallpaper assignments"@
}

/// Whether some line of `root`, trimmed, is the managed `source` line.
pub open spec fn has_source_line(root: Seq<char>) -> bool {
    exists|i: int| 0 <= i < lines(root).len() && trim(#[trigger] lines(root)[i]) == source_line()
}

/// What must be written to `root` so that it sources the managed file:
/// nothing when it already does; otherwise `root`, a newline if it does not
/// end in one, then a blank line, a comment and the `source` line.
pub open spec fn spec_with_source_line(root: Seq<char>) -> Option<Seq<char>> {
    if has_source_line(root) {
        None
    } else {
        let sep = if root.len() > 0 && root.last() != '\n' {
            seq!['\n']
        } else {
            seq![]
        };
        Some(root + sep + join_lines(seq![seq![], managed_comment(), source_line()]))
    }
}

/// The new text of the user's `hyprpaper.conf`, or `None` when it already
/// sources the managed file and needs no change.
pub fn root_with_source_line(root: &str) -> (r: Option<String>)
    ensures
        match (r, spec_with_source_line(root@)) {
            (Some(x), Some(y)) => x@ == y,
            (None, None) => true,
            _ => false,
        },
{
    let ls = lines_of(root);
    let ghost gl = lines(root@);
    let mut i: usize = 0;
    while i < ls.len()
        invariant
            ls@.len() == gl.len(),
            gl == lines(root@),
            forall|j: int| 0 <= j < ls@.len() ==> (#[trigger] ls@[j])@ == gl[j],
            i <= ls@.len(),
            forall|j: int| 0 <= j < i ==> trim(#[trigger] gl[j]) != source_line(),
        decreases ls@.len() - i,
    {
        let t = trim_string(ls[i].as_str());
        if str_eq(t.as_str(), "source = ~/.config/hypr/hyprpaper-hyprcube.conf") {
            assert(trim(gl[i as int]) == source_line());
            return None;
        }
        i = i + 1;
    }
    let mut out = root.to_string();
    let n = root.unicode_len();
    if n > 0 && root.get_char(n - 1) != '\n' {
        push_char(&mut out, '\n');
    }
    let ghost pre = out@;
    push_line(&mut out, "", "");
    push_line(&mut out, "# HyprCube-managed dynamic wallpaper assignments", "");
    push_line(&mut out, "source = ~/.config/hypr/hyprpaper-hyprcube.conf", "");
    proof {
        reveal_strlit("");
        let e = Seq::<Seq<char>>::empty();
        assert(seq![seq![], managed_comment(), source_line()] =~= e.push(seq![]).push(
            managed_comment(),
        ).push(source_line()));
        assert(join_lines(e) == Seq::<char>::empty());
        lemma_join_push(e, seq![]);
        lemma_join_push(e.push(seq![]), managed_comment());
        lemma_join_push(e.push(seq![]).push(managed_comment()), source_line());
        assert(out@ =~= pre + join_lines(seq![seq![], managed_comment(), source_line()]));
    }
    Some(out)
}

// ---------------------------------------------------------------------------
// Active wallpapers and per-monitor assignments
// ---------------------------------------------------------------------------

/// The `monitor: path` pairs of `hyprctl hyprpaper listactive` output, both
/// sides trimmed; lines without a colon are skipped.
pub open spec fn spec_active(ls: Seq<Seq<char>>) -> Seq<(Seq<char>, Seq<char>)>
    decreases ls.len(),
{
    if ls.len() == 0 {
        seq![]
    } else {
        match split_once_spec(ls.last(), ':') {
            Some((a, b)) => spec_active(ls.drop_last()).push((trim(a), trim(b))),
            None => spec_active(ls.drop_last()),
        }
    }
}


/// Reads the active wallpaper of each monitor from `listactive` output.
pub fn parse_active_wallpapers(stdout: &[u8]) -> (r: Vec<(String, String)>)
    ensures
        pairs_view(r@) == spec_active(lines(utf8_lossy(stdout@))),
{
    let text = lossy_text(stdout);
    let stdout = text.as_str();
    let ls = lines_of(stdout);
    let ghost gl = lines(stdout@);
    let mut out: Vec<(String, String)> = Vec::new();
    let mut i: usize = 0;
    assert(pairs_view(out@) =~= spec_active(gl.take(0)));
    while i < ls.len()
        invariant
            ls@.len() == gl.len(),
            gl == lines(stdout@),
            forall|j: int| 0 <= j < ls@.len() ==> (#[trigger] ls@[j])@ == gl[j],
            i <= ls@.len(),
            pairs_view(out@) == spec_active(gl.take(i as int)),
        decreases ls@.len() - i,
    {
        proof {
            assert(gl.take(i + 1).drop_last() =~= gl.take(i as int));
            assert(gl.take(i + 1).last() == gl[i as int]);
        }
        match split_once(ls[i].as_str(), ':') {
            Some((a, b)) => {
                let ghost before = out@;
                let ta = trim_string(a.as_str());
                let tb = trim_string(b.as_str());
                out.push((ta, tb));
                assert(pairs_view(out@) =~= pairs_view(before).push((ta@, tb@)));
            },
            None => {},
        }
        i = i + 1;
    }
    assert(gl.take(ls@.len() as int) =~= gl);
    out
}

/// The last assignment made to monitor `name`.
pub open spec fn last_assignment_for(asg: Seq<AssignmentView>, name: Seq<char>) -> Option<AssignmentView>
    decreases asg.len(),
{
    if asg.len() == 0 {
        None
    } else if asg.last().0 == name {
        Some(asg.last())
    } else {
        last_assignment_for(asg.drop_last(), name)
    }
}

/// The first active wallpaper reported for monitor `name`.
pub open spec fn first_active_for(act: Seq<(Seq<char>, Seq<char>)>, name: Seq<char>) -> Option<Seq<char>>
    decreases act.len(),
{
    if act.len() == 0 {
        None
    } else if act[0].0 == name {
        Some(act[0].1)
    } else {
        first_active_for(act.drop_first(), name)
    }
}

/// Gives a monitor its configured wallpaper: the last assignment made to it
/// (path and fit mode), else the wallpaper Hyprpaper reports as active for it
/// (path only), else nothing changes.
pub fn assign_wallpaper(
    monitor: &mut WallpaperMonitor,
    assignments: &Vec<(String, String, String)>,
    active: &Vec<(String, String)>,
)
    ensures
        final(monitor).name == old(monitor).name,
        final(monitor).description == old(monitor).description,
        final(monitor).x == old(monitor).x,
        final(monitor).y == old(monitor).y,
        final(monitor).width == old(monitor).width,
        final(monitor).height == old(monitor).height,
        match last_assignment_for(triples_view(assignments@), old(monitor).name@) {
            Some(a) => final(monitor).path@ == a.1 && final(monitor).fit_mode@ == a.2,
            None => match first_active_for(pairs_view(active@), old(monitor).name@) {
                Some(p) => final(monitor).path@ == p && final(monitor).fit_mode == old(monitor).fit_mode,
                None => final(monitor).path == old(monitor).path && final(monitor).fit_mode == old(monitor).fit_mode,
            },
        },
{
    let ghost av = triples_view(assignments@);
    let mut found: Option<usize> = None;
    let mut i: usize = 0;
    assert(av.take(0) =~= Seq::<AssignmentView>::empty());
    while i < assignments.len()
        invariant
            av == triples_view(assignments@),
            *monitor == *old(monitor),
            i <= assignments@.len(),
            match found {
                Some(k) => k < i && last_assignment_for(av.take(i as int), monitor.name@) == Some(av[k as int]),
                None => last_assignment_for(av.take(i as int), monitor.name@) is None,
            },
        decreases assignments@.len() - i,
    {
        proof {
            assert(av.take(i + 1).drop_last() =~= av.take(i as int));
            assert(av.take(i + 1).last() == av[i as int]);
        }
        if str_eq(assignments[i].0.as_str(), monitor.name.as_str()) {
            found = Some(i);
        }
        i = i + 1;
    }
    assert(av.take(assignments@.len() as int) =~= av);
    match found {
        Some(k) => {
            monitor.path = assignments[k].1.clone();
            monitor.fit_mode = assignments[k].2.clone();
        },
        None => {
            let ghost pv = pairs_view(active@);
            let mut j: usize = 0;
            assert(pv.skip(0) =~= pv);
            while j < active.len()
                invariant
                    pv == pairs_view(active@),
                    *monitor == *old(monitor),
                    last_assignment_for(triples_view(assignments@), monitor.name@) is None,
                    j <= active@.len(),
                    first_active_for(pv, monitor.name@) == first_active_for(pv.skip(j as int), monitor.name@),
                decreases active@.len() - j,
            {
                assert(pv.skip(j as int)[0] == pv[j as int]);
                assert(pv.skip(j as int).drop_first() =~= pv.skip(j + 1));
                if str_eq(active[j].0.as_str(), monitor.name.as_str()) {
                    assert(pv[j as int] == (active@[j as int].0@, active@[j as int].1@));
                    assert(first_active_for(pv.skip(j as int), monitor.name@) == Some(pv[j as int].1));
                    monitor.path = active[j].1.clone();
                    return;
                }
                j = j + 1;
            }
            assert(pv.skip(active@.len() as int) =~= Seq::<(Seq<char>, Seq<char>)>::empty());
        },
    }
}

// ---------------------------------------------------------------------------
// Applying a wallpaper live
// ---------------------------------------------------------------------------

/// What running `hyprctl hyprpaper wallpaper` came to: its exit status and
/// output, or why it could not be run.
pub enum LiveOutcome {
    Ran { success: bool, stderr: Vec<u8>, stdout: Vec<u8> },
    NotRun(String),
}

/// The argument of `hyprctl hyprpaper wallpaper` that applies `monitor`'s
/// wallpaper (`name, path, fit_mode`), or the message shown when no image
/// is chosen.
pub fn live_request(monitor: &WallpaperMonitor) -> (r: Result<String, String>)
    ensures
        monitor.path@.len() == 0 ==> (r matches Err(m) && m@ == "Choose an image before applying it."@),
        monitor.path@.len() > 0 ==> (r matches Ok(a) && a@ == monitor.name@ + ", "@ + monitor.path@ + ", "@
            + monitor.fit_mode@),
{
    if monitor.path.unicode_len() == 0 {
        return Err("Choose an image before applying it.".to_string());
    }
    let mut a = monitor.name.clone();
    a.append(", ");
    a.append(monitor.path.as_str());
    a.append(", ");
    a.append(monitor.fit_mode.as_str());
    Ok(a)
}

/// The status shown once `hyprctl` was asked to apply `name`'s wallpaper:
/// success, else its trimmed error output, else its trimmed standard
/// output; or why it could not be run.
pub fn live_status(name: &str, outcome: LiveOutcome) -> (r: String)
    ensures
        match outcome {
            LiveOutcome::Ran { success, stderr, stdout } => if success {
                r@ == "Applied wallpaper to "@ + name@
            } else if trim(utf8_lossy(stderr@)).len() > 0 {
                r@ == trim(utf8_lossy(stderr@))
            } else {
                r@ == trim(utf8_lossy(stdout@))
            },
            LiveOutcome::NotRun(e) => r@ == "Could not run hyprctl: "@ + e@,
        },
{
    match outcome {
        LiveOutcome::Ran { success, stderr, stdout } => {
            if success {
                let mut m = "Applied wallpaper to ".to_string();
                m.append(name);
                m
            } else {
                let err = trim_string(lossy_text(stderr.as_slice()).as_str());
                if err.unicode_len() > 0 {
                    err
                } else {
                    trim_string(lossy_text(stdout.as_slice()).as_str())
                }
            }
        },
        LiveOutcome::NotRun(e) => {
            let mut m = "Could not run hyprctl: ".to_string();
            m.append(e.as_str());
            m
        },
    }
}

// ---------------------------------------------------------------------------
// The wallpaper panel
// ---------------------------------------------------------------------------

/// The fit modes offered, in order.
pub open spec fn fit_modes() -> Seq<Seq<char>> {
    seq!["cover"@, "contain"@, "fill"@, "tile"@]
}

/// The position of the first option equal to `mode`, if any.
pub open spec fn first_pos(options: Seq<Seq<char>>, mode: Seq<char>) -> Option<nat>
    decreases options.len(),
{
    if options.len() == 0 {
        None
    } else if options[0] == mode {
        Some(0)
    } else {
        match first_pos(options.drop_first(), mode) {
            Some(k) => Some(k + 1),
            None => None,
        }
    }
}

/// The position of the first option equal to `mode`, or 0.
pub open spec fn fit_index(options: Seq<Seq<char>>, mode: Seq<char>) -> nat {
    match first_pos(options, mode) {
        Some(k) => k,
        None => 0,
    }
}

proof fn lemma_first_pos(options: Seq<Seq<char>>, mode: Seq<char>, k: int)
    requires
        0 <= k <= options.len(),
        forall|j: int| 0 <= j < k ==> options[j] != mode,
        k < options.len() ==> options[k] == mode,
    ensures
        first_pos(options, mode) == (if k < options.len() { Some(k as nat) } else { None::<nat> }),
    decreases options.len(),
{
    if options.len() > 0 && k > 0 {
        lemma_first_pos(options.drop_first(), mode, k - 1);
    }
}

/// What a monitor's wallpaper becomes from the configured assignments and
/// the active wallpapers: its path and fit mode.
pub open spec fn assigned(
    m: WallpaperMonitor,
    asg: Seq<AssignmentView>,
    act: Seq<(Seq<char>, Seq<char>)>,
) -> (Seq<char>, Seq<char>) {
    match last_assignment_for(asg, m.name@) {
        Some(a) => (a.1, a.2),
        None => match first_active_for(act, m.name@) {
            Some(p) => (p, m.fit_mode@),
            None => (m.path@, m.fit_mode@),
        },
    }
}

/// `a` is `b` with possibly another wallpaper: same name, description and
/// place.
pub open spec fn same_monitor(a: WallpaperMonitor, b: WallpaperMonitor) -> bool {
    &&& a.name == b.name
    &&& a.description == b.description
    &&& a.x == b.x
    &&& a.y == b.y
    &&& a.width == b.width
    &&& a.height == b.height
}

/// The Hyprpaper panel: the connected monitors with their wallpapers, the
/// selected one, its path and fit-mode controls, the `splash` and `ipc`
/// switches, and the status of the last live apply.
pub struct HyprpaperPanel {
    pub installed: bool,
    pub monitors: Vec<WallpaperMonitor>,
    pub selected: Option<usize>,
    pub path_input: TextInput,
    pub fit_dropdown: Dropdown,
    pub splash_toggle: Toggle,
    pub ipc_toggle: Toggle,
    pub dirty: bool,
    pub status: String,
}

impl HyprpaperPanel {
    /// The selection names a monitor.
    pub open spec fn wf(&self) -> bool {
        self.selected matches Some(i) ==> i < self.monitors@.len()
    }

    /// The controls show the selected monitor's wallpaper.
    pub open spec fn synced(&self) -> bool {
        self.selected matches Some(i) ==> {
            &&& self.path_input.value@ == self.monitors@[i as int].path@
            &&& self.path_input.cursor_pos == self.monitors@[i as int].path@.len()
            &&& self.fit_dropdown.selected == fit_index(
                self.fit_dropdown.options@.map_values(|o: String| o@),
                self.monitors@[i as int].fit_mode@,
            )
        }
    }

    /// The panel over the connected `monitors`, each given the wallpaper
    /// `source` (the user's and the managed Hyprpaper files) assigns it, or
    /// the one shown now; the first monitor is selected.
    pub fn new(installed: bool, monitors: Vec<WallpaperMonitor>, source: &str, active: &Vec<(String, String)>) -> (p: Self)
        ensures
            p.installed == installed,
            p.monitors@.len() == monitors@.len(),
            forall|i: int|
                0 <= i < monitors@.len() ==> same_monitor(#[trigger] p.monitors@[i], monitors@[i]) && (
                p.monitors@[i].path@,
                p.monitors@[i].fit_mode@,
            ) == assigned(monitors@[i], spec_assignments(source@), pairs_view(active@)),
            p.selected == (if monitors@.len() == 0 { None } else { Some(0usize) }),
            p.splash_toggle.key@ == "splash"@,
            p.splash_toggle.value == last_bool(lines(source@), "splash"@, false),
            p.ipc_toggle.key@ == "ipc"@,
            p.ipc_toggle.value == last_bool(lines(source@), "ipc"@, true),
            p.path_input.key@ == "wallpaper.path"@,
            p.fit_dropdown.key@ == "wallpaper.fit_mode"@,
            p.fit_dropdown.options@.map_values(|o: String| o@) == fit_modes(),
            p.wf(),
            p.synced(),
            !p.dirty,
            p.status@.len() == 0,
    {
        let assignments = parse_wallpaper_assignments(source);
        let mut monitors = monitors;
        let ghost input = monitors@;
        let mut i: usize = 0;
        while i < monitors.len()
            invariant
                monitors@.len() == input.len(),
                i <= monitors@.len(),
                triples_view(assignments@) == spec_assignments(source@),
                forall|k: int|
                    0 <= k < i ==> same_monitor(#[trigger] monitors@[k], input[k]) && (
                    monitors@[k].path@,
                    monitors@[k].fit_mode@,
                ) == assigned(input[k], spec_assignments(source@), pairs_view(active@)),
                forall|k: int| i <= k < monitors@.len() ==> #[trigger] monitors@[k] == input[k],
            decreases monitors@.len() - i,
        {
            let mut m = monitors.remove(i);
            assign_wallpaper(&mut m, &assignments, active);
            monitors.insert(i, m);
            i = i + 1;
        }
        let selected = if monitors.len() == 0 {
            None
        } else {
            Some(0)
        };
        let fit = vec!["cover".to_string(), "contain".to_string(), "fill".to_string(), "tile".to_string()];
        assert(fit@.map_values(|o: String| o@) =~= fit_modes());
        let mut p = HyprpaperPanel {
            installed,
            monitors,
            selected,
            path_input: TextInput::new("wallpaper.path".to_string(), String::new()),
            fit_dropdown: Dropdown::new("wallpaper.fit_mode".to_string(), fit, 0),
            splash_toggle: Toggle::new("splash".to_string(), parse_bool_setting(source, "splash", false)),
            ipc_toggle: Toggle::new("ipc".to_string(), parse_bool_setting(source, "ipc", true)),
            dirty: false,
            status: String::new(),
        };
        p.sync_controls();
        p
    }

    /// Shows the selected monitor's wallpaper in the controls.
    pub fn sync_controls(&mut self)
        requires
            old(self).wf(),
        ensures
            final(self).synced(),
            final(self).wf(),
            final(self).monitors == old(self).monitors,
            final(self).selected == old(self).selected,
            final(self).installed == old(self).installed,
            final(self).dirty == old(self).dirty,
            final(self).status == old(self).status,
            final(self).splash_toggle == old(self).splash_toggle,
            final(self).ipc_toggle == old(self).ipc_toggle,
            final(self).path_input.key == old(self).path_input.key,
            final(self).fit_dropdown.key == old(self).fit_dropdown.key,
            final(self).fit_dropdown.options == old(self).fit_dropdown.options,
    {
        let i = match self.selected {
            Some(i) => i,
            None => {
                return;
            },
        };
        self.path_input.value = self.monitors[i].path.clone();
        self.path_input.cursor_pos = crate::text::char_count(&self.path_input.value);
        let mut k: usize = 0;
        let mut found = false;
        let ghost opts = self.fit_dropdown.options@.map_values(|o: String| o@);
        let ghost mode = self.monitors@[i as int].fit_mode@;
        while k < self.fit_dropdown.options.len() && !found
            invariant
                opts == self.fit_dropdown.options@.map_values(|o: String| o@),
                i < self.monitors@.len(),
                mode == self.monitors@[i as int].fit_mode@,
                k <= opts.len(),
                found ==> k < opts.len() && opts[k as int] == mode,
                forall|j: int| 0 <= j < k ==> opts[j] != mode,
            decreases opts.len() - k + (if found { 0int } else { 1int }),
        {
            if crate::text::str_eq(self.fit_dropdown.options[k].as_str(), self.monitors[i].fit_mode.as_str()) {
                found = true;
            } else {
                k = k + 1;
            }
        }
        proof {
            lemma_first_pos(opts, mode, k as int);
        }
        self.fit_dropdown.selected = if found {
            k
        } else {
            0
        };
    }

    /// Selects monitor `index` (the one clicked in the layout view).
    pub fn select_monitor(&mut self, index: usize)
        requires
            index < old(self).monitors@.len(),
        ensures
            final(self).selected == Some(index),
            final(self).monitors == old(self).monitors,
            final(self).dirty == old(self).dirty,
            final(self).wf(),
            final(self).synced(),
    {
        self.selected = Some(index);
        self.sync_controls();
    }

    /// The path field was edited: the selected monitor takes its text.
    pub fn path_edited(&mut self)
        requires
            old(self).wf(),
        ensures
            final(self).selected == old(self).selected,
            final(self).monitors@.len() == old(self).monitors@.len(),
            final(self).wf(),
            match old(self).selected {
                Some(i) => {
                    &&& final(self).monitors@[i as int].path@ == old(self).path_input.value@
                    &&& final(self).monitors@[i as int].fit_mode == old(self).monitors@[i as int].fit_mode
                    &&& same_monitor(final(self).monitors@[i as int], old(self).monitors@[i as int])
                    &&& forall|j: int| 0 <= j < old(self).monitors@.len() && j != i ==> final(self).monitors@[j]
                        == old(self).monitors@[j]
                    &&& final(self).dirty
                },
                None => final(self).monitors == old(self).monitors && final(self).dirty == old(self).dirty,
            },
    {
        match self.selected {
            Some(i) => {
                let mut m = self.monitors.remove(i);
                m.path = self.path_input.value.clone();
                self.monitors.insert(i, m);
                self.dirty = true;
            },
            None => {},
        }
    }

    /// A fit mode was chosen: the selected monitor takes it (`cover` when
    /// the choice names no option).
    pub fn fit_chosen(&mut self)
        requires
            old(self).wf(),
        ensures
            final(self).selected == old(self).selected,
            final(self).monitors@.len() == old(self).monitors@.len(),
            final(self).wf(),
            match old(self).selected {
                Some(i) => {
                    &&& final(self).monitors@[i as int].fit_mode@ == (if old(self).fit_dropdown.selected
                        < old(self).fit_dropdown.options@.len() {
                        old(self).fit_dropdown.options@[old(self).fit_dropdown.selected as int]@
                    } else {
                        "cover"@
                    })
                    &&& final(self).monitors@[i as int].path == old(self).monitors@[i as int].path
                    &&& same_monitor(final(self).monitors@[i as int], old(self).monitors@[i as int])
                    &&& forall|j: int| 0 <= j < old(self).monitors@.len() && j != i ==> final(self).monitors@[j]
                        == old(self).monitors@[j]
                    &&& final(self).dirty
                },
                None => final(self).monitors == old(self).monitors && final(self).dirty == old(self).dirty,
            },
    {
        match self.selected {
            Some(i) => {
                let mode = if self.fit_dropdown.selected < self.fit_dropdown.options.len() {
                    self.fit_dropdown.options[self.fit_dropdown.selected].clone()
                } else {
                    "cover".to_string()
                };
                let mut m = self.monitors.remove(i);
                m.fit_mode = mode;
                self.monitors.insert(i, m);
                self.dirty = true;
            },
            None => {},
        }
    }

    /// The `splash` or `ipc` switch was flipped.
    pub fn setting_toggled(&mut self)
        ensures
            final(self).dirty,
            final(self).monitors == old(self).monitors,
            final(self).selected == old(self).selected,
            final(self).splash_toggle == old(self).splash_toggle,
            final(self).ipc_toggle == old(self).ipc_toggle,
    {
        self.dirty = true;
    }

    /// What applying the selected monitor's wallpaper live sends, as
    /// `live_request` gives it; nothing without a selection.
    pub fn apply_live_request(&self) -> (r: Option<Result<String, String>>)
        requires
            self.wf(),
        ensures
            match self.selected {
                None => r is None,
                Some(i) => r matches Some(x) && {
                    let m = self.monitors@[i as int];
                    &&& m.path@.len() == 0 ==> (x matches Err(e) && e@ == "Choose an image before applying it."@)
                    &&& m.path@.len() > 0 ==> (x matches Ok(a) && a@ == m.name@ + ", "@ + m.path@ + ", "@
                        + m.fit_mode@)
                },
            },
    {
        match self.selected {
            None => None,
            Some(i) => Some(live_request(&self.monitors[i])),
        }
    }

    /// Records the status of the last live apply.
    pub fn set_status(&mut self, status: String)
        ensures
            final(self).status == status,
            final(self).monitors == old(self).monitors,
            final(self).selected == old(self).selected,
            final(self).dirty == old(self).dirty,
    {
        self.status = status;
    }

    /// Whether Hyprpaper is there: installed, or its configuration exists.
    pub fn available(&self, config_exists: bool) -> (r: bool)
        ensures
            r == (self.installed || config_exists),
    {
        self.installed || config_exists
    }

    /// The panel draws its own layout and lists no fields.
    pub fn fields(&self) -> (r: Vec<PanelField>)
        ensures
            r@.len() == 0,
    {
        Vec::new()
    }

    /// Wallpapers are edited through the panel's controls: every key is
    /// unknown.
    pub fn set_value(&mut self, key: &str, value: &str) -> (r: Result<String, PanelError>)
        ensures
            r matches Err(PanelError::UnknownKey(k)) && k@ == key@,
            final(self).monitors == old(self).monitors,
            final(self).dirty == old(self).dirty,
    {
        Err(PanelError::UnknownKey(key.to_string()))
    }

    /// Whether the wallpapers or switches changed since loading or saving.
    pub fn has_unsaved_changes(&self) -> (r: bool)
        ensures
            r == self.dirty,
    {
        self.dirty
    }

    /// The text of the managed Hyprpaper file for the current state.
    pub fn managed_text(&self) -> (r: String)
        ensures
            r@ == managed_text(self.ipc_toggle.value, self.splash_toggle.value, assignments_of(self.monitors@)),
    {
        managed_config_text(self.ipc_toggle.value, self.splash_toggle.value, &self.monitors)
    }

    /// The state was written: nothing is unsaved.
    pub fn saved(&mut self)
        ensures
            !final(self).dirty,
            final(self).monitors == old(self).monitors,
            final(self).selected == old(self).selected,
    {
        self.dirty = false;
    }

    /// Shown after a save.
    pub fn save_notice(&self) -> (r: &'static str)
        ensures
            r@ == "Hyprpaper configuration saved; live assignments are available immediately."@,
    {
        "Hyprpaper configuration saved; live assignments are available immediately."
    }
}

} // verus!
