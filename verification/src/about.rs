//! The About panel's system summary: what each system file says, reduced to
//! the strings the panel shows.
use vstd::prelude::*;

use crate::panels::{PanelError, PanelField};
use crate::text::{
    decimal, join_strings, join_with, lines, lines_of, std_lines, std_lines_of, parse_u64, push_decimal, spec_parse_u64,
    split_once, split_once_spec, str_contains, contains_seq, str_starts_with, trim, trim_string,
    words, words_of, chars_of, string_of, str_eq,
};

verus! {

broadcast use {vstd::seq::group_seq_axioms, vstd::string::group_string_axioms};

/// Whether a sibling application's configuration file is present.
#[derive(Debug, Clone, Copy, PartialEq, Eq)]
pub enum AppStatus {
    Installed,
    NotFound,
}

impl AppStatus {
    pub open spec fn text(&self) -> Seq<char> {
        match self {
            AppStatus::Installed => "installed"@,
            AppStatus::NotFound => "not found"@,
        }
    }

    /// The status as the panel shows it.
    pub fn as_str(&self) -> (r: &'static str)
        ensures
            r@ == self.text(),
    {
        match self {
            AppStatus::Installed => "installed",
            AppStatus::NotFound => "not found",
        }
    }
}

/// The status of an application whose configuration file exists or not.
pub fn ecosystem_status(config_exists: bool) -> (r: AppStatus)
    ensures
        r == (if config_exists {
            AppStatus::Installed
        } else {
            AppStatus::NotFound
        }),
{
    if config_exists {
        AppStatus::Installed
    } else {
        AppStatus::NotFound
    }
}

pub open spec fn unknown() -> Seq<char> {
    "unknown"@
}

pub open spec fn or_unknown(o: Option<Seq<char>>) -> Seq<char> {
    match o {
        Some(s) => s,
        None => unknown(),
    }
}

/// This program's version.
pub open spec fn version_text() -> Seq<char> {
    "0.1.0"@
}

pub fn hyprcube_version() -> (r: &'static str)
    ensures
        r@ == version_text(),
{
    "0.1.0"
}

// ---------------------------------------------------------------------------
// One system file each
// ---------------------------------------------------------------------------

/// The kernel release: the third word of `/proc/version`.
pub open spec fn spec_kernel(content: Option<Seq<char>>) -> Seq<char> {
    match content {
        Some(c) => if words(c).len() > 2 {
            words(c)[2]
        } else {
            unknown()
        },
        None => unknown(),
    }
}

pub fn kernel_version(content: Option<&str>) -> (r: String)
    ensures
        r@ == spec_kernel(match content {
            Some(c) => Some(c@),
            None => None,
        }),
{
    match content {
        Some(c) => {
            let ws = words_of(c);
            if ws.len() > 2 {
                return ws[2].clone();
            }
        },
        None => {},
    }
    "unknown".to_string()
}

/// The host name: `/etc/hostname` trimmed, when that leaves something.
pub open spec fn spec_hostname(content: Option<Seq<char>>) -> Seq<char> {
    match content {
        Some(c) => if trim(c).len() > 0 {
            trim(c)
        } else {
            unknown()
        },
        None => unknown(),
    }
}

pub fn hostname(content: Option<&str>) -> (r: String)
    ensures
        r@ == spec_hostname(match content {
            Some(c) => Some(c@),
            None => None,
        }),
{
    match content {
        Some(c) => {
            let h = trim_string(c);
            if h.as_str().unicode_len() > 0 {
                return h;
            }
        },
        None => {},
    }
    "unknown".to_string()
}

/// `"{d}d {h}h {m}m"` for an uptime of at least a day, else `"{h}h {m}m"`.
pub open spec fn spec_format_uptime(total: nat) -> Seq<char> {
    let days = total / 86_400;
    let hours = (total % 86_400) / 3_600;
    let mins = (total % 3_600) / 60;
    if days > 0 {
        decimal(days) + "d "@ + decimal(hours) + "h "@ + decimal(mins) + "m"@
    } else {
        decimal(hours) + "h "@ + decimal(mins) + "m"@
    }
}

/// Formats an uptime given in whole seconds.
pub fn format_uptime(total: u64) -> (r: String)
    ensures
        r@ == spec_format_uptime(total as nat),
{
    let days = total / 86_400;
    let hours = (total % 86_400) / 3_600;
    let mins = (total % 3_600) / 60;
    let mut s = String::new();
    if days > 0 {
        push_decimal(&mut s, days);
        s.append("d ");
    }
    push_decimal(&mut s, hours);
    s.append("h ");
    push_decimal(&mut s, mins);
    s.append("m");
    s
}

/// The uptime shown: formatted whole seconds, or `unknown`.
pub open spec fn spec_uptime(secs: Option<u64>) -> Seq<char> {
    match secs {
        Some(t) => spec_format_uptime(t as nat),
        None => unknown(),
    }
}

/// The CPU model: the text after the first `:` of the first line of
/// `/proc/cpuinfo` that starts with `model name` and has a colon, trimmed.
pub open spec fn cpu_model_in(ls: Seq<Seq<char>>) -> Option<Seq<char>>
    decreases ls.len(),
{
    if ls.len() == 0 {
        None
    } else {
        let l = ls[0];
        if l.len() >= "model name"@.len() && l.take("model name"@.len() as int) == "model name"@ {
            match split_once_spec(l, ':') {
                Some((_, name)) => Some(trim(name)),
                None => cpu_model_in(ls.drop_first()),
            }
        } else {
            cpu_model_in(ls.drop_first())
        }
    }
}

pub open spec fn spec_cpu(content: Option<Seq<char>>) -> Seq<char> {
    match content {
        Some(c) => or_unknown(cpu_model_in(lines(c))),
        None => unknown(),
    }
}

pub fn cpu_model(content: Option<&str>) -> (r: String)
    ensures
        r@ == spec_cpu(match content {
            Some(c) => Some(c@),
            None => None,
        }),
{
    match content {
        Some(c) => {
            let ls = lines_of(c);
            let ghost gl = lines(c@);
            let mut i: usize = 0;
            assert(gl.skip(0) =~= gl);
            while i < ls.len()
                invariant
                    content == Some(c),
                    ls@.len() == gl.len(),
                    gl == lines(c@),
                    forall|j: int| 0 <= j < ls@.len() ==> (#[trigger] ls@[j])@ == gl[j],
                    i <= ls@.len(),
                    cpu_model_in(gl) == cpu_model_in(gl.skip(i as int)),
                decreases ls@.len() - i,
            {
                assert(gl.skip(i as int)[0] == gl[i as int]);
                assert(gl.skip(i as int).drop_first() =~= gl.skip(i + 1));
                if str_starts_with(ls[i].as_str(), "model name") {
                    match split_once(ls[i].as_str(), ':') {
                        Some((_, name)) => {
                            proof {
                                reveal_strlit("model name");
                                let l = gl.skip(i as int)[0];
                                assert(l == gl[i as int]);
                                assert(l.len() >= "model name"@.len());
                                assert(l.take("model name"@.len() as int) == "model name"@);
                                assert(split_once_spec(l, ':') is Some);
                                assert(cpu_model_in(gl.skip(i as int)) == Some(trim(name@)));
                            }
                            return trim_string(name.as_str());
                        },
                        None => {},
                    }
                }
                i = i + 1;
            }
            assert(gl.skip(ls@.len() as int) =~= Seq::<Seq<char>>::empty());
        },
        None => {},
    }
    "unknown".to_string()
}

/// The number in the second word of a line, or 0 when it does not parse.
pub open spec fn second_word_number(l: Seq<char>) -> u64 {
    if words(l).len() > 1 {
        match spec_parse_u64(words(l)[1]) {
            Some(n) => n,
            None => 0,
        }
    } else {
        0
    }
}

pub open spec fn starts_with(l: Seq<char>, p: Seq<char>) -> bool {
    l.len() >= p.len() && l.take(p.len() as int) == p
}

/// `MemTotal` and `MemAvailable` of `/proc/meminfo`, in kB, as the last line
/// naming each gives them (0 when absent or unreadable).
pub open spec fn meminfo_totals(ls: Seq<Seq<char>>) -> (u64, u64)
    decreases ls.len(),
{
    if ls.len() == 0 {
        (0, 0)
    } else {
        let prev = meminfo_totals(ls.drop_last());
        let l = ls.last();
        if starts_with(l, "MemTotal:"@) {
            if words(l).len() > 1 {
                (second_word_number(l), prev.1)
            } else {
                prev
            }
        } else if starts_with(l, "MemAvailable:"@) {
            if words(l).len() > 1 {
                (prev.0, second_word_number(l))
            } else {
                prev
            }
        } else {
            prev
        }
    }
}

fn number_or_zero(w: &str) -> (r: u64)
    ensures
        r == match spec_parse_u64(w@) {
            Some(n) => n,
            None => 0,
        },
{
    match parse_u64(w) {
        Some(n) => n,
        None => 0,
    }
}

/// Total and available memory in kB from `/proc/meminfo`.
pub fn meminfo_kb(content: &str) -> (r: (u64, u64))
    ensures
        r == meminfo_totals(lines(content@)),
{
    let ls = lines_of(content);
    let ghost gl = lines(content@);
    let mut total: u64 = 0;
    let mut avail: u64 = 0;
    let mut i: usize = 0;
    assert(gl.take(0) =~= Seq::<Seq<char>>::empty());
    while i < ls.len()
        invariant
            ls@.len() == gl.len(),
            gl == lines(content@),
            forall|j: int| 0 <= j < ls@.len() ==> (#[trigger] ls@[j])@ == gl[j],
            i <= ls@.len(),
            (total, avail) == meminfo_totals(gl.take(i as int)),
        decreases ls@.len() - i,
    {
        proof {
            assert(gl.take(i + 1).drop_last() =~= gl.take(i as int));
            assert(gl.take(i + 1).last() == gl[i as int]);
        }
        let line = ls[i].as_str();
        if str_starts_with(line, "MemTotal:") {
            let ws = words_of(line);
            if ws.len() > 1 {
                total = number_or_zero(ws[1].as_str());
            }
        } else if str_starts_with(line, "MemAvailable:") {
            let ws = words_of(line);
            if ws.len() > 1 {
                avail = number_or_zero(ws[1].as_str());
            }
        }
        i = i + 1;
    }
    assert(gl.take(ls@.len() as int) =~= gl);
    (total, avail)
}

/// The memory figures to show, in kB: used (total less available, never
/// below zero) and total, when `/proc/meminfo` gives a non-zero total.
pub fn memory_kb(content: Option<&str>) -> (r: Option<(u64, u64)>)
    ensures
        match content {
            Some(c) => {
                let t = meminfo_totals(lines(c@));
                if t.0 > 0 {
                    r == Some((if t.0 >= t.1 { (t.0 - t.1) as u64 } else { 0u64 }, t.0))
                } else {
                    r is None
                }
            },
            None => r is None,
        },
{
    match content {
        Some(c) => {
            let (total, avail) = meminfo_kb(c);
            if total > 0 {
                Some((total.saturating_sub(avail), total))
            } else {
                None
            }
        },
        None => None,
    }
}

// ---------------------------------------------------------------------------
// GPU drivers
// ---------------------------------------------------------------------------

/// A top-level DRM card node: `card0`, `card1`, ... (no connector suffix).
pub open spec fn spec_is_card_node(name: Seq<char>) -> bool {
    starts_with(name, "card"@) && !contains_seq(name, "-"@)
}

pub fn is_card_node(name: &str) -> (r: bool)
    ensures
        r == spec_is_card_node(name@),
{
    str_starts_with(name, "card") && !str_contains(name, "-")
}

/// The driver named on the first `DRIVER=` line of a device `uevent` file.
pub open spec fn spec_uevent_driver(ls: Seq<Seq<char>>) -> Option<Seq<char>>
    decreases ls.len(),
{
    if ls.len() == 0 {
        None
    } else if starts_with(ls[0], "DRIVER="@) {
        Some(ls[0].skip("DRIVER="@.len() as int))
    } else {
        spec_uevent_driver(ls.drop_first())
    }
}

pub fn uevent_driver(uevent: &str) -> (r: Option<String>)
    ensures
        match (r, spec_uevent_driver(std_lines(uevent@))) {
            (Some(x), Some(y)) => x@ == y,
            (None, None) => true,
            _ => false,
        },
{
    let ls = std_lines_of(uevent);
    let ghost gl = std_lines(uevent@);
    let mut i: usize = 0;
    assert(gl.skip(0) =~= gl);
    while i < ls.len()
        invariant
            ls@.len() == gl.len(),
            gl == std_lines(uevent@),
            forall|j: int| 0 <= j < ls@.len() ==> (#[trigger] ls@[j])@ == gl[j],
            i <= ls@.len(),
            spec_uevent_driver(gl) == spec_uevent_driver(gl.skip(i as int)),
        decreases ls@.len() - i,
    {
        assert(gl.skip(i as int)[0] == gl[i as int]);
        assert(gl.skip(i as int).drop_first() =~= gl.skip(i + 1));
        if str_starts_with(ls[i].as_str(), "DRIVER=") {
            proof {
                reveal_strlit("DRIVER=");
            }
            let v = chars_of(ls[i].as_str());
            return Some(string_of(&v, 7, v.len()));
        }
        i = i + 1;
    }
    assert(gl.skip(ls@.len() as int) =~= Seq::<Seq<char>>::empty());
    None
}

/// `Vec::dedup`: each run of equal neighbours reduced to its first element.
pub open spec fn dedup(s: Seq<Seq<char>>) -> Seq<Seq<char>>
    decreases s.len(),
{
    if s.len() == 0 {
        seq![]
    } else if s.len() >= 2 && s.last() == s[s.len() - 2] {
        dedup(s.drop_last())
    } else {
        dedup(s.drop_last()).push(s.last())
    }
}

pub open spec fn strings_view(v: Seq<String>) -> Seq<Seq<char>> {
    v.map_values(|p: String| p@)
}

/// The GPU line: the driver names with neighbouring repeats removed, joined
/// by `", "`, or `unknown` when there are none.
pub open spec fn spec_gpu(drivers: Seq<Seq<char>>) -> Seq<char> {
    if dedup(drivers).len() == 0 {
        unknown()
    } else {
        join_with(dedup(drivers), ", "@)
    }
}

pub fn gpu_summary(drivers: &Vec<String>) -> (r: String)
    ensures
        r@ == spec_gpu(strings_view(drivers@)),
{
    let ghost dv = strings_view(drivers@);
    let mut kept: Vec<String> = Vec::new();
    let mut i: usize = 0;
    assert(dv.take(0) =~= Seq::<Seq<char>>::empty());
    assert(strings_view(kept@) =~= Seq::<Seq<char>>::empty());
    while i < drivers.len()
        invariant
            dv == strings_view(drivers@),
            i <= drivers@.len(),
            strings_view(kept@) == dedup(dv.take(i as int)),
            i > 0 ==> kept@.len() > 0 && kept@.last()@ == dv[i - 1],
        decreases drivers@.len() - i,
    {
        proof {
            assert(dv.take(i + 1).drop_last() =~= dv.take(i as int));
            assert(dv.take(i + 1).last() == dv[i as int]);
            if i > 0 {
                assert(dv.take(i + 1)[i - 1] == dv[i - 1]);
            }
        }
        let ghost before = kept@;
        if i > 0 && kept[kept.len() - 1] == drivers[i] {
            assert(drivers@[i as int]@ == dv[i as int]);
        } else {
            kept.push(drivers[i].clone());
            assert(strings_view(kept@) =~= strings_view(before).push(dv[i as int]));
        }
        i = i + 1;
    }
    assert(dv.take(drivers@.len() as int) =~= dv);
    if kept.len() == 0 {
        "unknown".to_string()
    } else {
        join_strings(&kept, ", ")
    }
}

/// The session type: `XDG_SESSION_TYPE` when set and non-empty, else
/// `Wayland` when `WAYLAND_DISPLAY` is set, else `unknown`.
pub open spec fn spec_session(xdg: Option<Seq<char>>, wayland_display: bool) -> Seq<char> {
    match xdg {
        Some(t) if t.len() > 0 => t,
        _ => if wayland_display {
            "Wayland"@
        } else {
            unknown()
        },
    }
}

pub fn session_type(xdg: Option<&str>, wayland_display: bool) -> (r: String)
    ensures
        r@ == spec_session(
            match xdg {
                Some(t) => Some(t@),
                None => None,
            },
            wayland_display,
        ),
{
    match xdg {
        Some(t) => {
            if t.unicode_len() > 0 {
                return t.to_string();
            }
        },
        None => {},
    }
    if wayland_display {
        "Wayland".to_string()
    } else {
        "unknown".to_string()
    }
}

/// `s` without its leading `v` characters (`trim_start_matches('v')`).
pub open spec fn strip_vs(s: Seq<char>) -> Seq<char>
    decreases s.len(),
{
    if s.len() > 0 && s[0] == 'v' {
        strip_vs(s.drop_first())
    } else {
        s
    }
}

/// The Hyprland version from the `tag` of its version reply.
pub fn hyprland_version(tag: Option<&str>) -> (r: Option<String>)
    ensures
        match tag {
            Some(t) => r matches Some(v) && v@ == strip_vs(t@),
            None => r is None,
        },
{
    match tag {
        Some(t) => {
            let v = chars_of(t);
            let mut i: usize = 0;
            assert(v@.skip(0) =~= v@);
            while i < v.len() && v[i] == 'v'
                invariant
                    v@ == t@,
                    i <= v@.len(),
                    strip_vs(t@) == strip_vs(v@.skip(i as int)),
                decreases v@.len() - i,
            {
                assert(v@.skip(i as int).drop_first() =~= v@.skip(i + 1));
                i = i + 1;
            }
            assert(v@.subrange(i as int, v@.len() as int) =~= v@.skip(i as int));
            Some(string_of(&v, i, v.len()))
        },
        None => None,
    }
}

// ---------------------------------------------------------------------------
// The summary
// ---------------------------------------------------------------------------

/// What the system reports, as read from its files, its environment and
/// Hyprland's socket.
pub struct SystemSources {
    /// The `tag` of Hyprland's version reply, when it answered.
    pub hyprland_tag: Option<String>,
    pub proc_version: Option<String>,
    pub etc_hostname: Option<String>,
    /// Whole seconds of `/proc/uptime`, when it could be read.
    pub uptime_secs: Option<u64>,
    pub cpuinfo: Option<String>,
    /// Used and total memory, formatted for display, when known.
    pub memory: Option<(String, String)>,
    /// The drivers of the DRM card nodes, in directory order.
    pub gpu_drivers: Vec<String>,
    pub session_type: Option<String>,
    pub wayland_display: bool,
}

/// Snapshot of system information collected once at panel creation (or
/// refresh).
pub struct SystemInfo {
    pub hyprcube_version: String,
    pub hyprland_version: Option<String>,
    pub kernel: String,
    pub hostname: String,
    pub uptime: String,
    pub cpu: String,
    pub memory_used: String,
    pub memory_total: String,
    pub gpu: String,
    pub session_type: String,
}

pub open spec fn opt_view(o: Option<String>) -> Option<Seq<char>> {
    match o {
        Some(s) => Some(s@),
        None => None,
    }
}

fn opt_str(o: &Option<String>) -> (r: Option<&str>)
    ensures
        match (o, r) {
            (Some(s), Some(t)) => s@ == t@,
            (None, None) => true,
            _ => false,
        },
{
    match o {
        Some(s) => Some(s.as_str()),
        None => None,
    }
}

impl SystemInfo {
    /// Reduces what the system reports to the strings the panel shows,
    /// with `unknown` where a source gives nothing usable.
    pub fn collect(src: &SystemSources) -> (r: SystemInfo)
        ensures
            r.hyprcube_version@ == version_text(),
            match src.hyprland_tag {
                Some(t) => r.hyprland_version matches Some(v) && v@ == strip_vs(t@),
                None => r.hyprland_version is None,
            },
            r.kernel@ == spec_kernel(opt_view(src.proc_version)),
            r.hostname@ == spec_hostname(opt_view(src.etc_hostname)),
            r.uptime@ == spec_uptime(src.uptime_secs),
            r.cpu@ == spec_cpu(opt_view(src.cpuinfo)),
            match src.memory {
                Some((u, t)) => r.memory_used@ == u@ && r.memory_total@ == t@,
                None => r.memory_used@ == unknown() && r.memory_total@ == unknown(),
            },
            r.gpu@ == spec_gpu(strings_view(src.gpu_drivers@)),
            r.session_type@ == spec_session(opt_view(src.session_type), src.wayland_display),
    {
        let (memory_used, memory_total) = match &src.memory {
            Some((u, t)) => (u.clone(), t.clone()),
            None => ("unknown".to_string(), "unknown".to_string()),
        };
        let uptime = match src.uptime_secs {
            Some(t) => format_uptime(t),
            None => "unknown".to_string(),
        };
        SystemInfo {
            hyprcube_version: hyprcube_version().to_string(),
            hyprland_version: hyprland_version(opt_str(&src.hyprland_tag)),
            kernel: kernel_version(opt_str(&src.proc_version)),
            hostname: hostname(opt_str(&src.etc_hostname)),
            uptime,
            cpu: cpu_model(opt_str(&src.cpuinfo)),
            memory_used,
            memory_total,
            gpu: gpu_summary(&src.gpu_drivers),
            session_type: session_type(opt_str(&src.session_type), src.wayland_display),
        }
    }
}

/// The About panel: the system summary and the status of the sibling
/// applications.
pub open spec fn pairs_of(v: Seq<(String, String)>) -> Seq<(Seq<char>, Seq<char>)> {
    v.map_values(|p: (String, String)| (p.0@, p.1@))
}

/// Every system row before those reading "unknown" are left out.
pub open spec fn system_candidates(info: SystemInfo) -> Seq<(Seq<char>, Seq<char>)> {
    seq![
        ("Hyprland"@, match info.hyprland_version {
            Some(v) => v@,
            None => "not connected"@,
        }),
        ("Kernel"@, info.kernel@),
        ("Hostname"@, info.hostname@),
        ("Uptime"@, info.uptime@),
        ("CPU"@, info.cpu@),
        ("Memory"@, if info.memory_used@ != "unknown"@ {
            info.memory_used@ + " / "@ + info.memory_total@
        } else {
            "unknown"@
        }),
        ("GPU"@, info.gpu@),
        ("Session"@, info.session_type@),
    ]
}

/// The rows whose value is not "unknown", in order.
pub open spec fn known_rows(rows: Seq<(Seq<char>, Seq<char>)>) -> Seq<(Seq<char>, Seq<char>)>
    decreases rows.len(),
{
    if rows.len() == 0 {
        seq![]
    } else {
        let rest = known_rows(rows.drop_last());
        if rows.last().1 == "unknown"@ {
            rest
        } else {
            rest.push(rows.last())
        }
    }
}

pub struct AboutPanel {
    pub info: SystemInfo,
    pub hyprdeck_status: AppStatus,
    pub hyprsaver_status: AppStatus,
}

impl AboutPanel {
    /// A panel showing `info`, with each sibling application installed when
    /// its configuration file exists.
    pub fn new(info: SystemInfo, hyprdeck_config_exists: bool, hyprsaver_config_exists: bool) -> (p: Self)
        ensures
            p.info == info,
            p.hyprdeck_status == (if hyprdeck_config_exists {
                AppStatus::Installed
            } else {
                AppStatus::NotFound
            }),
            p.hyprsaver_status == (if hyprsaver_config_exists {
                AppStatus::Installed
            } else {
                AppStatus::NotFound
            }),
    {
        AboutPanel {
            info,
            hyprdeck_status: ecosystem_status(hyprdeck_config_exists),
            hyprsaver_status: ecosystem_status(hyprsaver_config_exists),
        }
    }

    /// The collected system information.
    pub fn system_info(&self) -> (r: &SystemInfo)
        ensures
            *r == self.info,
    {
        &self.info
    }

    /// The system rows the panel shows, label and value, in order: the
    /// Hyprland version (or "not connected"), kernel, hostname, uptime, CPU,
    /// memory as "used / total", GPU and session, leaving out each row whose
    /// value is "unknown".
    pub fn system_rows(&self) -> (r: Vec<(String, String)>)
        ensures
            pairs_of(r@) == known_rows(system_candidates(self.info)),
    {
        let info = &self.info;
        let hyprland = match &info.hyprland_version {
            Some(v) => v.clone(),
            None => "not connected".to_string(),
        };
        let memory = if !str_eq(info.memory_used.as_str(), "unknown") {
            let mut m = info.memory_used.clone();
            m.append(" / ");
            m.append(info.memory_total.as_str());
            m
        } else {
            "unknown".to_string()
        };
        let cands: Vec<(String, String)> = vec![
            ("Hyprland".to_string(), hyprland),
            ("Kernel".to_string(), info.kernel.clone()),
            ("Hostname".to_string(), info.hostname.clone()),
            ("Uptime".to_string(), info.uptime.clone()),
            ("CPU".to_string(), info.cpu.clone()),
            ("Memory".to_string(), memory),
            ("GPU".to_string(), info.gpu.clone()),
            ("Session".to_string(), info.session_type.clone()),
        ];
        proof {
            reveal_strlit("unknown");
            reveal_strlit(" / ");
            assert(pairs_of(cands@) =~= system_candidates(self.info));
        }
        let ghost cv = pairs_of(cands@);
        let mut out: Vec<(String, String)> = Vec::new();
        let mut i: usize = 0;
        assert(cv.take(0) =~= Seq::<(Seq<char>, Seq<char>)>::empty());
        while i < cands.len()
            invariant
                i <= cands@.len(),
                cv == pairs_of(cands@),
                pairs_of(out@) == known_rows(cv.take(i as int)),
            decreases cands@.len() - i,
        {
            assert(cv.take(i + 1).drop_last() =~= cv.take(i as int));
            assert(cv.take(i + 1).last() == cv[i as int]);
            if !str_eq(cands[i].1.as_str(), "unknown") {
                let ghost before = out@;
                out.push((cands[i].0.clone(), cands[i].1.clone()));
                assert(pairs_of(out@) =~= pairs_of(before).push(cv[i as int]));
            }
            i = i + 1;
        }
        assert(cv.take(cands@.len() as int) =~= cv);
        out
    }

    /// The ecosystem rows: each sibling application with its status.
    pub fn ecosystem_rows(&self) -> (r: Vec<(String, String)>)
        ensures
            pairs_of(r@) == seq![
                ("HyprDeck"@, self.hyprdeck_status.text()),
                ("HyprSaver"@, self.hyprsaver_status.text()),
            ],
    {
        let r = vec![
            ("HyprDeck".to_string(), self.hyprdeck_status.as_str().to_string()),
            ("HyprSaver".to_string(), self.hyprsaver_status.as_str().to_string()),
        ];
        assert(pairs_of(r@) =~= seq![
            ("HyprDeck"@, self.hyprdeck_status.text()),
            ("HyprSaver"@, self.hyprsaver_status.text()),
        ]);
        r
    }

    /// The About panel draws its own layout and lists no fields.
    pub fn fields(&self) -> (r: Vec<PanelField>)
        ensures
            r@.len() == 0,
    {
        Vec::new()
    }

    /// The About panel has no editable settings: every key is unknown.
    pub fn set_value(&mut self, key: &str, value: &str) -> (r: Result<String, PanelError>)
        ensures
            r matches Err(PanelError::UnknownKey(k)) && k@ == key@,
            *final(self) == *old(self),
    {
        Err(PanelError::UnknownKey(key.to_string()))
    }
}

} // verus!
