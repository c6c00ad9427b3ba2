//! Display layout logic: resolutions, the selection kept across monitor
//! updates, and snapping a dragged monitor to its neighbours' edges.
use vstd::prelude::*;

use crate::hyprsaver::{int_text, int_to_string};
use crate::text::{decimal, parse_u32, push_char, push_decimal, spec_parse_u32, split_once, split_once_spec};

verus! {

broadcast use {vstd::seq::group_seq_axioms, vstd::string::group_string_axioms};

/// How close (in logical pixels) an edge must come to snap.
pub const SNAP_PX: i32 = 20;

/// `"WxH"` parsed into its width and height.
pub open spec fn spec_parse_resolution(s: Seq<char>) -> Option<(u32, u32)> {
    match split_once_spec(s, 'x') {
        Some((w, h)) => match (spec_parse_u32(w), spec_parse_u32(h)) {
            (Some(a), Some(b)) => Some((a, b)),
            _ => None,
        },
        None => None,
    }
}

pub fn parse_resolution(s: &str) -> (r: Option<(u32, u32)>)
    ensures
        r == spec_parse_resolution(s@),
{
    match split_once(s, 'x') {
        Some((w, h)) => match (parse_u32(w.as_str()), parse_u32(h.as_str())) {
            (Some(a), Some(b)) => Some((a, b)),
            _ => None,
        },
        None => None,
    }
}

// ---------------------------------------------------------------------------
// Resolutions offered for a monitor
// ---------------------------------------------------------------------------

pub open spec fn resolution_text(w: u32, h: u32) -> Seq<char> {
    decimal(w as nat) + seq!['x'] + decimal(h as nat)
}

/// The sizes of `modes`, each once, in the order they first appear.
pub open spec fn distinct_sizes(modes: Seq<(u32, u32)>) -> Seq<(u32, u32)>
    decreases modes.len(),
{
    if modes.len() == 0 {
        seq![]
    } else if distinct_sizes(modes.drop_last()).contains(modes.last()) {
        distinct_sizes(modes.drop_last())
    } else {
        distinct_sizes(modes.drop_last()).push(modes.last())
    }
}

pub open spec fn common_resolutions() -> Seq<Seq<char>> {
    seq![
        "1280x720"@,
        "1920x1080"@,
        "1920x1200"@,
        "2560x1440"@,
        "2560x1600"@,
        "3440x1440"@,
        "3840x2160"@,
    ]
}

/// The resolutions offered for a monitor with the given mode sizes: each
/// distinct size as `WxH` in the order of first appearance, or a list of
/// common resolutions when the monitor reports no modes.
pub open spec fn spec_resolution_options(modes: Seq<(u32, u32)>) -> Seq<Seq<char>> {
    if modes.len() == 0 {
        common_resolutions()
    } else {
        distinct_sizes(modes).map_values(|p: (u32, u32)| resolution_text(p.0, p.1))
    }
}

pub open spec fn strings_view(v: Seq<String>) -> Seq<Seq<char>> {
    v.map_values(|s: String| s@)
}

pub fn resolution_options(modes: &Vec<(u32, u32)>) -> (r: Vec<String>)
    ensures
        strings_view(r@) == spec_resolution_options(modes@),
{
    if modes.len() == 0 {
        let r = vec![
            "1280x720".to_string(),
            "1920x1080".to_string(),
            "1920x1200".to_string(),
            "2560x1440".to_string(),
            "2560x1600".to_string(),
            "3440x1440".to_string(),
            "3840x2160".to_string(),
        ];
        assert(strings_view(r@) =~= common_resolutions());
        return r;
    }
    let mut seen: Vec<(u32, u32)> = Vec::new();
    let mut out: Vec<String> = Vec::new();
    let mut i: usize = 0;
    assert(modes@.take(0) =~= Seq::<(u32, u32)>::empty());
    while i < modes.len()
        invariant
            i <= modes@.len(),
            seen@ == distinct_sizes(modes@.take(i as int)),
            strings_view(out@) == seen@.map_values(|p: (u32, u32)| resolution_text(p.0, p.1)),
        decreases modes@.len() - i,
    {
        let m = modes[i];
        proof {
            assert(modes@.take(i + 1).drop_last() =~= modes@.take(i as int));
            assert(modes@.take(i + 1).last() == m);
        }
        let mut j: usize = 0;
        let mut found = false;
        while j < seen.len() && !found
            invariant
                j <= seen@.len(),
                found ==> j < seen@.len() && seen@[j as int] == m,
                !found ==> forall|k: int| 0 <= k < j ==> seen@[k] != m,
            decreases seen@.len() - j + (if found { 0int } else { 1int }),
        {
            if seen[j].0 == m.0 && seen[j].1 == m.1 {
                found = true;
            } else {
                j = j + 1;
            }
        }
        if !found {
            assert(!seen@.contains(m));
            let ghost before_out = out@;
            let ghost before_seen = seen@;
            seen.push(m);
            let mut key = String::new();
            push_decimal(&mut key, m.0 as u64);
            push_char(&mut key, 'x');
            push_decimal(&mut key, m.1 as u64);
            assert(key@ =~= resolution_text(m.0, m.1));
            out.push(key);
            assert(strings_view(out@) =~= strings_view(before_out).push(resolution_text(m.0, m.1)));
            assert(seen@.map_values(|p: (u32, u32)| resolution_text(p.0, p.1)) =~= before_seen.map_values(
                |p: (u32, u32)| resolution_text(p.0, p.1),
            ).push(resolution_text(m.0, m.1)));
        } else {
            assert(seen@.contains(m));
        }
        i = i + 1;
    }
    assert(modes@.take(modes@.len() as int) =~= modes@);
    out
}

// ---------------------------------------------------------------------------
// Monitors
// ---------------------------------------------------------------------------

/// A mode a monitor offers; its refresh rate is held in millihertz (the
/// whole part of a thousand times the rate in hertz), by which rates are
/// told apart and ordered.
#[derive(Debug, Clone)]
pub struct MonitorMode {
    pub width: u32,
    pub height: u32,
    pub refresh_mhz: u32,
}

/// A connected monitor as Hyprland reports it.  The refresh rate and the
/// scale are held as the decimal text written into the configuration.
#[derive(Debug, Clone)]
pub struct MonitorInfo {
    pub name: String,
    pub description: String,
    pub make: String,
    pub model: String,
    pub serial: String,
    pub width: u32,
    pub height: u32,
    pub refresh: String,
    pub x: i32,
    pub y: i32,
    pub scale: String,
    /// 0=normal, 1=90°, 2=180°, 3=270°, 4..7=flipped variants.
    pub transform: u32,
    pub enabled: bool,
    pub current_format: String,
    pub vrr: bool,
    pub available_modes: Vec<MonitorMode>,
}

/// `WxH@R,XxY,S`: a monitor's mode, position and scale.
pub open spec fn mode_text(m: MonitorInfo) -> Seq<char> {
    decimal(m.width as nat) + "x"@ + decimal(m.height as nat) + "@"@ + m.refresh@ + ","@ + int_text(
        m.x as i64,
    ) + "x"@ + int_text(m.y as i64) + ","@ + m.scale@
}

/// The `monitor =` line of the configuration for `m`.
pub open spec fn spec_config_line(m: MonitorInfo) -> Seq<char> {
    if !m.enabled {
        "monitor = "@ + m.name@ + ", disable"@
    } else if m.transform != 0 {
        "monitor = "@ + m.name@ + ","@ + mode_text(m) + ", transform, "@ + decimal(m.transform as nat)
    } else {
        "monitor = "@ + m.name@ + ","@ + mode_text(m)
    }
}

/// The value of the `keyword monitor` request that applies `m` live.
pub open spec fn spec_keyword_value(m: MonitorInfo) -> Seq<char> {
    if !m.enabled {
        m.name@ + ", disable"@
    } else if m.transform != 0 {
        m.name@ + ","@ + mode_text(m) + ",transform,"@ + decimal(m.transform as nat)
    } else {
        m.name@ + ","@ + mode_text(m)
    }
}

impl MonitorInfo {
    fn push_mode(&self, buf: &mut String)
        ensures
            final(buf)@ == old(buf)@ + mode_text(*self),
    {
        push_decimal(buf, self.width as u64);
        buf.append("x");
        push_decimal(buf, self.height as u64);
        buf.append("@");
        buf.append(self.refresh.as_str());
        buf.append(",");
        buf.append(int_to_string(self.x as i64).as_str());
        buf.append("x");
        buf.append(int_to_string(self.y as i64).as_str());
        buf.append(",");
        buf.append(self.scale.as_str());
        proof {
            reveal_strlit("x");
            reveal_strlit("@");
            reveal_strlit(",");
        }
        assert(buf@ =~= old(buf)@ + mode_text(*self));
    }

    /// Format the `monitor =` config line for this monitor.
    pub fn config_line(&self) -> (r: String)
        ensures
            r@ == spec_config_line(*self),
    {
        let mut s = "monitor = ".to_string();
        s.append(self.name.as_str());
        if !self.enabled {
            s.append(", disable");
            return s;
        }
        s.append(",");
        self.push_mode(&mut s);
        if self.transform != 0 {
            s.append(", transform, ");
            push_decimal(&mut s, self.transform as u64);
        }
        s
    }

    /// The value of the `keyword monitor` request that applies this monitor
    /// live.
    pub fn keyword_value(&self) -> (r: String)
        ensures
            r@ == spec_keyword_value(*self),
    {
        let mut s = self.name.clone();
        if !self.enabled {
            s.append(", disable");
            return s;
        }
        s.append(",");
        self.push_mode(&mut s);
        if self.transform != 0 {
            s.append(",transform,");
            push_decimal(&mut s, self.transform as u64);
        }
        s
    }
}

// ---------------------------------------------------------------------------
// Refresh rates offered for a resolution
// ---------------------------------------------------------------------------

pub open spec fn fallback_refresh() -> Seq<Seq<char>> {
    seq!["30"@, "60"@, "75"@, "120"@, "144"@, "165"@, "240"@]
}

/// The refresh rates of the modes of size `w`×`h`, in order.
pub open spec fn rates_for(modes: Seq<MonitorMode>, w: u32, h: u32) -> Seq<u32>
    decreases modes.len(),
{
    if modes.len() == 0 {
        seq![]
    } else {
        let m = modes.last();
        if m.width == w && m.height == h {
            rates_for(modes.drop_last(), w, h).push(m.refresh_mhz)
        } else {
            rates_for(modes.drop_last(), w, h)
        }
    }
}

/// `s` with each run of equal neighbours kept once.
pub open spec fn dedup_runs(s: Seq<u32>) -> Seq<u32>
    decreases s.len(),
{
    if s.len() == 0 {
        seq![]
    } else if s.len() >= 2 && s[s.len() - 2] == s.last() {
        dedup_runs(s.drop_last())
    } else {
        dedup_runs(s.drop_last()).push(s.last())
    }
}

pub open spec fn sorted_u32(s: Seq<u32>) -> bool {
    forall|i: int, j: int| 0 <= i <= j < s.len() ==> s[i] <= s[j]
}

/// Each rate in whole hertz.
pub open spec fn hz_texts(s: Seq<u32>) -> Seq<Seq<char>>
    decreases s.len(),
{
    if s.len() == 0 {
        seq![]
    } else {
        hz_texts(s.drop_last()).push(decimal((s.last() / 1000) as nat))
    }
}

/// The rates the refresh list is built from, or `None` when it falls back
/// to the common rates: the monitor reports no modes, the resolution does
/// not parse, or no mode has that size.
pub open spec fn refresh_source(modes: Seq<MonitorMode>, res: Seq<char>) -> Option<Seq<u32>> {
    if modes.len() == 0 {
        None
    } else {
        match spec_parse_resolution(res) {
            None => None,
            Some((w, h)) => {
                let rates = dedup_runs(rates_for(modes, w, h));
                if rates.len() == 0 {
                    None
                } else {
                    Some(rates)
                }
            },
        }
    }
}

fn fallback_refresh_options() -> (r: Vec<String>)
    ensures
        strings_view(r@) == fallback_refresh(),
{
    let r = vec![
        "30".to_string(),
        "60".to_string(),
        "75".to_string(),
        "120".to_string(),
        "144".to_string(),
        "165".to_string(),
        "240".to_string(),
    ];
    assert(strings_view(r@) =~= fallback_refresh());
    r
}

/// The values in ascending order.
fn sort_u32(v: Vec<u32>) -> (r: Vec<u32>)
    ensures
        sorted_u32(r@),
        r@.to_multiset() == v@.to_multiset(),
{
    broadcast use {vstd::seq_lib::to_multiset_build, vstd::seq_lib::to_multiset_insert};
    let mut out: Vec<u32> = Vec::new();
    let mut i: usize = 0;
    assert(v@.take(0) =~= Seq::<u32>::empty());
    while i < v.len()
        invariant
            i <= v@.len(),
            sorted_u32(out@),
            out@.to_multiset() == v@.take(i as int).to_multiset(),
        decreases v@.len() - i,
    {
        let x = v[i];
        let ghost ov = out@;
        let mut p: usize = 0;
        while p < out.len() && out[p] <= x
            invariant
                ov == out@,
                p <= out@.len(),
                forall|k: int| 0 <= k < p ==> ov[k] <= x,
            decreases out@.len() - p,
        {
            p = p + 1;
        }
        out.insert(p, x);
        proof {
            assert(out@ =~= ov.insert(p as int, x));
            assert forall|a: int, b: int| 0 <= a <= b < out@.len() implies out@[a] <= out@[b] by {
                if b < p {
                } else if a > p {
                    assert(out@[a] == ov[a - 1] && out@[b] == ov[b - 1]);
                } else if a == p {
                    if b > p {
                        assert(out@[b] == ov[b - 1]);
                        assert(x < ov[p as int]);
                    }
                } else {
                    if b > p {
                        assert(out@[b] == ov[b - 1]);
                    }
                }
            }
            vstd::seq_lib::to_multiset_insert(ov, p as int, x);
            vstd::seq_lib::to_multiset_build(v@.take(i as int), v@[i as int]);
            assert(v@.take(i + 1) =~= v@.take(i as int).push(v@[i as int]));
        }
        i = i + 1;
    }
    assert(v@.take(v@.len() as int) =~= v@);
    out
}

/// Build refresh rate options for the resolution `res` from the modes a
/// monitor offers: the rates of that size with repeated neighbours dropped,
/// in ascending order, in whole hertz; or the common rates.
pub fn refresh_options(modes: &Vec<MonitorMode>, res: &str) -> (r: Vec<String>)
    ensures
        match refresh_source(modes@, res@) {
            None => strings_view(r@) == fallback_refresh(),
            Some(rates) => exists|s: Seq<u32>|
                {
                    &&& sorted_u32(s)
                    &&& s.to_multiset() == rates.to_multiset()
                    &&& strings_view(r@) == hz_texts(s)
                },
        },
{
    if modes.len() == 0 {
        return fallback_refresh_options();
    }
    let (w, h) = match parse_resolution(res) {
        Some(p) => p,
        None => {
            return fallback_refresh_options();
        },
    };
    let mut rates: Vec<u32> = Vec::new();
    let mut i: usize = 0;
    assert(modes@.take(0) =~= Seq::<MonitorMode>::empty());
    while i < modes.len()
        invariant
            i <= modes@.len(),
            rates@ == dedup_runs(rates_for(modes@.take(i as int), w, h)),
            rates_for(modes@.take(i as int), w, h).len() > 0 ==> rates@.len() > 0 && rates@.last()
                == rates_for(modes@.take(i as int), w, h).last(),
        decreases modes@.len() - i,
    {
        let m = &modes[i];
        proof {
            assert(modes@.take(i + 1).drop_last() =~= modes@.take(i as int));
            assert(modes@.take(i + 1).last() == modes@[i as int]);
        }
        if m.width == w && m.height == h {
            let ghost before = rates_for(modes@.take(i as int), w, h);
            let ghost after = before.push(m.refresh_mhz);
            assert(after.drop_last() =~= before);
            if rates.len() > 0 && rates[rates.len() - 1] == m.refresh_mhz {
                assert(after[after.len() - 2] == after.last());
            } else {
                assert(!(after.len() >= 2 && after[after.len() - 2] == after.last()));
                rates.push(m.refresh_mhz);
            }
        }
        i = i + 1;
    }
    assert(modes@.take(modes@.len() as int) =~= modes@);
    if rates.len() == 0 {
        return fallback_refresh_options();
    }
    let sorted = sort_u32(rates);
    let mut out: Vec<String> = Vec::new();
    let mut k: usize = 0;
    while k < sorted.len()
        invariant
            k <= sorted@.len(),
            strings_view(out@) == hz_texts(sorted@.take(k as int)),
        decreases sorted@.len() - k,
    {
        let mut t = String::new();
        push_decimal(&mut t, (sorted[k] / 1000) as u64);
        proof {
            assert(sorted@.take(k + 1).drop_last() =~= sorted@.take(k as int));
        }
        let ghost before = out@;
        out.push(t);
        assert(strings_view(out@) =~= strings_view(before).push(t@));
        k = k + 1;
    }
    assert(sorted@.take(sorted@.len() as int) =~= sorted@);
    out
}

// ---------------------------------------------------------------------------
// Selection across monitor updates
// ---------------------------------------------------------------------------

/// The monitor selected after the list is replaced by one of `count`
/// monitors: a selection past the end is dropped, and the first monitor is
/// selected when there was no selection and the list is not empty.
pub open spec fn spec_selection_after(selected: Option<usize>, count: nat) -> Option<usize> {
    let kept = match selected {
        Some(i) if i >= count => None,
        s => s,
    };
    if selected is None && count > 0 {
        Some(0)
    } else {
        kept
    }
}

pub fn selection_after(selected: Option<usize>, count: usize) -> (r: Option<usize>)
    ensures
        r == spec_selection_after(selected, count as nat),
{
    let was_none = selected.is_none();
    let mut s = selected;
    match s {
        Some(i) => {
            if i >= count {
                s = None;
            }
        },
        None => {},
    }
    if was_none && count > 0 {
        s = Some(0);
    }
    s
}

/// The transform dropdown row for a Hyprland transform number (0 to 7).
pub fn transform_index(transform: u32) -> (r: usize)
    ensures
        r == (if transform <= 7 { transform as int } else { 7 }),
{
    if transform <= 7 {
        transform as usize
    } else {
        7
    }
}

// ---------------------------------------------------------------------------
// Snapping
// ---------------------------------------------------------------------------

/// A monitor's position and size in the layout, in logical pixels.
#[derive(Debug, Clone, Copy, PartialEq, Eq)]
pub struct MonitorBox {
    pub x: i32,
    pub y: i32,
    pub width: u32,
    pub height: u32,
}

pub open spec fn near(a: int, b: int) -> bool {
    -20 < a - b < 20
}

/// A value an `i32` holds.
pub open spec fn fits32(v: int) -> bool {
    i32::MIN <= v <= i32::MAX
}

/// A difference that the snapping compares with `abs()`: an `i32` other
/// than `i32::MIN`, whose absolute value overflows.
pub open spec fn diff_ok(v: int) -> bool {
    i32::MIN < v <= i32::MAX
}

/// A size as the snapping reads it: the `u32` cast to `i32`.
pub open spec fn size32(w: u32) -> int {
    w as i32 as int
}

/// One coordinate snapped against one neighbour: to its far edge minus our
/// size, then to its far edge, then to its near edge, each when within
/// reach.
pub open spec fn snap_axis(v: int, size: int, other: int, other_size: int) -> int {
    let v1 = if near(v + size, other) { other - size } else { v };
    let v2 = if near(v1, other + other_size) { other + other_size } else { v1 };
    if near(v2, other) { other } else { v2 }
}

/// Every sum and difference that `snap_axis` computes stays within `i32`,
/// and no compared difference is `i32::MIN`.
pub open spec fn axis_safe(v: int, size: int, other: int, other_size: int) -> bool {
    let v1 = if near(v + size, other) { other - size } else { v };
    let v2 = if near(v1, other + other_size) { other + other_size } else { v1 };
    &&& fits32(v + size)
    &&& diff_ok(v + size - other)
    &&& (near(v + size, other) ==> fits32(other - size))
    &&& fits32(other + other_size)
    &&& diff_ok(v1 - (other + other_size))
    &&& diff_ok(v2 - other)
}

/// The position `(x, y)` after snapping against the monitors `ms[0..k]`
/// other than `idx`, in order.
pub open spec fn snap_upto(ms: Seq<MonitorBox>, idx: int, k: int, x: int, y: int) -> (int, int)
    decreases k,
{
    if k <= 0 {
        (x, y)
    } else {
        let (px, py) = snap_upto(ms, idx, k - 1, x, y);
        if k - 1 == idx {
            (px, py)
        } else {
            let o = ms[k - 1];
            let me = ms[idx];
            (
                snap_axis(px, size32(me.width), o.x as int, size32(o.width)),
                snap_axis(py, size32(me.height), o.y as int, size32(o.height)),
            )
        }
    }
}

/// Snapping against `ms[0..k]` never overflows: the `i32` arithmetic of
/// every step stays in range.
pub open spec fn snap_safe(ms: Seq<MonitorBox>, idx: int, k: int, x: int, y: int) -> bool
    decreases k,
{
    if k <= 0 {
        true
    } else {
        &&& snap_safe(ms, idx, k - 1, x, y)
        &&& (k - 1 != idx ==> {
            let (px, py) = snap_upto(ms, idx, k - 1, x, y);
            let o = ms[k - 1];
            let me = ms[idx];
            &&& axis_safe(px, size32(me.width), o.x as int, size32(o.width))
            &&& axis_safe(py, size32(me.height), o.y as int, size32(o.height))
        })
    }
}

proof fn lemma_snap_safe_prefix(ms: Seq<MonitorBox>, idx: int, k: int, j: int, x: int, y: int)
    requires
        0 <= j <= k,
        snap_safe(ms, idx, k, x, y),
    ensures
        snap_safe(ms, idx, j, x, y),
    decreases k,
{
    if j < k {
        lemma_snap_safe_prefix(ms, idx, k - 1, j, x, y);
    }
}

/// Snaps the position `(nx, ny)` proposed for monitor `idx` to the edges of
/// every other monitor, taken in order.
pub fn snap(monitors: &Vec<MonitorBox>, idx: usize, nx: i32, ny: i32) -> (r: (i32, i32))
    requires
        idx < monitors@.len(),
        snap_safe(monitors@, idx as int, monitors@.len() as int, nx as int, ny as int),
    ensures
        (r.0 as int, r.1 as int) == snap_upto(monitors@, idx as int, monitors@.len() as int, nx as int, ny as int),
{
    let me = monitors[idx];
    let mw = me.width as i32;
    let mh = me.height as i32;
    let mut x = nx;
    let mut y = ny;
    let mut i: usize = 0;
    while i < monitors.len()
        invariant
            idx < monitors@.len(),
            me == monitors@[idx as int],
            mw as int == size32(me.width),
            mh as int == size32(me.height),
            snap_safe(monitors@, idx as int, monitors@.len() as int, nx as int, ny as int),
            i <= monitors@.len(),
            (x as int, y as int) == snap_upto(monitors@, idx as int, i as int, nx as int, ny as int),
        decreases monitors@.len() - i,
    {
        proof {
            lemma_snap_safe_prefix(monitors@, idx as int, monitors@.len() as int, i + 1, nx as int, ny as int);
        }
        if i != idx {
            let o = monitors[i];
            let ow = o.width as i32;
            let oh = o.height as i32;
            let d = x + mw - o.x;
            if -SNAP_PX < d && d < SNAP_PX {
                x = o.x - mw;
            }
            let d = x - (o.x + ow);
            if -SNAP_PX < d && d < SNAP_PX {
                x = o.x + ow;
            }
            let d = x - o.x;
            if -SNAP_PX < d && d < SNAP_PX {
                x = o.x;
            }
            let d = y + mh - o.y;
            if -SNAP_PX < d && d < SNAP_PX {
                y = o.y - mh;
            }
            let d = y - (o.y + oh);
            if -SNAP_PX < d && d < SNAP_PX {
                y = o.y + oh;
            }
            let d = y - o.y;
            if -SNAP_PX < d && d < SNAP_PX {
                y = o.y;
            }
        }
        i = i + 1;
    }
    (x, y)
}

// ---------------------------------------------------------------------------
// Laws of snapping
// ---------------------------------------------------------------------------

/// Within reach of a neighbour's left edge with our right edge, the
/// dragged monitor's right edge lands on that edge: the coordinate becomes
/// `other - size`, unless one of the later rules then applies (the far
/// edge, or the left edges, within reach of the new position).
pub proof fn law_snap_right_edge_to_left_edge(v: int, size: int, other: int, other_size: int)
    requires
        -20 < v + size - other < 20,
        !(-20 < (other - size) - (other + other_size) < 20),
        !(-20 < (other - size) - other < 20),
    ensures
        snap_axis(v, size, other, other_size) == other - size,
{
}

/// Within reach of a neighbour's right edge with our left edge (and not
/// of its left edge with our right edge), the dragged monitor's left edge
/// lands on it, unless the left edges are then within reach.
pub proof fn law_snap_left_edge_to_right_edge(v: int, size: int, other: int, other_size: int)
    requires
        !(-20 < v + size - other < 20),
        -20 < v - (other + other_size) < 20,
        !(-20 < (other + other_size) - other < 20),
    ensures
        snap_axis(v, size, other, other_size) == other + other_size,
{
}

/// Left edges within reach (and neither other rule within reach) are
/// aligned.
pub proof fn law_snap_aligns_left_edges(v: int, size: int, other: int, other_size: int)
    requires
        !(-20 < v + size - other < 20),
        !(-20 < v - (other + other_size) < 20),
        -20 < v - other < 20,
    ensures
        snap_axis(v, size, other, other_size) == other,
{
}

/// Out of reach of every edge, the coordinate stays as dragged.
pub proof fn law_snap_out_of_reach_keeps_position(v: int, size: int, other: int, other_size: int)
    requires
        !(-20 < v + size - other < 20),
        !(-20 < v - (other + other_size) < 20),
        !(-20 < v - other < 20),
    ensures
        snap_axis(v, size, other, other_size) == v,
{
}

/// With two monitors, dragging monitor `idx` to `(x, y)` snaps each
/// coordinate against the other monitor alone: when our right (bottom)
/// edge comes within reach of its left (top) edge and no later rule
/// applies, the right (bottom) edge lands on it.
pub proof fn law_snap_two_monitors(ms: Seq<MonitorBox>, idx: int, x: int, y: int)
    requires
        ms.len() == 2,
        0 <= idx < 2,
    ensures
        ({
            let me = ms[idx];
            let o = ms[1 - idx];
            let w = me.width as i32 as int;
            let ow = o.width as i32 as int;
            -20 < x + w - o.x < 20 && !(-20 < (o.x - w) - (o.x + ow) < 20) && !(-20 < (o.x - w) - o.x < 20)
                ==> snap_upto(ms, idx, 2, x, y).0 == o.x - w
        }),
        ({
            let me = ms[idx];
            let o = ms[1 - idx];
            let h = me.height as i32 as int;
            let oh = o.height as i32 as int;
            -20 < y + h - o.y < 20 && !(-20 < (o.y - h) - (o.y + oh) < 20) && !(-20 < (o.y - h) - o.y < 20)
                ==> snap_upto(ms, idx, 2, x, y).1 == o.y - h
        }),
        ({
            let me = ms[idx];
            let o = ms[1 - idx];
            let w = me.width as i32 as int;
            let ow = o.width as i32 as int;
            !(-20 < x + w - o.x < 20) && !(-20 < x - (o.x + ow) < 20) && !(-20 < x - o.x < 20)
                ==> snap_upto(ms, idx, 2, x, y).0 == x
        }),
{
    reveal_with_fuel(snap_upto, 3);
}

// ---------------------------------------------------------------------------
// The display panel
// ---------------------------------------------------------------------------

/// A monitor's place in the layout.
pub open spec fn box_of(m: MonitorInfo) -> MonitorBox {
    MonitorBox { x: m.x, y: m.y, width: m.width, height: m.height }
}

pub open spec fn boxes_of(ms: Seq<MonitorInfo>) -> Seq<MonitorBox> {
    ms.map_values(|m: MonitorInfo| box_of(m))
}

/// The monitor arrangement editor: the connected monitors and the one
/// selected for editing.
pub struct DisplayPanel {
    pub monitors: Vec<MonitorInfo>,
    pub selected: Option<usize>,
}

impl DisplayPanel {
    /// A panel over the monitors Hyprland reported, the first one selected.
    pub fn new(monitors: Vec<MonitorInfo>) -> (p: Self)
        ensures
            p.monitors@ == monitors@,
            p.selected == (if monitors@.len() == 0 { None } else { Some(0usize) }),
    {
        let selected = if monitors.len() == 0 {
            None
        } else {
            Some(0)
        };
        DisplayPanel { monitors, selected }
    }

    /// Replace the monitor list (e.g. after a fresh IPC query).
    pub fn set_monitors(&mut self, monitors: Vec<MonitorInfo>)
        ensures
            final(self).monitors@ == monitors@,
            final(self).selected == spec_selection_after(old(self).selected, monitors@.len()),
    {
        let count = monitors.len();
        self.monitors = monitors;
        self.selected = selection_after(self.selected, count);
    }

    /// The panel draws its own layout and lists no fields.
    pub fn fields(&self) -> (r: Vec<crate::panels::PanelField>)
        ensures
            r@.len() == 0,
    {
        Vec::new()
    }

    /// Monitors are edited through the layout, not by key: every key is
    /// unknown.
    pub fn set_value(&mut self, key: &str, value: &str) -> (r: Result<String, crate::panels::PanelError>)
        ensures
            r matches Err(crate::panels::PanelError::UnknownKey(k)) && k@ == key@,
            final(self).monitors@ == old(self).monitors@,
            final(self).selected == old(self).selected,
    {
        Err(crate::panels::PanelError::UnknownKey(key.to_string()))
    }

    /// Snaps the position proposed for monitor `idx` to the other monitors'
    /// edges.
    pub fn snap(&self, idx: usize, nx: i32, ny: i32) -> (r: (i32, i32))
        requires
            idx < self.monitors@.len(),
            snap_safe(boxes_of(self.monitors@), idx as int, self.monitors@.len() as int, nx as int, ny as int),
        ensures
            (r.0 as int, r.1 as int) == snap_upto(
                boxes_of(self.monitors@),
                idx as int,
                self.monitors@.len() as int,
                nx as int,
                ny as int,
            ),
    {
        let mut boxes: Vec<MonitorBox> = Vec::new();
        let mut i: usize = 0;
        while i < self.monitors.len()
            invariant
                i <= self.monitors@.len(),
                boxes@ == boxes_of(self.monitors@.take(i as int)),
            decreases self.monitors@.len() - i,
        {
            let m = &self.monitors[i];
            boxes.push(MonitorBox { x: m.x, y: m.y, width: m.width, height: m.height });
            assert(boxes_of(self.monitors@.take(i + 1)) =~= boxes_of(self.monitors@.take(i as int)).push(box_of(*m)));
            i = i + 1;
        }
        assert(self.monitors@.take(self.monitors@.len() as int) =~= self.monitors@);
        snap(&boxes, idx, nx, ny)
    }
}

} // verus!
