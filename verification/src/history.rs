//! Configuration history: what is recorded, how revisions and snapshots are
//! named and read back from the history repository, and how the History
//! panel moves between revisions.
use vstd::prelude::*;

use crate::panels::ExternalConfigChange;
use crate::text::{lossy_text, utf8_lossy, 
    chars_of, decimal, is_control, char_is_control, lines, lines_of, std_lines, std_lines_of, str_starts_with, join_strings, join_with, parse_u64, push_char, push_decimal,
    spec_parse_u64, split_once, split_once_spec, string_of, trim, trim_range,
};

verus! {

broadcast use {vstd::seq::group_seq_axioms, vstd::string::group_string_axioms};

/// Why a history operation failed.
#[derive(Debug)]
pub enum HistoryError {
    GitUnavailable(std::io::Error),
    Git(String),
    Io(std::io::Error),
    InvalidRevision(String),
    InvalidSnapshotName,
}

/// One recorded configuration version.
#[derive(Debug, Clone, PartialEq, Eq)]
pub struct Revision {
    pub hash: String,
    pub short_hash: String,
    pub timestamp: u64,
    pub summary: String,
    pub snapshots: Vec<String>,
}

/// How many revisions the history lists.
pub const MAX_REVISIONS: u64 = 100;

/// The most characters a snapshot name keeps.
pub const MAX_SNAPSHOT_CHARS: usize = 48;

// ---------------------------------------------------------------------------
// Revisions
// ---------------------------------------------------------------------------

pub open spec fn is_hex_digit(c: char) -> bool {
    ('0' <= c && c <= '9') || ('a' <= c && c <= 'f') || ('A' <= c && c <= 'F')
}

/// A full commit hash: forty hexadecimal digits.
pub open spec fn is_full_hash(r: Seq<char>) -> bool {
    r.len() == 40 && forall|i: int| 0 <= i < r.len() ==> is_hex_digit(#[trigger] r[i])
}

/// Accepts a full commit hash and refuses anything else, so that no other
/// text reaches git as a revision.
pub fn validate_revision(revision: &str) -> (r: Result<(), HistoryError>)
    ensures
        r is Ok <==> is_full_hash(revision@),
        r matches Err(e) ==> e matches HistoryError::InvalidRevision(s) && s@ == revision@,
{
    let n = revision.unicode_len();
    let mut ok = n == 40;
    let mut i: usize = 0;
    while ok && i < n
        invariant
            n == revision@.len(),
            i <= n,
            ok ==> n == 40,
            ok ==> forall|j: int| 0 <= j < i ==> is_hex_digit(#[trigger] revision@[j]),
            !ok ==> !is_full_hash(revision@),
        decreases n - i,
    {
        let c = revision.get_char(i);
        if !(('0' <= c && c <= '9') || ('a' <= c && c <= 'f') || ('A' <= c && c <= 'F')) {
            ok = false;
        }
        i = i + 1;
    }
    if ok {
        Ok(())
    } else {
        Err(HistoryError::InvalidRevision(revision.to_string()))
    }
}

/// The first `n` characters of a revision (`chars().take(n)`).
pub fn short_revision(revision: &str, n: usize) -> (r: String)
    ensures
        r@ == revision@.take(if n <= revision@.len() { n as int } else { revision@.len() as int }),
{
    let v = chars_of(revision);
    let k = if n <= v.len() {
        n
    } else {
        v.len()
    };
    string_of(&v, 0, k)
}

// ---------------------------------------------------------------------------
// Snapshot names
// ---------------------------------------------------------------------------

pub open spec fn is_ascii_alnum(c: char) -> bool {
    ('0' <= c && c <= '9') || ('a' <= c && c <= 'z') || ('A' <= c && c <= 'Z')
}

pub open spec fn ascii_lower(c: char) -> char {
    if 'A' <= c && c <= 'Z' {
        ((c as u32) + 32) as char
    } else {
        c
    }
}

/// The slug built from the characters `cs`, and whether it ends in a
/// separator that was just added: letters and digits are kept in lower
/// case, every other run becomes one `-` (none at the start), and input
/// stops being read once the slug is 48 characters long.
pub open spec fn slug_state(cs: Seq<char>) -> (Seq<char>, bool)
    decreases cs.len(),
{
    if cs.len() == 0 {
        (seq![], false)
    } else {
        let (s, sep) = slug_state(cs.drop_last());
        let c = cs.last();
        if s.len() >= 48 {
            (s, sep)
        } else if is_ascii_alnum(c) {
            (s.push(ascii_lower(c)), false)
        } else if !sep && s.len() > 0 {
            (s.push('-'), true)
        } else {
            (s, sep)
        }
    }
}

/// `s` without trailing `-`.
pub open spec fn strip_dashes(s: Seq<char>) -> Seq<char>
    decreases s.len(),
{
    if s.len() > 0 && s.last() == '-' {
        strip_dashes(s.drop_last())
    } else {
        s
    }
}

/// The git-safe name of a snapshot called `name`, if it has a letter or a
/// digit.
pub open spec fn spec_snapshot_slug(name: Seq<char>) -> Option<Seq<char>> {
    let s = strip_dashes(slug_state(trim(name)).0);
    if s.len() > 0 {
        Some(s)
    } else {
        None
    }
}

fn lower_char(c: char) -> (r: char)
    ensures
        r == ascii_lower(c),
{
    if 'A' <= c && c <= 'Z' {
        ((c as u8) + 32) as char
    } else {
        c
    }
}

/// The name under which a snapshot is tagged.
pub fn snapshot_slug(name: &str) -> (r: Option<String>)
    ensures
        match (r, spec_snapshot_slug(name@)) {
            (Some(x), Some(y)) => x@ == y,
            (None, None) => true,
            _ => false,
        },
{
    let v = chars_of(name);
    let (a, b) = trim_range(&v, 0, v.len());
    assert(v@.subrange(0, v@.len() as int) =~= name@);
    let ghost t = v@.subrange(a as int, b as int);
    let mut slug = String::new();
    let mut sep = false;
    let mut count: usize = 0;
    let mut i = a;
    assert(t.take(0) =~= Seq::<char>::empty());
    while i < b && count < 48
        invariant
            a <= i <= b <= v@.len(),
            t == v@.subrange(a as int, b as int),
            count == slug@.len(),
            count <= 48,
            (slug@, sep) == slug_state(t.take(i - a)),
        decreases b - i,
    {
        let c = v[i];
        proof {
            assert(t.take(i - a + 1).drop_last() =~= t.take(i - a));
            assert(t.take(i - a + 1).last() == c);
        }
        if ('0' <= c && c <= '9') || ('a' <= c && c <= 'z') || ('A' <= c && c <= 'Z') {
            push_char(&mut slug, lower_char(c));
            sep = false;
            count = count + 1;
        } else if !sep && count > 0 {
            push_char(&mut slug, '-');
            sep = true;
            count = count + 1;
        }
        i = i + 1;
    }
    proof {
        if i < b {
            lemma_slug_saturates(t, i - a, b - a);
        }
        assert(t.take(b - a) =~= t);
    }
    let ghost full = slug@;
    assert(full == slug_state(t).0);
    let sv = chars_of(slug.as_str());
    let mut e = sv.len();
    assert(sv@.take(e as int) =~= sv@);
    while e > 0 && sv[e - 1] == '-'
        invariant
            e <= sv@.len(),
            sv@ == full,
            strip_dashes(full) == strip_dashes(sv@.take(e as int)),
        decreases e,
    {
        assert(sv@.take(e as int).drop_last() =~= sv@.take(e - 1));
        e = e - 1;
    }
    assert(strip_dashes(sv@.take(e as int)) == sv@.take(e as int));
    if e == 0 {
        None
    } else {
        assert(sv@.subrange(0, e as int) =~= sv@.take(e as int));
        Some(string_of(&sv, 0, e))
    }
}

/// Once the slug is 48 characters long, further input changes nothing.
proof fn lemma_slug_saturates(t: Seq<char>, j: int, k: int)
    requires
        0 <= j <= k <= t.len(),
        slug_state(t.take(j)).0.len() >= 48,
    ensures
        slug_state(t.take(k)) == slug_state(t.take(j)),
    decreases k - j,
{
    if k > j {
        lemma_slug_saturates(t, j, k - 1);
        assert(t.take(k).drop_last() =~= t.take(k - 1));
    }
}

/// A character a snapshot tag may hold.
pub open spec fn is_slug_char(c: char) -> bool {
    ('0' <= c && c <= '9') || ('a' <= c && c <= 'z') || c == '-'
}

/// `s` is a safe git ref component: 1 to 48 lowercase ASCII letters,
/// digits and single hyphens, not starting or ending with a hyphen.
pub open spec fn slug_safe(s: Seq<char>) -> bool {
    &&& 0 < s.len() <= 48
    &&& forall|i: int| 0 <= i < s.len() ==> is_slug_char(#[trigger] s[i])
    &&& s[0] != '-'
    &&& s.last() != '-'
    &&& forall|i: int| 0 <= i < s.len() - 1 ==> !(#[trigger] s[i] == '-' && s[i + 1] == '-')
}

/// The slug built so far keeps the shape of a safe name, and its separator
/// flag says whether it ends in `-`.
proof fn lemma_slug_state_shape(cs: Seq<char>)
    ensures
        ({
            let (s, sep) = slug_state(cs);
            &&& s.len() <= 48
            &&& forall|i: int| 0 <= i < s.len() ==> is_slug_char(#[trigger] s[i])
            &&& s.len() > 0 ==> s[0] != '-'
            &&& forall|i: int| 0 <= i < s.len() - 1 ==> !(#[trigger] s[i] == '-' && s[i + 1] == '-')
            &&& sep == (s.len() > 0 && s.last() == '-')
            &&& (s.len() == 0 <==> forall|i: int| 0 <= i < cs.len() ==> !is_ascii_alnum(#[trigger] cs[i]))
        }),
    decreases cs.len(),
{
    if cs.len() > 0 {
        let prev = cs.drop_last();
        lemma_slug_state_shape(prev);
        let c = cs.last();
        let (s0, sep0) = slug_state(prev);
        let (s, sep) = slug_state(cs);
        if is_ascii_alnum(c) {
            if s0.len() < 48 {
                let l = ascii_lower(c);
                assert(is_slug_char(l)) by {
                    if 'A' <= c && c <= 'Z' {
                        assert(65 <= (c as u32) <= 90);
                        assert(97 <= ((c as u32) + 32) <= 122);
                    }
                }
                assert(s == s0.push(l));
                assert forall|i: int| 0 <= i < s.len() implies is_slug_char(#[trigger] s[i]) by {
                    if i < s0.len() {
                        assert(s[i] == s0[i]);
                    }
                }
                assert forall|i: int| 0 <= i < s.len() - 1 implies !(#[trigger] s[i] == '-' && s[i + 1] == '-') by {
                    if i < s0.len() - 1 {
                        assert(s[i] == s0[i] && s[i + 1] == s0[i + 1]);
                    }
                }
            }
        }
        assert forall|i: int| 0 <= i < prev.len() implies prev[i] == cs[i] by {}
        if (forall|i: int| 0 <= i < cs.len() ==> !is_ascii_alnum(#[trigger] cs[i])) {
            assert(!is_ascii_alnum(cs[cs.len() - 1]));
        }
        if s0.len() > 0 {
            assert(exists|i: int| 0 <= i < prev.len() && is_ascii_alnum(#[trigger] prev[i]));
            let w = choose|i: int| 0 <= i < prev.len() && is_ascii_alnum(#[trigger] prev[i]);
            assert(is_ascii_alnum(cs[w]));
        }
    }
}

/// Trailing hyphens removed from `s` leave a prefix of `s` that does not end
/// in a hyphen.
proof fn lemma_strip_dashes_prefix(s: Seq<char>)
    ensures
        strip_dashes(s).len() <= s.len(),
        strip_dashes(s) == s.take(strip_dashes(s).len() as int),
        strip_dashes(s).len() > 0 ==> strip_dashes(s).last() != '-',
        (forall|i: int| 0 <= i < s.len() ==> s[i] == '-') ==> strip_dashes(s).len() == 0,
    decreases s.len(),
{
    if s.len() > 0 && s.last() == '-' {
        lemma_strip_dashes_prefix(s.drop_last());
        let t = strip_dashes(s.drop_last());
        assert(s.drop_last().take(t.len() as int) =~= s.take(t.len() as int));
    } else {
        assert(s.take(s.len() as int) =~= s);
    }
}

/// Every snapshot is tagged under a safe git ref name, and a name is
/// refused exactly when it holds no ASCII letter or digit.
pub proof fn law_snapshot_slug_is_safe(name: Seq<char>)
    ensures
        match spec_snapshot_slug(name) {
            Some(s) => slug_safe(s),
            None => forall|i: int| 0 <= i < trim(name).len() ==> !is_ascii_alnum(#[trigger] trim(name)[i]),
        },
{
    let t = trim(name);
    lemma_slug_state_shape(t);
    let full = slug_state(t).0;
    lemma_strip_dashes_prefix(full);
    let s = strip_dashes(full);
    if s.len() > 0 {
        assert forall|i: int| 0 <= i < s.len() implies is_slug_char(#[trigger] s[i]) by {
            assert(s[i] == full[i]);
        }
        assert forall|i: int| 0 <= i < s.len() - 1 implies !(#[trigger] s[i] == '-' && s[i + 1] == '-') by {
            assert(s[i] == full[i] && s[i + 1] == full[i + 1]);
        }
        assert(s[0] == full[0]);
    } else if full.len() > 0 {
        // A non-empty slug starts with a letter or digit, which stripping
        // never removes: this case cannot arise.
        lemma_strip_nonempty(full);
    }
}

/// Stripping trailing hyphens from a name that starts with something else
/// leaves it non-empty.
proof fn lemma_strip_nonempty(s: Seq<char>)
    requires
        s.len() > 0,
        s[0] != '-',
    ensures
        strip_dashes(s).len() > 0,
    decreases s.len(),
{
    if s.last() == '-' {
        assert(s.len() > 1);
        assert(s.drop_last()[0] == s[0]);
        lemma_strip_nonempty(s.drop_last());
    }
}

// ---------------------------------------------------------------------------
// Sections and messages
// ---------------------------------------------------------------------------

/// The repository paths a History filter shows.
pub open spec fn spec_section_paths(section: Seq<char>) -> Seq<Seq<char>> {
    if section == "Hyprland"@ {
        seq!["configs/hyprland.conf"@]
    } else if section == "Appearance"@ {
        seq!["configs/hyprcube-palette.toml"@]
    } else if section == "HyprDeck"@ {
        seq!["configs/hyprdeck.toml"@]
    } else if section == "HyprSaver"@ {
        seq!["configs/hyprsaver.toml"@]
    } else if section == "Hyprpaper"@ {
        seq![
            "configs/hyprpaper.conf"@,
            "configs/hyprpaper-hyprcube.conf"@,
            "configs/hyprpaper-hyprcube-theme.conf"@,
        ]
    } else if section == "HyprCube"@ {
        seq!["configs/hyprcube.toml"@]
    } else {
        seq!["configs"@]
    }
}

pub open spec fn strs_view(v: Seq<&'static str>) -> Seq<Seq<char>> {
    v.map_values(|s: &'static str| s@)
}

/// The repository paths whose changes the History filter `section` shows.
pub fn section_paths(section: &str) -> (r: Vec<&'static str>)
    ensures
        strs_view(r@) == spec_section_paths(section@),
{
    let r: Vec<&'static str> = if crate::text::str_eq(section, "Hyprland") {
        vec!["configs/hyprland.conf"]
    } else if crate::text::str_eq(section, "Appearance") {
        vec!["configs/hyprcube-palette.toml"]
    } else if crate::text::str_eq(section, "HyprDeck") {
        vec!["configs/hyprdeck.toml"]
    } else if crate::text::str_eq(section, "HyprSaver") {
        vec!["configs/hyprsaver.toml"]
    } else if crate::text::str_eq(section, "Hyprpaper") {
        vec![
            "configs/hyprpaper.conf",
            "configs/hyprpaper-hyprcube.conf",
            "configs/hyprpaper-hyprcube-theme.conf",
        ]
    } else if crate::text::str_eq(section, "HyprCube") {
        vec!["configs/hyprcube.toml"]
    } else {
        vec!["configs"]
    };
    assert(strs_view(r@) =~= spec_section_paths(section@));
    r
}

/// ASCII letters in lower case, other characters as they are.
pub open spec fn ascii_lower_text(s: Seq<char>) -> Seq<char> {
    s.map_values(|c: char| ascii_lower(c))
}

/// The filters that name one part of the configuration: every filter but
/// the first, `All`.
pub open spec fn named_filter(i: int) -> bool {
    1 <= i < spec_filters().len()
}

proof fn lemma_filter_names_differ()
    ensures
        spec_filters()[0] == "All"@,
        spec_filters()[1] == "Hyprland"@,
        spec_filters()[2] == "Appearance"@,
        spec_filters()[3] == "HyprDeck"@,
        spec_filters()[4] == "HyprSaver"@,
        spec_filters()[5] == "Hyprpaper"@,
        spec_filters()[6] == "HyprCube"@,
        "Appearance"@ != "Hyprland"@,
        "HyprDeck"@ != "Hyprland"@ && "HyprDeck"@ != "Appearance"@,
        "HyprSaver"@ != "Hyprland"@ && "HyprSaver"@ != "Appearance"@ && "HyprSaver"@ != "HyprDeck"@,
        "Hyprpaper"@ != "Hyprland"@ && "Hyprpaper"@ != "Appearance"@ && "Hyprpaper"@ != "HyprDeck"@
            && "Hyprpaper"@ != "HyprSaver"@,
        "HyprCube"@ != "Hyprland"@ && "HyprCube"@ != "Appearance"@ && "HyprCube"@ != "HyprDeck"@
            && "HyprCube"@ != "HyprSaver"@ && "HyprCube"@ != "Hyprpaper"@,
        "All"@ != "Hyprland"@ && "All"@ != "Appearance"@ && "All"@ != "HyprDeck"@ && "All"@
            != "HyprSaver"@ && "All"@ != "Hyprpaper"@ && "All"@ != "HyprCube"@,
{
    reveal_strlit("All");
    reveal_strlit("Hyprland");
    reveal_strlit("Appearance");
    reveal_strlit("HyprDeck");
    reveal_strlit("HyprSaver");
    reveal_strlit("Hyprpaper");
    reveal_strlit("HyprCube");
    assert("Appearance"@[0] != "Hyprland"@[0]);
    assert("HyprDeck"@[4] != "Hyprland"@[4] && "HyprDeck"@[0] != "Appearance"@[0]);
    assert("HyprSaver"@[4] != "Hyprland"@[4] && "HyprSaver"@[0] != "Appearance"@[0] && "HyprSaver"@[4]
        != "HyprDeck"@[4]);
    assert("Hyprpaper"@[4] != "Hyprland"@[4] && "Hyprpaper"@[0] != "Appearance"@[0] && "Hyprpaper"@[4]
        != "HyprDeck"@[4] && "Hyprpaper"@[4] != "HyprSaver"@[4]);
    assert("HyprCube"@[4] != "Hyprland"@[4] && "HyprCube"@[0] != "Appearance"@[0] && "HyprCube"@[4]
        != "HyprDeck"@[4] && "HyprCube"@[4] != "HyprSaver"@[4] && "HyprCube"@[4] != "Hyprpaper"@[4]);
    assert("All"@.len() != "Hyprland"@.len() && "All"@.len() != "Appearance"@.len() && "All"@.len()
        != "HyprDeck"@.len() && "All"@.len() != "HyprSaver"@.len() && "All"@.len()
        != "Hyprpaper"@.len() && "All"@.len() != "HyprCube"@.len());
}

proof fn lemma_filter_paths()
    ensures
        spec_section_paths(spec_filters()[1]) == seq!["configs/"@ + spec_managed_files()[0]],
        spec_section_paths(spec_filters()[2]) == seq!["configs/"@ + spec_managed_files()[1]],
        spec_section_paths(spec_filters()[3]) == seq!["configs/"@ + spec_managed_files()[3]],
        spec_section_paths(spec_filters()[4]) == seq!["configs/"@ + spec_managed_files()[4]],
        spec_section_paths(spec_filters()[5]) == seq![
            "configs/"@ + spec_managed_files()[5],
            "configs/"@ + spec_managed_files()[6],
            "configs/"@ + spec_managed_files()[7],
        ],
        spec_section_paths(spec_filters()[6]) == seq!["configs/"@ + spec_managed_files()[2]],
        spec_section_paths("All"@) == seq!["configs"@],
{
    lemma_filter_names_differ();
    reveal_strlit("configs/");
    reveal_strlit("hyprland.conf");
    reveal_strlit("hyprcube-palette.toml");
    reveal_strlit("hyprcube.toml");
    reveal_strlit("hyprdeck.toml");
    reveal_strlit("hyprsaver.toml");
    reveal_strlit("hyprpaper.conf");
    reveal_strlit("hyprpaper-hyprcube.conf");
    reveal_strlit("hyprpaper-hyprcube-theme.conf");
    reveal_strlit("configs/hyprland.conf");
    reveal_strlit("configs/hyprcube-palette.toml");
    reveal_strlit("configs/hyprcube.toml");
    reveal_strlit("configs/hyprdeck.toml");
    reveal_strlit("configs/hyprsaver.toml");
    reveal_strlit("configs/hyprpaper.conf");
    reveal_strlit("configs/hyprpaper-hyprcube.conf");
    reveal_strlit("configs/hyprpaper-hyprcube-theme.conf");
    let c = "configs/"@;
    let m = spec_managed_files();
    assert("configs/hyprland.conf"@ =~= c + m[0]);
    assert("configs/hyprcube-palette.toml"@ =~= c + m[1]);
    assert("configs/hyprcube.toml"@ =~= c + m[2]);
    assert("configs/hyprdeck.toml"@ =~= c + m[3]);
    assert("configs/hyprsaver.toml"@ =~= c + m[4]);
    assert("configs/hyprpaper.conf"@ =~= c + m[5]);
    assert("configs/hyprpaper-hyprcube.conf"@ =~= c + m[6]);
    assert("configs/hyprpaper-hyprcube-theme.conf"@ =~= c + m[7]);
}

proof fn lemma_named_prefixes()
    ensures
        ({
            let c = "configs/"@;
            let m = spec_managed_files();
            &&& (c + m[0]).subrange(8, 8 + ascii_lower_text("Hyprland"@).len() as int) == ascii_lower_text("Hyprland"@)
            &&& (c + m[3]).subrange(8, 8 + ascii_lower_text("HyprDeck"@).len() as int) == ascii_lower_text("HyprDeck"@)
            &&& (c + m[4]).subrange(8, 8 + ascii_lower_text("HyprSaver"@).len() as int) == ascii_lower_text("HyprSaver"@)
            &&& (c + m[5]).subrange(8, 8 + ascii_lower_text("Hyprpaper"@).len() as int) == ascii_lower_text("Hyprpaper"@)
            &&& (c + m[6]).subrange(8, 8 + ascii_lower_text("Hyprpaper"@).len() as int) == ascii_lower_text("Hyprpaper"@)
            &&& (c + m[7]).subrange(8, 8 + ascii_lower_text("Hyprpaper"@).len() as int) == ascii_lower_text("Hyprpaper"@)
            &&& (c + m[2]).subrange(8, 8 + ascii_lower_text("HyprCube"@).len() as int) == ascii_lower_text("HyprCube"@)
            &&& (c + m[0]).len() >= 8 + ascii_lower_text("Hyprland"@).len()
            &&& (c + m[3]).len() >= 8 + ascii_lower_text("HyprDeck"@).len()
            &&& (c + m[4]).len() >= 8 + ascii_lower_text("HyprSaver"@).len()
            &&& (c + m[5]).len() >= 8 + ascii_lower_text("Hyprpaper"@).len()
            &&& (c + m[6]).len() >= 8 + ascii_lower_text("Hyprpaper"@).len()
            &&& (c + m[7]).len() >= 8 + ascii_lower_text("Hyprpaper"@).len()
            &&& (c + m[2]).len() >= 8 + ascii_lower_text("HyprCube"@).len()
        }),
{
    reveal_strlit("configs/");
    reveal_strlit("hyprland.conf");
    reveal_strlit("hyprcube.toml");
    reveal_strlit("hyprdeck.toml");
    reveal_strlit("hyprsaver.toml");
    reveal_strlit("hyprpaper.conf");
    reveal_strlit("hyprpaper-hyprcube.conf");
    reveal_strlit("hyprpaper-hyprcube-theme.conf");
    reveal_strlit("Hyprland");
    reveal_strlit("HyprDeck");
    reveal_strlit("HyprSaver");
    reveal_strlit("Hyprpaper");
    reveal_strlit("HyprCube");
    let c = "configs/"@;
    let m = spec_managed_files();
    assert((c + m[0]).subrange(8, 16) =~= ascii_lower_text("Hyprland"@));
    assert((c + m[3]).subrange(8, 16) =~= ascii_lower_text("HyprDeck"@));
    assert((c + m[4]).subrange(8, 17) =~= ascii_lower_text("HyprSaver"@));
    assert((c + m[5]).subrange(8, 17) =~= ascii_lower_text("Hyprpaper"@));
    assert((c + m[6]).subrange(8, 17) =~= ascii_lower_text("Hyprpaper"@));
    assert((c + m[7]).subrange(8, 17) =~= ascii_lower_text("Hyprpaper"@));
    assert((c + m[2]).subrange(8, 16) =~= ascii_lower_text("HyprCube"@));
}

/// A named History filter shows only managed files, each by its own path
/// under `configs/`, never the whole directory; the `All` filter shows the
/// whole `configs` directory.
pub proof fn law_named_filters_show_managed_files()
    ensures
        forall|i: int, j: int|
            named_filter(i) && 0 <= j < spec_section_paths(spec_filters()[i]).len() ==> exists|k: int|
                0 <= k < spec_managed_files().len() && #[trigger] spec_section_paths(spec_filters()[i])[j]
                    == "configs/"@ + spec_managed_files()[k],
        spec_section_paths("All"@) == seq!["configs"@],
{
    lemma_filter_paths();
    let f = spec_filters();
    let m = spec_managed_files();
    let c = "configs/"@;
    assert forall|i: int, j: int|
        named_filter(i) && 0 <= j < spec_section_paths(f[i]).len() implies exists|k: int|
            0 <= k < m.len() && #[trigger] spec_section_paths(f[i])[j] == c + m[k] by {
        if i == 1 {
            assert(spec_section_paths(f[i])[j] == c + m[0]);
        } else if i == 2 {
            assert(spec_section_paths(f[i])[j] == c + m[1]);
        } else if i == 3 {
            assert(spec_section_paths(f[i])[j] == c + m[3]);
        } else if i == 4 {
            assert(spec_section_paths(f[i])[j] == c + m[4]);
        } else if i == 5 {
            assert(spec_section_paths(f[i])[j] == c + m[5 + j]);
        } else {
            assert(spec_section_paths(f[i])[j] == c + m[2]);
        }
    }
}

/// Every managed file is shown by some named filter, and the named filters
/// list as many paths as there are managed files: with the law above, each
/// managed file is shown by exactly one named filter.
pub proof fn law_each_managed_file_has_one_filter()
    ensures
        forall|k: int|
            0 <= k < spec_managed_files().len() ==> exists|i: int, j: int|
                named_filter(i) && 0 <= j < spec_section_paths(spec_filters()[i]).len()
                    && spec_section_paths(spec_filters()[i])[j] == "configs/"@ + #[trigger] spec_managed_files()[k],
        spec_section_paths(spec_filters()[1]).len() + spec_section_paths(spec_filters()[2]).len()
            + spec_section_paths(spec_filters()[3]).len() + spec_section_paths(spec_filters()[4]).len()
            + spec_section_paths(spec_filters()[5]).len() + spec_section_paths(spec_filters()[6]).len()
            == spec_managed_files().len(),
{
    lemma_filter_paths();
    let f = spec_filters();
    let m = spec_managed_files();
    let c = "configs/"@;
    assert forall|k: int| 0 <= k < m.len() implies exists|i: int, j: int|
        named_filter(i) && 0 <= j < spec_section_paths(f[i]).len() && spec_section_paths(f[i])[j]
            == c + #[trigger] m[k] by {
        if k == 0 {
            assert(spec_section_paths(f[1])[0] == c + m[k]);
        } else if k == 1 {
            assert(spec_section_paths(f[2])[0] == c + m[k]);
        } else if k == 2 {
            assert(spec_section_paths(f[6])[0] == c + m[k]);
        } else if k == 3 {
            assert(spec_section_paths(f[3])[0] == c + m[k]);
        } else if k == 4 {
            assert(spec_section_paths(f[4])[0] == c + m[k]);
        } else {
            assert(spec_section_paths(f[5])[k - 5] == c + m[k]);
        }
    }
}

/// Each named filter other than Appearance shows files named after it: the
/// file name under `configs/` begins with the filter's name in lower case
/// (the Hyprland filter shows `hyprland.conf`).
pub proof fn law_filters_show_their_own_files()
    ensures
        forall|i: int, j: int|
            named_filter(i) && spec_filters()[i] != "Appearance"@ && 0 <= j < spec_section_paths(
                spec_filters()[i],
            ).len() ==> ({
                let p = #[trigger] spec_section_paths(spec_filters()[i])[j];
                let name = ascii_lower_text(spec_filters()[i]);
                p.len() >= 8 + name.len() && p.subrange(8, 8 + name.len() as int) == name
            }),
{
    lemma_filter_names_differ();
    lemma_filter_paths();
    lemma_named_prefixes();
    let f = spec_filters();
    let m = spec_managed_files();
    let c = "configs/"@;
    assert forall|i: int, j: int|
        named_filter(i) && f[i] != "Appearance"@ && 0 <= j < spec_section_paths(f[i]).len() implies ({
            let p = #[trigger] spec_section_paths(f[i])[j];
            let name = ascii_lower_text(f[i]);
            p.len() >= 8 + name.len() && p.subrange(8, 8 + name.len() as int) == name
        }) by {
        if i == 1 {
            assert(spec_section_paths(f[i])[j] == c + m[0]);
        } else if i == 3 {
            assert(spec_section_paths(f[i])[j] == c + m[3]);
        } else if i == 4 {
            assert(spec_section_paths(f[i])[j] == c + m[4]);
        } else if i == 5 {
            assert(spec_section_paths(f[i])[j] == c + m[5 + j]);
        } else if i == 6 {
            assert(spec_section_paths(f[i])[j] == c + m[2]);
        }
    }
}

/// The files the history records, by name inside the configuration
/// directory.
pub open spec fn spec_managed_files() -> Seq<Seq<char>> {
    seq![
        "hyprland.conf"@,
        "hyprcube-palette.toml"@,
        "hyprcube.toml"@,
        "hyprdeck.toml"@,
        "hyprsaver.toml"@,
        "hyprpaper.conf"@,
        "hyprpaper-hyprcube.conf"@,
        "hyprpaper-hyprcube-theme.conf"@,
    ]
}

pub fn managed_files() -> (r: Vec<&'static str>)
    ensures
        strs_view(r@) == spec_managed_files(),
{
    let r = vec![
        "hyprland.conf",
        "hyprcube-palette.toml",
        "hyprcube.toml",
        "hyprdeck.toml",
        "hyprsaver.toml",
        "hyprpaper.conf",
        "hyprpaper-hyprcube.conf",
        "hyprpaper-hyprcube-theme.conf",
    ];
    assert(strs_view(r@) =~= spec_managed_files());
    r
}

/// A commit message on one line: each newline or carriage return becomes a
/// space, and the result is trimmed.
pub open spec fn spec_commit_message(m: Seq<char>) -> Seq<char> {
    trim(m.map_values(|c: char| if c == '\n' || c == '\r' { ' ' } else { c }))
}

pub fn commit_message(message: &str) -> (r: String)
    ensures
        r@ == spec_commit_message(message@),
{
    let v = chars_of(message);
    let mut w: Vec<char> = Vec::new();
    let mut i: usize = 0;
    let ghost mapped = message@.map_values(|c: char| if c == '\n' || c == '\r' { ' ' } else { c });
    while i < v.len()
        invariant
            v@ == message@,
            mapped == message@.map_values(|c: char| if c == '\n' || c == '\r' { ' ' } else { c }),
            i <= v@.len(),
            w@ == mapped.take(i as int),
        decreases v@.len() - i,
    {
        let c = v[i];
        w.push(if c == '\n' || c == '\r' { ' ' } else { c });
        assert(w@ =~= mapped.take(i + 1));
        i = i + 1;
    }
    assert(w@ =~= mapped);
    let (a, b) = trim_range(&w, 0, w.len());
    assert(w@.subrange(0, w@.len() as int) =~= mapped);
    string_of(&w, a, b)
}

pub open spec fn strs_of(v: Seq<String>) -> Seq<Seq<char>> {
    v.map_values(|x: String| x@)
}

/// The `git commit` arguments of a capture: none when the index holds no
/// change since an existing `HEAD`; otherwise a quiet commit with the
/// message on one line, allowed to be empty when it is the first.
pub fn commit_args(message: &str, has_head: bool, staged_clean: bool) -> (r: Option<Vec<String>>)
    ensures
        has_head && staged_clean ==> r is None,
        !(has_head && staged_clean) ==> (r matches Some(a) && strs_of(a@) == seq![
            "commit"@,
            "--quiet"@,
            "-m"@,
            spec_commit_message(message@),
        ] + (if has_head {
            Seq::<Seq<char>>::empty()
        } else {
            seq!["--allow-empty"@]
        })),
{
    if has_head && staged_clean {
        return None;
    }
    let mut args = vec!["commit".to_string(), "--quiet".to_string(), "-m".to_string(), commit_message(message)];
    if !has_head {
        args.push("--allow-empty".to_string());
    }
    proof {
        let tail = if has_head {
            Seq::<Seq<char>>::empty()
        } else {
            seq!["--allow-empty"@]
        };
        assert(strs_of(args@) =~= seq!["commit"@, "--quiet"@, "-m"@, spec_commit_message(message@)] + tail);
    }
    Some(args)
}

/// The error of a git command that failed: its trimmed error output.
pub fn git_error(stderr: &[u8]) -> (e: HistoryError)
    ensures
        e matches HistoryError::Git(m) && m@ == trim(utf8_lossy(stderr@)),
{
    let text = lossy_text(stderr);
    HistoryError::Git(crate::text::trim_string(text.as_str()))
}


pub open spec fn no_diff_notice() -> Seq<char> {
    "No differences between the selected and current configuration in this section."@
}

/// What the History panel shows for a diff: the diff itself, or a notice
/// when it is blank.
pub fn diff_text(stdout: &[u8]) -> (r: String)
    ensures
        r@ == (if trim(utf8_lossy(stdout@)).len() == 0 {
            no_diff_notice()
        } else {
            utf8_lossy(stdout@)
        }),
{
    let stdout = lossy_text(stdout);
    let v = chars_of(stdout.as_str());
    let (a, b) = trim_range(&v, 0, v.len());
    assert(v@.subrange(0, v@.len() as int) =~= stdout@);
    if a == b {
        "No differences between the selected and current configuration in this section.".to_string()
    } else {
        stdout
    }
}

// ---------------------------------------------------------------------------
// Reading the log and the snapshot tags
// ---------------------------------------------------------------------------

/// `s` split at each `sep` into at most `n` pieces (`str::splitn`).
pub open spec fn splitn(s: Seq<char>, n: nat, sep: char) -> Seq<Seq<char>>
    decreases n,
{
    if n <= 1 {
        seq![s]
    } else {
        match split_once_spec(s, sep) {
            Some((a, rest)) => seq![a] + splitn(rest, (n - 1) as nat, sep),
            None => seq![s],
        }
    }
}

/// The revision a log line `hash US short US time US summary` describes,
/// with the names of the snapshots that point at it; `None` when the line
/// has no second field.
pub open spec fn spec_log_revision(line: Seq<char>, snaps: Seq<(Seq<char>, Seq<char>)>) -> Option<
    (Seq<char>, Seq<char>, u64, Seq<char>, Seq<Seq<char>>),
> {
    let f = splitn(line, 4, '\u{1f}');
    if f.len() < 2 {
        None
    } else {
        let ts = if f.len() > 2 {
            match spec_parse_u64(f[2]) {
                Some(t) => t,
                None => 0,
            }
        } else {
            0
        };
        let summary = if f.len() > 3 {
            f[3]
        } else {
            seq![]
        };
        Some((f[0], f[1], ts, summary, snapshots_at(snaps, f[0])))
    }
}

/// The names of the snapshots whose target is `hash`, in order.
pub open spec fn snapshots_at(snaps: Seq<(Seq<char>, Seq<char>)>, hash: Seq<char>) -> Seq<Seq<char>>
    decreases snaps.len(),
{
    if snaps.len() == 0 {
        seq![]
    } else if snaps.last().1 == hash {
        snapshots_at(snaps.drop_last(), hash).push(snaps.last().0)
    } else {
        snapshots_at(snaps.drop_last(), hash)
    }
}

pub open spec fn revision_view(r: Revision) -> (Seq<char>, Seq<char>, u64, Seq<char>, Seq<Seq<char>>) {
    (r.hash@, r.short_hash@, r.timestamp, r.summary@, r.snapshots@.map_values(|s: String| s@))
}

/// The revisions of a whole log, in order.
pub open spec fn spec_revisions(ls: Seq<Seq<char>>, snaps: Seq<(Seq<char>, Seq<char>)>) -> Seq<
    (Seq<char>, Seq<char>, u64, Seq<char>, Seq<Seq<char>>),
>
    decreases ls.len(),
{
    if ls.len() == 0 {
        seq![]
    } else {
        match spec_log_revision(ls.last(), snaps) {
            Some(r) => spec_revisions(ls.drop_last(), snaps).push(r),
            None => spec_revisions(ls.drop_last(), snaps),
        }
    }
}

pub open spec fn pair_view(v: Seq<(String, String)>) -> Seq<(Seq<char>, Seq<char>)> {
    v.map_values(|p: (String, String)| (p.0@, p.1@))
}

/// `splitn` executed.
fn split_fields(s: &str, n: usize, sep: char) -> (r: Vec<String>)
    requires
        n >= 1,
    ensures
        r@.map_values(|x: String| x@) == splitn(s@, n as nat, sep),
    decreases n,
{
    if n <= 1 {
        let r = vec![s.to_string()];
        assert(r@.map_values(|x: String| x@) =~= seq![s@]);
        return r;
    }
    match split_once(s, sep) {
        Some((a, rest)) => {
            let tail = split_fields(rest.as_str(), n - 1, sep);
            let mut r = vec![a];
            let ghost tv = tail@;
            let mut t = tail;
            r.append(&mut t);
            assert(r@.map_values(|x: String| x@) =~= seq![a@] + tv.map_values(|x: String| x@));
            r
        },
        None => {
            let r = vec![s.to_string()];
            assert(r@.map_values(|x: String| x@) =~= seq![s@]);
            r
        },
    }
}

fn snapshots_for(snaps: &Vec<(String, String)>, hash: &str) -> (r: Vec<String>)
    ensures
        r@.map_values(|s: String| s@) == snapshots_at(pair_view(snaps@), hash@),
{
    let ghost sv = pair_view(snaps@);
    let mut out: Vec<String> = Vec::new();
    let mut i: usize = 0;
    assert(out@.map_values(|s: String| s@) =~= snapshots_at(sv.take(0), hash@));
    while i < snaps.len()
        invariant
            sv == pair_view(snaps@),
            i <= snaps@.len(),
            out@.map_values(|s: String| s@) == snapshots_at(sv.take(i as int), hash@),
        decreases snaps@.len() - i,
    {
        proof {
            assert(sv.take(i + 1).drop_last() =~= sv.take(i as int));
            assert(sv.take(i + 1).last() == sv[i as int]);
        }
        if crate::text::str_eq(snaps[i].1.as_str(), hash) {
            let ghost before = out@;
            out.push(snaps[i].0.clone());
            assert(out@.map_values(|s: String| s@) =~= before.map_values(|s: String| s@).push(
                snaps@[i as int].0@,
            ));
        }
        i = i + 1;
    }
    assert(sv.take(snaps@.len() as int) =~= sv);
    out
}

/// The revisions listed by `git log --format=%H%x1f%h%x1f%ct%x1f%s`, each
/// with the snapshots (name, target) that point at it.
pub fn parse_revisions(log: &[u8], snapshots: &Vec<(String, String)>) -> (r: Vec<Revision>)
    ensures
        r@.map_values(|x: Revision| revision_view(x)) == spec_revisions(std_lines(utf8_lossy(log@)), pair_view(snapshots@)),
{
    let text = lossy_text(log);
    let log = text.as_str();
    let ls = std_lines_of(log);
    let ghost gl = std_lines(log@);
    let ghost sv = pair_view(snapshots@);
    let mut out: Vec<Revision> = Vec::new();
    let mut i: usize = 0;
    assert(out@.map_values(|x: Revision| revision_view(x)) =~= spec_revisions(gl.take(0), sv));
    while i < ls.len()
        invariant
            ls@.len() == gl.len(),
            gl == std_lines(log@),
            sv == pair_view(snapshots@),
            forall|j: int| 0 <= j < ls@.len() ==> (#[trigger] ls@[j])@ == gl[j],
            i <= ls@.len(),
            out@.map_values(|x: Revision| revision_view(x)) == spec_revisions(gl.take(i as int), sv),
        decreases ls@.len() - i,
    {
        proof {
            assert(gl.take(i + 1).drop_last() =~= gl.take(i as int));
            assert(gl.take(i + 1).last() == gl[i as int]);
        }
        let f = split_fields(ls[i].as_str(), 4, '\u{1f}');
        let ghost fv = f@.map_values(|x: String| x@);
        assert(fv.len() == f@.len());
        if f.len() >= 2 {
            let timestamp = if f.len() > 2 {
                match parse_u64(f[2].as_str()) {
                    Some(t) => t,
                    None => 0,
                }
            } else {
                0
            };
            let summary = if f.len() > 3 {
                f[3].clone()
            } else {
                String::new()
            };
            let snaps = snapshots_for(snapshots, f[0].as_str());
            let rev = Revision {
                hash: f[0].clone(),
                short_hash: f[1].clone(),
                timestamp,
                summary,
                snapshots: snaps,
            };
            let ghost before = out@;
            proof {
                assert(fv[0] == f@[0]@);
                assert(fv[1] == f@[1]@);
                if f@.len() > 2 {
                    assert(fv[2] == f@[2]@);
                }
                if f@.len() > 3 {
                    assert(fv[3] == f@[3]@);
                }
                assert(spec_log_revision(gl[i as int], sv) == Some(revision_view(rev)));
            }
            out.push(rev);
            assert(out@.map_values(|x: Revision| revision_view(x)) =~= before.map_values(
                |x: Revision| revision_view(x),
            ).push(revision_view(rev)));
        }
        i = i + 1;
    }
    assert(gl.take(ls@.len() as int) =~= gl);
    out
}

/// The `name NUL target` pairs of `git for-each-ref` output.
pub open spec fn spec_snapshot_refs(ls: Seq<Seq<char>>) -> Seq<(Seq<char>, Seq<char>)>
    decreases ls.len(),
{
    if ls.len() == 0 {
        seq![]
    } else {
        match split_once_spec(ls.last(), '\u{0}') {
            Some((a, b)) => spec_snapshot_refs(ls.drop_last()).push((a, b)),
            None => spec_snapshot_refs(ls.drop_last()),
        }
    }
}

pub fn parse_snapshot_refs(stdout: &[u8]) -> (r: Vec<(String, String)>)
    ensures
        pair_view(r@) == spec_snapshot_refs(std_lines(utf8_lossy(stdout@))),
{
    let text = lossy_text(stdout);
    let stdout = text.as_str();
    let ls = std_lines_of(stdout);
    let ghost gl = std_lines(stdout@);
    let mut out: Vec<(String, String)> = Vec::new();
    let mut i: usize = 0;
    assert(pair_view(out@) =~= spec_snapshot_refs(gl.take(0)));
    while i < ls.len()
        invariant
            ls@.len() == gl.len(),
            gl == std_lines(stdout@),
            forall|j: int| 0 <= j < ls@.len() ==> (#[trigger] ls@[j])@ == gl[j],
            i <= ls@.len(),
            pair_view(out@) == spec_snapshot_refs(gl.take(i as int)),
        decreases ls@.len() - i,
    {
        proof {
            assert(gl.take(i + 1).drop_last() =~= gl.take(i as int));
            assert(gl.take(i + 1).last() == gl[i as int]);
        }
        match split_once(ls[i].as_str(), '\u{0}') {
            Some((a, b)) => {
                let ghost before = out@;
                out.push((a, b));
                assert(pair_view(out@) =~= pair_view(before).push((a@, b@)));
            },
            None => {},
        }
        i = i + 1;
    }
    assert(gl.take(ls@.len() as int) =~= gl);
    out
}

/// How long ago a revision was made: `now` under a minute, then whole
/// minutes, hours or days.
pub open spec fn spec_revision_age(now: u64, timestamp: u64) -> Seq<char> {
    let elapsed: nat = if now >= timestamp { (now - timestamp) as nat } else { 0 };
    if elapsed <= 59 {
        "now"@
    } else if elapsed <= 3599 {
        decimal(elapsed / 60) + "m"@
    } else if elapsed <= 86_399 {
        decimal(elapsed / 3600) + "h"@
    } else {
        decimal(elapsed / 86_400) + "d"@
    }
}

pub fn revision_age(now: u64, timestamp: u64) -> (r: String)
    ensures
        r@ == spec_revision_age(now, timestamp),
{
    let elapsed = now.saturating_sub(timestamp);
    if elapsed <= 59 {
        return "now".to_string();
    }
    let mut s = String::new();
    if elapsed <= 3599 {
        push_decimal(&mut s, elapsed / 60);
        s.append("m");
    } else if elapsed <= 86_399 {
        push_decimal(&mut s, elapsed / 3600);
        s.append("h");
    } else {
        push_decimal(&mut s, elapsed / 86_400);
        s.append("d");
    }
    s
}

// ---------------------------------------------------------------------------
// The history repository
// ---------------------------------------------------------------------------

/// The private git repository that records the managed files, and the
/// configuration directory it mirrors.  Running git and copying files is
/// the caller's part; this says which commands to run and what their output
/// means.
pub struct HistoryStore {
    pub repo: std::path::PathBuf,
    pub config_dir: std::path::PathBuf,
}

/// The commands that set up a new repository, in order.
pub open spec fn spec_init_commands() -> Seq<Seq<Seq<char>>> {
    seq![
        seq!["init"@, "--initial-branch=main"@],
        seq!["config"@, "user.name"@, "HyprCube configuration history"@],
        seq!["config"@, "user.email"@, "history@hyprcube.local"@],
        seq!["config"@, "core.autocrlf"@, "false"@],
    ]
}

/// The `git log` arguments that list the recorded revisions.
pub open spec fn spec_log_command() -> Seq<Seq<char>> {
    seq![
        "log"@,
        "--first-parent"@,
        "--max-count="@ + decimal(MAX_REVISIONS as nat),
        "--format=%H%x1f%h%x1f%ct%x1f%s"@,
    ]
}

/// The `git for-each-ref` arguments that list the snapshot tags.
pub open spec fn spec_snapshot_refs_command() -> Seq<Seq<char>> {
    seq!["for-each-ref"@, "--format=%(refname:strip=3)%00%(objectname)"@, "refs/tags/snapshot/"@]
}

pub open spec fn args_of(v: Seq<Vec<String>>) -> Seq<Seq<Seq<char>>> {
    v.map_values(|a: Vec<String>| strs_of(a@))
}

impl HistoryStore {
    /// A store over the repository `repo`, mirroring `config_dir`.
    pub fn new(repo: std::path::PathBuf, config_dir: std::path::PathBuf) -> (s: Self)
        ensures
            s.repo == repo,
            s.config_dir == config_dir,
    {
        HistoryStore { repo, config_dir }
    }

    /// The commands that set up a new repository, in order.
    pub fn init_commands() -> (r: Vec<Vec<String>>)
        ensures
            args_of(r@) == spec_init_commands(),
    {
        let r = vec![
            vec!["init".to_string(), "--initial-branch=main".to_string()],
            vec!["config".to_string(), "user.name".to_string(), "HyprCube configuration history".to_string()],
            vec!["config".to_string(), "user.email".to_string(), "history@hyprcube.local".to_string()],
            vec!["config".to_string(), "core.autocrlf".to_string(), "false".to_string()],
        ];
        assert(strs_of(r@[0]@) =~= spec_init_commands()[0]);
        assert(strs_of(r@[1]@) =~= spec_init_commands()[1]);
        assert(strs_of(r@[2]@) =~= spec_init_commands()[2]);
        assert(strs_of(r@[3]@) =~= spec_init_commands()[3]);
        assert(args_of(r@) =~= spec_init_commands());
        r
    }

    /// The `git commit` arguments of a capture, given whether the repository
    /// has a `HEAD` and whether the staged files match it: none when nothing
    /// changed.
    pub fn capture(&self, message: &str, has_head: bool, staged_clean: bool) -> (r: Option<Vec<String>>)
        ensures
            has_head && staged_clean ==> r is None,
            !(has_head && staged_clean) ==> (r matches Some(a) && strs_of(a@) == seq![
                "commit"@,
                "--quiet"@,
                "-m"@,
                spec_commit_message(message@),
            ] + (if has_head {
                Seq::<Seq<char>>::empty()
            } else {
                seq!["--allow-empty"@]
            })),
    {
        commit_args(message, has_head, staged_clean)
    }

    /// The `git log` arguments that list the recorded revisions.
    pub fn log_command() -> (r: Vec<String>)
        ensures
            strs_of(r@) == spec_log_command(),
    {
        let mut count = "--max-count=".to_string();
        push_decimal(&mut count, MAX_REVISIONS);
        let r = vec!["log".to_string(), "--first-parent".to_string(), count, "--format=%H%x1f%h%x1f%ct%x1f%s".to_string()];
        assert(strs_of(r@) =~= spec_log_command());
        r
    }

    /// The `git for-each-ref` arguments that list the snapshot tags.
    pub fn snapshot_refs_command() -> (r: Vec<String>)
        ensures
            strs_of(r@) == spec_snapshot_refs_command(),
    {
        let r = vec![
            "for-each-ref".to_string(),
            "--format=%(refname:strip=3)%00%(objectname)".to_string(),
            "refs/tags/snapshot/".to_string(),
        ];
        assert(strs_of(r@) =~= spec_snapshot_refs_command());
        r
    }

    /// The recorded revisions: none before the first commit; otherwise those
    /// `git log` printed, each with the snapshots `git for-each-ref` printed
    /// for it.
    pub fn revisions(&self, has_head: bool, log: &[u8], snapshot_refs: &[u8]) -> (r: Vec<Revision>)
        ensures
            !has_head ==> r@.len() == 0,
            has_head ==> r@.map_values(|x: Revision| revision_view(x)) == spec_revisions(
                std_lines(utf8_lossy(log@)),
                spec_snapshot_refs(std_lines(utf8_lossy(snapshot_refs@))),
            ),
    {
        if !has_head {
            return Vec::new();
        }
        let snapshots = parse_snapshot_refs(snapshot_refs);
        parse_revisions(log, &snapshots)
    }

    /// The `git diff` arguments comparing `revision` with `HEAD` in the files
    /// of `section`; a revision that is not a full hash is refused.
    pub fn diff(&self, revision: &str, section: &str) -> (r: Result<Vec<String>, HistoryError>)
        ensures
            is_full_hash(revision@) ==> (r matches Ok(a) && strs_of(a@) == seq![
                "diff"@,
                "--no-ext-diff"@,
                "--unified=3"@,
                "HEAD"@,
                revision@,
                "--"@,
            ] + spec_section_paths(section@)),
            !is_full_hash(revision@) ==> (r matches Err(HistoryError::InvalidRevision(s)) && s@ == revision@),
    {
        match validate_revision(revision) {
            Err(e) => Err(e),
            Ok(()) => {
                let mut args = vec![
                    "diff".to_string(),
                    "--no-ext-diff".to_string(),
                    "--unified=3".to_string(),
                    "HEAD".to_string(),
                    revision.to_string(),
                    "--".to_string(),
                ];
                let paths = section_paths(section);
                let ghost base = strs_of(args@);
                let mut i: usize = 0;
                while i < paths.len()
                    invariant
                        i <= paths@.len(),
                        strs_of(args@) == base + strs_view(paths@).take(i as int),
                    decreases paths@.len() - i,
                {
                    let ghost before = args@;
                    args.push(paths[i].to_string());
                    assert(strs_of(args@) =~= strs_of(before).push(paths@[i as int]@));
                    assert(strs_view(paths@).take(i + 1) =~= strs_view(paths@).take(i as int).push(paths@[i as int]@));
                    i = i + 1;
                }
                assert(strs_view(paths@).take(paths@.len() as int) =~= strs_view(paths@));
                Ok(args)
            },
        }
    }

    /// The tag name of a snapshot called `name` of `revision`, and the
    /// `git tag` arguments that create it; a revision that is not a full
    /// hash, or a name with no letter or digit, is refused.
    pub fn create_snapshot(&self, name: &str, revision: &str) -> (r: Result<(String, Vec<String>), HistoryError>)
        ensures
            !is_full_hash(revision@) ==> (r matches Err(HistoryError::InvalidRevision(s)) && s@ == revision@),
            is_full_hash(revision@) ==> match spec_snapshot_slug(name@) {
                None => r matches Err(HistoryError::InvalidSnapshotName),
                Some(slug) => r matches Ok((s, a)) && s@ == slug && strs_of(a@) == seq![
                    "tag"@,
                    "snapshot/"@ + slug,
                    revision@,
                ],
            },
    {
        match validate_revision(revision) {
            Err(e) => Err(e),
            Ok(()) => match snapshot_slug(name) {
                None => Err(HistoryError::InvalidSnapshotName),
                Some(slug) => {
                    let mut tag = "snapshot/".to_string();
                    tag.append(slug.as_str());
                    let args = vec!["tag".to_string(), tag, revision.to_string()];
                    assert(strs_of(args@) =~= seq!["tag"@, "snapshot/"@ + slug@, revision@]);
                    Ok((slug, args))
                },
            },
        }
    }

    /// The object that holds the managed file `name` at `revision`:
    /// `REVISION:configs/NAME`.
    pub fn file_object(revision: &str, name: &str) -> (r: String)
        ensures
            r@ == revision@ + ":configs/"@ + name@,
    {
        let mut s = revision.to_string();
        s.append(":configs/");
        s.append(name);
        s
    }
}

// ---------------------------------------------------------------------------
// The History panel
// ---------------------------------------------------------------------------

/// The History filters, in the order the panel shows them.
pub open spec fn spec_filters() -> Seq<Seq<char>> {
    seq!["All"@, "Hyprland"@, "Appearance"@, "HyprDeck"@, "HyprSaver"@, "Hyprpaper"@, "HyprCube"@]
}

pub fn filters() -> (r: Vec<&'static str>)
    ensures
        strs_view(r@) == spec_filters(),
{
    let r = vec!["All", "Hyprland", "Appearance", "HyprDeck", "HyprSaver", "Hyprpaper", "HyprCube"];
    assert(strs_view(r@) =~= spec_filters());
    r
}

pub open spec fn no_versions_notice() -> Seq<char> {
    "No configuration versions have been recorded yet."@
}

/// The snapshot name after typing `text` into `name`: each printable
/// character is added while the name is shorter than 48 characters.
pub open spec fn typed_name(name: Seq<char>, text: Seq<char>) -> Seq<char>
    decreases text.len(),
{
    if text.len() == 0 {
        name
    } else {
        let c = text[0];
        let next = if !is_control(c) && name.len() < 48 {
            name.push(c)
        } else {
            name
        };
        typed_name(next, text.drop_first())
    }
}

/// What a key press asks of the History panel when the snapshot name has
/// the focus.
#[derive(Debug, Clone, Copy, PartialEq, Eq)]
pub enum SnapshotKey {
    /// The name was edited, or the key did nothing.
    Edited,
    /// Return: save a snapshot under the current name.
    Submit,
}

/// The lines from position `start` on, at most `max` of them.
pub open spec fn visible_lines(ls: Seq<Seq<char>>, start: int, max: int) -> Seq<Seq<char>> {
    if start >= ls.len() {
        seq![]
    } else if ls.len() - start <= max {
        ls.subrange(start, ls.len() as int)
    } else {
        ls.subrange(start, start + max)
    }
}

/// How a line of a diff is coloured: added, removed, a hunk or file
/// header, or unchanged context.
#[derive(Debug, Clone, Copy, PartialEq, Eq)]
pub enum DiffLineKind {
    Added,
    Removed,
    Header,
    Context,
}

pub open spec fn begins(s: Seq<char>, p: Seq<char>) -> bool {
    s.len() >= p.len() && s.take(p.len() as int) == p
}

/// A `+` line that is not the `+++` file header is added, a `-` line that
/// is not `---` is removed, `@@` and `diff ` lines are headers, the rest is
/// context.
pub open spec fn spec_diff_line_kind(line: Seq<char>) -> DiffLineKind {
    if begins(line, "+"@) && !begins(line, "+++"@) {
        DiffLineKind::Added
    } else if begins(line, "-"@) && !begins(line, "---"@) {
        DiffLineKind::Removed
    } else if begins(line, "@@"@) || begins(line, "diff "@) {
        DiffLineKind::Header
    } else {
        DiffLineKind::Context
    }
}

pub fn diff_line_kind(line: &str) -> (r: DiffLineKind)
    ensures
        r == spec_diff_line_kind(line@),
{
    if str_starts_with(line, "+") && !str_starts_with(line, "+++") {
        DiffLineKind::Added
    } else if str_starts_with(line, "-") && !str_starts_with(line, "---") {
        DiffLineKind::Removed
    } else if str_starts_with(line, "@@") || str_starts_with(line, "diff ") {
        DiffLineKind::Header
    } else {
        DiffLineKind::Context
    }
}

/// The first line of a revision's row: its short hash, two spaces, its age
/// at `now`, and ` ★ ` with its snapshot names joined by `", "` when it has
/// any.
pub open spec fn spec_revision_label(r: Revision, now: u64) -> Seq<char> {
    r.short_hash@ + "  "@ + spec_revision_age(now, r.timestamp) + if r.snapshots@.len() == 0 {
        Seq::<char>::empty()
    } else {
        " \u{2605} "@ + join_with(r.snapshots@.map_values(|s: String| s@), ", "@)
    }
}

pub fn revision_label(r: &Revision, now: u64) -> (s: String)
    ensures
        s@ == spec_revision_label(*r, now),
{
    let mut s = r.short_hash.clone();
    s.append("  ");
    let age = revision_age(now, r.timestamp);
    s.append(age.as_str());
    if r.snapshots.len() > 0 {
        s.append(" \u{2605} ");
        let j = join_strings(&r.snapshots, ", ");
        s.append(j.as_str());
    }
    s
}

/// The state of the History panel: the listed revisions, the selection,
/// the diff filter and text, and the snapshot-name field.
pub struct HistoryPanel {
    pub revisions: Vec<Revision>,
    pub selected: usize,
    pub filter: String,
    pub diff: String,
    pub diff_scroll: usize,
    pub snapshot_name: String,
    pub snapshot_focused: bool,
    pub status: String,
    pub external_change: Option<ExternalConfigChange>,
}

impl HistoryPanel {
    /// A panel with no revisions yet, showing every section, with `error`
    /// (why the history could not be opened) as its status.
    pub fn new(error: Option<String>) -> (p: Self)
        ensures
            p.revisions@.len() == 0,
            p.selected == 0,
            p.filter@ == "All"@,
            p.diff@.len() == 0,
            p.diff_scroll == 0,
            p.snapshot_name@.len() == 0,
            !p.snapshot_focused,
            p.status@ == (match error {
                Some(e) => e@,
                None => Seq::<char>::empty(),
            }),
            p.external_change is None,
    {
        let status = match error {
            Some(e) => e,
            None => String::new(),
        };
        HistoryPanel {
            revisions: Vec::new(),
            selected: 0,
            filter: "All".to_string(),
            diff: String::new(),
            diff_scroll: 0,
            snapshot_name: String::new(),
            snapshot_focused: false,
            status,
            external_change: None,
        }
    }

    /// The heading over the diff, naming the section filter.
    pub fn diff_title(&self) -> (r: String)
        ensures
            r@ == "Current \u{2192} selected diff \u{2014} "@ + self.filter@,
    {
        let mut r = "Current \u{2192} selected diff \u{2014} ".to_string();
        r.append(self.filter.as_str());
        r
    }

    /// The diff lines shown: from the scroll position on, at most
    /// `max_lines` of them.
    pub fn visible_diff_lines(&self, max_lines: usize) -> (r: Vec<String>)
        ensures
            r@.map_values(|l: String| l@) == visible_lines(std_lines(self.diff@), self.diff_scroll as int, max_lines as int),
    {
        let ls = std_lines_of(self.diff.as_str());
        let ghost gl = std_lines(self.diff@);
        let mut out: Vec<String> = Vec::new();
        let start = self.diff_scroll;
        if start >= ls.len() {
            assert(out@.map_values(|l: String| l@) =~= visible_lines(gl, start as int, max_lines as int));
            return out;
        }
        let mut i: usize = start;
        assert(out@.map_values(|l: String| l@) =~= gl.subrange(start as int, i as int));
        while i < ls.len() && i - start < max_lines
            invariant
                ls@.len() == gl.len(),
                forall|j: int| 0 <= j < ls@.len() ==> (#[trigger] ls@[j])@ == gl[j],
                start == self.diff_scroll,
                start < ls@.len(),
                start <= i <= ls@.len(),
                i - start <= max_lines,
                out@.map_values(|l: String| l@) == gl.subrange(start as int, i as int),
            decreases ls@.len() - i,
        {
            let ghost before = out@;
            out.push(ls[i].clone());
            assert(out@.map_values(|l: String| l@) =~= before.map_values(|l: String| l@).push(gl[i as int]));
            assert(out@.map_values(|l: String| l@) =~= gl.subrange(start as int, i + 1));
            i = i + 1;
        }
        assert(out@.map_values(|l: String| l@) =~= visible_lines(gl, start as int, max_lines as int));
        out
    }

    /// History actions work on the files on disk, so they wait until the
    /// editor has no unsaved changes.
    pub fn requires_clean_state(&self) -> (r: bool)
        ensures
            r,
    {
        true
    }

    /// Replaces the listed revisions, keeping the selected revision selected
    /// when it is still listed, else selecting the newest.
    pub fn apply_revisions(&mut self, revisions: Vec<Revision>)
        ensures
            final(self).revisions@ == revisions@,
            ({
                let old_hash = if old(self).selected < old(self).revisions@.len() {
                    Some(old(self).revisions@[old(self).selected as int].hash@)
                } else {
                    None
                };
                let n = revisions@.len();
                match old_hash {
                    Some(h) if exists|k: int| 0 <= k < n && revisions@[k].hash@ == h => {
                        &&& final(self).selected < n
                        &&& revisions@[final(self).selected as int].hash@ == h
                        &&& forall|k: int| 0 <= k < final(self).selected ==> revisions@[k].hash@ != h
                    },
                    _ => final(self).selected == 0,
                }
            }),
            final(self).filter == old(self).filter,
            final(self).diff == old(self).diff,
            final(self).diff_scroll == old(self).diff_scroll,
            final(self).snapshot_name == old(self).snapshot_name,
            final(self).snapshot_focused == old(self).snapshot_focused,
            final(self).status == old(self).status,
            final(self).external_change == old(self).external_change,
    {
        let mut found: Option<usize> = None;
        if self.selected < self.revisions.len() {
            let h = self.revisions[self.selected].hash.clone();
            let mut k: usize = 0;
            let mut hit = false;
            while k < revisions.len() && !hit
                invariant
                    k <= revisions@.len(),
                    h@ == old(self).revisions@[old(self).selected as int].hash@,
                    *self == *old(self),
                    self.selected < self.revisions@.len(),
                    forall|j: int| 0 <= j < k ==> revisions@[j].hash@ != h@,
                    hit ==> k < revisions@.len() && revisions@[k as int].hash@ == h@,
                decreases revisions@.len() - k + (if hit { 0int } else { 1int }),
            {
                if revisions[k].hash == h {
                    hit = true;
                } else {
                    k = k + 1;
                }
            }
            if hit {
                found = Some(k);
            } else {
                assert(!exists|j: int| 0 <= j < revisions@.len() && revisions@[j].hash@ == h@);
            }
        }
        self.revisions = revisions;
        self.selected = match found {
            Some(k) => k,
            None => 0,
        };
    }

    /// Moves the selection one revision older, stopping at the oldest.
    pub fn select_older(&mut self)
        ensures
            final(self).selected == (if old(self).selected + 1 <= (if old(self).revisions@.len() > 0 {
                old(self).revisions@.len() - 1
            } else {
                0
            }) {
                old(self).selected + 1
            } else if old(self).revisions@.len() > 0 {
                (old(self).revisions@.len() - 1) as int
            } else {
                0
            }),
            final(self).revisions == old(self).revisions,
            final(self).filter == old(self).filter,
            final(self).snapshot_name == old(self).snapshot_name,
    {
        let last = self.revisions.len().saturating_sub(1);
        let next = if self.selected < usize::MAX { self.selected + 1 } else { self.selected };
        self.selected = if next <= last {
            next
        } else {
            last
        };
    }

    /// Moves the selection one revision newer, stopping at the newest.
    pub fn select_newer(&mut self)
        ensures
            final(self).selected == (if old(self).selected > 0 {
                old(self).selected - 1
            } else {
                0
            }),
            final(self).revisions == old(self).revisions,
            final(self).filter == old(self).filter,
    {
        self.selected = self.selected.saturating_sub(1);
    }

    /// Selects the revision in row `index` of the list, when there is one.
    pub fn select_row(&mut self, index: usize) -> (changed: bool)
        ensures
            changed == (index < old(self).revisions@.len()),
            final(self).selected == (if changed { index } else { old(self).selected }),
            final(self).revisions == old(self).revisions,
    {
        if index < self.revisions.len() {
            self.selected = index;
            true
        } else {
            false
        }
    }

    /// Shows the changes of one section (or `All`).
    pub fn set_filter(&mut self, filter: &str)
        ensures
            final(self).filter@ == filter@,
            final(self).selected == old(self).selected,
            final(self).revisions == old(self).revisions,
    {
        self.filter = filter.to_string();
    }

    /// Starts showing the diff of the selected revision: the scroll position
    /// is reset, and the revision hash and filter to diff are returned; with
    /// no revision selected the diff shows that nothing was recorded.
    pub fn begin_diff(&mut self) -> (r: Option<(String, String)>)
        ensures
            final(self).diff_scroll == 0,
            final(self).selected == old(self).selected,
            final(self).revisions == old(self).revisions,
            final(self).filter == old(self).filter,
            final(self).status == old(self).status,
            old(self).selected < old(self).revisions@.len() ==> {
                &&& r matches Some((h, f))
                &&& h@ == old(self).revisions@[old(self).selected as int].hash@
                &&& f@ == old(self).filter@
                &&& final(self).diff == old(self).diff
            },
            old(self).selected >= old(self).revisions@.len() ==> r is None && final(self).diff@
                == no_versions_notice(),
    {
        self.diff_scroll = 0;
        if self.selected < self.revisions.len() {
            Some((self.revisions[self.selected].hash.clone(), self.filter.clone()))
        } else {
            self.diff = "No configuration versions have been recorded yet.".to_string();
            None
        }
    }

    /// Records what the diff request gave: the diff text, or the error
    /// message as the status.
    pub fn finish_diff(&mut self, result: Result<String, String>)
        ensures
            match result {
                Ok(d) => final(self).diff == d && final(self).status == old(self).status,
                Err(e) => final(self).status == e && final(self).diff == old(self).diff,
            },
            final(self).selected == old(self).selected,
            final(self).revisions == old(self).revisions,
    {
        match result {
            Ok(d) => self.diff = d,
            Err(e) => self.status = e,
        }
    }

    /// Scrolls the diff three lines, down (`true`) as far as its last line
    /// or up as far as its first.
    pub fn scroll_diff(&mut self, down: bool)
        ensures
            ({
                let count = lines(old(self).diff@).len();
                let last: int = if count > 0 { count - 1 } else { 0 };
                final(self).diff_scroll == (if down {
                    if old(self).diff_scroll + 3 <= last { old(self).diff_scroll + 3 } else { last }
                } else if old(self).diff_scroll >= 3 {
                    old(self).diff_scroll - 3
                } else {
                    0
                })
            }),
            final(self).diff == old(self).diff,
            final(self).selected == old(self).selected,
    {
        let count = lines_of(self.diff.as_str()).len();
        if down {
            let last = count.saturating_sub(1);
            let next = self.diff_scroll.saturating_add(3);
            self.diff_scroll = if next <= last {
                next
            } else {
                last
            };
        } else {
            self.diff_scroll = self.diff_scroll.saturating_sub(3);
        }
    }

    /// A key press while the snapshot name has the focus: BackSpace removes
    /// the last character, Return or KP_Enter asks for the snapshot, and any
    /// other key types its printable text, up to 48 characters.
    pub fn snapshot_key(&mut self, key: &str, utf8: Option<&str>) -> (r: SnapshotKey)
        ensures
            key@ == "BackSpace"@ ==> r == SnapshotKey::Edited && final(self).snapshot_name@ == (
            if old(self).snapshot_name@.len() > 0 {
                old(self).snapshot_name@.drop_last()
            } else {
                old(self).snapshot_name@
            }),
            (key@ == "Return"@ || key@ == "KP_Enter"@) ==> r == SnapshotKey::Submit
                && final(self).snapshot_name == old(self).snapshot_name,
            (key@ != "BackSpace"@ && key@ != "Return"@ && key@ != "KP_Enter"@) ==> r
                == SnapshotKey::Edited && final(self).snapshot_name@ == match utf8 {
                Some(t) => typed_name(old(self).snapshot_name@, t@),
                None => old(self).snapshot_name@,
            },
            final(self).selected == old(self).selected,
            final(self).revisions == old(self).revisions,
    {
        proof {
            reveal_strlit("BackSpace");
            reveal_strlit("Return");
            reveal_strlit("KP_Enter");
        }
        if crate::text::str_eq(key, "BackSpace") {
            assert("BackSpace"@.len() == 9 && "Return"@.len() == 6 && "KP_Enter"@.len() == 8);
            let v = chars_of(self.snapshot_name.as_str());
            if v.len() > 0 {
                self.snapshot_name = string_of(&v, 0, v.len() - 1);
                assert(v@.subrange(0, v@.len() - 1) =~= old(self).snapshot_name@.drop_last());
            }
            return SnapshotKey::Edited;
        }
        if crate::text::str_eq(key, "Return") || crate::text::str_eq(key, "KP_Enter") {
            return SnapshotKey::Submit;
        }
        match utf8 {
            Some(text) => {
                let cs = chars_of(text);
                let mut count = chars_of(self.snapshot_name.as_str()).len();
                let mut i: usize = 0;
                assert(cs@.skip(0) =~= cs@);
                while i < cs.len()
                    invariant
                        cs@ == text@,
                        i <= cs@.len(),
                        count == self.snapshot_name@.len(),
                        typed_name(old(self).snapshot_name@, text@) == typed_name(
                            self.snapshot_name@,
                            cs@.skip(i as int),
                        ),
                        self.selected == old(self).selected,
                        self.revisions == old(self).revisions,
                    decreases cs@.len() - i,
                {
                    let c = cs[i];
                    assert(cs@.skip(i as int)[0] == c);
                    assert(cs@.skip(i as int).drop_first() =~= cs@.skip(i + 1));
                    if !char_is_control(c) && count < 48 {
                        push_char(&mut self.snapshot_name, c);
                        count = count + 1;
                    }
                    i = i + 1;
                }
                assert(cs@.skip(cs@.len() as int) =~= Seq::<char>::empty());
            },
            None => {},
        }
        SnapshotKey::Edited
    }

    /// Records a finished restore: on success the status names the restored
    /// revision and the application is told to reload its configuration.
    pub fn restore_finished(&mut self, result: Result<String, String>)
        ensures
            match result {
                Ok(short) => {
                    &&& final(self).status@ == "Restored "@ + short@
                        + "; HyprDeck, HyprSaver, and Hyprpaper may need refresh."@
                    &&& final(self).external_change matches Some(c) && c.message == final(self).status
                        && c.reload_hyprland
                },
                Err(e) => final(self).status@ == "Restore failed: "@ + e@ && final(self).external_change
                    == old(self).external_change,
            },
            final(self).selected == old(self).selected,
            final(self).revisions == old(self).revisions,
    {
        match result {
            Ok(short) => {
                let mut s = "Restored ".to_string();
                s.append(short.as_str());
                s.append("; HyprDeck, HyprSaver, and Hyprpaper may need refresh.");
                self.external_change = Some(ExternalConfigChange { message: s.clone(), reload_hyprland: true });
                self.status = s;
            },
            Err(e) => {
                let mut s = "Restore failed: ".to_string();
                s.append(e.as_str());
                self.status = s;
            },
        }
    }

    /// Records a finished snapshot: on success the status names it and the
    /// name field is cleared and loses the focus.
    pub fn snapshot_finished(&mut self, result: Result<String, String>)
        ensures
            match result {
                Ok(name) => {
                    &&& final(self).status@ == "Saved snapshot \u{201c}"@ + name@ + "\u{201d}."@
                    &&& final(self).snapshot_name@.len() == 0
                    &&& !final(self).snapshot_focused
                },
                Err(e) => final(self).status@ == "Snapshot failed: "@ + e@ && final(self).snapshot_name
                    == old(self).snapshot_name,
            },
            final(self).selected == old(self).selected,
            final(self).revisions == old(self).revisions,
    {
        match result {
            Ok(name) => {
                let mut s = "Saved snapshot \u{201c}".to_string();
                s.append(name.as_str());
                s.append("\u{201d}.");
                self.status = s;
                self.snapshot_name = String::new();
                self.snapshot_focused = false;
            },
            Err(e) => {
                let mut s = "Snapshot failed: ".to_string();
                s.append(e.as_str());
                self.status = s;
            },
        }
    }

    /// Hands over, once, the configuration change a restore made.
    pub fn take_external_config_change(&mut self) -> (r: Option<ExternalConfigChange>)
        ensures
            r == old(self).external_change,
            final(self).external_change is None,
            final(self).status == old(self).status,
    {
        let mut taken: Option<ExternalConfigChange> = None;
        std::mem::swap(&mut taken, &mut self.external_change);
        taken
    }
}

} // verus!
