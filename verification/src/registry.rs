//! The sidebar's panels: which are listed, which is active, and finding
//! one by title.
use vstd::prelude::*;

use crate::text::{lowercase, to_lowercase, str_eq};

verus! {

broadcast use vstd::string::group_string_axioms;

/// The index of the first title equal to `title` ignoring case (both
/// lowercased as `str::to_lowercase` does).
pub open spec fn spec_find_by_title(titles: Seq<Seq<char>>, title: Seq<char>) -> Option<usize>
    decreases titles.len(),
{
    if titles.len() == 0 {
        None
    } else if lowercase(titles[0]) == lowercase(title) {
        Some(0)
    } else {
        match spec_find_by_title(titles.drop_first(), title) {
            Some(i) => Some((i + 1) as usize),
            None => None,
        }
    }
}

/// Finds a panel by title, ignoring case.
pub fn find_by_title(titles: &Vec<String>, title: &str) -> (r: Option<usize>)
    requires
        titles@.len() < usize::MAX,
    ensures
        r == spec_find_by_title(titles@.map_values(|t: String| t@), title@),
        r matches Some(i) ==> i < titles@.len(),
{
    let ghost tv = titles@.map_values(|t: String| t@);
    let lower = to_lowercase(title);
    let mut i: usize = 0;
    assert(tv.skip(0) =~= tv);
    while i < titles.len()
        invariant
            tv == titles@.map_values(|t: String| t@),
            titles@.len() < usize::MAX,
            i <= titles@.len(),
            lower@ == lowercase(title@),
            forall|j: int| 0 <= j < i ==> lowercase(#[trigger] tv[j]) != lowercase(title@),
            spec_find_by_title(tv, title@) == match spec_find_by_title(tv.skip(i as int), title@) {
                Some(k) => Some((k + i) as usize),
                None => None,
            },
        decreases titles@.len() - i,
    {
        assert(tv.skip(i as int)[0] == tv[i as int]);
        assert(tv.skip(i as int).drop_first() =~= tv.skip(i + 1));
        let t = to_lowercase(titles[i].as_str());
        if str_eq(t.as_str(), lower.as_str()) {
            return Some(i);
        }
        proof {
            let rest = spec_find_by_title(tv.skip(i + 1), title@);
            assert(spec_find_by_title(tv.skip(i as int), title@) == match rest {
                Some(k) => Some((k + 1) as usize),
                None => None,
            });
            lemma_find_bound(tv.skip(i + 1), title@);
        }
        i = i + 1;
    }
    assert(tv.skip(i as int) =~= Seq::<Seq<char>>::empty());
    None
}

proof fn lemma_find_bound(titles: Seq<Seq<char>>, title: Seq<char>)
    ensures
        spec_find_by_title(titles, title) matches Some(k) ==> k < titles.len(),
    decreases titles.len(),
{
    if titles.len() > 0 {
        lemma_find_bound(titles.drop_first(), title);
    }
}

/// Every panel, in sidebar order: title and icon name.
pub open spec fn all_panels() -> Seq<(Seq<char>, Seq<char>)> {
    seq![
        ("Appearance"@, "preferences-desktop-theme"@),
        ("Hyprland"@, "preferences-desktop"@),
        ("Input"@, "input-keyboard"@),
        ("Display"@, "preferences-desktop-display"@),
        ("Hyprpaper"@, "preferences-desktop-wallpaper"@),
        ("HyprDeck"@, "application-menu"@),
        ("HyprSaver"@, "preferences-desktop-screensaver"@),
        ("History"@, "document-open-recent"@),
        ("About"@, "help-about"@),
    ]
}

/// Whether panel `i` of `all_panels()` is listed: the Hyprpaper, HyprDeck
/// and HyprSaver panels only when their application or configuration is
/// there, every other panel always.
pub open spec fn listed(i: int, hyprpaper: bool, hyprdeck: bool, hyprsaver: bool) -> bool {
    if i == 4 {
        hyprpaper
    } else if i == 5 {
        hyprdeck
    } else if i == 6 {
        hyprsaver
    } else {
        true
    }
}

/// The panels among the first `k` that are listed, in order.
pub open spec fn listed_panels(k: int, hyprpaper: bool, hyprdeck: bool, hyprsaver: bool) -> Seq<
    (Seq<char>, Seq<char>),
>
    decreases k,
{
    if k <= 0 {
        seq![]
    } else {
        let before = listed_panels(k - 1, hyprpaper, hyprdeck, hyprsaver);
        if listed(k - 1, hyprpaper, hyprdeck, hyprsaver) {
            before.push(all_panels()[k - 1])
        } else {
            before
        }
    }
}

proof fn lemma_listed_len(k: int, hyprpaper: bool, hyprdeck: bool, hyprsaver: bool)
    requires
        0 <= k <= 9,
    ensures
        listed_panels(k, hyprpaper, hyprdeck, hyprsaver).len() <= k,
        k == 9 ==> listed_panels(k, hyprpaper, hyprdeck, hyprsaver).len() >= 6,
    decreases k,
{
    if k > 0 {
        lemma_listed_len(k - 1, hyprpaper, hyprdeck, hyprsaver);
    }
    if k == 9 {
        reveal_with_fuel(listed_panels, 10);
    }
}

/// The panels the sidebar lists and the one shown.
pub struct PanelRegistry {
    panels: Vec<(String, String)>,
    active_index: usize,
}

impl PanelRegistry {
    #[verifier::type_invariant]
    spec fn well_formed(self) -> bool {
        &&& 0 < self.panels@.len() <= 9
        &&& self.active_index < self.panels@.len()
    }

    /// The listed panels' titles and icons, in order.
    pub closed spec fn entries(&self) -> Seq<(Seq<char>, Seq<char>)> {
        self.panels@.map_values(|p: (String, String)| (p.0@, p.1@))
    }

    /// The position of the panel shown.
    pub closed spec fn active(&self) -> usize {
        self.active_index
    }

    /// The sidebar for a system where Hyprpaper, HyprDeck and HyprSaver are
    /// or are not available; the first panel is shown.
    pub fn new(hyprpaper: bool, hyprdeck: bool, hyprsaver: bool) -> (r: Self)
        ensures
            r.entries() == listed_panels(9, hyprpaper, hyprdeck, hyprsaver),
            r.active() == 0,
    {
        let all = vec![
            ("Appearance", "preferences-desktop-theme"),
            ("Hyprland", "preferences-desktop"),
            ("Input", "input-keyboard"),
            ("Display", "preferences-desktop-display"),
            ("Hyprpaper", "preferences-desktop-wallpaper"),
            ("HyprDeck", "application-menu"),
            ("HyprSaver", "preferences-desktop-screensaver"),
            ("History", "document-open-recent"),
            ("About", "help-about"),
        ];
        assert(all@.map_values(|p: (&str, &str)| (p.0@, p.1@)) =~= all_panels());
        let mut panels: Vec<(String, String)> = Vec::new();
        let mut i: usize = 0;
        while i < all.len()
            invariant
                all@.len() == 9,
                all@.map_values(|p: (&str, &str)| (p.0@, p.1@)) == all_panels(),
                i <= 9,
                panels@.map_values(|p: (String, String)| (p.0@, p.1@)) == listed_panels(i as int, hyprpaper, hyprdeck, hyprsaver),
            decreases 9 - i,
        {
            let shown = if i == 4 {
                hyprpaper
            } else if i == 5 {
                hyprdeck
            } else if i == 6 {
                hyprsaver
            } else {
                true
            };
            if shown {
                let ghost before = panels@;
                let (t, c) = all[i];
                assert((t@, c@) == all_panels()[i as int]);
                panels.push((t.to_string(), c.to_string()));
                assert(panels@.map_values(|p: (String, String)| (p.0@, p.1@)) =~= before.map_values(
                    |p: (String, String)| (p.0@, p.1@),
                ).push(all_panels()[i as int]));
            }
            i = i + 1;
        }
        proof {
            lemma_listed_len(9, hyprpaper, hyprdeck, hyprsaver);
        }
        PanelRegistry { panels, active_index: 0 }
    }

    /// `(index, title, icon)` for each listed panel.
    pub fn available_panels(&self) -> (r: Vec<(usize, String, String)>)
        ensures
            r@.len() == self.entries().len(),
            forall|i: int|
                0 <= i < r@.len() ==> (#[trigger] r@[i]).0 == i && (r@[i].1@, r@[i].2@) == self.entries()[i],
    {
        let mut out: Vec<(usize, String, String)> = Vec::new();
        let mut i: usize = 0;
        while i < self.panels.len()
            invariant
                i <= self.panels@.len(),
                out@.len() == i,
                forall|k: int|
                    0 <= k < i ==> (#[trigger] out@[k]).0 == k && (out@[k].1@, out@[k].2@) == self.entries()[k],
            decreases self.panels@.len() - i,
        {
            out.push((i, self.panels[i].0.clone(), self.panels[i].1.clone()));
            i = i + 1;
        }
        out
    }

    /// Shows the panel at `index`.
    pub fn set_active(&mut self, index: usize)
        requires
            index < old(self).entries().len(),
        ensures
            final(self).entries() == old(self).entries(),
            final(self).active() == index,
    {
        proof {
            use_type_invariant(&*self);
        }
        self.active_index = index;
    }

    /// The position of the panel shown.
    pub fn active_index(&self) -> (r: usize)
        ensures
            r == self.active(),
            r < self.entries().len(),
    {
        proof {
            use_type_invariant(self);
        }
        self.active_index
    }

    /// How many panels are listed.
    pub fn len(&self) -> (r: usize)
        ensures
            r == self.entries().len(),
    {
        self.panels.len()
    }

    /// The listed panel with `title`, ignoring case.
    pub fn find_by_title(&self, title: &str) -> (r: Option<usize>)
        ensures
            r == spec_find_by_title(self.entries().map_values(|p: (Seq<char>, Seq<char>)| p.0), title@),
            r matches Some(i) ==> i < self.entries().len(),
    {
        proof {
            use_type_invariant(self);
        }
        let mut titles: Vec<String> = Vec::new();
        let mut i: usize = 0;
        while i < self.panels.len()
            invariant
                i <= self.panels@.len(),
                self.panels@.len() <= 9,
                titles@.map_values(|t: String| t@) == self.entries().map_values(|p: (Seq<char>, Seq<char>)| p.0).take(i as int),
            decreases self.panels@.len() - i,
        {
            let ghost before = titles@;
            titles.push(self.panels[i].0.clone());
            assert(titles@.map_values(|t: String| t@) =~= before.map_values(|t: String| t@).push(self.panels@[i as int].0@));
            assert(self.entries().map_values(|p: (Seq<char>, Seq<char>)| p.0).take(i + 1) =~= self.entries().map_values(
                |p: (Seq<char>, Seq<char>)| p.0,
            ).take(i as int).push(self.panels@[i as int].0@));
            i = i + 1;
        }
        assert(self.entries().map_values(|p: (Seq<char>, Seq<char>)| p.0).take(self.panels@.len() as int) =~= self.entries().map_values(
            |p: (Seq<char>, Seq<char>)| p.0,
        ));
        find_by_title(&titles, title)
    }

    /// Chooses the panel shown first: the one named on the command line,
    /// which is also remembered as the last panel, or else the one shown
    /// last time while it is still listed.  Returns `false` only when a name
    /// was given and no listed panel has it; nothing changes then.
    pub fn show_at_start(&mut self, requested: Option<&str>, last_panel: &mut usize) -> (found: bool)
        ensures
            final(self).entries() == old(self).entries(),
            match requested {
                Some(name) => match spec_find_by_title(
                    old(self).entries().map_values(|p: (Seq<char>, Seq<char>)| p.0),
                    name@,
                ) {
                    Some(i) => found && final(self).active() == i && *final(last_panel) == i,
                    None => !found && final(self).active() == old(self).active() && *final(last_panel)
                        == *old(last_panel),
                },
                None => found && *final(last_panel) == *old(last_panel) && final(self).active() == (if *old(
                    last_panel,
                ) < old(self).entries().len() {
                    *old(last_panel)
                } else {
                    old(self).active()
                }),
            },
    {
        match requested {
            Some(name) => match self.find_by_title(name) {
                Some(i) => {
                    self.set_active(i);
                    *last_panel = i;
                    true
                },
                None => false,
            },
            None => {
                if *last_panel < self.len() {
                    self.set_active(*last_panel);
                }
                true
            },
        }
    }
}

} // verus!
