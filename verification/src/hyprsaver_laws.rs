//! What applying the HyprCube override collection guarantees.
use vstd::prelude::*;

use crate::hyprsaver::{
    apply_overrides_from, boolean_keys, float_key, integer_keys, list_items, override_enabled,
    override_pairs, override_value, shown_value, spec_display, spec_field_value,
};
use crate::text::{
    find_char, is_ws, lemma_find_char_at, lemma_trim_end_is_prefix, lemma_trim_fixed,
    lemma_trim_start_is_suffix, trim, trim_end, trim_start,
};
use crate::toml_model::{
    lemma_get_insert, lemma_get_insert_other, spec_get_path, spec_set_path, split_on, tv_get, tv_insert,
    PathFault, TomlView,
};

verus! {

broadcast use vstd::seq::group_seq_axioms;

/// Two paths that part ways: they agree on every part before `i` and
/// differ at `i`, where both have a part.
pub open spec fn diverge(p: Seq<Seq<char>>, q: Seq<Seq<char>>, i: int) -> bool {
    &&& 0 <= i < p.len()
    &&& i < q.len()
    &&& p[i] != q[i]
    &&& forall|j: int| 0 <= j < i ==> p[j] == q[j]
}

/// Setting a value at one path leaves the value at any path that parts
/// ways with it unchanged.
pub proof fn lemma_set_leaves_other_path(
    t: Seq<(Seq<char>, TomlView)>,
    p: Seq<Seq<char>>,
    q: Seq<Seq<char>>,
    v: TomlView,
    ce: bool,
    i: int,
)
    requires
        diverge(p, q, i),
    ensures
        spec_get_path(spec_set_path(t, p, v, ce).0, q) == spec_get_path(t, q),
    decreases p.len(),
{
    if ce && p[0].len() == 0 {
    } else if p.len() == 1 {
        lemma_get_insert_other(t, p[0], v, q[0]);
    } else {
        let (new_t, _) = spec_set_path(t, p, v, ce);
        match tv_get(t, p[0]) {
            Some(TomlView::Tab(sub)) => {
                let (s2, e) = spec_set_path(sub, p.drop_first(), v, ce);
                if p[0] != q[0] {
                    lemma_get_insert_other(t, p[0], TomlView::Tab(s2), q[0]);
                } else {
                    lemma_get_insert(t, p[0], TomlView::Tab(s2));
                    assert forall|j: int| 0 <= j < i - 1 implies p.drop_first()[j] == q.drop_first()[j] by {
                        assert(p[j + 1] == q[j + 1]);
                    }
                    lemma_set_leaves_other_path(sub, p.drop_first(), q.drop_first(), v, ce, i - 1);
                }
            },
            None => {
                let (s2, e) = spec_set_path(seq![], p.drop_first(), v, ce);
                if p[0] != q[0] {
                    lemma_get_insert_other(t, p[0], TomlView::Tab(s2), q[0]);
                } else {
                    lemma_get_insert(t, p[0], TomlView::Tab(s2));
                    assert forall|j: int| 0 <= j < i - 1 implies p.drop_first()[j] == q.drop_first()[j] by {
                        assert(p[j + 1] == q[j + 1]);
                    }
                    lemma_set_leaves_other_path(seq![], p.drop_first(), q.drop_first(), v, ce, i - 1);
                }
            },
            Some(_) => {},
        }
    }
}

proof fn lemma_split_two(s: Seq<char>, k: int)
    requires
        0 <= k < s.len(),
        s[k] == '.',
        forall|j: int| 0 <= j < s.len() && j != k ==> s[j] != '.',
    ensures
        split_on(s, '.') == seq![s.take(k), s.skip(k + 1)],
{
    lemma_find_char_at(s, '.', k);
    let rest = s.skip(k + 1);
    assert forall|j: int| 0 <= j < rest.len() implies rest[j] != '.' by {
        assert(rest[j] == s[k + 1 + j]);
    }
    lemma_find_char_at(rest, '.', rest.len() as int);
    assert(split_on(rest, '.') == seq![rest]);
}

/// The six keys involved, split at their dots.
proof fn lemma_override_paths()
    ensures
        forall|k: int| 0 <= k < 3 ==> split_on(#[trigger] override_pairs()[k].0, '.') == seq![
            "hyprcube_override"@,
            override_pairs()[k].0.skip(18),
        ],
        forall|k: int| 0 <= k < 3 ==> split_on(#[trigger] override_pairs()[k].1, '.') == seq![
            "general"@,
            override_pairs()[k].1.skip(8),
        ],
        override_pairs()[0].1.skip(8) != override_pairs()[1].1.skip(8),
        override_pairs()[0].1.skip(8) != override_pairs()[2].1.skip(8),
        override_pairs()[1].1.skip(8) != override_pairs()[2].1.skip(8),
        "hyprcube_override"@ != "general"@,
{
    reveal_strlit("hyprcube_override.palette");
    reveal_strlit("hyprcube_override.shader_playlist");
    reveal_strlit("hyprcube_override.palette_playlist");
    reveal_strlit("general.palette");
    reveal_strlit("general.shader_playlist");
    reveal_strlit("general.palette_playlist");
    reveal_strlit("hyprcube_override");
    reveal_strlit("general");
    let ps = override_pairs();
    assert forall|k: int| 0 <= k < 3 implies split_on(#[trigger] ps[k].0, '.') == seq![
        "hyprcube_override"@,
        ps[k].0.skip(18),
    ] by {
        let s = ps[k].0;
        assert(s[17] == '.');
        assert forall|j: int| 0 <= j < s.len() && j != 17 implies s[j] != '.' by {}
        lemma_split_two(s, 17);
        assert(s.take(17) =~= "hyprcube_override"@);
    }
    assert forall|k: int| 0 <= k < 3 implies split_on(#[trigger] ps[k].1, '.') == seq!["general"@, ps[k].1.skip(8)] by {
        let s = ps[k].1;
        assert(s[7] == '.');
        assert forall|j: int| 0 <= j < s.len() && j != 7 implies s[j] != '.' by {}
        lemma_split_two(s, 7);
        assert(s.take(7) =~= "general"@);
    }
    assert(ps[0].1.skip(8).len() != ps[1].1.skip(8).len());
    assert(ps[0].1.skip(8).len() != ps[2].1.skip(8).len());
    assert(ps[1].1.skip(8).len() != ps[2].1.skip(8).len());
    assert("hyprcube_override"@.len() != "general"@.len());
}

/// With the override collection switched on and copied without fault,
/// each chosen override (a non-empty value other than `inherit`) is the
/// value of its native `general` key afterwards.
pub proof fn law_override_copies_choices(t: Seq<(Seq<char>, TomlView)>)
    requires
        override_enabled(t),
        apply_overrides_from(t, 0).1 is None,
    ensures
        forall|k: int|
            0 <= k < 3 ==> (override_value(t, #[trigger] override_pairs()[k].0) matches Some(s) ==> spec_get_path(
                apply_overrides_from(t, 0).0,
                split_on(override_pairs()[k].1, '.'),
            ) == Some(TomlView::Str(s))),
{
    lemma_override_paths();
    let ps = override_pairs();
    // the state before each step
    let t0 = t;
    let t1 = match override_value(t0, ps[0].0) {
        Some(s) => spec_set_path(t0, split_on(ps[0].1, '.'), TomlView::Str(s), false).0,
        None => t0,
    };
    let t2 = match override_value(t1, ps[1].0) {
        Some(s) => spec_set_path(t1, split_on(ps[1].1, '.'), TomlView::Str(s), false).0,
        None => t1,
    };
    let t3 = match override_value(t2, ps[2].0) {
        Some(s) => spec_set_path(t2, split_on(ps[2].1, '.'), TomlView::Str(s), false).0,
        None => t2,
    };
    assert forall|a: int, b: int| 0 <= a < 3 && 0 <= b < 3 implies diverge(
        split_on(#[trigger] ps[a].1, '.'),
        split_on(#[trigger] ps[b].0, '.'),
        0,
    ) by {}
    assert forall|a: int, b: int| 0 <= a < 3 && 0 <= b < 3 && a != b implies diverge(
        split_on(#[trigger] ps[a].1, '.'),
        split_on(#[trigger] ps[b].1, '.'),
        1,
    ) by {}
    // reading the overrides: the general keys never touch them
    assert forall|b: int| 0 <= b < 3 implies override_value(t1, #[trigger] ps[b].0) == override_value(t0, ps[b].0) by {
        if let Some(s) = override_value(t0, ps[0].0) {
            lemma_set_leaves_other_path(t0, split_on(ps[0].1, '.'), split_on(ps[b].0, '.'), TomlView::Str(s), false, 0);
        }
    }
    assert forall|b: int| 0 <= b < 3 implies override_value(t2, #[trigger] ps[b].0) == override_value(t1, ps[b].0) by {
        if let Some(s) = override_value(t1, ps[1].0) {
            lemma_set_leaves_other_path(t1, split_on(ps[1].1, '.'), split_on(ps[b].0, '.'), TomlView::Str(s), false, 0);
        }
    }
    // unfolding the copying
    assert(apply_overrides_from(t3, 3) == (t3, None::<PathFault>));
    assert(apply_overrides_from(t2, 2).0 == t3);
    assert(apply_overrides_from(t1, 1).0 == t3);
    assert(apply_overrides_from(t0, 0).0 == t3);
    // each copied value survives the later steps
    if let Some(s) = override_value(t0, ps[0].0) {
        crate::toml_model::law_get_after_set(t0, split_on(ps[0].1, '.'), TomlView::Str(s), false);
        if let Some(s1) = override_value(t1, ps[1].0) {
            lemma_set_leaves_other_path(t1, split_on(ps[1].1, '.'), split_on(ps[0].1, '.'), TomlView::Str(s1), false, 1);
        }
        if let Some(s2) = override_value(t2, ps[2].0) {
            lemma_set_leaves_other_path(t2, split_on(ps[2].1, '.'), split_on(ps[0].1, '.'), TomlView::Str(s2), false, 1);
        }
    }
    if let Some(s) = override_value(t0, ps[1].0) {
        crate::toml_model::law_get_after_set(t1, split_on(ps[1].1, '.'), TomlView::Str(s), false);
        if let Some(s2) = override_value(t2, ps[2].0) {
            lemma_set_leaves_other_path(t2, split_on(ps[2].1, '.'), split_on(ps[1].1, '.'), TomlView::Str(s2), false, 1);
        }
    }
    if let Some(s) = override_value(t0, ps[2].0) {
        crate::toml_model::law_get_after_set(t2, split_on(ps[2].1, '.'), TomlView::Str(s), false);
    }
}

/// What a setting shows after it was written without fault: the value
/// written, as the panel shows values.
pub proof fn law_shown_after_write(t: Seq<(Seq<char>, TomlView)>, key: Seq<char>, v: TomlView)
    requires
        spec_set_path(t, split_on(key, '.'), v, false).1 is None,
    ensures
        shown_value(Some(spec_set_path(t, split_on(key, '.'), v, false).0), key) == Some(spec_display(v)),
{
    crate::toml_model::law_get_after_set(t, split_on(key, '.'), v, false);
}


// ---------------------------------------------------------------------------
// List settings
// ---------------------------------------------------------------------------

/// A trimmed text is its own trim.
proof fn lemma_trim_idempotent(s: Seq<char>)
    ensures
        trim(trim(s)) == trim(s),
{
    let y = trim_start(s);
    lemma_trim_start_is_suffix(s);
    lemma_trim_end_is_prefix(y);
    let t = trim_end(y);
    if t.len() > 0 {
        assert(t[0] == y[0]);
    }
    lemma_trim_fixed(t);
}

/// Every item of a list is a non-empty trimmed string.
proof fn lemma_list_items_trimmed(pieces: Seq<Seq<char>>)
    ensures
        forall|i: int|
            0 <= i < list_items(pieces).len() ==> (#[trigger] list_items(pieces)[i] matches TomlView::Str(t)
                && t.len() > 0 && trim(t) == t),
    decreases pieces.len(),
{
    if pieces.len() > 0 {
        lemma_list_items_trimmed(pieces.drop_last());
        lemma_trim_idempotent(pieces.last());
    }
}

/// The keys `playlists.<name>.palettes`, `playlists.<name>.shaders` and
/// `behavior.dismiss_on` hold lists: an edit to any of them is written as
/// an array of the comma-separated pieces of the text, each trimmed, blank
/// pieces left out — never as a single string.
pub proof fn law_list_settings_become_arrays(name: Seq<char>, value: Seq<char>, float_text: Option<Seq<char>>)
    ensures
        ({
            let items = list_items(split_on(value, ','));
            &&& spec_field_value("playlists."@ + name + ".palettes"@, value, float_text) == Ok::<
                TomlView,
                Seq<char>,
            >(TomlView::Arr(items))
            &&& spec_field_value("playlists."@ + name + ".shaders"@, value, float_text) == Ok::<
                TomlView,
                Seq<char>,
            >(TomlView::Arr(items))
            &&& spec_field_value("behavior.dismiss_on"@, value, float_text) == Ok::<TomlView, Seq<char>>(
                TomlView::Arr(items),
            )
            &&& forall|i: int|
                0 <= i < items.len() ==> (#[trigger] items[i] matches TomlView::Str(t) && t.len() > 0
                    && trim(t) == t)
        }),
{
    lemma_list_items_trimmed(split_on(value, ','));
    reveal_strlit("playlists.");
    reveal_strlit(".palettes");
    reveal_strlit(".shaders");
    reveal_strlit("behavior.dismiss_on");
    reveal_strlit("general.fps");
    reveal_strlit("general.shader_cycle_interval");
    reveal_strlit("general.palette_cycle_interval");
    reveal_strlit("general.preview_width");
    reveal_strlit("general.preview_height");
    reveal_strlit("behavior.fade_in_ms");
    reveal_strlit("behavior.fade_out_ms");
    reveal_strlit("general.synced");
    reveal_strlit("behavior.exclusive_keyboard");
    reveal_strlit("hyprcube_override.enabled");
    reveal_strlit("general.palette_transition_duration");
    let ik = integer_keys();
    let bk = boolean_keys();
    let k1 = "playlists."@ + name + ".palettes"@;
    let k2 = "playlists."@ + name + ".shaders"@;
    let k3 = "behavior.dismiss_on"@;
    assert(k1[0] == 'p' && k2[0] == 'p');
    assert(k1.take(10) =~= "playlists."@);
    assert(k2.take(10) =~= "playlists."@);
    assert(k1.skip(k1.len() - 9) =~= ".palettes"@);
    assert(k2.skip(k2.len() - 8) =~= ".shaders"@);
    assert(forall|j: int| 0 <= j < ik.len() ==> #[trigger] ik[j][0] != 'p');
    assert(forall|j: int| 0 <= j < bk.len() ==> #[trigger] bk[j][0] != 'p');
    assert(!ik.contains(k1) && !ik.contains(k2));
    assert(!bk.contains(k1) && !bk.contains(k2));
    assert(float_key()[0] != 'p');
    assert(!ik.contains(k3)) by {
        assert(ik[5][9] != k3[9] && ik[6][9] != k3[9]);
        assert(ik[0][0] != k3[0] && ik[1][0] != k3[0] && ik[2][0] != k3[0] && ik[3][0] != k3[0]
            && ik[4][0] != k3[0]);
    }
    assert(!bk.contains(k3)) by {
        assert(bk[0][0] != k3[0] && bk[2][0] != k3[0] && bk[1].len() != k3.len());
    }
    assert(float_key()[0] != k3[0]);
}

} // verus!
