//! TOML documents as the HyprSaver and HyprDeck editors see them: nested
//! tables of values, read and written along dotted key paths.
use vstd::prelude::*;

use crate::text::{find_char, lemma_find_char_at, lemma_find_char_bounds, chars_of, string_of, find_in_range, str_eq};

verus! {

broadcast use {vstd::seq::group_seq_axioms, vstd::string::group_string_axioms};

/// A TOML value.  Floats and dates are held as the text TOML gives them.
#[derive(Debug)]
pub enum TomlValue {
    String(String),
    Integer(i64),
    Float(String),
    Boolean(bool),
    Datetime(String),
    Array(Vec<TomlValue>),
    Table(TomlTable),
}

/// A TOML table: its entries in order.
#[derive(Debug)]
pub struct TomlTable {
    pub entries: Vec<(String, TomlValue)>,
}

/// The mathematical form of a TOML value.
pub enum TomlView {
    Str(Seq<char>),
    Int(i64),
    Float(Seq<char>),
    Bool(bool),
    Date(Seq<char>),
    Arr(Seq<TomlView>),
    Tab(Seq<(Seq<char>, TomlView)>),
}

impl TomlValue {
    pub open spec fn view_value(self) -> TomlView
        decreases self,
    {
        match self {
            TomlValue::String(s) => TomlView::Str(s@),
            TomlValue::Integer(n) => TomlView::Int(n),
            TomlValue::Float(s) => TomlView::Float(s@),
            TomlValue::Boolean(b) => TomlView::Bool(b),
            TomlValue::Datetime(s) => TomlView::Date(s@),
            TomlValue::Array(v) => TomlView::Arr(view_values(v@)),
            TomlValue::Table(t) => TomlView::Tab(view_entries(t.entries@)),
        }
    }
}

pub open spec fn view_values(s: Seq<TomlValue>) -> Seq<TomlView>
    decreases s,
{
    Seq::new(s.len(), |i: int| if 0 <= i < s.len() { s[i].view_value() } else { TomlView::Bool(false) })
}

pub open spec fn view_entries(s: Seq<(String, TomlValue)>) -> Seq<(Seq<char>, TomlView)>
    decreases s,
{
    Seq::new(
        s.len(),
        |i: int|
            if 0 <= i < s.len() {
                (s[i].0@, s[i].1.view_value())
            } else {
                (Seq::<char>::empty(), TomlView::Bool(false))
            },
    )
}

impl View for TomlTable {
    type V = Seq<(Seq<char>, TomlView)>;

    open spec fn view(&self) -> Seq<(Seq<char>, TomlView)> {
        view_entries(self.entries@)
    }
}

// ---------------------------------------------------------------------------
// Keys
// ---------------------------------------------------------------------------

/// The position of the first entry with key `k`, or `t.len()`.
pub open spec fn key_index(t: Seq<(Seq<char>, TomlView)>, k: Seq<char>) -> int
    decreases t.len(),
{
    if t.len() == 0 {
        0
    } else if t[0].0 == k {
        0
    } else {
        1 + key_index(t.drop_first(), k)
    }
}

pub proof fn lemma_key_index(t: Seq<(Seq<char>, TomlView)>, k: Seq<char>)
    ensures
        0 <= key_index(t, k) <= t.len(),
        key_index(t, k) < t.len() ==> t[key_index(t, k)].0 == k,
        forall|j: int| 0 <= j < key_index(t, k) ==> t[j].0 != k,
    decreases t.len(),
{
    if t.len() > 0 && t[0].0 != k {
        lemma_key_index(t.drop_first(), k);
        assert forall|j: int| 0 <= j < key_index(t, k) implies t[j].0 != k by {
            if j > 0 {
                assert(t[j] == t.drop_first()[j - 1]);
            }
        }
    }
}

proof fn lemma_key_index_at(t: Seq<(Seq<char>, TomlView)>, k: Seq<char>, i: int)
    requires
        0 <= i <= t.len(),
        i < t.len() ==> t[i].0 == k,
        forall|j: int| 0 <= j < i ==> t[j].0 != k,
    ensures
        key_index(t, k) == i,
    decreases t.len(),
{
    if t.len() > 0 && i > 0 {
        assert forall|j: int| 0 <= j < i - 1 implies t.drop_first()[j].0 != k by {
            assert(t.drop_first()[j] == t[j + 1]);
        }
        lemma_key_index_at(t.drop_first(), k, i - 1);
    }
}

/// The value of key `k`.
pub open spec fn tv_get(t: Seq<(Seq<char>, TomlView)>, k: Seq<char>) -> Option<TomlView> {
    let i = key_index(t, k);
    if 0 <= i < t.len() {
        Some(t[i].1)
    } else {
        None
    }
}

/// `t` with key `k` set to `v`: the entry is replaced in place, or added at
/// the end.
pub open spec fn tv_insert(t: Seq<(Seq<char>, TomlView)>, k: Seq<char>, v: TomlView) -> Seq<
    (Seq<char>, TomlView),
> {
    let i = key_index(t, k);
    if 0 <= i < t.len() {
        t.update(i, (k, v))
    } else {
        t.push((k, v))
    }
}

/// Reading a key just set gives the value set.
pub proof fn lemma_get_insert(t: Seq<(Seq<char>, TomlView)>, k: Seq<char>, v: TomlView)
    ensures
        tv_get(tv_insert(t, k, v), k) == Some(v),
{
    lemma_key_index(t, k);
    let i = key_index(t, k);
    let u = tv_insert(t, k, v);
    if i < t.len() {
        assert forall|j: int| 0 <= j < i implies u[j].0 != k by {}
        lemma_key_index_at(u, k, i);
    } else {
        assert forall|j: int| 0 <= j < t.len() implies u[j].0 != k by {}
        lemma_key_index_at(u, k, t.len() as int);
    }
}

/// Setting one key leaves every other key's value as it was.
pub proof fn lemma_get_insert_other(t: Seq<(Seq<char>, TomlView)>, k: Seq<char>, v: TomlView, other: Seq<char>)
    requires
        other != k,
    ensures
        tv_get(tv_insert(t, k, v), other) == tv_get(t, other),
{
    lemma_key_index(t, k);
    lemma_key_index(t, other);
    let u = tv_insert(t, k, v);
    let i = key_index(t, k);
    let j = key_index(t, other);
    assert forall|m: int| 0 <= m < j && m < u.len() implies u[m].0 != other by {
        if m == i && i < t.len() {
        } else {
            assert(u[m] == t[m]);
        }
    }
    if j < t.len() {
        assert(u[j] == t[j]);
        lemma_key_index_at(u, other, j);
    } else {
        if i >= t.len() {
            assert(u[t.len() as int].0 == k);
        }
        lemma_key_index_at(u, other, u.len() as int);
    }
}

impl TomlTable {
    /// An empty table.
    pub fn new() -> (t: TomlTable)
        ensures
            t@ == Seq::<(Seq<char>, TomlView)>::empty(),
    {
        let t = TomlTable { entries: Vec::new() };
        assert(t@ =~= Seq::<(Seq<char>, TomlView)>::empty());
        t
    }

    /// The position of key `key` among the entries.
    pub fn find(&self, key: &str) -> (r: usize)
        ensures
            r == key_index(self@, key@),
    {
        let mut i: usize = 0;
        while i < self.entries.len()
            invariant
                i <= self.entries@.len(),
                self@.len() == self.entries@.len(),
                forall|j: int| 0 <= j < i ==> self@[j].0 != key@,
            decreases self.entries@.len() - i,
        {
            assert(self@[i as int].0 == self.entries@[i as int].0@);
            if str_eq(self.entries[i].0.as_str(), key) {
                proof {
                    lemma_key_index_at(self@, key@, i as int);
                }
                return i;
            }
            i = i + 1;
        }
        proof {
            lemma_key_index_at(self@, key@, i as int);
        }
        i
    }

    /// The value of key `key`.
    pub fn get(&self, key: &str) -> (r: Option<&TomlValue>)
        ensures
            match tv_get(self@, key@) {
                Some(v) => r matches Some(x) && x.view_value() == v,
                None => r is None,
            },
    {
        let i = self.find(key);
        proof {
            lemma_key_index(self@, key@);
        }
        if i < self.entries.len() {
            Some(&self.entries[i].1)
        } else {
            None
        }
    }

    /// Sets key `key` to `value`.
    pub fn insert(&mut self, key: String, value: TomlValue)
        ensures
            final(self)@ == tv_insert(old(self)@, key@, value.view_value()),
    {
        let i = self.find(key.as_str());
        let ghost kv = key@;
        let ghost vv = value.view_value();
        if i < self.entries.len() {
            self.entries.set(i, (key, value));
            assert(self@ =~= old(self)@.update(i as int, (kv, vv)));
        } else {
            self.entries.push((key, value));
            assert(self@ =~= old(self)@.push((kv, vv)));
        }
    }
}

// ---------------------------------------------------------------------------
// Dotted paths
// ---------------------------------------------------------------------------

/// `s` split at every `c` (`str::split` with a character): always at least
/// one piece.
pub open spec fn split_on(s: Seq<char>, c: char) -> Seq<Seq<char>>
    decreases s.len(),
{
    let i = find_char(s, c);
    proof {
        lemma_find_char_bounds(s, c);
    }
    if i >= s.len() {
        seq![s]
    } else {
        seq![s.take(i)] + split_on(s.skip(i + 1), c)
    }
}

/// The pieces of `s` between the `c` characters.
pub fn split_str(s: &str, c: char) -> (r: Vec<String>)
    ensures
        r@.map_values(|x: String| x@) == split_on(s@, c),
{
    let v = chars_of(s);
    let n = v.len();
    let mut out: Vec<String> = Vec::new();
    let mut p: usize = 0;
    assert(v@.skip(0) =~= v@);
    loop
        invariant
            n == v@.len(),
            v@ == s@,
            p <= n,
            out@.map_values(|x: String| x@) + split_on(v@.skip(p as int), c) == split_on(s@, c),
        decreases n - p,
    {
        let q = find_in_range(&v, p, n, c);
        let ghost rest = v@.skip(p as int);
        proof {
            assert(v@.subrange(p as int, n as int) =~= rest);
            lemma_find_char_bounds(rest, c);
        }
        let ghost before = out@;
        out.push(string_of(&v, p, q));
        proof {
            assert(v@.subrange(p as int, q as int) =~= rest.take(q - p));
        }
        if q == n {
            proof {
                assert(split_on(rest, c) == seq![rest]);
                assert(rest.take(q - p) =~= rest);
                assert(out@.map_values(|x: String| x@) =~= before.map_values(|x: String| x@).push(rest));
                assert(out@.map_values(|x: String| x@) =~= before.map_values(|x: String| x@) + split_on(rest, c));
            }
            return out;
        }
        proof {
            assert(rest.skip(q - p + 1) =~= v@.skip(q + 1));
            assert(split_on(rest, c) == seq![rest.take(q - p)] + split_on(v@.skip(q + 1), c));
            assert(out@.map_values(|x: String| x@) =~= before.map_values(|x: String| x@).push(rest.take(q - p)));
            assert(out@.map_values(|x: String| x@) + split_on(v@.skip(q + 1), c) =~= before.map_values(
                |x: String| x@,
            ) + split_on(rest, c));
        }
        p = q + 1;
    }
}

/// The value at the dotted path `parts` of table `t`: each part but the
/// last must name a table.
pub open spec fn spec_get_path(t: Seq<(Seq<char>, TomlView)>, parts: Seq<Seq<char>>) -> Option<TomlView>
    decreases parts.len(),
{
    if parts.len() == 0 {
        None
    } else {
        match tv_get(t, parts[0]) {
            Some(v) => if parts.len() == 1 {
                Some(v)
            } else {
                match v {
                    TomlView::Tab(sub) => spec_get_path(sub, parts.drop_first()),
                    _ => None,
                }
            },
            None => None,
        }
    }
}

/// Why a value could not be set at a path.
pub enum PathFault {
    /// The path has no parts.
    Empty,
    /// A part is empty.
    EmptySegment,
    /// This part names a value that is not a table.
    NotTable(Seq<char>),
}

/// Setting `v` at the dotted path `parts`: the table afterwards, and the
/// fault that stopped the walk, if any.  Missing tables on the way are
/// created (and stay, whatever comes after); an existing value that is not a
/// table stops the walk.  With `check_empty`, an empty part stops it too.
pub open spec fn spec_set_path(
    t: Seq<(Seq<char>, TomlView)>,
    parts: Seq<Seq<char>>,
    v: TomlView,
    check_empty: bool,
) -> (Seq<(Seq<char>, TomlView)>, Option<PathFault>)
    decreases parts.len(),
{
    if parts.len() == 0 {
        (t, Some(PathFault::Empty))
    } else if check_empty && parts[0].len() == 0 {
        (t, Some(PathFault::EmptySegment))
    } else if parts.len() == 1 {
        (tv_insert(t, parts[0], v), None)
    } else {
        match tv_get(t, parts[0]) {
            Some(TomlView::Tab(sub)) => {
                let (s2, e) = spec_set_path(sub, parts.drop_first(), v, check_empty);
                (tv_insert(t, parts[0], TomlView::Tab(s2)), e)
            },
            None => {
                let (s2, e) = spec_set_path(seq![], parts.drop_first(), v, check_empty);
                (tv_insert(t, parts[0], TomlView::Tab(s2)), e)
            },
            Some(_) => (t, Some(PathFault::NotTable(parts[0]))),
        }
    }
}

/// What reading `parts` gives back after `v` was set there without fault:
/// `v` itself.
pub proof fn law_get_after_set(
    t: Seq<(Seq<char>, TomlView)>,
    parts: Seq<Seq<char>>,
    v: TomlView,
    check_empty: bool,
)
    requires
        spec_set_path(t, parts, v, check_empty).1 is None,
    ensures
        spec_get_path(spec_set_path(t, parts, v, check_empty).0, parts) == Some(v),
    decreases parts.len(),
{
    if parts.len() == 1 {
        lemma_get_insert(t, parts[0], v);
    } else if parts.len() > 1 {
        let sub = match tv_get(t, parts[0]) {
            Some(TomlView::Tab(s)) => s,
            _ => seq![],
        };
        law_get_after_set(sub, parts.drop_first(), v, check_empty);
        let (s2, e) = spec_set_path(sub, parts.drop_first(), v, check_empty);
        lemma_get_insert(t, parts[0], TomlView::Tab(s2));
    }
}

/// Setting a value at one top-level key leaves the values under every
/// other top-level key as they were.
pub proof fn law_set_keeps_other_keys(
    t: Seq<(Seq<char>, TomlView)>,
    parts: Seq<Seq<char>>,
    v: TomlView,
    check_empty: bool,
    other: Seq<char>,
)
    requires
        parts.len() > 0,
        other != parts[0],
    ensures
        tv_get(spec_set_path(t, parts, v, check_empty).0, other) == tv_get(t, other),
{
    if !(check_empty && parts[0].len() == 0) {
        if parts.len() == 1 {
            lemma_get_insert_other(t, parts[0], v, other);
        } else {
            match tv_get(t, parts[0]) {
                Some(TomlView::Tab(sub)) => {
                    let (s2, e) = spec_set_path(sub, parts.drop_first(), v, check_empty);
                    lemma_get_insert_other(t, parts[0], TomlView::Tab(s2), other);
                },
                None => {
                    let (s2, e) = spec_set_path(seq![], parts.drop_first(), v, check_empty);
                    lemma_get_insert_other(t, parts[0], TomlView::Tab(s2), other);
                },
                Some(_) => {},
            }
        }
    }
}

pub open spec fn strings_view(v: Seq<String>) -> Seq<Seq<char>> {
    v.map_values(|x: String| x@)
}

/// The value at `parts[i..]` of `table`.
pub fn get_path_from<'a>(table: &'a TomlTable, parts: &Vec<String>, i: usize) -> (r: Option<&'a TomlValue>)
    requires
        i <= parts@.len(),
    ensures
        match spec_get_path(table@, strings_view(parts@).skip(i as int)) {
            Some(v) => r matches Some(x) && x.view_value() == v,
            None => r is None,
        },
    decreases parts@.len() - i,
{
    let ghost ps = strings_view(parts@).skip(i as int);
    if i >= parts.len() {
        return None;
    }
    assert(ps[0] == parts@[i as int]@);
    match table.get(parts[i].as_str()) {
        None => None,
        Some(v) => {
            if i + 1 == parts.len() {
                Some(v)
            } else {
                match v {
                    TomlValue::Table(sub) => {
                        assert(ps.drop_first() =~= strings_view(parts@).skip(i + 1));
                        get_path_from(sub, parts, i + 1)
                    },
                    _ => None,
                }
            }
        },
    }
}

/// The value at the dotted path `path`.
pub fn get_path<'a>(table: &'a TomlTable, path: &str) -> (r: Option<&'a TomlValue>)
    ensures
        match spec_get_path(table@, split_on(path@, '.')) {
            Some(v) => r matches Some(x) && x.view_value() == v,
            None => r is None,
        },
{
    let parts = split_str(path, '.');
    assert(strings_view(parts@).skip(0) =~= split_on(path@, '.'));
    get_path_from(table, &parts, 0)
}

/// The fault an exec walk reports.
#[derive(Debug, Clone, PartialEq, Eq)]
pub enum SetFault {
    Empty,
    EmptySegment,
    NotTable(String),
}

pub open spec fn fault_matches(r: Option<SetFault>, f: Option<PathFault>) -> bool {
    match (r, f) {
        (None, None) => true,
        (Some(SetFault::Empty), Some(PathFault::Empty)) => true,
        (Some(SetFault::EmptySegment), Some(PathFault::EmptySegment)) => true,
        (Some(SetFault::NotTable(a)), Some(PathFault::NotTable(b))) => a@ == b,
        _ => false,
    }
}

/// Sets `value` at `parts[i..]` of `table`.
pub fn set_path_from(table: &mut TomlTable, parts: &Vec<String>, i: usize, value: TomlValue, check_empty: bool) -> (r: Option<SetFault>)
    requires
        i <= parts@.len(),
    ensures
        ({
            let (t2, f) = spec_set_path(old(table)@, strings_view(parts@).skip(i as int), value.view_value(), check_empty);
            final(table)@ == t2 && fault_matches(r, f)
        }),
    decreases parts@.len() - i,
{
    let ghost ps = strings_view(parts@).skip(i as int);
    let ghost vv = value.view_value();
    if i >= parts.len() {
        return Some(SetFault::Empty);
    }
    assert(ps[0] == parts@[i as int]@);
    let part = parts[i].as_str();
    if check_empty && part.unicode_len() == 0 {
        return Some(SetFault::EmptySegment);
    }
    if i + 1 == parts.len() {
        table.insert(part.to_string(), value);
        return None;
    }
    assert(ps.drop_first() =~= strings_view(parts@).skip(i + 1));
    let idx = table.find(part);
    proof {
        lemma_key_index(old(table)@, part@);
    }
    if idx < table.entries.len() {
        let is_table = match &table.entries[idx].1 {
            TomlValue::Table(_) => true,
            _ => false,
        };
        if !is_table {
            let mut name = String::new();
            name.append(part);
            return Some(SetFault::NotTable(name));
        }
        let (k, v) = table.entries.remove(idx);
        match v {
            TomlValue::Table(mut sub) => {
                let ghost sub_old = sub@;
                let f = set_path_from(&mut sub, parts, i + 1, value, check_empty);
                let ghost sv = sub@;
                table.entries.insert(idx, (k, TomlValue::Table(sub)));
                proof {
                    assert(table@ =~= old(table)@.update(idx as int, (part@, TomlView::Tab(sv))));
                }
                f
            },
            _ => {
                table.entries.insert(idx, (k, v));
                None
            },
        }
    } else {
        let mut sub = TomlTable::new();
        let f = set_path_from(&mut sub, parts, i + 1, value, check_empty);
        table.insert(part.to_string(), TomlValue::Table(sub));
        f
    }
}

/// Sets `value` at the dotted path `path`.
pub fn set_path(table: &mut TomlTable, path: &str, value: TomlValue, check_empty: bool) -> (r: Option<SetFault>)
    ensures
        ({
            let (t2, f) = spec_set_path(old(table)@, split_on(path@, '.'), value.view_value(), check_empty);
            final(table)@ == t2 && fault_matches(r, f)
        }),
{
    let parts = split_str(path, '.');
    assert(strings_view(parts@).skip(0) =~= split_on(path@, '.'));
    set_path_from(table, &parts, 0, value, check_empty)
}

} // verus!
