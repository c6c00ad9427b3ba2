//! Structure-preserving `hyprland.conf` model: parsing, writing, queries and
//! mutations.  Comments, blank lines and ordering survive a roundtrip.
use vstd::prelude::*;

use crate::text::{
    chars_of, find_char, find_in_range, has_char, join_lines, lemma_find_char_bounds,
    lemma_join_append, lemma_lines_step, lines, push_char, range_eq, spaces, str_eq, string_of, trim, trim_range, str_starts_with,
};


verus! {

broadcast use {vstd::seq::group_seq_axioms, vstd::string::group_string_axioms};

/// A parsed hyprland.conf file that preserves comments, blank lines, and
/// ordering for lossless roundtrip editing.
#[derive(Debug, PartialEq)]
pub struct HyprlandConfig {
    pub items: Vec<ConfigItem>,
}

/// A single entry inside a hyprland.conf file.
#[derive(Debug, PartialEq)]
pub enum ConfigItem {
    /// An empty / whitespace-only line.
    Blank,
    /// A comment line (stored including the leading `#`).
    Comment(String),
    /// A `key = value` assignment.
    KeyValue { key: String, value: String },
    /// A `name { ... }` section block (may be nested).
    Section { name: String, items: Vec<ConfigItem> },
    /// A `source = path` include directive.
    Source(String),
}

/// Errors that can occur while parsing hyprland.conf text.
#[derive(Debug, Clone, Copy, PartialEq, Eq)]
pub enum ParseError {
    /// A `}` line with no open section; carries the 1-based line number.
    UnexpectedCloseBrace(usize),
    /// A section still open at the end of input; carries the 1-based line
    /// number of its opening line (the innermost one).
    UnclosedSection(usize),
}

/// The mathematical value of a [`ConfigItem`]: text as character sequences.
pub enum ItemView {
    Blank,
    Comment(Seq<char>),
    KeyValue { key: Seq<char>, value: Seq<char> },
    Section { name: Seq<char>, items: Seq<ItemView> },
    Source(Seq<char>),
}

impl ConfigItem {
    pub open spec fn view_item(self) -> ItemView
        decreases self,
    {
        match self {
            ConfigItem::Blank => ItemView::Blank,
            ConfigItem::Comment(c) => ItemView::Comment(c@),
            ConfigItem::KeyValue { key, value } => ItemView::KeyValue { key: key@, value: value@ },
            ConfigItem::Section { name, items } => ItemView::Section {
                name: name@,
                items: view_items(items@),
            },
            ConfigItem::Source(p) => ItemView::Source(p@),
        }
    }
}

pub open spec fn view_items(s: Seq<ConfigItem>) -> Seq<ItemView>
    decreases s,
{
    Seq::new(s.len(), |i: int| if 0 <= i < s.len() { s[i].view_item() } else { ItemView::Blank })
}

impl View for HyprlandConfig {
    type V = Seq<ItemView>;

    open spec fn view(&self) -> Seq<ItemView> {
        view_items(self.items@)
    }
}


// ---------------------------------------------------------------------------
// Parser specification
// ---------------------------------------------------------------------------

/// A section whose `{` line has been read but whose `}` line has not.
pub struct Frame {
    /// The items of the enclosing level read so far.
    pub parent: Seq<ItemView>,
    pub name: Seq<char>,
    /// 1-based number of the opening line.
    pub line: nat,
}

/// What parsing a whole text produces.
pub enum ParseOutcome {
    Parsed(Seq<ItemView>),
    UnexpectedCloseBrace(nat),
    UnclosedSection(nat),
}

pub open spec fn source_kw() -> Seq<char> {
    seq!['s', 'o', 'u', 'r', 'c', 'e']
}

/// The item that a trimmed line other than `}` and `name {` stands for.
pub open spec fn line_item(t: Seq<char>) -> ItemView {
    if t.len() == 0 {
        ItemView::Blank
    } else if t[0] == '#' {
        ItemView::Comment(t)
    } else if has_char(t, '=') {
        let eq = find_char(t, '=');
        let key = trim(t.take(eq));
        let value = trim(t.skip(eq + 1));
        if key == source_kw() {
            ItemView::Source(value)
        } else {
            ItemView::KeyValue { key, value }
        }
    } else {
        ItemView::KeyValue { key: t, value: seq![] }
    }
}

pub open spec fn is_close_line(t: Seq<char>) -> bool {
    t.len() > 0 && t[0] != '#' && t == seq!['}']
}

pub open spec fn is_open_line(t: Seq<char>) -> bool {
    t.len() > 0 && t[0] != '#' && t != seq!['}'] && t.last() == '{'
}

/// Reads the remaining lines `ls`; `ln` lines have been read before them,
/// `stack` holds the open sections and `items` the items of the current level.
pub open spec fn parse_lines(
    ls: Seq<Seq<char>>,
    ln: nat,
    stack: Seq<Frame>,
    items: Seq<ItemView>,
) -> ParseOutcome
    decreases ls.len(),
{
    if ls.len() == 0 {
        if stack.len() > 0 {
            ParseOutcome::UnclosedSection(stack.last().line)
        } else {
            ParseOutcome::Parsed(items)
        }
    } else {
        let t = trim(ls[0]);
        let num = ln + 1;
        if is_close_line(t) {
            if stack.len() == 0 {
                ParseOutcome::UnexpectedCloseBrace(num)
            } else {
                let f = stack.last();
                parse_lines(
                    ls.drop_first(),
                    num,
                    stack.drop_last(),
                    f.parent.push(ItemView::Section { name: f.name, items }),
                )
            }
        } else if is_open_line(t) {
            parse_lines(
                ls.drop_first(),
                num,
                stack.push(Frame { parent: items, name: trim(t.drop_last()), line: num }),
                seq![],
            )
        } else {
            parse_lines(ls.drop_first(), num, stack, items.push(line_item(t)))
        }
    }
}

/// The result of parsing the text `s`.
pub open spec fn spec_parse(s: Seq<char>) -> ParseOutcome {
    parse_lines(lines(s), 0, seq![], seq![])
}

pub open spec fn frames_view(st: Seq<(Vec<ConfigItem>, String, usize)>) -> Seq<Frame> {
    Seq::new(
        st.len(),
        |i: int| Frame { parent: view_items(st[i].0@), name: st[i].1@, line: st[i].2 as nat },
    )
}

/// `r` is what the parser returns for the outcome `o`.
pub open spec fn parse_result_is(r: Result<HyprlandConfig, ParseError>, o: ParseOutcome) -> bool {
    match o {
        ParseOutcome::Parsed(items) => r matches Ok(c) && c@ == items,
        ParseOutcome::UnexpectedCloseBrace(l) => r == Err::<HyprlandConfig, ParseError>(
            ParseError::UnexpectedCloseBrace(l as usize),
        ),
        ParseOutcome::UnclosedSection(l) => r == Err::<HyprlandConfig, ParseError>(
            ParseError::UnclosedSection(l as usize),
        ),
    }
}

// ---------------------------------------------------------------------------
// Parser
// ---------------------------------------------------------------------------

impl HyprlandConfig {
    /// Parse a hyprland.conf from a string.
    pub fn parse(input: &str) -> (r: Result<Self, ParseError>)
        ensures
            parse_result_is(r, spec_parse(input@)),
    {
        let v = chars_of(input);
        let n = v.len();
        let mut stack: Vec<(Vec<ConfigItem>, String, usize)> = Vec::new();
        let mut items: Vec<ConfigItem> = Vec::new();
        let mut p: usize = 0;
        let mut line_num: usize = 0;
        assert(v@.skip(0) =~= v@);
        assert(frames_view(stack@) =~= Seq::<Frame>::empty());
        assert(view_items(items@) =~= Seq::<ItemView>::empty());
        while p < n
            invariant
                n == v@.len(),
                v@ == input@,
                line_num <= p <= n,
                parse_lines(lines(v@.skip(p as int)), line_num as nat, frames_view(stack@), view_items(items@))
                    == spec_parse(input@),
                forall|i: int| 0 <= i < stack@.len() ==> (#[trigger] stack@[i]).2 <= line_num,
            decreases n - p,
        {
            let q = find_in_range(&v, p, n, '\n');
            proof {
                assert(v@.subrange(p as int, n as int) =~= v@.skip(p as int));
                lemma_lines_step(v@, p as int, q as int);
            }
            let ghost line = v@.subrange(p as int, q as int);
            let ghost p0 = p;
            let ghost ln0 = line_num;
            let ghost st0 = frames_view(stack@);
            let ghost it0 = view_items(items@);
            let (a, b) = trim_range(&v, p, q);
            let ghost t = trim(line);
            assert(v@.subrange(a as int, b as int) == t);
            line_num = line_num + 1;
            if a == b {
                items.push(ConfigItem::Blank);
                assert(view_items(items@) =~= it0.push(line_item(t)));
            } else if v[a] == '#' {
                items.push(ConfigItem::Comment(string_of(&v, a, b)));
                assert(view_items(items@) =~= it0.push(line_item(t)));
            } else if b - a == 1 && v[a] == '}' {
                assert(t =~= seq!['}']);
                match stack.pop() {
                    None => {
                        return Err(ParseError::UnexpectedCloseBrace(line_num));
                    },
                    Some(frame) => {
                        let (mut parent, name, _open_line) = frame;
                        let ghost pv = view_items(parent@);
                        parent.push(ConfigItem::Section { name, items });
                        items = parent;
                        assert(frames_view(stack@) =~= st0.drop_last());
                        assert(view_items(items@) =~= pv.push(
                            ItemView::Section { name: st0.last().name, items: it0 },
                        ));
                    },
                }
            } else if v[b - 1] == '{' {
                assert(t != seq!['}']);
                let (na, nb) = trim_range(&v, a, b - 1);
                assert(v@.subrange(a as int, b - 1) =~= t.drop_last());
                let name = string_of(&v, na, nb);
                let mut old_items = Vec::new();
                std::mem::swap(&mut old_items, &mut items);
                stack.push((old_items, name, line_num));
                assert(frames_view(stack@) =~= st0.push(
                    Frame { parent: it0, name: trim(t.drop_last()), line: line_num as nat },
                ));
                assert(view_items(items@) =~= Seq::<ItemView>::empty());
            } else {
                assert(t != seq!['}']);
                let eq = find_in_range(&v, a, b, '=');
                proof {
                    lemma_find_char_bounds(t, '=');
                }
                if eq < b {
                    let (ka, kb) = trim_range(&v, a, eq);
                    let (va, vb) = trim_range(&v, eq + 1, b);
                    assert(v@.subrange(a as int, eq as int) =~= t.take(eq - a));
                    assert(v@.subrange(eq + 1, b as int) =~= t.skip(eq - a + 1));
                    assert(has_char(t, '=')) by {
                        assert(t[eq - a] == '=');
                    }
                    let value = string_of(&v, va, vb);
                    if range_eq(&v, ka, kb, "source") {
                        proof {
                            reveal_strlit("source");
                            assert("source"@ =~= source_kw());
                        }
                        items.push(ConfigItem::Source(value));
                    } else {
                        proof {
                            reveal_strlit("source");
                            assert("source"@ =~= source_kw());
                        }
                        let key = string_of(&v, ka, kb);
                        items.push(ConfigItem::KeyValue { key, value });
                    }
                    assert(view_items(items@) =~= it0.push(line_item(t)));
                } else {
                    assert(!has_char(t, '='));
                    let key = string_of(&v, a, b);
                    items.push(ConfigItem::KeyValue { key, value: String::new() });
                    assert(view_items(items@) =~= it0.push(line_item(t)));
                }
            }
            p = if q < n { q + 1 } else { n };
            assert(v@.skip(n as int) =~= Seq::<char>::empty());
            proof {
                let ls = lines(v@.skip(p0 as int));
                assert(ls[0] == line);
                assert(ls.drop_first() =~= lines(v@.skip(p as int)));
                assert(parse_lines(ls, ln0 as nat, st0, it0) == parse_lines(
                    lines(v@.skip(p as int)),
                    line_num as nat,
                    frames_view(stack@),
                    view_items(items@),
                ));
            }
        }
        assert(v@.skip(n as int) =~= Seq::<char>::empty());
        assert(lines(v@.skip(p as int)) =~= Seq::<Seq<char>>::empty());
        if stack.len() > 0 {
            let open_line = stack[stack.len() - 1].2;
            return Err(ParseError::UnclosedSection(open_line));
        }
        Ok(HyprlandConfig { items })
    }
}


// ---------------------------------------------------------------------------
// Writer specification
// ---------------------------------------------------------------------------

pub open spec fn open_brace_suffix() -> Seq<char> {
    seq![' ', '{']
}

pub open spec fn assign_sep() -> Seq<char> {
    seq![' ', '=', ' ']
}

/// The output lines (without their newlines) of one item at indentation
/// `ind`.
pub open spec fn item_block(it: ItemView, ind: nat) -> Seq<Seq<char>>
    decreases it,
{
    match it {
        ItemView::Blank => seq![seq![]],
        ItemView::Comment(c) => seq![spaces(ind) + c],
        ItemView::KeyValue { key, value } => if value.len() == 0 {
            seq![spaces(ind) + key]
        } else {
            seq![spaces(ind) + key + assign_sep() + value]
        },
        ItemView::Section { name, items } => seq![spaces(ind) + name + open_brace_suffix()]
            + item_lines(items, ind + 4) + seq![spaces(ind) + seq!['}']],
        ItemView::Source(path) => seq![spaces(ind) + source_kw() + assign_sep() + path],
    }
}

/// The output lines of a list of items at indentation `ind`.
pub open spec fn item_lines(items: Seq<ItemView>, ind: nat) -> Seq<Seq<char>>
    decreases items,
{
    if items.len() == 0 {
        seq![]
    } else {
        item_block(items[0], ind) + item_lines(items.drop_first(), ind)
    }
}

/// The text `to_string_lossy` produces for `items`.
pub open spec fn render(items: Seq<ItemView>) -> Seq<char> {
    join_lines(item_lines(items, 0))
}

/// Every section, written at indentation `ind`, gives its contents an
/// indentation that a `usize` can count.
pub open spec fn indent_fits(items: Seq<ItemView>, ind: nat) -> bool
    decreases items,
{
    forall|i: int|
        #![trigger items[i]]
        0 <= i < items.len() ==> match items[i] {
            ItemView::Section { items: sub, .. } => ind + 4 <= usize::MAX && indent_fits(
                sub,
                ind + 4,
            ),
            _ => true,
        }
}

proof fn lemma_item_lines_step(items: Seq<ItemView>, i: int, ind: nat)
    requires
        0 <= i < items.len(),
    ensures
        join_lines(item_lines(items.skip(i), ind)) == join_lines(item_block(items[i], ind))
            + join_lines(item_lines(items.skip(i + 1), ind)),
{
    let s = items.skip(i);
    assert(s[0] == items[i]);
    assert(s.drop_first() =~= items.skip(i + 1));
    lemma_join_append(item_block(items[i], ind), item_lines(items.skip(i + 1), ind));
}

proof fn lemma_join_single(l: Seq<char>)
    ensures
        join_lines(seq![l]) == l + seq!['\n'],
{
    let e = Seq::<Seq<char>>::empty();
    assert(seq![l].drop_first() =~= e);
    assert(join_lines(e) == Seq::<char>::empty());
    assert(seq![l][0] == l);
    assert(join_lines(seq![l]) =~= l + seq!['\n']);
}

fn write_spaces(buf: &mut String, n: usize)
    ensures
        final(buf)@ == old(buf)@ + spaces(n as nat),
{
    let mut k: usize = 0;
    while k < n
        invariant
            k <= n,
            buf@ == old(buf)@ + spaces(k as nat),
        decreases n - k,
    {
        push_char(buf, ' ');
        k = k + 1;
        assert(buf@ =~= old(buf)@ + spaces(k as nat));
    }
}

/// Whether `items`, written at indentation `indent`, keep every nested
/// indentation within what a `usize` can count.
fn items_indent_fit(items: &Vec<ConfigItem>, indent: usize) -> (r: bool)
    ensures
        r == indent_fits(view_items(items@), indent as nat),
    decreases items@,
{
    let ghost vs = view_items(items@);
    let mut i: usize = 0;
    while i < items.len()
        invariant
            vs == view_items(items@),
            i <= items@.len(),
            forall|j: int|
                #![trigger vs[j]]
                0 <= j < i ==> match vs[j] {
                    ItemView::Section { items: sub, .. } => indent + 4 <= usize::MAX && indent_fits(
                        sub,
                        (indent + 4) as nat,
                    ),
                    _ => true,
                },
        decreases items@.len() - i,
    {
        assert(vs[i as int] == items@[i as int].view_item());
        match &items[i] {
            ConfigItem::Section { items: sub, .. } => {
                if indent > usize::MAX - 4 {
                    return false;
                }
                if !items_indent_fit(sub, indent + 4) {
                    return false;
                }
            },
            _ => {},
        }
        i = i + 1;
    }
    true
}

fn write_items(buf: &mut String, items: &Vec<ConfigItem>, indent: usize)
    requires
        indent_fits(view_items(items@), indent as nat),
    ensures
        final(buf)@ == old(buf)@ + join_lines(item_lines(view_items(items@), indent as nat)),
    decreases items@,
{
    let ghost vs = view_items(items@);
    let ghost ind = indent as nat;
    let mut i: usize = 0;
    assert(vs.skip(0) =~= vs);
    while i < items.len()
        invariant
            vs == view_items(items@),
            ind == indent,
            i <= items@.len(),
            indent_fits(vs, ind),
            old(buf)@ + join_lines(item_lines(vs, ind)) == buf@ + join_lines(
                item_lines(vs.skip(i as int), ind),
            ),
        decreases items@.len() - i,
    {
        let ghost b0 = buf@;
        let ghost it = vs[i as int];
        proof {
            lemma_item_lines_step(vs, i as int, ind);
            assert(it == items@[i as int].view_item());
        }
        match &items[i] {
            ConfigItem::Blank => {
                push_char(buf, '\n');
                proof {
                    lemma_join_single(seq![]);
                }
                assert(join_lines(item_block(it, ind)) =~= seq!['\n']);
            },
            ConfigItem::Comment(c) => {
                write_spaces(buf, indent);
                buf.append(c.as_str());
                push_char(buf, '\n');
                proof {
                    lemma_join_single(spaces(ind) + c@);
                }
            },
            ConfigItem::KeyValue { key, value } => {
                write_spaces(buf, indent);
                if value.as_str().is_empty() {
                    buf.append(key.as_str());
                    proof {
                        lemma_join_single(spaces(ind) + key@);
                    }
                } else {
                    buf.append(key.as_str());
                    proof {
                        reveal_strlit(" = ");
                    }
                    buf.append(" = ");
                    buf.append(value.as_str());
                    assert(" = "@ =~= assign_sep());
                    proof {
                        lemma_join_single(spaces(ind) + key@ + assign_sep() + value@);
                    }
                }
                push_char(buf, '\n');
            },
            ConfigItem::Section { name, items: sub } => {
                assert(indent_fits(view_items(sub@), ind + 4));
                let ghost sv = view_items(sub@);
                let ghost open_line = spaces(ind) + name@ + open_brace_suffix();
                let ghost close_line = spaces(ind) + seq!['}'];
                write_spaces(buf, indent);
                buf.append(name.as_str());
                proof {
                    reveal_strlit(" {");
                }
                buf.append(" {");
                push_char(buf, '\n');
                write_items(buf, sub, indent + 4);
                write_spaces(buf, indent);
                push_char(buf, '}');
                push_char(buf, '\n');
                proof {
                    lemma_join_append(seq![open_line], item_lines(sv, ind + 4));
                    lemma_join_append(seq![open_line] + item_lines(sv, ind + 4), seq![close_line]);
                    lemma_join_single(open_line);
                    lemma_join_single(close_line);
                    assert(" {"@ =~= open_brace_suffix());
                    assert(join_lines(item_block(it, ind)) =~= open_line + seq!['\n']
                        + join_lines(item_lines(sv, ind + 4)) + close_line + seq!['\n']);
                }
            },
            ConfigItem::Source(path) => {
                write_spaces(buf, indent);
                proof {
                    reveal_strlit("source = ");
                }
                buf.append("source = ");
                buf.append(path.as_str());
                push_char(buf, '\n');
                assert("source = "@ =~= source_kw() + assign_sep());
                proof {
                    lemma_join_single(spaces(ind) + source_kw() + assign_sep() + path@);
                }
            },
        }
        assert(buf@ =~= b0 + join_lines(item_block(it, ind)));
        i = i + 1;
    }
    assert(vs.skip(i as int) =~= Seq::<ItemView>::empty());
}

impl HyprlandConfig {
    /// Serialize back to hyprland.conf format.
    ///
    /// Indentation is normalized to 4 spaces per nesting level.  Comments and
    /// ordering are preserved.
    /// Whether the configuration can be written: every nested indentation
    /// stays within what a `usize` can count (the `requires` of
    /// `to_string_lossy`).
    pub fn can_write(&self) -> (r: bool)
        ensures
            r == indent_fits(self@, 0),
    {
        items_indent_fit(&self.items, 0)
    }

    pub fn to_string_lossy(&self) -> (s: String)
        requires
            indent_fits(self@, 0),
        ensures
            s@ == render(self@),
    {
        let mut buf = String::new();
        write_items(&mut buf, &self.items, 0);
        buf
    }
}


// ---------------------------------------------------------------------------
// Query specification
// ---------------------------------------------------------------------------

pub open spec fn is_kv_with(it: ItemView, key: Seq<char>) -> bool {
    it matches ItemView::KeyValue { key: k, .. } && k == key
}

pub open spec fn is_section_named(it: ItemView, name: Seq<char>) -> bool {
    it matches ItemView::Section { name: n, .. } && n == name
}

pub open spec fn kv_value(it: ItemView) -> Seq<char> {
    match it {
        ItemView::KeyValue { value, .. } => value,
        _ => seq![],
    }
}

pub open spec fn section_items(it: ItemView) -> Seq<ItemView> {
    match it {
        ItemView::Section { items, .. } => items,
        _ => seq![],
    }
}

/// Index of the first `key = value` entry for `key`, or `items.len()`.
pub open spec fn first_kv(items: Seq<ItemView>, key: Seq<char>) -> int
    decreases items.len(),
{
    if items.len() == 0 {
        0
    } else if is_kv_with(items[0], key) {
        0
    } else {
        1 + first_kv(items.drop_first(), key)
    }
}

/// Index of the first section called `name`, or `items.len()`.
pub open spec fn first_section(items: Seq<ItemView>, name: Seq<char>) -> int
    decreases items.len(),
{
    if items.len() == 0 {
        0
    } else if is_section_named(items[0], name) {
        0
    } else {
        1 + first_section(items.drop_first(), name)
    }
}

/// The value of the first `key = value` entry for `key` among `items`.
pub open spec fn lookup(items: Seq<ItemView>, key: Seq<char>) -> Option<Seq<char>> {
    let i = first_kv(items, key);
    if 0 <= i < items.len() {
        Some(kv_value(items[i]))
    } else {
        None
    }
}

/// The values of all `key = value` entries for `key`, in order.
pub open spec fn lookup_all(items: Seq<ItemView>, key: Seq<char>) -> Seq<Seq<char>>
    decreases items.len(),
{
    if items.len() == 0 {
        seq![]
    } else {
        (if is_kv_with(items[0], key) {
            seq![kv_value(items[0])]
        } else {
            seq![]
        }) + lookup_all(items.drop_first(), key)
    }
}

/// The value for `key` in the first section called `section` that has one.
pub open spec fn lookup_in_section(
    items: Seq<ItemView>,
    section: Seq<char>,
    key: Seq<char>,
) -> Option<Seq<char>>
    decreases items.len(),
{
    if items.len() == 0 {
        None
    } else if is_section_named(items[0], section) && lookup(section_items(items[0]), key) is Some {
        lookup(section_items(items[0]), key)
    } else {
        lookup_in_section(items.drop_first(), section, key)
    }
}

/// The items reached by following `path`, taking at each level the first
/// section with the next name.
pub open spec fn nested_items(items: Seq<ItemView>, path: Seq<Seq<char>>) -> Option<Seq<ItemView>>
    decreases path.len(),
{
    if path.len() == 0 {
        Some(items)
    } else {
        let i = first_section(items, path[0]);
        if 0 <= i < items.len() {
            nested_items(section_items(items[i]), path.drop_first())
        } else {
            None
        }
    }
}

pub open spec fn lookup_nested(items: Seq<ItemView>, path: Seq<Seq<char>>, key: Seq<char>) -> Option<
    Seq<char>,
> {
    match nested_items(items, path) {
        Some(its) => lookup(its, key),
        None => None,
    }
}

pub open spec fn path_view(path: Seq<&str>) -> Seq<Seq<char>> {
    Seq::new(path.len(), |i: int| path[i]@)
}

pub open spec fn opt_str_is(r: Option<&str>, o: Option<Seq<char>>) -> bool {
    match o {
        Some(v) => r is Some && r->0@ == v,
        None => r is None,
    }
}

pub proof fn lemma_first_kv(items: Seq<ItemView>, key: Seq<char>)
    ensures
        0 <= first_kv(items, key) <= items.len(),
        first_kv(items, key) < items.len() ==> is_kv_with(items[first_kv(items, key)], key),
        forall|j: int| 0 <= j < first_kv(items, key) ==> !is_kv_with(#[trigger] items[j], key),
    decreases items.len(),
{
    if items.len() > 0 && !is_kv_with(items[0], key) {
        lemma_first_kv(items.drop_first(), key);
        assert forall|j: int| 0 <= j < first_kv(items, key) implies !is_kv_with(
            #[trigger] items[j],
            key,
        ) by {
            if j > 0 {
                assert(items[j] == items.drop_first()[j - 1]);
            }
        }
    }
}

pub proof fn lemma_first_kv_at(items: Seq<ItemView>, key: Seq<char>, k: int)
    requires
        0 <= k <= items.len(),
        k < items.len() ==> is_kv_with(items[k], key),
        forall|j: int| 0 <= j < k ==> !is_kv_with(#[trigger] items[j], key),
    ensures
        first_kv(items, key) == k,
    decreases items.len(),
{
    if items.len() > 0 && k > 0 {
        assert forall|j: int| 0 <= j < k - 1 implies !is_kv_with(
            #[trigger] items.drop_first()[j],
            key,
        ) by {
            assert(items.drop_first()[j] == items[j + 1]);
        }
        lemma_first_kv_at(items.drop_first(), key, k - 1);
    }
}

pub proof fn lemma_first_section(items: Seq<ItemView>, name: Seq<char>)
    ensures
        0 <= first_section(items, name) <= items.len(),
        first_section(items, name) < items.len() ==> is_section_named(
            items[first_section(items, name)],
            name,
        ),
        forall|j: int|
            0 <= j < first_section(items, name) ==> !is_section_named(#[trigger] items[j], name),
    decreases items.len(),
{
    if items.len() > 0 && !is_section_named(items[0], name) {
        lemma_first_section(items.drop_first(), name);
        assert forall|j: int| 0 <= j < first_section(items, name) implies !is_section_named(
            #[trigger] items[j],
            name,
        ) by {
            if j > 0 {
                assert(items[j] == items.drop_first()[j - 1]);
            }
        }
    }
}

pub proof fn lemma_first_section_at(items: Seq<ItemView>, name: Seq<char>, k: int)
    requires
        0 <= k <= items.len(),
        k < items.len() ==> is_section_named(items[k], name),
        forall|j: int| 0 <= j < k ==> !is_section_named(#[trigger] items[j], name),
    ensures
        first_section(items, name) == k,
    decreases items.len(),
{
    if items.len() > 0 && k > 0 {
        assert forall|j: int| 0 <= j < k - 1 implies !is_section_named(
            #[trigger] items.drop_first()[j],
            name,
        ) by {
            assert(items.drop_first()[j] == items[j + 1]);
        }
        lemma_first_section_at(items.drop_first(), name, k - 1);
    }
}

// ---------------------------------------------------------------------------
// Queries
// ---------------------------------------------------------------------------

/// Index of the first `key = value` entry for `key`, or `items.len()`.
fn find_kv(items: &Vec<ConfigItem>, key: &str) -> (r: usize)
    ensures
        r == first_kv(view_items(items@), key@),
{
    let ghost vs = view_items(items@);
    let mut i: usize = 0;
    while i < items.len()
        invariant
            vs == view_items(items@),
            i <= items@.len(),
            forall|j: int| 0 <= j < i ==> !is_kv_with(#[trigger] vs[j], key@),
        decreases items@.len() - i,
    {
        if let ConfigItem::KeyValue { key: k, .. } = &items[i] {
            if str_eq(k.as_str(), key) {
                proof {
                    lemma_first_kv_at(vs, key@, i as int);
                }
                return i;
            }
        }
        i = i + 1;
    }
    proof {
        lemma_first_kv_at(vs, key@, i as int);
    }
    i
}

/// Index of the first section called `name`, or `items.len()`.
fn find_section(items: &Vec<ConfigItem>, name: &str) -> (r: usize)
    ensures
        r == first_section(view_items(items@), name@),
{
    let ghost vs = view_items(items@);
    let mut i: usize = 0;
    while i < items.len()
        invariant
            vs == view_items(items@),
            i <= items@.len(),
            forall|j: int| 0 <= j < i ==> !is_section_named(#[trigger] vs[j], name@),
        decreases items@.len() - i,
    {
        if let ConfigItem::Section { name: n, .. } = &items[i] {
            if str_eq(n.as_str(), name) {
                proof {
                    lemma_first_section_at(vs, name@, i as int);
                }
                return i;
            }
        }
        i = i + 1;
    }
    proof {
        lemma_first_section_at(vs, name@, i as int);
    }
    i
}

fn get_in_items<'a>(items: &'a Vec<ConfigItem>, key: &str) -> (r: Option<&'a str>)
    ensures
        opt_str_is(r, lookup(view_items(items@), key@)),
{
    let i = find_kv(items, key);
    proof {
        lemma_first_kv(view_items(items@), key@);
    }
    if i < items.len() {
        match &items[i] {
            ConfigItem::KeyValue { value, .. } => Some(value.as_str()),
            _ => None,
        }
    } else {
        None
    }
}

fn get_all_in_items<'a>(items: &'a Vec<ConfigItem>, key: &str) -> (r: Vec<&'a str>)
    ensures
        r@.len() == lookup_all(view_items(items@), key@).len(),
        forall|j: int| 0 <= j < r@.len() ==> (#[trigger] r@[j])@ == lookup_all(view_items(items@), key@)[j],
{
    let ghost vs = view_items(items@);
    let mut out: Vec<&'a str> = Vec::new();
    let mut i: usize = 0;
    assert(vs.skip(0) =~= vs);
    while i < items.len()
        invariant
            vs == view_items(items@),
            i <= items@.len(),
            path_view(out@) + lookup_all(vs.skip(i as int), key@) == lookup_all(vs, key@),
        decreases items@.len() - i,
    {
        let ghost before = path_view(out@);
        assert(vs.skip(i as int)[0] == vs[i as int]);
        assert(vs.skip(i as int).drop_first() =~= vs.skip(i + 1));
        if let ConfigItem::KeyValue { key: k, value } = &items[i] {
            if str_eq(k.as_str(), key) {
                out.push(value.as_str());
                assert(path_view(out@) =~= before + seq![value@]);
            } else {
                assert(path_view(out@) =~= before);
            }
        } else {
            assert(path_view(out@) =~= before);
        }
        i = i + 1;
    }
    assert(vs.skip(i as int) =~= Seq::<ItemView>::empty());
    assert(path_view(out@) =~= lookup_all(vs, key@));
    out
}

fn get_in_section_items<'a>(items: &'a Vec<ConfigItem>, section: &str, key: &str) -> (r: Option<&'a str>)
    ensures
        opt_str_is(r, lookup_in_section(view_items(items@), section@, key@)),
{
    let ghost vs = view_items(items@);
    let mut i: usize = 0;
    assert(vs.skip(0) =~= vs);
    while i < items.len()
        invariant
            vs == view_items(items@),
            i <= items@.len(),
            lookup_in_section(vs.skip(i as int), section@, key@) == lookup_in_section(vs, section@, key@),
        decreases items@.len() - i,
    {
        assert(vs.skip(i as int)[0] == vs[i as int]);
        assert(vs.skip(i as int).drop_first() =~= vs.skip(i + 1));
        if let ConfigItem::Section { name, items: sub } = &items[i] {
            if str_eq(name.as_str(), section) {
                if let Some(v) = get_in_items(sub, key) {
                    return Some(v);
                }
            }
        }
        i = i + 1;
    }
    None
}

impl HyprlandConfig {
    /// Get the value of the first top-level `key = value` matching `key`.
    pub fn get(&self, key: &str) -> (r: Option<&str>)
        ensures
            opt_str_is(r, lookup(self@, key@)),
    {
        get_in_items(&self.items, key)
    }

    /// Get all values for a given top-level key (e.g. `bind`, `monitor`).
    pub fn get_all(&self, key: &str) -> (r: Vec<&str>)
        ensures
            path_view(r@) == lookup_all(self@, key@),
    {
        let r = get_all_in_items(&self.items, key);
        assert(path_view(r@) =~= lookup_all(self@, key@));
        r
    }

    /// Get a value inside a named top-level section.
    pub fn get_in_section(&self, section: &str, key: &str) -> (r: Option<&str>)
        ensures
            opt_str_is(r, lookup_in_section(self@, section@, key@)),
    {
        get_in_section_items(&self.items, section, key)
    }

    /// Get a value inside arbitrarily nested sections.
    pub fn get_in_nested(&self, path: &[&str], key: &str) -> (r: Option<&str>)
        ensures
            opt_str_is(r, lookup_nested(self@, path_view(path@), key@)),
    {
        let mut current: &Vec<ConfigItem> = &self.items;
        let mut k: usize = 0;
        assert(path_view(path@).skip(0) =~= path_view(path@));
        while k < path.len()
            invariant
                k <= path@.len(),
                nested_items(view_items(current@), path_view(path@).skip(k as int)) == nested_items(
                    self@,
                    path_view(path@),
                ),
            decreases path@.len() - k,
        {
            let ghost pv = path_view(path@).skip(k as int);
            assert(pv[0] == path[k as int]@);
            assert(pv.drop_first() =~= path_view(path@).skip(k + 1));
            let i = find_section(current, path[k]);
            proof {
                lemma_first_section(view_items(current@), path[k as int]@);
            }
            if i >= current.len() {
                return None;
            }
            match &current[i] {
                ConfigItem::Section { items, .. } => {
                    current = items;
                },
                _ => {
                    return None;
                },
            }
            k = k + 1;
        }
        assert(path_view(path@).skip(k as int) =~= Seq::<Seq<char>>::empty());
        get_in_items(current, key)
    }
}


// ---------------------------------------------------------------------------
// Mutation specification
// ---------------------------------------------------------------------------

pub open spec fn kv(key: Seq<char>, value: Seq<char>) -> ItemView {
    ItemView::KeyValue { key, value }
}

/// `items` with the first entry for `key` given `value`, or with a new entry
/// appended when there is none.
pub open spec fn spec_set(items: Seq<ItemView>, key: Seq<char>, value: Seq<char>) -> Seq<ItemView> {
    let i = first_kv(items, key);
    if 0 <= i < items.len() {
        items.update(i, kv(key, value))
    } else {
        items.push(kv(key, value))
    }
}

/// `spec_set` inside the first section called `section`, or a new section
/// holding just the entry when there is none.
pub open spec fn spec_set_in_section(
    items: Seq<ItemView>,
    section: Seq<char>,
    key: Seq<char>,
    value: Seq<char>,
) -> Seq<ItemView> {
    let i = first_section(items, section);
    if 0 <= i < items.len() {
        items.update(
            i,
            ItemView::Section { name: section, items: spec_set(section_items(items[i]), key, value) },
        )
    } else {
        items.push(ItemView::Section { name: section, items: seq![kv(key, value)] })
    }
}

/// `spec_set` at the end of `path`, creating the missing sections.
pub open spec fn spec_set_nested(
    items: Seq<ItemView>,
    path: Seq<Seq<char>>,
    key: Seq<char>,
    value: Seq<char>,
) -> Seq<ItemView>
    decreases path.len(),
{
    if path.len() == 0 {
        spec_set(items, key, value)
    } else {
        let i = first_section(items, path[0]);
        if 0 <= i < items.len() {
            items.update(
                i,
                ItemView::Section {
                    name: path[0],
                    items: spec_set_nested(section_items(items[i]), path.drop_first(), key, value),
                },
            )
        } else {
            items.push(
                ItemView::Section {
                    name: path[0],
                    items: spec_set_nested(seq![], path.drop_first(), key, value),
                },
            )
        }
    }
}

/// Whether `remove_all` drops `it`.
pub open spec fn removed_by(it: ItemView, key: Seq<char>, prefix: Option<Seq<char>>) -> bool {
    is_kv_with(it, key) && match prefix {
        Some(p) => p.len() <= kv_value(it).len() && kv_value(it).take(p.len() as int) == p,
        None => true,
    }
}

pub open spec fn spec_remove_all(
    items: Seq<ItemView>,
    key: Seq<char>,
    prefix: Option<Seq<char>>,
) -> Seq<ItemView>
    decreases items.len(),
{
    if items.len() == 0 {
        seq![]
    } else {
        (if removed_by(items[0], key, prefix) {
            seq![]
        } else {
            seq![items[0]]
        }) + spec_remove_all(items.drop_first(), key, prefix)
    }
}

/// `items` without its first entry for `key`.
pub open spec fn spec_remove_first(items: Seq<ItemView>, key: Seq<char>) -> Seq<ItemView> {
    let i = first_kv(items, key);
    if 0 <= i < items.len() {
        items.remove(i)
    } else {
        items
    }
}

pub open spec fn spec_remove_in_section(
    items: Seq<ItemView>,
    section: Seq<char>,
    key: Seq<char>,
) -> Seq<ItemView> {
    let i = first_section(items, section);
    if 0 <= i < items.len() {
        items.update(
            i,
            ItemView::Section { name: section, items: spec_remove_first(section_items(items[i]), key) },
        )
    } else {
        items
    }
}

/// Whether `remove_in_section` finds something to remove.
pub open spec fn removes_in_section(items: Seq<ItemView>, section: Seq<char>, key: Seq<char>) -> bool {
    let i = first_section(items, section);
    0 <= i < items.len() && lookup(section_items(items[i]), key) is Some
}

// ---------------------------------------------------------------------------
// Mutations
// ---------------------------------------------------------------------------

fn set_in_items(items: &mut Vec<ConfigItem>, key: &str, value: &str)
    ensures
        view_items(final(items)@) == spec_set(view_items(old(items)@), key@, value@),
{
    let ghost vs = view_items(items@);
    let i = find_kv(items, key);
    proof {
        lemma_first_kv(vs, key@);
    }
    let item = ConfigItem::KeyValue { key: key.to_string(), value: value.to_string() };
    if i < items.len() {
        items.set(i, item);
        assert(view_items(items@) =~= vs.update(i as int, kv(key@, value@)));
    } else {
        items.push(item);
        assert(view_items(items@) =~= vs.push(kv(key@, value@)));
    }
}

fn set_in_nested_items(items: &mut Vec<ConfigItem>, path: &[&str], k: usize, key: &str, value: &str)
    requires
        k <= path@.len(),
    ensures
        view_items(final(items)@) == spec_set_nested(
            view_items(old(items)@),
            path_view(path@).skip(k as int),
            key@,
            value@,
        ),
    decreases path@.len() - k,
{
    let ghost vs = view_items(items@);
    let ghost pv = path_view(path@).skip(k as int);
    if k == path.len() {
        assert(pv =~= Seq::<Seq<char>>::empty());
        set_in_items(items, key, value);
        return;
    }
    assert(pv[0] == path[k as int]@);
    assert(pv.drop_first() =~= path_view(path@).skip(k + 1));
    let section_name = path[k];
    let i = find_section(items, section_name);
    proof {
        lemma_first_section(vs, section_name@);
    }
    if i < items.len() {
        let mut tmp = ConfigItem::Blank;
        items.set_and_swap(i, &mut tmp);
        let ghost mid = items@;
        match tmp {
            ConfigItem::Section { name, items: mut sub } => {
                set_in_nested_items(&mut sub, path, k + 1, key, value);
                let ghost subv = view_items(sub@);
                items.set(i, ConfigItem::Section { name, items: sub });
                assert(view_items(items@) =~= vs.update(
                    i as int,
                    ItemView::Section { name: section_name@, items: subv },
                ));
            },
            _ => {
                assert(false);
            },
        }
    } else {
        let mut new_items: Vec<ConfigItem> = Vec::new();
        assert(view_items(new_items@) =~= Seq::<ItemView>::empty());
        set_in_nested_items(&mut new_items, path, k + 1, key, value);
        let ghost subv = view_items(new_items@);
        items.push(ConfigItem::Section { name: section_name.to_string(), items: new_items });
        assert(view_items(items@) =~= vs.push(
            ItemView::Section { name: section_name@, items: subv },
        ));
    }
}

impl HyprlandConfig {
    /// Update the first top-level entry matching `key`, or append a new one.
    pub fn set(&mut self, key: &str, value: &str)
        ensures
            final(self)@ == spec_set(old(self)@, key@, value@),
    {
        set_in_items(&mut self.items, key, value);
    }

    /// Update a key inside a top-level section, creating the section if needed.
    pub fn set_in_section(&mut self, section: &str, key: &str, value: &str)
        ensures
            final(self)@ == spec_set_in_section(old(self)@, section@, key@, value@),
    {
        let ghost vs = self@;
        let i = find_section(&self.items, section);
        proof {
            lemma_first_section(vs, section@);
        }
        if i < self.items.len() {
            let mut tmp = ConfigItem::Blank;
            self.items.set_and_swap(i, &mut tmp);
            match tmp {
                ConfigItem::Section { name, items: mut sub } => {
                    set_in_items(&mut sub, key, value);
                    let ghost subv = view_items(sub@);
                    self.items.set(i, ConfigItem::Section { name, items: sub });
                    assert(self@ =~= vs.update(
                        i as int,
                        ItemView::Section { name: section@, items: subv },
                    ));
                },
                _ => {
                    assert(false);
                },
            }
        } else {
            let mut sub: Vec<ConfigItem> = Vec::new();
            sub.push(ConfigItem::KeyValue { key: key.to_string(), value: value.to_string() });
            assert(view_items(sub@) =~= seq![kv(key@, value@)]);
            self.items.push(ConfigItem::Section { name: section.to_string(), items: sub });
            assert(self@ =~= vs.push(ItemView::Section { name: section@, items: seq![kv(key@, value@)] }));
        }
    }

    /// Update a key inside a nested section path, creating sections as needed.
    pub fn set_in_nested(&mut self, path: &[&str], key: &str, value: &str)
        ensures
            final(self)@ == spec_set_nested(old(self)@, path_view(path@), key@, value@),
    {
        assert(path_view(path@).skip(0) =~= path_view(path@));
        set_in_nested_items(&mut self.items, path, 0, key, value);
    }

    /// Always append a new `key = value` entry (for multi-value keys like
    /// `bind`).
    pub fn add(&mut self, key: &str, value: &str)
        ensures
            final(self)@ == old(self)@.push(kv(key@, value@)),
    {
        let ghost vs = self@;
        self.items.push(ConfigItem::KeyValue { key: key.to_string(), value: value.to_string() });
        assert(self@ =~= vs.push(kv(key@, value@)));
    }
}


/// `items` without its first entry for `key`; reports whether one was there.
fn remove_first_in_items(items: &mut Vec<ConfigItem>, key: &str) -> (removed: bool)
    ensures
        view_items(final(items)@) == spec_remove_first(view_items(old(items)@), key@),
        removed == (lookup(view_items(old(items)@), key@) is Some),
{
    let ghost vs = view_items(items@);
    let i = find_kv(items, key);
    proof {
        lemma_first_kv(vs, key@);
    }
    if i < items.len() {
        let _ = items.remove(i);
        assert(view_items(items@) =~= vs.remove(i as int));
        true
    } else {
        false
    }
}

impl HyprlandConfig {
    /// Remove all top-level entries matching `key`.  If `value_prefix` is
    /// provided, only remove entries whose value starts with that prefix.
    pub fn remove_all(&mut self, key: &str, value_prefix: Option<&str>)
        ensures
            final(self)@ == spec_remove_all(
                old(self)@,
                key@,
                match value_prefix {
                    Some(p) => Some(p@),
                    None => None,
                },
            ),
    {
        let ghost vs = self@;
        let ghost prefix = match value_prefix {
            Some(p) => Some(p@),
            None => None::<Seq<char>>,
        };
        let mut kept: Vec<ConfigItem> = Vec::new();
        let mut old_items: Vec<ConfigItem> = Vec::new();
        std::mem::swap(&mut old_items, &mut self.items);
        assert(forall|j: int| 0 <= j < old_items@.len() ==> (#[trigger] old_items@[j]).view_item() == vs[j]);
        let n = old_items.len();
        // Reverse the items so that popping yields them front to back.
        let mut rest: Vec<ConfigItem> = Vec::new();
        let mut r: usize = 0;
        while r < n
            invariant
                n == vs.len(),
                r <= n,
                old_items@.len() == n - r,
                forall|j: int| 0 <= j < n - r ==> (#[trigger] old_items@[j]).view_item() == vs[j],
                rest@.len() == r,
                forall|j: int| 0 <= j < r ==> (#[trigger] rest@[j]).view_item() == vs[n - 1 - j],
            decreases n - r,
        {
            let item = old_items.pop().unwrap();
            rest.push(item);
            r = r + 1;
        }
        assert(view_items(kept@) =~= Seq::<ItemView>::empty());
        assert(vs.skip(0) =~= vs);
        let mut i: usize = 0;
        while i < n
            invariant
                n == vs.len(),
                i <= n,
                rest@.len() == n - i,
                prefix == match value_prefix {
                    Some(p) => Some(p@),
                    None => None::<Seq<char>>,
                },
                forall|j: int| 0 <= j < n - i ==> (#[trigger] rest@[j]).view_item() == vs[n - 1 - j],
                view_items(kept@) + spec_remove_all(vs.skip(i as int), key@, prefix) == spec_remove_all(
                    vs,
                    key@,
                    prefix,
                ),
            decreases n - i,
        {
            let item = rest.pop().unwrap();
            let ghost it = vs[i as int];
            assert(item.view_item() == it);
            assert(vs.skip(i as int)[0] == it);
            assert(vs.skip(i as int).drop_first() =~= vs.skip(i + 1));
            let ghost k0 = view_items(kept@);
            let drop = match &item {
                ConfigItem::KeyValue { key: k, value: v } => {
                    assert(it == kv(k@, v@));
                    if str_eq(k.as_str(), key) {
                        match value_prefix {
                            Some(p) => {
                                assert(prefix == Some(p@));
                                str_starts_with(v.as_str(), p)
                            },
                            None => true,
                        }
                    } else {
                        false
                    }
                },
                _ => {
                    assert(!is_kv_with(it, key@));
                    false
                },
            };
            assert(drop == removed_by(it, key@, prefix));
            if !drop {
                kept.push(item);
                assert(view_items(kept@) =~= k0 + seq![it]);
            } else {
                assert(view_items(kept@) =~= k0 + Seq::<ItemView>::empty());
            }
            i = i + 1;
        }
        assert(vs.skip(n as int) =~= Seq::<ItemView>::empty());
        assert(view_items(kept@) =~= spec_remove_all(vs, key@, prefix));
        self.items = kept;
    }

    /// Remove the first top-level `key = value` matching `key`.
    /// Returns `true` if an entry was removed.
    pub fn remove(&mut self, key: &str) -> (removed: bool)
        ensures
            final(self)@ == spec_remove_first(old(self)@, key@),
            removed == (lookup(old(self)@, key@) is Some),
    {
        remove_first_in_items(&mut self.items, key)
    }

    /// Remove the first `key = value` inside the named top-level section.
    /// Returns `true` if an entry was removed.
    pub fn remove_in_section(&mut self, section: &str, key: &str) -> (removed: bool)
        ensures
            final(self)@ == spec_remove_in_section(old(self)@, section@, key@),
            removed == removes_in_section(old(self)@, section@, key@),
    {
        let ghost vs = self@;
        let i = find_section(&self.items, section);
        proof {
            lemma_first_section(vs, section@);
        }
        if i < self.items.len() {
            let mut tmp = ConfigItem::Blank;
            self.items.set_and_swap(i, &mut tmp);
            match tmp {
                ConfigItem::Section { name, items: mut sub } => {
                    let removed = remove_first_in_items(&mut sub, key);
                    let ghost subv = view_items(sub@);
                    self.items.set(i, ConfigItem::Section { name, items: sub });
                    assert(self@ =~= vs.update(
                        i as int,
                        ItemView::Section { name: section@, items: subv },
                    ));
                    removed
                },
                _ => {
                    assert(false);
                    false
                },
            }
        } else {
            false
        }
    }
}

} // verus!
