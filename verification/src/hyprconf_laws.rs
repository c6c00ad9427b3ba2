//! Laws of the hyprland.conf model: writing then parsing gives the items
//! back, and what the mutations do to later queries.
use vstd::prelude::*;

use crate::hyprconf::{
    assign_sep, first_kv, first_section, is_close_line, is_kv_with, is_open_line,
    is_section_named, item_block, item_lines, kv, kv_value, lemma_first_kv, lemma_first_kv_at,
    lemma_first_section, lemma_first_section_at, line_item, lookup, lookup_all, lookup_in_section,
    lookup_nested, nested_items, open_brace_suffix, parse_lines, removed_by, render, section_items,
    source_kw, spec_parse, spec_remove_all, spec_remove_first, spec_set, spec_set_in_section,
    spec_set_nested, Frame, ItemView, ParseOutcome,
};
use crate::text::{
    find_char, has_char, is_ws, join_lines, lemma_find_char_at, lemma_has_char_concat,
    lemma_lines_join, lemma_spaces_ws, lemma_trim_end_ws_suffix, lemma_trim_fixed,
    lemma_trim_fixed_iff, lemma_trim_start_ws_prefix, lines, spaces, trim, trim_end, trim_start,
};

verus! {

broadcast use vstd::seq::group_seq_axioms;

/// `s` has no whitespace at either end.
pub open spec fn trimmed(s: Seq<char>) -> bool {
    trim(s) == s
}

pub open spec fn no_newline(s: Seq<char>) -> bool {
    !has_char(s, '\n')
}

/// An item that the writer puts on lines which the parser reads back as the
/// same item: its text is trimmed and newline-free, and nothing in it makes
/// its line look like another kind of line.
pub open spec fn item_wf(it: ItemView) -> bool
    decreases it,
{
    match it {
        ItemView::Blank => true,
        ItemView::Comment(c) => c.len() > 0 && c[0] == '#' && trimmed(c) && no_newline(c),
        ItemView::KeyValue { key, value } => {
            &&& trimmed(key)
            &&& trimmed(value)
            &&& no_newline(key)
            &&& no_newline(value)
            &&& !has_char(key, '=')
            &&& (key.len() > 0 ==> key[0] != '#')
            &&& if value.len() == 0 {
                key.len() > 0 && key != seq!['}'] && key.last() != '{'
            } else {
                key != source_kw() && value.last() != '{'
            }
        },
        ItemView::Section { name, items } => {
            &&& trimmed(name)
            &&& no_newline(name)
            &&& (name.len() > 0 ==> name[0] != '#')
            &&& items_wf(items)
        },
        ItemView::Source(p) => trimmed(p) && no_newline(p) && (p.len() > 0 ==> p.last() != '{'),
    }
}

pub open spec fn items_wf(items: Seq<ItemView>) -> bool
    decreases items,
{
    forall|i: int| #![trigger items[i]] 0 <= i < items.len() ==> item_wf(items[i])
}

proof fn lemma_trim_ws_prefix(w: Seq<char>, x: Seq<char>)
    requires
        forall|j: int| 0 <= j < w.len() ==> is_ws(#[trigger] w[j]),
    ensures
        trim(w + x) == trim(x),
{
    lemma_trim_start_ws_prefix(w, x);
}

proof fn lemma_spaces_no_newline(n: nat)
    ensures
        no_newline(spaces(n)),
{
    if has_char(spaces(n), '\n') {
        let i = choose|i: int| 0 <= i < spaces(n).len() && spaces(n)[i] == '\n';
        assert(spaces(n)[i] == ' ');
    }
}

/// Trimming a written line removes the indentation.
proof fn lemma_trim_indented(n: nat, x: Seq<char>)
    ensures
        trim(spaces(n) + x) == trim(x),
{
    lemma_spaces_ws(n);
    lemma_trim_ws_prefix(spaces(n), x);
}

/// A trimmed, non-empty key followed by a space trims back to the key.
proof fn lemma_trim_key_space(key: Seq<char>)
    requires
        trimmed(key),
    ensures
        trim(key + seq![' ']) == key,
{
    lemma_trim_fixed_iff(key);
    if key.len() > 0 {
        assert((key + seq![' '])[0] == key[0]);
        assert(trim_start(key + seq![' ']) == key + seq![' ']);
        assert(forall|j: int| 0 <= j < seq![' '].len() ==> is_ws(#[trigger] seq![' '][j]));
        lemma_trim_end_ws_suffix(key, seq![' ']);
        assert(trim_start(key) == key);
    } else {
        assert(key + seq![' '] =~= seq![' ']);
        assert(is_ws(seq![' '][0]));
        assert(seq![' '].drop_first() =~= Seq::<char>::empty());
        assert(trim_start(Seq::<char>::empty()) =~= Seq::<char>::empty());
        assert(trim_start(seq![' ']) =~= Seq::<char>::empty());
    }
}

/// A space followed by a trimmed value trims back to the value.
proof fn lemma_trim_space_value(value: Seq<char>)
    requires
        trimmed(value),
    ensures
        trim(seq![' '] + value) == value,
{
    assert(forall|j: int| 0 <= j < seq![' '].len() ==> is_ws(#[trigger] seq![' '][j]));
    lemma_trim_ws_prefix(seq![' '], value);
}

/// The line of a `key = value` entry with a non-empty value.
proof fn lemma_kv_line(ind: nat, key: Seq<char>, value: Seq<char>)
    requires
        item_wf(ItemView::KeyValue { key, value }),
        value.len() > 0,
    ensures
        ({
            let t = trim(spaces(ind) + key + assign_sep() + value);
            &&& !is_close_line(t)
            &&& !is_open_line(t)
            &&& line_item(t) == ItemView::KeyValue { key, value }
        }),
{
    let line = spaces(ind) + key + assign_sep() + value;
    lemma_trim_fixed_iff(key);
    lemma_trim_fixed_iff(value);
    let t = if key.len() > 0 {
        key + assign_sep() + value
    } else {
        seq!['=', ' '] + value
    };
    // The trimmed line.
    if key.len() > 0 {
        assert(line =~= spaces(ind) + (key + assign_sep() + value));
        lemma_trim_indented(ind, key + assign_sep() + value);
        assert(t[0] == key[0]);
        assert(t.last() == value.last());
        lemma_trim_fixed(t);
    } else {
        let w = spaces(ind) + seq![' '];
        lemma_spaces_ws(ind);
        assert(forall|j: int| 0 <= j < w.len() ==> is_ws(#[trigger] w[j]));
        assert(line =~= w + t);
        lemma_trim_ws_prefix(w, t);
        assert(t.last() == value.last());
        lemma_trim_fixed(t);
    }
    assert(trim(line) == t);
    let eq = key.len() as int + if key.len() > 0 {
        1int
    } else {
        0int
    };
    assert(t[eq] == '=');
    assert forall|j: int| 0 <= j < eq implies t[j] != '=' by {
        if j < key.len() {
            assert(t[j] == key[j]);
            if key[j] == '=' {
                assert(has_char(key, '='));
            }
        }
    }
    lemma_find_char_at(t, '=', eq);
    assert(has_char(t, '='));
    if key.len() > 0 {
        assert(t.take(eq) =~= key + seq![' ']);
        lemma_trim_key_space(key);
        assert(t.skip(eq + 1) =~= seq![' '] + value);
    } else {
        assert(t.take(eq) =~= Seq::<char>::empty());
        assert(trim_start(Seq::<char>::empty()) =~= Seq::<char>::empty());
        assert(t.skip(eq + 1) =~= seq![' '] + value);
    }
    lemma_trim_space_value(value);
    assert(t.len() >= 3);
    assert(t != seq!['}']);
    assert(t[0] != '#');
    assert(trim(t.take(eq)) == key);
    assert(trim(t.skip(eq + 1)) == value);
    assert(key != source_kw());
}

/// The line of a `source = path` directive.
proof fn lemma_source_line(ind: nat, path: Seq<char>)
    requires
        item_wf(ItemView::Source(path)),
    ensures
        ({
            let t = trim(spaces(ind) + source_kw() + assign_sep() + path);
            &&& !is_close_line(t)
            &&& !is_open_line(t)
            &&& line_item(t) == ItemView::Source(path)
        }),
{
    let line = spaces(ind) + source_kw() + assign_sep() + path;
    lemma_trim_fixed_iff(path);
    let x = source_kw() + assign_sep() + path;
    assert(line =~= spaces(ind) + x);
    lemma_trim_indented(ind, x);
    let t = if path.len() > 0 {
        x
    } else {
        source_kw() + seq![' ', '=']
    };
    if path.len() > 0 {
        assert(x[0] == 's');
        assert(x.last() == path.last());
        lemma_trim_fixed(x);
    } else {
        assert(x =~= t + seq![' ']);
        assert(forall|j: int| 0 <= j < seq![' '].len() ==> is_ws(#[trigger] seq![' '][j]));
        assert(t[0] == 's');
        assert(t.last() == '=');
        assert(trim_start(t + seq![' ']) == t + seq![' ']);
        lemma_trim_end_ws_suffix(t, seq![' ']);
        lemma_trim_fixed(t);
    }
    assert(trim(line) == t);
    let eq = 7int;
    assert(t[eq] == '=');
    assert forall|j: int| 0 <= j < eq implies t[j] != '=' by {}
    lemma_find_char_at(t, '=', eq);
    assert(has_char(t, '='));
    assert(t.take(eq) =~= source_kw() + seq![' ']);
    lemma_trim_fixed_iff(source_kw());
    lemma_trim_key_space(source_kw());
    if path.len() > 0 {
        assert(t.skip(eq + 1) =~= seq![' '] + path);
        lemma_trim_space_value(path);
    } else {
        assert(t.skip(eq + 1) =~= Seq::<char>::empty());
        assert(trim_start(Seq::<char>::empty()) =~= Seq::<char>::empty());
        assert(path =~= Seq::<char>::empty());
    }
    assert(t != seq!['}']);
}

/// Reading a section's written lines adds the section to the current level.
proof fn lemma_parse_section(
    name: Seq<char>,
    items: Seq<ItemView>,
    ind: nat,
    rest: Seq<Seq<char>>,
    ln: nat,
    stack: Seq<Frame>,
    acc: Seq<ItemView>,
)
    requires
        item_wf(ItemView::Section { name, items }),
    ensures
        parse_lines(item_block(ItemView::Section { name, items }, ind) + rest, ln, stack, acc)
            == parse_lines(
            rest,
            ln + item_block(ItemView::Section { name, items }, ind).len(),
            stack,
            acc.push(ItemView::Section { name, items }),
        ),
    decreases items, 2nat,
{
    let it = ItemView::Section { name, items };
    let block = item_block(it, ind);
    let all = block + rest;
        let sub = item_lines(items, ind + 4);
        let open = spaces(ind) + name + open_brace_suffix();
        let close = spaces(ind) + seq!['}'];
        assert(block == seq![open] + sub + seq![close]);
        // The opening line.
        lemma_trim_fixed_iff(name);
        let t = if name.len() > 0 {
            name + open_brace_suffix()
        } else {
            seq!['{']
        };
        if name.len() > 0 {
            assert(open =~= spaces(ind) + (name + open_brace_suffix()));
            lemma_trim_indented(ind, name + open_brace_suffix());
            assert(t[0] == name[0]);
            lemma_trim_fixed(t);
            assert(t.drop_last() =~= name + seq![' ']);
            lemma_trim_key_space(name);
        } else {
            let w = spaces(ind) + seq![' '];
            lemma_spaces_ws(ind);
            assert(forall|j: int| 0 <= j < w.len() ==> is_ws(#[trigger] w[j]));
            assert(open =~= w + t);
            lemma_trim_ws_prefix(w, t);
            lemma_trim_fixed(t);
            assert(t.drop_last() =~= Seq::<char>::empty());
            assert(trim_start(Seq::<char>::empty()) =~= Seq::<char>::empty());
            assert(name =~= Seq::<char>::empty());
        }
        assert(trim(open) == t);
        assert(t != seq!['}']) by {
            if name.len() > 0 {
                assert(t.len() >= 3);
            }
        }
        assert(is_open_line(t));
        assert(!is_close_line(t));
        assert(trim(t.drop_last()) == name);
        assert(all[0] == open);
        let after_open = sub + (seq![close] + rest);
        assert(all.drop_first() =~= after_open);
        let frame = Frame { parent: acc, name, line: ln + 1 };
        assert(parse_lines(all, ln, stack, acc) == parse_lines(
            after_open,
            ln + 1,
            stack.push(frame),
            seq![],
        ));
        lemma_parse_lines_items(items, ind + 4, seq![close] + rest, ln + 1, stack.push(frame), seq![]);
        assert(Seq::<ItemView>::empty() + items =~= items);
        // The closing line.
        let cl = seq![close] + rest;
        let tc = seq!['}'];
        lemma_trim_indented(ind, tc);
        lemma_trim_fixed(tc);
        assert(trim(close) == tc);
        assert(is_close_line(tc));
        assert(cl[0] == close);
        assert(cl.drop_first() =~= rest);
        assert(stack.push(frame).drop_last() =~= stack);
        assert(stack.push(frame).last() == frame);
        assert(parse_lines(cl, ln + 1 + sub.len(), stack.push(frame), items) == parse_lines(
            rest,
            ln + 1 + sub.len() + 1,
            stack,
            acc.push(ItemView::Section { name, items }),
        ));
        assert(block.len() == sub.len() + 2);
        assert(parse_lines(after_open, ln + 1, stack.push(frame), seq![]) == parse_lines(
            cl,
            ln + 1 + sub.len(),
            stack.push(frame),
            items,
        ));
        assert(parse_lines(all, ln, stack, acc) == parse_lines(
            rest,
            ln + block.len(),
            stack,
            acc.push(it),
        ));
        assert(item_block(it, ind) + rest == all);
        assert(parse_lines(item_block(it, ind) + rest, ln, stack, acc) == parse_lines(
            rest,
            ln + item_block(it, ind).len(),
            stack,
            acc.push(it),
        ));
    
}

/// Reading one item's written lines adds that item to the current level.
proof fn lemma_parse_block(
    it: ItemView,
    ind: nat,
    rest: Seq<Seq<char>>,
    ln: nat,
    stack: Seq<Frame>,
    acc: Seq<ItemView>,
)
    requires
        item_wf(it),
    ensures
        parse_lines(item_block(it, ind) + rest, ln, stack, acc) == parse_lines(
            rest,
            ln + item_block(it, ind).len(),
            stack,
            acc.push(it),
        ),
    decreases it, 0nat,
{
    let block = item_block(it, ind);
    let all = block + rest;
    match it {
        ItemView::Section { name, items } => {
            assert(it == ItemView::Section { name, items });
            lemma_parse_section(name, items, ind, rest, ln, stack, acc);
            assert(parse_lines(item_block(it, ind) + rest, ln, stack, acc) == parse_lines(
                rest,
                ln + item_block(it, ind).len(),
                stack,
                acc.push(it),
            ));
        },
        _ => {
            assert(block.len() == 1);
            let l = block[0];
            assert(all[0] == l);
            assert(all.drop_first() =~= rest);
            match it {
                ItemView::Blank => {
                    assert(l =~= Seq::<char>::empty());
                    assert(trim_start(l) =~= Seq::<char>::empty());
                    assert(parse_lines(all, ln, stack, acc) == parse_lines(rest, ln + 1, stack, acc.push(it)));
                },
                ItemView::Comment(c) => {
                    lemma_trim_indented(ind, c);
                    assert(parse_lines(all, ln, stack, acc) == parse_lines(rest, ln + 1, stack, acc.push(it)));
                },
                ItemView::KeyValue { key, value } => {
                    if value.len() == 0 {
                        lemma_trim_indented(ind, key);
                        assert(trim(l) == key);
                        assert(value =~= Seq::<char>::empty());
                        assert(line_item(key) == it);
                        assert(parse_lines(all, ln, stack, acc) == parse_lines(rest, ln + 1, stack, acc.push(it)));
                    } else {
                        lemma_kv_line(ind, key, value);
                        assert(parse_lines(all, ln, stack, acc) == parse_lines(rest, ln + 1, stack, acc.push(it)));
                    }
                },
                ItemView::Source(p) => {
                    lemma_source_line(ind, p);
                    assert(parse_lines(all, ln, stack, acc) == parse_lines(rest, ln + 1, stack, acc.push(it)));
                },
                _ => {},
            }
            assert(parse_lines(item_block(it, ind) + rest, ln, stack, acc) == parse_lines(
                rest,
                ln + item_block(it, ind).len(),
                stack,
                acc.push(it),
            ));
        },
    }
}

/// Reading the written lines of a list of items adds those items to the
/// current level.
proof fn lemma_parse_lines_items(
    items: Seq<ItemView>,
    ind: nat,
    rest: Seq<Seq<char>>,
    ln: nat,
    stack: Seq<Frame>,
    acc: Seq<ItemView>,
)
    requires
        items_wf(items),
    ensures
        parse_lines(item_lines(items, ind) + rest, ln, stack, acc) == parse_lines(
            rest,
            ln + item_lines(items, ind).len(),
            stack,
            acc + items,
        ),
    decreases items, 1nat,
{
    if items.len() == 0 {
        assert(item_lines(items, ind) + rest =~= rest);
        assert(acc + items =~= acc);
    } else {
        let first = item_block(items[0], ind);
        let tail = item_lines(items.drop_first(), ind);
        assert(item_lines(items, ind) + rest =~= first + (tail + rest));
        assert(item_wf(items[0]));
        lemma_parse_block(items[0], ind, tail + rest, ln, stack, acc);
        assert forall|i: int| 0 <= i < items.drop_first().len() implies item_wf(
            #[trigger] items.drop_first()[i],
        ) by {
            assert(items.drop_first()[i] == items[i + 1]);
        }
        lemma_parse_lines_items(
            items.drop_first(),
            ind,
            rest,
            ln + first.len(),
            stack,
            acc.push(items[0]),
        );
        assert(acc.push(items[0]) + items.drop_first() =~= acc + items);
    }
}

/// Written lines contain no newline characters.
proof fn lemma_block_no_newline(it: ItemView, ind: nat)
    requires
        item_wf(it),
    ensures
        forall|i: int|
            0 <= i < item_block(it, ind).len() ==> no_newline(#[trigger] item_block(it, ind)[i]),
    decreases it,
{
    lemma_spaces_no_newline(ind);
    let sp = spaces(ind);
    match it {
        ItemView::Section { name, items } => {
            lemma_lines_no_newline(items, ind + 4);
            let open = sp + name + open_brace_suffix();
            let close = sp + seq!['}'];
            lemma_has_char_concat(sp, name, '\n');
            lemma_has_char_concat(sp + name, open_brace_suffix(), '\n');
            lemma_has_char_concat(sp, seq!['}'], '\n');
            assert(!has_char(open_brace_suffix(), '\n'));
            assert(!has_char(seq!['}'], '\n'));
            let sub = item_lines(items, ind + 4);
            let b = item_block(it, ind);
            assert(b == seq![open] + sub + seq![close]);
            assert forall|i: int| 0 <= i < b.len() implies no_newline(#[trigger] b[i]) by {
                if i == 0 {
                } else if i <= sub.len() {
                    assert(b[i] == sub[i - 1]);
                } else {
                    assert(b[i] == close);
                }
            }
        },
        ItemView::Blank => {
            assert(!has_char(Seq::<char>::empty(), '\n'));
        },
        ItemView::Comment(c) => {
            lemma_has_char_concat(sp, c, '\n');
        },
        ItemView::KeyValue { key, value } => {
            lemma_has_char_concat(sp, key, '\n');
            lemma_has_char_concat(sp + key, assign_sep(), '\n');
            lemma_has_char_concat(sp + key + assign_sep(), value, '\n');
            assert(!has_char(assign_sep(), '\n'));
        },
        ItemView::Source(p) => {
            lemma_has_char_concat(sp, source_kw(), '\n');
            lemma_has_char_concat(sp + source_kw(), assign_sep(), '\n');
            lemma_has_char_concat(sp + source_kw() + assign_sep(), p, '\n');
            assert(!has_char(assign_sep(), '\n'));
            assert(!has_char(source_kw(), '\n'));
        },
    }
}

proof fn lemma_lines_no_newline(items: Seq<ItemView>, ind: nat)
    requires
        items_wf(items),
    ensures
        forall|i: int|
            0 <= i < item_lines(items, ind).len() ==> no_newline(#[trigger] item_lines(items, ind)[i]),
    decreases items,
{
    if items.len() > 0 {
        assert(item_wf(items[0]));
        lemma_block_no_newline(items[0], ind);
        assert forall|i: int| 0 <= i < items.drop_first().len() implies item_wf(
            #[trigger] items.drop_first()[i],
        ) by {
            assert(items.drop_first()[i] == items[i + 1]);
        }
        lemma_lines_no_newline(items.drop_first(), ind);
        let a = item_block(items[0], ind);
        let b = item_lines(items.drop_first(), ind);
        assert(item_lines(items, ind) == a + b);
        assert forall|i: int| 0 <= i < (a + b).len() implies no_newline(#[trigger] (a + b)[i]) by {
            if i >= a.len() {
                assert((a + b)[i] == b[i - a.len()]);
            }
        }
    }
}

/// Writing well-formed items and parsing the text gives the same items back:
/// the parser and the writer of hyprland.conf are lossless for every config
/// whose entries the writer can put on lines of their own kind.
pub proof fn law_parse_render_roundtrip(items: Seq<ItemView>)
    requires
        items_wf(items),
    ensures
        spec_parse(render(items)) == ParseOutcome::Parsed(items),
{
    let ls = item_lines(items, 0);
    lemma_lines_no_newline(items, 0);
    lemma_lines_join(ls);
    assert(lines(render(items)) == ls);
    assert(ls + Seq::<Seq<char>>::empty() =~= ls);
    lemma_parse_lines_items(items, 0, Seq::<Seq<char>>::empty(), 0, seq![], seq![]);
    assert(Seq::<ItemView>::empty() + items =~= items);
}


// ---------------------------------------------------------------------------
// Queries after mutations
// ---------------------------------------------------------------------------

/// After `set(key, value)`, `get(key)` returns `value`.
pub proof fn law_get_after_set(items: Seq<ItemView>, key: Seq<char>, value: Seq<char>)
    ensures
        lookup(spec_set(items, key, value), key) == Some(value),
{
    let i = first_kv(items, key);
    lemma_first_kv(items, key);
    let r = spec_set(items, key, value);
    if i < items.len() {
        assert forall|j: int| 0 <= j < i implies !is_kv_with(#[trigger] r[j], key) by {
            assert(r[j] == items[j]);
        }
        lemma_first_kv_at(r, key, i);
    } else {
        assert forall|j: int| 0 <= j < items.len() implies !is_kv_with(#[trigger] r[j], key) by {
            assert(r[j] == items[j]);
        }
        lemma_first_kv_at(r, key, items.len() as int);
    }
}

/// `set(key, value)` leaves every other key's value as it was.
pub proof fn law_set_keeps_other_keys(
    items: Seq<ItemView>,
    key: Seq<char>,
    value: Seq<char>,
    other: Seq<char>,
)
    requires
        other != key,
    ensures
        lookup(spec_set(items, key, value), other) == lookup(items, other),
{
    let i = first_kv(items, key);
    let f = first_kv(items, other);
    lemma_first_kv(items, key);
    lemma_first_kv(items, other);
    let r = spec_set(items, key, value);
    assert(!is_kv_with(kv(key, value), other));
    if i < items.len() {
        assert(f != i);
        assert forall|j: int| 0 <= j < f implies !is_kv_with(#[trigger] r[j], other) by {
            if j != i {
                assert(r[j] == items[j]);
            }
        }
        if f < items.len() {
            assert(r[f] == items[f]);
        }
        lemma_first_kv_at(r, other, f);
    } else {
        assert forall|j: int| 0 <= j < f implies !is_kv_with(#[trigger] r[j], other) by {
            assert(r[j] == items[j]);
        }
        if f < items.len() {
            assert(r[f] == items[f]);
            lemma_first_kv_at(r, other, f);
        } else {
            assert forall|j: int| 0 <= j < r.len() - 1 implies !is_kv_with(#[trigger] r[j], other) by {
                assert(r[j] == items[j]);
            }
            lemma_first_kv_at(r, other, r.len() as int);
        }
    }
}

/// `lookup_in_section` answers from the first section with the name that
/// has the key, skipping the items before it.
proof fn lemma_lookup_in_section_at(items: Seq<ItemView>, section: Seq<char>, key: Seq<char>, i: int)
    requires
        0 <= i < items.len(),
        forall|j: int| 0 <= j < i ==> !is_section_named(#[trigger] items[j], section),
        is_section_named(items[i], section),
        lookup(section_items(items[i]), key) is Some,
    ensures
        lookup_in_section(items, section, key) == lookup(section_items(items[i]), key),
    decreases i,
{
    if i > 0 {
        assert(!is_section_named(items[0], section));
        assert forall|j: int| 0 <= j < i - 1 implies !is_section_named(
            #[trigger] items.drop_first()[j],
            section,
        ) by {
            assert(items.drop_first()[j] == items[j + 1]);
        }
        assert(items.drop_first()[i - 1] == items[i]);
        lemma_lookup_in_section_at(items.drop_first(), section, key, i - 1);
    }
}

/// After `set_in_section(section, key, value)`,
/// `get_in_section(section, key)` returns `value`.
pub proof fn law_get_in_section_after_set(
    items: Seq<ItemView>,
    section: Seq<char>,
    key: Seq<char>,
    value: Seq<char>,
)
    ensures
        lookup_in_section(spec_set_in_section(items, section, key, value), section, key) == Some(
            value,
        ),
{
    let i = first_section(items, section);
    lemma_first_section(items, section);
    let r = spec_set_in_section(items, section, key, value);
    if i < items.len() {
        law_get_after_set(section_items(items[i]), key, value);
        assert forall|j: int| 0 <= j < i implies !is_section_named(#[trigger] r[j], section) by {
            assert(r[j] == items[j]);
        }
        lemma_lookup_in_section_at(r, section, key, i);
    } else {
        let n = items.len() as int;
        let only = seq![kv(key, value)];
        lemma_first_kv_at(only, key, 0);
        assert(section_items(r[n]) == only);
        assert forall|j: int| 0 <= j < n implies !is_section_named(#[trigger] r[j], section) by {
            assert(r[j] == items[j]);
        }
        lemma_lookup_in_section_at(r, section, key, n);
    }
}

/// After `set_in_nested(path, key, value)`, `get_in_nested(path, key)`
/// returns `value`.
pub proof fn law_get_nested_after_set(
    items: Seq<ItemView>,
    path: Seq<Seq<char>>,
    key: Seq<char>,
    value: Seq<char>,
)
    ensures
        lookup_nested(spec_set_nested(items, path, key, value), path, key) == Some(value),
    decreases path.len(),
{
    if path.len() == 0 {
        law_get_after_set(items, key, value);
    } else {
        let i = first_section(items, path[0]);
        lemma_first_section(items, path[0]);
        let r = spec_set_nested(items, path, key, value);
        let rest = path.drop_first();
        if i < items.len() {
            let inner = spec_set_nested(section_items(items[i]), rest, key, value);
            assert forall|j: int| 0 <= j < i implies !is_section_named(#[trigger] r[j], path[0]) by {
                assert(r[j] == items[j]);
            }
            lemma_first_section_at(r, path[0], i);
            assert(section_items(r[i]) == inner);
            law_get_nested_after_set(section_items(items[i]), rest, key, value);
        } else {
            let n = items.len() as int;
            let inner = spec_set_nested(seq![], rest, key, value);
            assert forall|j: int| 0 <= j < n implies !is_section_named(#[trigger] r[j], path[0]) by {
                assert(r[j] == items[j]);
            }
            lemma_first_section_at(r, path[0], n);
            assert(section_items(r[n]) == inner);
            law_get_nested_after_set(seq![], rest, key, value);
        }
    }
}

/// `lookup_all` of a concatenation is the concatenation of the lookups.
pub proof fn lemma_lookup_all_append(a: Seq<ItemView>, b: Seq<ItemView>, key: Seq<char>)
    ensures
        lookup_all(a + b, key) == lookup_all(a, key) + lookup_all(b, key),
    decreases a.len(),
{
    if a.len() == 0 {
        assert(a + b =~= b);
        assert(lookup_all(a, key) + lookup_all(b, key) =~= lookup_all(b, key));
    } else {
        assert((a + b)[0] == a[0]);
        assert((a + b).drop_first() =~= a.drop_first() + b);
        lemma_lookup_all_append(a.drop_first(), b, key);
        let h = if is_kv_with(a[0], key) {
            seq![kv_value(a[0])]
        } else {
            Seq::<Seq<char>>::empty()
        };
        assert(h + (lookup_all(a.drop_first(), key) + lookup_all(b, key)) =~= (h + lookup_all(
            a.drop_first(),
            key,
        )) + lookup_all(b, key));
    }
}

proof fn lemma_lookup_all_single(it: ItemView, key: Seq<char>)
    ensures
        lookup_all(seq![it], key) == if is_kv_with(it, key) {
            seq![kv_value(it)]
        } else {
            Seq::<Seq<char>>::empty()
        },
{
    let e = Seq::<ItemView>::empty();
    assert(seq![it].drop_first() =~= e);
    assert(lookup_all(e, key) == Seq::<Seq<char>>::empty());
    assert(seq![it][0] == it);
    assert(lookup_all(seq![it], key) =~= (if is_kv_with(it, key) {
        seq![kv_value(it)]
    } else {
        Seq::<Seq<char>>::empty()
    }));
}

proof fn lemma_lookup_all_empty(key: Seq<char>)
    ensures
        lookup_all(Seq::<ItemView>::empty(), key) == Seq::<Seq<char>>::empty(),
{
}

/// `add(key, value)` appends `value` to the values of `key`.
pub proof fn law_add_appends(items: Seq<ItemView>, key: Seq<char>, value: Seq<char>)
    ensures
        lookup_all(items.push(kv(key, value)), key) == lookup_all(items, key).push(value),
{
    let one = seq![kv(key, value)];
    assert(items.push(kv(key, value)) =~= items + one);
    lemma_lookup_all_append(items, one, key);
    lemma_lookup_all_single(kv(key, value), key);
}

/// `remove_all(key, None)` leaves no value for `key`.
pub proof fn law_remove_all_clears_key(items: Seq<ItemView>, key: Seq<char>)
    ensures
        lookup_all(spec_remove_all(items, key, None), key) == Seq::<Seq<char>>::empty(),
    decreases items.len(),
{
    if items.len() > 0 {
        law_remove_all_clears_key(items.drop_first(), key);
        let h = if removed_by(items[0], key, None) {
            Seq::<ItemView>::empty()
        } else {
            seq![items[0]]
        };
        let t = spec_remove_all(items.drop_first(), key, None);
        lemma_lookup_all_append(h, t, key);
        lemma_lookup_all_single(items[0], key);
        lemma_lookup_all_empty(key);
        assert(lookup_all(h, key) =~= Seq::<Seq<char>>::empty());
        assert(lookup_all(h, key) + lookup_all(t, key) =~= lookup_all(t, key));
    }
}

/// After `remove_all(key, Some(prefix))` no value of `key` starts with
/// `prefix`.
pub proof fn law_remove_all_prefix(items: Seq<ItemView>, key: Seq<char>, prefix: Seq<char>)
    ensures
        forall|j: int|
            0 <= j < lookup_all(spec_remove_all(items, key, Some(prefix)), key).len() ==> {
                let v = #[trigger] lookup_all(spec_remove_all(items, key, Some(prefix)), key)[j];
                !(prefix.len() <= v.len() && v.take(prefix.len() as int) == prefix)
            },
    decreases items.len(),
{
    if items.len() > 0 {
        law_remove_all_prefix(items.drop_first(), key, prefix);
        let h = if removed_by(items[0], key, Some(prefix)) {
            Seq::<ItemView>::empty()
        } else {
            seq![items[0]]
        };
        let t = spec_remove_all(items.drop_first(), key, Some(prefix));
        lemma_lookup_all_append(h, t, key);
        lemma_lookup_all_single(items[0], key);
        lemma_lookup_all_empty(key);
        let all = lookup_all(h + t, key);
        let lh = lookup_all(h, key);
        assert forall|j: int| 0 <= j < all.len() implies {
            let v = #[trigger] all[j];
            !(prefix.len() <= v.len() && v.take(prefix.len() as int) == prefix)
        } by {
            if j >= lh.len() {
                assert(all[j] == lookup_all(t, key)[j - lh.len()]);
            } else {
                assert(!removed_by(items[0], key, Some(prefix)));
                assert(all[j] == kv_value(items[0]));
            }
        }
    }
}

/// `remove_all(key, ..)` leaves the values of every other key as they were.
pub proof fn law_remove_all_keeps_other_keys(
    items: Seq<ItemView>,
    key: Seq<char>,
    prefix: Option<Seq<char>>,
    other: Seq<char>,
)
    requires
        other != key,
    ensures
        lookup_all(spec_remove_all(items, key, prefix), other) == lookup_all(items, other),
    decreases items.len(),
{
    if items.len() > 0 {
        law_remove_all_keeps_other_keys(items.drop_first(), key, prefix, other);
        let h = if removed_by(items[0], key, prefix) {
            Seq::<ItemView>::empty()
        } else {
            seq![items[0]]
        };
        let t = spec_remove_all(items.drop_first(), key, prefix);
        lemma_lookup_all_append(h, t, other);
        lemma_lookup_all_single(items[0], other);
        lemma_lookup_all_empty(other);
        let hd = if is_kv_with(items[0], other) {
            seq![kv_value(items[0])]
        } else {
            Seq::<Seq<char>>::empty()
        };
        assert(lookup_all(h, other) == hd);
        assert(lookup_all(items, other) == hd + lookup_all(items.drop_first(), other));
    }
}

/// `remove(key)` drops exactly the first value of `key`.
pub proof fn law_remove_drops_first_value(items: Seq<ItemView>, key: Seq<char>)
    ensures
        lookup_all(spec_remove_first(items, key), key) == if lookup(items, key) is Some {
            lookup_all(items, key).drop_first()
        } else {
            lookup_all(items, key)
        },
{
    let i = first_kv(items, key);
    lemma_first_kv(items, key);
    if i < items.len() {
        let a = items.take(i);
        let b = items.skip(i + 1);
        let mid = seq![items[i]];
        assert(items =~= a + mid + b);
        assert(items.remove(i) =~= a + b);
        lemma_lookup_all_append(a, b, key);
        lemma_lookup_all_append(a + mid, b, key);
        lemma_lookup_all_append(a, mid, key);
        lemma_lookup_all_none(a, key);
        lemma_lookup_all_single(items[i], key);
        assert(lookup_all(items, key) =~= seq![kv_value(items[i])] + lookup_all(b, key));
        assert(lookup_all(items, key).drop_first() =~= lookup_all(b, key));
        assert(lookup_all(a + b, key) =~= lookup_all(b, key));
    }
}

/// Items without an entry for `key` contribute no values.
proof fn lemma_lookup_all_none(items: Seq<ItemView>, key: Seq<char>)
    requires
        forall|j: int| 0 <= j < items.len() ==> !is_kv_with(#[trigger] items[j], key),
    ensures
        lookup_all(items, key) == Seq::<Seq<char>>::empty(),
    decreases items.len(),
{
    if items.len() > 0 {
        assert(!is_kv_with(items[0], key));
        assert forall|j: int| 0 <= j < items.drop_first().len() implies !is_kv_with(
            #[trigger] items.drop_first()[j],
            key,
        ) by {
            assert(items.drop_first()[j] == items[j + 1]);
        }
        lemma_lookup_all_none(items.drop_first(), key);
        assert(lookup_all(items, key) =~= Seq::<Seq<char>>::empty());
    }
}


// ---------------------------------------------------------------------------
// Edits in one section leave the other sections alone
// ---------------------------------------------------------------------------

/// `lookup_in_section(.., other, ..)` reads the same in `a` and `b` when
/// they agree on every section called `other`: `b` may have more items, and
/// items may differ, as long as none of those is a section called `other`.
proof fn lemma_section_lookup_frame(a: Seq<ItemView>, b: Seq<ItemView>, other: Seq<char>, key: Seq<char>)
    requires
        a.len() <= b.len(),
        forall|j: int|
            0 <= j < a.len() ==> a[j] == b[j] || (!is_section_named(a[j], other)
                && !is_section_named(#[trigger] b[j], other)),
        forall|j: int| a.len() <= j < b.len() ==> !is_section_named(#[trigger] b[j], other),
    ensures
        lookup_in_section(a, other, key) == lookup_in_section(b, other, key),
    decreases b.len(),
{
    if b.len() > 0 {
        assert(!is_section_named(b[0], other) || (a.len() > 0 && a[0] == b[0]));
        let a2 = if a.len() > 0 { a.drop_first() } else { a };
        assert forall|j: int| 0 <= j < a2.len() implies a2[j] == b.drop_first()[j] || (
        !is_section_named(a2[j], other) && !is_section_named(#[trigger] b.drop_first()[j], other)) by {
            assert(a2[j] == a[j + 1]);
            assert(b.drop_first()[j] == b[j + 1]);
        }
        assert forall|j: int| a2.len() <= j < b.drop_first().len() implies !is_section_named(
            #[trigger] b.drop_first()[j],
            other,
        ) by {
            assert(b.drop_first()[j] == b[j + 1]);
        }
        lemma_section_lookup_frame(a2, b.drop_first(), other, key);
    }
}

/// `set_in_section(section, ..)` leaves what every other section holds as
/// it was.
pub proof fn law_set_in_section_keeps_other_sections(
    items: Seq<ItemView>,
    section: Seq<char>,
    key: Seq<char>,
    value: Seq<char>,
    other: Seq<char>,
    other_key: Seq<char>,
)
    requires
        other != section,
    ensures
        lookup_in_section(spec_set_in_section(items, section, key, value), other, other_key)
            == lookup_in_section(items, other, other_key),
{
    let i = first_section(items, section);
    lemma_first_section(items, section);
    let r = spec_set_in_section(items, section, key, value);
    assert forall|j: int| 0 <= j < items.len() implies items[j] == r[j] || (!is_section_named(
        items[j],
        other,
    ) && !is_section_named(#[trigger] r[j], other)) by {
        if j == i {
            assert(is_section_named(items[j], section));
        }
    }
    lemma_section_lookup_frame(items, r, other, other_key);
}

/// `set_in_nested(path, ..)` leaves what every top-level section not named
/// `path[0]` holds as it was.
pub proof fn law_set_nested_keeps_other_sections(
    items: Seq<ItemView>,
    path: Seq<Seq<char>>,
    key: Seq<char>,
    value: Seq<char>,
    other: Seq<char>,
    other_key: Seq<char>,
)
    requires
        path.len() > 0,
        other != path[0],
    ensures
        lookup_in_section(spec_set_nested(items, path, key, value), other, other_key)
            == lookup_in_section(items, other, other_key),
{
    let i = first_section(items, path[0]);
    lemma_first_section(items, path[0]);
    let r = spec_set_nested(items, path, key, value);
    assert forall|j: int| 0 <= j < items.len() implies items[j] == r[j] || (!is_section_named(
        items[j],
        other,
    ) && !is_section_named(#[trigger] r[j], other)) by {
        if j == i {
            assert(is_section_named(items[j], path[0]));
        }
    }
    lemma_section_lookup_frame(items, r, other, other_key);
}


// ---------------------------------------------------------------------------
// Parse errors are brace balance
// ---------------------------------------------------------------------------

/// A brace mismatch, by 1-based line number.
pub enum BraceError {
    /// A closing line with no section open.
    UnexpectedClose(nat),
    /// The opening line of the innermost section still open at the end.
    Unclosed(nat),
}

/// A trimmed line that opens a section: it ends in `{` and is no comment.
pub open spec fn opens_section(t: Seq<char>) -> bool {
    t.len() > 0 && t[0] != '#' && t.last() == '{'
}

/// A trimmed line that closes a section: exactly `}`.
pub open spec fn closes_section(t: Seq<char>) -> bool {
    t == seq!['}']
}

/// The first brace mismatch in the lines `ls`, after `ln` lines were read
/// with the sections opened on the lines `open` still open.
pub open spec fn brace_scan(ls: Seq<Seq<char>>, ln: nat, open: Seq<nat>) -> Option<BraceError>
    decreases ls.len(),
{
    if ls.len() == 0 {
        if open.len() > 0 {
            Some(BraceError::Unclosed(open.last()))
        } else {
            None
        }
    } else {
        let t = trim(ls[0]);
        let num = ln + 1;
        if closes_section(t) {
            if open.len() == 0 {
                Some(BraceError::UnexpectedClose(num))
            } else {
                brace_scan(ls.drop_first(), num, open.drop_last())
            }
        } else if opens_section(t) {
            brace_scan(ls.drop_first(), num, open.push(num))
        } else {
            brace_scan(ls.drop_first(), num, open)
        }
    }
}

proof fn lemma_parse_lines_braces(
    ls: Seq<Seq<char>>,
    ln: nat,
    stack: Seq<Frame>,
    items: Seq<ItemView>,
    open: Seq<nat>,
)
    requires
        open.len() == stack.len(),
        forall|k: int| 0 <= k < open.len() ==> open[k] == #[trigger] stack[k].line,
    ensures
        match brace_scan(ls, ln, open) {
            None => parse_lines(ls, ln, stack, items) is Parsed,
            Some(BraceError::UnexpectedClose(n)) => parse_lines(ls, ln, stack, items)
                == ParseOutcome::UnexpectedCloseBrace(n),
            Some(BraceError::Unclosed(m)) => parse_lines(ls, ln, stack, items)
                == ParseOutcome::UnclosedSection(m),
        },
    decreases ls.len(),
{
    if ls.len() == 0 {
        if open.len() > 0 {
            assert(open.last() == stack.last().line);
        }
    } else {
        let t = trim(ls[0]);
        let num = ln + 1;
        assert(is_close_line(t) == closes_section(t));
        assert(is_open_line(t) == (opens_section(t) && !closes_section(t)));
        if closes_section(t) {
            if open.len() > 0 {
                let f = stack.last();
                lemma_parse_lines_braces(
                    ls.drop_first(),
                    num,
                    stack.drop_last(),
                    f.parent.push(ItemView::Section { name: f.name, items }),
                    open.drop_last(),
                );
            }
        } else if opens_section(t) {
            let st2 = stack.push(Frame { parent: items, name: trim(t.drop_last()), line: num });
            assert forall|k: int| 0 <= k < open.push(num).len() implies open.push(num)[k]
                == #[trigger] st2[k].line by {
                if k < open.len() {
                    assert(st2[k] == stack[k]);
                }
            }
            lemma_parse_lines_braces(ls.drop_first(), num, st2, seq![], open.push(num));
        } else {
            lemma_parse_lines_braces(ls.drop_first(), num, stack, items.push(line_item(t)), open);
        }
    }
}

/// Parsing fails exactly when the braces do not balance.  Numbering the
/// lines from 1 and trimming each: when some `}` line has no section open,
/// the error names the first such line; otherwise, when sections are left
/// open at the end, it names the opening line of the innermost one; and
/// otherwise parsing succeeds.
pub proof fn law_parse_errors_are_brace_balance(input: Seq<char>)
    ensures
        match brace_scan(lines(input), 0, seq![]) {
            None => spec_parse(input) is Parsed,
            Some(BraceError::UnexpectedClose(n)) => spec_parse(input)
                == ParseOutcome::UnexpectedCloseBrace(n),
            Some(BraceError::Unclosed(m)) => spec_parse(input) == ParseOutcome::UnclosedSection(m),
        },
{
    lemma_parse_lines_braces(lines(input), 0, seq![], seq![], seq![]);
}

} // verus!
