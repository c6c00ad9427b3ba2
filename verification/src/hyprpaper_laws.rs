//! What reading the managed Hyprpaper file gives back of what was written.
use vstd::prelude::*;

use crate::hyprpaper::{
    block_lines, blocks_lines, bool_text, header_lines, managed_header, managed_text, opens_block,
    read_lines, read_step, spec_assignments, written, AssignmentView, has_source_line,
    managed_comment, source_line, spec_with_source_line,
};
use crate::text::{
    find_char, has_char, is_ws, join_lines, lemma_find_char_at, lemma_has_char_concat,
    lemma_lines_join, lemma_lines_concat, lemma_trim_end_ws_suffix, lemma_trim_fixed, lemma_trim_fixed_iff,
    lemma_trim_start_ws_prefix, lines, split_once_spec, trim, trim_end, trim_start,
};

verus! {

broadcast use vstd::seq::group_seq_axioms;

/// An assignment that survives the file format: a non-empty monitor name,
/// and name, path and fit mode free of surrounding whitespace and of
/// newlines.
pub open spec fn writable(a: AssignmentView) -> bool {
    &&& a.0.len() > 0
    &&& a.0 == trim(a.0)
    &&& a.1 == trim(a.1)
    &&& a.2 == trim(a.2)
    &&& !has_char(a.0, '\n')
    &&& !has_char(a.1, '\n')
    &&& !has_char(a.2, '\n')
}

proof fn lemma_read_push(ls: Seq<Seq<char>>, l: Seq<char>)
    ensures
        read_lines(ls.push(l)) == read_step(read_lines(ls), trim(l)),
{
    assert(ls.push(l).drop_last() =~= ls);
    assert(ls.push(l).last() == l);
}

/// A `key = value` line, indented by whitespace, trims to a line whose
/// first `=` separates exactly `key` and `value`.
proof fn lemma_kv_line(indent: Seq<char>, key: Seq<char>, value: Seq<char>)
    requires
        forall|j: int| 0 <= j < indent.len() ==> is_ws(#[trigger] indent[j]),
        key.len() > 0,
        !is_ws(key[0]),
        !is_ws(key.last()),
        !has_char(key, '='),
        value == trim(value),
    ensures
        ({
            let t = trim(indent + key + " = "@ + value);
            &&& t.len() > 0
            &&& t[0] == key[0]
            &&& split_once_spec(t, '=') matches Some((k, v)) && trim(k) == key && trim(v) == value
        }),
{
    reveal_strlit(" = ");
    let u = key + " = "@ + value;
    assert(indent + key + " = "@ + value =~= indent + u);
    lemma_trim_start_ws_prefix(indent, u);
    assert(trim_start(u) == u);
    let kl = key.len() as int;
    let t = trim(indent + key + " = "@ + value);
    lemma_trim_fixed_iff(value);
    if value.len() > 0 {
        assert(u.last() == value.last());
        assert(trim_end(u) == u);
        assert(t == u);
    } else {
        let w = key + seq![' ', '='];
        assert(u =~= w + seq![' ']);
        assert forall|j: int| 0 <= j < seq![' '].len() implies is_ws(#[trigger] seq![' '][j]) by {}
        lemma_trim_end_ws_suffix(w, seq![' ']);
        assert(w.last() == '=');
        assert(trim_end(w) == w);
        assert(t == w);
    }
    assert forall|j: int| 0 <= j < kl + 1 implies t[j] != '=' by {
        if j < kl {
            assert(t[j] == key[j]);
            if key[j] == '=' {
                assert(has_char(key, '='));
            }
        }
    }
    assert(t[kl + 1] == '=');
    lemma_find_char_at(t, '=', kl + 1);
    let k = t.take(kl + 1);
    let v = t.skip(kl + 2);
    assert(k =~= key + seq![' ']);
    assert forall|j: int| 0 <= j < seq![' '].len() implies is_ws(#[trigger] seq![' '][j]) by {}
    lemma_trim_end_ws_suffix(key, seq![' ']);
    assert(trim_start(k) == k);
    assert(trim_end(key) == key);
    assert(trim(k) == key);
    if value.len() > 0 {
        assert(v =~= seq![' '] + value);
        lemma_trim_start_ws_prefix(seq![' '], value);
        assert(trim(v) == trim(value));
    } else {
        assert(v =~= Seq::<char>::empty());
    }
}

/// A non-empty line whose first character is neither `w` nor `}` neither
/// opens nor closes a block.
proof fn lemma_plain_line(t: Seq<char>)
    requires
        t.len() > 0,
        t[0] != 'w',
        t[0] != '}',
    ensures
        !opens_block(t),
        t != "}"@,
{
    reveal_strlit("wallpaper");
    reveal_strlit("}");
    if t.len() >= 9 {
        assert(t.take(9)[0] != "wallpaper"@[0]);
    }
    assert(t[0] != "}"@[0]);
}

proof fn lemma_empty_line(st: crate::hyprpaper::ReadState)
    requires
        !st.in_block,
    ensures
        read_step(st, trim(Seq::<char>::empty())) == st,
{
    reveal_strlit("wallpaper");
    let e = Seq::<char>::empty();
    assert(trim(e) =~= e);
    assert(find_char(e, '=') == 0);
}

/// Reading one block appends its assignment and leaves the reader outside
/// any block.
proof fn lemma_block(ls: Seq<Seq<char>>, a: AssignmentView)
    requires
        !read_lines(ls).in_block,
        writable(a),
        a.1.len() > 0,
    ensures
        !read_lines(ls + block_lines(a)).in_block,
        read_lines(ls + block_lines(a)).out == read_lines(ls).out.push(a),
{
    reveal_strlit("wallpaper {");
    reveal_strlit("wallpaper");
    reveal_strlit("    monitor = ");
    reveal_strlit("    path = ");
    reveal_strlit("    fit_mode = ");
    reveal_strlit("monitor");
    reveal_strlit("path");
    reveal_strlit("fit_mode");
    reveal_strlit("}");
    reveal_strlit(" = ");
    let b = block_lines(a);
    let l0 = ls.push(b[0]);
    let l1 = l0.push(b[1]);
    let l2 = l1.push(b[2]);
    let l3 = l2.push(b[3]);
    let l4 = l3.push(b[4]);
    let l5 = l4.push(b[5]);
    assert(ls + b =~= l5);
    let s0 = read_lines(ls);
    // the blank line
    lemma_read_push(ls, b[0]);
    lemma_empty_line(s0);
    // `wallpaper {`
    lemma_read_push(l0, b[1]);
    lemma_trim_fixed(b[1]);
    assert(b[1].take(9) =~= "wallpaper"@);
    assert(opens_block(trim(b[1])));
    let s2 = read_lines(l1);
    assert(s2.in_block);
    // the three key lines
    let sp = seq![' ', ' ', ' ', ' '];
    assert forall|j: int| 0 <= j < sp.len() implies is_ws(#[trigger] sp[j]) by {}
    assert(b[2] =~= sp + "monitor"@ + " = "@ + a.0);
    assert(b[3] =~= sp + "path"@ + " = "@ + a.1);
    assert(b[4] =~= sp + "fit_mode"@ + " = "@ + a.2);
    assert(!has_char("monitor"@, '=')) by {
        assert forall|j: int| 0 <= j < "monitor"@.len() implies "monitor"@[j] != '=' by {}
    }
    assert(!has_char("path"@, '=')) by {
        assert forall|j: int| 0 <= j < "path"@.len() implies "path"@[j] != '=' by {}
    }
    assert(!has_char("fit_mode"@, '=')) by {
        assert forall|j: int| 0 <= j < "fit_mode"@.len() implies "fit_mode"@[j] != '=' by {}
    }
    lemma_kv_line(sp, "monitor"@, a.0);
    lemma_kv_line(sp, "path"@, a.1);
    lemma_kv_line(sp, "fit_mode"@, a.2);
    lemma_plain_line(trim(b[2]));
    lemma_plain_line(trim(b[3]));
    lemma_plain_line(trim(b[4]));
    assert("path"@ != "monitor"@);
    assert("fit_mode"@ != "monitor"@);
    assert("fit_mode"@ != "path"@);
    lemma_read_push(l1, b[2]);
    lemma_read_push(l2, b[3]);
    lemma_read_push(l3, b[4]);
    let s5 = read_lines(l4);
    assert(s5.in_block);
    assert(s5.monitor == a.0);
    assert(s5.path == a.1);
    assert(s5.mode == a.2);
    assert(s5.out == s0.out);
    // `}`
    lemma_read_push(l4, b[5]);
    lemma_trim_fixed(b[5]);
    assert(!opens_block(b[5]));
}

proof fn lemma_header(ipc: bool, splash: bool)
    ensures
        !read_lines(header_lines(ipc, splash)).in_block,
        read_lines(header_lines(ipc, splash)).out == Seq::<AssignmentView>::empty(),
{
    reveal_strlit("# Managed by HyprCube. Edit through HyprCube or remove the source line.");
    reveal_strlit("ipc = ");
    reveal_strlit("splash = ");
    reveal_strlit("ipc");
    reveal_strlit("splash");
    reveal_strlit("wallpaper");
    reveal_strlit(" = ");
    reveal_strlit("true");
    reveal_strlit("false");
    let h = header_lines(ipc, splash);
    let e = Seq::<Seq<char>>::empty();
    assert(h =~= e.push(h[0]).push(h[1]).push(h[2]).push(h[3]));
    // the comment line
    let h0 = managed_header();
    assert(h0.len() == 71);
    lemma_trim_fixed(h0);
    assert forall|j: int| 0 <= j < h0.len() implies h0[j] != '=' by {}
    lemma_find_char_at(h0, '=', h0.len() as int);
    lemma_plain_line(h0);
    lemma_read_push(e, h[0]);
    assert(read_lines(e.push(h[0])) == read_lines(e));
    // the blank line
    lemma_read_push(e.push(h[0]), h[1]);
    lemma_empty_line(read_lines(e.push(h[0])));
    // `ipc = ..` and `splash = ..`
    let bi = bool_text(ipc);
    let bs = bool_text(splash);
    lemma_trim_fixed(bi);
    lemma_trim_fixed(bs);
    assert forall|j: int| 0 <= j < "ipc"@.len() implies "ipc"@[j] != '=' by {}
    assert forall|j: int| 0 <= j < "splash"@.len() implies "splash"@[j] != '=' by {}
    assert(h[2] =~= Seq::<char>::empty() + "ipc"@ + " = "@ + bi);
    assert(h[3] =~= Seq::<char>::empty() + "splash"@ + " = "@ + bs);
    lemma_kv_line(Seq::<char>::empty(), "ipc"@, bi);
    lemma_kv_line(Seq::<char>::empty(), "splash"@, bs);
    lemma_plain_line(trim(h[2]));
    lemma_plain_line(trim(h[3]));
    assert("ipc"@ != "wallpaper"@);
    assert("splash"@ != "wallpaper"@);
    lemma_read_push(e.push(h[0]).push(h[1]), h[2]);
    lemma_read_push(e.push(h[0]).push(h[1]).push(h[2]), h[3]);
}

proof fn lemma_written_props(ms: Seq<AssignmentView>)
    requires
        forall|i: int| 0 <= i < ms.len() && (#[trigger] ms[i]).1.len() > 0 ==> writable(ms[i]),
    ensures
        forall|i: int|
            0 <= i < written(ms).len() ==> writable(#[trigger] written(ms)[i]) && written(ms)[i].1.len()
                > 0,
    decreases ms.len(),
{
    if ms.len() > 0 {
        assert forall|i: int|
            0 <= i < ms.drop_last().len() && (#[trigger] ms.drop_last()[i]).1.len() > 0 implies writable(
            ms.drop_last()[i],
        ) by {
            assert(ms.drop_last()[i] == ms[i]);
        }
        lemma_written_props(ms.drop_last());
        let w = written(ms.drop_last());
        if ms.last().1.len() > 0 {
            assert(ms.last() == ms[ms.len() - 1]);
            assert forall|i: int| 0 <= i < written(ms).len() implies writable(
                #[trigger] written(ms)[i],
            ) && written(ms)[i].1.len() > 0 by {
                if i < w.len() {
                    assert(written(ms)[i] == w[i]);
                }
            }
        }
    }
}

proof fn lemma_blocks(h: Seq<Seq<char>>, ws: Seq<AssignmentView>)
    requires
        !read_lines(h).in_block,
        read_lines(h).out == Seq::<AssignmentView>::empty(),
        forall|i: int| 0 <= i < ws.len() ==> writable(#[trigger] ws[i]) && ws[i].1.len() > 0,
    ensures
        !read_lines(h + blocks_lines(ws)).in_block,
        read_lines(h + blocks_lines(ws)).out == ws,
    decreases ws.len(),
{
    if ws.len() == 0 {
        assert(h + blocks_lines(ws) =~= h);
    } else {
        let p = ws.drop_last();
        assert forall|i: int| 0 <= i < p.len() implies writable(#[trigger] p[i]) && p[i].1.len() > 0 by {
            assert(p[i] == ws[i]);
        }
        lemma_blocks(h, p);
        assert(h + blocks_lines(ws) =~= (h + blocks_lines(p)) + block_lines(ws.last()));
        lemma_block(h + blocks_lines(p), ws.last());
        assert(p.push(ws.last()) =~= ws);
    }
}

proof fn lemma_lit_no_newline(l: Seq<char>)
    requires
        forall|j: int| 0 <= j < l.len() ==> l[j] != '\n',
    ensures
        !has_char(l, '\n'),
{
}

proof fn lemma_block_no_newlines(a: AssignmentView)
    requires
        writable(a),
    ensures
        forall|i: int| 0 <= i < block_lines(a).len() ==> !has_char(#[trigger] block_lines(a)[i], '\n'),
{
    reveal_strlit("wallpaper {");
    reveal_strlit("    monitor = ");
    reveal_strlit("    path = ");
    reveal_strlit("    fit_mode = ");
    reveal_strlit("}");
    let b = block_lines(a);
    lemma_lit_no_newline(b[0]);
    lemma_lit_no_newline(b[1]);
    lemma_lit_no_newline(b[5]);
    lemma_lit_no_newline("    monitor = "@);
    lemma_lit_no_newline("    path = "@);
    lemma_lit_no_newline("    fit_mode = "@);
    lemma_has_char_concat("    monitor = "@, a.0, '\n');
    lemma_has_char_concat("    path = "@, a.1, '\n');
    lemma_has_char_concat("    fit_mode = "@, a.2, '\n');
}

proof fn lemma_blocks_no_newlines(ws: Seq<AssignmentView>)
    requires
        forall|i: int| 0 <= i < ws.len() ==> writable(#[trigger] ws[i]),
    ensures
        forall|i: int| 0 <= i < blocks_lines(ws).len() ==> !has_char(#[trigger] blocks_lines(ws)[i], '\n'),
    decreases ws.len(),
{
    if ws.len() > 0 {
        let p = ws.drop_last();
        assert forall|i: int| 0 <= i < p.len() implies writable(#[trigger] p[i]) by {
            assert(p[i] == ws[i]);
        }
        lemma_blocks_no_newlines(p);
        lemma_block_no_newlines(ws.last());
        let x = blocks_lines(p);
        let y = block_lines(ws.last());
        assert forall|i: int| 0 <= i < (x + y).len() implies !has_char(#[trigger] (x + y)[i], '\n') by {
            if i < x.len() {
                assert((x + y)[i] == x[i]);
            } else {
                assert((x + y)[i] == y[i - x.len()]);
            }
        }
    }
}

proof fn lemma_no_newlines(ipc: bool, splash: bool, ws: Seq<AssignmentView>)
    requires
        forall|i: int| 0 <= i < ws.len() ==> writable(#[trigger] ws[i]),
    ensures
        forall|i: int|
            0 <= i < (header_lines(ipc, splash) + blocks_lines(ws)).len() ==> !has_char(
                #[trigger] (header_lines(ipc, splash) + blocks_lines(ws))[i],
                '\n',
            ),
{
    reveal_strlit("# Managed by HyprCube. Edit through HyprCube or remove the source line.");
    reveal_strlit("ipc = ");
    reveal_strlit("splash = ");
    reveal_strlit("true");
    reveal_strlit("false");
    let h = header_lines(ipc, splash);
    lemma_lit_no_newline(h[0]);
    lemma_lit_no_newline(h[1]);
    lemma_lit_no_newline(h[2]);
    lemma_lit_no_newline(h[3]);
    lemma_blocks_no_newlines(ws);
    let x = blocks_lines(ws);
    assert forall|i: int| 0 <= i < (h + x).len() implies !has_char(#[trigger] (h + x)[i], '\n') by {
        if i < h.len() {
            assert((h + x)[i] == h[i]);
        } else {
            assert((h + x)[i] == x[i - h.len()]);
        }
    }
}

/// Reading back the managed Hyprpaper file gives exactly the assignments
/// that were written: those of the monitors with an image path, in order.
pub proof fn law_managed_roundtrip(ipc: bool, splash: bool, ms: Seq<AssignmentView>)
    requires
        forall|i: int| 0 <= i < ms.len() && (#[trigger] ms[i]).1.len() > 0 ==> writable(ms[i]),
    ensures
        spec_assignments(managed_text(ipc, splash, ms)) == written(ms),
{
    let ws = written(ms);
    lemma_written_props(ms);
    lemma_no_newlines(ipc, splash, ws);
    let all = header_lines(ipc, splash) + blocks_lines(ws);
    lemma_lines_join(all);
    lemma_header(ipc, splash);
    lemma_blocks(header_lines(ipc, splash), ws);
}

/// Adding the managed `source` line keeps the user's text as it was, in
/// front, and leaves a file that already has the line: a second call
/// changes nothing.
pub proof fn law_source_line_idempotent(root: Seq<char>)
    ensures
        match spec_with_source_line(root) {
            Some(r) => r.take(root.len() as int) == root && has_source_line(r)
                && spec_with_source_line(r) is None,
            None => has_source_line(root),
        },
{
    if let Some(r) = spec_with_source_line(root) {
        reveal_strlit("# HyprCube-managed dynamic wallpaper assignments");
        reveal_strlit("source = ~/.config/hypr/hyprpaper-hyprcube.conf");
        let sep = if root.len() > 0 && root.last() != '\n' {
            seq!['\n']
        } else {
            seq![]
        };
        let p = root + sep;
        let tail = seq![seq![], managed_comment(), source_line()];
        let jt = join_lines(tail);
        assert(r == p + jt);
        assert(r.take(root.len() as int) =~= root);
        if p.len() > 0 {
            assert(p.last() == '\n');
        }
        lemma_lines_concat(p, jt);
        lemma_lit_no_newline(managed_comment());
        lemma_lit_no_newline(source_line());
        assert forall|i: int| 0 <= i < tail.len() implies !has_char(#[trigger] tail[i], '\n') by {}
        lemma_lines_join(tail);
        let k = (lines(p).len() + 2) as int;
        assert(lines(r)[k] == source_line());
        lemma_trim_fixed(source_line());
        assert(trim(lines(r)[k]) == source_line());
    }
}

} // verus!
