//! Line-based removal of a worker's `config:` block from `config.yaml`.
//!
//! After a worker seeds its `config:` block into the configuration store the
//! block is removed (the `- name:` entry is kept) and replaced by a comment
//! that points at the configuration worker. The edit only ever deletes a
//! contiguous run of lines and inserts one comment line, so every other byte
//! of the file is preserved (comments, key order, `${VAR:default}`
//! placeholders).

use vstd::prelude::*;
use crate::text::{
    chars_of, count_leading, is_blank, is_ws, lemma_trim_start_char_skip, push_chars, push_str,
    skip_char, skip_char_back, skip_ws, skip_ws_back, starts_with, trim_char, trim_start_ws,
    trim_ws, char_is_ws,
};

verus! {

// ---------------------------------------------------------------------------
// Lines
// ---------------------------------------------------------------------------

/// `s.split('\n')`: the lines of `s`, without their separators. There is
/// always at least one line (the empty text has one empty line).
pub open spec fn split_lines(s: Seq<char>) -> Seq<Seq<char>>
    decreases s.len(),
{
    if s.len() == 0 {
        seq![Seq::<char>::empty()]
    } else {
        let r = split_lines(s.drop_last());
        if s.last() == '\n' {
            r.push(Seq::<char>::empty())
        } else {
            r.update(r.len() - 1, r.last().push(s.last()))
        }
    }
}

/// `lines.join("\n")`.
pub open spec fn join_lines(ls: Seq<Seq<char>>) -> Seq<char>
    decreases ls.len(),
{
    if ls.len() == 0 {
        Seq::<char>::empty()
    } else if ls.len() == 1 {
        ls[0]
    } else {
        join_lines(ls.drop_last()) + seq!['\n'] + ls.last()
    }
}

pub proof fn lemma_split_lines_len(s: Seq<char>)
    ensures
        split_lines(s).len() >= 1,
    decreases s.len(),
{
    if s.len() > 0 {
        lemma_split_lines_len(s.drop_last());
    }
}

proof fn lemma_join_update_last(ls: Seq<Seq<char>>, c: char)
    requires
        ls.len() >= 1,
    ensures
        join_lines(ls.update(ls.len() - 1, ls.last().push(c))) == join_lines(ls).push(c),
{
    let u = ls.update(ls.len() - 1, ls.last().push(c));
    if ls.len() == 1 {
        assert(u[0] == ls[0].push(c));
    } else {
        assert(u.drop_last() =~= ls.drop_last());
        assert(u.last() == ls.last().push(c));
        assert((join_lines(ls.drop_last()) + seq!['\n'] + ls.last()).push(c) =~= join_lines(
            ls.drop_last(),
        ) + seq!['\n'] + ls.last().push(c));
    }
}

/// Joining the lines of a text with `'\n'` gives the text back.
pub proof fn lemma_join_split(s: Seq<char>)
    ensures
        join_lines(split_lines(s)) == s,
    decreases s.len(),
{
    if s.len() > 0 {
        let r = split_lines(s.drop_last());
        lemma_join_split(s.drop_last());
        lemma_split_lines_len(s.drop_last());
        if s.last() == '\n' {
            let p = r.push(Seq::<char>::empty());
            assert(p.drop_last() =~= r);
            assert(join_lines(r) + seq!['\n'] + Seq::<char>::empty() =~= s);
        } else {
            lemma_join_update_last(r, s.last());
            assert(s.drop_last().push(s.last()) =~= s);
        }
    }
}

/// The views of a vector of lines.
pub open spec fn lines_view(v: Seq<Vec<char>>) -> Seq<Seq<char>> {
    v.map_values(|l: Vec<char>| l@)
}

fn split_lines_exec(v: &Vec<char>) -> (lines: Vec<Vec<char>>)
    ensures
        lines_view(lines@) == split_lines(v@),
{
    let mut lines: Vec<Vec<char>> = Vec::new();
    let mut cur: Vec<char> = Vec::new();
    let mut i: usize = 0;
    proof {
        assert(v@.take(0) =~= Seq::<char>::empty());
        assert(lines_view(lines@).push(cur@) =~= seq![Seq::<char>::empty()]);
    }
    while i < v.len()
        invariant
            i <= v@.len(),
            lines_view(lines@).push(cur@) == split_lines(v@.take(i as int)),
        decreases v@.len() - i,
    {
        let c = v[i];
        proof {
            assert(v@.take(i + 1).drop_last() =~= v@.take(i as int));
            assert(v@.take(i + 1).last() == c);
        }
        if c == '\n' {
            let ghost old_lines = lines@;
            let done = cur;
            cur = Vec::new();
            lines.push(done);
            proof {
                assert(lines_view(lines@) =~= lines_view(old_lines).push(done@));
                assert(lines_view(lines@).push(cur@) =~= lines_view(old_lines).push(done@).push(
                    Seq::<char>::empty(),
                ));
            }
        } else {
            let ghost old_cur = cur@;
            cur.push(c);
            proof {
                let r = lines_view(lines@).push(old_cur);
                assert(lines_view(lines@).push(cur@) =~= r.update(r.len() - 1, r.last().push(c)));
            }
        }
        i = i + 1;
    }
    let ghost before = lines@;
    lines.push(cur);
    proof {
        assert(v@.take(v@.len() as int) =~= v@);
        assert(lines_view(lines@) =~= lines_view(before).push(cur@));
    }
    lines
}

fn join_lines_exec(lines: &Vec<Vec<char>>) -> (s: String)
    ensures
        s@ == join_lines(lines_view(lines@)),
{
    let mut s = String::new();
    let mut k: usize = 0;
    let ghost lv = lines_view(lines@);
    proof {
        assert(lv.take(0) =~= Seq::<Seq<char>>::empty());
    }
    while k < lines.len()
        invariant
            k <= lines@.len(),
            lv == lines_view(lines@),
            s@ == join_lines(lv.take(k as int)),
        decreases lines@.len() - k,
    {
        let ghost before = s@;
        if k > 0 {
            s.push('\n');
        }
        let line = &lines[k];
        push_chars(&mut s, line.as_slice(), 0, line.len());
        proof {
            assert(line@.subrange(0, line@.len() as int) =~= line@);
            assert(lv[k as int] == line@);
            assert(lv.take(k + 1).drop_last() =~= lv.take(k as int));
            assert(lv.take(k + 1).last() == line@);
            if k == 0 {
                assert(s@ =~= lv.take(1)[0]);
            } else {
                assert(s@ =~= before + seq!['\n'] + line@);
            }
        }
        k = k + 1;
    }
    proof {
        assert(lv.take(lines@.len() as int) =~= lv);
    }
    s
}

// ---------------------------------------------------------------------------
// Recognising the worker entry and its config block
// ---------------------------------------------------------------------------

/// The number of leading ASCII spaces of a line (its indent).
pub open spec fn leading_space_count(line: Seq<char>) -> nat {
    count_leading(line, ' ')
}

/// The characters of `s` up to (not including) its first whitespace.
pub open spec fn take_until_ws(s: Seq<char>) -> Seq<char>
    decreases s.len(),
{
    if s.len() > 0 && !is_ws(s[0]) {
        seq![s[0]] + take_until_ws(s.drop_first())
    } else {
        Seq::<char>::empty()
    }
}

/// First whitespace-delimited token of `s` (empty when `s` is blank).
pub open spec fn first_token(s: Seq<char>) -> Seq<char> {
    take_until_ws(trim_start_ws(s))
}

pub open spec fn name_key() -> Seq<char> {
    seq!['n', 'a', 'm', 'e', ':']
}

pub open spec fn config_key() -> Seq<char> {
    seq!['c', 'o', 'n', 'f', 'i', 'g', ':']
}

/// The worker name carried by a `- name: <worker>` list item: the value
/// after `name:`, trimmed, with surrounding double quotes and then single
/// quotes removed, cut at its first whitespace (so a trailing `# comment` or
/// alignment spaces do not count). `None` when the line is not such an item.
pub open spec fn entry_name(line: Seq<char>) -> Option<Seq<char>> {
    let rest = line.skip(leading_space_count(line) as int);
    if rest.len() > 0 && rest[0] == '-' {
        let after_dash = trim_start_ws(rest.drop_first());
        if starts_with(after_dash, name_key()) {
            let value = trim_ws(after_dash.skip(5));
            Some(first_token(trim_char(trim_char(value, '"'), '\'')))
        } else {
            None
        }
    } else {
        None
    }
}

/// The indent of `line` when it is the `- name:` item of `worker`.
pub open spec fn entry_indent_of(line: Seq<char>, worker: Seq<char>) -> Option<nat> {
    if entry_name(line) == Some(worker) {
        Some(leading_space_count(line))
    } else {
        None
    }
}

/// A `config:` key line (after its indentation).
pub open spec fn is_config_key(line: Seq<char>) -> bool {
    starts_with(trim_start_ws(line), config_key())
}

/// Index of the first `- name: <worker>` item at or after `i`.
pub open spec fn find_entry_from(lines: Seq<Seq<char>>, worker: Seq<char>, i: int) -> Option<int>
    decreases lines.len() - i,
{
    if i < 0 || i >= lines.len() {
        None
    } else if entry_indent_of(lines[i], worker) is Some {
        Some(i)
    } else {
        find_entry_from(lines, worker, i + 1)
    }
}

/// Index of the `config:` key among the child lines of an entry indented
/// `ent_indent`, scanning from `i`: blank lines are skipped, and the entry
/// ends at the first non-blank line indented `ent_indent` or less.
pub open spec fn find_config_from(lines: Seq<Seq<char>>, ent_indent: nat, i: int) -> Option<int>
    decreases lines.len() - i,
{
    if i < 0 || i >= lines.len() {
        None
    } else if is_blank(lines[i]) {
        find_config_from(lines, ent_indent, i + 1)
    } else if leading_space_count(lines[i]) <= ent_indent {
        None
    } else if is_config_key(lines[i]) {
        Some(i)
    } else {
        find_config_from(lines, ent_indent, i + 1)
    }
}

/// Index of the last line of a `config:` block indented `cfg_indent`,
/// scanning from `i` with `last` the last block line seen so far: every
/// following line indented deeper belongs to the block; blank lines belong
/// to it only when a deeper line follows them.
pub open spec fn block_last_from(lines: Seq<Seq<char>>, cfg_indent: nat, i: int, last: int) -> int
    decreases lines.len() - i,
{
    if i < 0 || i >= lines.len() {
        last
    } else if is_blank(lines[i]) {
        block_last_from(lines, cfg_indent, i + 1, last)
    } else if leading_space_count(lines[i]) > cfg_indent {
        block_last_from(lines, cfg_indent, i + 1, i)
    } else {
        last
    }
}

pub open spec fn spaces(n: nat) -> Seq<char> {
    Seq::new(n, |i: int| ' ')
}

/// The rewritten text, or `None` when the first `- name: <worker>` entry is
/// absent or has no `config:` child. The block (the `config:` line and every
/// following deeper line) is replaced by `comment`, indented like the
/// `config:` key.
pub open spec fn strip_config_block(content: Seq<char>, worker: Seq<char>, comment: Seq<char>) -> Option<Seq<char>> {
    let lines = split_lines(content);
    match find_entry_from(lines, worker, 0) {
        None => None,
        Some(e) => match find_config_from(lines, leading_space_count(lines[e]), e + 1) {
            None => None,
            Some(c) => {
                let ci = leading_space_count(lines[c]);
                let last = block_last_from(lines, ci, c + 1, c);
                Some(join_lines(lines.take(c) + seq![spaces(ci) + comment] + lines.skip(last + 1)))
            },
        },
    }
}

// ---------------------------------------------------------------------------
// Laws
// ---------------------------------------------------------------------------

pub open spec fn no_newline(s: Seq<char>) -> bool {
    forall|i: int| 0 <= i < s.len() ==> s[i] != '\n'
}

proof fn lemma_split_lines_no_newline(s: Seq<char>)
    ensures
        forall|k: int| 0 <= k < split_lines(s).len() ==> no_newline(#[trigger] split_lines(s)[k]),
    decreases s.len(),
{
    if s.len() > 0 {
        lemma_split_lines_no_newline(s.drop_last());
        lemma_split_lines_len(s.drop_last());
        let r = split_lines(s.drop_last());
        if s.last() != '\n' {
            assert forall|k: int| 0 <= k < split_lines(s).len() implies no_newline(
                #[trigger] split_lines(s)[k],
            ) by {
                if k == r.len() - 1 {
                    let l = r.last().push(s.last());
                    assert(split_lines(s)[k] == l);
                    assert forall|i: int| 0 <= i < l.len() implies l[i] != '\n' by {
                        if i < r.last().len() {
                            assert(no_newline(r[r.len() - 1]));
                        }
                    }
                } else {
                    assert(split_lines(s)[k] == r[k]);
                }
            }
        } else {
            assert forall|k: int| 0 <= k < split_lines(s).len() implies no_newline(
                #[trigger] split_lines(s)[k],
            ) by {
                if k < r.len() {
                    assert(split_lines(s)[k] == r[k]);
                }
            }
        }
    }
}

proof fn lemma_split_push_no_newline(s: Seq<char>, t: Seq<char>)
    requires
        no_newline(t),
    ensures
        split_lines(s + t) == split_lines(s).update(
            split_lines(s).len() - 1,
            split_lines(s).last() + t,
        ),
    decreases t.len(),
{
    lemma_split_lines_len(s);
    let r = split_lines(s);
    if t.len() == 0 {
        assert(s + t =~= s);
        assert(r.update(r.len() - 1, r.last() + t) =~= r);
    } else {
        let t0 = t.drop_last();
        assert(no_newline(t0));
        lemma_split_push_no_newline(s, t0);
        assert((s + t).drop_last() =~= s + t0);
        assert((s + t).last() == t.last());
        lemma_split_lines_len(s + t0);
        let r0 = split_lines(s + t0);
        assert(t[t.len() - 1] != '\n');
        assert(r0.len() == r.len());
        assert(r0.last() == r.last() + t0);
        assert((r.last() + t0).push(t.last()) =~= r.last() + t);
        assert(r0.update(r0.len() - 1, r0.last().push(t.last())) =~= r.update(
            r.len() - 1,
            r.last() + t,
        ));
    }
}

/// Splitting the join of lines that hold no newline gives the lines back.
pub proof fn lemma_split_join(ls: Seq<Seq<char>>)
    requires
        ls.len() >= 1,
        forall|k: int| 0 <= k < ls.len() ==> no_newline(#[trigger] ls[k]),
    ensures
        split_lines(join_lines(ls)) == ls,
    decreases ls.len(),
{
    if ls.len() == 1 {
        lemma_split_push_no_newline(Seq::<char>::empty(), ls[0]);
        assert(Seq::<char>::empty() + ls[0] =~= ls[0]);
        assert(split_lines(Seq::<char>::empty()) =~= seq![Seq::<char>::empty()]);
        assert(seq![Seq::<char>::empty()].update(0, Seq::<char>::empty() + ls[0]) =~= ls);
    } else {
        let init = ls.drop_last();
        assert forall|k: int| 0 <= k < init.len() implies no_newline(#[trigger] init[k]) by {
            assert(init[k] == ls[k]);
        }
        lemma_split_join(init);
        let j = join_lines(init) + seq!['\n'];
        assert(j.drop_last() =~= join_lines(init));
        lemma_split_lines_len(join_lines(init));
        assert(split_lines(j) =~= init.push(Seq::<char>::empty()));
        assert(no_newline(ls[ls.len() - 1]));
        lemma_split_push_no_newline(j, ls.last());
        let p = init.push(Seq::<char>::empty());
        assert(p.update(p.len() - 1, p.last() + ls.last()) =~= ls);
    }
}

proof fn lemma_find_entry_agree(a: Seq<Seq<char>>, b: Seq<Seq<char>>, w: Seq<char>, i: int, e: int)
    requires
        0 <= i <= e < a.len(),
        e < b.len(),
        find_entry_from(a, w, i) == Some(e),
        forall|k: int| i <= k <= e ==> a[k] == b[k],
    ensures
        find_entry_from(b, w, i) == Some(e),
    decreases e - i,
{
    if i < e {
        assert(a[i] == b[i]);
        lemma_find_entry_agree(a, b, w, i + 1, e);
    } else {
        assert(a[e] == b[e]);
        lemma_find_entry_range(a, w, e + 1);
    }
}

proof fn lemma_find_config_prefix(a: Seq<Seq<char>>, b: Seq<Seq<char>>, x: nat, i: int, c: int)
    requires
        0 <= i <= c < a.len(),
        c <= b.len(),
        find_config_from(a, x, i) == Some(c),
        forall|k: int| i <= k < c ==> a[k] == b[k],
    ensures
        find_config_from(b, x, i) == find_config_from(b, x, c),
    decreases c - i,
{
    if i < c {
        assert(a[i] == b[i]);
        lemma_find_config_prefix(a, b, x, i + 1, c);
    }
}

proof fn lemma_find_config_shift(a: Seq<Seq<char>>, b: Seq<Seq<char>>, x: nat, i: int, j: int)
    requires
        0 <= i <= b.len(),
        0 <= j <= a.len(),
        b.skip(i) == a.skip(j),
    ensures
        (find_config_from(b, x, i) is None) == (find_config_from(a, x, j) is None),
    decreases b.len() - i,
{
    assert(b.skip(i).len() == a.skip(j).len());
    assert(b.skip(i).len() == b.len() - i);
    assert(a.skip(j).len() == a.len() - j);
    if i < b.len() {
        assert(b.skip(i)[0] == b[i]);
        assert(a.skip(j)[0] == a[j]);
        assert(b.skip(i + 1) =~= b.skip(i).drop_first());
        assert(a.skip(j + 1) =~= a.skip(j).drop_first());
        lemma_find_config_shift(a, b, x, i + 1, j + 1);
    }
}

/// Stripping is idempotent: once a block has been replaced by its comment, a
/// second call for the same worker finds no block and leaves the text alone.
/// This holds whenever the comment is one line that is not itself a
/// `config:` key, and the entry has no further `config:` key after the
/// stripped block.
pub proof fn law_strip_is_idempotent(content: Seq<char>, worker: Seq<char>, comment: Seq<char>)
    requires
        no_newline(comment),
        !is_config_key(comment),
        strip_config_block(content, worker, comment) is Some,
        ({
            let lines = split_lines(content);
            let e = find_entry_from(lines, worker, 0)->0;
            let c = find_config_from(lines, leading_space_count(lines[e]), e + 1)->0;
            let ci = leading_space_count(lines[c]);
            find_config_from(
                lines,
                leading_space_count(lines[e]),
                block_last_from(lines, ci, c + 1, c) + 1,
            ) is None
        }),
    ensures
        strip_config_block(strip_config_block(content, worker, comment)->0, worker, comment)
            is None,
{
    let lines = split_lines(content);
    lemma_split_lines_len(content);
    lemma_split_lines_no_newline(content);
    let e = find_entry_from(lines, worker, 0)->0;
    lemma_find_entry_range(lines, worker, 0);
    let x = leading_space_count(lines[e]);
    let c = find_config_from(lines, x, e + 1)->0;
    lemma_find_config_range(lines, x, e + 1);
    let ci = leading_space_count(lines[c]);
    let last = block_last_from(lines, ci, c + 1, c);
    lemma_block_last_range(lines, ci, c + 1, c);
    let cl = spaces(ci) + comment;
    let out_lines = lines.take(c) + seq![cl] + lines.skip(last + 1);
    assert forall|k: int| 0 <= k < out_lines.len() implies no_newline(#[trigger] out_lines[k]) by {
        if k < c {
            assert(out_lines[k] == lines[k]);
        } else if k == c {
            assert forall|i: int| 0 <= i < cl.len() implies cl[i] != '\n' by {
                if i >= ci {
                    assert(cl[i] == comment[i - ci]);
                }
            }
        } else {
            assert(out_lines[k] == lines[last + 1 + (k - c - 1)]);
        }
    }
    lemma_split_join(out_lines);
    let out = join_lines(out_lines);
    assert(split_lines(out) == out_lines);
    // The entry is found at the same index.
    assert forall|k: int| 0 <= k <= e implies lines[k] == out_lines[k] by {}
    lemma_find_entry_agree(lines, out_lines, worker, 0, e);
    assert(out_lines[e] == lines[e]);
    // Its children up to the comment line are the same lines as before.
    lemma_find_config_prefix(lines, out_lines, x, e + 1, c);
    // The comment line is skipped: it is indented deeper than the entry and
    // is not a `config:` key.
    lemma_spaces_prefix(ci, comment);
    assert(find_config_from(out_lines, x, c) == find_config_from(out_lines, x, c + 1));
    assert(out_lines.skip(c + 1) =~= lines.skip(last + 1));
    lemma_find_config_shift(lines, out_lines, x, c + 1, last + 1);
}

proof fn lemma_spaces_prefix(n: nat, t: Seq<char>)
    ensures
        trim_start_ws(spaces(n) + t) == trim_start_ws(t),
        leading_space_count(spaces(n) + t) >= n,
    decreases n,
{
    if n > 0 {
        let s = spaces(n) + t;
        assert(s[0] == ' ');
        assert(s.drop_first() =~= spaces((n - 1) as nat) + t);
        lemma_spaces_prefix((n - 1) as nat, t);
    } else {
        assert(spaces(0) + t =~= t);
    }
}

proof fn lemma_find_entry_range(lines: Seq<Seq<char>>, w: Seq<char>, i: int)
    ensures
        find_entry_from(lines, w, i) matches Some(e) ==> i <= e < lines.len() && entry_indent_of(
            lines[e],
            w,
        ) is Some,
    decreases lines.len() - i,
{
    if 0 <= i < lines.len() && entry_indent_of(lines[i], w) is None {
        lemma_find_entry_range(lines, w, i + 1);
    }
}

proof fn lemma_find_config_range(lines: Seq<Seq<char>>, x: nat, i: int)
    ensures
        find_config_from(lines, x, i) matches Some(c) ==> i <= c < lines.len() && !is_blank(
            lines[c],
        ) && leading_space_count(lines[c]) > x && is_config_key(lines[c]),
    decreases lines.len() - i,
{
    if 0 <= i < lines.len() {
        lemma_find_config_range(lines, x, i + 1);
    }
}

proof fn lemma_block_last_range(lines: Seq<Seq<char>>, ci: nat, i: int, last: int)
    requires
        0 <= last < lines.len(),
        last < i,
    ensures
        last <= block_last_from(lines, ci, i, last) < lines.len(),
        block_last_from(lines, ci, i, last) < i || block_last_from(lines, ci, i, last) >= i,
    decreases lines.len() - i,
{
    if 0 <= i < lines.len() {
        if is_blank(lines[i]) {
            lemma_block_last_range(lines, ci, i + 1, last);
        } else if leading_space_count(lines[i]) > ci {
            lemma_block_last_range(lines, ci, i + 1, i);
        }
    }
}

// ---------------------------------------------------------------------------
// Which lines name a worker
// ---------------------------------------------------------------------------

proof fn lemma_count_leading_spaces(n: nat, rest: Seq<char>)
    requires
        rest.len() > 0,
        rest[0] != ' ',
    ensures
        count_leading(spaces(n) + rest, ' ') == n,
    decreases n,
{
    if n > 0 {
        assert((spaces(n) + rest)[0] == ' ');
        assert((spaces(n) + rest).drop_first() =~= spaces((n - 1) as nat) + rest);
        lemma_count_leading_spaces((n - 1) as nat, rest);
    } else {
        assert(spaces(0) + rest =~= rest);
    }
}

proof fn lemma_take_until_ws_whole(w: Seq<char>)
    requires
        forall|i: int| 0 <= i < w.len() ==> !is_ws(#[trigger] w[i]),
    ensures
        take_until_ws(w) == w,
    decreases w.len(),
{
    if w.len() > 0 {
        lemma_take_until_ws_whole(w.drop_first());
        assert(seq![w[0]] + w.drop_first() =~= w);
    }
}

/// A worker's `- name:` list item names that worker whether its value is
/// written bare, in double quotes or in single quotes, at any indent: for a
/// worker name without whitespace or quote characters,
/// `{indent}- name: {q}{worker}{q}` is recognised as the entry of `worker`
/// (with `q` a double quote, a single quote, or nothing).
pub proof fn law_entry_name_strips_quotes(indent: nat, worker: Seq<char>, q: Seq<char>)
    requires
        worker.len() > 0,
        forall|i: int|
            0 <= i < worker.len() ==> !is_ws(#[trigger] worker[i]) && worker[i] != '"'
                && worker[i] != '\'',
        q == seq!['"'] || q == seq!['\''] || q.len() == 0,
    ensures
        entry_name(
            spaces(indent) + seq!['-', ' ', 'n', 'a', 'm', 'e', ':', ' '] + q + worker + q,
        ) == Some(worker),
        entry_indent_of(
            spaces(indent) + seq!['-', ' ', 'n', 'a', 'm', 'e', ':', ' '] + q + worker + q,
            worker,
        ) == Some(indent),
{
    let item = seq!['-', ' ', 'n', 'a', 'm', 'e', ':', ' '] + q + worker + q;
    let line = spaces(indent) + item;
    assert(line =~= spaces(indent) + seq!['-', ' ', 'n', 'a', 'm', 'e', ':', ' '] + q + worker + q);
    assert(item[0] == '-');
    lemma_count_leading_spaces(indent, item);
    assert(line.skip(indent as int) =~= item);
    let body = seq!['n', 'a', 'm', 'e', ':', ' '] + q + worker + q;
    assert(item.drop_first() =~= seq![' '] + body);
    assert(is_ws(' '));
    assert(!is_ws('n'));
    assert(!is_ws(':'));
    assert(!is_ws('"'));
    assert(!is_ws('\''));
    assert((seq![' '] + body).drop_first() =~= body);
    assert(body[0] == 'n');
    assert(trim_start_ws(body) == body);
    assert((seq![' '] + body)[0] == ' ');
    assert(trim_start_ws(seq![' '] + body) == body);
    assert(body.take(5) =~= name_key());
    let qw = q + worker + q;
    assert(body.skip(5) =~= seq![' '] + qw);
    assert((seq![' '] + qw).drop_first() =~= qw);
    assert(qw.len() > 0 && !is_ws(qw[0])) by {
        if q.len() == 0 {
            assert(qw[0] == worker[0]);
        }
    }
    assert(trim_start_ws(qw) == qw);
    assert((seq![' '] + qw)[0] == ' ');
    assert(trim_start_ws(seq![' '] + qw) == qw);
    assert(!is_ws(qw.last())) by {
        if q.len() == 0 {
            assert(qw.last() == worker[worker.len() - 1]);
        }
    }
    assert(trim_ws(body.skip(5)) == qw);
    // Removing the double quotes, then the single quotes.
    let d = trim_char(qw, '"');
    if q == seq!['"'] {
        assert(qw.drop_first() =~= worker + q);
        assert((worker + q)[0] == worker[0]);
        assert(crate::text::trim_start_char(worker + q, '"') == worker + q);
        assert(crate::text::trim_start_char(qw, '"') == worker + q);
        assert((worker + q).drop_last() =~= worker);
        assert(worker.last() == worker[worker.len() - 1]);
        assert(crate::text::trim_end_char(worker, '"') == worker);
        assert(crate::text::trim_end_char(worker + q, '"') == worker);
        assert(d == worker);
    } else {
        assert(qw[0] != '"') by {
            if q.len() == 0 {
                assert(qw[0] == worker[0]);
            }
        }
        assert(crate::text::trim_start_char(qw, '"') == qw);
        assert(qw.last() != '"') by {
            if q.len() == 0 {
                assert(qw.last() == worker[worker.len() - 1]);
            }
        }
        assert(crate::text::trim_end_char(qw, '"') == qw);
        assert(d == qw);
    }
    let t = trim_char(d, '\'');
    if q == seq!['\''] {
        assert(qw.drop_first() =~= worker + q);
        assert((worker + q)[0] == worker[0]);
        assert(crate::text::trim_start_char(worker + q, '\'') == worker + q);
        assert(crate::text::trim_start_char(qw, '\'') == worker + q);
        assert((worker + q).drop_last() =~= worker);
        assert(worker.last() == worker[worker.len() - 1]);
        assert(crate::text::trim_end_char(worker, '\'') == worker);
        assert(crate::text::trim_end_char(worker + q, '\'') == worker);
        assert(t == worker);
    } else {
        assert(d =~= worker) by {
            if q.len() == 0 {
                assert(qw =~= worker);
            }
        }
        assert(worker.last() == worker[worker.len() - 1]);
        assert(crate::text::trim_start_char(worker, '\'') == worker);
        assert(crate::text::trim_end_char(worker, '\'') == worker);
        assert(t == worker);
    }
    assert(trim_start_ws(worker) == worker);
    lemma_take_until_ws_whole(worker);
    assert(first_token(worker) == worker);
}

// ---------------------------------------------------------------------------
// Executable steps
// ---------------------------------------------------------------------------

/// Number of leading spaces of `line`.
pub fn leading_spaces(line: &[char]) -> (n: usize)
    ensures
        n == leading_space_count(line@),
        n <= line@.len(),
{
    proof {
        lemma_trim_start_char_skip(line@, ' ');
    }
    let n = skip_char(line, 0, line.len(), ' ');
    proof {
        assert(line@.subrange(0, line@.len() as int) =~= line@);
        assert(line@.subrange(n as int, line@.len() as int) =~= line@.skip(n as int));
        assert(line@.skip(n as int).len() == line@.skip(leading_space_count(line@) as int).len());
    }
    n
}

fn is_blank_exec(line: &[char]) -> (b: bool)
    ensures
        b == is_blank(line@),
{
    let r = skip_ws(line, 0, line.len());
    r == line.len()
}

fn config_key_exec() -> (v: Vec<char>)
    ensures
        v@ == config_key(),
{
    let mut v: Vec<char> = Vec::new();
    v.push('c');
    v.push('o');
    v.push('n');
    v.push('f');
    v.push('i');
    v.push('g');
    v.push(':');
    proof {
        assert(v@ =~= config_key());
    }
    v
}

fn is_config_key_exec(line: &[char]) -> (b: bool)
    ensures
        b == is_config_key(line@),
{
    let r = skip_ws(line, 0, line.len());
    proof {
        assert(line@.subrange(0, line@.len() as int) =~= line@);
    }
    let ghost t = line@.subrange(r as int, line@.len() as int);
    if line.len() - r < 7 {
        return false;
    }
    let key = config_key_exec();
    let ok = chars_equal(line, r, r + 7, key.as_slice());
    proof {
        assert(t.take(7) =~= line@.subrange(r as int, r + 7));
    }
    ok
}

/// End (exclusive) of the run of non-whitespace characters starting at
/// `from`, within `from..to`.
fn token_end(v: &[char], from: usize, to: usize) -> (r: usize)
    requires
        from <= to <= v@.len(),
    ensures
        from <= r <= to,
        take_until_ws(v@.subrange(from as int, to as int)) == v@.subrange(from as int, r as int),
{
    let mut i = from;
    while i < to && !char_is_ws(v[i])
        invariant
            from <= i <= to <= v@.len(),
            take_until_ws(v@.subrange(from as int, to as int)) == v@.subrange(
                from as int,
                i as int,
            ) + take_until_ws(v@.subrange(i as int, to as int)),
        decreases to - i,
    {
        proof {
            let t = v@.subrange(i as int, to as int);
            assert(t[0] == v@[i as int]);
            assert(t.drop_first() =~= v@.subrange(i + 1, to as int));
            assert(v@.subrange(from as int, i + 1) =~= v@.subrange(from as int, i as int) + seq![
                v@[i as int],
            ]);
        }
        i = i + 1;
    }
    proof {
        let t = v@.subrange(i as int, to as int);
        if i < to {
            assert(t[0] == v@[i as int]);
        }
        assert(take_until_ws(t) =~= Seq::<char>::empty());
        assert(v@.subrange(from as int, i as int) + Seq::<char>::empty() =~= v@.subrange(
            from as int,
            i as int,
        ));
    }
    i
}

fn chars_equal(a: &[char], from: usize, to: usize, b: &[char]) -> (r: bool)
    requires
        from <= to <= a@.len(),
    ensures
        r == (a@.subrange(from as int, to as int) == b@),
{
    if to - from != b.len() {
        return false;
    }
    let mut k: usize = 0;
    while k < b.len()
        invariant
            to - from == b@.len(),
            from <= to <= a@.len(),
            k <= b@.len(),
            forall|j: int| 0 <= j < k ==> a@[from + j] == b@[j],
        decreases b@.len() - k,
    {
        if a[from + k] != b[k] {
            proof {
                assert(a@.subrange(from as int, to as int)[k as int] != b@[k as int]);
            }
            return false;
        }
        k = k + 1;
    }
    proof {
        assert(a@.subrange(from as int, to as int) =~= b@);
    }
    true
}

/// If `line` is the `- name: <worker>` list item, its indent.
pub fn entry_indent(line: &[char], worker: &[char]) -> (r: Option<usize>)
    ensures
        r matches Some(n) ==> entry_indent_of(line@, worker@) == Some(n as nat),
        r is None ==> entry_indent_of(line@, worker@) is None,
{
    let len = line.len();
    let indent = leading_spaces(line);
    let ghost rest = line@.skip(indent as int);
    proof {
        assert(line@.subrange(indent as int, len as int) =~= rest);
    }
    if indent >= len || line[indent] != '-' {
        return None;
    }
    let a = skip_ws(line, indent + 1, len);
    let ghost after_dash = line@.subrange(a as int, len as int);
    proof {
        assert(rest.drop_first() =~= line@.subrange(indent + 1, len as int));
        assert(trim_start_ws(rest.drop_first()) == after_dash);
    }
    if len - a < 5 {
        return None;
    }
    let ok = line[a] == 'n' && line[a + 1] == 'a' && line[a + 2] == 'm' && line[a + 3] == 'e'
        && line[a + 4] == ':';
    if !ok {
        proof {
            if starts_with(after_dash, name_key()) {
                assert(after_dash.take(5)[0] == 'n');
                assert(after_dash.take(5)[1] == 'a');
                assert(after_dash.take(5)[2] == 'm');
                assert(after_dash.take(5)[3] == 'e');
                assert(after_dash.take(5)[4] == ':');
            }
        }
        return None;
    }
    proof {
        assert(after_dash.take(5) =~= name_key());
        assert(after_dash.skip(5) =~= line@.subrange(a + 5, len as int));
    }
    // value = trim(after "name:")
    let b0 = skip_ws(line, a + 5, len);
    let e0 = skip_ws_back(line, b0, len);
    proof {
        assert(trim_ws(line@.subrange(a + 5, len as int)) == line@.subrange(b0 as int, e0 as int));
    }
    // strip double quotes, then single quotes
    let b1 = skip_char(line, b0, e0, '"');
    let e1 = skip_char_back(line, b1, e0, '"');
    let b2 = skip_char(line, b1, e1, '\'');
    let e2 = skip_char_back(line, b2, e1, '\'');
    proof {
        assert(trim_char(line@.subrange(b0 as int, e0 as int), '"') == line@.subrange(
            b1 as int,
            e1 as int,
        ));
        assert(trim_char(line@.subrange(b1 as int, e1 as int), '\'') == line@.subrange(
            b2 as int,
            e2 as int,
        ));
    }
    // first whitespace-delimited token
    let b3 = skip_ws(line, b2, e2);
    let e3 = token_end(line, b3, e2);
    proof {
        assert(first_token(line@.subrange(b2 as int, e2 as int)) == line@.subrange(
            b3 as int,
            e3 as int,
        ));
    }
    if chars_equal(line, b3, e3, worker) {
        Some(indent)
    } else {
        None
    }
}

/// Index and indent of the first `- name: <worker>` item.
fn find_entry(lines: &Vec<Vec<char>>, worker: &Vec<char>) -> (r: Option<(usize, usize)>)
    ensures
        r matches Some(p) ==> find_entry_from(lines_view(lines@), worker@, 0) == Some(p.0 as int)
            && p.1 == leading_space_count(lines@[p.0 as int]@) && p.0 < lines@.len(),
        r is None ==> find_entry_from(lines_view(lines@), worker@, 0) is None,
{
    let ghost lv = lines_view(lines@);
    let mut i: usize = 0;
    while i < lines.len()
        invariant
            i <= lines@.len(),
            lv == lines_view(lines@),
            find_entry_from(lv, worker@, 0) == find_entry_from(lv, worker@, i as int),
        decreases lines@.len() - i,
    {
        proof {
            assert(lv[i as int] == lines@[i as int]@);
        }
        match entry_indent(lines[i].as_slice(), worker.as_slice()) {
            Some(ind) => {
                return Some((i, ind));
            },
            None => {},
        }
        i = i + 1;
    }
    None
}

/// Index and indent of the `config:` key among the children of the entry at
/// `entry_idx` (indented `ent_indent`).
fn find_config(lines: &Vec<Vec<char>>, entry_idx: usize, ent_indent: usize) -> (r: Option<
    (usize, usize),
>)
    requires
        entry_idx < lines@.len(),
    ensures
        r matches Some(p) ==> find_config_from(
            lines_view(lines@),
            ent_indent as nat,
            entry_idx + 1,
        ) == Some(p.0 as int) && p.1 == leading_space_count(lines@[p.0 as int]@) && p.0
            < lines@.len(),
        r is None ==> find_config_from(lines_view(lines@), ent_indent as nat, entry_idx + 1) is None,
{
    let ghost lv = lines_view(lines@);
    let n = lines.len();
    let mut i: usize = entry_idx + 1;
    while i < lines.len()
        invariant
            entry_idx + 1 <= i <= lines@.len(),
            lv == lines_view(lines@),
            find_config_from(lv, ent_indent as nat, entry_idx + 1) == find_config_from(
                lv,
                ent_indent as nat,
                i as int,
            ),
        decreases lines@.len() - i,
    {
        let line = lines[i].as_slice();
        proof {
            assert(lv[i as int] == lines@[i as int]@);
        }
        if !is_blank_exec(line) {
            let indent = leading_spaces(line);
            if indent <= ent_indent {
                return None;
            }
            if is_config_key_exec(line) {
                return Some((i, indent));
            }
        }
        i = i + 1;
    }
    None
}

/// Index of the last line of the block whose `config:` key is at
/// `config_idx` (indented `cfg_indent`).
fn block_last(lines: &Vec<Vec<char>>, config_idx: usize, cfg_indent: usize) -> (last: usize)
    requires
        config_idx < lines@.len(),
    ensures
        last as int == block_last_from(
            lines_view(lines@),
            cfg_indent as nat,
            config_idx + 1,
            config_idx as int,
        ),
        config_idx <= last < lines@.len(),
{
    let ghost lv = lines_view(lines@);
    let mut last = config_idx;
    let n = lines.len();
    let mut i: usize = config_idx + 1;
    while i < lines.len()
        invariant
            config_idx + 1 <= i <= lines@.len(),
            config_idx <= last < i,
            lv == lines_view(lines@),
            block_last_from(lv, cfg_indent as nat, config_idx + 1, config_idx as int)
                == block_last_from(lv, cfg_indent as nat, i as int, last as int),
        decreases lines@.len() - i,
    {
        let line = lines[i].as_slice();
        proof {
            assert(lv[i as int] == lines@[i as int]@);
        }
        if !is_blank_exec(line) {
            if leading_spaces(line) > cfg_indent {
                last = i;
            } else {
                return last;
            }
        }
        i = i + 1;
    }
    last
}

/// Removes the `config:` block of the worker whose `- name:` equals
/// `worker_name`, replacing it with `comment` at the block's indent. Only the
/// first matching entry is touched. Returns `None` (nothing to do) when the
/// entry is absent or already has no `config:` block.
pub fn strip_worker_config_block(content: &str, worker_name: &str, comment: &str) -> (r: Option<
    String,
>)
    ensures
        r matches Some(s) ==> strip_config_block(content@, worker_name@, comment@) == Some(s@),
        r is None ==> strip_config_block(content@, worker_name@, comment@) is None,
{
    let cv = chars_of(content);
    let name = chars_of(worker_name);
    let mut lines = split_lines_exec(&cv);
    let ghost lv = lines_view(lines@);
    let (entry_idx, ent_indent) = match find_entry(&lines, &name) {
        Some(p) => p,
        None => {
            return None;
        },
    };
    proof {
        assert(lv[entry_idx as int] == lines@[entry_idx as int]@);
    }
    let (config_idx, config_indent) = match find_config(&lines, entry_idx, ent_indent) {
        Some(p) => p,
        None => {
            return None;
        },
    };
    let last = block_last(&lines, config_idx, config_indent);
    let nlines = lines.len();
    proof {
        assert(lv[config_idx as int] == lines@[config_idx as int]@);
    }
    let mut comment_line: Vec<char> = Vec::new();
    let mut k: usize = 0;
    while k < config_indent
        invariant
            k <= config_indent,
            comment_line@ == spaces(k as nat),
        decreases config_indent - k,
    {
        comment_line.push(' ');
        proof {
            assert(comment_line@ =~= spaces((k + 1) as nat));
        }
        k = k + 1;
    }
    let com = chars_of(comment);
    let mut j: usize = 0;
    while j < com.len()
        invariant
            j <= com@.len(),
            comment_line@ == spaces(config_indent as nat) + com@.take(j as int),
        decreases com@.len() - j,
    {
        comment_line.push(com[j]);
        proof {
            assert(com@.take(j + 1) =~= com@.take(j as int).push(com@[j as int]));
        }
        j = j + 1;
    }
    proof {
        assert(com@.take(com@.len() as int) =~= com@);
    }
    let ghost cl = comment_line@;
    let mut tail = lines.split_off(last + 1);
    lines.truncate(config_idx);
    lines.push(comment_line);
    lines.append(&mut tail);
    proof {
        assert(lines_view(lines@) =~= lv.take(config_idx as int) + seq![cl] + lv.skip(last + 1));
    }
    Some(join_lines_exec(&lines))
}

/// The comment left in place of a stripped block; `location` names where
/// the value now lives.
pub fn seed_comment(config_id: &str, location: &str) -> (s: String)
    ensures
        s@ == "# '"@ + config_id@ + "': value now lives in the configuration worker at "@
            + location@ + ". Edit at runtime via 'iii config set "@ + config_id@
            + "' (or 'configuration::set'); this block is no longer read."@,
{
    let mut s = String::new();
    push_str(&mut s, "# '");
    push_str(&mut s, config_id);
    push_str(&mut s, "': value now lives in the configuration worker at ");
    push_str(&mut s, location);
    push_str(&mut s, ". Edit at runtime via 'iii config set ");
    push_str(&mut s, config_id);
    push_str(&mut s, "' (or 'configuration::set'); this block is no longer read.");
    proof {
        assert(s@ =~= "# '"@ + config_id@ + "': value now lives in the configuration worker at "@
            + location@ + ". Edit at runtime via 'iii config set "@ + config_id@
            + "' (or 'configuration::set'); this block is no longer read."@);
    }
    s
}

} // verus!
