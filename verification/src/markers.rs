//! Removal of conflict markers from the text of a conflicted file.
//!
//! The text is handled as its UTF-8 bytes. Line ends and the markers are
//! ASCII, and an ASCII byte never occurs inside the encoding of another
//! character, so splitting the bytes at `\n` gives the same lines as
//! `str::lines` gives on the text.
use vstd::prelude::*;

verus! {

/// The byte `\n`.
pub const NEWLINE: u8 = 10;

/// The byte `\r`.
pub const CARRIAGE_RETURN: u8 = 13;

/// No byte of `t` is `\n`.
pub open spec fn newline_free(t: Seq<u8>) -> bool {
    forall|k: int| 0 <= k < t.len() ==> t[k] != NEWLINE
}

/// `line` without one final `\r`, if it ends with one.
pub open spec fn strip_cr(line: Seq<u8>) -> Seq<u8> {
    if line.len() > 0 && line.last() == CARRIAGE_RETURN {
        line.drop_last()
    } else {
        line
    }
}

/// The lines of `s` from position `start` on, where `s[start..pos]` has
/// already been read and holds no `\n`.
pub open spec fn lines_from(s: Seq<u8>, start: int, pos: int) -> Seq<Seq<u8>>
    decreases s.len() - pos,
{
    if pos >= s.len() {
        if start >= s.len() {
            seq![]
        } else {
            seq![s.subrange(start, s.len() as int)]
        }
    } else if s[pos] == NEWLINE {
        seq![strip_cr(s.subrange(start, pos))] + lines_from(s, pos + 1, pos + 1)
    } else {
        lines_from(s, start, pos + 1)
    }
}

/// The lines of `s` as `str::lines` yields them: `s` is cut at each `\n`,
/// a line that a `\n` ends loses one `\r` before it, and a final `\n`
/// starts no further line.
pub open spec fn lines(s: Seq<u8>) -> Seq<Seq<u8>> {
    lines_from(s, 0, 0)
}

/// `hay` holds `n` bytes equal to `c` from position `i` on.
pub open spec fn run_at(hay: Seq<u8>, i: int, c: u8, n: int) -> bool {
    forall|k: int| 0 <= k < n ==> #[trigger] hay[i + k] == c
}

/// `hay` holds `n` consecutive bytes equal to `c` somewhere.
pub open spec fn contains_run(hay: Seq<u8>, c: u8, n: int) -> bool {
    exists|i: int| 0 <= i && i + n <= hay.len() && #[trigger] run_at(hay, i, c, n)
}

/// The line holds one of the conflict markers: `<<<<<<<`, `======` or `>>>>>>`.
pub open spec fn has_marker(line: Seq<u8>) -> bool {
    contains_run(line, 60u8, 7) || contains_run(line, 61u8, 6) || contains_run(line, 62u8, 6)
}

/// The lines of `ls` that hold no conflict marker, in their order.
pub open spec fn unmarked(ls: Seq<Seq<u8>>) -> Seq<Seq<u8>>
    decreases ls.len(),
{
    if ls.len() == 0 {
        seq![]
    } else if has_marker(ls.last()) {
        unmarked(ls.drop_last())
    } else {
        unmarked(ls.drop_last()).push(ls.last())
    }
}

/// The lines of `ls` joined with `\n` between each two.
pub open spec fn join_lines(ls: Seq<Seq<u8>>) -> Seq<u8>
    decreases ls.len(),
{
    if ls.len() == 0 {
        seq![]
    } else if ls.len() == 1 {
        ls[0]
    } else {
        join_lines(ls.drop_last()) + seq![NEWLINE] + ls.last()
    }
}

/// What is left of a conflicted file's text once every line that holds a
/// conflict marker is dropped: the other lines, joined with `\n`.
pub open spec fn without_markers(content: Seq<u8>) -> Seq<u8> {
    join_lines(unmarked(lines(content)))
}

/// Whether `line` holds `n` consecutive bytes equal to `c`.
pub fn has_run(line: &[u8], c: u8, n: usize) -> (r: bool)
    ensures
        r == contains_run(line@, c, n as int),
{
    let len = line.len();
    let mut i: usize = 0;
    while n <= len - i
        invariant
            len == line@.len(),
            i <= len,
            forall|j: int| 0 <= j < i && j + n <= len ==> !run_at(line@, j, c, n as int),
        decreases len - i,
    {
        let mut k: usize = 0;
        let mut all = true;
        while k < n
            invariant
                i + n <= len,
                len == line@.len(),
                k <= n,
                all == (forall|m: int| 0 <= m < k ==> #[trigger] line@[i + m] == c),
            decreases n - k,
        {
            if line[i + k] != c {
                all = false;
            }
            k = k + 1;
        }
        if all {
            assert(run_at(line@, i as int, c, n as int));
            return true;
        }
        i = i + 1;
    }
    proof {
        if contains_run(line@, c, n as int) {
            let j = choose|j: int| 0 <= j && j + n <= line@.len() && #[trigger] run_at(line@, j, c, n as int);
            assert(!run_at(line@, j, c, n as int));
        }
    }
    false
}

/// Whether `line` holds a conflict marker (`<<<<<<<`, `======` or `>>>>>>`).
pub fn has_conflict_marker(line: &[u8]) -> (r: bool)
    ensures
        r == has_marker(line@),
{
    has_run(line, 60u8, 7) || has_run(line, 61u8, 6) || has_run(line, 62u8, 6)
}

/// Appends `line` to `out`, after a `\n` when `out` already holds a line.
fn append_line(out: &mut Vec<u8>, line: &Vec<u8>, separated: bool)
    ensures
        final(out)@ == (if separated { old(out)@ + seq![NEWLINE] + line@ } else { old(out)@ + line@ }),
{
    let ghost start = out@;
    if separated {
        out.push(NEWLINE);
    }
    let ghost base = out@;
    let mut k: usize = 0;
    while k < line.len()
        invariant
            k <= line@.len(),
            out@ == base + line@.subrange(0, k as int),
        decreases line@.len() - k,
    {
        out.push(line[k]);
        k = k + 1;
        assert(out@ =~= base + line@.subrange(0, k as int));
    }
    assert(line@.subrange(0, line@.len() as int) =~= line@);
}

/// Copies `content[start..end]`.
pub(crate) fn copy_range(content: &[u8], start: usize, end: usize) -> (r: Vec<u8>)
    requires
        start <= end <= content@.len(),
    ensures
        r@ == content@.subrange(start as int, end as int),
{
    let mut r: Vec<u8> = Vec::new();
    let mut k = start;
    while k < end
        invariant
            start <= k <= end <= content@.len(),
            r@ == content@.subrange(start as int, k as int),
        decreases end - k,
    {
        r.push(content[k]);
        k = k + 1;
        assert(r@ =~= content@.subrange(start as int, k as int));
    }
    r
}

/// Removes from the text of a conflicted file every line that holds a
/// conflict marker (`<<<<<<<`, `======` or `>>>>>>`), and joins the lines
/// that are left with `\n`.
pub fn remove_conflict_markers(content: &[u8]) -> (r: Vec<u8>)
    ensures
        r@ == without_markers(content@),
        !contains_run(r@, 60u8, 7),
        !contains_run(r@, 61u8, 6),
        !contains_run(r@, 62u8, 6),
{
    let len = content.len();
    let mut out: Vec<u8> = Vec::new();
    let mut any_kept = false;
    let mut start: usize = 0;
    let mut i: usize = 0;
    let ghost mut done: Seq<Seq<u8>> = seq![];
    while i < len
        invariant
            len == content@.len(),
            start <= i <= len,
            newline_free(content@.subrange(start as int, i as int)),
            lines(content@) == done + lines_from(content@, start as int, i as int),
            out@ == join_lines(unmarked(done)),
            any_kept == (unmarked(done).len() > 0),
        decreases len - i,
    {
        let ghost s = content@;
        if content[i] == NEWLINE {
            let mut end = i;
            if end > start && content[end - 1] == CARRIAGE_RETURN {
                end = end - 1;
            }
            let line = copy_range(content, start, end);
            assert(line@ == strip_cr(s.subrange(start as int, i as int))) by {
                let seg = s.subrange(start as int, i as int);
                if end < i {
                    assert(seg.drop_last() =~= s.subrange(start as int, end as int));
                } else {
                    assert(seg =~= s.subrange(start as int, end as int));
                }
            }
            assert(lines_from(s, start as int, i as int) == seq![line@] + lines_from(
                s,
                i + 1,
                i + 1,
            ));
            proof {
                lemma_step_kept(done, line@);
            }
            if !has_conflict_marker(&line) {
                append_line(&mut out, &line, any_kept);
                any_kept = true;
            }
            proof {
                assert(done + lines_from(s, start as int, i as int) =~= done.push(line@)
                    + lines_from(s, i + 1, i + 1));
                done = done.push(line@);
                assert(s.subrange(i + 1, i + 1) =~= Seq::<u8>::empty());
            }
            start = i + 1;
        } else {
            assert(s.subrange(start as int, i + 1) =~= s.subrange(start as int, i as int).push(
                s[i as int],
            ));
        }
        i = i + 1;
    }
    let ghost s = content@;
    if start < len {
        let line = copy_range(content, start, len);
        assert(lines_from(s, start as int, len as int) == seq![line@]);
        proof {
            lemma_step_kept(done, line@);
        }
        if !has_conflict_marker(&line) {
            append_line(&mut out, &line, any_kept);
        }
        proof {
            assert(done + seq![line@] =~= done.push(line@));
            done = done.push(line@);
        }
    } else {
        assert(done + lines_from(s, start as int, len as int) =~= done);
    }
    proof {
        lemma_without_markers_has_none(content@);
    }
    out
}

/// One more line read: the lines kept and their join grow as
/// `remove_conflict_markers` grows them.
proof fn lemma_step_kept(done: Seq<Seq<u8>>, line: Seq<u8>)
    ensures
        done.push(line).drop_last() == done,
        unmarked(done.push(line)) == (if has_marker(line) {
            unmarked(done)
        } else {
            unmarked(done).push(line)
        }),
        !has_marker(line) ==> join_lines(unmarked(done.push(line))) == (if unmarked(done).len()
            > 0 {
            join_lines(unmarked(done)) + seq![NEWLINE] + line
        } else {
            line
        }),
{
    assert(done.push(line).drop_last() =~= done);
    let u = unmarked(done);
    if !has_marker(line) {
        assert(u.push(line).drop_last() =~= u);
        if u.len() == 0 {
            assert(u.push(line).len() == 1);
        }
    }
}

/// Each line of a text holds no `\n`.
proof fn lemma_lines_from_newline_free(s: Seq<u8>, start: int, pos: int)
    requires
        0 <= start <= pos <= s.len(),
        newline_free(s.subrange(start, pos)),
    ensures
        forall|k: int|
            0 <= k < lines_from(s, start, pos).len() ==> newline_free(
                #[trigger] lines_from(s, start, pos)[k],
            ),
    decreases s.len() - pos,
{
    if pos >= s.len() {
        if start < s.len() {
            assert(lines_from(s, start, pos)[0] == s.subrange(start, s.len() as int));
        }
    } else if s[pos] == NEWLINE {
        let first = strip_cr(s.subrange(start, pos));
        assert(newline_free(first)) by {
            assert forall|k: int| 0 <= k < first.len() implies first[k] != NEWLINE by {
                assert(first[k] == s.subrange(start, pos)[k]);
            }
        }
        assert(s.subrange(pos + 1, pos + 1) =~= Seq::<u8>::empty());
        lemma_lines_from_newline_free(s, pos + 1, pos + 1);
        let rest = lines_from(s, pos + 1, pos + 1);
        assert(lines_from(s, start, pos) == seq![first] + rest);
        assert forall|k: int|
            0 <= k < lines_from(s, start, pos).len() implies newline_free(
            #[trigger] lines_from(s, start, pos)[k],
        ) by {
            if k > 0 {
                assert(lines_from(s, start, pos)[k] == rest[k - 1]);
            }
        }
    } else {
        let ext = s.subrange(start, pos + 1);
        assert forall|k: int| 0 <= k < ext.len() implies #[trigger] ext[k] != NEWLINE by {
            if k < pos - start {
                assert(ext[k] == s.subrange(start, pos)[k]);
            }
        }
        lemma_lines_from_newline_free(s, start, pos + 1);
        assert(lines_from(s, start, pos) == lines_from(s, start, pos + 1));
    }
}

/// The lines that `unmarked` keeps hold no marker and keep any property
/// that every line had.
proof fn lemma_unmarked_lines(ls: Seq<Seq<u8>>)
    requires
        forall|k: int| 0 <= k < ls.len() ==> newline_free(#[trigger] ls[k]),
    ensures
        forall|k: int|
            0 <= k < unmarked(ls).len() ==> newline_free(#[trigger] unmarked(ls)[k])
                && !has_marker(unmarked(ls)[k]),
    decreases ls.len(),
{
    if ls.len() > 0 {
        let init = ls.drop_last();
        assert forall|k: int| 0 <= k < init.len() implies newline_free(#[trigger] init[k]) by {
            assert(init[k] == ls[k]);
        }
        lemma_unmarked_lines(init);
        assert(newline_free(ls[ls.len() - 1]));
        let u0 = unmarked(init);
        if !has_marker(ls.last()) {
            let u = unmarked(ls);
            assert(u == u0.push(ls.last()));
            assert forall|k: int| 0 <= k < u.len() implies newline_free(#[trigger] u[k])
                && !has_marker(u[k]) by {
                if k < u0.len() {
                    assert(u[k] == u0[k]);
                }
            }
        }
    }
}

/// A run of a byte other than `\n` in lines joined with `\n` lies within
/// one of the lines.
proof fn lemma_join_no_run(ls: Seq<Seq<u8>>, c: u8, n: int)
    requires
        c != NEWLINE,
        n >= 1,
        forall|k: int|
            0 <= k < ls.len() ==> newline_free(#[trigger] ls[k]) && !contains_run(ls[k], c, n),
    ensures
        !contains_run(join_lines(ls), c, n),
    decreases ls.len(),
{
    if ls.len() == 0 {
        let t = join_lines(ls);
        if contains_run(t, c, n) {
            let i = choose|i: int| 0 <= i && i + n <= t.len() && #[trigger] run_at(t, i, c, n);
            assert(t.len() == 0);
        }
    } else if ls.len() == 1 {
        assert(!contains_run(ls[0], c, n));
    } else {
        let init = ls.drop_last();
        let last = ls.last();
        assert forall|k: int|
            0 <= k < init.len() implies newline_free(#[trigger] init[k]) && !contains_run(
            init[k],
            c,
            n,
        ) by {
            assert(init[k] == ls[k]);
        }
        lemma_join_no_run(init, c, n);
        let j = join_lines(init);
        let t = join_lines(ls);
        assert(t == j + seq![NEWLINE] + last);
        assert(!contains_run(last, c, n)) by {
            assert(last == ls[ls.len() - 1]);
        }
        if contains_run(t, c, n) {
            let i = choose|i: int| 0 <= i && i + n <= t.len() && #[trigger] run_at(t, i, c, n);
            if i + n <= j.len() {
                assert forall|k: int| 0 <= k < n implies #[trigger] j[i + k] == c by {
                    assert(t[i + k] == c);
                }
                assert(run_at(j, i, c, n));
            } else if i > j.len() {
                let i2 = i - j.len() - 1;
                assert forall|k: int| 0 <= k < n implies #[trigger] last[i2 + k] == c by {
                    assert(t[i + k] == c);
                    assert(t[i + k] == last[i2 + k]);
                }
                assert(run_at(last, i2, c, n));
            } else {
                let k = j.len() - i;
                assert(t[i + k] == c);
                assert(t[j.len() as int] == NEWLINE);
            }
        }
    }
}

/// The result of marker removal holds none of the three conflict markers,
/// not even across the lines it joins.
pub proof fn lemma_without_markers_has_none(content: Seq<u8>)
    ensures
        !contains_run(without_markers(content), 60u8, 7),
        !contains_run(without_markers(content), 61u8, 6),
        !contains_run(without_markers(content), 62u8, 6),
{
    assert(content.subrange(0, 0) =~= Seq::<u8>::empty());
    lemma_lines_from_newline_free(content, 0, 0);
    let ls = lines(content);
    lemma_unmarked_lines(ls);
    let u = unmarked(ls);
    lemma_join_no_run(u, 60u8, 7);
    lemma_join_no_run(u, 61u8, 6);
    lemma_join_no_run(u, 62u8, 6);
}

/// A text has lines exactly when something is left from `start` on.
proof fn lemma_lines_from_nonempty(s: Seq<u8>, start: int, pos: int)
    requires
        0 <= start <= pos <= s.len(),
    ensures
        lines_from(s, start, pos).len() > 0 <==> start < s.len(),
    decreases s.len() - pos,
{
    if pos < s.len() && s[pos] != NEWLINE {
        lemma_lines_from_nonempty(s, start, pos + 1);
    }
}

/// Joining a line in front of other lines puts one `\n` between them.
proof fn lemma_join_prepend(a: Seq<u8>, rest: Seq<Seq<u8>>)
    requires
        rest.len() > 0,
    ensures
        join_lines(seq![a] + rest) == a + seq![NEWLINE] + join_lines(rest),
    decreases rest.len(),
{
    let all = seq![a] + rest;
    if rest.len() == 1 {
        assert(all.drop_last() =~= seq![a]);
        assert(all.last() == rest[0]);
        assert(join_lines(seq![a]) == a);
        assert(join_lines(rest) == rest[0]);
        assert(join_lines(all) == join_lines(all.drop_last()) + seq![NEWLINE] + all.last());
    } else {
        lemma_join_prepend(a, rest.drop_last());
        assert(all.drop_last() =~= seq![a] + rest.drop_last());
        assert(all.last() == rest.last());
        assert(join_lines(all) == join_lines(all.drop_last()) + seq![NEWLINE] + all.last());
        assert(join_lines(rest) == join_lines(rest.drop_last()) + seq![NEWLINE] + rest.last());
        assert(join_lines(all) =~= a + seq![NEWLINE] + join_lines(rest));
    }
}

/// Without a `\r` before a `\n` and without a final `\n`, joining the lines of a text gives
/// the text back.
proof fn lemma_join_lines_from(s: Seq<u8>, start: int, pos: int)
    requires
        0 <= start <= pos <= s.len(),
        start < s.len(),
        s.last() != NEWLINE,
        no_cr_before_newline(s),
    ensures
        join_lines(lines_from(s, start, pos)) == s.subrange(start, s.len() as int),
    decreases s.len() - pos,
{
    if pos >= s.len() {
    } else if s[pos] == NEWLINE {
        let first = s.subrange(start, pos);
        assert(strip_cr(first) == first) by {
            if first.len() > 0 {
                assert(first.last() == s[pos - 1]);
                assert(s[pos] == NEWLINE);
            }
        }
        assert(pos + 1 < s.len());
        lemma_lines_from_nonempty(s, pos + 1, pos + 1);
        lemma_join_lines_from(s, pos + 1, pos + 1);
        let rest = lines_from(s, pos + 1, pos + 1);
        lemma_join_prepend(first, rest);
        assert(first + seq![NEWLINE] + s.subrange(pos + 1, s.len() as int) =~= s.subrange(
            start,
            s.len() as int,
        ));
    } else {
        lemma_join_lines_from(s, start, pos + 1);
    }
}

/// Lines without markers are all kept.
proof fn lemma_unmarked_keeps_all(ls: Seq<Seq<u8>>)
    requires
        forall|k: int| 0 <= k < ls.len() ==> !has_marker(#[trigger] ls[k]),
    ensures
        unmarked(ls) == ls,
    decreases ls.len(),
{
    if ls.len() > 0 {
        let init = ls.drop_last();
        assert forall|k: int| 0 <= k < init.len() implies !has_marker(#[trigger] init[k]) by {
            assert(init[k] == ls[k]);
        }
        lemma_unmarked_keeps_all(init);
        assert(!has_marker(ls[ls.len() - 1]));
        assert(init.push(ls.last()) =~= ls);
    }
}

/// No `\n` of `s` comes right after a `\r`.
pub open spec fn no_cr_before_newline(s: Seq<u8>) -> bool {
    forall|k: int| 0 < k < s.len() && #[trigger] s[k] == NEWLINE ==> s[k - 1] != CARRIAGE_RETURN
}

/// A text in which no line holds a conflict marker, with no `\r\n` line
/// end and no final `\n`, comes out of marker removal exactly as it went in.
pub proof fn lemma_unmarked_text_unchanged(content: Seq<u8>)
    requires
        forall|k: int| 0 <= k < lines(content).len() ==> !has_marker(#[trigger] lines(content)[k]),
        no_cr_before_newline(content),
        content.len() == 0 || content.last() != NEWLINE,
    ensures
        without_markers(content) == content,
{
    lemma_unmarked_keeps_all(lines(content));
    if content.len() > 0 {
        lemma_join_lines_from(content, 0, 0);
        assert(content.subrange(0, content.len() as int) =~= content);
    } else {
        assert(lines(content) == Seq::<Seq<u8>>::empty());
    }
}

/// A line of a text that holds no run of `c` holds no such run either.
proof fn lemma_lines_from_no_run(s: Seq<u8>, start: int, pos: int, c: u8, n: int)
    requires
        0 <= start <= pos <= s.len(),
        n >= 1,
        !contains_run(s, c, n),
    ensures
        forall|k: int|
            0 <= k < lines_from(s, start, pos).len() ==> !contains_run(
                #[trigger] lines_from(s, start, pos)[k],
                c,
                n,
            ),
    decreases s.len() - pos,
{
    if pos >= s.len() {
        if start < s.len() {
            lemma_subrange_no_run(s, start, s.len() as int, c, n);
            assert(lines_from(s, start, pos)[0] == s.subrange(start, s.len() as int));
        }
    } else if s[pos] == NEWLINE {
        let seg = s.subrange(start, pos);
        let first = strip_cr(seg);
        if seg.len() > 0 && seg.last() == CARRIAGE_RETURN {
            assert(first =~= s.subrange(start, pos - 1));
            lemma_subrange_no_run(s, start, pos - 1, c, n);
        } else {
            lemma_subrange_no_run(s, start, pos, c, n);
        }
        lemma_lines_from_no_run(s, pos + 1, pos + 1, c, n);
        let rest = lines_from(s, pos + 1, pos + 1);
        assert(lines_from(s, start, pos) == seq![first] + rest);
        assert forall|k: int|
            0 <= k < lines_from(s, start, pos).len() implies !contains_run(
            #[trigger] lines_from(s, start, pos)[k],
            c,
            n,
        ) by {
            if k > 0 {
                assert(lines_from(s, start, pos)[k] == rest[k - 1]);
            }
        }
    } else {
        lemma_lines_from_no_run(s, start, pos + 1, c, n);
        assert(lines_from(s, start, pos) == lines_from(s, start, pos + 1));
    }
}

/// A piece of a text that holds no run of `c` holds no such run either.
proof fn lemma_subrange_no_run(s: Seq<u8>, a: int, b: int, c: u8, n: int)
    requires
        0 <= a <= b <= s.len(),
        !contains_run(s, c, n),
    ensures
        !contains_run(s.subrange(a, b), c, n),
{
    let t = s.subrange(a, b);
    if contains_run(t, c, n) {
        let i = choose|i: int| 0 <= i && i + n <= t.len() && #[trigger] run_at(t, i, c, n);
        assert forall|k: int| 0 <= k < n implies #[trigger] s[a + i + k] == c by {
            assert(t[i + k] == c);
        }
        assert(run_at(s, a + i, c, n));
    }
}

/// Removing the markers a second time changes nothing, unless the first
/// removal left a `\r\n` line end or a final `\n`.
pub proof fn lemma_removal_idempotent(content: Seq<u8>)
    requires
        no_cr_before_newline(without_markers(content)),
        without_markers(content).len() == 0 || without_markers(content).last() != NEWLINE,
    ensures
        without_markers(without_markers(content)) == without_markers(content),
{
    let y = without_markers(content);
    lemma_without_markers_has_none(content);
    lemma_lines_from_no_run(y, 0, 0, 60u8, 7);
    lemma_lines_from_no_run(y, 0, 0, 61u8, 6);
    lemma_lines_from_no_run(y, 0, 0, 62u8, 6);
    lemma_unmarked_text_unchanged(y);
}

} // verus!
