//! What reading the index gives back of what was written to it.
use vstd::prelude::*;
use crate::order::{before, lemma_ordered_unique};
use crate::memory::index::{
    is_ranking, arrow_mark, em_separator, first_index, header_mark, header_topic, index_lines, is_header,
    is_pointer_line, kept_topics, lemma_first_index, lemma_lower_bound_range, lemma_parse_lines_append,
    line_entry, lines_used, lower_bound, parse_index, parse_lines, pointer_block, pointer_line,
    push_pointer, render_index, split_pointer, subtopic_of, title_lines, topic_after, topic_block,
    touch_topic, upserted_topics, written, collect_lines, capacity_note, EntryView, TopicLines,
    pointer_rest, mentions, ascii_arrow_mark,
};
use crate::text::{
    contains, is_clean_line, is_first_occurrence, is_ws, join_lines, lemma_lines_from_no_newline,
    lemma_lines_join, lemma_trim_id, lemma_trim_idem, lemma_trim_props, lines, occurs_at,
    starts_with, trim, truncated, utf8_len, skip_ws, back_ws, lemma_back_ws_range,
};

verus! {

/// A line that may stand under a topic: clean, and no header once trimmed.
pub open spec fn pointer_ok(p: Seq<char>) -> bool {
    is_clean_line(p) && !is_header(trim(p))
}

/// Every topic name is clean and every pointer line may stand under a topic.
pub open spec fn topics_ok(m: TopicLines) -> bool {
    &&& forall|i: int| 0 <= i < m.len() ==> is_clean_line(#[trigger] m[i].0)
    &&& forall|i: int, j: int|
        0 <= i < m.len() && 0 <= j < m[i].1.len() ==> pointer_ok(#[trigger] m[i].1[j])
}

/// The lines an index needs: a header and the pointers of each topic that has pointers.
pub open spec fn index_size(m: TopicLines) -> nat
    decreases m.len(),
{
    if m.len() == 0 {
        0
    } else {
        index_size(m.drop_last()) + if m.last().1.len() == 0 {
            0nat
        } else {
            1 + m.last().1.len()
        }
    }
}

proof fn lemma_touch_found(m: TopicLines, k: Seq<char>)
    ensures
        0 <= lower_bound(touch_topic(m, k), k) < touch_topic(m, k).len(),
        touch_topic(m, k)[lower_bound(touch_topic(m, k), k)].0 == k,
        touch_topic(m, k).len() >= m.len(),
{
    lemma_lower_bound_range(m, k);
    let i = lower_bound(m, k);
    if i < m.len() && m[i].0 == k {
    } else {
        crate::memory::index::lemma_lower_bound_insert(m, k, i);
    }
}

proof fn lemma_touch_ok(m: TopicLines, k: Seq<char>)
    requires
        topics_ok(m),
        is_clean_line(k),
    ensures
        topics_ok(touch_topic(m, k)),
{
    lemma_lower_bound_range(m, k);
    let i = lower_bound(m, k);
    if !(i < m.len() && m[i].0 == k) {
        let n = m.insert(i, (k, Seq::<Seq<char>>::empty()));
        assert forall|a: int| 0 <= a < n.len() implies is_clean_line(#[trigger] n[a].0) by {
            if a > i {
                assert(n[a] == m[a - 1]);
            } else if a < i {
                assert(n[a] == m[a]);
            }
        }
        assert forall|a: int, b: int| 0 <= a < n.len() && 0 <= b < n[a].1.len() implies pointer_ok(
            #[trigger] n[a].1[b],
        ) by {
            if a > i {
                assert(n[a] == m[a - 1]);
                assert(pointer_ok(m[a - 1].1[b]));
            } else if a < i {
                assert(n[a] == m[a]);
                assert(pointer_ok(m[a].1[b]));
            }
        }
    }
}

proof fn lemma_push_ok(m: TopicLines, k: Seq<char>, p: Seq<char>)
    requires
        topics_ok(m),
        is_clean_line(k),
        pointer_ok(p),
    ensures
        topics_ok(push_pointer(m, k, p)),
{
    lemma_touch_ok(m, k);
    lemma_touch_found(m, k);
    let m1 = touch_topic(m, k);
    let i = lower_bound(m1, k);
    let n = push_pointer(m, k, p);
    assert(n == m1.update(i, (k, m1[i].1.push(p))));
    assert forall|a: int| 0 <= a < n.len() implies is_clean_line(#[trigger] n[a].0) by {
        if a != i {
            assert(n[a] == m1[a]);
        }
    }
    assert forall|a: int, b: int| 0 <= a < n.len() && 0 <= b < n[a].1.len() implies pointer_ok(
        #[trigger] n[a].1[b],
    ) by {
        if a != i {
            assert(n[a] == m1[a]);
            assert(pointer_ok(m1[a].1[b]));
        } else if b < m1[i].1.len() {
            assert(n[a].1[b] == m1[i].1[b]);
            assert(pointer_ok(m1[i].1[b]));
        }
    }
}

/// A trimmed line holds no `'\n'` when the line holds none, and does not end with `'\r'`.
proof fn lemma_trim_clean(l: Seq<char>)
    requires
        !l.contains('\n'),
    ensures
        is_clean_line(trim(l)),
{
    lemma_trim_props(l);
    if trim(l).len() > 0 {
        assert(!is_ws(trim(l).last()));
    }
}

proof fn lemma_collect_ok(ls: Seq<Seq<char>>, cur: Seq<char>, m: TopicLines, path: Seq<char>)
    requires
        forall|k: int| 0 <= k < ls.len() ==> !(#[trigger] ls[k]).contains('\n'),
        is_clean_line(cur),
        topics_ok(m),
    ensures
        topics_ok(collect_lines(ls, cur, m, path)),
    decreases ls.len(),
{
    if ls.len() > 0 {
        let l = ls[0];
        let t = trim(l);
        assert(!l.contains('\n'));
        lemma_trim_props(l);
        lemma_trim_clean(l);
        assert forall|k: int| 0 <= k < ls.drop_first().len() implies !(#[trigger] ls.drop_first()[k]).contains('\n') by {
            assert(ls.drop_first()[k] == ls[k + 1]);
        }
        if is_header(t) {
            let h = header_topic(t);
            let u = t.skip(3);
            assert(!u.contains('\n')) by {
                if u.contains('\n') {
                    let j = choose|j: int| 0 <= j < u.len() && u[j] == '\n';
                    assert(t[j + 3] == '\n');
                    assert(t.contains('\n'));
                }
            }
            lemma_trim_clean(u);
            lemma_touch_ok(m, h);
            lemma_collect_ok(ls.drop_first(), h, touch_topic(m, h), path);
        } else if is_pointer_line(t) && !contains(t, path) {
            lemma_trim_idem(l);
            assert(!is_header(t)) by {
                if starts_with(t, arrow_mark()) {
                    assert(t[0] == t.take(2)[0]);
                } else {
                    assert(t[0] == t.take(3)[0]);
                }
                assert(t[0] == t.take(3)[0] || !starts_with(t, header_mark()));
            }
            lemma_push_ok(m, cur, t);
            lemma_collect_ok(ls.drop_first(), cur, push_pointer(m, cur, t), path);
        } else {
            lemma_collect_ok(ls.drop_first(), cur, m, path);
        }
    }
}

proof fn lemma_kept_ok(existing: Option<Seq<char>>, path: Seq<char>)
    ensures
        topics_ok(kept_topics(existing, path)),
{
    match existing {
        Some(s) => {
            lemma_lines_from_no_newline(s, 0);
            assert(is_clean_line(Seq::<char>::empty()));
            lemma_collect_ok(lines(s), Seq::empty(), Seq::empty(), path);
        },
        None => {},
    }
}

/// Every line written for well-formed topics is clean.
proof fn lemma_block_clean(m: TopicLines, budget: nat)
    requires
        topics_ok(m),
    ensures
        forall|k: int| 0 <= k < topic_block(m, budget).len() ==> is_clean_line(
            #[trigger] topic_block(m, budget)[k],
        ),
    decreases m.len(),
{
    if m.len() > 0 {
        let d = m.drop_last();
        assert forall|i: int| 0 <= i < d.len() implies is_clean_line(#[trigger] d[i].0) by {
            assert(d[i] == m[i]);
        }
        assert forall|i: int, j: int| 0 <= i < d.len() && 0 <= j < d[i].1.len() implies pointer_ok(
            #[trigger] d[i].1[j],
        ) by {
            assert(d[i] == m[i]);
            assert(pointer_ok(m[i].1[j]));
        }
        lemma_block_clean(d, budget);
        let c = lines_used(d, budget);
        let (k, ps) = m.last();
        let tb = topic_block(m, budget);
        let head = topic_block(d, budget);
        if ps.len() > 0 {
            let hl = header_mark() + k;
            let pb = pointer_block(ps, c + 1, budget);
            assert(is_clean_line(m[m.len() - 1].0));
            assert(is_clean_line(hl)) by {
                if hl.contains('\n') {
                    let j = choose|j: int| 0 <= j < hl.len() && hl[j] == '\n';
                    assert(j >= 3);
                    assert(k[j - 3] == '\n');
                    assert(k.contains('\n'));
                }
                if k.len() > 0 {
                    assert(hl.last() == k.last());
                }
            }
            let w = written(ps.len(), c + 1, budget);
            assert(is_clean_line(capacity_note())) by {
                reveal_strlit("_\u{26a0} Memory index at capacity. Run memory consolidation._");
            }
            assert(is_clean_line(Seq::<char>::empty()));
            assert forall|k2: int| 0 <= k2 < tb.len() implies is_clean_line(#[trigger] tb[k2]) by {
                let blk = seq![Seq::<char>::empty(), hl] + pb;
                assert(tb == head + blk);
                if k2 >= head.len() {
                    let q = k2 - head.len();
                    assert(tb[k2] == blk[q]);
                    if q >= 2 {
                        let r = q - 2;
                        assert(blk[q] == pb[r]);
                        if r < w {
                            assert(pb[r] == ps[r]);
                            assert(pointer_ok(m[m.len() - 1].1[r]));
                        } else {
                            assert(r == w || r == w + 1);
                        }
                    }
                }
            }
        } else {
            assert(tb == head);
        }
    }
}

proof fn lemma_used_le_size(m: TopicLines, budget: nat)
    ensures
        lines_used(m, budget) <= index_size(m),
    decreases m.len(),
{
    if m.len() > 0 {
        lemma_used_le_size(m.drop_last(), budget);
    }
}

proof fn lemma_size_prefix(m: TopicLines, j: int)
    requires
        0 <= j <= m.len(),
    ensures
        index_size(m.take(j)) <= index_size(m),
    decreases m.len(),
{
    if j < m.len() {
        assert(m.drop_last().take(j) =~= m.take(j));
        lemma_size_prefix(m.drop_last(), j);
    } else {
        assert(m.take(j) =~= m);
    }
}

/// What is written for a prefix of the topics is a prefix of what is written.
proof fn lemma_block_prefix(m: TopicLines, j: int, budget: nat) -> (x: Seq<Seq<char>>)
    requires
        0 <= j <= m.len(),
    ensures
        topic_block(m, budget) == topic_block(m.take(j), budget) + x,
    decreases m.len(),
{
    if j == m.len() {
        assert(m.take(j) =~= m);
        assert(topic_block(m, budget) =~= topic_block(m.take(j), budget) + Seq::<Seq<char>>::empty());
        Seq::empty()
    } else {
        assert(m.drop_last().take(j) =~= m.take(j));
        let x0 = lemma_block_prefix(m.drop_last(), j, budget);
        let tail = topic_block(m, budget).skip(topic_block(m.drop_last(), budget).len() as int);
        assert(topic_block(m, budget) =~= topic_block(m.drop_last(), budget) + tail);
        assert(topic_block(m, budget) =~= topic_block(m.take(j), budget) + (x0 + tail));
        x0 + tail
    }
}

/// Reading lines that hold no header leaves the topic as it was.
proof fn lemma_topic_after_pointers(ps: Seq<Seq<char>>, t: Seq<char>)
    requires
        forall|k: int| 0 <= k < ps.len() ==> !is_header(trim(#[trigger] ps[k])),
    ensures
        topic_after(ps, t) == t,
    decreases ps.len(),
{
    if ps.len() > 0 {
        assert(!is_header(trim(ps[0])));
        assert forall|k: int| 0 <= k < ps.drop_first().len() implies !is_header(trim(#[trigger] ps.drop_first()[k])) by {
            assert(ps.drop_first()[k] == ps[k + 1]);
        }
        lemma_topic_after_pointers(ps.drop_first(), t);
    }
}

/// The new pointer line reads back as the entry it was written for.
proof fn lemma_pointer_entry(topic: Seq<char>, path: Seq<char>, description: Seq<char>)
    requires
        trim(path) == path,
        trim(description) == description,
        !path.contains('\u{2014}'),
    ensures
        line_entry(topic, pointer_line(path, description)) == seq![
            EntryView {
                topic: topic,
                subtopic: subtopic_of(path),
                file_path: path,
                description: description,
            },
        ],
{
    let line = pointer_line(path, description);
    let sep = em_separator();
    assert(line.take(2) =~= arrow_mark());
    assert(is_pointer_line(line));
    let rest = pointer_rest(line);
    assert(rest =~= path + sep + description);
    let n = path.len() as int;
    assert(rest.subrange(n, n + 3) =~= sep);
    assert(occurs_at(rest, sep, n));
    assert forall|j: int| 0 <= j < n implies !#[trigger] occurs_at(rest, sep, j) by {
        if occurs_at(rest, sep, j) {
            assert(rest.subrange(j, j + 3)[1] == '\u{2014}');
            assert(rest[j + 1] == '\u{2014}');
            if j + 1 < n {
                assert(path[j + 1] == '\u{2014}');
                assert(path.contains('\u{2014}'));
            } else {
                assert(rest[n] == ' ');
            }
        }
    }
    assert(is_first_occurrence(rest, sep, n));
    lemma_first_index(rest, sep, n);
    assert(contains(rest, sep));
    assert(rest.take(n) =~= path);
    assert(rest.skip(n + 3) =~= description);
    assert(split_pointer(rest) == Some((path, description)));
}

/// Reading `a`, an empty line, the header of `topic`, lines without headers,
/// then `line`, gives the entry of `line` under `topic`.
proof fn lemma_read_block(
    a: Seq<Seq<char>>,
    topic: Seq<char>,
    ps0: Seq<Seq<char>>,
    line: Seq<char>,
    x: Seq<Seq<char>>,
    entry: EntryView,
)
    requires
        topic.len() > 0,
        trim(topic) == topic,
        forall|k: int| 0 <= k < ps0.len() ==> !is_header(trim(#[trigger] ps0[k])),
        trim(line) == line,
        !is_header(line),
        line_entry(topic, line) == seq![entry],
    ensures
        parse_lines(
            a + (seq![Seq::<char>::empty(), header_mark() + topic] + (ps0 + (seq![line] + x))),
            Seq::empty(),
        ).contains(entry),
{
    let hl = header_mark() + topic;
    let e = Seq::<char>::empty();
    let two = seq![Seq::<char>::empty(), hl];
    lemma_parse_lines_append(a, two + (ps0 + (seq![line] + x)), e);
    let ta = topic_after(a, e);
    lemma_parse_lines_append(two, ps0 + (seq![line] + x), ta);
    assert(trim(Seq::<char>::empty()) =~= Seq::<char>::empty());
    assert(!is_header(Seq::<char>::empty()));
    lemma_trim_props(topic);
    assert(hl[0] == '#');
    assert(hl.last() == topic.last());
    lemma_trim_id(hl);
    assert(hl.skip(3) =~= topic);
    assert(is_header(hl)) by {
        assert(hl.take(3) =~= header_mark());
    }
    assert(header_topic(hl) == topic);
    assert(two[0] == Seq::<char>::empty());
    assert(two.drop_first() =~= seq![hl]);
    assert(seq![hl][0] == hl);
    assert(seq![hl].drop_first() =~= Seq::<Seq<char>>::empty());
    assert(topic_after(seq![hl], ta) == topic_after(Seq::<Seq<char>>::empty(), topic));
    assert(topic_after(two, ta) == topic);
    lemma_parse_lines_append(ps0, seq![line] + x, topic);
    lemma_topic_after_pointers(ps0, topic);
    lemma_parse_lines_append(seq![line], x, topic);
    assert(seq![line][0] == line);
    assert(seq![line].drop_first() =~= Seq::<Seq<char>>::empty());
    assert(parse_lines(Seq::<Seq<char>>::empty(), topic) == Seq::<EntryView>::empty());
    assert(parse_lines(seq![line], topic) =~= seq![entry]);
    let p1 = parse_lines(a, e);
    let p2 = parse_lines(two, ta);
    let p3 = parse_lines(ps0, topic);
    let p5 = parse_lines(x, topic_after(seq![line], topic));
    let whole = parse_lines(a + (two + (ps0 + (seq![line] + x))), e);
    assert(whole == p1 + (p2 + (p3 + (seq![entry] + p5))));
    let at = (p1.len() + p2.len() + p3.len()) as int;
    assert(whole[at] == entry);
}

/// The lines of the index after filing a pointer: the pointer comes last in
/// its topic's block, after the topic's header.
proof fn lemma_upsert_lines(
    existing: Option<Seq<char>>,
    topic: Seq<char>,
    path: Seq<char>,
    description: Seq<char>,
    stamp: Seq<char>,
    limit: nat,
    budget: nat,
) -> (r: (Seq<Seq<char>>, Seq<Seq<char>>, Seq<Seq<char>>))
    requires
        !stamp.contains('\n'),
        !topic.contains('\n'),
        topic.len() > 0,
        trim(topic) == topic,
        pointer_ok(pointer_line(path, description)),
        utf8_len(pointer_line(path, description)) <= limit,
        index_size(upserted_topics(existing, topic, path, description, limit)) <= budget,
    ensures
        lines(render_index(stamp, upserted_topics(existing, topic, path, description, limit), budget))
            == r.0 + (seq![Seq::<char>::empty(), header_mark() + topic] + (r.1 + (seq![
            pointer_line(path, description)] + r.2))),
        forall|k: int| 0 <= k < r.1.len() ==> !is_header(trim(#[trigger] r.1[k])),
{
    let line = pointer_line(path, description);
    assert(truncated(line, limit) == line);
    let m = kept_topics(existing, path);
    lemma_kept_ok(existing, path);
    lemma_trim_props(topic);
    assert(is_clean_line(topic));
    lemma_push_ok(m, topic, line);
    lemma_touch_found(m, topic);
    lemma_touch_ok(m, topic);
    let m1 = touch_topic(m, topic);
    let i = lower_bound(m1, topic);
    let mp = push_pointer(m, topic, line);
    let ps0 = m1[i].1;
    let ps = ps0.push(line);
    assert(mp[i] == (topic, ps));
    let ls = index_lines(stamp, mp, budget);
    lemma_block_clean(mp, budget);
    let tl = title_lines(stamp);
    assert(is_clean_line(tl[0])) by {
        reveal_strlit("# DreamSwarm Memory Index");
    }
    assert(is_clean_line(tl[1])) by {
        reveal_strlit("_Last updated: ");
        reveal_strlit("_");
        let l1 = tl[1];
        if l1.contains('\n') {
            let j = choose|j: int| 0 <= j < l1.len() && l1[j] == '\n';
            assert(stamp[j - 15] == '\n');
            assert(stamp.contains('\n'));
        }
    }
    assert forall|k: int| 0 <= k < ls.len() implies is_clean_line(#[trigger] ls[k]) by {
        if k >= 2 {
            assert(ls[k] == topic_block(mp, budget)[k - 2]);
        }
    }
    lemma_lines_join(ls);
    let x = lemma_block_prefix(mp, i + 1, budget);
    let pre = mp.take(i);
    assert(mp.take(i + 1).drop_last() =~= pre);
    assert(mp.take(i + 1).last() == mp[i]);
    let c = lines_used(pre, budget);
    lemma_used_le_size(pre, budget);
    lemma_size_prefix(mp, i + 1);
    assert(index_size(mp.take(i + 1)) == index_size(pre) + 1 + ps.len());
    assert(written(ps.len(), c + 1, budget) == ps.len());
    assert(pointer_block(ps, c + 1, budget) =~= ps);
    let hl = header_mark() + topic;
    let a = tl + topic_block(pre, budget);
    assert(topic_block(mp.take(i + 1), budget) == topic_block(pre, budget) + (seq![Seq::<char>::empty(), hl] + ps));
    assert(ls =~= a + (seq![Seq::<char>::empty(), hl] + (ps0 + (seq![line] + x))));
    assert forall|k: int| 0 <= k < ps0.len() implies !is_header(trim(#[trigger] ps0[k])) by {
        assert(pointer_ok(m1[i].1[k]));
    }
    (a, ps0, x)
}

/// Reading the index after `upsert_pointer` files a pointer gives back that
/// pointer, under its topic, when the index has room for it and the topic, path
/// and description are single trimmed lines, the description is not empty, the
/// path holds no em dash and the pointer line needs no cut.
pub proof fn lemma_upsert_read_back(
    existing: Option<Seq<char>>,
    topic: Seq<char>,
    path: Seq<char>,
    description: Seq<char>,
    stamp: Seq<char>,
    limit: nat,
    budget: nat,
)
    requires
        !stamp.contains('\n'),
        !topic.contains('\n'),
        topic.len() > 0,
        trim(topic) == topic,
        !path.contains('\n'),
        trim(path) == path,
        !path.contains('\u{2014}'),
        !description.contains('\n'),
        description.len() > 0,
        trim(description) == description,
        utf8_len(pointer_line(path, description)) <= limit,
        index_size(upserted_topics(existing, topic, path, description, limit)) <= budget,
    ensures
        parse_index(
            render_index(stamp, upserted_topics(existing, topic, path, description, limit), budget),
        ).contains(
            EntryView {
                topic: topic,
                subtopic: subtopic_of(path),
                file_path: path,
                description: description,
            },
        ),
{
    let entry = EntryView {
        topic: topic,
        subtopic: subtopic_of(path),
        file_path: path,
        description: description,
    };
    let line = pointer_line(path, description);
    lemma_trim_props(description);
    assert(!is_ws(description.last()));
    assert(line[0] == '\u{2192}');
    assert(line.last() == description.last());
    lemma_trim_id(line);
    assert(!line.contains('\n')) by {
        if line.contains('\n') {
            let j = choose|j: int| 0 <= j < line.len() && line[j] == '\n';
            let n = path.len() as int;
            if 2 <= j < 2 + n {
                assert(path[j - 2] == '\n');
                assert(path.contains('\n'));
            } else if 2 + n + 3 <= j {
                assert(description[j - 5 - n] == '\n');
                assert(description.contains('\n'));
            }
        }
    }
    assert(!is_header(line)) by {
        assert(line.take(3)[0] == '\u{2192}');
    }
    assert(pointer_ok(line));
    let r = lemma_upsert_lines(existing, topic, path, description, stamp, limit, budget);
    lemma_pointer_entry(topic, path, description);
    lemma_read_block(r.0, topic, r.1, line, r.2, entry);
}

/// Every pointer line kept is trimmed and does not mention `path`.
pub open spec fn pointers_avoid(m: TopicLines, path: Seq<char>) -> bool {
    forall|i: int, j: int|
        0 <= i < m.len() && 0 <= j < m[i].1.len() ==> !contains(#[trigger] m[i].1[j], path) && trim(
            m[i].1[j],
        ) == m[i].1[j]
}

proof fn lemma_touch_avoids(m: TopicLines, k: Seq<char>, path: Seq<char>)
    requires
        pointers_avoid(m, path),
    ensures
        pointers_avoid(touch_topic(m, k), path),
{
    lemma_lower_bound_range(m, k);
    let i = lower_bound(m, k);
    if !(i < m.len() && m[i].0 == k) {
        let n = m.insert(i, (k, Seq::<Seq<char>>::empty()));
        assert forall|a: int, b: int| 0 <= a < n.len() && 0 <= b < n[a].1.len() implies !contains(
            #[trigger] n[a].1[b],
            path,
        ) && trim(n[a].1[b]) == n[a].1[b] by {
            if a > i {
                assert(n[a] == m[a - 1]);
                assert(m[a - 1].1[b] == n[a].1[b]);
            } else if a < i {
                assert(n[a] == m[a]);
                assert(m[a].1[b] == n[a].1[b]);
            }
        }
    }
}

proof fn lemma_push_avoids(m: TopicLines, k: Seq<char>, p: Seq<char>, path: Seq<char>)
    requires
        pointers_avoid(m, path),
        !contains(p, path),
        trim(p) == p,
    ensures
        pointers_avoid(push_pointer(m, k, p), path),
{
    lemma_touch_avoids(m, k, path);
    lemma_touch_found(m, k);
    let m1 = touch_topic(m, k);
    let i = lower_bound(m1, k);
    let n = push_pointer(m, k, p);
    assert(n == m1.update(i, (k, m1[i].1.push(p))));
    assert forall|a: int, b: int| 0 <= a < n.len() && 0 <= b < n[a].1.len() implies !contains(
        #[trigger] n[a].1[b],
        path,
    ) && trim(n[a].1[b]) == n[a].1[b] by {
        if a != i {
            assert(n[a] == m1[a]);
            assert(m1[a].1[b] == n[a].1[b]);
        } else if b < m1[i].1.len() {
            assert(n[a].1[b] == m1[i].1[b]);
        }
    }
}

proof fn lemma_collect_avoids(ls: Seq<Seq<char>>, cur: Seq<char>, m: TopicLines, path: Seq<char>)
    requires
        pointers_avoid(m, path),
    ensures
        pointers_avoid(collect_lines(ls, cur, m, path), path),
    decreases ls.len(),
{
    if ls.len() > 0 {
        let t = trim(ls[0]);
        if is_header(t) {
            lemma_touch_avoids(m, header_topic(t), path);
            lemma_collect_avoids(ls.drop_first(), header_topic(t), touch_topic(m, header_topic(t)), path);
        } else if is_pointer_line(t) && !contains(t, path) {
            lemma_trim_idem(ls[0]);
            lemma_push_avoids(m, cur, t, path);
            lemma_collect_avoids(ls.drop_first(), cur, push_pointer(m, cur, t), path);
        } else {
            lemma_collect_avoids(ls.drop_first(), cur, m, path);
        }
    }
}

/// A line whose first character is not whitespace keeps that character first
/// once trimmed.
proof fn lemma_trim_first(s: Seq<char>)
    requires
        s.len() > 0,
        !is_ws(s[0]),
    ensures
        trim(s).len() > 0,
        trim(s)[0] == s[0],
{
    lemma_back_ws_range(s, s.len() as int);
    assert(skip_ws(s, 0) == 0);
    if back_ws(s, s.len() as int) == 0 {
        assert(is_ws(s[0]));
    }
}

/// A line starting with a character other than the arrows' is no pointer
/// line, trimmed or not.
proof fn lemma_not_pointer(s: Seq<char>)
    requires
        s.len() > 0,
        !is_ws(s[0]),
        s[0] != '\u{2192}',
        s[0] != '-',
    ensures
        !is_pointer_line(trim(s)),
{
    lemma_trim_first(s);
    let t = trim(s);
    if starts_with(t, arrow_mark()) {
        assert(t.take(2)[0] == t[0]);
    }
    if starts_with(t, ascii_arrow_mark()) {
        assert(t.take(3)[0] == t[0]);
    }
}

/// No line written for the topics is a pointer line that mentions `path`.
proof fn lemma_block_avoids(m: TopicLines, budget: nat, path: Seq<char>)
    requires
        pointers_avoid(m, path),
    ensures
        forall|k: int|
            0 <= k < topic_block(m, budget).len() ==> !(is_pointer_line(trim(#[trigger] topic_block(m, budget)[k]))
                && contains(trim(topic_block(m, budget)[k]), path)),
    decreases m.len(),
{
    if m.len() > 0 {
        let d = m.drop_last();
        assert forall|i: int, j: int| 0 <= i < d.len() && 0 <= j < d[i].1.len() implies !contains(
            #[trigger] d[i].1[j],
            path,
        ) && trim(d[i].1[j]) == d[i].1[j] by {
            assert(d[i] == m[i]);
            assert(m[i].1[j] == d[i].1[j]);
        }
        lemma_block_avoids(d, budget, path);
        let c = lines_used(d, budget);
        let (k, ps) = m.last();
        let tb = topic_block(m, budget);
        let head = topic_block(d, budget);
        if ps.len() > 0 {
            let hl = header_mark() + k;
            let pb = pointer_block(ps, c + 1, budget);
            let w = written(ps.len(), c + 1, budget);
            assert(hl[0] == '#');
            assert(!is_ws('#'));
            lemma_not_pointer(hl);
            reveal_strlit("_\u{26a0} Memory index at capacity. Run memory consolidation._");
            assert(capacity_note()[0] == '_');
            assert(!is_ws('_'));
            lemma_not_pointer(capacity_note());
            assert(trim(Seq::<char>::empty()) =~= Seq::<char>::empty());
            assert forall|k2: int| 0 <= k2 < tb.len() implies !(is_pointer_line(trim(#[trigger] tb[k2])) && contains(
                trim(tb[k2]),
                path,
            )) by {
                let blk = seq![Seq::<char>::empty(), hl] + pb;
                assert(tb == head + blk);
                if k2 >= head.len() {
                    let q = k2 - head.len();
                    assert(tb[k2] == blk[q]);
                    if q >= 2 {
                        let r = q - 2;
                        assert(blk[q] == pb[r]);
                        if r < w {
                            assert(pb[r] == ps[r]);
                            assert(m[m.len() - 1].1[r] == ps[r]);
                        } else {
                            assert(r == w || r == w + 1);
                        }
                    }
                } else {
                    assert(tb[k2] == head[k2]);
                }
            }
        } else {
            assert(tb == head);
        }
    }
}

/// What one call undoes: once `remove_pointer` has dropped the pointers to
/// `path`, no pointer line of the index it writes mentions `path`, whatever
/// the index held before (a pointer just filed by `upsert_pointer` among
/// them), provided the time stamp is a single line.
pub proof fn lemma_remove_forgets(existing: Seq<char>, path: Seq<char>, stamp: Seq<char>, budget: nat)
    requires
        is_clean_line(stamp),
    ensures
        !mentions(render_index(stamp, kept_topics(Some(existing), path), budget), path),
{
    let m = kept_topics(Some(existing), path);
    lemma_kept_ok(Some(existing), path);
    lemma_collect_avoids(lines(existing), Seq::empty(), Seq::empty(), path);
    lemma_block_clean(m, budget);
    lemma_block_avoids(m, budget, path);
    let t0 = "# DreamSwarm Memory Index"@;
    let t1 = "_Last updated: "@ + stamp + "_"@;
    let ls = index_lines(stamp, m, budget);
    let tb = topic_block(m, budget);
    reveal_strlit("# DreamSwarm Memory Index");
    reveal_strlit("_Last updated: ");
    reveal_strlit("_");
    assert(ls == seq![t0, t1] + tb);
    assert(is_clean_line(t0));
    assert(is_clean_line(t1)) by {
        if t1.contains('\n') {
            let j = choose|j: int| 0 <= j < t1.len() && t1[j] == '\n';
            if 15 <= j < 15 + stamp.len() {
                assert(stamp[j - 15] == '\n');
                assert(stamp.contains('\n'));
            }
        }
    }
    assert forall|k: int| 0 <= k < ls.len() implies is_clean_line(#[trigger] ls[k]) by {
        if k >= 2 {
            assert(ls[k] == tb[k - 2]);
        }
    }
    lemma_lines_join(ls);
    assert(lines(render_index(stamp, m, budget)) == ls);
    assert(t0[0] == '#');
    assert(!is_ws('#'));
    lemma_not_pointer(t0);
    assert(t1[0] == '_');
    assert(!is_ws('_'));
    lemma_not_pointer(t1);
    if mentions(render_index(stamp, m, budget), path) {
        let k = choose|k: int|
            0 <= k < lines(render_index(stamp, m, budget)).len() && is_pointer_line(
                #[trigger] trim(lines(render_index(stamp, m, budget))[k]),
            ) && contains(trim(lines(render_index(stamp, m, budget))[k]), path);
        if k >= 2 {
            assert(ls[k] == tb[k - 2]);
        }
        assert(false);
    }
}

/// Relevance ranks the index entries one way only: two rankings of the same
/// scores are the same sequence, so `find_relevant` returns one definite
/// order (highest score first, ties in index order).
pub proof fn lemma_ranking_unique(scores: Seq<nat>, r1: Seq<int>, r2: Seq<int>)
    requires
        is_ranking(scores, r1),
        is_ranking(scores, r2),
    ensures
        r1 == r2,
{
    let key = |i: int| -(scores[i] as int);
    assert forall|k: int, l: int| 0 <= k < l < r1.len() implies before(key, #[trigger] r1[k], #[trigger] r1[l]) by {
        assert(scores[r1[k]] > scores[r1[l]] || (scores[r1[k]] == scores[r1[l]] && r1[k] < r1[l]));
    }
    assert forall|k: int, l: int| 0 <= k < l < r2.len() implies before(key, #[trigger] r2[k], #[trigger] r2[l]) by {
        assert(scores[r2[k]] > scores[r2[l]] || (scores[r2[k]] == scores[r2[l]] && r2[k] < r2[l]));
    }
    assert forall|x: int| r1.contains(x) <==> r2.contains(x) by {
        if r1.contains(x) {
            let a = choose|a: int| 0 <= a < r1.len() && r1[a] == x;
            assert(0 <= r1[a] < scores.len() && scores[r1[a]] > 0);
        }
        if r2.contains(x) {
            let a = choose|a: int| 0 <= a < r2.len() && r2[a] == x;
            assert(0 <= r2[a] < scores.len() && scores[r2[a]] > 0);
        }
    }
    lemma_ordered_unique(key, r1, r2);
}

} // verus!
