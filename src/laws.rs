//! What holds of the cleaner over all inputs, proved over the model of the
//! reconstructor and of line splitting.
use crate::reconstruct::{
    clean_spec, cleaned, cue_text, decimal, digit_chars, is_index_line, join_lines, machine_start,
    render, run_from, step, Machine, Pending,
};
use crate::rules::{classify_spec, Classification, RuleSet};
use crate::text::{lines_of, scan_char, scan_from, scan_start, strip_cr, LineScan};
use vstd::prelude::*;

verus! {

/// Running over two pieces of input in turn is running over their
/// concatenation.
pub proof fn lemma_run_concat(rules: RuleSet, m: Machine, a: Seq<Seq<char>>, b: Seq<Seq<char>>)
    ensures
        run_from(rules, m, a + b) == run_from(rules, run_from(rules, m, a), b),
    decreases b.len(),
{
    if b.len() == 0 {
        assert(a + b == a);
    } else {
        assert((a + b).drop_last() == a + b.drop_last());
        assert((a + b).last() == b.last());
        lemma_run_concat(rules, m, a, b.drop_last());
    }
}

/// Running over one line is one step.
pub proof fn lemma_run_one(rules: RuleSet, m: Machine, l: Seq<char>)
    ensures
        run_from(rules, m, seq![l]) == step(rules, m, l),
{
    assert(seq![l].drop_last() =~= Seq::<Seq<char>>::empty());
    assert(run_from(rules, m, Seq::<Seq<char>>::empty()) == m);
}

/// Lines that are all non-blank emit no cue.
pub proof fn lemma_nonblank_emit_nothing(rules: RuleSet, m: Machine, tail: Seq<Seq<char>>)
    requires
        forall|i: int| 0 <= i < tail.len() ==> (#[trigger] tail[i]).len() > 0,
    ensures
        run_from(rules, m, tail).cues == m.cues,
    decreases tail.len(),
{
    if tail.len() > 0 {
        lemma_nonblank_emit_nothing(rules, m, tail.drop_last());
    }
}

/// A trailing cue that no blank line ends is dropped: whatever non-blank
/// lines follow the input, the kept cues are those of the input alone.
pub proof fn lemma_unterminated_tail_dropped(
    rules: RuleSet,
    lines: Seq<Seq<char>>,
    tail: Seq<Seq<char>>,
)
    requires
        forall|i: int| 0 <= i < tail.len() ==> (#[trigger] tail[i]).len() > 0,
    ensures
        cleaned(rules, lines + tail) == cleaned(rules, lines),
{
    lemma_run_concat(rules, machine_start(), lines, tail);
    lemma_nonblank_emit_nothing(rules, run_from(rules, machine_start(), lines), tail);
}

/// Once suppressing, non-blank lines keep the machine suppressing.
proof fn lemma_suppressed_stays(rules: RuleSet, m: Machine, t: Seq<Seq<char>>)
    requires
        m.pending is Suppressing,
        forall|i: int| 0 <= i < t.len() ==> (#[trigger] t[i]).len() > 0,
    ensures
        run_from(rules, m, t) == m,
    decreases t.len(),
{
    if t.len() > 0 {
        lemma_suppressed_stays(rules, m, t.drop_last());
    }
}

/// A blank line leaves the machine collecting an empty cue.
proof fn lemma_after_blank(rules: RuleSet, m: Machine, lines: Seq<Seq<char>>)
    requires
        lines.len() == 0 || lines.last().len() == 0,
        m.pending == Pending::Collecting(Seq::<Seq<char>>::empty()),
    ensures
        run_from(rules, m, lines).pending == Pending::Collecting(Seq::<Seq<char>>::empty()),
{
    if lines.len() > 0 {
        assert(!is_index_line(lines.last()));
        if let Pending::Collecting(body) = run_from(rules, m, lines.drop_last()).pending {
            if body.len() == 0 {
                assert(body =~= Seq::<Seq<char>>::empty());
            }
        }
    }
}

/// A cue that holds an attribution line is dropped whole, together with the
/// lines before that line: removing the cue from the input, wherever it
/// stands, leaves the kept cues as they were. The cue is a maximal run of
/// non-blank lines: the input before it is empty or ends in a blank line,
/// and the input after it is empty or starts with a blank line.
pub proof fn lemma_poisoned_cue_dropped(
    rules: RuleSet,
    before: Seq<Seq<char>>,
    cue: Seq<Seq<char>>,
    after: Seq<Seq<char>>,
    bad: int,
)
    requires
        before.len() == 0 || before.last().len() == 0,
        after.len() == 0 || after[0].len() == 0,
        forall|i: int| 0 <= i < cue.len() ==> (#[trigger] cue[i]).len() > 0,
        0 <= bad < cue.len(),
        !is_index_line(cue[bad]),
        classify_spec(rules, cue[bad]) == Classification::Trash,
    ensures
        cleaned(rules, before + cue + after) == cleaned(rules, before + after),
{
    let m0 = run_from(rules, machine_start(), before);
    lemma_after_blank(rules, machine_start(), before);
    let head = cue.take(bad);
    let rest = cue.subrange(bad + 1, cue.len() as int);
    assert(cue == head + seq![cue[bad]] + rest);
    lemma_run_concat(rules, machine_start(), before, cue);
    lemma_run_concat(rules, m0, head + seq![cue[bad]], rest);
    lemma_run_concat(rules, m0, head, seq![cue[bad]]);
    let m1 = run_from(rules, m0, head);
    lemma_nonblank_emit_nothing(rules, m0, head);
    lemma_run_one(rules, m1, cue[bad]);
    let m2 = run_from(rules, m1, seq![cue[bad]]);
    assert(m2.pending is Suppressing);
    assert(m2.cues == m0.cues);
    assert forall|i: int| 0 <= i < rest.len() implies (#[trigger] rest[i]).len() > 0 by {
        assert(rest[i] == cue[bad + 1 + i]);
    }
    lemma_suppressed_stays(rules, m2, rest);
    let m3 = run_from(rules, m0, cue);
    assert(m3 == m2);
    if after.len() == 0 {
        assert(before + cue + after == before + cue);
        assert(before + after == before);
    } else {
        let blank = seq![Seq::<char>::empty()];
        let tail = after.drop_first();
        assert(after[0] =~= Seq::<char>::empty());
        assert(after =~= blank + tail);
        assert(!is_index_line(Seq::<char>::empty()));
        lemma_run_one(rules, m3, Seq::<char>::empty());
        lemma_run_one(rules, m0, Seq::<char>::empty());
        assert(run_from(rules, m3, blank) == m0);
        assert(run_from(rules, m0, blank) == m0);
        lemma_run_concat(rules, machine_start(), before + cue, after);
        lemma_run_concat(rules, m3, blank, tail);
        lemma_run_concat(rules, machine_start(), before, after);
        lemma_run_concat(rules, m0, blank, tail);
    }
}

/// A line that can stand in a kept cue: non-blank, not an index line, not
/// classified as attribution, and without a line feed.
pub open spec fn good_line(rules: RuleSet, l: Seq<char>) -> bool {
    &&& l.len() > 0
    &&& !is_index_line(l)
    &&& classify_spec(rules, l) != Classification::Trash
    &&& forall|i: int| 0 <= i < l.len() ==> l[i] != '\n'
}

pub open spec fn good_lines(rules: RuleSet, ls: Seq<Seq<char>>) -> bool {
    forall|j: int| 0 <= j < ls.len() ==> good_line(rules, #[trigger] ls[j])
}

/// Every kept cue is non-empty and made of good lines, and so is the cue
/// being collected.
pub open spec fn machine_good(rules: RuleSet, m: Machine) -> bool {
    &&& forall|k: int|
        0 <= k < m.cues.len() ==> (#[trigger] m.cues[k]).len() > 0 && good_lines(rules, m.cues[k])
    &&& m.pending matches Pending::Collecting(body) ==> good_lines(rules, body)
}

pub open spec fn no_newline(l: Seq<char>) -> bool {
    forall|i: int| 0 <= i < l.len() ==> l[i] != '\n'
}

proof fn lemma_run_good(rules: RuleSet, m: Machine, lines: Seq<Seq<char>>)
    requires
        machine_good(rules, m),
        forall|i: int| 0 <= i < lines.len() ==> no_newline(#[trigger] lines[i]),
    ensures
        machine_good(rules, run_from(rules, m, lines)),
    decreases lines.len(),
{
    if lines.len() > 0 {
        lemma_run_good(rules, m, lines.drop_last());
        let p = run_from(rules, m, lines.drop_last());
        let l = lines.last();
        assert(no_newline(lines[lines.len() - 1]));
        let q = step(rules, p, l);
        if let Pending::Collecting(body) = p.pending {
            if !is_index_line(l) && l.len() > 0 && classify_spec(rules, l) != Classification::Trash {
                assert(good_lines(rules, body.push(l))) by {
                    assert forall|j: int| 0 <= j < body.push(l).len() implies good_line(
                        rules,
                        #[trigger] body.push(l)[j],
                    ) by {
                        if j < body.len() {
                            assert(body.push(l)[j] == body[j]);
                        }
                    }
                }
            }
            if l.len() == 0 && body.len() > 0 {
                assert forall|k: int| 0 <= k < q.cues.len() implies (#[trigger] q.cues[k]).len()
                    > 0 && good_lines(rules, q.cues[k]) by {
                    if k < p.cues.len() {
                        assert(q.cues[k] == p.cues[k]);
                    }
                }
            }
        }
    }
}

proof fn lemma_scan_no_newline(text: Seq<char>)
    ensures
        forall|i: int|
            0 <= i < scan_from(scan_start(), text).done.len() ==> no_newline(
                #[trigger] scan_from(scan_start(), text).done[i],
            ),
        no_newline(scan_from(scan_start(), text).current),
    decreases text.len(),
{
    if text.len() > 0 {
        lemma_scan_no_newline(text.drop_last());
        let st = scan_from(scan_start(), text.drop_last());
        let c = text.last();
        if c == '\n' {
            let s = strip_cr(st.current);
            assert(no_newline(s));
            assert forall|i: int| 0 <= i < st.done.push(s).len() implies no_newline(
                #[trigger] st.done.push(s)[i],
            ) by {
                if i < st.done.len() {
                    assert(st.done.push(s)[i] == st.done[i]);
                }
            }
        } else {
            assert(no_newline(st.current.push(c)));
        }
    }
}

/// No line of a text holds a line feed.
pub proof fn lemma_lines_no_newline(text: Seq<char>)
    ensures
        forall|i: int| 0 <= i < lines_of(text).len() ==> no_newline(#[trigger] lines_of(text)[i]),
{
    lemma_scan_no_newline(text);
    let st = scan_from(scan_start(), text);
    if st.current.len() > 0 {
        assert forall|i: int| 0 <= i < lines_of(text).len() implies no_newline(
            #[trigger] lines_of(text)[i],
        ) by {
            if i < st.done.len() {
                assert(st.done.push(st.current)[i] == st.done[i]);
            }
        }
    }
}

/// The kept cues of a text are non-empty and made of good lines.
pub proof fn lemma_cleaned_good(rules: RuleSet, text: Seq<char>)
    ensures
        forall|k: int|
            0 <= k < cleaned(rules, lines_of(text)).len() ==> (#[trigger] cleaned(
                rules,
                lines_of(text),
            )[k]).len() > 0 && good_lines(rules, cleaned(rules, lines_of(text))[k]),
{
    lemma_lines_no_newline(text);
    lemma_run_good(rules, machine_start(), lines_of(text));
}

/// No line of a kept cue is an index line from the input: a non-empty line of
/// numeric characters never reaches the output.
pub proof fn lemma_no_index_lines(rules: RuleSet, text: Seq<char>)
    ensures
        forall|k: int, j: int|
            0 <= k < cleaned(rules, lines_of(text)).len() && 0 <= j < cleaned(
                rules,
                lines_of(text),
            )[k].len() ==> !is_index_line(#[trigger] cleaned(rules, lines_of(text))[k][j]),
{
    lemma_cleaned_good(rules, text);
    assert forall|k: int, j: int|
        0 <= k < cleaned(rules, lines_of(text)).len() && 0 <= j < cleaned(
            rules,
            lines_of(text),
        )[k].len() implies !is_index_line(#[trigger] cleaned(rules, lines_of(text))[k][j]) by {
        assert(good_lines(rules, cleaned(rules, lines_of(text))[k]));
        assert(good_line(rules, cleaned(rules, lines_of(text))[k][j]));
    }
}

/// The lines of a cue without the index lines it was numbered with.
pub open spec fn kept_lines(cue: Seq<Seq<char>>) -> Seq<Seq<char>>
    decreases cue.len(),
{
    if cue.len() == 0 {
        Seq::empty()
    } else if is_index_line(cue.last()) {
        kept_lines(cue.drop_last())
    } else {
        kept_lines(cue.drop_last()).push(cue.last())
    }
}

/// `n` blank lines.
pub open spec fn blank_lines(n: nat) -> Seq<Seq<char>> {
    Seq::new(n, |i: int| Seq::<char>::empty())
}

/// A document made of the given cues, cue `k` followed by `gaps[k]` blank
/// lines.
pub open spec fn spaced_document(cues: Seq<Seq<Seq<char>>>, gaps: Seq<nat>) -> Seq<Seq<char>>
    decreases cues.len(),
{
    if cues.len() == 0 || gaps.len() == 0 {
        Seq::empty()
    } else {
        spaced_document(cues.drop_last(), gaps.drop_last()) + cues.last() + blank_lines(gaps.last())
    }
}

/// A cue with no blank line and no attribution line.
pub open spec fn clean_cue(rules: RuleSet, cue: Seq<Seq<char>>) -> bool {
    forall|i: int|
        0 <= i < cue.len() ==> (#[trigger] cue[i]).len() > 0 && (!is_index_line(cue[i])
            ==> classify_spec(rules, cue[i]) != Classification::Trash)
}

proof fn lemma_run_clean_cue(rules: RuleSet, cues: Seq<Seq<Seq<char>>>, cue: Seq<Seq<char>>)
    requires
        clean_cue(rules, cue),
    ensures
        run_from(
            rules,
            Machine { pending: Pending::Collecting(Seq::empty()), cues },
            cue,
        ) == (Machine { pending: Pending::Collecting(kept_lines(cue)), cues }),
    decreases cue.len(),
{
    if cue.len() > 0 {
        assert forall|i: int| 0 <= i < cue.drop_last().len() implies (#[trigger] cue.drop_last()[i]).len() > 0
            && (!is_index_line(cue.drop_last()[i]) ==> classify_spec(rules, cue.drop_last()[i])
            != Classification::Trash) by {
            assert(cue.drop_last()[i] == cue[i]);
        }
        lemma_run_clean_cue(rules, cues, cue.drop_last());
        assert(cue.last() == cue[cue.len() - 1]);
    }
}

/// Blank lines do nothing while no cue is being collected.
proof fn lemma_run_blanks(rules: RuleSet, m: Machine, n: nat)
    requires
        m.pending == Pending::Collecting(Seq::<Seq<char>>::empty()),
    ensures
        run_from(rules, m, blank_lines(n)) == m,
    decreases n,
{
    if n > 0 {
        assert(blank_lines(n).drop_last() =~= blank_lines((n - 1) as nat));
        lemma_run_blanks(rules, m, (n - 1) as nat);
        assert(blank_lines(n).last() =~= Seq::<char>::empty());
        assert(!is_index_line(Seq::<char>::empty()));
    }
}

proof fn lemma_run_spaced(
    rules: RuleSet,
    done: Seq<Seq<Seq<char>>>,
    cues: Seq<Seq<Seq<char>>>,
    gaps: Seq<nat>,
)
    requires
        gaps.len() == cues.len(),
        forall|k: int| 0 <= k < gaps.len() ==> #[trigger] gaps[k] >= 1,
        forall|k: int|
            0 <= k < cues.len() ==> clean_cue(rules, #[trigger] cues[k]) && kept_lines(cues[k]).len()
                > 0,
    ensures
        run_from(
            rules,
            Machine { pending: Pending::Collecting(Seq::empty()), cues: done },
            spaced_document(cues, gaps),
        ) == (Machine {
            pending: Pending::Collecting(Seq::empty()),
            cues: done + cues.map_values(|c: Seq<Seq<char>>| kept_lines(c)),
        }),
    decreases cues.len(),
{
    let m = Machine { pending: Pending::Collecting(Seq::empty()), cues: done };
    if cues.len() == 0 {
        assert(done + cues.map_values(|c: Seq<Seq<char>>| kept_lines(c)) =~= done);
    } else {
        let init = cues.drop_last();
        let ginit = gaps.drop_last();
        assert forall|k: int| 0 <= k < init.len() implies clean_cue(rules, #[trigger] init[k])
            && kept_lines(init[k]).len() > 0 by {
            assert(init[k] == cues[k]);
        }
        assert forall|k: int| 0 <= k < ginit.len() implies #[trigger] ginit[k] >= 1 by {
            assert(ginit[k] == gaps[k]);
        }
        lemma_run_spaced(rules, done, init, ginit);
        let last = cues.last();
        assert(last == cues[cues.len() - 1]);
        let g = gaps.last();
        assert(g == gaps[gaps.len() - 1]);
        let kept0 = done + init.map_values(|c: Seq<Seq<char>>| kept_lines(c));
        let m1 = Machine { pending: Pending::Collecting(Seq::empty()), cues: kept0 };
        let d0 = spaced_document(init, ginit);
        lemma_run_concat(rules, m, d0 + last, blank_lines(g));
        lemma_run_concat(rules, m, d0, last);
        lemma_run_clean_cue(rules, kept0, last);
        let m2 = Machine { pending: Pending::Collecting(kept_lines(last)), cues: kept0 };
        let blank = seq![Seq::<char>::empty()];
        assert(blank_lines(g) =~= blank + blank_lines((g - 1) as nat));
        lemma_run_concat(rules, m2, blank, blank_lines((g - 1) as nat));
        lemma_run_one(rules, m2, Seq::<char>::empty());
        assert(!is_index_line(Seq::<char>::empty()));
        let m3 = Machine { pending: Pending::Collecting(Seq::empty()), cues: kept0.push(kept_lines(last)) };
        assert(run_from(rules, m2, blank) == m3);
        lemma_run_blanks(rules, m3, (g - 1) as nat);
        assert(kept0.push(kept_lines(last)) =~= done + cues.map_values(
            |c: Seq<Seq<char>>| kept_lines(c),
        ));
    }
}

/// A document whose cues hold no attribution line keeps every cue, in
/// order, each with its lines unchanged but for the index lines it was
/// numbered with. The document may open with blank lines, and each cue is
/// followed by one or more blank lines; every cue has a line that is not an
/// index line.
pub proof fn lemma_clean_cues_kept(
    rules: RuleSet,
    lead: nat,
    cues: Seq<Seq<Seq<char>>>,
    gaps: Seq<nat>,
)
    requires
        gaps.len() == cues.len(),
        forall|k: int| 0 <= k < gaps.len() ==> #[trigger] gaps[k] >= 1,
        forall|k: int|
            0 <= k < cues.len() ==> clean_cue(rules, #[trigger] cues[k]) && kept_lines(cues[k]).len()
                > 0,
    ensures
        cleaned(rules, blank_lines(lead) + spaced_document(cues, gaps)).len() == cues.len(),
        forall|k: int|
            0 <= k < cues.len() ==> #[trigger] cleaned(
                rules,
                blank_lines(lead) + spaced_document(cues, gaps),
            )[k] == kept_lines(cues[k]),
{
    lemma_run_concat(rules, machine_start(), blank_lines(lead), spaced_document(cues, gaps));
    lemma_run_blanks(rules, machine_start(), lead);
    lemma_run_spaced(rules, Seq::empty(), cues, gaps);
    assert(Seq::<Seq<Seq<char>>>::empty() + cues.map_values(|c: Seq<Seq<char>>| kept_lines(c))
        =~= cues.map_values(|c: Seq<Seq<char>>| kept_lines(c)));
}

proof fn lemma_scan_concat(st: LineScan, a: Seq<char>, b: Seq<char>)
    ensures
        scan_from(st, a + b) == scan_from(scan_from(st, a), b),
    decreases b.len(),
{
    if b.len() == 0 {
        assert(a + b == a);
    } else {
        assert((a + b).drop_last() == a + b.drop_last());
        assert((a + b).last() == b.last());
        lemma_scan_concat(st, a, b.drop_last());
    }
}

proof fn lemma_scan_plain(st: LineScan, l: Seq<char>)
    requires
        no_newline(l),
    ensures
        scan_from(st, l) == (LineScan { done: st.done, current: st.current + l }),
    decreases l.len(),
{
    if l.len() == 0 {
        assert(st.current + l == st.current);
    } else {
        assert(no_newline(l.drop_last()));
        lemma_scan_plain(st, l.drop_last());
        assert(l.last() == l[l.len() - 1]);
        assert((st.current + l.drop_last()).push(l.last()) == st.current + l);
    }
}

/// A line not ending in a carriage return.
pub open spec fn no_trailing_cr(l: Seq<char>) -> bool {
    l.len() == 0 || l.last() != '\r'
}

proof fn lemma_scan_line(st: LineScan, l: Seq<char>)
    requires
        st.current.len() == 0,
        no_newline(l),
        no_trailing_cr(l),
    ensures
        scan_from(st, l.push('\n')) == (LineScan { done: st.done.push(l), current: Seq::empty() }),
{
    lemma_scan_plain(st, l);
    assert(l.push('\n').drop_last() == l);
    assert(st.current + l == l);
}

/// Body lines that a reader gives back unchanged.
pub open spec fn rereadable(body: Seq<Seq<char>>) -> bool {
    forall|j: int| 0 <= j < body.len() ==> no_newline(#[trigger] body[j]) && no_trailing_cr(body[j])
}

proof fn lemma_scan_join(st: LineScan, body: Seq<Seq<char>>)
    requires
        st.current.len() == 0,
        rereadable(body),
    ensures
        scan_from(st, join_lines(body)) == (LineScan { done: st.done + body, current: Seq::empty() }),
    decreases body.len(),
{
    if body.len() == 0 {
        assert(st.done + body == st.done);
        assert(st.current =~= Seq::<char>::empty());
        assert(scan_from(st, Seq::<char>::empty()) == st);
    } else {
        let init = body.drop_last();
        assert forall|j: int| 0 <= j < init.len() implies no_newline(#[trigger] init[j])
            && no_trailing_cr(init[j]) by {
            assert(init[j] == body[j]);
        }
        lemma_scan_join(st, init);
        lemma_scan_concat(st, join_lines(init), body.last().push('\n'));
        assert(body.last() == body[body.len() - 1]);
        let st1 = LineScan { done: st.done + init, current: Seq::empty() };
        lemma_scan_line(st1, body.last());
        assert((st.done + init).push(body.last()) == st.done + body);
    }
}

proof fn lemma_decimal_digits(n: nat)
    ensures
        decimal(n).len() > 0,
        forall|i: int| 0 <= i < decimal(n).len() ==> '0' <= #[trigger] decimal(n)[i] <= '9',
    decreases n,
{
    if n >= 10 {
        lemma_decimal_digits(n / 10);
        let d = digit_chars()[(n % 10) as int];
        assert forall|i: int| 0 <= i < decimal(n).len() implies '0' <= #[trigger] decimal(n)[i]
            <= '9' by {
            if i < decimal(n / 10).len() {
                assert(decimal(n)[i] == decimal(n / 10)[i]);
            }
        }
    }
}

/// The lines of written-out cues: for each, its index line, its body lines
/// and a blank line.
pub open spec fn document_lines(cues: Seq<Seq<Seq<char>>>) -> Seq<Seq<char>>
    decreases cues.len(),
{
    if cues.len() == 0 {
        Seq::empty()
    } else {
        document_lines(cues.drop_last()) + seq![decimal(cues.len())] + cues.last() + seq![
            Seq::<char>::empty(),
        ]
    }
}

proof fn lemma_scan_render(cues: Seq<Seq<Seq<char>>>)
    requires
        forall|k: int| 0 <= k < cues.len() ==> rereadable(#[trigger] cues[k]),
    ensures
        scan_from(scan_start(), render(cues)) == (LineScan {
            done: document_lines(cues),
            current: Seq::empty(),
        }),
    decreases cues.len(),
{
    if cues.len() == 0 {
        assert(scan_from(scan_start(), Seq::<char>::empty()) == scan_start());
    } else {
        let init = cues.drop_last();
        assert forall|k: int| 0 <= k < init.len() implies rereadable(#[trigger] init[k]) by {
            assert(init[k] == cues[k]);
        }
        lemma_scan_render(init);
        let last = cues.last();
        assert(last == cues[cues.len() - 1]);
        let num = decimal(cues.len());
        let body = join_lines(last);
        let st0 = LineScan { done: document_lines(init), current: Seq::empty() };
        lemma_scan_concat(scan_start(), render(init), cue_text(cues.len(), body));
        lemma_scan_concat(st0, num.push('\n'), body.push('\n'));
        lemma_decimal_digits(cues.len());
        assert(no_newline(num));
        lemma_scan_line(st0, num);
        let st1 = LineScan { done: document_lines(init).push(num), current: Seq::empty() };
        assert(body.push('\n') == body + seq!['\n']);
        lemma_scan_concat(st1, body, seq!['\n']);
        lemma_scan_join(st1, last);
        let st2 = LineScan { done: st1.done + last, current: Seq::empty() };
        assert(seq!['\n'].drop_last() =~= Seq::<char>::empty());
        assert(scan_from(st2, Seq::<char>::empty()) == st2);
        assert(scan_from(st2, seq!['\n']) == scan_char(st2, '\n'));
        assert(strip_cr(Seq::<char>::empty()) == Seq::<char>::empty());
        assert(render(cues) == render(init) + cue_text(cues.len(), body));
        assert(scan_from(st1, body.push('\n')) == scan_char(st2, '\n'));
        assert((document_lines(init).push(num) + last).push(Seq::<char>::empty())
            =~= document_lines(init) + seq![num] + last + seq![Seq::<char>::empty()]);
    }
}

proof fn lemma_run_good_body(rules: RuleSet, cues: Seq<Seq<Seq<char>>>, body: Seq<Seq<char>>)
    requires
        good_lines(rules, body),
    ensures
        run_from(
            rules,
            Machine { pending: Pending::Collecting(Seq::empty()), cues },
            body,
        ) == (Machine { pending: Pending::Collecting(body), cues }),
    decreases body.len(),
{
    if body.len() == 0 {
        assert(body =~= Seq::<Seq<char>>::empty());
    } else {
        let init = body.drop_last();
        assert forall|j: int| 0 <= j < init.len() implies good_line(rules, #[trigger] init[j]) by {
            assert(init[j] == body[j]);
        }
        lemma_run_good_body(rules, cues, init);
        assert(body.last() == body[body.len() - 1]);
        assert(good_line(rules, body.last()));
        assert(init.push(body.last()) == body);
    }
}

proof fn lemma_run_document(rules: RuleSet, cues: Seq<Seq<Seq<char>>>)
    requires
        forall|k: int|
            0 <= k < cues.len() ==> (#[trigger] cues[k]).len() > 0 && good_lines(rules, cues[k]),
    ensures
        run_from(rules, machine_start(), document_lines(cues)) == (Machine {
            pending: Pending::Collecting(Seq::empty()),
            cues,
        }),
    decreases cues.len(),
{
    if cues.len() == 0 {
        assert(cues == Seq::<Seq<Seq<char>>>::empty());
    } else {
        let init = cues.drop_last();
        assert forall|k: int| 0 <= k < init.len() implies (#[trigger] init[k]).len() > 0
            && good_lines(rules, init[k]) by {
            assert(init[k] == cues[k]);
        }
        lemma_run_document(rules, init);
        let last = cues.last();
        assert(last == cues[cues.len() - 1]);
        let num = decimal(cues.len());
        let m0 = Machine { pending: Pending::Collecting(Seq::empty()), cues: init };
        let d0 = document_lines(init);
        lemma_run_concat(rules, machine_start(), d0 + seq![num] + last, seq![Seq::<char>::empty()]);
        lemma_run_concat(rules, machine_start(), d0 + seq![num], last);
        lemma_run_concat(rules, machine_start(), d0, seq![num]);
        lemma_run_one(rules, m0, num);
        lemma_decimal_digits(cues.len());
        assert(is_index_line(num));
        lemma_run_good_body(rules, init, last);
        lemma_run_one(
            rules,
            Machine { pending: Pending::Collecting(last), cues: init },
            Seq::<char>::empty(),
        );
        assert(!is_index_line(Seq::<char>::empty()));
        assert(init.push(last) == cues);
    }
}

/// Cleaning the cleaned text changes nothing: every kept cue is kept again,
/// with the same lines and the same index. This holds where no kept line
/// ends in a carriage return, which a second reading would strip.
pub proof fn lemma_clean_idempotent(rules: RuleSet, text: Seq<char>)
    requires
        forall|k: int| 0 <= k < cleaned(rules, lines_of(text)).len() ==> rereadable(
            #[trigger] cleaned(rules, lines_of(text))[k],
        ),
    ensures
        clean_spec(rules, clean_spec(rules, text)) == clean_spec(rules, text),
{
    let cues = cleaned(rules, lines_of(text));
    lemma_cleaned_good(rules, text);
    lemma_scan_render(cues);
    assert(lines_of(render(cues)) == document_lines(cues));
    lemma_run_document(rules, cues);
}

} // verus!
