//! Splitting decoded text into lines, the way a buffered reader yields them:
//! each line ends at a line feed, a carriage return just before that line
//! feed is dropped, and a last segment without a line feed is a line when it
//! is not empty.
use vstd::prelude::*;

verus! {

/// The line with one carriage return at its end removed, if it has one.
pub open spec fn strip_cr(line: Seq<char>) -> Seq<char> {
    if line.len() > 0 && line.last() == '\r' {
        line.drop_last()
    } else {
        line
    }
}

/// The state of a line scan: the finished lines and the line in progress.
pub ghost struct LineScan {
    pub done: Seq<Seq<char>>,
    pub current: Seq<char>,
}

pub open spec fn scan_char(st: LineScan, c: char) -> LineScan {
    if c == '\n' {
        LineScan { done: st.done.push(strip_cr(st.current)), current: Seq::empty() }
    } else {
        LineScan { done: st.done, current: st.current.push(c) }
    }
}

/// The scan state after reading `text` from state `st`.
pub open spec fn scan_from(st: LineScan, text: Seq<char>) -> LineScan
    decreases text.len(),
{
    if text.len() == 0 {
        st
    } else {
        scan_char(scan_from(st, text.drop_last()), text.last())
    }
}

pub open spec fn scan_start() -> LineScan {
    LineScan { done: Seq::empty(), current: Seq::empty() }
}

/// The lines of a text.
pub open spec fn lines_of(text: Seq<char>) -> Seq<Seq<char>> {
    let st = scan_from(scan_start(), text);
    if st.current.len() == 0 {
        st.done
    } else {
        st.done.push(st.current)
    }
}

/// The views of a vector of strings.
pub open spec fn views(v: Seq<String>) -> Seq<Seq<char>> {
    v.map_values(|s: String| s@)
}

/// Relies on `String::push`: appends one character.
#[verifier::external_body]
pub(crate) fn push_char(s: &mut String, c: char)
    ensures
        final(s)@ == old(s)@.push(c),
{
    s.push(c);
}

/// Splits a text into its lines.
pub fn split_lines(text: &str) -> (r: Vec<String>)
    ensures
        views(r@) == lines_of(text@),
        r.len() <= text@.len(),
{
    let mut lines: Vec<String> = Vec::new();
    let mut cur = String::new();
    let mut cr = false;
    for c in it: text.chars()
        invariant
            it.seq() == text@,
            ({
                let st = scan_from(scan_start(), text@.take(it.index() as int));
                &&& views(lines@) == st.done
                &&& st.current == if cr { cur@.push('\r') } else { cur@ }
            }),
            !cr ==> (cur@.len() == 0 || cur@.last() != '\r'),
            lines.len() + (if cur@.len() > 0 || cr { 1int } else { 0int }) <= it.index(),
    {
        let ghost idx = it.index() as int;
        let ghost st0 = scan_from(scan_start(), text@.take(idx));
        proof {
            assert(c == text@[idx]);
            assert(text@.take(idx + 1).drop_last() == text@.take(idx));
            assert(scan_from(scan_start(), text@.take(idx + 1)) == scan_char(st0, c));
        }
        if c == '\n' {
            proof {
                if cr {
                    assert(cur@.push('\r').drop_last() == cur@);
                }
            }
            let ghost old_lines = lines@;
            lines.push(cur);
            cur = String::new();
            cr = false;
            proof {
                assert(views(lines@) == views(old_lines).push(lines@.last()@));
            }
        } else if c == '\r' {
            if cr {
                push_char(&mut cur, '\r');
            }
            cr = true;
        } else {
            if cr {
                push_char(&mut cur, '\r');
                cr = false;
            }
            push_char(&mut cur, c);
        }
    }
    if cr {
        push_char(&mut cur, '\r');
    }
    proof {
        assert(text@.take(text@.len() as int) == text@);
    }
    if cur.as_str().unicode_len() > 0 {
        let ghost old_lines = lines@;
        lines.push(cur);
        proof {
            assert(views(lines@) == views(old_lines).push(lines@.last()@));
        }
    }
    lines
}

} // verus!
