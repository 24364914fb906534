//! The block reconstructor: a two-state machine that reads lines, keeps the
//! cues whose lines are all clean, drops every cue that holds an attribution
//! line, and numbers the kept cues from 1.
use crate::rules::{classify, classify_spec, Classification, RuleSet, RuleTable};
use crate::text::{views, push_char};
use vstd::prelude::*;

verus! {

/// Whether `char::is_numeric` holds of `c`.
pub uninterp spec fn numeric_char(c: char) -> bool;

/// Relies on `char::is_numeric`: whether the character has one of Unicode's
/// number categories, which depends on the character alone.
#[verifier::external_body]
fn char_is_numeric(c: char) -> (r: bool)
    ensures
        r == numeric_char(c),
{
    c.is_numeric()
}

/// A numeric character; the ASCII digits are among them.
pub open spec fn is_digit_like(c: char) -> bool {
    ('0' <= c && c <= '9') || numeric_char(c)
}

/// A non-empty line made of numeric characters only: the cue number the input carried.
pub open spec fn is_index_line(line: Seq<char>) -> bool {
    line.len() > 0 && forall|i: int| 0 <= i < line.len() ==> is_digit_like(#[trigger] line[i])
}

/// Whether the line is a non-empty run of numeric characters.
pub fn index_line(line: &str) -> (r: bool)
    ensures
        r == is_index_line(line@),
{
    let mut seen = false;
    for c in it: line.chars()
        invariant
            it.seq() == line@,
            seen == (it.index() > 0),
            forall|i: int| 0 <= i < it.index() ==> is_digit_like(#[trigger] line@[i]),
    {
        proof {
            assert(c == line@[it.index() as int]);
        }
        if !(('0' <= c && c <= '9') || char_is_numeric(c)) {
            return false;
        }
        seen = true;
    }
    seen
}

/// What the reconstructor holds between lines.
pub ghost enum Pending {
    /// Collecting the lines of the current cue.
    Collecting(Seq<Seq<char>>),
    /// Skipping the rest of a cue that held an attribution line.
    Suppressing,
}

/// The reconstructor's state and the cues it has emitted so far, each given
/// by its body lines. The cue at position `k` carries the index `k + 1`.
pub ghost struct Machine {
    pub pending: Pending,
    pub cues: Seq<Seq<Seq<char>>>,
}

pub open spec fn machine_start() -> Machine {
    Machine { pending: Pending::Collecting(Seq::empty()), cues: Seq::empty() }
}

/// One transition: index lines are dropped; a blank line ends suppression or
/// flushes a non-empty cue; an attribution line poisons the cue; any other
/// line joins the cue.
pub open spec fn step(rules: RuleSet, m: Machine, line: Seq<char>) -> Machine {
    if is_index_line(line) {
        m
    } else if line.len() == 0 {
        match m.pending {
            Pending::Suppressing => Machine { pending: Pending::Collecting(Seq::empty()), ..m },
            Pending::Collecting(body) => if body.len() == 0 {
                m
            } else {
                Machine { pending: Pending::Collecting(Seq::empty()), cues: m.cues.push(body) }
            },
        }
    } else {
        match m.pending {
            Pending::Suppressing => m,
            Pending::Collecting(body) => if classify_spec(rules, line) == Classification::Trash {
                Machine { pending: Pending::Suppressing, ..m }
            } else {
                Machine { pending: Pending::Collecting(body.push(line)), ..m }
            },
        }
    }
}

/// The machine after reading `lines` from `m`.
pub open spec fn run_from(rules: RuleSet, m: Machine, lines: Seq<Seq<char>>) -> Machine
    decreases lines.len(),
{
    if lines.len() == 0 {
        m
    } else {
        step(rules, run_from(rules, m, lines.drop_last()), lines.last())
    }
}

/// The bodies of the cues kept from `lines`, in order.
pub open spec fn cleaned(rules: RuleSet, lines: Seq<Seq<char>>) -> Seq<Seq<Seq<char>>> {
    run_from(rules, machine_start(), lines).cues
}

/// Body lines written out, each followed by a line feed.
pub open spec fn join_lines(lines: Seq<Seq<char>>) -> Seq<char>
    decreases lines.len(),
{
    if lines.len() == 0 {
        Seq::empty()
    } else {
        join_lines(lines.drop_last()) + lines.last().push('\n')
    }
}

pub open spec fn digit_chars() -> Seq<char> {
    seq!['0', '1', '2', '3', '4', '5', '6', '7', '8', '9']
}

/// The decimal text of a number, without leading zeros.
pub open spec fn decimal(n: nat) -> Seq<char>
    decreases n,
{
    if n < 10 {
        seq![digit_chars()[n as int]]
    } else {
        decimal(n / 10).push(digit_chars()[(n % 10) as int])
    }
}

/// One cue as written: its index, a line feed, its body, a blank line.
pub open spec fn cue_text(index: nat, body: Seq<char>) -> Seq<char> {
    decimal(index).push('\n') + body.push('\n')
}

/// The cues written out in order, numbered from 1.
pub open spec fn render(cues: Seq<Seq<Seq<char>>>) -> Seq<char>
    decreases cues.len(),
{
    if cues.len() == 0 {
        Seq::empty()
    } else {
        render(cues.drop_last()) + cue_text(cues.len(), join_lines(cues.last()))
    }
}

/// Decimal text of a number.
pub fn decimal_text(n: usize) -> (r: String)
    ensures
        r@ == decimal(n as nat),
    decreases n,
{
    let digits: [char; 10] = ['0', '1', '2', '3', '4', '5', '6', '7', '8', '9'];
    assert(digits@ == digit_chars());
    if n < 10 {
        let mut s = String::new();
        push_char(&mut s, digits[n]);
        proof {
            assert(s@ == seq![digit_chars()[n as int]]);
        }
        s
    } else {
        let mut s = decimal_text(n / 10);
        push_char(&mut s, digits[n % 10]);
        s
    }
}

/// A kept cue: its fresh index and its body text.
pub struct OutputCue {
    pub index: usize,
    pub body: String,
}

impl OutputCue {
    /// The cue as written: index line, body, blank separator.
    pub fn to_text(&self) -> (r: String)
        ensures
            r@ == cue_text(self.index as nat, self.body@),
    {
        let mut s = decimal_text(self.index);
        push_char(&mut s, '\n');
        s.append(self.body.as_str());
        push_char(&mut s, '\n');
        s
    }
}

/// The reconstructor's state: collecting a cue's body text, or skipping the
/// rest of a poisoned cue.
pub enum BlockState {
    Collecting(String),
    Suppressing,
}

/// The stateful scanner that turns lines into numbered cues.
pub struct Reconstructor {
    state: BlockState,
    next_index: usize,
    pending: Ghost<Seq<Seq<char>>>,
    emitted: Ghost<Seq<Seq<Seq<char>>>>,
}

impl View for Reconstructor {
    type V = Machine;

    closed spec fn view(&self) -> Machine {
        Machine {
            pending: match self.state {
                BlockState::Collecting(_) => Pending::Collecting(self.pending@),
                BlockState::Suppressing => Pending::Suppressing,
            },
            cues: self.emitted@,
        }
    }
}

impl Reconstructor {
    /// The body text matches the collected lines, and the next index follows
    /// the cues emitted so far.
    pub closed spec fn wf(&self) -> bool {
        &&& self.next_index == self.emitted@.len() + 1
        &&& self.state matches BlockState::Collecting(body) ==> body@ == join_lines(self.pending@)
    }

    pub fn new() -> (r: Reconstructor)
        ensures
            r.wf(),
            r@ == machine_start(),
    {
        Reconstructor {
            state: BlockState::Collecting(String::new()),
            next_index: 1,
            pending: Ghost(Seq::empty()),
            emitted: Ghost(Seq::empty()),
        }
    }

    /// The index the next flushed cue will carry.
    pub fn next_index(&self) -> (r: usize)
        requires
            self.wf(),
        ensures
            r == self@.cues.len() + 1,
    {
        self.next_index
    }

    /// Whether the reconstructor is skipping a poisoned cue.
    pub fn is_suppressing(&self) -> (r: bool)
        ensures
            r == (self@.pending is Suppressing),
    {
        match self.state {
            BlockState::Suppressing => true,
            BlockState::Collecting(_) => false,
        }
    }

    /// Reads one line. Returns the cue that the line flushed, if it flushed
    /// one.
    pub fn feed(&mut self, rules: &RuleTable, line: &str) -> (r: Option<OutputCue>)
        requires
            old(self).wf(),
            old(self)@.cues.len() + 1 < usize::MAX,
        ensures
            final(self).wf(),
            final(self)@ == step(rules@, old(self)@, line@),
            match r {
                Some(cue) => {
                    &&& final(self)@.cues.len() == old(self)@.cues.len() + 1
                    &&& cue.index == final(self)@.cues.len()
                    &&& cue.body@ == join_lines(final(self)@.cues.last())
                },
                None => final(self)@.cues == old(self)@.cues,
            },
    {
        if index_line(line) {
            return None;
        }
        let mut state = BlockState::Suppressing;
        std::mem::swap(&mut self.state, &mut state);
        if line.unicode_len() == 0 {
            match state {
                BlockState::Suppressing => {
                    self.state = BlockState::Collecting(String::new());
                    self.pending = Ghost(Seq::empty());
                    None
                },
                BlockState::Collecting(body) => {
                    if body.unicode_len() == 0 {
                        proof {
                            if self.pending@.len() > 0 {
                                lemma_join_nonempty(self.pending@);
                            }
                        }
                        self.state = BlockState::Collecting(body);
                        None
                    } else {
                        let cue = OutputCue { index: self.next_index, body };
                        self.emitted = Ghost(self.emitted@.push(self.pending@));
                        self.pending = Ghost(Seq::empty());
                        self.next_index = self.next_index + 1;
                        self.state = BlockState::Collecting(String::new());
                        Some(cue)
                    }
                },
            }
        } else {
            match state {
                BlockState::Suppressing => {
                    self.state = BlockState::Suppressing;
                    None
                },
                BlockState::Collecting(body) => {
                    if classify(rules, line) == Classification::Trash {
                        self.state = BlockState::Suppressing;
                        None
                    } else {
                        let mut body = body;
                        body.append(line);
                        push_char(&mut body, '\n');
                        proof {
                            let p = self.pending@.push(line@);
                            assert(p.drop_last() =~= self.pending@);
                        }
                        self.pending = Ghost(self.pending@.push(line@));
                        self.state = BlockState::Collecting(body);
                        None
                    }
                },
            }
        }
    }
}

/// The text of a non-empty list of lines is non-empty.
proof fn lemma_join_nonempty(lines: Seq<Seq<char>>)
    requires
        lines.len() > 0,
    ensures
        join_lines(lines).len() > 0,
{
}

/// Runs the reconstructor over the lines and returns the kept cues.
pub fn clean_lines(rules: &RuleTable, lines: &Vec<String>) -> (r: Vec<OutputCue>)
    ensures
        r.len() == cleaned(rules@, views(lines@)).len(),
        forall|k: int| 0 <= k < r.len() ==> (#[trigger] r[k]).index == k + 1,
        forall|k: int| 0 <= k < r.len() ==> (#[trigger] r[k]).body@ == join_lines(cleaned(rules@, views(lines@))[k]),
{
    let mut machine = Reconstructor::new();
    let mut out: Vec<OutputCue> = Vec::new();
    let mut i: usize = 0;
    while i < lines.len()
        invariant
            i <= lines.len(),
            machine.wf(),
            machine@ == run_from(rules@, machine_start(), views(lines@).take(i as int)),
            weight(machine@) <= i,
            out.len() == machine@.cues.len(),
            forall|k: int| 0 <= k < out.len() ==> (#[trigger] out[k]).index == k + 1,
            forall|k: int| 0 <= k < out.len() ==> (#[trigger] out[k]).body@ == join_lines(machine@.cues[k]),
        decreases lines.len() - i,
    {
        proof {
            assert(views(lines@).take(i + 1).drop_last() == views(lines@).take(i as int));
            lemma_step_grows(rules@, machine@, lines[i as int]@);
        }
        assert(machine@.cues.len() + 1 < usize::MAX);
        match machine.feed(rules, lines[i].as_str()) {
            Some(cue) => out.push(cue),
            None => {},
        }
        i = i + 1;
    }
    proof {
        assert(views(lines@).take(lines.len() as int) == views(lines@));
    }
    out
}

/// Twice the cues emitted, plus one while a cue is open: each cue takes at
/// least two lines, a body line and its blank separator.
pub open spec fn weight(m: Machine) -> int {
    2 * m.cues.len() + match m.pending {
        Pending::Collecting(body) => if body.len() == 0 { 0int } else { 1int },
        Pending::Suppressing => 1int,
    }
}

/// A step adds at most one cue and keeps the earlier ones.
pub proof fn lemma_step_grows(rules: RuleSet, m: Machine, line: Seq<char>)
    ensures
        step(rules, m, line).cues == m.cues || step(rules, m, line).cues == m.cues.push(
            step(rules, m, line).cues.last(),
        ),
        step(rules, m, line).cues.len() <= m.cues.len() + 1,
        weight(step(rules, m, line)) <= weight(m) + 1,
{
}

/// The cleaned text: the kept cues of the text's lines, written out and
/// numbered from 1.
pub open spec fn clean_spec(rules: RuleSet, text: Seq<char>) -> Seq<char> {
    render(cleaned(rules, crate::text::lines_of(text)))
}

/// Cleans a decoded text.
pub fn clean_text(rules: &RuleTable, text: &str) -> (r: String)
    ensures
        r@ == clean_spec(rules@, text@),
{
    let lines = crate::text::split_lines(text);
    let cues = clean_lines(rules, &lines);
    let ghost model = cleaned(rules@, views(lines@));
    let mut out = String::new();
    let mut k: usize = 0;
    while k < cues.len()
        invariant
            k <= cues.len() == model.len(),
            forall|j: int| 0 <= j < cues.len() ==> (#[trigger] cues[j]).index == j + 1,
            forall|j: int| 0 <= j < cues.len() ==> (#[trigger] cues[j]).body@ == join_lines(model[j]),
            out@ == render(model.take(k as int)),
        decreases cues.len() - k,
    {
        let piece = cues[k].to_text();
        out.append(piece.as_str());
        proof {
            assert(model.take(k + 1).drop_last() == model.take(k as int));
        }
        k = k + 1;
    }
    proof {
        assert(model.take(model.len() as int) == model);
    }
    out
}

} // verus!
