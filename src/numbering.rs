//! Numbering the lines of one source, a line at a time or all at once, and
//! what the output of a whole run is.
use vstd::prelude::*;

use crate::config::Mode;
use crate::format::{
    format_number, format_number_nonblank, nonblank_line, nonblank_step, number_nonblank_incr,
    numbered_line,
};

verus! {

/// The output text of `line` in `mode` when the counter stands at `counter`.
pub open spec fn render_step(mode: Mode, counter: nat, line: Seq<char>) -> Seq<char> {
    match mode {
        Mode::NumberAll => numbered_line(counter, line),
        Mode::NumberNonblank => nonblank_line(counter, line),
        Mode::Plain => line,
    }
}

/// The counter after `line` in `mode`, from `counter`.
pub open spec fn next_counter(mode: Mode, counter: nat, line: Seq<char>) -> nat {
    match mode {
        Mode::NumberAll => counter + 1,
        Mode::NumberNonblank => counter + nonblank_step(line),
        Mode::Plain => counter,
    }
}

/// The counter after the lines `lines` of one source; it starts at one.
pub open spec fn counter_after(mode: Mode, lines: Seq<Seq<char>>) -> nat
    decreases lines.len(),
{
    if lines.len() == 0 {
        1
    } else {
        next_counter(mode, counter_after(mode, lines.drop_last()), lines.last())
    }
}

/// The output texts of the lines `lines` of one source, one for each line.
pub open spec fn rendered(mode: Mode, lines: Seq<Seq<char>>) -> Seq<Seq<char>>
    decreases lines.len(),
{
    if lines.len() == 0 {
        Seq::empty()
    } else {
        rendered(mode, lines.drop_last()).push(
            render_step(mode, counter_after(mode, lines.drop_last()), lines.last()),
        )
    }
}

/// How many of `lines` are non-empty.
pub open spec fn nonblank_count(lines: Seq<Seq<char>>) -> nat
    decreases lines.len(),
{
    if lines.len() == 0 {
        0
    } else {
        nonblank_count(lines.drop_last()) + nonblank_step(lines.last())
    }
}

/// Output texts, each followed by a line terminator, one after another.
pub open spec fn terminated(outs: Seq<Seq<char>>) -> Seq<char>
    decreases outs.len(),
{
    if outs.len() == 0 {
        Seq::empty()
    } else {
        terminated(outs.drop_last()) + outs.last() + seq!['\n']
    }
}

/// Everything a run writes to standard output for the readable sources
/// `sources`, each given by its lines, in input order.
pub open spec fn run_text(mode: Mode, sources: Seq<Seq<Seq<char>>>) -> Seq<char>
    decreases sources.len(),
{
    if sources.len() == 0 {
        Seq::empty()
    } else {
        run_text(mode, sources.drop_last()) + terminated(rendered(mode, sources.last()))
    }
}

/// The lines of all `sources`, one source after another.
pub open spec fn all_lines(sources: Seq<Seq<Seq<char>>>) -> Seq<Seq<char>>
    decreases sources.len(),
{
    if sources.len() == 0 {
        Seq::empty()
    } else {
        all_lines(sources.drop_last()) + sources.last()
    }
}

/// The numbering state of one source: the mode and the number that the
/// next numbered line gets.
#[derive(Debug)]
pub struct LineNumberer {
    pub mode: Mode,
    pub counter: usize,
}

impl LineNumberer {
    /// Starts numbering a fresh source: the counter stands at one.
    pub fn new(mode: Mode) -> (r: LineNumberer)
        ensures
            r.mode == mode,
            r.counter == 1,
    {
        LineNumberer { mode, counter: 1 }
    }

    /// Returns the output text of the next line of the source, without
    /// its terminator, and advances the counter as the mode says.
    pub fn next_line(&mut self, line: &String) -> (r: String)
        requires
            old(self).counter < usize::MAX,
        ensures
            r@ == render_step(old(self).mode, old(self).counter as nat, line@),
            final(self).counter == next_counter(old(self).mode, old(self).counter as nat, line@),
            final(self).mode == old(self).mode,
    {
        match self.mode {
            Mode::NumberAll => {
                let r = format_number(line.as_str(), self.counter);
                self.counter = self.counter + 1;
                r
            },
            Mode::NumberNonblank => {
                let r = format_number_nonblank(line.as_str(), self.counter);
                self.counter = self.counter + number_nonblank_incr(line);
                r
            },
            Mode::Plain => line.clone(),
        }
    }
}

/// The counter never passes one more than the number of lines seen.
proof fn lemma_counter_bound(mode: Mode, lines: Seq<Seq<char>>)
    ensures
        1 <= counter_after(mode, lines) <= lines.len() + 1,
    decreases lines.len(),
{
    if lines.len() > 0 {
        lemma_counter_bound(mode, lines.drop_last());
    }
}

/// Returns the output texts of the lines of one source, numbered from one
/// in `mode`.
pub fn number_lines(mode: Mode, lines: &Vec<String>) -> (r: Vec<String>)
    requires
        lines.len() < usize::MAX,
    ensures
        r@.map_values(|s: String| s@) == rendered(mode, lines@.map_values(|s: String| s@)),
{
    let ghost input = lines@.map_values(|s: String| s@);
    let mut numberer = LineNumberer::new(mode);
    let mut r: Vec<String> = Vec::new();
    let mut i: usize = 0;
    while i < lines.len()
        invariant
            i <= lines.len() < usize::MAX,
            input == lines@.map_values(|s: String| s@),
            numberer.mode == mode,
            numberer.counter == counter_after(mode, input.take(i as int)),
            r@.map_values(|s: String| s@) == rendered(mode, input.take(i as int)),
        decreases lines.len() - i,
    {
        proof {
            lemma_counter_bound(mode, input.take(i as int));
        }
        let ghost before = r@;
        let out = numberer.next_line(&lines[i]);
        r.push(out);
        proof {
            let done = input.take(i as int + 1);
            assert(done.drop_last() =~= input.take(i as int));
            assert(done.last() == lines@[i as int]@);
            assert(r@.map_values(|s: String| s@) =~= before.map_values(|s: String| s@).push(out@));
        }
        i = i + 1;
    }
    proof {
        assert(input.take(lines.len() as int) =~= input);
    }
    r
}

/// Each output text is its line's text under the counter that the lines
/// before it left; there is one output text for each line.
pub proof fn lemma_rendered_index(mode: Mode, lines: Seq<Seq<char>>)
    ensures
        rendered(mode, lines).len() == lines.len(),
        forall|i: int|
            0 <= i < lines.len() ==> #[trigger] rendered(mode, lines)[i] == render_step(
                mode,
                counter_after(mode, lines.take(i)),
                lines[i],
            ),
    decreases lines.len(),
{
    if lines.len() > 0 {
        let prefix = lines.drop_last();
        lemma_rendered_index(mode, prefix);
        assert forall|i: int| 0 <= i < lines.len() implies #[trigger] rendered(mode, lines)[i]
            == render_step(mode, counter_after(mode, lines.take(i)), lines[i]) by {
            if i < prefix.len() {
                assert(prefix.take(i) =~= lines.take(i));
            } else {
                assert(lines.take(i) =~= prefix);
            }
        }
    }
}

/// Under number-all, the counter after a source is one more than its
/// number of lines.
pub proof fn lemma_counter_number_all(lines: Seq<Seq<char>>)
    ensures
        counter_after(Mode::NumberAll, lines) == lines.len() + 1,
    decreases lines.len(),
{
    if lines.len() > 0 {
        lemma_counter_number_all(lines.drop_last());
    }
}

/// Under nonblank numbering, the counter after a source is one more than
/// its number of non-empty lines.
pub proof fn lemma_counter_number_nonblank(lines: Seq<Seq<char>>)
    ensures
        counter_after(Mode::NumberNonblank, lines) == nonblank_count(lines) + 1,
    decreases lines.len(),
{
    if lines.len() > 0 {
        lemma_counter_number_nonblank(lines.drop_last());
    }
}

/// Number-all mode gives the lines of a source the numbers one to N in
/// order, blank lines included.
pub proof fn lemma_number_all_sequential(lines: Seq<Seq<char>>)
    ensures
        rendered(Mode::NumberAll, lines).len() == lines.len(),
        forall|i: int|
            0 <= i < lines.len() ==> #[trigger] rendered(Mode::NumberAll, lines)[i]
                == numbered_line((i + 1) as nat, lines[i]),
{
    lemma_rendered_index(Mode::NumberAll, lines);
    assert forall|i: int| 0 <= i < lines.len() implies #[trigger] rendered(
        Mode::NumberAll,
        lines,
    )[i] == numbered_line((i + 1) as nat, lines[i]) by {
        lemma_counter_number_all(lines.take(i));
    }
}

/// Nonblank mode writes an empty line as an empty text, with no number and
/// no tab, and gives a non-empty line one more than the number of non-empty
/// lines before it.
pub proof fn lemma_number_nonblank_skips_blanks(lines: Seq<Seq<char>>)
    ensures
        rendered(Mode::NumberNonblank, lines).len() == lines.len(),
        forall|i: int|
            0 <= i < lines.len() && lines[i].len() == 0 ==> #[trigger] rendered(
                Mode::NumberNonblank,
                lines,
            )[i] == Seq::<char>::empty(),
        forall|i: int|
            0 <= i < lines.len() && lines[i].len() > 0 ==> #[trigger] rendered(
                Mode::NumberNonblank,
                lines,
            )[i] == numbered_line(nonblank_count(lines.take(i)) + 1, lines[i]),
{
    lemma_rendered_index(Mode::NumberNonblank, lines);
    assert forall|i: int| 0 <= i < lines.len() implies #[trigger] rendered(
        Mode::NumberNonblank,
        lines,
    )[i] == nonblank_line(nonblank_count(lines.take(i)) + 1, lines[i]) by {
        lemma_counter_number_nonblank(lines.take(i));
    }
}

/// Plain mode leaves the lines of a source as they are.
pub proof fn lemma_plain_verbatim(lines: Seq<Seq<char>>)
    ensures
        rendered(Mode::Plain, lines) == lines,
    decreases lines.len(),
{
    if lines.len() > 0 {
        lemma_plain_verbatim(lines.drop_last());
        assert(lines.drop_last().push(lines.last()) =~= lines);
    }
}

/// Terminating two runs of texts is terminating each, one after the other.
pub proof fn lemma_terminated_concat(a: Seq<Seq<char>>, b: Seq<Seq<char>>)
    ensures
        terminated(a + b) == terminated(a) + terminated(b),
    decreases b.len(),
{
    if b.len() == 0 {
        assert(a + b =~= a);
        assert(terminated(a) + terminated(b) =~= terminated(a));
    } else {
        lemma_terminated_concat(a, b.drop_last());
        assert((a + b).drop_last() =~= a + b.drop_last());
        assert((a + b).last() == b.last());
        assert(terminated(a + b) =~= terminated(a) + terminated(b));
    }
}

/// In plain mode a run writes the lines of all readable sources in input
/// order, each followed by one line terminator, and nothing else.
pub proof fn lemma_plain_run_concatenates(sources: Seq<Seq<Seq<char>>>)
    ensures
        run_text(Mode::Plain, sources) == terminated(all_lines(sources)),
    decreases sources.len(),
{
    if sources.len() > 0 {
        lemma_plain_run_concatenates(sources.drop_last());
        lemma_plain_verbatim(sources.last());
        lemma_terminated_concat(all_lines(sources.drop_last()), sources.last());
    }
}

} // verus!
