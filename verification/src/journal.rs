//! What a setup step reports while it runs: log lines and planned actions.
use vstd::prelude::*;
use crate::text::sviews;

verus! {

/// Log lines and planned-action summaries, in the order they were recorded.
pub struct StepJournal {
    /// Progress and diagnostic lines.
    pub logs: Vec<String>,
    /// One summary per action a dry run would take.
    pub planned: Vec<String>,
}

/// Mathematical value of a [`StepJournal`].
pub struct JournalView {
    pub logs: Seq<Seq<char>>,
    pub planned: Seq<Seq<char>>,
}

impl View for StepJournal {
    type V = JournalView;

    open spec fn view(&self) -> JournalView {
        JournalView { logs: sviews(self.logs@), planned: sviews(self.planned@) }
    }
}

impl StepJournal {
    /// An empty journal.
    pub fn new() -> (j: Self)
        ensures
            j@.logs.len() == 0,
            j@.planned.len() == 0,
    {
        StepJournal { logs: Vec::new(), planned: Vec::new() }
    }

    /// Record a log line.
    pub fn log(&mut self, line: String)
        ensures
            final(self)@.logs == old(self)@.logs.push(line@),
            final(self)@.planned == old(self)@.planned,
    {
        let ghost l0 = self.logs@;
        self.logs.push(line);
        assert(sviews(self.logs@) =~= sviews(l0).push(self.logs@.last()@));
    }

    /// Record a planned action.
    pub fn plan_action(&mut self, line: String)
        ensures
            final(self)@.planned == old(self)@.planned.push(line@),
            final(self)@.logs == old(self)@.logs,
    {
        let ghost p0 = self.planned@;
        self.planned.push(line);
        assert(sviews(self.planned@) =~= sviews(p0).push(self.planned@.last()@));
    }
}

} // verus!
