use vstd::prelude::*;
use crate::export::{excel_plan, row_of, title_texts, SheetPlan};
use crate::pagination::{holdable, Harvest};
use crate::record::{console_text, PullRequest};

verus! {

/// Where a run's accepted records go.
pub enum OutputSink {
    /// Each record is printed as one line as soon as it is accepted.
    Console,
    /// Records are held until the run ends, then written to one spreadsheet.
    Spreadsheet(Harvest),
}

/// What is left to do once every author has been scanned.
pub enum Finish {
    /// Console mode: everything was printed already.
    Nothing,
    /// Spreadsheet mode with no record: a notice, and no file.
    NoData,
    /// Spreadsheet mode: write this sheet.
    Write(SheetPlan),
}

impl OutputSink {
    pub open spec fn wf(&self) -> bool {
        match self {
            OutputSink::Console => true,
            OutputSink::Spreadsheet(h) => h.wf(),
        }
    }

    /// The sink of a run: a spreadsheet when `exc` is set, else the console.
    pub fn for_run(exc: bool, cutoff: String) -> (r: OutputSink)
        ensures
            r.wf(),
            exc ==> (r matches OutputSink::Spreadsheet(h) && h.cutoff == cutoff && h.records@.len()
                == 0),
            !exc ==> r is Console,
    {
        if exc {
            OutputSink::Spreadsheet(Harvest::new(cutoff))
        } else {
            OutputSink::Console
        }
    }

    /// Whether a wait notice is shown before each author's scan: in spreadsheet mode only.
    pub fn shows_wait_notice(&self) -> (r: bool)
        ensures
            r == (self is Spreadsheet),
    {
        match self {
            OutputSink::Console => false,
            OutputSink::Spreadsheet(_) => true,
        }
    }

    /// Hands over records accepted from one page. In console mode the lines to print come back,
    /// one per record and in order; in spreadsheet mode the records are held and nothing comes back.
    pub fn deliver(&mut self, recs: Vec<PullRequest>) -> (lines: Vec<String>)
        requires
            old(self).wf(),
        ensures
            final(self).wf(),
            *old(self) is Console ==> *final(self) is Console && lines@.map_values(|l: String| l@)
                == recs@.map_values(|x: PullRequest| console_text(x)),
            *old(self) is Spreadsheet ==> lines@.len() == 0,
            *old(self) matches OutputSink::Spreadsheet(h0) ==> (*final(self) matches OutputSink::Spreadsheet(h1)
                && h1.cutoff == h0.cutoff && h1.records@ == h0.records@ + recs@.filter(
                holdable(h0.cutoff@),
            )),
    {
        let mut lines: Vec<String> = Vec::new();
        match self {
            OutputSink::Console => {
                let n = recs.len();
                let mut i: usize = 0;
                while i < n
                    invariant
                        n == recs@.len(),
                        i <= n,
                        lines@.len() == i,
                        forall|k: int| 0 <= k < i ==> #[trigger] lines@[k]@ == console_text(recs@[k]),
                    decreases n - i,
                {
                    let line = recs[i].console_line();
                    lines.push(line);
                    i = i + 1;
                }
                assert(lines@.map_values(|l: String| l@) =~= recs@.map_values(
                    |x: PullRequest| console_text(x),
                ));
            },
            OutputSink::Spreadsheet(h) => {
                h.absorb(recs);
            },
        }
        lines
    }

    /// Ends the run: nothing more in console mode; in spreadsheet mode a notice when no record
    /// was accepted, else the sheet of all of them in the order they came.
    pub fn finish(&self) -> (r: Finish)
        ensures
            *self is Console ==> r is Nothing,
            *self matches OutputSink::Spreadsheet(h) ==> {
                &&& (r is NoData <==> h.records@.len() == 0)
                &&& (r matches Finish::Write(p) ==> {
                    &&& p.file_name@ == h.records@[0].author@ + ".xlsx"@
                    &&& p.titles@.map_values(|t: String| t@) == title_texts()
                    &&& p.rows@ == h.records@.map_values(|x: PullRequest| row_of(x))
                })
                &&& r !is Nothing
            },
    {
        match self {
            OutputSink::Console => Finish::Nothing,
            OutputSink::Spreadsheet(h) => match excel_plan(&h.records) {
                Some(p) => Finish::Write(p),
                None => Finish::NoData,
            },
        }
    }
}

} // verus!
