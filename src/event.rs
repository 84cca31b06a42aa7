use vstd::prelude::*;

verus! {

/// Completion, in hundredths of a percent: `10000` is 100.00 %.
pub const FULL: u64 = 10000;

/// The percentage reached by adding `amount` to `p`, completion capping it.
pub open spec fn advanced(p: nat, amount: nat) -> nat {
    if p + amount >= FULL {
        FULL as nat
    } else {
        p + amount
    }
}

/// The updates, as (completed, percentage), that a source at `p` reports
/// for successive advances by `deltas`: it reports nothing once complete.
pub open spec fn reports(p: nat, deltas: Seq<nat>) -> Seq<(bool, nat)>
    decreases deltas.len(),
{
    if deltas.len() == 0 || p >= FULL {
        Seq::empty()
    } else {
        let q = advanced(p, deltas[0]);
        seq![(q == FULL as nat, q)] + reports(q, deltas.drop_first())
    }
}

/// What a message reports: whether its unit completed, and the percentage.
pub open spec fn report_of(m: Message) -> (bool, nat) {
    (m.is_finished(), m.percent())
}

/// Advances given in hundredths, as naturals.
pub open spec fn amounts(deltas: Seq<u64>) -> Seq<nat> {
    deltas.map_values(|d: u64| d as nat)
}

/// For positive advances the reported percentage strictly increases, stays
/// within 100 %, and at most one report is a completion, which is the last
/// one: nothing follows it. A source that is advanced `FULL` times or more
/// does complete.
pub proof fn lemma_reports_monotone(p: nat, deltas: Seq<nat>)
    requires
        p < FULL,
        forall|i: int| 0 <= i < deltas.len() ==> deltas[i] > 0,
    ensures
        reports(p, deltas).len() <= deltas.len(),
        forall|i: int|
            0 <= i < reports(p, deltas).len() ==> p < (#[trigger] reports(p, deltas)[i]).1 <= FULL,
        forall|i: int, j: int|
            0 <= i < j < reports(p, deltas).len() ==> (#[trigger] reports(p, deltas)[i]).1 < (
            #[trigger] reports(p, deltas)[j]).1,
        forall|i: int|
            0 <= i < reports(p, deltas).len() ==> ((#[trigger] reports(p, deltas)[i]).0 <==> i
                == reports(p, deltas).len() - 1 && reports(p, deltas)[i].1 == FULL),
        deltas.len() + p >= FULL ==> reports(p, deltas).len() > 0 && reports(p, deltas).last().0,
    decreases deltas.len(),
{
    if deltas.len() > 0 {
        let q = advanced(p, deltas[0]);
        let rest = deltas.drop_first();
        let e = reports(p, deltas);
        if q < FULL {
            lemma_reports_monotone(q, rest);
            let t = reports(q, rest);
            assert(e == seq![(false, q)] + t);
            assert forall|i: int| 0 <= i < e.len() implies p < (#[trigger] e[i]).1 <= FULL by {
                if i > 0 {
                    assert(e[i] == t[i - 1]);
                }
            }
            assert forall|i: int, j: int| 0 <= i < j < e.len() implies (#[trigger] e[i]).1 < (
            #[trigger] e[j]).1 by {
                assert(e[j] == t[j - 1]);
                if i > 0 {
                    assert(e[i] == t[i - 1]);
                }
            }
            assert forall|i: int| 0 <= i < e.len() implies ((#[trigger] e[i]).0 <==> i == e.len()
                - 1 && e[i].1 == FULL) by {
                if i > 0 {
                    assert(e[i] == t[i - 1]);
                }
            }
        } else {
            assert(reports(q, rest) =~= Seq::<(bool, nat)>::empty());
            assert(e =~= seq![(true, q)]);
        }
    }
}

/// One update published for a unit of work. Percentages are in hundredths
/// of a percent.
pub enum Message {
    Progress { title: String, progress: u64, y: i32 },
    Finished { title: String, y: i32 },
}

impl Message {
    /// The message says that its unit is complete.
    pub open spec fn is_finished(&self) -> bool {
        self is Finished
    }

    /// The row on which the message's unit is displayed.
    pub open spec fn row(&self) -> int {
        match self {
            Message::Progress { y, .. } => *y as int,
            Message::Finished { y, .. } => *y as int,
        }
    }

    /// The percentage (in hundredths) that the message reports; a finished
    /// unit reports exactly 100.00 %.
    pub open spec fn percent(&self) -> nat {
        match self {
            Message::Progress { progress, .. } => *progress as nat,
            Message::Finished { .. } => FULL as nat,
        }
    }

    /// The title of the message's unit.
    pub open spec fn title_view(&self) -> Seq<char> {
        match self {
            Message::Progress { title, .. } => title@,
            Message::Finished { title, .. } => title@,
        }
    }
}

/// What a progress source holds: its title, its percentage in hundredths,
/// and the row it is drawn on.
pub struct ProgressView {
    pub title: Seq<char>,
    pub percent: nat,
    pub row: int,
}

/// A single unit of work. Its percentage only grows, and it is complete
/// once it reaches `FULL`; after that it is never advanced again.
pub struct Progress {
    title: String,
    progress: u64,
    y: i32,
}

impl View for Progress {
    type V = ProgressView;

    closed spec fn view(&self) -> ProgressView {
        ProgressView { title: self.title@, percent: self.progress as nat, row: self.y as int }
    }
}

impl Progress {
    /// The percentage stays within `0..=FULL`.
    pub open spec fn wf(&self) -> bool {
        self@.percent <= FULL
    }

    /// The unit has reported completion.
    pub open spec fn is_complete(&self) -> bool {
        self@.percent == FULL
    }

    /// A source at 0 % with the given title and row.
    pub fn new(title: &str, y: i32) -> (r: Self)
        ensures
            r.wf(),
            r@ == (ProgressView { title: title@, percent: 0, row: y as int }),
    {
        Progress { title: title.to_owned(), progress: 0, y }
    }

    /// Adds `amount` hundredths of a percent. Reaching `FULL` completes the
    /// unit, which is then reported at exactly 100.00 %; below it the new
    /// percentage is reported.
    pub fn progress(&mut self, amount: u64) -> (r: Message)
        requires
            old(self).wf(),
            !old(self).is_complete(),
        ensures
            final(self).wf(),
            final(self)@.title == old(self)@.title,
            final(self)@.row == old(self)@.row,
            final(self)@.percent == advanced(old(self)@.percent, amount as nat),
            final(self)@.percent >= old(self)@.percent,
            r.is_finished() == final(self).is_complete(),
            r.percent() == final(self)@.percent,
            r.title_view() == old(self)@.title,
            r.row() == old(self)@.row,
    {
        if amount >= FULL - self.progress {
            self.progress = FULL;
            Message::Finished { title: self.title.clone(), y: self.y }
        } else {
            self.progress = self.progress + amount;
            Message::Progress { title: self.title.clone(), progress: self.progress, y: self.y }
        }
    }

    /// Advances by each of `deltas` in turn until the unit completes, and
    /// returns the messages in order: exactly what `reports` gives, so with
    /// positive advances percentages increase and a completion comes at most
    /// once, last.
    pub fn advance_all(&mut self, deltas: &Vec<u64>) -> (r: Vec<Message>)
        requires
            old(self).wf(),
        ensures
            final(self).wf(),
            final(self)@.title == old(self)@.title,
            final(self)@.row == old(self)@.row,
            r@.map_values(|m: Message| report_of(m)) == reports(
                old(self)@.percent,
                amounts(deltas@),
            ),
            forall|i: int|
                0 <= i < r@.len() ==> (#[trigger] r@[i]).title_view() == old(self)@.title
                    && r@[i].row() == old(self)@.row,
            r@.len() > 0 ==> final(self)@.percent == r@.last().percent(),
            r@.len() == 0 ==> final(self)@.percent == old(self)@.percent,
    {
        let ghost all = amounts(deltas@);
        let ghost p0 = self@.percent;
        let mut out: Vec<Message> = Vec::new();
        let mut i: usize = 0;
        assert(all.subrange(0, all.len() as int) =~= all);
        assert(out@.map_values(|m: Message| report_of(m)) =~= Seq::<(bool, nat)>::empty());
        assert(Seq::<(bool, nat)>::empty() + reports(p0, all) =~= reports(p0, all));
        while i < deltas.len() && self.progress < FULL
            invariant
                self.wf(),
                i <= deltas@.len(),
                all == amounts(deltas@),
                self@.title == old(self)@.title,
                self@.row == old(self)@.row,
                reports(p0, all) == out@.map_values(|m: Message| report_of(m)) + reports(
                    self@.percent,
                    all.subrange(i as int, all.len() as int),
                ),
                forall|j: int|
                    0 <= j < out@.len() ==> (#[trigger] out@[j]).title_view() == old(self)@.title
                        && out@[j].row() == old(self)@.row,
                out@.len() > 0 ==> self@.percent == out@.last().percent(),
                out@.len() == 0 ==> self@.percent == p0,
            decreases deltas@.len() - i,
        {
            let ghost before = self@.percent;
            let ghost tail = all.subrange(i as int, all.len() as int);
            assert(tail.drop_first() =~= all.subrange(i + 1, all.len() as int));
            let m = self.progress(deltas[i]);
            proof {
                assert(tail[0] == deltas@[i as int] as nat);
                let ghost outs = out@.map_values(|m: Message| report_of(m));
                assert(out@.push(m).map_values(|m: Message| report_of(m)) =~= outs.push(
                    report_of(m),
                ));
                assert(reports(before, tail) == seq![report_of(m)] + reports(
                    self@.percent,
                    tail.drop_first(),
                ));
                assert(outs + (seq![report_of(m)] + reports(self@.percent, tail.drop_first()))
                    =~= outs.push(report_of(m)) + reports(self@.percent, tail.drop_first()));
            }
            out.push(m);
            i = i + 1;
        }
        proof {
            let tail = all.subrange(i as int, all.len() as int);
            assert(reports(self@.percent, tail) =~= Seq::<(bool, nat)>::empty());
            assert(reports(p0, all) =~= out@.map_values(|m: Message| report_of(m)));
        }
        out
    }

    /// The title of the unit.
    pub fn title(&self) -> (r: &str)
        ensures
            r@ == self@.title,
    {
        self.title.as_str()
    }

    /// The current percentage, in hundredths.
    pub fn percent(&self) -> (r: u64)
        ensures
            r == self@.percent,
    {
        self.progress
    }

    /// The row the unit is drawn on.
    pub fn row(&self) -> (r: i32)
        ensures
            r == self@.row,
    {
        self.y
    }
}

} // verus!
