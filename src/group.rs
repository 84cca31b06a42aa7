use vstd::prelude::*;
use crossbeam::channel::{Receiver, Sender};
use crate::channel::{another_sender, draw_u64, open_channel, publish, take_pending};
use crate::event::{advanced, Message, Progress, ProgressView, FULL};
use crate::item::{Draw, WindowItem};
use crate::text::{bar_line, render_bar};

verus! {

/// The bound, never reached, of one worker tick's advance, in hundredths of
/// a percent.
pub const MAX_STEP: u64 = 400;

/// The advance that a random draw gives: at least one hundredth of a
/// percent and below `MAX_STEP`.
pub open spec fn step_of(r: u64) -> nat {
    1 + (r % (MAX_STEP - 1) as u64) as nat
}

/// What one worker tick ended with.
#[derive(Debug, PartialEq, Eq, Structural)]
pub enum Step {
    /// The update was published; the unit is still running.
    Continue,
    /// The completion was published; the worker must stop.
    Done,
    /// Publishing failed because the receiver is gone; the worker must stop.
    Disconnected,
}

/// The background side of one unit: its progress source and a sending end
/// of the group's channel.
pub struct Worker {
    source: Progress,
    tx: Sender<Message>,
}

impl View for Worker {
    type V = ProgressView;

    closed spec fn view(&self) -> ProgressView {
        self.source@
    }
}

impl Worker {
    /// The unit's title.
    pub fn title(&self) -> (r: &str)
        ensures
            r@ == self@.title,
    {
        self.source.title()
    }

    /// The unit's percentage, in hundredths.
    pub fn percent(&self) -> (r: u64)
        ensures
            r == self@.percent,
    {
        self.source.percent()
    }

    /// The row the unit is drawn on.
    pub fn row(&self) -> (r: i32)
        ensures
            r == self@.row,
    {
        self.source.row()
    }

    /// The unit has reported completion.
    pub fn is_complete(&self) -> (r: bool)
        requires
            self@.percent <= FULL,
        ensures
            r == (self@.percent == FULL),
    {
        self.source.percent() == FULL
    }

    /// Advances the unit by `amount` and publishes the resulting message.
    /// Unless publishing failed, the result is `Done` exactly when the unit
    /// has just completed.
    pub fn tick_by(&mut self, amount: u64) -> (r: Step)
        requires
            old(self)@.percent < FULL,
        ensures
            final(self)@.title == old(self)@.title,
            final(self)@.row == old(self)@.row,
            final(self)@.percent == advanced(old(self)@.percent, amount as nat),
            r != Step::Disconnected ==> (r == Step::Done <==> final(self)@.percent == FULL),
    {
        let msg = self.source.progress(amount);
        let finished = match &msg {
            Message::Finished { .. } => true,
            Message::Progress { .. } => false,
        };
        match publish(&self.tx, msg) {
            Ok(()) => {
                if finished {
                    Step::Done
                } else {
                    Step::Continue
                }
            },
            Err(_) => Step::Disconnected,
        }
    }

    /// Advances the unit by a random step of `1..MAX_STEP` hundredths and
    /// publishes the resulting message. Every tick strictly advances an
    /// unfinished unit, so a worker completes after at most `FULL` ticks.
    pub fn tick(&mut self) -> (r: Step)
        requires
            old(self)@.percent < FULL,
        ensures
            final(self)@.title == old(self)@.title,
            final(self)@.row == old(self)@.row,
            old(self)@.percent < final(self)@.percent <= FULL,
            final(self)@.percent < old(self)@.percent + MAX_STEP,
            exists|d: u64| final(self)@.percent == advanced(old(self)@.percent, #[trigger] step_of(d)),
            r != Step::Disconnected ==> (r == Step::Done <==> final(self)@.percent == FULL),
    {
        let d = draw_u64();
        let step = self.tick_by(1 + d % (MAX_STEP - 1));
        assert(self@.percent == advanced(old(self)@.percent, step_of(d)));
        step
    }
}

/// The completed count after the group has taken in `m`, out of `k` units:
/// a completion counts while the group is not done yet.
pub open spec fn completed_after(c: nat, k: nat, m: Option<Message>) -> nat {
    if c < k && m is Some && m->0.is_finished() {
        c + 1
    } else {
        c
    }
}

/// The completed count after the group has taken in each of `ms` in turn.
pub open spec fn completed_over(c: nat, k: nat, ms: Seq<Option<Message>>) -> nat
    decreases ms.len(),
{
    if ms.len() == 0 {
        c
    } else {
        completed_over(completed_after(c, k, ms[0]), k, ms.drop_first())
    }
}

/// How many of `ms` are completions.
pub open spec fn completions(ms: Seq<Option<Message>>) -> nat
    decreases ms.len(),
{
    if ms.len() == 0 {
        0
    } else {
        (if ms[0] is Some && ms[0]->0.is_finished() { 1nat } else { 0nat }) + completions(
            ms.drop_first(),
        )
    }
}

/// Whatever the group takes in, its count of completed units never passes
/// the number of units `k` and counts every completion until then; so once
/// each of the `k` units has reported its one completion, the count is
/// exactly `k` and the group is done.
pub proof fn lemma_group_counts_completions(c: nat, k: nat, ms: Seq<Option<Message>>)
    requires
        c <= k,
    ensures
        completed_over(c, k, ms) <= k,
        completed_over(c, k, ms) == if c + completions(ms) <= k {
            c + completions(ms)
        } else {
            k
        },
        c + completions(ms) == k ==> completed_over(c, k, ms) == k,
    decreases ms.len(),
{
    if ms.len() > 0 {
        lemma_group_counts_completions(completed_after(c, k, ms[0]), k, ms.drop_first());
    }
}

/// Taking in one more message extends the count one step.
pub proof fn lemma_completed_over_push(c: nat, k: nat, ms: Seq<Option<Message>>, m: Option<Message>)
    ensures
        completed_over(c, k, ms.push(m)) == completed_after(completed_over(c, k, ms), k, m),
    decreases ms.len(),
{
    if ms.len() == 0 {
        assert(ms.push(m)[0] == m);
        assert(ms.push(m).drop_first() =~= Seq::<Option<Message>>::empty());
        assert(completed_over(c, k, ms) == c);
        assert(completed_over(c, k, ms.push(m)) == completed_over(
            completed_after(c, k, m),
            k,
            ms.push(m).drop_first(),
        ));
        assert(completed_over(completed_after(c, k, m), k, Seq::<Option<Message>>::empty())
            == completed_after(c, k, m));
    } else {
        assert(ms.push(m)[0] == ms[0]);
        assert(ms.push(m).drop_first() =~= ms.drop_first().push(m));
        lemma_completed_over_push(completed_after(c, k, ms[0]), k, ms.drop_first(), m);
        assert(completed_over(c, k, ms.push(m)) == completed_over(
            completed_after(c, k, ms[0]),
            k,
            ms.push(m).drop_first(),
        ));
    }
}

/// What a group of `k` units draws for `m` on bars `width` cells wide,
/// having completed `c` units before.
pub open spec fn draw_for(c: nat, k: nat, width: nat, m: Option<Message>) -> Option<(int, Seq<char>)> {
    if c < k && m is Some {
        Some((m->0.row(), bar_line(m->0.title_view(), m->0.percent(), width)))
    } else {
        None
    }
}

/// What a group holds: its unit titles, whether its workers were started,
/// the row of its first unit, the bar width, and how many units completed.
pub struct BarView {
    pub items: Seq<Seq<char>>,
    pub started: bool,
    pub row: int,
    pub width: nat,
    pub completed: nat,
}

/// A group of units sharing one channel: it takes in the updates of its
/// workers without blocking and counts completions.
pub struct ProgressBar {
    items: Vec<String>,
    rx: Option<Receiver<Message>>,
    start: i32,
    width: usize,
    c: usize,
}

impl View for ProgressBar {
    type V = BarView;

    closed spec fn view(&self) -> BarView {
        BarView {
            items: self.items@.map_values(|s: String| s@),
            started: self.rx is Some,
            row: self.start as int,
            width: self.width as nat,
            completed: self.c as nat,
        }
    }
}

impl ProgressBar {
    /// The completed count never exceeds the number of units, bars are at
    /// least one cell wide, and every unit's row fits in an `i32`.
    pub open spec fn wf(&self) -> bool {
        &&& self@.completed <= self@.items.len()
        &&& self@.width >= 1
        &&& self@.row + self@.items.len() <= i32::MAX
    }

    /// All units have reported completion.
    pub open spec fn done(&self) -> bool {
        self@.completed == self@.items.len()
    }

    /// A group that has not started, with rows from `start` on.
    pub fn new(items: Vec<String>, start: i32, width: usize) -> (r: Self)
        requires
            width >= 1,
            start + items@.len() <= i32::MAX,
        ensures
            r.wf(),
            r@ == (BarView {
                items: items@.map_values(|s: String| s@),
                started: false,
                row: start as int,
                width: width as nat,
                completed: 0,
            }),
    {
        ProgressBar { items, rx: None, start, width, c: 0 }
    }

    /// Opens the group's channel and returns one worker per unit, in order:
    /// unit `i` at 0 % on row `start + i`. The caller runs the workers.
    pub fn start(&mut self) -> (r: Vec<Worker>)
        requires
            old(self).wf(),
            !old(self)@.started,
        ensures
            final(self).wf(),
            final(self)@ == (BarView { started: true, ..old(self)@ }),
            r@.len() == old(self)@.items.len(),
            forall|i: int|
                0 <= i < r@.len() ==> (#[trigger] r@[i])@ == (ProgressView {
                    title: old(self)@.items[i],
                    percent: 0,
                    row: old(self)@.row + i,
                }),
    {
        let (tx, rx) = open_channel();
        let mut workers: Vec<Worker> = Vec::new();
        let mut i: usize = 0;
        while i < self.items.len()
            invariant
                self.wf(),
                self@ == old(self)@,
                i <= self.items@.len(),
                workers@.len() == i,
                forall|j: int|
                    0 <= j < i ==> (#[trigger] workers@[j])@ == (ProgressView {
                        title: self@.items[j],
                        percent: 0,
                        row: self@.row + j,
                    }),
            decreases self.items@.len() - i,
        {
            let row = (self.start as i64 + i as i64) as i32;
            let source = Progress::new(self.items[i].as_str(), row);
            assert(self.items@[i as int]@ == self@.items[i as int]);
            workers.push(Worker { source, tx: another_sender(&tx) });
            i = i + 1;
        }
        self.rx = Some(rx);
        workers
    }

    /// Takes in one message (or none) from the channel: a completion counts
    /// the unit as done, and the unit's line is drawn at the reported
    /// percentage. A group that is already done ignores it.
    pub fn receive(&mut self, m: Option<Message>) -> (r: Option<Draw>)
        requires
            old(self).wf(),
        ensures
            final(self).wf(),
            final(self)@ == (BarView {
                completed: completed_after(
                    old(self)@.completed,
                    old(self)@.items.len(),
                    m,
                ),
                ..old(self)@
            }),
            r is Some <==> draw_for(
                old(self)@.completed,
                old(self)@.items.len(),
                old(self)@.width,
                m,
            ) is Some,
            r is Some ==> (r->0.y as int, r->0.text@) == draw_for(
                old(self)@.completed,
                old(self)@.items.len(),
                old(self)@.width,
                m,
            )->0,
    {
        if self.c >= self.items.len() {
            return None;
        }
        match m {
            None => None,
            Some(Message::Finished { title, y }) => {
                self.c = self.c + 1;
                Some(Draw { y, text: render_bar(title.as_str(), FULL, self.width) })
            },
            Some(Message::Progress { title, progress, y }) => {
                Some(Draw { y, text: render_bar(title.as_str(), progress, self.width) })
            },
        }
    }

    /// Takes in each of `ms` in turn, as `receive` does, and returns what
    /// each one draws. The completed count is then `completed_over` the run.
    pub fn receive_all(&mut self, ms: Vec<Option<Message>>) -> (r: Vec<Option<Draw>>)
        requires
            old(self).wf(),
        ensures
            final(self).wf(),
            final(self)@ == (BarView {
                completed: completed_over(old(self)@.completed, old(self)@.items.len(), ms@),
                ..old(self)@
            }),
            r@.len() == ms@.len(),
            forall|i: int|
                0 <= i < ms@.len() ==> {
                    let c = completed_over(
                        old(self)@.completed,
                        old(self)@.items.len(),
                        ms@.take(i),
                    );
                    &&& (#[trigger] r@[i]) is Some <==> draw_for(
                        c,
                        old(self)@.items.len(),
                        old(self)@.width,
                        ms@[i],
                    ) is Some
                    &&& r@[i] is Some ==> (r@[i]->0.y as int, r@[i]->0.text@) == draw_for(
                        c,
                        old(self)@.items.len(),
                        old(self)@.width,
                        ms@[i],
                    )->0
                },
    {
        let ghost all = ms@;
        let ghost v0 = self@;
        let n = ms.len();
        let mut rest = ms;
        let mut out: Vec<Option<Draw>> = Vec::new();
        let mut i: usize = 0;
        assert(all.take(0) =~= Seq::<Option<Message>>::empty());
        while rest.len() > 0
            invariant
                self.wf(),
                i + rest@.len() == all.len(),
                all.len() == n,
                rest@ == all.subrange(i as int, all.len() as int),
                out@.len() == i,
                self@ == (BarView {
                    completed: completed_over(v0.completed, v0.items.len(), all.take(i as int)),
                    ..v0
                }),
                forall|j: int|
                    0 <= j < i ==> {
                        let c = completed_over(v0.completed, v0.items.len(), all.take(j));
                        &&& (#[trigger] out@[j]) is Some <==> draw_for(
                            c,
                            v0.items.len(),
                            v0.width,
                            all[j],
                        ) is Some
                        &&& out@[j] is Some ==> (out@[j]->0.y as int, out@[j]->0.text@)
                            == draw_for(c, v0.items.len(), v0.width, all[j])->0
                    },
            decreases rest@.len(),
        {
            let m = rest.remove(0);
            assert(m == all[i as int]);
            proof {
                assert(all.take(i + 1) =~= all.take(i as int).push(all[i as int]));
                lemma_completed_over_push(v0.completed, v0.items.len(), all.take(i as int), m);
            }
            let d = self.receive(m);
            out.push(d);
            assert(rest@ =~= all.subrange(i + 1, all.len() as int));
            i = i + 1;
        }
        assert(all.take(i as int) =~= all);
        out
    }

    /// How many units have reported completion.
    pub fn completed(&self) -> (r: usize)
        ensures
            r == self@.completed,
    {
        self.c
    }

    /// Polls the channel once, without waiting, and takes in what was
    /// queued. A group that is done, or not started, reads nothing.
    pub fn poll_channel(&mut self) -> (r: (bool, Option<Draw>))
        requires
            old(self).wf(),
        ensures
            final(self).wf(),
            final(self)@.items == old(self)@.items,
            final(self)@.started == old(self)@.started,
            final(self)@.row == old(self)@.row,
            final(self)@.width == old(self)@.width,
            old(self).done() ==> final(self)@ == old(self)@ && r.1 is None,
            !old(self)@.started ==> final(self)@ == old(self)@ && r.1 is None,
            final(self)@.completed == old(self)@.completed || final(self)@.completed
                == old(self)@.completed + 1,
            r.0 == final(self).done(),
            old(self)@.started ==> exists|m: Option<Message>|
                {
                    &&& #[trigger] completed_after(
                        old(self)@.completed,
                        old(self)@.items.len(),
                        m,
                    ) == final(self)@.completed
                    &&& r.1 is Some <==> draw_for(
                        old(self)@.completed,
                        old(self)@.items.len(),
                        old(self)@.width,
                        m,
                    ) is Some
                    &&& r.1 is Some ==> (r.1->0.y as int, r.1->0.text@) == draw_for(
                        old(self)@.completed,
                        old(self)@.items.len(),
                        old(self)@.width,
                        m,
                    )->0
                },
    {
        if self.c >= self.items.len() {
            assert(completed_after(self@.completed, self@.items.len(), None) == self@.completed);
            return (true, None);
        }
        let m = match &self.rx {
            Some(rx) => take_pending(rx),
            None => None,
        };
        let ghost before = self@;
        let d = if self.rx.is_some() { self.receive(m) } else { None };
        assert(!before.started || completed_after(before.completed, before.items.len(), m)
            == self@.completed);
        (self.c == self.items.len(), d)
    }
}

impl WindowItem for ProgressBar {
    open spec fn item_wf(&self) -> bool {
        self.wf()
    }

    open spec fn done_view(&self) -> bool {
        self.done()
    }

    fn bg_y(&self) -> (r: i32)
        ensures
            r == self@.row,
    {
        self.start
    }

    fn len(&self) -> (r: usize)
        ensures
            r == self@.items.len(),
    {
        self.items.len()
    }

    fn poll(&mut self, _now_ms: u64) -> (r: (bool, Option<Draw>))
        ensures
            final(self)@.items == old(self)@.items,
            final(self)@.started == old(self)@.started,
            old(self).done() ==> final(self)@ == old(self)@ && r.1 is None,
            !old(self)@.started ==> final(self)@ == old(self)@ && r.1 is None,
            final(self)@.completed == old(self)@.completed || final(self)@.completed
                == old(self)@.completed + 1,
            old(self)@.started ==> exists|m: Option<Message>|
                {
                    &&& #[trigger] completed_after(
                        old(self)@.completed,
                        old(self)@.items.len(),
                        m,
                    ) == final(self)@.completed
                    &&& r.1 is Some <==> draw_for(
                        old(self)@.completed,
                        old(self)@.items.len(),
                        old(self)@.width,
                        m,
                    ) is Some
                    &&& r.1 is Some ==> (r.1->0.y as int, r.1->0.text@) == draw_for(
                        old(self)@.completed,
                        old(self)@.items.len(),
                        old(self)@.width,
                        m,
                    )->0
                },
    {
        self.poll_channel()
    }

    fn is_done(&self) -> (r: bool) {
        self.c >= self.items.len()
    }
}

} // verus!
