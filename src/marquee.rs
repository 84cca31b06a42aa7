use vstd::prelude::*;
use vstd::arithmetic::div_mod::{
    lemma_add_mod_noop, lemma_add_mod_noop_right, lemma_div_multiples_vanish_fancy,
    lemma_fundamental_div_mod, lemma_mod_bound, lemma_small_mod,
};
use crate::item::{Draw, WindowItem};
use crate::text::{push_run, spaces};

verus! {

/// Milliseconds in a second.
pub const MS_PER_SEC: u64 = 1000;

/// What a marquee holds: its message, the viewport width, its row, the
/// current offset, the time of the last step (ms), the unspent part of the
/// elapsed time before it (in ms times speed, below one second's worth), and
/// the speed in cells per second.
pub struct MarqueeView {
    pub msg: Seq<char>,
    pub width: nat,
    pub row: int,
    pub offset: nat,
    pub last: nat,
    pub carry: nat,
    pub speed: nat,
}

impl MarqueeView {
    pub open spec fn wf(self) -> bool {
        &&& 0 < self.width
        &&& self.msg.len() <= self.width
        &&& self.offset < self.width
        &&& self.carry < MS_PER_SEC
    }

    /// Whole steps due at time `now`, counted from the last step.
    pub open spec fn steps_due(self, now: nat) -> nat {
        let elapsed: nat = if now > self.last { (now - self.last) as nat } else { 0 };
        (elapsed * self.speed + self.carry) / (MS_PER_SEC as nat)
    }

    /// The offset the marquee shows when polled at time `now`.
    pub open spec fn offset_at(self, now: nat) -> nat {
        (self.offset + self.steps_due(now)) % self.width
    }

    /// The state after a poll at time `now`: with no whole step due nothing
    /// changes; otherwise the offset advances by the due steps, the step time
    /// becomes `now`, and the unspent remainder is kept.
    pub open spec fn polled(self, now: nat) -> MarqueeView {
        let due = self.steps_due(now);
        if due == 0 {
            self
        } else {
            MarqueeView {
                offset: self.offset_at(now),
                last: now,
                carry: (((now - self.last) as nat) * self.speed + self.carry) % (MS_PER_SEC as nat),
                ..self
            }
        }
    }
}

/// Polling is independent of how often it happens: a poll at `now` leaves
/// the offset due at any later time `t` as it was, so polling at several
/// times up to `t` ends where one poll at `t` would.
pub proof fn lemma_poll_frequency_independent(v: MarqueeView, now: nat, t: nat)
    requires
        v.wf(),
        now <= t,
    ensures
        v.polled(now).wf(),
        v.polled(now).offset_at(t) == v.offset_at(t),
{
    let due = v.steps_due(now);
    if due != 0 {
        let k = MS_PER_SEC as int;
        if now <= v.last {
            lemma_small_mod(v.carry, MS_PER_SEC as nat);
            assert(false);
        }
        let u: int = (((now - v.last) as nat) * v.speed + v.carry) as int;
        let a = (t - now) * v.speed;
        assert((t - v.last) * v.speed == a + (now - v.last) * v.speed) by (nonlinear_arith)
            requires
                v.last < now <= t,
                a == (t - now) * v.speed,
        {
        }
        lemma_fundamental_div_mod(u as int, k);
        lemma_mod_bound(u as int, k);
        let r = u % k;
        lemma_fundamental_div_mod(a + r, k);
        lemma_mod_bound(a + r, k);
        let q = (a + r) / k;
        let r2 = (a + r) % k;
        assert(a + u == k * (due + q) + r2) by (nonlinear_arith)
            requires
                u == k * due + r,
                a + r == k * q + r2,
        {
        }
        lemma_div_multiples_vanish_fancy(due + q, r2, k);
        let x: int = v.offset + due as int;
        let wd: int = v.width as int;
        lemma_mod_bound(x, wd);
        lemma_add_mod_noop(x, q, wd);
        lemma_add_mod_noop_right(x % wd, q, wd);
        lemma_small_mod((x % wd) as nat, v.width);
        assert(v.polled(now).steps_due(t) == q);
    }
}

/// Polling twice at the same time advances only once.
pub proof fn lemma_poll_idempotent(v: MarqueeView, now: nat)
    requires
        v.wf(),
    ensures
        v.polled(now).polled(now) == v.polled(now),
{
    let w = v.polled(now);
    if v.steps_due(now) != 0 {
        lemma_mod_bound(
            (((now - v.last) as nat) * v.speed + v.carry) as int,
            MS_PER_SEC as int,
        );
        assert(w.steps_due(now) == 0);
    }
}

/// The state after polls at each of `times` in turn.
pub open spec fn polled_all(v: MarqueeView, times: Seq<nat>) -> MarqueeView
    decreases times.len(),
{
    if times.len() == 0 {
        v
    } else {
        polled_all(v.polled(times[0]), times.drop_first())
    }
}

/// Polls at the times of the form `times` then `t` end in a poll at `t`.
pub proof fn lemma_polled_all_push(v: MarqueeView, times: Seq<nat>, t: nat)
    ensures
        polled_all(v, times.push(t)) == polled_all(v, times).polled(t),
    decreases times.len(),
{
    if times.len() == 0 {
        assert(times.push(t)[0] == t);
        assert(times.push(t).drop_first() =~= Seq::<nat>::empty());
        assert(polled_all(v.polled(t), Seq::<nat>::empty()) == v.polled(t));
        assert(polled_all(v, times) == v);
    } else {
        assert(times.push(t)[0] == times[0]);
        assert(times.push(t).drop_first() =~= times.drop_first().push(t));
        lemma_polled_all_push(v.polled(times[0]), times.drop_first(), t);
    }
}

/// Clock readings in milliseconds, as naturals.
pub open spec fn instants(times: Seq<u64>) -> Seq<nat> {
    times.map_values(|t: u64| t as nat)
}

/// Whatever the polls before, a marquee that was at offset 0 at time `t0`
/// shows, after polls at the non-decreasing `times`, the offset
/// `floor(elapsed seconds * speed) mod width` for the time of the last poll.
pub proof fn lemma_offset_after_polls(v: MarqueeView, t0: nat, times: Seq<nat>)
    requires
        v.wf(),
        v.offset == 0,
        v.carry == 0,
        v.last == t0,
        times.len() > 0,
        t0 <= times[0],
        forall|i: int, j: int| 0 <= i <= j < times.len() ==> times[i] <= times[j],
    ensures
        polled_all(v, times).wf(),
        polled_all(v, times).offset as int == ((times.last() - t0) * v.speed / (
        MS_PER_SEC as int)) % (v.width as int),
{
    let t = times.last();
    lemma_polls_keep_offset_due(v, times, t);
    lemma_polled_all_ends_at(v, times);
    lemma_small_mod(v.offset, v.width);
}

/// Polls at times up to `t` leave the offset due at `t` unchanged.
proof fn lemma_polls_keep_offset_due(v: MarqueeView, times: Seq<nat>, t: nat)
    requires
        v.wf(),
        forall|i: int| 0 <= i < times.len() ==> times[i] <= t,
    ensures
        polled_all(v, times).wf(),
        polled_all(v, times).offset_at(t) == v.offset_at(t),
    decreases times.len(),
{
    if times.len() > 0 {
        lemma_poll_frequency_independent(v, times[0], t);
        let rest = times.drop_first();
        assert forall|i: int| 0 <= i < rest.len() implies rest[i] <= t by {
            assert(rest[i] == times[i + 1]);
        }
        lemma_polls_keep_offset_due(v.polled(times[0]), rest, t);
    }
}

/// After a last poll at `t`, nothing more is due at `t`: the offset shown is
/// the one due then.
proof fn lemma_polled_all_ends_at(v: MarqueeView, times: Seq<nat>)
    requires
        v.wf(),
        times.len() > 0,
        forall|i: int, j: int| 0 <= i <= j < times.len() ==> times[i] <= times[j],
    ensures
        polled_all(v, times).offset_at(times.last()) == polled_all(v, times).offset,
    decreases times.len(),
{
    let w = v.polled(times[0]);
    lemma_poll_frequency_independent(v, times[0], times[0]);
    lemma_poll_idempotent(v, times[0]);
    if times.len() == 1 {
        assert(times.drop_first().len() == 0);
        lemma_poll_frequency_independent(w, times[0], times[0]);
        lemma_small_mod(w.offset, w.width);
        assert(w.polled(times[0]).offset == w.offset_at(times[0]));
        assert(polled_all(w, times.drop_first()) == w);
        assert(polled_all(v, times) == w);
    } else {
        let rest = times.drop_first();
        assert forall|i: int, j: int| 0 <= i <= j < rest.len() implies rest[i] <= rest[j] by {
            assert(rest[i] == times[i + 1]);
            assert(rest[j] == times[j + 1]);
        }
        assert(rest.last() == times.last());
        lemma_polled_all_ends_at(w, rest);
    }
}

/// The viewport of a message wrapped circularly at `offset`: when the
/// message runs past the right edge, the part that does not fit comes first,
/// then padding, then the part that fits; otherwise padding, the message and
/// padding.
pub open spec fn viewport(msg: Seq<char>, width: nat, offset: nat) -> Seq<char> {
    if offset + msg.len() > width {
        let s = (width - offset) as int;
        msg.subrange(s, msg.len() as int) + spaces((width - msg.len()) as nat) + msg.subrange(0, s)
    } else {
        spaces(offset) + msg + spaces((width - msg.len() - offset) as nat)
    }
}

/// The line drawn for a marquee: the viewport between brackets.
pub open spec fn marquee_line(msg: Seq<char>, width: nat, offset: nat) -> Seq<char> {
    seq!['['] + viewport(msg, width, offset) + seq![']']
}

/// A message scrolling through a fixed-width viewport at a fixed speed. It
/// never finishes.
pub struct ScrollingMsg {
    msg: String,
    chars: usize,
    width: usize,
    y: i32,
    x: usize,
    last: u64,
    carry: u64,
    speed: usize,
}

impl View for ScrollingMsg {
    type V = MarqueeView;

    closed spec fn view(&self) -> MarqueeView {
        MarqueeView {
            msg: self.msg@,
            width: self.width as nat,
            row: self.y as int,
            offset: self.x as nat,
            last: self.last as nat,
            carry: self.carry as nat,
            speed: self.speed as nat,
        }
    }
}

impl ScrollingMsg {
    /// The state is consistent, and the cached message length is right.
    pub closed spec fn wf(&self) -> bool {
        &&& self@.wf()
        &&& self.chars == self.msg@.len()
    }

    /// A marquee at offset 0 whose clock starts at `now_ms`. The message must
    /// fit in the viewport.
    pub fn new(msg: String, width: usize, y: i32, speed: usize, now_ms: u64) -> (r: Self)
        requires
            0 < width,
            msg@.len() <= width,
        ensures
            r.wf(),
            r@.wf(),
            r@ == (MarqueeView {
                msg: msg@,
                width: width as nat,
                row: y as int,
                offset: 0,
                last: now_ms as nat,
                carry: 0,
                speed: speed as nat,
            }),
            forall|t: nat|
                t >= now_ms ==> #[trigger] r@.offset_at(t) as int == (((t - now_ms) * speed) / (
                MS_PER_SEC as int)) % (width as int),
    {
        let chars = msg.as_str().unicode_len();
        ScrollingMsg { msg, chars, width, y, x: 0, last: now_ms, carry: 0, speed }
    }

    /// Advances by the whole steps due at `now_ms` and returns the line to
    /// draw.
    pub fn advance(&mut self, now_ms: u64) -> (r: Draw)
        requires
            old(self).wf(),
        ensures
            final(self).wf(),
            final(self)@.wf(),
            final(self)@ == old(self)@.polled(now_ms as nat),
            final(self)@.offset == old(self)@.offset_at(now_ms as nat),
            r.y == old(self)@.row,
            r.text@ == marquee_line(old(self)@.msg, old(self)@.width, final(self)@.offset),
    {
        let elapsed: u64 = if now_ms > self.last { now_ms - self.last } else { 0 };
        assert((elapsed as u128) * (self.speed as u128) <= 0xffff_ffff_ffff_ffff * 0xffff_ffff_ffff_ffff) by (nonlinear_arith)
            requires elapsed <= 0xffff_ffff_ffff_ffff, self.speed <= 0xffff_ffff_ffff_ffff,
        {}
        let units: u128 = (elapsed as u128) * (self.speed as u128) + self.carry as u128;
        let due: u128 = units / (MS_PER_SEC as u128);
        let w = self.width as u128;
        let ghost v = self@;
        proof {
            lemma_mod_bound((due) as int, w as int);
            lemma_add_mod_noop_right(self.x as int, due as int, w as int);
        }
        let nx = ((self.x as u128 + due % w) % w) as usize;
        assert(nx == v.offset_at(now_ms as nat));
        self.x = nx;
        if due == 0 {
            proof {
                lemma_small_mod(v.offset, v.width);
            }
        } else {
            assert(now_ms > v.last);
            assert(elapsed * self.speed == (now_ms - v.last) * v.speed);
            self.last = now_ms;
            self.carry = (units % (MS_PER_SEC as u128)) as u64;
        }
        assert(self@ =~= v.polled(now_ms as nat));
        Draw { y: self.y, text: self.render() }
    }

    /// Polls at each of `times` in turn and returns what each poll draws.
    /// The state is then `polled_all` the schedule.
    pub fn advance_all(&mut self, times: &Vec<u64>) -> (r: Vec<Draw>)
        requires
            old(self).wf(),
        ensures
            final(self).wf(),
            final(self)@.wf(),
            final(self)@ == polled_all(old(self)@, instants(times@)),
            r@.len() == times@.len(),
            forall|i: int|
                0 <= i < r@.len() ==> (#[trigger] r@[i]).y == old(self)@.row && r@[i].text@
                    == marquee_line(
                    old(self)@.msg,
                    old(self)@.width,
                    polled_all(old(self)@, instants(times@).take(i + 1)).offset,
                ),
    {
        let ghost v0 = self@;
        let ghost all = instants(times@);
        let mut out: Vec<Draw> = Vec::new();
        let mut i: usize = 0;
        assert(all.take(0) =~= Seq::<nat>::empty());
        while i < times.len()
            invariant
                self.wf(),
                i <= times@.len(),
                all == instants(times@),
                self@ == polled_all(v0, all.take(i as int)),
                self@.msg == v0.msg,
                self@.width == v0.width,
                self@.row == v0.row,
                out@.len() == i,
                forall|j: int|
                    0 <= j < i ==> (#[trigger] out@[j]).y == v0.row && out@[j].text@
                        == marquee_line(v0.msg, v0.width, polled_all(v0, all.take(j + 1)).offset),
            decreases times@.len() - i,
        {
            proof {
                assert(all.take(i + 1) =~= all.take(i as int).push(all[i as int]));
                lemma_polled_all_push(v0, all.take(i as int), all[i as int]);
            }
            let d = self.advance(times[i]);
            out.push(d);
            i = i + 1;
        }
        assert(all.take(i as int) =~= all);
        out
    }

    /// The line for the current offset.
    pub fn render(&self) -> (r: String)
        requires
            self.wf(),
        ensures
            r@ == marquee_line(self@.msg, self@.width, self@.offset),
    {
        proof {
            reveal_strlit("[");
            reveal_strlit("]");
            reveal_strlit(" ");
        }
        let mut s = String::from_str("[");
        let text = self.msg.as_str();
        if self.x > self.width - self.chars {
            let cut = self.width - self.x;
            s.append(text.substring_char(cut, self.chars));
            push_run(&mut s, " ", self.width - self.chars);
            s.append(text.substring_char(0, cut));
        } else {
            push_run(&mut s, " ", self.x);
            s.append(text);
            push_run(&mut s, " ", self.width - self.chars - self.x);
        }
        s.append("]");
        assert(s@ =~= marquee_line(self@.msg, self@.width, self@.offset));
        s
    }

    /// The current offset.
    pub fn offset(&self) -> (r: usize)
        ensures
            r == self@.offset,
    {
        self.x
    }
}

impl WindowItem for ScrollingMsg {
    open spec fn item_wf(&self) -> bool {
        self.wf()
    }

    open spec fn done_view(&self) -> bool {
        false
    }

    fn bg_y(&self) -> (r: i32)
        ensures
            r == self@.row,
    {
        self.y
    }

    fn len(&self) -> (r: usize)
        ensures
            r == 1,
    {
        1
    }

    fn poll(&mut self, now_ms: u64) -> (r: (bool, Option<Draw>))
        ensures
            final(self)@.wf(),
            final(self)@ == old(self)@.polled(now_ms as nat),
            r.1 is Some,
            r.1->0.y == old(self)@.row,
            r.1->0.text@ == marquee_line(old(self)@.msg, old(self)@.width, final(self)@.offset),
    {
        let d = self.advance(now_ms);
        (false, Some(d))
    }

    fn is_done(&self) -> (r: bool) {
        false
    }
}

} // verus!
