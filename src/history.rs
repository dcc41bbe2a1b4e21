use crate::counter::{next_value, wrap_inc, wrapped};
use vstd::arithmetic::div_mod::{lemma_fundamental_div_mod, lemma_fundamental_div_mod_converse};
use vstd::prelude::*;

verus! {

/// The four counter operations a request-handling context can issue.
#[derive(Clone, Copy, Debug, PartialEq, Eq, Structural)]
pub enum Op {
    IncrementGlobal,
    ReadGlobal,
    IncrementLocal,
    ReadLocal,
}

/// One operation, issued by the context numbered `ctx`.
#[derive(Clone, Copy, Debug, PartialEq, Eq, Structural)]
pub struct Event {
    pub ctx: usize,
    pub op: Op,
}

/// The counters of a service as a value: the global count, and one local
/// count per context.
pub type CountsView = (usize, Seq<usize>);

/// The counters before any request: everything at zero.
pub open spec fn initial(contexts: nat) -> CountsView {
    (0, Seq::new(contexts, |i: int| 0usize))
}

/// Every event of `h` comes from one of the `contexts` contexts.
pub open spec fn valid_history(contexts: nat, h: Seq<Event>) -> bool {
    forall|i: int| 0 <= i < h.len() ==> (#[trigger] h[i]).ctx < contexts
}

/// The counters once `e` has taken effect on `s`.
pub open spec fn step(s: CountsView, e: Event) -> CountsView {
    match e.op {
        Op::IncrementGlobal => (wrap_inc(s.0), s.1),
        Op::IncrementLocal => (s.0, s.1.update(e.ctx as int, wrap_inc(s.1[e.ctx as int]))),
        Op::ReadGlobal => s,
        Op::ReadLocal => s,
    }
}

/// What `e` returns when it takes effect on `s`: the new value for an
/// increment, the current one for a read.
pub open spec fn reply(s: CountsView, e: Event) -> usize {
    match e.op {
        Op::IncrementGlobal => wrap_inc(s.0),
        Op::ReadGlobal => s.0,
        Op::IncrementLocal => wrap_inc(s.1[e.ctx as int]),
        Op::ReadLocal => s.1[e.ctx as int],
    }
}

/// The counters after the events of `h`, taken in order.
pub open spec fn after(s: CountsView, h: Seq<Event>) -> CountsView
    decreases h.len(),
{
    if h.len() == 0 {
        s
    } else {
        step(after(s, h.drop_last()), h.last())
    }
}

/// What each event of `h` returns, taken in order from `s`.
pub open spec fn replies(s: CountsView, h: Seq<Event>) -> Seq<usize>
    decreases h.len(),
{
    if h.len() == 0 {
        Seq::empty()
    } else {
        replies(s, h.drop_last()).push(reply(after(s, h.drop_last()), h.last()))
    }
}

/// How many global increments `h` holds.
pub open spec fn global_increments(h: Seq<Event>) -> nat
    decreases h.len(),
{
    if h.len() == 0 {
        0
    } else {
        global_increments(h.drop_last()) + if h.last().op == Op::IncrementGlobal {
            1nat
        } else {
            0nat
        }
    }
}

/// How many local increments context `ctx` issues in `h`.
pub open spec fn local_increments(h: Seq<Event>, ctx: usize) -> nat
    decreases h.len(),
{
    if h.len() == 0 {
        0
    } else {
        local_increments(h.drop_last(), ctx) + if h.last().op == Op::IncrementLocal
            && h.last().ctx == ctx {
            1nat
        } else {
            0nat
        }
    }
}

proof fn lemma_wrapped_succ(n: int)
    requires
        n >= 0,
    ensures
        wrapped(n + 1) == wrap_inc(wrapped(n)),
{
    let m: int = usize::MAX as int + 1;
    lemma_fundamental_div_mod(n as int, m);
    let q = (n as int) / m;
    let r = (n as int) % m;
    assert(n as int == q * m + r) by (nonlinear_arith)
        requires
            n as int == m * q + r,
    ;
    if r + 1 < m {
        lemma_fundamental_div_mod_converse(n as int + 1, m, q, r + 1);
    } else {
        assert(n as int + 1 == (q + 1) * m + 0) by (nonlinear_arith)
            requires
                n as int == q * m + r,
                r + 1 == m,
        ;
        lemma_fundamental_div_mod_converse(n as int + 1, m, q + 1, 0);
    }
}

proof fn lemma_wrapped_add_succ(a: usize, n: nat)
    ensures
        wrapped(a + n + 1) == wrap_inc(wrapped(a + n)),
{
    lemma_wrapped_succ(a + n);
}

proof fn lemma_wrapped_small(a: usize)
    ensures
        wrapped(a as int) == a,
{
    lemma_fundamental_div_mod_converse(a as int, usize::MAX as int + 1, 0, a as int);
}

/// Whatever order the contexts' events are linearized in, the global count
/// has moved forward by exactly the number of global increments, and each
/// context's local count by exactly the number of its own local increments:
/// no update is lost, and the events of other contexts never reach a local
/// count.
pub proof fn lemma_counts_after(s: CountsView, h: Seq<Event>)
    requires
        valid_history(s.1.len(), h),
    ensures
        after(s, h).0 == wrapped(s.0 + global_increments(h)),
        after(s, h).1.len() == s.1.len(),
        forall|c: usize|
            c < s.1.len() ==> #[trigger] after(s, h).1[c as int] == wrapped(
                s.1[c as int] + local_increments(h, c),
            ),
    decreases h.len(),
{
    if h.len() == 0 {
        lemma_wrapped_small(s.0);
        assert forall|c: usize| c < s.1.len() implies #[trigger] after(s, h).1[c as int]
            == wrapped(s.1[c as int] + local_increments(h, c)) by {
            lemma_wrapped_small(s.1[c as int]);
        }
    } else {
        let p = h.drop_last();
        let e = h.last();
        assert(valid_history(s.1.len(), p)) by {
            assert forall|i: int| 0 <= i < p.len() implies (#[trigger] p[i]).ctx < s.1.len() by {
                assert(p[i] == h[i]);
            }
        }
        assert(e.ctx < s.1.len()) by {
            assert(h[h.len() - 1] == e);
        }
        lemma_counts_after(s, p);
        lemma_wrapped_add_succ(s.0, global_increments(p));
        assert forall|c: usize| c < s.1.len() implies #[trigger] after(s, h).1[c as int]
            == wrapped(s.1[c as int] + local_increments(h, c)) by {
            lemma_wrapped_add_succ(s.1[c as int], local_increments(p, c));
        }
    }
}

proof fn lemma_all_global_increments(h: Seq<Event>)
    requires
        forall|i: int| 0 <= i < h.len() ==> (#[trigger] h[i]).op == Op::IncrementGlobal,
    ensures
        global_increments(h) == h.len(),
    decreases h.len(),
{
    if h.len() > 0 {
        let p = h.drop_last();
        assert forall|i: int| 0 <= i < p.len() implies (#[trigger] p[i]).op == Op::IncrementGlobal by {
            assert(p[i] == h[i]);
        }
        assert(h[h.len() - 1] == h.last());
        lemma_all_global_increments(p);
    }
}

proof fn lemma_valid_take(contexts: nat, h: Seq<Event>, n: int)
    requires
        valid_history(contexts, h),
        0 <= n <= h.len(),
    ensures
        valid_history(contexts, h.take(n)),
{
    assert forall|i: int| 0 <= i < h.take(n).len() implies (#[trigger] h.take(n)[i]).ctx < contexts by {
        assert(h.take(n)[i] == h[i]);
    }
}

/// The `i`-th reply of a history is what its `i`-th event returns on the
/// counters left by the events before it.
pub proof fn lemma_reply_at(s: CountsView, h: Seq<Event>, i: int)
    requires
        0 <= i < h.len(),
    ensures
        replies(s, h).len() == h.len(),
        replies(s, h)[i] == reply(after(s, h.take(i)), h[i]),
    decreases h.len(),
{
    let p = h.drop_last();
    if i == h.len() - 1 {
        assert(h.take(i) =~= p);
        if p.len() > 0 {
            lemma_reply_at(s, p, 0);
        } else {
            assert(replies(s, p).len() == 0);
        }
    } else {
        lemma_reply_at(s, p, i);
        assert(p.take(i) =~= h.take(i));
        assert(p[i] == h[i]);
    }
}

/// Every read of the global count returns the starting value moved forward
/// by exactly the global increments linearized before it: never a partial
/// or stale value of its own making.
pub proof fn lemma_read_sees_prior_increments(s: CountsView, h: Seq<Event>, i: int)
    requires
        valid_history(s.1.len(), h),
        0 <= i < h.len(),
        h[i].op == Op::ReadGlobal,
    ensures
        replies(s, h)[i] == wrapped(s.0 + global_increments(h.take(i))),
{
    lemma_reply_at(s, h, i);
    lemma_valid_take(s.1.len(), h, i);
    lemma_counts_after(s, h.take(i));
}

/// `n` global increments issued by any contexts, in any interleaving, from
/// freshly started counters: a read issued afterwards returns exactly `n`.
pub proof fn lemma_no_lost_updates(contexts: nat, h: Seq<Event>, reader: usize)
    requires
        valid_history(contexts, h),
        forall|i: int| 0 <= i < h.len() ==> (#[trigger] h[i]).op == Op::IncrementGlobal,
        h.len() <= usize::MAX,
        reader < contexts,
    ensures
        replies(initial(contexts), h.push(Event { ctx: reader, op: Op::ReadGlobal }))[h.len() as int]
            == h.len(),
{
    let read = Event { ctx: reader, op: Op::ReadGlobal };
    let full = h.push(read);
    assert(valid_history(contexts, full)) by {
        assert forall|i: int| 0 <= i < full.len() implies (#[trigger] full[i]).ctx < contexts by {
            if i < h.len() {
                assert(full[i] == h[i]);
            }
        }
    }
    assert(full.take(h.len() as int) =~= h);
    lemma_read_sees_prior_increments(initial(contexts), full, h.len() as int);
    lemma_all_global_increments(h);
    lemma_wrapped_small(h.len() as usize);
}

/// A read of the global count issued before any increment returns zero.
pub proof fn lemma_first_read_is_zero(contexts: nat, reader: usize)
    requires
        reader < contexts,
    ensures
        replies(initial(contexts), seq![Event { ctx: reader, op: Op::ReadGlobal }])[0] == 0,
{
    let h = seq![Event { ctx: reader, op: Op::ReadGlobal }];
    lemma_reply_at(initial(contexts), h, 0);
    assert(h.take(0) =~= Seq::<Event>::empty());
}

/// Two global increments and one read of the global count, the read taking
/// place at position `k` of the three: it returns the value from before
/// both increments, between them, or after both, as its position says. So
/// the read agrees with one total order of the increments.
pub proof fn lemma_read_between_two_increments(s: CountsView, h: Seq<Event>, k: int)
    requires
        valid_history(s.1.len(), h),
        h.len() == 3,
        0 <= k < 3,
        h[k].op == Op::ReadGlobal,
        forall|i: int| 0 <= i < 3 && i != k ==> (#[trigger] h[i]).op == Op::IncrementGlobal,
    ensures
        replies(s, h)[k] == wrapped(s.0 + k),
{
    lemma_read_sees_prior_increments(s, h, k);
    let t = h.take(k);
    assert forall|i: int| 0 <= i < t.len() implies (#[trigger] t[i]).op == Op::IncrementGlobal by {
        assert(t[i] == h[i]);
    }
    lemma_all_global_increments(t);
}

/// A context's local count, from freshly started counters, is the number of
/// local increments that context issued itself, whatever the other contexts
/// did in between.
pub proof fn lemma_local_isolation(contexts: nat, h: Seq<Event>, ctx: usize)
    requires
        valid_history(contexts, h),
        ctx < contexts,
    ensures
        after(initial(contexts), h).1[ctx as int] == wrapped(local_increments(h, ctx) as int),
{
    lemma_counts_after(initial(contexts), h);
}

/// The counters of a service whose request-handling contexts are numbered
/// `0 .. contexts`, with operations taking effect one at a time: the global
/// count, shared by all, and a local count that belongs to each context
/// alone.
pub struct Contexts {
    global: usize,
    locals: Vec<usize>,
}

impl View for Contexts {
    type V = CountsView;

    closed spec fn view(&self) -> CountsView {
        (self.global, self.locals@)
    }
}

impl Contexts {
    /// Counters for `contexts` contexts, all at zero.
    pub fn new(contexts: usize) -> (r: Contexts)
        ensures
            r@ == initial(contexts as nat),
    {
        let mut locals: Vec<usize> = Vec::new();
        let mut i: usize = 0;
        while i < contexts
            invariant
                i <= contexts,
                locals@ == Seq::new(i as nat, |j: int| 0usize),
            decreases contexts - i,
        {
            locals.push(0);
            i = i + 1;
        }
        assert(locals@ =~= Seq::new(contexts as nat, |j: int| 0usize));
        Contexts { global: 0, locals }
    }

    /// How many contexts there are.
    pub fn contexts(&self) -> (r: usize)
        ensures
            r == self@.1.len(),
    {
        self.locals.len()
    }

    /// Adds one to the global count and returns the new value.
    pub fn increment_global(&mut self) -> (r: usize)
        ensures
            final(self)@ == (wrap_inc(old(self)@.0), old(self)@.1),
            r == final(self)@.0,
    {
        self.global = next_value(self.global);
        self.global
    }

    /// The global count.
    pub fn read_global(&self) -> (r: usize)
        ensures
            r == self@.0,
    {
        self.global
    }

    /// Adds one to the local count of context `ctx` and returns the new
    /// value; no other count changes.
    pub fn increment_local(&mut self, ctx: usize) -> (r: usize)
        requires
            ctx < old(self)@.1.len(),
        ensures
            final(self)@ == (
                old(self)@.0,
                old(self)@.1.update(ctx as int, wrap_inc(old(self)@.1[ctx as int])),
            ),
            r == final(self)@.1[ctx as int],
    {
        let v = next_value(self.locals[ctx]);
        self.locals.set(ctx, v);
        v
    }

    /// The local count of context `ctx`.
    pub fn read_local(&self, ctx: usize) -> (r: usize)
        requires
            ctx < self@.1.len(),
        ensures
            r == self@.1[ctx as int],
    {
        self.locals[ctx]
    }

    /// Lets one event take effect and returns what it answers.
    pub fn apply(&mut self, e: Event) -> (r: usize)
        requires
            e.ctx < old(self)@.1.len(),
        ensures
            final(self)@ == step(old(self)@, e),
            r == reply(old(self)@, e),
    {
        match e.op {
            Op::IncrementGlobal => self.increment_global(),
            Op::ReadGlobal => self.read_global(),
            Op::IncrementLocal => self.increment_local(e.ctx),
            Op::ReadLocal => self.read_local(e.ctx),
        }
    }

    /// Lets the events take effect in order and returns what each answers.
    pub fn run(&mut self, events: &Vec<Event>) -> (r: Vec<usize>)
        requires
            valid_history(old(self)@.1.len(), events@),
        ensures
            final(self)@ == after(old(self)@, events@),
            r@ == replies(old(self)@, events@),
    {
        let ghost start = self@;
        let mut out: Vec<usize> = Vec::new();
        let mut i: usize = 0;
        while i < events.len()
            invariant
                i <= events@.len(),
                valid_history(start.1.len(), events@),
                self@.1.len() == start.1.len(),
                self@ == after(start, events@.take(i as int)),
                out@ == replies(start, events@.take(i as int)),
            decreases events@.len() - i,
        {
            let e = events[i];
            assert(events@.take(i as int + 1).drop_last() =~= events@.take(i as int));
            assert(events@.take(i as int + 1).last() == events@[i as int]);
            let v = self.apply(e);
            out.push(v);
            i = i + 1;
        }
        assert(events@.take(events@.len() as int) =~= events@);
        out
    }
}

} // verus!
