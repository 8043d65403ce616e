//! Arbitration of one two-wire bus between several drivers.
//!
//! The [`Arbiter`] owns the transport. Each driver holds a [`Proxy`] and asks
//! the arbiter for every primitive it wants on the wire. The arbiter keeps a
//! guard: from a granted start to the matching stop the bus belongs to one
//! proxy, and whatever another proxy asks for in between is refused. A grant
//! lends the transport to the caller, who performs the primitive on it; a
//! refusal lends nothing.
//!
//! What reaches the wire is therefore the sequence of granted primitives. The
//! arbiter carries that sequence as ghost state, and the laws at the end of
//! this file say what it looks like: whole transactions, each by one proxy,
//! one after the other.

use vstd::prelude::*;

verus! {

/// A primitive of the two-wire bus.
#[derive(Clone, Copy, Debug, PartialEq, Eq, Structural)]
pub enum Signal {
    /// Start condition, followed by the address of the peripheral.
    Start { address: u8 },
    /// One byte from the controller to the peripheral.
    Write { byte: u8 },
    /// One byte from the peripheral to the controller.
    Read,
    /// Stop condition.
    Stop,
}

/// Why a request was refused.
#[derive(Clone, Copy, Debug, PartialEq, Eq, Structural)]
pub enum Refusal {
    /// Another proxy's transaction is open.
    Busy,
    /// No transaction is open, and the request was not a start.
    Idle,
    /// The handle was not handed out by this arbiter.
    Foreign,
}

/// A primitive together with the proxy that issued it.
pub struct Entry {
    pub proxy: nat,
    pub signal: Signal,
}

/// The element just before index `i`, if there is one.
pub open spec fn before(trace: Seq<Entry>, i: int) -> Option<Entry> {
    if 0 < i <= trace.len() {
        Some(trace[i - 1])
    } else {
        None
    }
}

/// Whether `next` may come directly after `prev` on the wire: inside a
/// transaction only its owner speaks, and outside one only a start is heard.
pub open spec fn may_follow(prev: Option<Entry>, next: Entry) -> bool {
    match prev {
        Some(p) => if p.signal is Stop {
            next.signal is Start
        } else {
            next.proxy == p.proxy
        },
        None => next.signal is Start,
    }
}

/// A trace made of whole transactions, one after the other, the last of
/// which may still be open.
pub open spec fn serial(trace: Seq<Entry>) -> bool {
    forall|i: int| 0 <= i < trace.len() ==> may_follow(#[trigger] before(trace, i), trace[i])
}

/// The proxy whose transaction is open at the end of `trace`.
pub open spec fn open_by(trace: Seq<Entry>) -> Option<nat> {
    if trace.len() == 0 || trace.last().signal is Stop {
        None
    } else {
        Some(trace.last().proxy)
    }
}

/// `signals`, all issued by `proxy`.
pub open spec fn issued_by(proxy: nat, signals: Seq<Signal>) -> Seq<Entry> {
    Seq::new(signals.len(), |i: int| Entry { proxy, signal: signals[i] })
}

/// The signals that carry `bytes` to the peripheral.
pub open spec fn writes(bytes: Seq<u8>) -> Seq<Signal> {
    Seq::new(bytes.len(), |i: int| Signal::Write { byte: bytes[i] })
}

/// The signals that fetch `count` bytes from the peripheral.
pub open spec fn reads(count: nat) -> Seq<Signal> {
    Seq::new(count, |i: int| Signal::Read)
}

/// What an arbiter knows: how many proxies it has handed out, which of them
/// holds the bus, and everything it has let onto the wire so far.
pub struct BusState {
    pub issued: nat,
    pub holder: Option<nat>,
    pub trace: Seq<Entry>,
}

impl BusState {
    /// The state of a new arbiter.
    pub open spec fn fresh() -> BusState {
        BusState { issued: 0, holder: None, trace: Seq::empty() }
    }

    /// The invariant of every arbiter.
    pub open spec fn wf(self) -> bool {
        &&& serial(self.trace)
        &&& self.holder == open_by(self.trace)
        &&& forall|i: int|
            0 <= i < self.trace.len() ==> (#[trigger] self.trace[i]).proxy < self.issued
    }

    /// The answer to `proxy`, asking for a start if `opening` and for any
    /// other primitive if not: `None` grants the request.
    pub open spec fn judge(self, proxy: nat, opening: bool) -> Option<Refusal> {
        if proxy >= self.issued {
            Some(Refusal::Foreign)
        } else if self.holder == Some(proxy) {
            None
        } else if self.holder is Some {
            Some(Refusal::Busy)
        } else if opening {
            None
        } else {
            Some(Refusal::Idle)
        }
    }

    /// The state after `signal` from `proxy` went on the wire.
    pub open spec fn record(self, proxy: nat, signal: Signal) -> BusState {
        BusState {
            issued: self.issued,
            holder: if signal is Stop {
                None
            } else {
                Some(proxy)
            },
            trace: self.trace.push(Entry { proxy, signal }),
        }
    }

    /// The state after `proxy` asked for `signal`: recorded if granted,
    /// unchanged if refused.
    pub open spec fn submit(self, proxy: nat, signal: Signal) -> BusState {
        if self.judge(proxy, signal is Start) is None {
            self.record(proxy, signal)
        } else {
            self
        }
    }

    /// The state after the given requests were made one after the other.
    pub open spec fn run(self, requests: Seq<Entry>) -> BusState
        decreases requests.len(),
    {
        if requests.len() == 0 {
            self
        } else {
            self.run(requests.drop_last()).submit(requests.last().proxy, requests.last().signal)
        }
    }

    /// The state after `proxy` asked for each of `signals`, none of them a
    /// start or a stop: all of them are on the wire if `proxy` holds the bus,
    /// and none if it does not.
    pub open spec fn transfer(self, proxy: nat, signals: Seq<Signal>) -> BusState {
        if self.judge(proxy, false) is None {
            BusState {
                issued: self.issued,
                holder: self.holder,
                trace: self.trace + issued_by(proxy, signals),
            }
        } else {
            self
        }
    }

    /// The state after one more proxy was handed out.
    pub open spec fn grow(self) -> BusState {
        BusState { issued: self.issued + 1, holder: self.holder, trace: self.trace }
    }
}

/// A handle on the shared bus, held by one driver.
#[derive(Debug, PartialEq, Eq)]
pub struct Proxy {
    id: usize,
}

impl Proxy {
    /// The number that tells this proxy from the others of its arbiter.
    pub closed spec fn index(&self) -> nat {
        self.id as nat
    }

    /// The number that tells this proxy from the others of its arbiter.
    pub fn id(&self) -> (id: usize)
        ensures
            id == self.index(),
    {
        self.id
    }
}

/// The guard of one shared bus: who holds it, and what went over it.
struct Guard {
    issued: usize,
    holder: Option<usize>,
    trace: Ghost<Seq<Entry>>,
}

impl View for Guard {
    type V = BusState;

    closed spec fn view(&self) -> BusState {
        BusState {
            issued: self.issued as nat,
            holder: match self.holder {
                Some(h) => Some(h as nat),
                None => None,
            },
            trace: self.trace@,
        }
    }
}

impl Guard {
    #[verifier::type_invariant]
    spec fn inv(&self) -> bool {
        self@.wf()
    }

    fn new() -> (guard: Guard)
        ensures
            guard@ == BusState::fresh(),
    {
        Guard { issued: 0, holder: None, trace: Ghost(Seq::empty()) }
    }

    fn acquire(&mut self) -> (proxy: Proxy)
        requires
            old(self)@.issued < usize::MAX,
        ensures
            proxy.index() == old(self)@.issued,
            final(self)@ == old(self)@.grow(),
            final(self)@.wf(),
    {
        proof {
            use_type_invariant(&*self);
        }
        let id: usize = self.issued;
        *self = Guard { issued: id + 1, holder: self.holder, trace: self.trace };
        Proxy { id }
    }

    fn judge(&self, proxy: &Proxy, opening: bool) -> (refusal: Option<Refusal>)
        ensures
            refusal == self@.judge(proxy.index(), opening),
            self@.wf(),
    {
        proof {
            use_type_invariant(self);
        }
        if proxy.id >= self.issued {
            Some(Refusal::Foreign)
        } else {
            match self.holder {
                Some(h) => if h == proxy.id {
                    None
                } else {
                    Some(Refusal::Busy)
                },
                None => if opening {
                    None
                } else {
                    Some(Refusal::Idle)
                },
            }
        }
    }

    fn submit(&mut self, proxy: &Proxy, signal: Signal) -> (refusal: Option<Refusal>)
        ensures
            refusal == old(self)@.judge(proxy.index(), signal is Start),
            final(self)@ == old(self)@.submit(proxy.index(), signal),
            final(self)@.wf(),
    {
        let refusal = self.judge(proxy, matches!(signal, Signal::Start { .. }));
        proof {
            lemma_submit_keeps_wf(self@, proxy.index(), signal);
        }
        if refusal.is_none() {
            let holder = if matches!(signal, Signal::Stop) {
                None
            } else {
                Some(proxy.id)
            };
            let trace = Ghost(self.trace@.push(Entry { proxy: proxy.index(), signal }));
            *self = Guard { issued: self.issued, holder, trace };
        }
        refusal
    }

    fn transfer(&mut self, proxy: &Proxy, Ghost(signals): Ghost<Seq<Signal>>) -> (refusal: Option<
        Refusal,
    >)
        requires
            forall|i: int|
                0 <= i < signals.len() ==> !(#[trigger] signals[i] is Start) && !(signals[i]
                    is Stop),
        ensures
            refusal == old(self)@.judge(proxy.index(), false),
            final(self)@ == old(self)@.transfer(proxy.index(), signals),
            final(self)@.wf(),
    {
        let refusal = self.judge(proxy, false);
        proof {
            lemma_transfer_is_run(self@, proxy.index(), signals);
        }
        if refusal.is_none() {
            let trace = Ghost(self.trace@ + issued_by(proxy.index(), signals));
            *self = Guard { issued: self.issued, holder: self.holder, trace };
        }
        refusal
    }
}

/// One transport, shared by the proxies handed out for it.
pub struct Arbiter<T> {
    transport: T,
    guard: Guard,
}

impl<T> Arbiter<T> {
    /// Who holds the bus and what went over it.
    pub closed spec fn bus(&self) -> BusState {
        self.guard@
    }

    /// The transport.
    pub closed spec fn transport(&self) -> T {
        self.transport
    }

    /// Takes the transport over. Nobody holds the bus yet, and no proxy is
    /// handed out.
    pub fn create(transport: T) -> (arbiter: Arbiter<T>)
        ensures
            arbiter.bus() == BusState::fresh(),
            arbiter.bus().wf(),
            arbiter.transport() == transport,
    {
        Arbiter { transport, guard: Guard::new() }
    }

    /// Number of proxies handed out so far.
    pub fn proxies(&self) -> (n: usize)
        ensures
            n == self.bus().issued,
    {
        self.guard.issued
    }

    /// The proxy whose transaction is open, by its number.
    pub fn holder(&self) -> (holder: Option<usize>)
        ensures
            holder is Some <==> self.bus().holder is Some,
            holder matches Some(h) ==> self.bus().holder == Some(h as nat),
    {
        self.guard.holder
    }

    /// Hands out a new proxy. It differs from every proxy handed out before,
    /// and neither the wire nor the transport is touched.
    pub fn acquire(&mut self) -> (proxy: Proxy)
        requires
            old(self).bus().issued < usize::MAX,
        ensures
            proxy.index() == old(self).bus().issued,
            final(self).bus() == old(self).bus().grow(),
            final(self).bus().wf(),
            final(self).transport() == old(self).transport(),
    {
        self.guard.acquire()
    }

    /// Asks to open a transaction with the peripheral at `address`.
    ///
    /// Granted when the bus is free, and to the holder of the bus, who starts
    /// anew within its transaction.
    pub fn start(&mut self, proxy: &Proxy, address: u8) -> (answer: Result<&mut T, Refusal>)
        ensures
            final(self).bus() == old(self).bus().submit(proxy.index(), Signal::Start { address }),
            final(self).bus().wf(),
            match answer {
                Ok(wire) => {
                    &&& old(self).bus().judge(proxy.index(), true) is None
                    &&& *wire == old(self).transport()
                    &&& final(self).transport() == *final(wire)
                },
                Err(refusal) => {
                    &&& old(self).bus().judge(proxy.index(), true) == Some(refusal)
                    &&& final(self).transport() == old(self).transport()
                },
            },
    {
        match self.guard.submit(proxy, Signal::Start { address }) {
            None => Ok(&mut self.transport),
            Some(refusal) => Err(refusal),
        }
    }

    /// Asks to send `bytes` within the open transaction of `proxy`: all of
    /// them or none.
    pub fn write(&mut self, proxy: &Proxy, bytes: &[u8]) -> (answer: Result<&mut T, Refusal>)
        ensures
            final(self).bus() == old(self).bus().transfer(proxy.index(), writes(bytes@)),
            final(self).bus().wf(),
            match answer {
                Ok(wire) => {
                    &&& old(self).bus().judge(proxy.index(), false) is None
                    &&& *wire == old(self).transport()
                    &&& final(self).transport() == *final(wire)
                },
                Err(refusal) => {
                    &&& old(self).bus().judge(proxy.index(), false) == Some(refusal)
                    &&& final(self).transport() == old(self).transport()
                },
            },
    {
        match self.guard.transfer(proxy, Ghost(writes(bytes@))) {
            None => Ok(&mut self.transport),
            Some(refusal) => Err(refusal),
        }
    }

    /// Asks to fetch `count` bytes within the open transaction of `proxy`:
    /// all of them or none.
    pub fn read(&mut self, proxy: &Proxy, count: usize) -> (answer: Result<&mut T, Refusal>)
        ensures
            final(self).bus() == old(self).bus().transfer(proxy.index(), reads(count as nat)),
            final(self).bus().wf(),
            match answer {
                Ok(wire) => {
                    &&& old(self).bus().judge(proxy.index(), false) is None
                    &&& *wire == old(self).transport()
                    &&& final(self).transport() == *final(wire)
                },
                Err(refusal) => {
                    &&& old(self).bus().judge(proxy.index(), false) == Some(refusal)
                    &&& final(self).transport() == old(self).transport()
                },
            },
    {
        match self.guard.transfer(proxy, Ghost(reads(count as nat))) {
            None => Ok(&mut self.transport),
            Some(refusal) => Err(refusal),
        }
    }

    /// Asks to close the open transaction of `proxy`, which frees the bus.
    pub fn stop(&mut self, proxy: &Proxy) -> (answer: Result<&mut T, Refusal>)
        ensures
            final(self).bus() == old(self).bus().submit(proxy.index(), Signal::Stop),
            final(self).bus().wf(),
            match answer {
                Ok(wire) => {
                    &&& old(self).bus().judge(proxy.index(), false) is None
                    &&& *wire == old(self).transport()
                    &&& final(self).transport() == *final(wire)
                },
                Err(refusal) => {
                    &&& old(self).bus().judge(proxy.index(), false) == Some(refusal)
                    &&& final(self).transport() == old(self).transport()
                },
            },
    {
        match self.guard.submit(proxy, Signal::Stop) {
            None => Ok(&mut self.transport),
            Some(refusal) => Err(refusal),
        }
    }
}

/// A request keeps the invariant, granted or not.
pub proof fn lemma_submit_keeps_wf(state: BusState, proxy: nat, signal: Signal)
    requires
        state.wf(),
    ensures
        state.submit(proxy, signal).wf(),
{
    let after = state.submit(proxy, signal);
    if state.judge(proxy, signal is Start) is None {
        assert forall|i: int| 0 <= i < after.trace.len() implies may_follow(
            #[trigger] before(after.trace, i),
            after.trace[i],
        ) by {
            if i < state.trace.len() {
                assert(before(after.trace, i) == before(state.trace, i));
            }
        }
    }
}

/// Whatever is asked of an arbiter, in whatever order and by whichever
/// proxies, the wire carries whole transactions one after the other: the
/// invariant holds after any sequence of requests. What was on the wire
/// before stays there, and no proxy appears or disappears.
pub proof fn lemma_requests_stay_serial(state: BusState, requests: Seq<Entry>)
    requires
        state.wf(),
    ensures
        state.run(requests).wf(),
        serial(state.run(requests).trace),
        state.run(requests).issued == state.issued,
        state.trace.is_prefix_of(state.run(requests).trace),
    decreases requests.len(),
{
    if requests.len() > 0 {
        let earlier = state.run(requests.drop_last());
        lemma_requests_stay_serial(state, requests.drop_last());
        lemma_submit_keeps_wf(earlier, requests.last().proxy, requests.last().signal);
    }
}

/// Whatever is asked of an arbiter, in whatever order and by whichever
/// proxies, two primitives on the wire with no stop from the first up to the
/// second come from one proxy: no transaction is cut into by another.
pub proof fn lemma_requests_never_interleave(
    state: BusState,
    requests: Seq<Entry>,
    i: int,
    j: int,
)
    requires
        state.wf(),
        0 <= i <= j < state.run(requests).trace.len(),
        forall|k: int| i <= k < j ==> !(#[trigger] state.run(requests).trace[k].signal is Stop),
    ensures
        state.run(requests).trace[i].proxy == state.run(requests).trace[j].proxy,
{
    lemma_requests_stay_serial(state, requests);
    lemma_no_interleaving(state.run(requests).trace, i, j);
}

/// Between two entries of a serial trace with no stop from the first up to
/// the second, the proxy is the same: nothing of another transaction comes
/// in between.
pub proof fn lemma_no_interleaving(trace: Seq<Entry>, i: int, j: int)
    requires
        serial(trace),
        0 <= i <= j < trace.len(),
        forall|k: int| i <= k < j ==> !(#[trigger] trace[k].signal is Stop),
    ensures
        trace[i].proxy == trace[j].proxy,
    decreases j - i,
{
    if i < j {
        lemma_no_interleaving(trace, i, j - 1);
        assert(before(trace, j) == Some(trace[j - 1]));
    }
}

/// Every entry of a serial trace belongs to a transaction that its own
/// proxy opened with a start, and that was not closed before the entry.
pub proof fn lemma_opened_by_start(trace: Seq<Entry>, j: int) -> (i: int)
    requires
        serial(trace),
        0 <= j < trace.len(),
    ensures
        0 <= i <= j,
        trace[i].signal is Start,
        before(trace, i) matches Some(p) ==> p.signal is Stop,
        trace[i].proxy == trace[j].proxy,
        forall|k: int| i <= k < j ==> !(#[trigger] trace[k].signal is Stop),
    decreases j,
{
    assert(may_follow(before(trace, j), trace[j]));
    if j == 0 || trace[j - 1].signal is Stop {
        j
    } else {
        lemma_opened_by_start(trace, j - 1)
    }
}

/// On a free bus every entry of the trace belongs to a transaction that its
/// own proxy closed with a stop: nothing is left half done.
pub proof fn lemma_closed_by_stop(trace: Seq<Entry>, j: int) -> (k: int)
    requires
        serial(trace),
        open_by(trace) is None,
        0 <= j < trace.len(),
    ensures
        j <= k < trace.len(),
        trace[k].signal is Stop,
        trace[k].proxy == trace[j].proxy,
        forall|m: int| j <= m < k ==> !(#[trigger] trace[m].signal is Stop),
    decreases trace.len() - j,
{
    if trace[j].signal is Stop {
        j
    } else {
        assert(before(trace, j + 1) == Some(trace[j]));
        lemma_closed_by_stop(trace, j + 1)
    }
}

/// Asking for several primitives at once is the same as asking for them one
/// by one.
pub proof fn lemma_transfer_is_run(state: BusState, proxy: nat, signals: Seq<Signal>)
    requires
        state.wf(),
        forall|i: int|
            0 <= i < signals.len() ==> !(#[trigger] signals[i] is Start) && !(signals[i] is Stop),
    ensures
        state.transfer(proxy, signals) == state.run(issued_by(proxy, signals)),
        state.transfer(proxy, signals).wf(),
    decreases signals.len(),
{
    let requests = issued_by(proxy, signals);
    if signals.len() == 0 {
        assert(state.trace + requests =~= state.trace);
    } else {
        let shorter = signals.drop_last();
        lemma_transfer_is_run(state, proxy, shorter);
        assert(requests.drop_last() =~= issued_by(proxy, shorter));
        let earlier = state.transfer(proxy, shorter);
        lemma_submit_keeps_wf(earlier, proxy, signals.last());
        if state.judge(proxy, false) is None {
            assert(earlier.trace.push(requests.last()) =~= state.trace + requests);
        }
    }
}

} // verus!
