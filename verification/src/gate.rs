use crate::errors::XetError;
use vstd::prelude::*;

verus! {

/// The number of write transactions that may be open at once, unless a gate is made for another
/// number.
pub const MAX_NUM_CONCURRENT_TRANSACTIONS: usize = 3;

/// A slot of a concurrency gate, held by one write transaction for as long as it lives.
///
/// A permit cannot be copied. It is handed out by `ConcurrencyGate::acquire` and goes back
/// with `ConcurrencyGate::release`. Each permit of a gate carries a serial number of its own.
#[derive(Debug)]
pub struct Permit {
    serial: u64,
}

impl View for Permit {
    type V = nat;

    closed spec fn view(&self) -> nat {
        self.serial as nat
    }
}

impl Permit {
    /// The serial number of the permit.
    pub fn serial(&self) -> (n: u64)
        ensures
            n == self@,
    {
        self.serial
    }
}

/// The state of a gate, as contracts speak of it.
pub ghost struct GateView {
    /// The number of permits that may be out at once.
    pub capacity: nat,
    /// The number of permits that are out.
    pub in_use: nat,
    /// The number of permits handed out so far, which is the serial number of the next one.
    pub issued: nat,
    /// Whether this gate has been closed.
    pub closed: bool,
}

/// What a gate answers to a request for a permit.
pub ghost enum Verdict {
    /// A slot is free: the caller may go on, and gets a permit.
    Admitted,
    /// Every slot is taken: the caller has to wait until a permit comes back, and ask again.
    Wait,
    /// No more permits are handed out.
    Closed,
}

impl GateView {
    /// No more permits are out than this gate has slots.
    pub open spec fn wf(self) -> bool {
        self.in_use <= self.capacity
    }

    /// Whether this gate refuses every request: it was closed, or it has run out of serial
    /// numbers.
    pub open spec fn exhausted(self) -> bool {
        self.closed || self.issued >= u64::MAX
    }

    /// What this gate answers to a request for a permit.
    pub open spec fn verdict(self) -> Verdict {
        if self.exhausted() {
            Verdict::Closed
        } else if self.in_use < self.capacity {
            Verdict::Admitted
        } else {
            Verdict::Wait
        }
    }

    /// This gate after a request for a permit.
    pub open spec fn after_request(self) -> GateView {
        if self.verdict() is Admitted {
            GateView { in_use: self.in_use + 1, issued: self.issued + 1, ..self }
        } else {
            self
        }
    }

    /// This gate after a permit has come back.
    pub open spec fn after_release(self) -> GateView {
        if self.in_use > 0 {
            GateView { in_use: (self.in_use - 1) as nat, ..self }
        } else {
            self
        }
    }
}

/// A counting gate that bounds how many write transactions are open at once.
///
/// A gate does not suspend anybody: it says whether a caller is admitted or has to wait, and
/// the caller does the waiting.
#[derive(Debug)]
pub struct ConcurrencyGate {
    capacity: usize,
    in_use: usize,
    issued: u64,
    closed: bool,
}

impl View for ConcurrencyGate {
    type V = GateView;

    closed spec fn view(&self) -> GateView {
        GateView {
            capacity: self.capacity as nat,
            in_use: self.in_use as nat,
            issued: self.issued as nat,
            closed: self.closed,
        }
    }
}

impl ConcurrencyGate {
    #[verifier::type_invariant]
    spec fn inv(self) -> bool {
        self.in_use <= self.capacity
    }

    /// A gate with `capacity` slots, all of them free.
    pub fn new(capacity: usize) -> (gate: ConcurrencyGate)
        ensures
            gate@ == (GateView { capacity: capacity as nat, in_use: 0, issued: 0, closed: false }),
    {
        ConcurrencyGate { capacity, in_use: 0, issued: 0, closed: false }
    }

    /// The number of slots of this gate.
    pub fn capacity(&self) -> (n: usize)
        ensures
            n == self@.capacity,
    {
        self.capacity
    }

    /// The number of free slots. The permits that are out never exceed the slots.
    pub fn available_permits(&self) -> (n: usize)
        ensures
            self@.wf(),
            n == self@.capacity - self@.in_use,
    {
        proof {
            use_type_invariant(self);
        }
        self.capacity - self.in_use
    }

    /// Whether this gate has been closed.
    pub fn is_closed(&self) -> (b: bool)
        ensures
            b == self@.closed,
    {
        self.closed
    }

    /// Asks for a permit.
    ///
    /// While this gate is open and a slot is free, the caller is admitted and gets a permit whose
    /// serial number no earlier permit of this gate had. With every slot taken the caller gets
    /// none: it has to wait until a permit comes back, and ask again; this gate stays as it was.
    /// A closed gate refuses the request.
    pub fn acquire(&mut self) -> (r: Result<Option<Permit>, XetError>)
        ensures
            final(self)@ == old(self)@.after_request(),
            final(self)@.wf(),
            match r {
                Ok(Some(permit)) => old(self)@.verdict() is Admitted && permit@ == old(self)@.issued,
                Ok(None) => old(self)@.verdict() is Wait,
                Err(e) => old(self)@.verdict() is Closed && e == XetError::ConcurrencyGateClosed,
            },
    {
        proof {
            use_type_invariant(&*self);
        }
        if self.closed || self.issued == u64::MAX {
            Err(XetError::ConcurrencyGateClosed)
        } else if self.in_use < self.capacity {
            let permit = Permit { serial: self.issued };
            self.in_use = self.in_use + 1;
            self.issued = self.issued + 1;
            Ok(Some(permit))
        } else {
            Ok(None)
        }
    }

    /// Takes a permit back and frees its slot.
    pub fn release(&mut self, permit: Permit)
        ensures
            final(self)@ == old(self)@.after_release(),
            final(self)@.wf(),
    {
        proof {
            use_type_invariant(&*self);
        }
        if self.in_use > 0 {
            self.in_use = self.in_use - 1;
        }
    }

    /// Closes this gate: from now on it admits nobody. Permits that are out can still come back.
    pub fn close(&mut self)
        ensures
            final(self)@ == (GateView { closed: true, ..old(self)@ }),
    {
        proof {
            use_type_invariant(&*self);
        }
        self.closed = true;
    }
}

/// What happens at a gate.
pub ghost enum GateEvent {
    /// A caller asks for a permit.
    Request,
    /// A permit comes back.
    Release,
}

impl GateView {
    /// This gate after an event.
    pub open spec fn step(self, event: GateEvent) -> GateView {
        match event {
            GateEvent::Request => self.after_request(),
            GateEvent::Release => self.after_release(),
        }
    }

    /// This gate after a run of events.
    pub open spec fn run(self, events: Seq<GateEvent>) -> GateView
        decreases events.len(),
    {
        if events.len() == 0 {
            self
        } else {
            self.step(events[0]).run(events.drop_first())
        }
    }
}

/// Whatever is asked of a gate, and whatever comes back, no more permits are out than it
/// has slots. Its capacity stays, a closed gate stays closed, and serial numbers only grow, so
/// that no two permits of a gate share one.
pub proof fn lemma_gate_never_overflows(gate: GateView, events: Seq<GateEvent>)
    requires
        gate.wf(),
    ensures
        gate.run(events).wf(),
        gate.run(events).capacity == gate.capacity,
        gate.run(events).closed == gate.closed,
        gate.run(events).issued >= gate.issued,
    decreases events.len(),
{
    if events.len() > 0 {
        lemma_gate_never_overflows(gate.step(events[0]), events.drop_first());
    }
}

/// With every slot taken a caller has to wait, and is admitted as soon as one permit has come
/// back, provided that permits are still handed out.
pub proof fn lemma_release_admits_waiter(gate: GateView)
    requires
        gate.wf(),
        gate.capacity > 0,
        !gate.exhausted(),
    ensures
        gate.in_use == gate.capacity ==> gate.verdict() is Wait && gate.after_request() == gate,
        gate.in_use == gate.capacity ==> gate.after_release().verdict() is Admitted,
{
}

} // verus!
