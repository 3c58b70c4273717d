//! Synchronous admission of surface register writes.
//!
//! A producer takes a ticket, and only the oldest ticket of the current lifetime
//! is ever ready. A queued producer has priority over every later GPU tranche.
//! Closing cancels every ticket at once; a cancelled ticket never becomes valid
//! again. Whoever changes the state changes its revision, so a producer that
//! polled before the change does not sleep through it.
use crate::checkpoints::Demand;
use vstd::prelude::*;

verus! {

/// What a ticket is answered.
#[derive(Clone, Copy, Debug, PartialEq, Eq, Structural)]
pub enum Status {
    Ready,
    Busy,
    Cancelled,
    Reentrant,
    WrongThread,
}

/// Why a lifetime ended.
#[derive(Clone, Copy, Debug, PartialEq, Eq, Structural)]
pub enum End {
    Reset,
    Destroy,
}

/// A register write a producer asks to make.
#[derive(Clone, Copy, Debug, PartialEq, Eq, Structural)]
pub struct Write {
    pub offset: u64,
    pub data: u64,
    pub size: u32,
}

impl End {
    /// The name a cancellation is reported under.
    pub open spec fn slug_text(self) -> Seq<char> {
        match self {
            End::Reset => "iosfc_admission_cancelled_by_reset"@,
            End::Destroy => "iosfc_admission_cancelled_by_destroy"@,
        }
    }

    /// The name a cancellation is reported under.
    pub fn slug(self) -> (text: &'static str)
        ensures
            text@ == self.slug_text(),
    {
        match self {
            End::Reset => "iosfc_admission_cancelled_by_reset",
            End::Destroy => "iosfc_admission_cancelled_by_destroy",
        }
    }
}

impl Status {
    /// The name a refusal is reported under; only a refused caller has one.
    pub open spec fn refusal_text(self) -> Option<Seq<char>> {
        match self {
            Status::Reentrant => Some("iosfc_reentrant_device_io"@),
            Status::WrongThread => Some("iosfc_admission_wrong_thread"@),
            _ => None,
        }
    }

    /// The name a refusal is reported under.
    pub fn refusal_slug(self) -> (text: Option<&'static str>)
        ensures
            text is Some <==> self.refusal_text() is Some,
            text matches Some(t) ==> Some(t@) == self.refusal_text(),
    {
        match self {
            Status::Reentrant => Some("iosfc_reentrant_device_io"),
            Status::WrongThread => Some("iosfc_admission_wrong_thread"),
            _ => None,
        }
    }
}

/// The devices one thread is executing for, outermost first.
pub struct Executions {
    active: Vec<u64>,
}

/// One entered execution.
pub struct Execution {
    device: u64,
}

impl View for Executions {
    type V = Seq<u64>;

    closed spec fn view(&self) -> Seq<u64> {
        self.active@
    }
}

impl Executions {
    /// No execution is active.
    pub fn new() -> (executions: Executions)
        ensures
            executions@ == Seq::<u64>::empty(),
    {
        Executions { active: Vec::new() }
    }

    /// Whether the thread is executing for the device.
    pub fn reentrant(&self, device: u64) -> (r: bool)
        ensures
            r == self@.contains(device),
    {
        let mut n: usize = 0;
        while n < self.active.len()
            invariant
                0 <= n <= self.active@.len(),
                forall|k: int| 0 <= k < n ==> self.active@[k] != device,
            decreases self.active@.len() - n,
        {
            if self.active[n] == device {
                assert(self.active@[n as int] == device);
                return true;
            }
            n += 1;
        }
        false
    }

    /// The device the thread is executing for innermost.
    pub fn innermost(&self) -> (device: Option<u64>)
        ensures
            device == if self@.len() > 0 {
                Some(self@.last())
            } else {
                None
            },
    {
        if self.active.len() > 0 {
            Some(self.active[self.active.len() - 1])
        } else {
            None
        }
    }

    /// Whether the thread is executing for any device. Even another device's
    /// nested admission must not be waited for while the outer state is held.
    pub fn execution_active(&self) -> (r: bool)
        ensures
            r == (self@.len() > 0),
    {
        self.active.len() > 0
    }
}

impl Execution {
    /// The device that is executed for.
    pub closed spec fn of(self) -> u64 {
        self.device
    }

    /// Enters an execution for a device that is not entered yet.
    pub fn enter(executions: &mut Executions, device: u64) -> (r: Result<Execution, Status>)
        ensures
            old(executions)@.contains(device) ==> {
                &&& r matches Err(status) && status == Status::Reentrant
                &&& final(executions)@ == old(executions)@
            },
            !old(executions)@.contains(device) ==> {
                &&& r matches Ok(execution) && execution.of() == device
                &&& final(executions)@ == old(executions)@.push(device)
            },
    {
        if executions.reentrant(device) {
            return Err(Status::Reentrant);
        }
        executions.active.push(device);
        Ok(Execution { device })
    }

    /// Leaves the innermost execution.
    pub fn leave(self, executions: &mut Executions)
        requires
            old(executions)@.len() > 0,
            old(executions)@.last() == self.of(),
        ensures
            final(executions)@ == old(executions)@.drop_last(),
    {
        executions.active.pop();
    }
}

/// The admission queue of one device.
pub struct Admission {
    epoch: u64,
    live: bool,
    revision: u64,
    queue: Vec<u64>,
    worker: bool,
}

/// An admission queue as a value.
pub ghost struct AdmissionModel {
    pub epoch: u64,
    pub live: bool,
    pub revision: u64,
    pub queue: Seq<u64>,
    pub worker: bool,
}

/// A producer's place in the queue.
pub struct Ticket {
    pub device: u64,
    pub write: Write,
    id: u64,
    epoch: u64,
    thread: u64,
    observed: u64,
    completed: bool,
}

/// A ticket as a value.
pub ghost struct TicketModel {
    pub device: u64,
    pub write: Write,
    pub id: u64,
    pub epoch: u64,
    pub thread: u64,
    pub observed: u64,
    pub completed: bool,
}

/// The right to run one GPU tranche.
pub struct Worker {
    epoch: u64,
}

/// What a waiting producer does.
#[derive(Clone, Copy, Debug, PartialEq, Eq, Structural)]
pub enum Wait {
    /// Sleep until the state changes.
    Sleep,
    /// Return.
    Return(Status),
}

impl View for Admission {
    type V = AdmissionModel;

    closed spec fn view(&self) -> AdmissionModel {
        AdmissionModel {
            epoch: self.epoch,
            live: self.live,
            revision: self.revision,
            queue: self.queue@,
            worker: self.worker,
        }
    }
}

impl View for Ticket {
    type V = TicketModel;

    closed spec fn view(&self) -> TicketModel {
        TicketModel {
            device: self.device,
            write: self.write,
            id: self.id,
            epoch: self.epoch,
            thread: self.thread,
            observed: self.observed,
            completed: self.completed,
        }
    }
}

/// The revision behind a given one.
pub open spec fn next_revision(revision: u64) -> u64 {
    if revision == u64::MAX {
        0
    } else {
        (revision + 1) as u64
    }
}

/// The ticket is queued in the current lifetime.
pub open spec fn valid(ticket: TicketModel, state: AdmissionModel) -> bool {
    state.live && state.epoch == ticket.epoch && state.queue.contains(ticket.id)
}

/// What polling a ticket is answered.
pub open spec fn polled(ticket: TicketModel, state: AdmissionModel) -> Status {
    if !valid(ticket, state) {
        Status::Cancelled
    } else if state.worker || state.queue[0] != ticket.id {
        Status::Busy
    } else {
        Status::Ready
    }
}

/// What a waiting producer does.
pub open spec fn waited(ticket: TicketModel, state: AdmissionModel) -> Wait {
    if !valid(ticket, state) {
        Wait::Return(Status::Cancelled)
    } else if state.revision == ticket.observed {
        Wait::Sleep
    } else {
        Wait::Return(Status::Ready)
    }
}

/// The caller may not use a ticket, and why: it is executing for some device, or
/// the ticket belongs to another thread.
pub open spec fn refused(executing: bool, ticket_thread: u64, thread: u64) -> Option<Status> {
    if executing {
        Some(Status::Reentrant)
    } else if ticket_thread != thread {
        Some(Status::WrongThread)
    } else {
        None
    }
}

/// A GPU tranche may run: the queue is open and empty, and none is running.
pub open spec fn granted(state: AdmissionModel) -> bool {
    state.live && !state.worker && state.queue.len() == 0
}

/// The queue without any entry of an id.
pub open spec fn without(queue: Seq<u64>, id: u64) -> Seq<u64> {
    queue.filter(|other: u64| other != id)
}

impl Worker {
    /// The lifetime the tranche belongs to.
    pub closed spec fn of_epoch(self) -> u64 {
        self.epoch
    }

    /// The lifetime the tranche belongs to.
    pub fn epoch(&self) -> (epoch: u64)
        ensures
            epoch == self.of_epoch(),
    {
        self.epoch
    }
}

impl Admission {
    /// An open queue in its first lifetime.
    pub fn new() -> (admission: Admission)
        ensures
            admission@ == (AdmissionModel {
                epoch: 1,
                live: true,
                revision: 0,
                queue: Seq::empty(),
                worker: false,
            }),
    {
        let admission = Admission {
            epoch: 1,
            live: true,
            revision: 0,
            queue: Vec::new(),
            worker: false,
        };
        assert(admission@.queue =~= Seq::<u64>::empty());
        admission
    }

    fn notify(&mut self)
        ensures
            final(self)@ == (AdmissionModel {
                revision: next_revision(old(self)@.revision),
                ..old(self)@
            }),
    {
        self.revision = self.revision.wrapping_add(1);
    }

    /// The lifetime the queue is in.
    pub fn epoch(&self) -> (epoch: u64)
        ensures
            epoch == self@.epoch,
    {
        self.epoch
    }

    /// Takes the last place in the queue.
    pub fn issue(
        &mut self,
        executions: &Executions,
        id: u64,
        device: u64,
        write: Write,
        thread: u64,
    ) -> (r: Result<Ticket, Status>)
        ensures
            executions@.len() > 0 ==> {
                &&& r matches Err(status) && status == Status::Reentrant
                &&& final(self)@ == old(self)@
            },
            executions@.len() == 0 && !old(self)@.live ==> {
                &&& r matches Err(status) && status == Status::Cancelled
                &&& final(self)@ == old(self)@
            },
            executions@.len() == 0 && old(self)@.live ==> {
                &&& final(self)@ == (AdmissionModel {
                    queue: old(self)@.queue.push(id),
                    revision: next_revision(old(self)@.revision),
                    ..old(self)@
                })
                &&& r matches Ok(ticket) && ticket@ == (TicketModel {
                    device,
                    write,
                    id,
                    epoch: old(self)@.epoch,
                    thread,
                    observed: final(self)@.revision,
                    completed: false,
                })
            },
    {
        if executions.execution_active() {
            return Err(Status::Reentrant);
        }
        if !self.live {
            return Err(Status::Cancelled);
        }
        self.queue.push(id);
        self.notify();
        Ok(
            Ticket {
                device,
                write,
                id,
                epoch: self.epoch,
                thread,
                observed: self.revision,
                completed: false,
            },
        )
    }

    /// Ends the lifetime: every ticket is cancelled at once, without waiting for
    /// its owner. Answers what to report, where anything was cancelled.
    pub fn close(&mut self, end: End) -> (report: Option<(&'static str, usize)>)
        requires
            old(self)@.epoch < u64::MAX,
        ensures
            final(self)@ == (AdmissionModel {
                epoch: (old(self)@.epoch + 1) as u64,
                live: false,
                revision: next_revision(old(self)@.revision),
                queue: Seq::empty(),
                worker: old(self)@.worker,
            }),
            report is Some <==> old(self)@.queue.len() > 0,
            report matches Some((slug, cancelled)) ==> slug@ == end.slug_text() && cancelled
                == old(self)@.queue.len(),
    {
        let cancelled: usize = self.queue.len();
        self.live = false;
        self.epoch = self.epoch + 1;
        self.queue.clear();
        self.notify();
        assert(self@.queue =~= Seq::<u64>::empty());
        if cancelled != 0 {
            Some((end.slug(), cancelled))
        } else {
            None
        }
    }

    /// Opens the queue for a new lifetime.
    pub fn reopen(&mut self)
        ensures
            final(self)@ == (AdmissionModel {
                live: true,
                revision: next_revision(old(self)@.revision),
                ..old(self)@
            }),
    {
        self.live = true;
        self.notify();
    }

    /// Grants a GPU tranche: only while the queue is open and empty, and only
    /// one at a time.
    pub fn worker(&mut self) -> (worker: Option<Worker>)
        ensures
            worker is Some <==> granted(old(self)@),
            worker matches Some(w) ==> w.of_epoch() == old(self)@.epoch,
            final(self)@ == (AdmissionModel {
                worker: granted(old(self)@) || old(self)@.worker,
                ..old(self)@
            }),
    {
        if !self.live || self.worker || self.queue.len() > 0 {
            return None;
        }
        self.worker = true;
        Some(Worker { epoch: self.epoch })
    }

    /// Takes a GPU tranche back.
    pub fn worker_done(&mut self, worker: Worker)
        ensures
            final(self)@ == (AdmissionModel {
                worker: false,
                revision: next_revision(old(self)@.revision),
                ..old(self)@
            }),
    {
        self.worker = false;
        self.notify();
    }

    /// Tells waiting producers that the device state was released.
    pub fn state_released(&mut self)
        ensures
            final(self)@ == (AdmissionModel {
                revision: next_revision(old(self)@.revision),
                ..old(self)@
            }),
    {
        self.notify();
    }

    /// Whether producers were waiting in a lifetime when it was looked at.
    pub fn checkpoint_demand(&self, epoch: u64) -> (demand: Demand)
        ensures
            demand == demand_of(Some(self@), epoch),
    {
        if !self.live || self.epoch != epoch {
            Demand::Closed
        } else if self.queue.len() == 0 {
            Demand::Absent
        } else {
            Demand::Waiting
        }
    }

    fn queued(&self, id: u64) -> (r: bool)
        ensures
            r == self@.queue.contains(id),
    {
        let mut n: usize = 0;
        while n < self.queue.len()
            invariant
                0 <= n <= self.queue@.len(),
                forall|k: int| 0 <= k < n ==> self.queue@[k] != id,
            decreases self.queue@.len() - n,
        {
            if self.queue[n] == id {
                assert(self.queue@[n as int] == id);
                return true;
            }
            n += 1;
        }
        false
    }
}

/// Whether producers were waiting. A queue that could not be looked at is
/// unknown, not empty.
pub open spec fn demand_of(state: Option<AdmissionModel>, epoch: u64) -> Demand {
    match state {
        None => Demand::Contended,
        Some(s) => if !s.live || s.epoch != epoch {
            Demand::Closed
        } else if s.queue.len() == 0 {
            Demand::Absent
        } else {
            Demand::Waiting
        },
    }
}

/// Whether producers were waiting, from a snapshot that is absent when the queue
/// could not be looked at without blocking.
pub fn snapshot_demand(admission: Option<&Admission>, epoch: u64) -> (demand: Demand)
    ensures
        demand == demand_of(
            match admission {
                Some(a) => Some(a@),
                None => None,
            },
            epoch,
        ),
{
    match admission {
        None => Demand::Contended,
        Some(a) => a.checkpoint_demand(epoch),
    }
}

impl Ticket {
    fn is_valid(&self, admission: &Admission) -> (r: bool)
        ensures
            r == valid(self@, admission@),
    {
        admission.live && admission.epoch == self.epoch && admission.queued(self.id)
    }

    /// Whether the caller may not use the ticket, and why. It takes nothing of the
    /// queue, so a refused caller never has to wait for it.
    pub fn refusal(&self, executions: &Executions, thread: u64) -> (status: Option<Status>)
        ensures
            status == refused(executions@.len() > 0, self@.thread, thread),
    {
        if executions.execution_active() {
            Some(Status::Reentrant)
        } else if self.thread != thread {
            Some(Status::WrongThread)
        } else {
            None
        }
    }

    /// Where the ticket stands. An answered poll remembers the revision it
    /// looked at.
    pub fn poll(
        &mut self,
        admission: &Admission,
        executions: &Executions,
        thread: u64,
    ) -> (status: Status)
        ensures
            match refused(executions@.len() > 0, old(self)@.thread, thread) {
                Some(refusal) => status == refusal && final(self)@ == old(self)@,
                None => status == polled(old(self)@, admission@) && final(self)@ == (TicketModel {
                    observed: admission@.revision,
                    ..old(self)@
                }),
            },
    {
        if let Some(refusal) = self.refusal(executions, thread) {
            return refusal;
        }
        self.observed = admission.revision;
        if !self.is_valid(admission) {
            return Status::Cancelled;
        }
        assert(admission@.queue.len() > 0);
        if admission.worker || admission.queue[0] != self.id {
            Status::Busy
        } else {
            Status::Ready
        }
    }

    /// Whether a waiting producer sleeps or returns. The remembered revision
    /// closes the gap between a poll and the wait behind it.
    pub fn wait(&self, admission: &Admission, executions: &Executions, thread: u64) -> (wait: Wait)
        ensures
            wait == match refused(executions@.len() > 0, self@.thread, thread) {
                Some(refusal) => Wait::Return(refusal),
                None => waited(self@, admission@),
            },
    {
        if let Some(refusal) = self.refusal(executions, thread) {
            return Wait::Return(refusal);
        }
        if !self.is_valid(admission) {
            Wait::Return(Status::Cancelled)
        } else if admission.revision == self.observed {
            Wait::Sleep
        } else {
            Wait::Return(Status::Ready)
        }
    }

    /// The lifetime the ticket was issued in.
    pub fn epoch(&self) -> (epoch: u64)
        ensures
            epoch == self@.epoch,
    {
        self.epoch
    }

    /// Whether the write was made.
    pub fn completed(&self) -> (r: bool)
        ensures
            r == self@.completed,
    {
        self.completed
    }

    /// Remembers that the write was made.
    pub fn complete(&mut self)
        ensures
            final(self)@ == (TicketModel { completed: true, ..old(self)@ }),
    {
        self.completed = true;
    }

    /// Gives the place up, and says whether that leaves the queue empty: the last
    /// live producer owes the worker a wake. A cancelled ticket changes nothing.
    pub fn finish(&self, admission: &mut Admission) -> (wake: bool)
        ensures
            !valid(self@, old(admission)@) ==> !wake && final(admission)@ == old(admission)@,
            valid(self@, old(admission)@) ==> {
                &&& final(admission)@ == (AdmissionModel {
                    queue: without(old(admission)@.queue, self@.id),
                    revision: next_revision(old(admission)@.revision),
                    ..old(admission)@
                })
                &&& wake == (final(admission)@.queue.len() == 0)
            },
    {
        if !self.is_valid(admission) {
            return false;
        }
        let mut kept: Vec<u64> = Vec::new();
        let mut n: usize = 0;
        proof {
            reveal(Seq::filter);
            assert(without(admission.queue@.take(0), self.id) =~= Seq::<u64>::empty());
        }
        while n < admission.queue.len()
            invariant
                0 <= n <= admission.queue@.len(),
                *admission == *old(admission),
                kept@ == without(admission.queue@.take(n as int), self.id),
            decreases admission.queue@.len() - n,
        {
            let other: u64 = admission.queue[n];
            if other != self.id {
                kept.push(other);
            }
            proof {
                let next = admission.queue@.take(n + 1);
                assert(next.drop_last() =~= admission.queue@.take(n as int));
                reveal(Seq::filter);
                assert(kept@ =~= without(next, self.id));
            }
            n += 1;
        }
        assert(admission.queue@.take(n as int) =~= admission.queue@);
        admission.queue = kept;
        admission.notify();
        admission.queue.len() == 0
    }
}

/// `later` may follow `state`: lifetimes only advance.
pub open spec fn precedes(state: AdmissionModel, later: AdmissionModel) -> bool {
    state.epoch <= later.epoch
}

/// A ticket of a lifetime that ended is cancelled in every state from then on,
/// whatever is issued or reopened in between.
pub proof fn law_cancelled_tickets_stay_cancelled(
    ticket: TicketModel,
    closed: AdmissionModel,
    later: AdmissionModel,
)
    requires
        ticket.epoch < closed.epoch,
        precedes(closed, later),
    ensures
        !valid(ticket, later),
        polled(ticket, later) == Status::Cancelled,
        waited(ticket, later) == Wait::Return(Status::Cancelled),
{
}

/// At most one place in the queue is ready: the oldest.
pub proof fn law_only_the_oldest_ticket_is_ready(
    a: TicketModel,
    b: TicketModel,
    state: AdmissionModel,
)
    requires
        polled(a, state) == Status::Ready,
        polled(b, state) == Status::Ready,
    ensures
        a.id == b.id,
        a.id == state.queue[0],
        !state.worker,
{
}

/// Whatever changes the revision after a poll, the wait behind that poll does not
/// sleep: the wakeup cannot be lost.
pub proof fn law_no_wakeup_is_lost(ticket: TicketModel, state: AdmissionModel, changed: AdmissionModel)
    requires
        ticket.observed == state.revision,
        changed.revision == next_revision(state.revision),
    ensures
        waited(ticket, changed) != Wait::Sleep,
{
}

/// While a producer is queued no GPU tranche is granted. Once the last one gives
/// its place up, a tranche is granted unless another is running.
pub proof fn law_queued_producers_come_before_tranches(ticket: TicketModel, state: AdmissionModel)
    requires
        valid(ticket, state),
    ensures
        !granted(state),
        (forall|k: int| 0 <= k < state.queue.len() ==> state.queue[k] == ticket.id) ==> granted(
            AdmissionModel { queue: without(state.queue, ticket.id), ..state },
        ) == !state.worker,
{
    lemma_filter_none(state.queue, ticket.id);
}

proof fn lemma_filter_none(queue: Seq<u64>, id: u64)
    ensures
        (forall|k: int| 0 <= k < queue.len() ==> queue[k] == id) ==> without(queue, id).len() == 0,
    decreases queue.len(),
{
    reveal(Seq::filter);
    if queue.len() > 0 && (forall|k: int| 0 <= k < queue.len() ==> queue[k] == id) {
        let kept = queue.drop_last();
        assert forall|k: int| 0 <= k < kept.len() implies kept[k] == id by {
            assert(kept[k] == queue[k]);
        }
        lemma_filter_none(kept, id);
    }
}

/// A ticket is ready exactly when its lifetime is open, it is the oldest in the
/// queue and no GPU tranche runs; it is busy while it is queued and not ready, and
/// cancelled exactly when it is not queued in the open lifetime.
pub proof fn law_a_ticket_is_ready_in_its_turn(ticket: TicketModel, state: AdmissionModel)
    ensures
        polled(ticket, state) == Status::Cancelled <==> !(state.live && state.epoch == ticket.epoch
            && state.queue.contains(ticket.id)),
        polled(ticket, state) == Status::Ready <==> state.live && state.epoch == ticket.epoch
            && state.queue.len() > 0 && state.queue[0] == ticket.id && !state.worker,
        polled(ticket, state) == Status::Ready || polled(ticket, state) == Status::Busy || polled(
            ticket,
            state,
        ) == Status::Cancelled,
        waited(ticket, state) == Wait::Sleep <==> valid(ticket, state) && state.revision
            == ticket.observed,
        waited(ticket, state) == Wait::Return(Status::Cancelled) <==> !valid(ticket, state),
{
    if state.queue.len() > 0 && state.queue[0] == ticket.id {
        assert(state.queue.contains(ticket.id));
    }
}

/// Producers are served in the order they came: a newcomer changes nothing for
/// those before it, and when the oldest gives its place up the next one is ready.
pub proof fn law_producers_are_served_in_order(
    ticket: TicketModel,
    state: AdmissionModel,
    newcomer: u64,
    next: TicketModel,
)
    requires
        newcomer != ticket.id,
    ensures
        polled(ticket, AdmissionModel { queue: state.queue.push(newcomer), ..state }) == polled(
            ticket,
            state,
        ),
        state.live && !state.worker && state.epoch == next.epoch && next.id != ticket.id
            && state.queue.len() > 1 && state.queue[0] == ticket.id && state.queue[1] == next.id
            ==> polled(
            next,
            AdmissionModel { queue: without(state.queue, ticket.id), ..state },
        ) == Status::Ready,
{
    let pushed = state.queue.push(newcomer);
    if state.queue.contains(ticket.id) {
        let k = choose|k: int| 0 <= k < state.queue.len() && state.queue[k] == ticket.id;
        assert(pushed[k] == ticket.id);
    }
    if pushed.contains(ticket.id) {
        let k = choose|k: int| 0 <= k < pushed.len() && pushed[k] == ticket.id;
        assert(state.queue[k] == ticket.id);
    }
    if state.queue.len() > 1 && state.queue[0] == ticket.id && state.queue[1] == next.id && next.id
        != ticket.id {
        lemma_next_in_line(state.queue, ticket.id);
        let after = without(state.queue, ticket.id);
        assert(after[0] == next.id);
        assert(after.contains(next.id));
    }
}

/// Giving a place up takes every entry of it out of the queue and no other.
pub proof fn law_a_place_is_given_up_whole(queue: Seq<u64>, id: u64, other: u64)
    ensures
        !without(queue, id).contains(id),
        other != id ==> (without(queue, id).contains(other) <==> queue.contains(other)),
        without(queue, id).len() <= queue.len(),
{
    lemma_without(queue, id, other);
    lemma_without(queue, id, id);
}

proof fn lemma_without(queue: Seq<u64>, id: u64, other: u64)
    ensures
        without(queue, id).len() <= queue.len(),
        without(queue, id).contains(other) <==> other != id && queue.contains(other),
    decreases queue.len(),
{
    reveal(Seq::filter);
    if queue.len() > 0 {
        let front = queue.drop_last();
        let last = queue.last();
        lemma_without(front, id, other);
        let before = without(front, id);
        let after = without(queue, id);
        if front.contains(other) {
            let k = choose|k: int| 0 <= k < front.len() && front[k] == other;
            assert(queue[k] == other);
        }
        if queue.contains(other) && last != other {
            let k = choose|k: int| 0 <= k < queue.len() && queue[k] == other;
            assert(front[k] == other);
        }
        if last == other {
            assert(queue[queue.len() - 1] == other);
        }
        if last != id {
            assert(after == before.push(last));
            assert(after[before.len() as int] == last);
            if before.contains(other) {
                let k = choose|k: int| 0 <= k < before.len() && before[k] == other;
                assert(after[k] == other);
            }
            if after.contains(other) && other != last {
                let k = choose|k: int| 0 <= k < after.len() && after[k] == other;
                assert(before[k] == other);
            }
        }
    }
}

proof fn lemma_next_in_line(queue: Seq<u64>, id: u64)
    requires
        queue.len() > 1,
        queue[0] == id,
        queue[1] != id,
    ensures
        without(queue, id).len() > 0,
        without(queue, id)[0] == queue[1],
    decreases queue.len(),
{
    reveal(Seq::filter);
    if queue.len() == 2 {
        let front = queue.drop_last();
        assert(front.drop_last() =~= Seq::<u64>::empty());
        assert(without(front.drop_last(), id).len() == 0);
        assert(without(front, id).len() == 0);
    } else {
        let front = queue.drop_last();
        lemma_next_in_line(front, id);
    }
}

/// What is known of waiting producers: nothing where the queue could not be looked
/// at, that the lifetime is over where it is, and else whether anyone is queued.
pub proof fn law_demand_is_what_was_looked_at(state: Option<AdmissionModel>, epoch: u64)
    ensures
        demand_of(state, epoch) == Demand::Contended <==> state is None,
        demand_of(state, epoch) == Demand::Closed <==> state is Some && !(state->0.live
            && state->0.epoch == epoch),
        demand_of(state, epoch) == Demand::Waiting <==> state is Some && state->0.live
            && state->0.epoch == epoch && state->0.queue.len() > 0,
        demand_of(state, epoch) == Demand::Absent <==> state is Some && state->0.live
            && state->0.epoch == epoch && state->0.queue.len() == 0,
{
}

/// A caller that executes for any device, and one on another thread than the
/// ticket's, are refused, the first for the first reason; no other caller is. Every
/// change is seen as one, and two changes differ where their origins do.
pub proof fn law_only_a_tickets_own_idle_thread_uses_it(
    executing: bool,
    ticket_thread: u64,
    thread: u64,
    revision: u64,
    other: u64,
)
    ensures
        refused(executing, ticket_thread, thread) is None <==> !executing && ticket_thread == thread,
        refused(executing, ticket_thread, thread) == Some(Status::Reentrant) <==> executing,
        refused(executing, ticket_thread, thread) == Some(Status::WrongThread) <==> !executing
            && ticket_thread != thread,
        next_revision(revision) != revision,
        next_revision(revision) == next_revision(other) ==> revision == other,
{
}

} // verus!
