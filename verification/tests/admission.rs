use reims_vgpu::admission::{
    snapshot_demand, Admission, End, Execution, Executions, Status, Ticket, Wait, Write,
};
use reims_vgpu::checkpoints::{Context, Demand};

const THREAD: u64 = 100;

fn write() -> Write {
    Write {
        offset: 0x1018,
        data: 1,
        size: 4,
    }
}

fn idle() -> Executions {
    Executions::new()
}

fn issue(owner: &mut Admission, id: u64) -> Ticket {
    owner.issue(&idle(), id, 7, write(), THREAD).ok().unwrap()
}

fn poll(ticket: &mut Ticket, owner: &Admission) -> Status {
    ticket.poll(owner, &idle(), THREAD)
}

/// Waits on a state that no longer changes.
fn wait(ticket: &Ticket, owner: &Admission) -> Status {
    match ticket.wait(owner, &idle(), THREAD) {
        Wait::Return(status) => status,
        Wait::Sleep => panic!("the wakeup was lost"),
    }
}

#[test]
fn checkpoint_snapshot_is_nonblocking_and_does_not_mutate_admission() {
    let mut owner = Admission::new();
    let worker = owner.worker().unwrap();
    assert_eq!(owner.checkpoint_demand(worker.epoch()), Demand::Absent);
    let mut ticket = issue(&mut owner, 1);
    // The state is held elsewhere.
    assert_eq!(snapshot_demand(None, worker.epoch()), Demand::Contended);
    assert_eq!(snapshot_demand(Some(&owner), worker.epoch()), Demand::Waiting);
    assert_eq!(owner.checkpoint_demand(worker.epoch()), Demand::Waiting);
    assert_eq!(poll(&mut ticket, &owner), Status::Busy);
    owner.worker_done(worker);
    assert_eq!(poll(&mut ticket, &owner), Status::Ready);
    assert!(ticket.finish(&mut owner));
}

#[test]
fn checkpoint_snapshot_rejects_a_reopened_admission_epoch() {
    let mut owner = Admission::new();
    let worker = owner.worker().unwrap();
    let epoch = worker.epoch();
    owner.close(End::Reset);
    assert_eq!(owner.checkpoint_demand(epoch), Demand::Closed);
    owner.worker_done(worker);
    owner.reopen();
    let ticket = issue(&mut owner, 1);
    assert_eq!(owner.checkpoint_demand(epoch), Demand::Closed);
    assert_eq!(owner.checkpoint_demand(ticket.epoch()), Demand::Waiting);
    assert!(ticket.finish(&mut owner));
}

#[test]
fn queued_producers_have_fifo_priority_over_later_gpu_tranches() {
    let mut owner = Admission::new();
    let worker = owner.worker().unwrap();
    let mut first = issue(&mut owner, 1);
    let mut second = issue(&mut owner, 2);
    assert_eq!(poll(&mut first, &owner), Status::Busy);
    owner.worker_done(worker);
    assert_eq!(poll(&mut first, &owner), Status::Ready);
    assert_eq!(poll(&mut second, &owner), Status::Busy);
    assert!(owner.worker().is_none());
    assert!(!first.finish(&mut owner));
    assert_eq!(poll(&mut second, &owner), Status::Ready);
    assert!(owner.worker().is_none());
    assert!(
        second.finish(&mut owner),
        "the final admission owes the worker a wake"
    );
    assert!(owner.worker().is_some());
}

#[test]
fn release_between_try_and_wait_cannot_lose_the_wakeup() {
    let mut owner = Admission::new();
    let worker = owner.worker().unwrap();
    let mut ticket = issue(&mut owner, 1);
    assert_eq!(poll(&mut ticket, &owner), Status::Busy);
    owner.worker_done(worker);
    assert_eq!(wait(&ticket, &owner), Status::Ready);
    assert!(ticket.finish(&mut owner));
}

#[test]
fn a_state_release_wakes_the_waiter() {
    let mut owner = Admission::new();
    let mut ticket = issue(&mut owner, 1);
    assert_eq!(poll(&mut ticket, &owner), Status::Ready);
    // The ticket is at the head but the state itself was held.
    assert!(matches!(ticket.wait(&owner, &idle(), THREAD), Wait::Sleep));
    owner.state_released();
    assert_eq!(wait(&ticket, &owner), Status::Ready);
    assert!(ticket.finish(&mut owner));
}

#[test]
fn reset_cancels_all_old_tickets_without_waiting_for_their_return() {
    let mut owner = Admission::new();
    let mut first = issue(&mut owner, 1);
    let mut second = issue(&mut owner, 2);
    assert_eq!(poll(&mut second, &owner), Status::Busy);
    assert_eq!(owner.close(End::Reset), Some((End::Reset.slug(), 2)));
    assert_eq!(wait(&first, &owner), Status::Cancelled);
    assert_eq!(wait(&second, &owner), Status::Cancelled);
    assert!(matches!(
        owner.issue(&idle(), 9, 7, write(), THREAD),
        Err(Status::Cancelled)
    ));
    owner.reopen();
    let mut fresh = issue(&mut owner, 3);
    assert_eq!(poll(&mut first, &owner), Status::Cancelled);
    assert!(
        !first.finish(&mut owner),
        "old tickets cannot rearm a new lifetime"
    );
    assert!(!second.finish(&mut owner));
    assert_eq!(poll(&mut fresh, &owner), Status::Ready);
    assert!(fresh.finish(&mut owner));
}

#[test]
fn reset_and_destroy_cancel_waiters_without_retaining_backend_or_callbacks() {
    let mut owner = Admission::new();
    let mut ticket = issue(&mut owner, 1);
    let mut wakes = 0;
    owner.close(End::Reset);
    owner.reopen();
    assert_eq!(wait(&ticket, &owner), Status::Cancelled);
    assert_eq!(poll(&mut ticket, &owner), Status::Cancelled);
    wakes += u32::from(ticket.finish(&mut owner));
    assert_eq!(wakes, 0);
    let mut fresh = issue(&mut owner, 2);
    assert_eq!(owner.close(End::Destroy), Some((End::Destroy.slug(), 1)));
    assert_eq!(wait(&fresh, &owner), Status::Cancelled);
    assert_eq!(poll(&mut fresh, &owner), Status::Cancelled);
    wakes += u32::from(fresh.finish(&mut owner));
    assert_eq!(wakes, 0);
    assert!(owner.close(End::Destroy).is_none(), "nothing is left to cancel");
}

#[test]
fn another_thread_is_refused_a_handoff() {
    let mut owner = Admission::new();
    let mut ticket = issue(&mut owner, 1);
    assert_eq!(ticket.poll(&owner, &idle(), THREAD + 1), Status::WrongThread);
    assert!(matches!(
        ticket.wait(&owner, &idle(), THREAD + 1),
        Wait::Return(Status::WrongThread)
    ));
    assert!(ticket.finish(&mut owner));
}

#[test]
fn same_transaction_reentry_is_refused_and_leaving_clears_the_guard() {
    let mut owner = Admission::new();
    let mut ticket = owner.issue(&idle(), 1, 8, write(), THREAD).ok().unwrap();
    let mut executions = Executions::new();
    let outer = Execution::enter(&mut executions, 7).ok().unwrap();
    assert!(matches!(
        Execution::enter(&mut executions, 7),
        Err(Status::Reentrant)
    ));
    let different_device = Execution::enter(&mut executions, 8).ok().unwrap();
    assert!(executions.reentrant(7));
    assert!(executions.reentrant(8));
    different_device.leave(&mut executions);
    assert!(!executions.reentrant(8));
    assert!(matches!(
        owner.issue(&executions, 2, 8, write(), THREAD),
        Err(Status::Reentrant)
    ));
    assert_eq!(ticket.poll(&owner, &executions, THREAD), Status::Reentrant);
    assert!(matches!(
        ticket.wait(&owner, &executions, THREAD),
        Wait::Return(Status::Reentrant)
    ));
    outer.leave(&mut executions);
    assert!(!executions.reentrant(7));
    assert!(!executions.execution_active());
    assert!(ticket.finish(&mut owner));
}

#[test]
fn multiple_producers_apply_in_admission_order() {
    let mut owner = Admission::new();
    let worker = owner.worker().unwrap();
    let mut tickets = vec![issue(&mut owner, 1), issue(&mut owner, 2)];
    for ticket in &mut tickets {
        assert_eq!(poll(ticket, &owner), Status::Busy);
    }
    owner.worker_done(worker);
    let mut applied = Vec::new();
    while applied.len() < 2 {
        // The later producer always tries first.
        for n in [1, 0] {
            if !tickets[n].completed() && poll(&mut tickets[n], &owner) == Status::Ready {
                applied.push(n + 1);
                tickets[n].complete();
                tickets[n].finish(&mut owner);
            }
        }
    }
    assert_eq!(applied, [1, 2]);
}

#[test]
fn a_completed_ticket_is_not_replayed() {
    let mut owner = Admission::new();
    let mut ticket = issue(&mut owner, 1);
    assert!(!ticket.completed());
    assert_eq!(poll(&mut ticket, &owner), Status::Ready);
    ticket.complete();
    assert!(ticket.completed());
    assert!(ticket.finish(&mut owner));
}

#[test]
fn a_worker_observes_its_own_lifetime() {
    let mut owner = Admission::new();
    owner.close(End::Reset);
    owner.reopen();
    let worker = owner.worker().unwrap();
    let mut context = Context::new();
    let scope = worker.observe_tranche(&mut context, 7, 10);
    assert!(scope.is_active());
    let key = context.active.as_ref().unwrap().key;
    assert_eq!((key.device, key.epoch), (7, worker.epoch()));
    assert_eq!(worker.epoch(), 2);
}
