use reims_vgpu::checkpoints::{
    Context, Demand, Key, Scope, Snapshot, Tranche, Window, REPORT_INTERVAL_US,
};
use reims_vgpu::fifo_progress::{
    clock_line, parked_per_channel, Arrival, Clock, FifoProgress, Packet, Parked, PresentOpcodes,
    Stage, StampWrite,
};

const ROOT_OP_SWAP: u32 = 0x11;
const CHILD_OP_DISPLAY_SWAP: u32 = 0x22;

fn presenting() -> PresentOpcodes {
    PresentOpcodes {
        root: vec![ROOT_OP_SWAP],
        child: vec![CHILD_OP_DISPLAY_SWAP],
    }
}

fn snapshot(pending: u64, parked: u64) -> Snapshot {
    Snapshot {
        pending: Some(pending),
        parked,
        ready: 0,
    }
}

#[test]
fn outer_and_parked_transactions_block_quiescence() {
    let mut tranche = Tranche::new(100);
    for (pending, parked) in [(1, 0), (1, 1), (3, 2)] {
        tranche.packet_started();
        tranche.completed(120, snapshot(pending, parked), Demand::Waiting);
    }
    let report = tranche.finish(200);
    assert_eq!(report.counts.completed, 3);
    assert_eq!(report.counts.outer_blocked, 2);
    assert_eq!(report.counts.parked_blocked, 2);
    assert_eq!(report.counts.post_pending_max, 3);
    assert_eq!(report.counts.post_parked_max, 2);
    assert_eq!(report.counts.post_outer_max, 1);
    assert_eq!(report.counts.quiescent, 0);
    assert_eq!(report.counts.eligible_further, 0);
}

#[test]
fn only_observed_live_demand_qualifies_further_work() {
    let mut tranche = Tranche::new(100);
    tranche.packet_started();
    for (now, demand) in [
        (110, Demand::Absent),
        (120, Demand::Contended),
        (130, Demand::Closed),
        (140, Demand::Waiting),
    ] {
        tranche.completed(now, snapshot(0, 0), demand);
        tranche.packet_started();
    }
    let report = tranche.finish(200);
    assert_eq!(report.counts.quiescent_further, 4);
    assert_eq!(report.counts.eligible_further, 1);
    assert_eq!(report.counts.demand_unknown, 1);
    assert_eq!(report.counts.demand_closed, 1);
    assert_eq!(report.first_eligible_age_us, Some(40));
    assert_eq!(report.remaining_wall_us, Some(60));
}

#[test]
fn terminal_checkpoint_is_not_a_resumable_opportunity() {
    let mut tranche = Tranche::new(100);
    tranche.packet_started();
    tranche.completed(110, snapshot(0, 0), Demand::Waiting);
    let report = tranche.finish(10_000);
    assert_eq!(report.counts.quiescent_demand, 1);
    assert_eq!(report.counts.quiescent_terminal, 1);
    assert_eq!(report.counts.demand_terminal, 1);
    assert_eq!(report.counts.eligible_further, 0);
    assert_eq!(report.first_eligible_age_us, None);
    assert_eq!(report.remaining_wall_us, None);
}

#[test]
fn first_eligible_age_and_remaining_wall_are_counted_once_per_tranche() {
    let mut first = Tranche::new(100);
    first.packet_started();
    first.completed(130, snapshot(0, 0), Demand::Waiting);
    first.packet_started();
    first.completed(150, snapshot(0, 0), Demand::Waiting);
    first.packet_started();
    first.completed(200, snapshot(0, 0), Demand::Waiting);
    let first = first.finish(220);
    assert_eq!(first.counts.eligible_further, 2);
    assert_eq!(first.first_eligible_age_us, Some(30));
    assert_eq!(first.remaining_wall_us, Some(90));
    assert_eq!(first.counts.demand_terminal, 1);

    let mut second = Tranche::new(300);
    second.packet_started();
    second.completed(305, snapshot(0, 0), Demand::Waiting);
    second.packet_started();
    let mut window = Window::new(
        Key {
            device: 1,
            epoch: 1,
        },
        100,
    );
    window.merge(first);
    window.merge(second.finish(340));
    assert_eq!(window.counts.eligible_further, 3);
    assert_eq!(window.eligible_tranches, 2);
    assert_eq!(window.first_eligible_age_sum_us, 35);
    assert_eq!(window.first_eligible_age_max_us, 30);
    assert_eq!(window.remaining_wall_sum_us, 125);
    assert_eq!(window.remaining_wall_max_us, 90);
    assert_eq!(window.longest.wall_us, 120);
    assert_eq!(window.longest.first_eligible_age_us, Some(30));
    assert_eq!(window.longest.remaining_wall_us, Some(90));
}

#[test]
fn zero_age_is_a_real_eligible_checkpoint() {
    let mut tranche = Tranche::new(100);
    tranche.packet_started();
    tranche.completed(100, snapshot(0, 0), Demand::Waiting);
    tranche.packet_started();
    let report = tranche.finish(120);
    assert_eq!(report.first_eligible_age_us, Some(0));
    assert_eq!(report.remaining_wall_us, Some(20));
}

#[test]
fn unknown_or_inconsistent_snapshots_never_claim_quiescence() {
    let mut tranche = Tranche::new(0);
    for state in [
        Snapshot {
            pending: None,
            parked: 0,
            ready: 0,
        },
        snapshot(0, 1),
        Snapshot {
            pending: Some(0),
            parked: 0,
            ready: 1,
        },
    ] {
        tranche.packet_started();
        tranche.completed(10, state, Demand::Waiting);
    }
    let report = tranche.finish(20);
    assert_eq!(report.counts.pending_unknown, 1);
    assert_eq!(report.counts.inconsistent, 2);
    assert_eq!(report.counts.quiescent, 0);
    assert_eq!(report.counts.eligible_further, 0);
}

fn record_pair(context: &mut Context, now: u64, demand: Demand, further: bool) {
    let tranche = &mut context.active.as_mut().unwrap().tranche;
    tranche.packet_started();
    tranche.completed(now, snapshot(0, 0), demand);
    if further {
        tranche.packet_started();
    }
}

#[test]
fn reset_between_tranches_discards_old_epoch_aggregates() {
    let mut context = Context::new();
    let scope = Scope::start(&mut context, 71, 1, 0);
    record_pair(&mut context, 10, Demand::Waiting, true);
    assert!(scope.finish(&mut context, 100).is_none());

    let scope = Scope::start(&mut context, 71, 2, 200);
    record_pair(&mut context, 250, Demand::Waiting, false);
    let report = scope.finish(&mut context, 1_000_200).unwrap();
    assert_eq!(report.window.key.epoch, 2);
    assert_eq!(report.window.tranches, 1);
    assert_eq!(report.window.counts.completed, 1);
    assert_eq!(report.window.counts.demand_terminal, 1);
    assert_eq!(report.window.eligible_tranches, 0);
    assert_eq!(report.window.remaining_wall_sum_us, 0);
    assert!(report.line().contains("admission_epoch=2"));
}

#[test]
fn nested_scope_cannot_replace_an_outer_observation() {
    let mut context = Context::new();
    let outer = Scope::start(&mut context, 81, 1, 0);
    let inner = Scope::start(&mut context, 82, 1, 5);
    assert!(!inner.is_active());
    assert!(inner.finish(&mut context, 20).is_none());
    record_pair(&mut context, 30, Demand::Waiting, true);
    let report = outer.finish(&mut context, 1_000_000).unwrap();
    assert_eq!(report.window.key.device, 81);
    assert_eq!(report.window.tranches, 1);
    assert_eq!(report.window.counts.completed, 1);
}

#[test]
fn reentrant_observation_does_not_borrow_or_replace_the_active_scope() {
    let mut context = Context::new();
    let start = 0;
    let scope = Scope::start(&mut context, 111, 1, start);
    context.packet_started(111);
    // While demand is asked for, another device is observed on the same thread.
    let nested = Scope::start(&mut context, 112, 1, 0);
    assert!(!nested.is_active());
    context.packet_started(112);
    context.completed(112, 5, snapshot(0, 0), Demand::Waiting);
    context.completed(111, 10, snapshot(0, 0), Demand::Waiting);
    context.packet_started(111);
    let report = scope.finish(&mut context, start + 1_000_000).unwrap();
    assert_eq!(report.window.counts.started, 2);
    assert_eq!(report.window.counts.completed, 1);
    assert_eq!(report.window.counts.eligible_further, 1);
}

#[test]
fn an_abandoned_observation_discards_its_candidates() {
    let mut context = Context::new();
    let scope = Scope::start(&mut context, 91, 1, 0);
    record_pair(&mut context, 10, Demand::Waiting, true);
    scope.abandon(&mut context);
    let scope = Scope::start(&mut context, 91, 1, 100);
    record_pair(&mut context, 120, Demand::Absent, false);
    let report = scope.finish(&mut context, 1_000_000 + 100).unwrap();
    assert_eq!(report.window.tranches, 1);
    assert_eq!(report.window.counts.completed, 1);
    assert_eq!(report.window.eligible_tranches, 0);
}

#[test]
fn post_completion_maxima_are_not_summed_across_tranches() {
    let mut window = Window::new(
        Key {
            device: 1,
            epoch: 1,
        },
        0,
    );
    for count in [3, 2] {
        let mut tranche = Tranche::new(0);
        tranche.packet_started();
        tranche.completed(10, snapshot(count, count), Demand::Absent);
        window.merge(tranche.finish(20));
    }
    assert_eq!(window.counts.post_pending_max, 3);
    assert_eq!(window.counts.post_parked_max, 3);
    assert_eq!(window.counts.parked_blocked, 2);
}

#[test]
fn a_window_reports_only_once_its_interval_is_over() {
    let mut context = Context::new();
    let scope = Scope::start(&mut context, 5, 1, 0);
    record_pair(&mut context, 10, Demand::Waiting, false);
    assert!(scope.finish(&mut context, REPORT_INTERVAL_US - 1).is_none());
    let scope = Scope::start(&mut context, 5, 1, REPORT_INTERVAL_US - 1);
    record_pair(&mut context, REPORT_INTERVAL_US, Demand::Absent, false);
    let report = scope.finish(&mut context, REPORT_INTERVAL_US).unwrap();
    assert_eq!(report.window.tranches, 2);
    assert_eq!(report.window.counts.completed, 2);
    assert_eq!(report.window.counts.demand_absent, 1);
    assert_eq!(report.window.counts.demand_waiting, 1);
}

#[test]
fn an_incomplete_ring_is_not_counted_as_empty() {
    let mut progress = FifoProgress::new(8);
    progress.ring(2, 8, 8, 4, Arrival::Nothing, 10);
    progress.ring(2, 8, 12, 4, Arrival::Nothing, 20);
    let fifo = &progress.fifos[2];
    assert_eq!((fifo.samples, fifo.empty, fifo.incomplete), (2, 1, 1));
    assert_eq!(fifo.ring.unwrap().at_us, 20);
}

#[test]
fn admission_dispatch_and_completion_are_distinct_observations() {
    let mut progress = FifoProgress::new(8);
    let packet = Packet {
        opcode: CHILD_OP_DISPLAY_SWAP,
        completion_stamp: 7,
    };
    let presenting = presenting();
    progress.packet(2, &packet, &presenting, Stage::Arrived, 10);
    progress.packet(2, &packet, &presenting, Stage::Admitted, 11);
    let fifo = &progress.fifos[2];
    assert_eq!(fifo.stages[Stage::Admitted as usize].presents, 1);
    assert_eq!(fifo.stages[Stage::Started as usize].presents, 0);
    assert_eq!(fifo.stages[Stage::ModelRetired as usize].presents, 0);
    progress.packet(2, &packet, &presenting, Stage::Started, 20);
    progress.packet(2, &packet, &presenting, Stage::Deferred, 21);
    assert_eq!(
        progress.fifos[2].stages[Stage::Deferred as usize].last_present,
        Some((7, 21))
    );
}

#[test]
fn queued_or_failed_writes_do_not_claim_guest_visible_completion() {
    let mut progress = FifoProgress::new(8);
    progress.stamp(4, 6, StampWrite::Inline, 10);
    progress.stamp(4, 7, StampWrite::Queued, 20);
    progress.stamp(4, 8, StampWrite::Failed, 30);
    let stamp = &progress.stamps.iter().find(|s| s.slot == 4).unwrap().stamp;
    assert_eq!((stamp.inline_writes, stamp.queued, stamp.failed), (1, 1, 1));
    assert_eq!(stamp.last_inline, Some((6, 10)));
    assert_eq!(stamp.last_queued, Some((7, 20)));
}

#[test]
fn faults_and_arrivals_are_counted_apart() {
    let mut progress = FifoProgress::new(4);
    progress.ring(1, 0, 4, 2, Arrival::Fault, 5);
    progress.ring(1, 0, 4, 2, Arrival::Packet, 6);
    let fifo = &progress.fifos[1];
    assert_eq!((fifo.samples, fifo.faults, fifo.incomplete, fifo.empty), (2, 1, 0, 0));
    // A domain beyond the channels is not recorded.
    progress.ring(9, 0, 4, 2, Arrival::Packet, 7);
    assert_eq!(progress.fifos.len(), 4);
    assert_eq!(progress.fifos.iter().map(|f| f.samples).sum::<u64>(), 2);
}

#[test]
fn progress_lines_name_what_they_count() {
    let mut progress = FifoProgress::new(4);
    assert!(progress.fifos[3].line(9, 1, 3, 0, 0).is_none());
    progress.ring(3, 8, 12, 2, Arrival::Packet, 6);
    let packet = Packet {
        opcode: CHILD_OP_DISPLAY_SWAP,
        completion_stamp: 7,
    };
    progress.packet(3, &packet, &presenting(), Stage::Arrived, 11);
    assert_eq!(
        progress.fifos[3].line(9, 1, 3, 2, 1).unwrap(),
        "fifo_progress device=9 generation=1 ch=3 cumulative=1 samples=1 empty=0 incomplete=0 \
         faults=0 waiting=2 ready=1 head=8 tail=12 slot=2 sample_us=6 arrived=1 \
         present_arrived=1 present_arrived_stamp=7 present_arrived_stamp_us=11 admitted=0 \
         present_admitted=0 started=0 present_started=0 deferred=0 present_deferred=0 \
         model_retired=0 present_model_retired=0 refused=0 present_refused=0"
    );
    progress.stamp(4, 6, StampWrite::Inline, 10);
    assert_eq!(
        progress.stamps[0].line(9, 1),
        "stamp_progress device=9 generation=1 slot=4 cumulative=1 queued=0 inline=1 failed=0 \
         last_inline=6 last_inline_us=10"
    );
    assert_eq!(
        clock_line(9, 100, 5_000_000, 120),
        "fifo_clock device=9 mono_before_us=100 utc_us=5000000 mono_after_us=120"
    );
}

#[test]
fn parked_transactions_are_counted_by_channel() {
    let counts = parked_per_channel(&vec![Some(1), None, Some(1), Some(7), Some(0)], 3);
    assert_eq!(counts, vec![1, 2, 0]);
}

#[test]
fn an_opcode_presents_only_in_its_own_kind_of_channel() {
    let presenting = presenting();
    assert!(presenting.presents(0, ROOT_OP_SWAP));
    assert!(!presenting.presents(0, CHILD_OP_DISPLAY_SWAP));
    assert!(presenting.presents(1, CHILD_OP_DISPLAY_SWAP));
    assert!(!presenting.presents(7, ROOT_OP_SWAP));
    let mut progress = FifoProgress::new(2);
    let packet = Packet {
        opcode: CHILD_OP_DISPLAY_SWAP,
        completion_stamp: 3,
    };
    progress.packet(0, &packet, &presenting, Stage::Arrived, 1);
    progress.packet(1, &packet, &presenting, Stage::Arrived, 2);
    let root = &progress.fifos[0].stages[Stage::Arrived as usize];
    let child = &progress.fifos[1].stages[Stage::Arrived as usize];
    assert_eq!((root.packets, root.presents, root.last_present), (1, 0, None));
    assert_eq!((child.packets, child.presents, child.last_present), (1, 1, Some((3, 2))));
}

#[test]
fn a_report_opens_with_the_clock_and_lists_channels_before_slots() {
    let mut progress = FifoProgress::new(3);
    progress.stamp(9, 1, StampWrite::Inline, 4);
    progress.stamp(4, 1, StampWrite::Inline, 5);
    progress.ring(2, 0, 4, 2, Arrival::Packet, 6);
    progress.ring(0, 0, 4, 2, Arrival::Packet, 7);
    let parked = Parked {
        waiting: vec![Some(2), None],
        ready: vec![Some(0)],
    };
    let clock = Clock::Read {
        before_us: 100,
        utc_us: 5_000_000,
        after_us: 120,
    };
    let lines = progress.lines(9, 1, &clock, &parked);
    assert_eq!(lines[0], clock_line(9, 100, 5_000_000, 120));
    // The channel nothing was seen of has no line.
    assert_eq!(lines.len(), 5);
    assert_eq!(lines[1], progress.fifos[0].line(9, 1, 0, 0, 1).unwrap());
    assert_eq!(lines[2], progress.fifos[2].line(9, 1, 2, 1, 0).unwrap());
    assert!(lines[3].contains(" slot=4 "));
    assert!(lines[4].contains(" slot=9 "));
    let clock = Clock::Unavailable {
        error: "second time provided was later than self".to_string(),
    };
    assert_eq!(
        progress.lines(9, 1, &clock, &parked)[0],
        "fifo_clock_unavailable error=second time provided was later than self"
    );
}

#[test]
fn at_most_one_checkpoint_of_a_tranche_is_terminal() {
    let mut tranche = Tranche::new(0);
    for now in [10, 20, 30] {
        tranche.packet_started();
        tranche.completed(now, snapshot(0, 0), Demand::Waiting);
    }
    let report = tranche.finish(40);
    assert_eq!(report.counts.quiescent, 3);
    assert_eq!(report.counts.quiescent_terminal, 1);
    assert_eq!(report.counts.eligible_further, 2);
}

#[test]
fn only_the_counters_that_rise_need_room() {
    let mut tranche = Tranche::new(0);
    tranche.counts.eligible_further = u64::MAX;
    tranche.counts.demand_closed = u64::MAX;
    assert!(tranche.may_start());
    assert!(tranche.may_complete(snapshot(0, 0), Demand::Waiting));
    assert!(!tranche.may_complete(snapshot(0, 0), Demand::Closed));
    tranche.packet_started();
    tranche.completed(10, snapshot(0, 0), Demand::Waiting);
    // The open checkpoint is one with demand: the next start would count it.
    assert!(!tranche.may_start());
    assert!(tranche.may_finish());
    tranche.counts.demand_terminal = u64::MAX;
    assert!(!tranche.may_finish());
    let mut progress = FifoProgress::new(1);
    progress.stamp(4, 6, StampWrite::Inline, 10);
    progress.stamps[0].stamp.inline_writes = u64::MAX;
    progress.stamp(4, 7, StampWrite::Queued, 20);
    progress.stamp(5, 7, StampWrite::Inline, 20);
    assert_eq!(progress.stamps[0].stamp.queued, 1);
    assert_eq!(progress.stamps[1].stamp.inline_writes, 1);
}
