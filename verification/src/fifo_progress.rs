//! Cumulative observations at normal FIFO boundaries, never additional guest
//! reads.
//!
//! A stale ring snapshot is not an empty ring; its timestamp travels with it.
//! Model retirement is no proof of successful execution or guest publication.
//! Inline stamps record successful writes; queued stamps are requests.
use crate::native_pipeline::tables::holds;
use crate::text::{decimal, push_decimal, push_line, texts};
use vstd::prelude::*;
use vstd::string::*;

verus! {

/// How far a packet has come.
#[derive(Clone, Copy, Debug, PartialEq, Eq, Structural)]
pub enum Stage {
    Arrived,
    Admitted,
    Started,
    Deferred,
    ModelRetired,
    Refused,
}

impl Stage {
    /// The place of a stage in the order they are reported in.
    pub open spec fn place(self) -> int {
        match self {
            Stage::Arrived => 0,
            Stage::Admitted => 1,
            Stage::Started => 2,
            Stage::Deferred => 3,
            Stage::ModelRetired => 4,
            Stage::Refused => 5,
        }
    }

    /// The place of a stage in the order they are reported in.
    pub fn index(self) -> (n: usize)
        ensures
            n == self.place(),
    {
        match self {
            Stage::Arrived => 0,
            Stage::Admitted => 1,
            Stage::Started => 2,
            Stage::Deferred => 3,
            Stage::ModelRetired => 4,
            Stage::Refused => 5,
        }
    }
}

/// The name of the stage at a place.
pub open spec fn stage_label(place: int) -> Seq<char> {
    if place == 0 {
        "arrived"@
    } else if place == 1 {
        "admitted"@
    } else if place == 2 {
        "started"@
    } else if place == 3 {
        "deferred"@
    } else if place == 4 {
        "model_retired"@
    } else {
        "refused"@
    }
}

fn label(place: usize) -> (text: &'static str)
    ensures
        text@ == stage_label(place as int),
{
    if place == 0 {
        "arrived"
    } else if place == 1 {
        "admitted"
    } else if place == 2 {
        "started"
    } else if place == 3 {
        "deferred"
    } else if place == 4 {
        "model_retired"
    } else {
        "refused"
    }
}

/// Packets that reached a stage, how many of them present, and the completion
/// stamp and time of the last that did.
#[derive(Clone, Copy, Debug)]
pub struct Count {
    pub packets: u64,
    pub presents: u64,
    pub last_present: Option<(u32, u64)>,
}

/// A ring as it was read.
#[derive(Clone, Copy, Debug, PartialEq, Eq, Structural)]
pub struct RingSnapshot {
    pub head: u32,
    pub tail: u32,
    pub slot: u32,
    pub at_us: u64,
}

/// What one channel was observed to do.
pub struct Fifo {
    pub ring: Option<RingSnapshot>,
    pub samples: u64,
    pub empty: u64,
    pub incomplete: u64,
    pub faults: u64,
    pub stages: Vec<Count>,
}

/// What one stamp slot was observed to get.
#[derive(Clone, Copy, Debug)]
pub struct Stamp {
    pub queued: u64,
    pub inline_writes: u64,
    pub failed: u64,
    pub last_queued: Option<(u32, u64)>,
    pub last_inline: Option<(u32, u64)>,
}

/// A stamp slot and what it got.
#[derive(Clone, Copy, Debug)]
pub struct StampSlot {
    pub slot: u32,
    pub stamp: Stamp,
}

/// What reading a ring brought.
#[derive(Clone, Copy, Debug, PartialEq, Eq, Structural)]
pub enum Arrival {
    Nothing,
    Fault,
    Packet,
}

/// How a stamp was written.
#[derive(Clone, Copy, Debug, PartialEq, Eq, Structural)]
pub enum StampWrite {
    Queued,
    Inline,
    Failed,
}

/// Everything observed of a device's channels and stamps.
pub struct FifoProgress {
    pub fifos: Vec<Fifo>,
    pub stamps: Vec<StampSlot>,
}

/// Nothing written.
pub open spec fn no_stamp() -> Stamp {
    Stamp { queued: 0, inline_writes: 0, failed: 0, last_queued: None, last_inline: None }
}

/// A channel behind a ring sample. Nothing arriving from a ring whose head is
/// not its tail is an incomplete packet, not an empty ring.
pub open spec fn sampled(before: Fifo, ring: RingSnapshot, arrival: Arrival, after: Fifo) -> bool {
    let idle = arrival == Arrival::Nothing;
    let level = ring.head == ring.tail;
    &&& after.ring == Some(ring)
    &&& after.samples == before.samples + 1
    &&& after.empty == before.empty + (if idle && level {
        1int
    } else {
        0
    })
    &&& after.incomplete == before.incomplete + (if idle && !level {
        1int
    } else {
        0
    })
    &&& after.faults == before.faults + (if arrival == Arrival::Fault {
        1int
    } else {
        0
    })
    &&& after.stages@ == before.stages@
}

/// The two kinds of channel a device has.
#[derive(Clone, Copy, Debug, PartialEq, Eq, Structural)]
pub enum Channel {
    Root,
    Child,
}

/// The kind of a channel: the first is the root, every other one is a child.
pub open spec fn channel_of(domain: u32) -> Channel {
    if domain == 0 {
        Channel::Root
    } else {
        Channel::Child
    }
}

/// The opcodes that present a frame, for either kind of channel. One number may
/// mean something else in the other kind.
#[derive(Debug)]
pub struct PresentOpcodes {
    pub root: Vec<u32>,
    pub child: Vec<u32>,
}

impl PresentOpcodes {
    /// The opcode presents a frame in the channel.
    pub open spec fn present(self, domain: u32, opcode: u32) -> bool {
        match channel_of(domain) {
            Channel::Root => self.root@.contains(opcode),
            Channel::Child => self.child@.contains(opcode),
        }
    }

    /// Whether the opcode presents a frame in the channel.
    pub fn presents(&self, domain: u32, opcode: u32) -> (r: bool)
        ensures
            r == self.present(domain, opcode),
    {
        if domain == 0 {
            holds(&self.root, opcode)
        } else {
            holds(&self.child, opcode)
        }
    }
}

/// What is observed of a packet.
#[derive(Clone, Copy, Debug, PartialEq, Eq, Structural)]
pub struct Packet {
    pub opcode: u32,
    pub completion_stamp: u32,
}

/// A count behind another packet.
pub open spec fn raised(count: Count, present: bool, stamp: u32, at_us: u64) -> Count {
    Count {
        packets: (count.packets + 1) as u64,
        presents: if present {
            (count.presents + 1) as u64
        } else {
            count.presents
        },
        last_present: if present {
            Some((stamp, at_us))
        } else {
            count.last_present
        },
    }
}

/// A stamp behind another write.
pub open spec fn written(stamp: Stamp, value: u32, write: StampWrite, at_us: u64) -> Stamp {
    match write {
        StampWrite::Queued => Stamp {
            queued: (stamp.queued + 1) as u64,
            last_queued: Some((value, at_us)),
            ..stamp
        },
        StampWrite::Inline => Stamp {
            inline_writes: (stamp.inline_writes + 1) as u64,
            last_inline: Some((value, at_us)),
            ..stamp
        },
        StampWrite::Failed => Stamp { failed: (stamp.failed + 1) as u64, ..stamp },
    }
}

/// What a slot got.
pub open spec fn stamp_at(stamps: Seq<StampSlot>, slot: u32) -> Option<Stamp> {
    if exists|k: int| 0 <= k < stamps.len() && (#[trigger] stamps[k]).slot == slot {
        Some(
            stamps[choose|k: int| 0 <= k < stamps.len() && (#[trigger] stamps[k]).slot == slot].stamp,
        )
    } else {
        None
    }
}

impl FifoProgress {
    /// Every channel has all stages, and every slot is listed once, in order.
    pub open spec fn well_formed(self) -> bool {
        &&& forall|k: int|
            0 <= k < self.fifos@.len() ==> (#[trigger] self.fifos@[k]).stages@.len() == 6
        &&& forall|i: int, j: int|
            0 <= i < j < self.stamps@.len() ==> (#[trigger] self.stamps@[i]).slot < (
            #[trigger] self.stamps@[j]).slot
    }

    /// Nothing observed yet.
    pub fn new(channels: usize) -> (progress: FifoProgress)
        ensures
            progress.well_formed(),
            progress.fifos@.len() == channels,
            progress.stamps@.len() == 0,
            forall|k: int| #![trigger progress.fifos@[k]]
                0 <= k < channels ==> {
                    let fifo = progress.fifos@[k];
                    &&& fifo.ring is None
                    &&& fifo.samples == 0 && fifo.empty == 0 && fifo.incomplete == 0 && fifo.faults
                        == 0
                    &&& forall|s: int|
                        0 <= s < 6 ==> (#[trigger] fifo.stages@[s]) == (Count {
                            packets: 0,
                            presents: 0,
                            last_present: None,
                        })
                },
    {
        let mut fifos: Vec<Fifo> = Vec::new();
        let mut n: usize = 0;
        while n < channels
            invariant
                0 <= n <= channels,
                fifos@.len() == n,
                forall|k: int| #![trigger fifos@[k]]
                    0 <= k < n ==> {
                        let fifo = fifos@[k];
                        &&& fifo.ring is None
                        &&& fifo.samples == 0 && fifo.empty == 0 && fifo.incomplete == 0
                            && fifo.faults == 0
                        &&& fifo.stages@.len() == 6
                        &&& forall|s: int|
                            0 <= s < 6 ==> (#[trigger] fifo.stages@[s]) == (Count {
                                packets: 0,
                                presents: 0,
                                last_present: None,
                            })
                    },
            decreases channels - n,
        {
            let mut stages: Vec<Count> = Vec::new();
            let mut s: usize = 0;
            while s < 6
                invariant
                    0 <= s <= 6,
                    stages@.len() == s,
                    forall|k: int|
                        0 <= k < s ==> (#[trigger] stages@[k]) == (Count {
                            packets: 0,
                            presents: 0,
                            last_present: None,
                        }),
                decreases 6 - s,
            {
                stages.push(Count { packets: 0, presents: 0, last_present: None });
                s += 1;
            }
            fifos.push(
                Fifo { ring: None, samples: 0, empty: 0, incomplete: 0, faults: 0, stages },
            );
            n += 1;
        }
        FifoProgress { fifos, stamps: Vec::new() }
    }

    /// Takes note of a ring sample. A channel the device does not have is not
    /// observed.
    pub fn ring(
        &mut self,
        domain: u32,
        head: u32,
        tail: u32,
        slot: u32,
        arrival: Arrival,
        at_us: u64,
    )
        requires
            old(self).well_formed(),
            domain < old(self).fifos@.len() ==> {
                let fifo = old(self).fifos@[domain as int];
                &&& fifo.samples < u64::MAX
                &&& arrival == Arrival::Nothing && head == tail ==> fifo.empty < u64::MAX
                &&& arrival == Arrival::Nothing && head != tail ==> fifo.incomplete < u64::MAX
                &&& arrival == Arrival::Fault ==> fifo.faults < u64::MAX
            },
        ensures
            final(self).well_formed(),
            final(self).stamps@ == old(self).stamps@,
            final(self).fifos@.len() == old(self).fifos@.len(),
            forall|k: int| #![trigger final(self).fifos@[k]]
                0 <= k < old(self).fifos@.len() && k != domain ==> final(self).fifos@[k] == old(
                    self,
                ).fifos@[k],
            domain < old(self).fifos@.len() ==> sampled(
                old(self).fifos@[domain as int],
                RingSnapshot { head, tail, slot, at_us },
                arrival,
                final(self).fifos@[domain as int],
            ),
    {
        let at: usize = domain as usize;
        if at >= self.fifos.len() {
            return ;
        }
        assert(self.fifos@[at as int].stages@.len() == 6);
        let fifo: &mut Fifo = &mut self.fifos[at];
        fifo.ring = Some(RingSnapshot { head, tail, slot, at_us });
        fifo.samples = fifo.samples + 1;
        match arrival {
            Arrival::Nothing => {
                if head == tail {
                    fifo.empty = fifo.empty + 1;
                } else {
                    fifo.incomplete = fifo.incomplete + 1;
                }
            },
            Arrival::Fault => {
                fifo.faults = fifo.faults + 1;
            },
            Arrival::Packet => {},
        }
    }

    /// Takes note that a packet reached a stage. Stages are distinct: none is
    /// taken for another.
    pub fn packet(
        &mut self,
        domain: u32,
        packet: &Packet,
        presenting: &PresentOpcodes,
        stage: Stage,
        at_us: u64,
    )
        requires
            old(self).well_formed(),
            domain < old(self).fifos@.len() ==> {
                let count = old(self).fifos@[domain as int].stages@[stage.place()];
                count.packets < u64::MAX && (presenting.present(domain, packet.opcode)
                    ==> count.presents < u64::MAX)
            },
        ensures
            final(self).well_formed(),
            final(self).stamps@ == old(self).stamps@,
            final(self).fifos@.len() == old(self).fifos@.len(),
            forall|k: int| #![trigger final(self).fifos@[k]]
                0 <= k < old(self).fifos@.len() && k != domain ==> final(self).fifos@[k] == old(
                    self,
                ).fifos@[k],
            domain < old(self).fifos@.len() ==> {
                let before = old(self).fifos@[domain as int];
                let after = final(self).fifos@[domain as int];
                &&& after.ring == before.ring
                &&& after.samples == before.samples
                &&& after.empty == before.empty
                &&& after.incomplete == before.incomplete
                &&& after.faults == before.faults
                &&& after.stages@ == before.stages@.update(
                    stage.place(),
                    raised(
                        before.stages@[stage.place()],
                        presenting.present(domain, packet.opcode),
                        packet.completion_stamp,
                        at_us,
                    ),
                )
            },
    {
        let at: usize = domain as usize;
        if at >= self.fifos.len() {
            return ;
        }
        assert(self.fifos@[at as int].stages@.len() == 6);
        let place: usize = stage.index();
        let mut count: Count = self.fifos[at].stages[place];
        count.packets = count.packets + 1;
        if presenting.presents(domain, packet.opcode) {
            count.presents = count.presents + 1;
            count.last_present = Some((packet.completion_stamp, at_us));
        }
        let fifo: &mut Fifo = &mut self.fifos[at];
        fifo.stages.set(place, count);
    }

    /// Takes note of a stamp write. A queued or failed write does not claim that
    /// the guest can see it.
    pub fn stamp(&mut self, slot: u32, value: u32, write: StampWrite, at_us: u64)
        requires
            old(self).well_formed(),
            stamp_at(old(self).stamps@, slot) matches Some(stamp) ==> match write {
                StampWrite::Queued => stamp.queued < u64::MAX,
                StampWrite::Inline => stamp.inline_writes < u64::MAX,
                StampWrite::Failed => stamp.failed < u64::MAX,
            },
        ensures
            final(self).well_formed(),
            final(self).fifos == old(self).fifos,
            forall|other: u32| #[trigger]
                stamp_at(final(self).stamps@, other) == if other == slot {
                    Some(
                        written(
                            match stamp_at(old(self).stamps@, slot) {
                                Some(stamp) => stamp,
                                None => no_stamp(),
                            },
                            value,
                            write,
                            at_us,
                        ),
                    )
                } else {
                    stamp_at(old(self).stamps@, other)
                },
    {
        let ghost before = self.stamps@;
        let mut at: usize = 0;
        while at < self.stamps.len() && self.stamps[at].slot < slot
            invariant
                0 <= at <= self.stamps@.len(),
                self.stamps@ == before,
                forall|k: int| 0 <= k < at ==> (#[trigger] before[k]).slot < slot,
            decreases self.stamps@.len() - at,
        {
            at += 1;
        }
        let present: bool = at < self.stamps.len() && self.stamps[at].slot == slot;
        if !present {
            self.stamps.insert(
                at,
                StampSlot {
                    slot,
                    stamp: Stamp {
                        queued: 0,
                        inline_writes: 0,
                        failed: 0,
                        last_queued: None,
                        last_inline: None,
                    },
                },
            );
        }
        let ghost middle = self.stamps@;
        proof {
            if present {
                assert(before[at as int].slot == slot);
                lemma_stamp_at(before, slot);
            }
        }
        let mut stamp: Stamp = self.stamps[at].stamp;
        match write {
            StampWrite::Queued => {
                stamp.queued = stamp.queued + 1;
                stamp.last_queued = Some((value, at_us));
            },
            StampWrite::Inline => {
                stamp.inline_writes = stamp.inline_writes + 1;
                stamp.last_inline = Some((value, at_us));
            },
            StampWrite::Failed => {
                stamp.failed = stamp.failed + 1;
            },
        }
        self.stamps.set(at, StampSlot { slot, stamp });
        proof {
            let after = self.stamps@;
            let a = at as int;
            if present {
                assert(middle == before);
            } else {
                assert(middle == before.insert(a, middle[a]));
                assert forall|k: int| a < k < middle.len() implies middle[k] == before[k - 1] by {}
            }
            assert forall|i: int, j: int| 0 <= i < j < after.len() implies (
            #[trigger] after[i]).slot < (#[trigger] after[j]).slot by {
                if !present {
                    let x = if i < a {
                        i
                    } else {
                        i - 1
                    };
                    let y = if j < a {
                        j
                    } else {
                        j - 1
                    };
                    if i != a && j != a {
                        assert(before[x].slot < before[y].slot);
                    }
                    if i == a && a < before.len() {
                        assert(before[a].slot > slot);
                        if j - 1 > a {
                            assert(before[a].slot < before[j - 1].slot);
                        }
                    }
                } else {
                    assert(before[i].slot < before[j].slot);
                }
            }
            assert forall|other: u32| #[trigger]
                stamp_at(after, other) == if other == slot {
                    Some(
                        written(
                            match stamp_at(before, slot) {
                                Some(stamp) => stamp,
                                None => no_stamp(),
                            },
                            value,
                            write,
                            at_us,
                        ),
                    )
                } else {
                    stamp_at(before, other)
                } by {
                assert(after[a].slot == slot);
                lemma_stamp_at(before, slot);
                lemma_stamp_at(before, other);
                lemma_stamp_at(after, other);
                if other != slot {
                    if present {
                        assert forall|k: int| 0 <= k < before.len() && k != a implies after[k]
                            == before[k] by {}
                        if stamp_at(before, other) is Some {
                            let k = choose|k: int|
                                0 <= k < before.len() && (#[trigger] before[k]).slot == other;
                            assert(after[k].slot == other);
                        }
                        if stamp_at(after, other) is Some {
                            let k = choose|k: int|
                                0 <= k < after.len() && (#[trigger] after[k]).slot == other;
                            assert(before[k].slot == other);
                        }
                    } else {
                        if stamp_at(before, other) is Some {
                            let k = choose|k: int|
                                0 <= k < before.len() && (#[trigger] before[k]).slot == other;
                            if k < a {
                                assert(after[k].slot == other && after[k] == before[k]);
                            } else {
                                assert(after[k + 1].slot == other && after[k + 1] == before[k]);
                            }
                        }
                        if stamp_at(after, other) is Some {
                            let k = choose|k: int|
                                0 <= k < after.len() && (#[trigger] after[k]).slot == other;
                            if k < a {
                                assert(before[k].slot == other);
                            } else {
                                assert(before[k - 1].slot == other);
                            }
                        }
                    }
                } else {
                    if present {
                        assert(before[a].slot == slot);
                    } else {
                        assert forall|k: int| 0 <= k < before.len() implies (
                        #[trigger] before[k]).slot != slot by {
                            if k > a {
                                assert(before[a].slot < before[k].slot);
                            }
                        }
                    }
                }
            }
        }
    }
}

proof fn lemma_stamp_at(stamps: Seq<StampSlot>, slot: u32)
    requires
        forall|i: int, j: int|
            0 <= i < j < stamps.len() ==> (#[trigger] stamps[i]).slot < (#[trigger] stamps[j]).slot,
    ensures
        forall|k: int|
            0 <= k < stamps.len() && (#[trigger] stamps[k]).slot == slot ==> stamp_at(stamps, slot)
                == Some(stamps[k].stamp),
{
    assert forall|k: int| 0 <= k < stamps.len() && (#[trigger] stamps[k]).slot == slot implies
        stamp_at(stamps, slot) == Some(stamps[k].stamp) by {
        let m = choose|m: int| 0 <= m < stamps.len() && (#[trigger] stamps[m]).slot == slot;
        if m < k {
            assert(stamps[m].slot < stamps[k].slot);
        }
        if k < m {
            assert(stamps[k].slot < stamps[m].slot);
        }
    }
}

/// A labelled number with the time it was observed.
pub open spec fn word_text(label: Seq<char>, observation: Option<(u32, u64)>) -> Seq<char> {
    match observation {
        Some((value, at_us)) => " "@ + label + "="@ + decimal(value as int) + " "@ + label
            + "_us="@ + decimal(at_us as int),
        None => Seq::empty(),
    }
}

fn push_word(out: &mut String, label: &str, observation: Option<(u32, u64)>)
    ensures
        final(out)@ == old(out)@ + word_text(label@, observation),
{
    if let Some((value, at_us)) = observation {
        out.append(" ");
        out.append(label);
        out.append("=");
        push_decimal(out, value as u64);
        out.append(" ");
        out.append(label);
        out.append("_us=");
        push_decimal(out, at_us);
    }
    assert(out@ =~= old(out)@ + word_text(label@, observation));
}

/// The part of a channel's line about the stages from `place` on.
pub open spec fn stages_text(stages: Seq<Count>, place: int) -> Seq<char>
    decreases 6 - place,
{
    if place < 0 || place >= 6 {
        Seq::empty()
    } else {
        " "@ + stage_label(place) + "="@ + decimal(stages[place].packets as int) + " present_"@
            + stage_label(place) + "="@ + decimal(stages[place].presents as int) + word_text(
            "present_"@ + stage_label(place) + "_stamp"@,
            stages[place].last_present,
        ) + stages_text(stages, place + 1)
    }
}

/// The part of a channel's line about its ring.
pub open spec fn ring_text(ring: Option<RingSnapshot>) -> Seq<char> {
    match ring {
        Some(r) => " head="@ + decimal(r.head as int) + " tail="@ + decimal(r.tail as int)
            + " slot="@ + decimal(r.slot as int) + " sample_us="@ + decimal(r.at_us as int),
        None => Seq::empty(),
    }
}

/// A channel's line.
pub open spec fn fifo_text(
    fifo: Fifo,
    device: u64,
    generation: u64,
    channel: u64,
    waiting: u64,
    ready: u64,
) -> Seq<char> {
    "fifo_progress device="@ + decimal(device as int) + " generation="@ + decimal(
        generation as int,
    ) + " ch="@ + decimal(channel as int) + " cumulative=1 samples="@ + decimal(
        fifo.samples as int,
    ) + " empty="@ + decimal(fifo.empty as int) + " incomplete="@ + decimal(fifo.incomplete as int)
        + " faults="@ + decimal(fifo.faults as int) + " waiting="@ + decimal(waiting as int)
        + " ready="@ + decimal(ready as int) + ring_text(fifo.ring) + stages_text(fifo.stages@, 0)
}

/// A stamp slot's line.
pub open spec fn stamp_text(entry: StampSlot, device: u64, generation: u64) -> Seq<char> {
    "stamp_progress device="@ + decimal(device as int) + " generation="@ + decimal(
        generation as int,
    ) + " slot="@ + decimal(entry.slot as int) + " cumulative=1 queued="@ + decimal(
        entry.stamp.queued as int,
    ) + " inline="@ + decimal(entry.stamp.inline_writes as int) + " failed="@ + decimal(
        entry.stamp.failed as int,
    ) + word_text("last_queued"@, entry.stamp.last_queued) + word_text(
        "last_inline"@,
        entry.stamp.last_inline,
    )
}

/// The line that ties the monotonic clock to the wall clock.
pub open spec fn clock_text(device: u64, before_us: u64, utc_us: u64, after_us: u64) -> Seq<char> {
    "fifo_clock device="@ + decimal(device as int) + " mono_before_us="@ + decimal(before_us as int)
        + " utc_us="@ + decimal(utc_us as int) + " mono_after_us="@ + decimal(after_us as int)
}

/// The line that ties the monotonic clock to the wall clock.
pub fn clock_line(device: u64, before_us: u64, utc_us: u64, after_us: u64) -> (line: String)
    ensures
        line@ == clock_text(device, before_us, utc_us, after_us),
{
    let mut out: String = String::from_str("fifo_clock device=");
    push_decimal(&mut out, device);
    out.append(" mono_before_us=");
    push_decimal(&mut out, before_us);
    out.append(" utc_us=");
    push_decimal(&mut out, utc_us);
    out.append(" mono_after_us=");
    push_decimal(&mut out, after_us);
    out
}

fn push_stages(out: &mut String, stages: &Vec<Count>)
    requires
        stages@.len() == 6,
    ensures
        final(out)@ == old(out)@ + stages_text(stages@, 0),
{
    let mut place: usize = 0;
    assert(out@ + stages_text(stages@, 0) =~= old(out)@ + stages_text(stages@, 0));
    while place < 6
        invariant
            0 <= place <= 6,
            stages@.len() == 6,
            out@ + stages_text(stages@, place as int) == old(out)@ + stages_text(stages@, 0),
        decreases 6 - place,
    {
        let count: Count = stages[place];
        let text: &'static str = label(place);
        let mut part: String = String::from_str(" ");
        part.append(text);
        part.append("=");
        push_decimal(&mut part, count.packets);
        part.append(" present_");
        part.append(text);
        part.append("=");
        push_decimal(&mut part, count.presents);
        let mut name: String = String::from_str("present_");
        name.append(text);
        name.append("_stamp");
        push_word(&mut part, name.as_str(), count.last_present);
        let ghost before = out@;
        out.append(part.as_str());
        proof {
            let rest = stages_text(stages@, place + 1);
            assert(stages_text(stages@, place as int) =~= part@ + rest);
            assert(out@ + rest =~= before + (part@ + rest));
        }
        place += 1;
    }
    assert(out@ =~= out@ + stages_text(stages@, 6));
}

impl Fifo {
    /// There is something to report: the ring was read, or a packet arrived.
    pub open spec fn active(self) -> bool {
        self.ring is Some || self.stages@[0].packets != 0
    }

    /// The channel's line, where there is something to report.
    pub fn line(
        &self,
        device: u64,
        generation: u64,
        channel: u64,
        waiting: u64,
        ready: u64,
    ) -> (line: Option<String>)
        requires
            self.stages@.len() == 6,
        ensures
            line is Some <==> self.active(),
            line matches Some(text) ==> text@ == fifo_text(
                *self,
                device,
                generation,
                channel,
                waiting,
                ready,
            ),
    {
        if self.ring.is_none() && self.stages[0].packets == 0 {
            return None;
        }
        let mut out: String = String::from_str("fifo_progress device=");
        push_decimal(&mut out, device);
        out.append(" generation=");
        push_decimal(&mut out, generation);
        out.append(" ch=");
        push_decimal(&mut out, channel);
        out.append(" cumulative=1 samples=");
        push_decimal(&mut out, self.samples);
        out.append(" empty=");
        push_decimal(&mut out, self.empty);
        out.append(" incomplete=");
        push_decimal(&mut out, self.incomplete);
        out.append(" faults=");
        push_decimal(&mut out, self.faults);
        out.append(" waiting=");
        push_decimal(&mut out, waiting);
        out.append(" ready=");
        push_decimal(&mut out, ready);
        let ghost head = out@;
        if let Some(ring) = self.ring {
            out.append(" head=");
            push_decimal(&mut out, ring.head as u64);
            out.append(" tail=");
            push_decimal(&mut out, ring.tail as u64);
            out.append(" slot=");
            push_decimal(&mut out, ring.slot as u64);
            out.append(" sample_us=");
            push_decimal(&mut out, ring.at_us);
        }
        assert(out@ =~= head + ring_text(self.ring));
        push_stages(&mut out, &self.stages);
        Some(out)
    }
}

impl StampSlot {
    /// The slot's line.
    pub fn line(&self, device: u64, generation: u64) -> (line: String)
        ensures
            line@ == stamp_text(*self, device, generation),
    {
        let mut out: String = String::from_str("stamp_progress device=");
        push_decimal(&mut out, device);
        out.append(" generation=");
        push_decimal(&mut out, generation);
        out.append(" slot=");
        push_decimal(&mut out, self.slot as u64);
        out.append(" cumulative=1 queued=");
        push_decimal(&mut out, self.stamp.queued);
        out.append(" inline=");
        push_decimal(&mut out, self.stamp.inline_writes);
        out.append(" failed=");
        push_decimal(&mut out, self.stamp.failed);
        push_word(&mut out, "last_queued", self.stamp.last_queued);
        push_word(&mut out, "last_inline", self.stamp.last_inline);
        out
    }
}

/// How many of the positions before `n` belong to a channel.
pub open spec fn in_channel(domains: Seq<Option<u32>>, channel: int, n: int) -> int
    decreases n,
{
    if n <= 0 {
        0
    } else {
        in_channel(domains, channel, n - 1) + (if domains[n - 1] matches Some(d) && d == channel {
            1int
        } else {
            0
        })
    }
}

proof fn lemma_in_channel_bound(domains: Seq<Option<u32>>, channel: int, n: int)
    requires
        0 <= n <= domains.len(),
    ensures
        0 <= in_channel(domains, channel, n) <= n,
    decreases n,
{
    if n > 0 {
        lemma_in_channel_bound(domains, channel, n - 1);
    }
}

/// How many parked positions each channel has. A position without a channel, or
/// of one the device does not have, counts nowhere.
pub fn parked_per_channel(domains: &Vec<Option<u32>>, channels: usize) -> (counts: Vec<u64>)
    ensures
        counts@.len() == channels,
        forall|c: int|
            0 <= c < channels ==> (#[trigger] counts@[c]) == in_channel(
                domains@,
                c,
                domains@.len() as int,
            ),
{
    let mut counts: Vec<u64> = Vec::new();
    let mut c: usize = 0;
    while c < channels
        invariant
            0 <= c <= channels,
            counts@.len() == c,
            forall|k: int| 0 <= k < c ==> (#[trigger] counts@[k]) == 0,
        decreases channels - c,
    {
        counts.push(0);
        c += 1;
    }
    let mut n: usize = 0;
    while n < domains.len()
        invariant
            0 <= n <= domains@.len(),
            counts@.len() == channels,
            forall|k: int|
                0 <= k < channels ==> (#[trigger] counts@[k]) == in_channel(domains@, k, n as int),
        decreases domains@.len() - n,
    {
        let ghost before = counts@;
        if let Some(domain) = domains[n] {
            let at: usize = domain as usize;
            if at < counts.len() {
                proof {
                    lemma_in_channel_bound(domains@, at as int, n as int);
                    assert(counts@[at as int] <= n);
                }
                let count: u64 = counts[at];
                counts.set(at, count + 1);
            }
        }
        assert forall|k: int| 0 <= k < channels implies (#[trigger] counts@[k]) == in_channel(
            domains@,
            k,
            n + 1,
        ) by {
            assert(before[k] == in_channel(domains@, k, n as int));
        }
        n += 1;
    }
    counts
}

/// What the clocks say when progress is reported.
pub enum Clock {
    /// The wall clock, between two readings of the monotonic one.
    Read { before_us: u64, utc_us: u64, after_us: u64 },
    /// The wall clock could not be read.
    Unavailable { error: String },
}

/// The first line of a report.
pub open spec fn opening_text(device: u64, clock: Clock) -> Seq<char> {
    match clock {
        Clock::Read { before_us, utc_us, after_us } => clock_text(
            device,
            before_us,
            utc_us,
            after_us,
        ),
        Clock::Unavailable { error } => "fifo_clock_unavailable error="@ + error@,
    }
}

/// The positions of a device that are parked, by channel: those still waiting and
/// those that are ready.
pub struct Parked {
    pub waiting: Vec<Option<u32>>,
    pub ready: Vec<Option<u32>>,
}

/// The line of a channel.
pub open spec fn channel_text(
    fifos: Seq<Fifo>,
    device: u64,
    generation: u64,
    parked: Parked,
    n: int,
) -> Seq<char> {
    fifo_text(
        fifos[n],
        device,
        generation,
        n as u64,
        in_channel(parked.waiting@, n, parked.waiting@.len() as int) as u64,
        in_channel(parked.ready@, n, parked.ready@.len() as int) as u64,
    )
}

/// The lines of the channels from `n` on, behind those before: one for every
/// channel with something to report.
pub open spec fn channel_lines(
    fifos: Seq<Fifo>,
    device: u64,
    generation: u64,
    parked: Parked,
    n: int,
    before: Seq<Seq<char>>,
) -> Seq<Seq<char>>
    decreases fifos.len() - n,
{
    if n < 0 || n >= fifos.len() {
        before
    } else if fifos[n].active() {
        channel_lines(
            fifos,
            device,
            generation,
            parked,
            n + 1,
            before.push(channel_text(fifos, device, generation, parked, n)),
        )
    } else {
        channel_lines(fifos, device, generation, parked, n + 1, before)
    }
}

/// The lines of the stamp slots.
pub open spec fn slot_lines(stamps: Seq<StampSlot>, device: u64, generation: u64) -> Seq<Seq<char>> {
    Seq::new(stamps.len(), |k: int| stamp_text(stamps[k], device, generation))
}

impl FifoProgress {
    /// What a report says: the clock first, then the channels in ascending order,
    /// then the stamp slots in ascending order.
    pub open spec fn report(
        self,
        device: u64,
        generation: u64,
        clock: Clock,
        parked: Parked,
    ) -> Seq<Seq<char>> {
        channel_lines(
            self.fifos@,
            device,
            generation,
            parked,
            0,
            seq![opening_text(device, clock)],
        ) + slot_lines(self.stamps@, device, generation)
    }

    /// The lines of a report.
    pub fn lines(&self, device: u64, generation: u64, clock: &Clock, parked: &Parked) -> (lines:
        Vec<String>)
        requires
            self.well_formed(),
        ensures
            texts(lines@) == self.report(device, generation, *clock, *parked),
    {
        let waiting: Vec<u64> = parked_per_channel(&parked.waiting, self.fifos.len());
        let ready: Vec<u64> = parked_per_channel(&parked.ready, self.fifos.len());
        let mut lines: Vec<String> = Vec::new();
        let opening: String = match clock {
            Clock::Read { before_us, utc_us, after_us } => clock_line(
                device,
                *before_us,
                *utc_us,
                *after_us,
            ),
            Clock::Unavailable { error } => {
                let mut out: String = String::from_str("fifo_clock_unavailable error=");
                out.append(error.as_str());
                out
            },
        };
        push_line(&mut lines, opening);
        assert(texts(lines@) =~= seq![opening_text(device, *clock)]);
        let ghost first = seq![opening_text(device, *clock)];
        let mut n: usize = 0;
        while n < self.fifos.len()
            invariant
                0 <= n <= self.fifos@.len(),
                self.well_formed(),
                waiting@.len() == self.fifos@.len(),
                ready@.len() == self.fifos@.len(),
                forall|c: int|
                    0 <= c < waiting@.len() ==> (#[trigger] waiting@[c]) == in_channel(
                        parked.waiting@,
                        c,
                        parked.waiting@.len() as int,
                    ),
                forall|c: int|
                    0 <= c < ready@.len() ==> (#[trigger] ready@[c]) == in_channel(
                        parked.ready@,
                        c,
                        parked.ready@.len() as int,
                    ),
                channel_lines(self.fifos@, device, generation, *parked, 0, first) == channel_lines(
                    self.fifos@,
                    device,
                    generation,
                    *parked,
                    n as int,
                    texts(lines@),
                ),
            decreases self.fifos@.len() - n,
        {
            assert(self.fifos@[n as int].stages@.len() == 6);
            assert(waiting@[n as int] == in_channel(
                parked.waiting@,
                n as int,
                parked.waiting@.len() as int,
            ));
            assert(ready@[n as int] == in_channel(
                parked.ready@,
                n as int,
                parked.ready@.len() as int,
            ));
            if let Some(line) = self.fifos[n].line(
                device,
                generation,
                n as u64,
                waiting[n],
                ready[n],
            ) {
                push_line(&mut lines, line);
            }
            n += 1;
        }
        let ghost above = texts(lines@);
        let ghost slots = slot_lines(self.stamps@, device, generation);
        let mut k: usize = 0;
        assert(above + slots.take(0) =~= above);
        while k < self.stamps.len()
            invariant
                0 <= k <= self.stamps@.len(),
                slots == slot_lines(self.stamps@, device, generation),
                texts(lines@) == above + slots.take(k as int),
            decreases self.stamps@.len() - k,
        {
            push_line(&mut lines, self.stamps[k].line(device, generation));
            assert(slots.take(k + 1) =~= slots.take(k as int).push(slots[k as int]));
            assert(texts(lines@) =~= above + slots.take(k + 1));
            k += 1;
        }
        assert(slots.take(k as int) =~= slots);
        lines
    }
}

/// How many of the first `n` channels have something to report.
pub open spec fn active_before(fifos: Seq<Fifo>, n: int) -> int
    decreases n,
{
    if n <= 0 {
        0
    } else if fifos[n - 1].active() {
        active_before(fifos, n - 1) + 1
    } else {
        active_before(fifos, n - 1)
    }
}

proof fn lemma_active_ordered(fifos: Seq<Fifo>, a: int, b: int)
    requires
        0 <= a <= b,
    ensures
        0 <= active_before(fifos, a) <= active_before(fifos, b),
        a < b && fifos[a].active() ==> active_before(fifos, a) < active_before(fifos, b),
    decreases b,
{
    if b > 0 {
        if a < b {
            lemma_active_ordered(fifos, a, b - 1);
        } else {
            lemma_active_ordered(fifos, b - 1, b - 1);
        }
    }
}

proof fn lemma_channel_lines(
    fifos: Seq<Fifo>,
    device: u64,
    generation: u64,
    parked: Parked,
    n: int,
    before: Seq<Seq<char>>,
)
    requires
        0 <= n <= fifos.len(),
    ensures
        ({
            let lines = channel_lines(fifos, device, generation, parked, n, before);
            let skipped = before.len() - active_before(fifos, n);
            &&& lines.len() == skipped + active_before(fifos, fifos.len() as int)
            &&& lines.len() >= before.len()
            &&& forall|i: int| 0 <= i < before.len() ==> #[trigger] lines[i] == before[i]
            &&& forall|k: int|
                n <= k < fifos.len() && (#[trigger] fifos[k]).active() ==> lines[skipped
                    + active_before(fifos, k)] == channel_text(fifos, device, generation, parked, k)
        }),
    decreases fifos.len() - n,
{
    if n < fifos.len() {
        let next = if fifos[n].active() {
            before.push(channel_text(fifos, device, generation, parked, n))
        } else {
            before
        };
        lemma_channel_lines(fifos, device, generation, parked, n + 1, next);
        lemma_active_ordered(fifos, n, n + 1);
        let lines = channel_lines(fifos, device, generation, parked, n, before);
        assert(lines == channel_lines(fifos, device, generation, parked, n + 1, next));
        assert forall|i: int| 0 <= i < before.len() implies #[trigger] lines[i] == before[i] by {
            assert(next[i] == before[i]);
        }
        if fifos[n].active() {
            assert(lines[before.len() as int] == next[before.len() as int]);
        }
    }
}

/// A report opens with the clock, goes on with the channels that have something to
/// report, in order and one line each, and ends with the stamp slots, in order and
/// one line each.
pub proof fn law_a_report_is_ordered(
    progress: FifoProgress,
    device: u64,
    generation: u64,
    clock: Clock,
    parked: Parked,
)
    ensures
        ({
            let lines = progress.report(device, generation, clock, parked);
            let channels = active_before(progress.fifos@, progress.fifos@.len() as int);
            &&& lines.len() == 1 + channels + progress.stamps@.len()
            &&& lines[0] == opening_text(device, clock)
            &&& forall|k: int|
                0 <= k < progress.fifos@.len() && (#[trigger] progress.fifos@[k]).active()
                    ==> lines[1 + active_before(progress.fifos@, k)] == channel_text(
                    progress.fifos@,
                    device,
                    generation,
                    parked,
                    k,
                )
            &&& forall|k: int|
                0 <= k < progress.stamps@.len() ==> lines[1 + channels + k] == stamp_text(
                    #[trigger] progress.stamps@[k],
                    device,
                    generation,
                )
        }),
{
    let fifos = progress.fifos@;
    let first = seq![opening_text(device, clock)];
    let lines = progress.report(device, generation, clock, parked);
    let upper = channel_lines(fifos, device, generation, parked, 0, first);
    lemma_channel_lines(fifos, device, generation, parked, 0, first);
    assert(lines[0] == upper[0]);
    assert forall|k: int| 0 <= k < fifos.len() && (#[trigger] fifos[k]).active() implies lines[1
        + active_before(fifos, k)] == channel_text(fifos, device, generation, parked, k) by {
        lemma_active_ordered(fifos, k, fifos.len() as int);
        assert(lines[1 + active_before(fifos, k)] == upper[1 + active_before(fifos, k)]);
    }
}

/// A packet raises the count of its stage by one, and that of the presenting ones
/// only if it presents; the last one that presented is then the one remembered.
pub proof fn law_a_packet_is_counted_once(count: Count, present: bool, stamp: u32, at_us: u64)
    requires
        count.packets < u64::MAX,
        count.presents < u64::MAX,
    ensures
        raised(count, present, stamp, at_us).packets - count.packets == 1,
        present ==> raised(count, present, stamp, at_us).presents - count.presents == 1,
        !present ==> raised(count, present, stamp, at_us).presents == count.presents,
        present ==> raised(count, present, stamp, at_us).last_present is Some && (raised(
            count,
            present,
            stamp,
            at_us,
        ).last_present->0).0 == stamp && (raised(count, present, stamp, at_us).last_present->0).1
            == at_us,
        !present ==> raised(count, present, stamp, at_us).last_present == count.last_present,
        count.presents <= count.packets ==> raised(count, present, stamp, at_us).presents
            <= raised(count, present, stamp, at_us).packets,
{
}

/// A stamp write is counted once, under the way it was made; only a write made
/// inline is remembered as one the guest can see, and only a queued one as queued.
pub proof fn law_a_stamp_write_is_counted_once(
    stamp: Stamp,
    value: u32,
    write: StampWrite,
    at_us: u64,
)
    requires
        stamp.queued < u64::MAX,
        stamp.inline_writes < u64::MAX,
        stamp.failed < u64::MAX,
    ensures
        ({
            let after = written(stamp, value, write, at_us);
            &&& after.queued + after.inline_writes + after.failed == stamp.queued
                + stamp.inline_writes + stamp.failed + 1
            &&& after.queued > stamp.queued <==> write == StampWrite::Queued
            &&& after.inline_writes > stamp.inline_writes <==> write == StampWrite::Inline
            &&& after.failed > stamp.failed <==> write == StampWrite::Failed
            &&& write == StampWrite::Inline ==> after.last_inline is Some && (
            after.last_inline->0).0 == value && (after.last_inline->0).1 == at_us
            &&& write != StampWrite::Inline ==> after.last_inline == stamp.last_inline
            &&& write == StampWrite::Queued ==> after.last_queued is Some && (
            after.last_queued->0).0 == value && (after.last_queued->0).1 == at_us
            &&& write != StampWrite::Queued ==> after.last_queued == stamp.last_queued
        }),
{
}

/// A ring sample is counted once and kept with its time. Nothing arriving is an
/// empty ring only where head and tail meet; a fault is neither empty nor
/// incomplete, and no sample counts a packet.
pub proof fn law_a_stalled_ring_is_not_an_empty_one(
    before: Fifo,
    ring: RingSnapshot,
    arrival: Arrival,
    after: Fifo,
)
    requires
        sampled(before, ring, arrival, after),
    ensures
        after.samples - before.samples == 1,
        after.ring is Some && after.ring->0 == ring,
        (after.empty - before.empty) + (after.incomplete - before.incomplete) + (after.faults
            - before.faults) == if arrival == Arrival::Packet {
            0int
        } else {
            1int
        },
        after.empty > before.empty <==> arrival == Arrival::Nothing && ring.head == ring.tail,
        after.incomplete > before.incomplete <==> arrival == Arrival::Nothing && ring.head
            != ring.tail,
        after.faults > before.faults <==> arrival == Arrival::Fault,
        after.stages@ == before.stages@,
{
}

/// No two stages are counted in one place.
pub proof fn law_stages_have_places_of_their_own(a: Stage, b: Stage)
    ensures
        0 <= a.place() < 6,
        a.place() == b.place() ==> a == b,
{
}

/// An opcode presents a frame in the root channel, which is the first, by the
/// root's list alone, and in any other by the children's.
pub proof fn law_each_channel_has_its_own_opcodes(
    opcodes: PresentOpcodes,
    other: PresentOpcodes,
    domain: u32,
    opcode: u32,
)
    ensures
        opcodes.root@ == other.root@ ==> opcodes.present(0, opcode) == other.present(0, opcode),
        domain != 0 && opcodes.child@ == other.child@ ==> opcodes.present(domain, opcode)
            == other.present(domain, opcode),
        opcodes.present(0, opcode) <==> opcodes.root@.contains(opcode),
        domain != 0 ==> (opcodes.present(domain, opcode) <==> opcodes.child@.contains(opcode)),
{
}

/// A channel has as many parked positions as are listed for exactly it.
pub proof fn law_parked_positions_are_counted_by_channel(
    domains: Seq<Option<u32>>,
    channel: int,
    n: int,
)
    requires
        0 <= n <= domains.len(),
    ensures
        in_channel(domains, channel, n) == domains.take(n).filter(
            |d: Option<u32>| d is Some && d->0 == channel,
        ).len(),
    decreases n,
{
    reveal(Seq::filter);
    let keep = |d: Option<u32>| d is Some && d->0 == channel;
    if n > 0 {
        law_parked_positions_are_counted_by_channel(domains, channel, n - 1);
        assert(domains.take(n).drop_last() =~= domains.take(n - 1));
        assert(domains.take(n).last() == domains[n - 1]);
    } else {
        assert(domains.take(0) =~= Seq::<Option<u32>>::empty());
    }
}

/// A slot has what its own entry got, wherever it is listed, and nothing where it
/// is not.
pub proof fn law_a_slot_has_its_own_stamp(stamps: Seq<StampSlot>, slot: u32, k: int)
    requires
        forall|i: int, j: int|
            0 <= i < j < stamps.len() ==> (#[trigger] stamps[i]).slot < (#[trigger] stamps[j]).slot,
    ensures
        0 <= k < stamps.len() && stamps[k].slot == slot ==> stamp_at(stamps, slot) == Some(
            stamps[k].stamp,
        ),
        (forall|j: int| 0 <= j < stamps.len() ==> (#[trigger] stamps[j]).slot != slot) ==> stamp_at(
            stamps,
            slot,
        ) is None,
{
    lemma_stamp_at(stamps, slot);
}

/// No two stages are reported under one name, and a slot nothing was written to has
/// counted nothing.
pub proof fn law_stages_have_names_of_their_own(a: int, b: int)
    requires
        0 <= a < 6,
        0 <= b < 6,
    ensures
        stage_label(a) == stage_label(b) ==> a == b,
        no_stamp().queued + no_stamp().inline_writes + no_stamp().failed == 0,
        no_stamp().last_queued is None,
        no_stamp().last_inline is None,
{
    reveal_strlit("arrived");
    reveal_strlit("admitted");
    reveal_strlit("started");
    reveal_strlit("deferred");
    reveal_strlit("model_retired");
    reveal_strlit("refused");
    assert("arrived"@[1] == 'r' && "arrived"@[0] == 'a');
    assert("admitted"@[1] == 'd' && "admitted"@[0] == 'a');
    assert("started"@[1] == 't' && "started"@[0] == 's');
    assert("deferred"@[1] == 'e' && "deferred"@[0] == 'd');
    assert("model_retired"@[0] == 'm');
    assert("refused"@[0] == 'r');
}

/// A channel is reported once its ring was read or a packet arrived, and not before.
pub proof fn law_an_unobserved_channel_is_not_reported(fifo: Fifo)
    ensures
        fifo.ring is Some ==> fifo.active(),
        fifo.stages@[0].packets > 0 ==> fifo.active(),
        fifo.ring is None && fifo.stages@[0].packets == 0 ==> !fifo.active(),
{
}

} // verus!
