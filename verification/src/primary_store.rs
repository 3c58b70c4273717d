//! Where the primary attachment's linear store goes, chosen before the draw.
use vstd::prelude::*;

use crate::isolation::TargetIdentity;
use crate::secondary_store::StoreAction;

verus! {

/// When a store happens.
#[derive(Clone, Copy, Debug, PartialEq, Eq, Structural)]
pub enum Timing {
    /// Later, if the debt can be armed.
    MayDefer,
    Synchronous,
}

/// What the choice reads of a draw.
#[derive(Clone, Copy, Debug, PartialEq, Eq, Structural)]
pub struct PrimaryFacts {
    /// The primary attachment's action, where there is one.
    pub store_action: Option<StoreAction>,
    /// The linear target's identity, where the primary has one.
    pub identity: Option<TargetIdentity>,
    /// The draw's content may stay on the device.
    pub gpu_only_content_allowed: bool,
    /// The store may be deferred.
    pub defer_eligible: bool,
    /// The attachment's texels do not survive the ordinary four-byte readback.
    pub requires_native: bool,
    pub writeback_guest: bool,
}

/// A claimed store of the primary attachment.
#[derive(Clone, Copy, Debug, PartialEq, Eq, Structural)]
pub struct GvaStore {
    pub identity: TargetIdentity,
    pub timing: Timing,
    /// The store keeps the attachment's native texels.
    pub native: bool,
}

/// The part of the native request that a claimed store fills in.
#[derive(Clone, Copy, Debug, PartialEq, Eq, Structural)]
pub struct StoreResources {
    pub target_identity: Option<TargetIdentity>,
    pub skip_readback: bool,
}

/// The store a draw claims.
pub open spec fn claimed(facts: PrimaryFacts) -> Option<GvaStore> {
    if facts.store_action is None || !facts.writeback_guest || !(
    facts.store_action->0).publishes() || facts.identity is None {
        None
    } else if facts.gpu_only_content_allowed && facts.defer_eligible {
        Some(
            GvaStore {
                identity: facts.identity->0,
                timing: Timing::MayDefer,
                native: facts.requires_native,
            },
        )
    } else if facts.requires_native {
        Some(GvaStore { identity: facts.identity->0, timing: Timing::Synchronous, native: true })
    } else {
        None
    }
}

/// How a finished store stands.
#[derive(Clone, Copy, Debug, PartialEq, Eq, Structural)]
pub enum StoreEnd {
    /// The guest has its bytes, or is owed them.
    Complete,
    /// The bytes that were read back.
    Rgba8,
}

/// Why a store did not finish.
#[derive(Clone, Copy, Debug, PartialEq, Eq, Structural)]
pub enum StoreFailure {
    /// The draw has no primary attachment.
    TargetMissing,
    /// The native store refused.
    Native,
    /// The target could not be read back.
    Readback,
}

impl StoreFailure {
    /// The name a failure is reported under, where the reason is this module's
    /// own.
    pub open spec fn slug_text(self) -> Option<Seq<char>> {
        match self {
            StoreFailure::TargetMissing => Some("draw_vk_gva_store_target_missing"@),
            StoreFailure::Native => None,
            StoreFailure::Readback => Some("draw_vk_gva_resident_readback"@),
        }
    }

    /// The name a failure is reported under.
    pub fn slug(self) -> (text: Option<&'static str>)
        ensures
            text is Some <==> self.slug_text() is Some,
            text matches Some(t) ==> Some(t@) == self.slug_text(),
    {
        match self {
            StoreFailure::TargetMissing => Some("draw_vk_gva_store_target_missing"),
            StoreFailure::Native => None,
            StoreFailure::Readback => Some("draw_vk_gva_resident_readback"),
        }
    }
}

/// What the store's outside work answers, in the order it is asked.
#[derive(Clone, Copy, Debug, PartialEq, Eq, Structural)]
pub struct StoreAnswers {
    /// The draw still has a primary attachment.
    pub color: bool,
    /// The native store was captured, and its capture is still live.
    pub native_live: bool,
    /// The debt was armed.
    pub armed: bool,
    /// The native texels were published.
    pub native_published: bool,
    /// The target was read back.
    pub read_back: bool,
}

/// The routes a store is counted under.
#[derive(Clone, Copy, Debug, PartialEq, Eq, Structural)]
pub struct StoreRoutes {
    pub flush: bool,
    pub resident_authoritative: bool,
    pub sync: bool,
    pub native: bool,
}

/// What the store asks for next.
#[derive(Clone, Copy, Debug, PartialEq, Eq, Structural)]
pub enum StoreStep {
    /// Arm the debt of the identity's window.
    Arm,
    /// Publish the native texels to the identity's pages.
    PublishNative,
    /// Read the identity's target back.
    ReadBack,
}

impl GvaStore {
    /// Claims the primary attachment's store before the draw, and names its
    /// target in the native request. Where nothing is claimed the request is
    /// left alone.
    pub fn prepare(facts: &PrimaryFacts, resources: &mut StoreResources) -> (store: Option<
        GvaStore,
    >)
        ensures
            store == claimed(*facts),
            *final(resources) == match store {
                Some(s) => StoreResources { target_identity: Some(s.identity), skip_readback: true },
                None => *old(resources),
            },
    {
        let action: StoreAction = match facts.store_action {
            Some(action) => action,
            None => {
                return None;
            },
        };
        if !facts.writeback_guest || !action.publishes_single_sample() {
            return None;
        }
        let identity: TargetIdentity = match facts.identity {
            Some(identity) => identity,
            None => {
                return None;
            },
        };
        let timing: Timing = if facts.gpu_only_content_allowed && facts.defer_eligible {
            Timing::MayDefer
        } else if facts.requires_native {
            Timing::Synchronous
        } else {
            return None;
        };
        resources.target_identity = Some(identity);
        resources.skip_readback = true;
        Some(GvaStore { identity, timing, native: facts.requires_native })
    }

    /// The first work a store asks for: nothing is armed or read before the draw
    /// has its attachment and a native store is known to be live.
    pub fn begin(&self, color: bool, native_live: bool) -> (r: Result<StoreStep, StoreFailure>)
        ensures
            r == if !color {
                Err::<StoreStep, StoreFailure>(StoreFailure::TargetMissing)
            } else if self.native && !native_live {
                Err(StoreFailure::Native)
            } else if self.timing == Timing::MayDefer {
                Ok(StoreStep::Arm)
            } else {
                Ok(self.written())
            },
    {
        if !color {
            return Err(StoreFailure::TargetMissing);
        }
        if self.native && !native_live {
            return Err(StoreFailure::Native);
        }
        match self.timing {
            Timing::MayDefer => Ok(StoreStep::Arm),
            Timing::Synchronous => Ok(self.writing()),
        }
    }

    /// How a store that is not deferred writes.
    pub open spec fn written(self) -> StoreStep {
        if self.native {
            StoreStep::PublishNative
        } else {
            StoreStep::ReadBack
        }
    }

    fn writing(&self) -> (step: StoreStep)
        ensures
            step == self.written(),
    {
        if self.native {
            StoreStep::PublishNative
        } else {
            StoreStep::ReadBack
        }
    }

    /// The work after an attempt to defer: none once the debt is armed.
    pub fn after_arm(&self, armed: bool) -> (step: Option<StoreStep>)
        ensures
            step == if armed {
                None::<StoreStep>
            } else {
                Some(self.written())
            },
    {
        if armed {
            None
        } else {
            Some(self.writing())
        }
    }

    /// How the store ends: the routes it is counted under, and its result.
    pub open spec fn ended(self, answers: StoreAnswers) -> (StoreRoutes, Result<
        StoreEnd,
        StoreFailure,
    >) {
        let routes = StoreRoutes {
            flush: true,
            resident_authoritative: false,
            sync: false,
            native: false,
        };
        if !answers.color {
            (routes, Err(StoreFailure::TargetMissing))
        } else if self.native && !answers.native_live {
            (routes, Err(StoreFailure::Native))
        } else if self.timing == Timing::MayDefer && answers.armed {
            (StoreRoutes { resident_authoritative: true, ..routes }, Ok(StoreEnd::Complete))
        } else if self.native && answers.native_published {
            (StoreRoutes { sync: true, native: true, ..routes }, Ok(StoreEnd::Complete))
        } else if self.native {
            (StoreRoutes { sync: true, ..routes }, Err(StoreFailure::Native))
        } else if answers.read_back {
            (StoreRoutes { sync: true, ..routes }, Ok(StoreEnd::Rgba8))
        } else {
            (StoreRoutes { sync: true, ..routes }, Err(StoreFailure::Readback))
        }
    }

    /// Ends the store with what its outside work answered. An answer that no
    /// step asked for is not read.
    pub fn finish(&self, answers: &StoreAnswers) -> (r: (StoreRoutes, Result<StoreEnd, StoreFailure>))
        ensures
            r == self.ended(*answers),
    {
        let mut routes = StoreRoutes {
            flush: true,
            resident_authoritative: false,
            sync: false,
            native: false,
        };
        let mut step: StoreStep = match self.begin(answers.color, answers.native_live) {
            Ok(step) => step,
            Err(failure) => {
                return (routes, Err(failure));
            },
        };
        if step == StoreStep::Arm {
            match self.after_arm(answers.armed) {
                None => {
                    routes.resident_authoritative = true;
                    return (routes, Ok(StoreEnd::Complete));
                },
                Some(next) => {
                    step = next;
                },
            }
        }
        routes.sync = true;
        match step {
            StoreStep::PublishNative => if answers.native_published {
                routes.native = true;
                (routes, Ok(StoreEnd::Complete))
            } else {
                (routes, Err(StoreFailure::Native))
            },
            _ => if answers.read_back {
                (routes, Ok(StoreEnd::Rgba8))
            } else {
                (routes, Err(StoreFailure::Readback))
            },
        }
    }
}

/// Native texels are never narrowed to four bytes: a store of an attachment that
/// needs them, once claimed, ends without a readback.
pub proof fn law_native_texels_are_never_narrowed(facts: PrimaryFacts, answers: StoreAnswers)
    requires
        facts.requires_native,
    ensures
        claimed(facts) matches Some(store) ==> store.native && store.ended(answers).1 != Ok::<
            StoreEnd,
            StoreFailure,
        >(StoreEnd::Rgba8),
{
}

/// A store that was armed for later copies no pixels: neither a readback nor a
/// native write follows.
pub proof fn law_deferred_stores_copy_nothing(store: GvaStore, answers: StoreAnswers)
    requires
        store.ended(answers).0.resident_authoritative,
    ensures
        store.timing == Timing::MayDefer,
        !store.ended(answers).0.sync,
        !store.ended(answers).0.native,
        store.ended(answers).1 == Ok::<StoreEnd, StoreFailure>(StoreEnd::Complete),
{
}

/// A store is claimed exactly when the draw writes to the guest, its primary
/// attachment is a linear target that the pass publishes, and the store either may
/// wait or must keep native texels. It is of that target, native where the texels
/// are, and waits only where the content may stay and the store be deferred.
pub proof fn law_a_claimed_store_is_of_a_published_target(facts: PrimaryFacts)
    ensures
        claimed(facts) is Some <==> {
            &&& facts.writeback_guest
            &&& facts.identity is Some
            &&& facts.store_action == Some(StoreAction::Store) || facts.store_action == Some(
                StoreAction::Resolve,
            )
            &&& (facts.gpu_only_content_allowed && facts.defer_eligible) || facts.requires_native
        },
        claimed(facts) matches Some(store) ==> {
            &&& store.identity == facts.identity->0
            &&& store.native == facts.requires_native
            &&& store.timing == Timing::MayDefer <==> facts.gpu_only_content_allowed
                && facts.defer_eligible
        },
{
}

/// How a store ends depends only on the answers that it asked for: a synchronous
/// store not on arming, a native one not on a readback, a readback not on native
/// publication, and none on anything behind the answer that ended it.
pub proof fn law_a_store_reads_only_what_it_asked(
    store: GvaStore,
    answers: StoreAnswers,
    other: StoreAnswers,
)
    requires
        answers.color == other.color,
        store.native && answers.color ==> answers.native_live == other.native_live,
        store.timing == Timing::MayDefer && answers.color && (store.native ==> answers.native_live)
            ==> answers.armed == other.armed,
        store.native && answers.color && answers.native_live && !(store.timing == Timing::MayDefer
            && answers.armed) ==> answers.native_published == other.native_published,
        !store.native && answers.color && !(store.timing == Timing::MayDefer && answers.armed)
            ==> answers.read_back == other.read_back,
    ensures
        store.ended(answers) == store.ended(other),
{
}

/// A store ends well exactly when its debt was armed or its texels were written the
/// way they are written: natively for a native store, by readback for any other.
/// It fails for the first thing that was missing, and counts the way it went.
pub proof fn law_a_store_ends_as_its_work_went(store: GvaStore, answers: StoreAnswers)
    ensures
        ({
            let (routes, end) = store.ended(answers);
            let begun = answers.color && (store.native ==> answers.native_live);
            let deferred = begun && store.timing == Timing::MayDefer && answers.armed;
            &&& routes.flush
            &&& routes.resident_authoritative <==> deferred
            &&& routes.sync <==> begun && !deferred
            &&& routes.native <==> begun && !deferred && store.native && answers.native_published
            &&& end == Ok::<StoreEnd, StoreFailure>(StoreEnd::Complete) <==> deferred
                || routes.native
            &&& end == Ok::<StoreEnd, StoreFailure>(StoreEnd::Rgba8) <==> begun && !deferred
                && !store.native && answers.read_back
            &&& end == Err::<StoreEnd, StoreFailure>(StoreFailure::TargetMissing)
                <==> !answers.color
            &&& end == Err::<StoreEnd, StoreFailure>(StoreFailure::Readback) <==> begun && !deferred
                && !store.native && !answers.read_back
            &&& end == Err::<StoreEnd, StoreFailure>(StoreFailure::Native) <==> answers.color
                && store.native && (!answers.native_live || (!deferred
                && !answers.native_published))
        }),
{
}

} // verus!
