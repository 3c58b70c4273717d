use reims_vgpu::gather::{GatherOutcome, GatheredIdentity};
use reims_vgpu::input_snapshot::cache::{permitted, Class, Origin, RetainedBuffer, Seen, Switch};
use reims_vgpu::input_snapshot::fill::{
    Eligibility, FillAction, FillReport, FillSession, Phase,
};
use reims_vgpu::input_snapshot::observe::{observe, page_count, Key, MemError};
use reims_vgpu::input_snapshot::routes::{Note, SnapshotRoute};
use reims_vgpu::input_snapshot::span::{contained_offset, BufferBacking, BufferReadSpan};
use reims_vgpu::scope::{BufferSnapshotScope, ScopeRegistry, SnapshotScopeRef};
use std::collections::HashMap;
use std::sync::Arc;

const PAGE_SHIFT_X86: u32 = 12;
const PAGE_SHIFT_ARM64E: u32 = 14;
const SWITCH_NAME: &str = "METAL_INPUT_SNAPSHOT_REUSE";

/// A native allocation of the declared size, initialized only where captured.
struct Image {
    bytes: Vec<u8>,
}

struct Filled {
    image: Arc<Image>,
    offset: usize,
    captured: usize,
}

impl Filled {
    fn len(&self) -> usize {
        self.image.bytes.len() - self.offset
    }
}

fn captured(input: &Filled) -> Vec<u8> {
    input.image.bytes[input.offset..input.offset + input.captured].to_vec()
}

struct Watch {
    pages: Vec<u64>,
    len: usize,
    token: u64,
    generation: u64,
}

#[derive(Clone)]
struct Bind {
    reference: u32,
    page: u64,
    size: u64,
    offset: u64,
    index: u32,
}

/// A shader's proof about a binding: whether it only reads it, and how far.
#[derive(Clone, Copy)]
struct Proof {
    read_only: bool,
    bytes: Option<usize>,
}

fn object(bytes: usize) -> Option<Proof> {
    Some(Proof { read_only: true, bytes: Some(bytes) })
}

fn unbounded_readonly() -> Option<Proof> {
    Some(Proof { read_only: true, bytes: None })
}

struct Fixture {
    shift: u32,
    page: u64,
    /// The task's page table; zero is a hole.
    table: Vec<u64>,
    memory: HashMap<u64, Vec<u8>>,
    guest_writes: HashMap<u64, u64>,
    host_writes: HashMap<u64, u64>,
    declared: HashMap<u32, u64>,
    watches: HashMap<u64, Watch>,
    next_token: u64,
    rearms: u64,
    observations: u64,
    guest_writes_unobservable: bool,
    guest_write_startup_window: bool,
    guest_write_deferred: bool,
    enabled: bool,
    scopes: ScopeRegistry,
    scope: Option<BufferSnapshotScope>,
    held: HashMap<u32, RetainedBuffer<Arc<Image>>>,
    other_rail: Vec<u32>,
    notes: Vec<Note>,
    fills: HashMap<u32, (u64, u64)>,
}

impl Fixture {
    fn new(shift: u32) -> Self {
        let page = 1u64 << shift;
        let mut scopes = ScopeRegistry::new();
        let scope = scopes.open();
        let memory = [(8u64, 0x11u8), (13, 0x22), (21, 0x33)]
            .into_iter()
            .map(|(pfn, byte)| (pfn * page, vec![byte; page as usize]))
            .collect();
        Self {
            shift,
            page,
            table: vec![4, 8, 13, 21],
            memory,
            guest_writes: HashMap::new(),
            host_writes: HashMap::new(),
            declared: HashMap::new(),
            watches: HashMap::new(),
            next_token: 0,
            rearms: 0,
            observations: 0,
            guest_writes_unobservable: false,
            guest_write_startup_window: false,
            guest_write_deferred: false,
            enabled: true,
            scopes,
            scope: Some(scope),
            held: HashMap::new(),
            other_rail: Vec::new(),
            notes: Vec::new(),
            fills: HashMap::new(),
        }
    }

    fn bind(&self, reference: u32, page: u64, size: u64, offset: u64) -> Bind {
        Bind { reference, page, size, offset, index: 0 }
    }

    fn write_gpa(&mut self, gpa: u64, bytes: &[u8]) {
        let at = (gpa % self.page) as usize;
        let page = self.memory.get_mut(&(gpa - gpa % self.page)).unwrap();
        page[at..at + bytes.len()].copy_from_slice(bytes);
    }

    fn guest_wrote_page(&mut self, gpa: u64) {
        *self.guest_writes.entry(gpa - gpa % self.page).or_default() += 1;
        self.guest_write_startup_window = false;
    }

    fn note_pages(&mut self, page: u64) {
        *self.host_writes.entry(page).or_default() += 1;
    }

    fn reference(&self) -> SnapshotScopeRef {
        self.scope.as_ref().unwrap().reference()
    }

    fn next_scope(&mut self) {
        let scope = self.scope.take().unwrap();
        self.scopes.close(scope);
        self.scope = Some(self.scopes.open());
    }

    fn walk(&self, span: BufferReadSpan) -> Vec<Option<u64>> {
        let first = span.gva >> self.shift;
        let last = (span.gva + span.len as u64 - 1) >> self.shift;
        let mut pages = Vec::new();
        for page in first..=last {
            match self.table[page as usize] {
                0 => {
                    pages.push(None);
                    break;
                }
                pfn => pages.push(Some(pfn * self.page)),
            }
        }
        pages
    }

    fn watch(&mut self, span: BufferReadSpan, pages: Vec<u64>) -> GatherOutcome {
        self.observations += 1;
        let rearm = self
            .watches
            .get(&span.gva)
            .is_none_or(|watch| watch.pages != pages || watch.len != span.len);
        if rearm {
            self.next_token += 1;
            self.rearms += 1;
        }
        let observable = !self.guest_writes_unobservable && !self.guest_write_startup_window;
        let generation = if observable {
            pages
                .iter()
                .map(|p| {
                    self.guest_writes.get(p).unwrap_or(&0) + self.host_writes.get(p).unwrap_or(&0)
                })
                .sum()
        } else {
            (1 << 40) + self.observations
        };
        let vouched = !rearm && observable && self.watches[&span.gva].generation == generation;
        let token = if rearm { self.next_token } else { self.watches[&span.gva].token };
        self.watches.insert(span.gva, Watch { pages, len: span.len, token, generation });
        GatherOutcome {
            vouched,
            cpu_read_settled: true,
            identity: GatheredIdentity { token, generation },
            audit_bytes: 0,
        }
    }

    fn observe(&mut self, span: BufferReadSpan, scope: u64, reference: u32) -> Seen {
        let walk = self.walk(span);
        let witness = if walk.iter().all(Option::is_some) {
            Ok(self.watch(span, walk.iter().flatten().copied().collect()))
        } else {
            Err(MemError::Unmapped)
        };
        let declared = *self.declared.get(&reference).unwrap_or(&0);
        observe(span, scope, declared, &walk, true, witness)
    }

    fn read(&self, span: BufferReadSpan) -> Vec<u8> {
        (0..span.len as u64)
            .map(|n| {
                let gva = span.gva + n;
                let pfn = self.table[(gva >> self.shift) as usize];
                self.memory[&(pfn * self.page)][(gva % self.page) as usize]
            })
            .collect()
    }

    fn span(&self, bind: &Bind, proof: Option<Proof>) -> BufferReadSpan {
        let base = bind.page * self.page;
        BufferReadSpan {
            task: 1,
            backing: BufferBacking { gva: base, size: bind.size },
            page_shift: self.shift,
            gva: base + bind.offset,
            offset: bind.offset,
            len: proof
                .and_then(|p| p.bytes)
                .unwrap_or((bind.size - bind.offset) as usize),
        }
    }

    fn fill_with(
        &mut self,
        bind: &Bind,
        class: Class,
        proof: Option<Proof>,
        scope: Option<SnapshotScopeRef>,
        fill: impl FnOnce(&mut Fixture, Vec<u8>) -> Option<Vec<u8>>,
    ) -> Option<Filled> {
        let span = self.span(bind, proof);
        let mut held = self.held.remove(&bind.reference).unwrap_or_else(RetainedBuffer::new);
        let mut notes = Vec::new();
        let scope_id = scope.and_then(|s| s.current(&self.scopes));
        let origin = Origin { class, slot: bind.index };
        let (mut session, mut action) = FillSession::begin(
            &held,
            span,
            origin,
            scope_id,
            Eligibility {
                read_only: proof.is_some_and(|p| p.read_only),
                enabled: self.enabled,
                observations_current: !self.guest_write_deferred,
                buffer_resource: true,
                owned: !self.other_rail.contains(&bind.reference),
            },
            &mut notes,
        );
        let mut fill = Some(fill);
        let mut image: Option<Arc<Image>> = None;
        let mut offset = bind.offset as usize;
        let result = loop {
            action = match action {
                FillAction::Observe { span, .. } => {
                    let seen = self.observe(span, scope_id.unwrap(), bind.reference);
                    let now = scope.and_then(|s| s.current(&self.scopes));
                    if matches!(session.phase, Phase::Observing { .. }) {
                        session.observed(&mut held, seen, now, true, &mut notes)
                    } else {
                        session.settled(seen, now, &mut notes)
                    }
                }
                FillAction::Bind { delta } => {
                    let candidate = held.latest.as_ref().unwrap();
                    offset = candidate.key.span.offset as usize + delta;
                    image = Some(candidate.image.clone());
                    break true;
                }
                FillAction::Capture { retired } => {
                    drop(retired);
                    let entry = self.fills.entry(class as u32).or_default();
                    entry.0 += 1;
                    entry.1 += span.len as u64;
                    let bytes = self.read(span);
                    let filled = (fill.take().unwrap())(self, bytes);
                    let complete = filled.as_ref().is_some_and(|b| b.len() == span.len);
                    if let Some(filled) = filled.filter(|b| b.len() == span.len) {
                        let mut bytes = vec![0; bind.size as usize];
                        bytes[offset..offset + filled.len()].copy_from_slice(&filled);
                        image = Some(Arc::new(Image { bytes }));
                    }
                    session.captured(complete)
                }
                FillAction::Retain { retention } => {
                    held.retain(retention, image.clone().unwrap(), origin);
                    break true;
                }
                FillAction::Deliver => break true,
                FillAction::Fail => break false,
            };
        };
        self.held.insert(bind.reference, held);
        self.notes.extend(notes);
        if result {
            Some(Filled { image: image.unwrap(), offset, captured: span.len })
        } else {
            None
        }
    }

    fn staged(&mut self, bind: &Bind, class: Class, proof: Option<Proof>) -> Filled {
        let scope = Some(self.reference());
        self.fill_with(bind, class, proof, scope, |_, bytes| Some(bytes)).unwrap()
    }

    fn prepare(&mut self, bind: &Bind, proof: Option<Proof>) -> Filled {
        self.staged(bind, Class::Fragment, proof)
    }

    fn retained(&self, bind: &Bind) -> bool {
        self.held.get(&bind.reference).is_some_and(|held| held.latest.is_some())
    }

    fn direct_fills(&self, class: Class) -> u64 {
        self.fills.get(&(class as u32)).map_or(0, |f| f.0)
    }

    fn direct_fill_bytes(&self, class: Class) -> u64 {
        self.fills.get(&(class as u32)).map_or(0, |f| f.1)
    }

    fn count(&self, route: SnapshotRoute) -> u64 {
        self.notes.iter().filter(|n| n.route == route).map(|n| n.amount).sum()
    }
}

#[test]
fn readonly_snapshot_scope_change_or_expiry_requires_fresh_bytes_without_a_harvest() {
    let mut f = Fixture::new(PAGE_SHIFT_ARM64E);
    let bind = f.bind(7, 1, 64, 4);
    let proof = object(16);
    let old_scope = f.reference();
    let original = f.prepare(&bind, proof);
    let before = f.direct_fills(Class::Fragment);
    f.next_scope();
    f.write_gpa(8 * f.page + 4, &[0x42; 16]);
    assert_eq!(captured(&f.prepare(&bind, proof)), [0x42; 16]);
    assert_eq!(old_scope.current(&f.scopes), None);
    // An expired request cannot resurrect its previous scope or use the
    // resource's newer candidate, even when every write witness is quiet.
    f.write_gpa(8 * f.page + 4, &[0x53; 16]);
    let expired = f
        .fill_with(&bind, Class::Fragment, proof, Some(old_scope), |_, bytes| Some(bytes))
        .unwrap();
    assert_eq!(captured(&expired), [0x53; 16]);
    assert_eq!(captured(&original), [0x11; 16]);
    assert_eq!(f.direct_fills(Class::Fragment) - before, 2);
}

#[test]
fn readonly_snapshot_unscoped_native_calls_always_read_guest_bytes() {
    let mut f = Fixture::new(PAGE_SHIFT_ARM64E);
    let bind = f.bind(7, 1, 64, 4);
    for value in [0x42, 0x53] {
        f.write_gpa(8 * f.page + 4, &[value; 16]);
        let input = f
            .fill_with(&bind, Class::Fragment, object(16), None, |_, bytes| Some(bytes))
            .unwrap();
        assert_eq!(captured(&input), [value; 16]);
    }
    assert_eq!(f.direct_fills(Class::Fragment), 2);
    assert!(!f.retained(&bind));
    assert_eq!(f.count(SnapshotRoute::Unscoped), 2);
}

#[test]
fn readonly_snapshot_consumes_explicit_buffer_invalidations_even_before_harvest() {
    let mut f = Fixture::new(PAGE_SHIFT_ARM64E);
    let bind = f.bind(7, 1, 64, 4);
    let proof = object(16);
    let original = f.prepare(&bind, proof);
    let before = f.direct_fills(Class::Fragment);
    f.write_gpa(8 * f.page + 4, &[0x64; 16]);
    f.declared.insert(7, 1);
    assert_eq!(captured(&f.prepare(&bind, proof)), [0x64; 16]);
    assert_eq!(captured(&original), [0x11; 16]);
    assert_eq!(f.direct_fills(Class::Fragment) - before, 1);
    assert_eq!(f.count(SnapshotRoute::DeclaredWriteChanged), 1);
}

#[test]
fn readonly_snapshot_scope_ending_during_capture_cannot_retain_a_candidate() {
    let mut f = Fixture::new(PAGE_SHIFT_ARM64E);
    let bind = f.bind(7, 1, 64, 4);
    let owner = f.scopes.open();
    let scope = owner.reference();
    let result = f
        .fill_with(&bind, Class::Fragment, object(16), Some(scope), |f, bytes| {
            f.scopes.close(owner);
            Some(bytes)
        })
        .unwrap();
    assert_eq!(scope.current(&f.scopes), None);
    assert!(!f.retained(&bind));
    assert_eq!(captured(&result), [0x11; 16]);
    assert_eq!(f.count(SnapshotRoute::PostScopeExpired), 1);
}

#[test]
fn input_snapshot_operator_policy_only_narrows_and_reports_unknown_values() {
    assert!(permitted(Switch::Unset, SWITCH_NAME, None).0);
    assert!(permitted(Switch::On, SWITCH_NAME, Some("on")).0);
    assert!(!permitted(Switch::Off, SWITCH_NAME, Some("off")).0);
    let (allowed, report) = permitted(Switch::Unrecognized, SWITCH_NAME, Some("invalid-fixture"));
    assert!(!allowed);
    let report = report.unwrap();
    assert!(
        report.reason.contains("metal_input_snapshot_switch_unrecognized")
            && report.value.contains("invalid-fixture")
            && report.name.contains(SWITCH_NAME)
    );
    assert!(permitted(Switch::Off, SWITCH_NAME, None).1.is_none());
    assert_eq!(permitted(Switch::Unrecognized, SWITCH_NAME, None).1.unwrap().value, "");
}

#[test]
fn input_snapshot_operator_disabled_retains_fresh_private_native_captures() {
    let mut f = Fixture::new(PAGE_SHIFT_ARM64E);
    f.enabled = false;
    let bind = f.bind(7, 1, 64, 4);
    assert_eq!(captured(&f.prepare(&bind, object(16))), [0x11; 16]);
    f.write_gpa(8 * f.page + 4, &[0x76; 16]);
    assert_eq!(captured(&f.prepare(&bind, object(16))), [0x76; 16]);
    assert_eq!(f.direct_fills(Class::Fragment), 2);
    assert!(!f.retained(&bind));
}

#[test]
fn deferred_guest_observations_capture_fresh_inputs_without_cache_validation() {
    let mut f = Fixture::new(PAGE_SHIFT_ARM64E);
    f.guest_write_deferred = true;
    let bind = f.bind(7, 1, 64, 4);
    for value in [0x35, 0x76, 0x91] {
        f.write_gpa(8 * f.page + 4, &[value; 16]);
        assert_eq!(captured(&f.prepare(&bind, object(16))), [value; 16]);
    }
    assert_eq!(f.direct_fills(Class::Fragment), 3);
    assert_eq!(f.observations, 0);
    assert!(!f.retained(&bind));
}

#[test]
fn readonly_snapshot_hits_avoid_full_captures_without_imports() {
    for shift in [PAGE_SHIFT_X86, PAGE_SHIFT_ARM64E] {
        let mut f = Fixture::new(shift);
        let mut bind = f.bind(7, 1, f.page * 2 + 20, 4);
        bind.index = 1;
        let proof = unbounded_readonly();
        let first = f.prepare(&bind, proof);
        let expected = captured(&first);
        let source_len = f.page * 2 + 16;
        assert_eq!(first.len() as u64, source_len);
        assert_eq!(first.captured as u64, source_len);
        assert!(f.retained(&bind));
        for _ in 0..63 {
            let input = f.prepare(&bind, proof);
            assert_eq!(input.len(), first.len());
            assert_eq!(input.offset, first.offset);
            assert_eq!(captured(&input), expected);
        }
        assert_eq!(f.direct_fills(Class::Fragment), 1);
        assert_eq!(f.direct_fill_bytes(Class::Fragment), source_len);
        assert_eq!(f.count(SnapshotRoute::Hits), 63);
        assert_eq!(f.count(SnapshotRoute::CaptureBytesAvoided), 63 * source_len);
    }
}

#[test]
fn readonly_snapshot_refreshes_guest_and_host_writes_but_not_disjoint_writes() {
    let mut f = Fixture::new(PAGE_SHIFT_ARM64E);
    let bind = f.bind(7, 1, 64, 4);
    let proof = object(16);
    let original = f.prepare(&bind, proof);
    let gpa = 8 * f.page + 4;
    let before = f.direct_fills(Class::Fragment);
    f.guest_wrote_page(13 * f.page);
    f.note_pages(21 * f.page);
    assert_eq!(captured(&f.prepare(&bind, proof)), [0x11; 16]);
    assert_eq!(f.direct_fills(Class::Fragment), before);
    f.write_gpa(gpa, &[0x42; 16]);
    f.guest_wrote_page(gpa);
    assert_eq!(captured(&f.prepare(&bind, proof)), [0x42; 16]);
    f.write_gpa(gpa, &[0x53; 16]);
    f.note_pages(8 * f.page);
    assert_eq!(captured(&f.prepare(&bind, proof)), [0x53; 16]);
    assert_eq!(f.direct_fills(Class::Fragment) - before, 2);
    assert_eq!(
        captured(&original),
        [0x11; 16],
        "earlier private leases are immutable"
    );
}

#[test]
fn readonly_snapshot_rewalks_interior_pte_without_mapping_generation() {
    let mut f = Fixture::new(PAGE_SHIFT_ARM64E);
    let mut bind = f.bind(7, 1, f.page * 3, 0);
    bind.index = 1;
    let proof = unbounded_readonly();
    let original = f.prepare(&bind, proof);
    let before = f.direct_fills(Class::Fragment);
    f.table[2] = 21;
    let changed = f.prepare(&bind, proof);
    let bytes = captured(&changed);
    assert!(bytes[..f.page as usize].iter().all(|&b| b == 0x11));
    assert!(bytes[f.page as usize..].iter().all(|&b| b == 0x33));
    assert_eq!(captured(&original)[f.page as usize], 0x22);
    assert_eq!(f.direct_fills(Class::Fragment) - before, 1);
}

#[test]
fn readonly_snapshot_keys_source_size_offset_and_captured_coverage_exactly() {
    let mut f = Fixture::new(PAGE_SHIFT_ARM64E);
    let mut bind = f.bind(7, 1, 64, 4);
    let wide = object(16);
    let narrow = object(4);
    let first = f.prepare(&bind, wide);
    let before = f.direct_fills(Class::Fragment);
    let short = f.prepare(&bind, narrow);
    assert_eq!(short.captured, 4);
    assert_eq!(short.image.bytes, first.image.bytes);
    bind.offset = 8;
    let moved = f.prepare(&bind, wide);
    assert_eq!(moved.len(), 56);
    assert_eq!(moved.captured, 16);
    assert_eq!(captured(&moved), [0x11; 16]);
    f.held.remove(&7);
    let replacement = f.bind(7, 2, 80, 8);
    let new = f.prepare(&replacement, wide);
    assert_eq!(new.len(), 72);
    assert_eq!(captured(&new), [0x22; 16]);
    assert_eq!(captured(&first), [0x11; 16]);
    assert_eq!(f.direct_fills(Class::Fragment) - before, 2);
}

#[test]
fn readonly_snapshot_unknown_writable_and_unobservable_inputs_always_capture() {
    let mut f = Fixture::new(PAGE_SHIFT_ARM64E);
    let bind = f.bind(7, 1, 64, 4);
    let readonly = object(4);
    let first = f.prepare(&bind, readonly);
    let before = f.direct_fills(Class::Fragment);
    for proof in [None, Some(Proof { read_only: false, bytes: Some(4) })] {
        let input = f.prepare(&bind, proof);
        assert_eq!(captured(&input)[0], 0x11);
        assert!(
            !Arc::ptr_eq(&input.image, &first.image),
            "mutable/unknown native use cannot share"
        );
    }
    assert_eq!(f.direct_fills(Class::Fragment) - before, 2);
    // A fresh host with no guest-write observation must never retain.
    let mut f = Fixture::new(PAGE_SHIFT_ARM64E);
    f.guest_writes_unobservable = true;
    let bind = f.bind(7, 1, 64, 4);
    for _ in 0..3 {
        f.prepare(&bind, readonly);
    }
    assert!(!f.retained(&bind));
    assert_eq!(f.direct_fills(Class::Fragment), 3);
}

#[test]
fn readonly_snapshot_partial_failures_and_mid_capture_changes_do_not_retain() {
    for kind in 0..4 {
        let mut f = Fixture::new(PAGE_SHIFT_ARM64E);
        let bind = f.bind(7, 1, 64, 4);
        let access = object(16);
        f.prepare(&bind, access);
        f.guest_wrote_page(8 * f.page);
        let page = f.page;
        let scope = Some(f.reference());
        let result = f.fill_with(&bind, Class::Fragment, access, scope, |f, bytes| {
            match kind {
                0 => return Some(bytes[..3].to_vec()),
                1 => {
                    f.write_gpa(8 * page + 4, &[0x77; 16]);
                    f.guest_wrote_page(8 * page);
                }
                2 => {
                    f.write_gpa(8 * page + 4, &[0x77; 16]);
                    f.note_pages(8 * page);
                }
                _ => f.table[1] = 13,
            }
            Some(bytes)
        });
        assert!(
            !f.retained(&bind),
            "partial fill or changed proof cannot be cached"
        );
        if kind == 0 {
            assert!(result.is_none());
        } else {
            assert!(result.is_some());
        }
        let before = f.direct_fills(Class::Fragment);
        let next = f.prepare(&bind, access);
        assert_eq!(f.direct_fills(Class::Fragment) - before, 1);
        assert_eq!(
            captured(&next),
            [match kind {
                0 => 0x11,
                3 => 0x22,
                _ => 0x77,
            }; 16]
        );
    }
}

#[test]
fn readonly_snapshot_waits_for_guest_tracking_startup_and_preserves_other_rail_state() {
    let mut f = Fixture::new(PAGE_SHIFT_ARM64E);
    f.guest_write_startup_window = true;
    let bind = f.bind(7, 1, 64, 4);
    let proof = object(16);
    for _ in 0..3 {
        f.prepare(&bind, proof);
        assert!(!f.retained(&bind));
    }
    f.guest_wrote_page(8 * f.page);
    f.prepare(&bind, proof);
    assert!(
        f.retained(&bind),
        "a readable generation must permit recovery"
    );
    let before = f.direct_fills(Class::Fragment);
    f.prepare(&bind, proof);
    assert_eq!(f.direct_fills(Class::Fragment), before);

    let bind = f.bind(9, 2, 64, 4);
    f.other_rail.push(9);
    for _ in 0..2 {
        f.prepare(&bind, proof);
    }
    assert!(!f.retained(&bind));
    assert_eq!(f.direct_fills(Class::Fragment) - before, 2);
}

#[test]
fn readonly_snapshot_resource_retirement_drops_candidate_not_existing_lease() {
    let mut f = Fixture::new(PAGE_SHIFT_ARM64E);
    let bind = f.bind(7, 1, 64, 4);
    let input = f.prepare(&bind, object(16));
    let weak = Arc::downgrade(&f.held[&7].latest.as_ref().unwrap().image);
    f.held.remove(&7);
    drop(bind);
    assert!(
        weak.upgrade().is_some(),
        "the native lease outlives the resource"
    );
    assert_eq!(captured(&input), [0x11; 16]);
    drop(input);
    assert!(
        weak.upgrade().is_none(),
        "no process-wide native snapshot cache"
    );
}

#[test]
fn contained_snapshot_alternating_vertex_fragment_extents_avoids_actual_captures() {
    let mut f = Fixture::new(PAGE_SHIFT_ARM64E);
    let bind = f.bind(7, 1, 64, 4);
    for index in 0..64 {
        let (class, access, len) = if index % 2 == 0 {
            (Class::Vertex, object(16), 16)
        } else {
            (Class::Fragment, object(4), 4)
        };
        let input = f.staged(&bind, class, access);
        assert_eq!(input.len(), 60);
        assert_eq!(input.captured, len);
        assert_eq!(captured(&input), vec![0x11; len]);
    }
    assert_eq!(f.direct_fill_bytes(Class::Vertex), 16);
    assert_eq!(f.direct_fill_bytes(Class::Fragment), 0);
    assert_eq!(f.count(SnapshotRoute::CaptureBytesAvoided), 624);
    assert_eq!(f.rearms, 1);
}

#[test]
fn contained_snapshot_increasing_offsets_avoid_full_suffix_copies() {
    let mut f = Fixture::new(PAGE_SHIFT_ARM64E);
    let size = f.page * 2 + 128;
    let mut bind = f.bind(7, 1, size, 0);
    bind.index = 1;
    let proof = unbounded_readonly();
    let expected: u64 = (1..70).map(|i| size - i * 4).sum();
    for index in 0..70 {
        bind.offset = index * 4;
        let input = f.prepare(&bind, proof);
        assert_eq!(input.offset as u64, bind.offset);
        assert_eq!(input.len() as u64, size - bind.offset);
        assert_eq!(input.captured, input.len());
        let bytes = captured(&input);
        assert_eq!(bytes[0], 0x11);
        assert_eq!(bytes.last(), Some(&0x33));
    }
    assert_eq!(f.direct_fill_bytes(Class::Fragment), size);
    assert_eq!(f.count(SnapshotRoute::CaptureBytesAvoided), expected);
    assert_eq!(f.rearms, 1);
    let guest_avoided = f.count(SnapshotRoute::GuestBytesAvoided);
    let audit = f.count(SnapshotRoute::HitAuditBytes);
    let extra = f.count(SnapshotRoute::ExtraAuditBytes);
    assert_eq!(
        guest_avoided as i128 - extra as i128,
        expected as i128 - audit as i128
    );
}

#[test]
fn contained_snapshot_metadata_plan_preserves_tracker_startup_without_inventing_bytes() {
    let mut f = Fixture::new(PAGE_SHIFT_ARM64E);
    f.guest_write_startup_window = true;
    let bind = f.bind(7, 1, 64, 4);
    let wide = object(16);
    let narrow = object(4);
    for proof in [wide, narrow, wide, narrow] {
        f.prepare(&bind, proof);
        assert!(!f.retained(&bind));
    }
    assert_eq!(f.rearms, 1);
    assert_eq!(f.count(SnapshotRoute::MetadataPlanUnvouched), 2);
    f.guest_wrote_page(8 * f.page);
    f.prepare(&bind, narrow);
    assert!(
        !f.retained(&bind),
        "a narrow fresh capture never claims the wider plan's bytes"
    );
    f.prepare(&bind, wide);
    assert!(f.retained(&bind));
    let before = f.direct_fill_bytes(Class::Fragment);
    f.prepare(&bind, narrow);
    assert_eq!(f.direct_fill_bytes(Class::Fragment), before);
    assert_eq!(f.rearms, 1);
}

#[test]
fn contained_snapshot_revalidates_writes_and_ptes_outside_the_requested_subrange() {
    for rewire in [false, true] {
        let mut f = Fixture::new(PAGE_SHIFT_ARM64E);
        let mut bind = f.bind(7, 1, f.page * 2 + 128, 0);
        bind.index = 1;
        let proof = unbounded_readonly();
        let original = f.prepare(&bind, proof);
        bind.offset = f.page * 2;
        if rewire {
            f.table[2] = 21;
        } else {
            f.write_gpa(8 * f.page, &[0x72; 4]);
            f.note_pages(8 * f.page);
        }
        let before = f.direct_fill_bytes(Class::Fragment);
        let next = f.prepare(&bind, proof);
        assert_eq!(captured(&next), [0x33; 128]);
        assert_eq!(f.direct_fill_bytes(Class::Fragment) - before, 128);
        assert!(
            !f.retained(&bind),
            "no full-range stable bytes were captured after revocation"
        );
        assert_eq!(captured(&original)[0], 0x11);
    }
}

#[test]
fn contained_snapshot_invalid_outer_pages_do_not_block_a_valid_narrow_capture() {
    let mut f = Fixture::new(PAGE_SHIFT_ARM64E);
    let mut bind = f.bind(7, 1, f.page * 2 + 128, 0);
    bind.index = 1;
    let proof = unbounded_readonly();
    f.prepare(&bind, proof);
    f.table[2] = 0;
    bind.offset = f.page * 2;
    let before = f.direct_fill_bytes(Class::Fragment);
    assert_eq!(captured(&f.prepare(&bind, proof)), [0x33; 128]);
    assert!(f.retained(&bind));
    assert_eq!(captured(&f.prepare(&bind, proof)), [0x33; 128]);
    assert_eq!(f.direct_fill_bytes(Class::Fragment) - before, 128);
    assert_eq!(f.count(SnapshotRoute::WitnessPlanRefused), 1);
}

#[test]
fn snapshot_diagnostics_identify_alternating_stage_offsets_without_reusing_displaced_storage() {
    let mut f = Fixture::new(PAGE_SHIFT_ARM64E);
    let vertex = f.bind(7, 1, 64, 4);
    let fragment = Bind { offset: 24, ..vertex.clone() };
    f.write_gpa(8 * f.page + 24, &[0x22; 16]);
    let first = f.staged(&vertex, Class::Vertex, object(16));
    assert_eq!(captured(&first), [0x11; 16]);
    let old_native = Arc::downgrade(&f.held[&7].latest.as_ref().unwrap().image);
    drop(first);
    assert_eq!(
        captured(&f.staged(&fragment, Class::Fragment, object(16))),
        [0x22; 16]
    );
    assert!(
        old_native.upgrade().is_none(),
        "diagnostic metadata must not hold native storage"
    );
    let before = f.direct_fills(Class::Vertex);
    assert_eq!(
        captured(&f.staged(&vertex, Class::Vertex, object(16))),
        [0x11; 16]
    );
    assert_eq!(f.count(SnapshotRoute::CandidateStageChanged), 2);
    assert_eq!(f.count(SnapshotRoute::MissOffset), 2);
    assert_eq!(f.count(SnapshotRoute::DisplacedVouched), 1);
    assert_eq!(f.count(SnapshotRoute::DisplacedVouchedBytes), 16);
    assert_eq!(f.count(SnapshotRoute::Hits), 0);
    assert_eq!(f.direct_fills(Class::Vertex) - before, 1);
}

#[test]
fn snapshot_diagnostics_distinguish_unvouched_capture_from_page_or_layout_mutation() {
    let mut f = Fixture::new(PAGE_SHIFT_ARM64E);
    f.guest_writes_unobservable = true;
    let bind = f.bind(7, 1, 64, 4);
    assert_eq!(captured(&f.prepare(&bind, object(16))), [0x11; 16]);
    assert!(!f.retained(&bind));
    assert_eq!(f.count(SnapshotRoute::PostUnvouched), 1);
    assert_eq!(f.count(SnapshotRoute::PostIdentityChanged), 1);
    assert_eq!(f.count(SnapshotRoute::PostKeyChanged), 0);
}

#[test]
fn snapshot_diagnostics_repeated_displaced_key_still_requires_current_write_proof() {
    let mut f = Fixture::new(PAGE_SHIFT_ARM64E);
    let first = f.bind(7, 1, 64, 4);
    let second = Bind { offset: 24, ..first.clone() };
    let proof = object(16);
    f.prepare(&first, proof);
    f.prepare(&second, proof);
    let exact = f.count(SnapshotRoute::DisplacedExact);
    let vouched = f.count(SnapshotRoute::DisplacedVouched);
    f.write_gpa(8 * f.page + 4, &[0x43; 16]);
    f.guest_wrote_page(8 * f.page);
    assert_eq!(captured(&f.prepare(&first, proof)), [0x43; 16]);
    assert_eq!(f.count(SnapshotRoute::DisplacedExact) - exact, 1);
    assert_eq!(f.count(SnapshotRoute::DisplacedVouched), vouched);
}

#[test]
fn snapshot_contained_same_gva_extents_preserve_the_original_witness() {
    let mut f = Fixture::new(PAGE_SHIFT_ARM64E);
    let bind = f.bind(7, 1, 64, 4);
    for proof in [object(16), object(4), object(16)] {
        f.prepare(&bind, proof);
        assert!(f.retained(&bind));
    }
    assert_eq!(f.count(SnapshotRoute::Retained), 1);
    assert_eq!(f.count(SnapshotRoute::MissCaptureLength), 0);
    assert_eq!(f.count(SnapshotRoute::DisplacedExact), 0);
    assert_eq!(f.count(SnapshotRoute::DisplacedVouched), 0);
    assert_eq!(f.rearms, 1);
    assert_eq!(f.count(SnapshotRoute::Hits), 2);
}

#[test]
fn snapshot_diagnostics_separate_exact_metadata_from_changed_write_proof() {
    let mut f = Fixture::new(PAGE_SHIFT_ARM64E);
    let bind = f.bind(7, 1, 64, 4);
    let proof = object(16);
    f.prepare(&bind, proof);
    let unvouched = f.count(SnapshotRoute::LookupUnvouched);
    f.write_gpa(8 * f.page + 4, &[0x42; 16]);
    f.note_pages(8 * f.page);
    assert_eq!(captured(&f.prepare(&bind, proof)), [0x42; 16]);
    assert_eq!(f.count(SnapshotRoute::MetadataExact), 1);
    assert_eq!(f.count(SnapshotRoute::MissIdentity), 1);
    assert_eq!(f.count(SnapshotRoute::LookupUnvouched) - unvouched, 1);
    assert_eq!(f.count(SnapshotRoute::Hits), 0);
}

#[test]
fn snapshot_contained_binding_keeps_original_physical_initialization() {
    let mut f = Fixture::new(PAGE_SHIFT_ARM64E);
    let mut wide = f.bind(7, 1, 64, 0);
    wide.index = 1;
    f.prepare(&wide, object(32));
    let narrow = Bind { offset: 16, ..wide.clone() };
    let input = f.prepare(&narrow, object(4));
    assert_eq!(input.len(), 48);
    assert_eq!(input.captured, 4);
    let offset = input.offset;
    let bytes = &input.image.bytes;
    assert_eq!(&bytes[..32], &[0x11; 32]);
    assert_eq!(&bytes[offset..offset + 4], &[0x11; 4]);
    assert!(bytes[32..].iter().all(|&b| b == 0));
    assert_eq!(f.count(SnapshotRoute::ContainedHits), 1);
    assert_eq!(f.count(SnapshotRoute::Hits), 1);
}

#[test]
fn a_range_is_contained_by_offset_and_by_address() {
    let span = |offset: u64, len: usize| BufferReadSpan {
        task: 1,
        backing: BufferBacking { gva: 0x4000, size: 64 },
        page_shift: 14,
        gva: 0x4000 + offset,
        offset,
        len,
    };
    assert_eq!(contained_offset(span(4, 16), span(8, 12)), Some(4));
    assert_eq!(contained_offset(span(4, 16), span(8, 13)), None);
    assert_eq!(contained_offset(span(4, 16), span(0, 4)), None);
    assert_eq!(
        contained_offset(span(4, 16), BufferReadSpan { gva: 1, ..span(8, 4) }),
        None
    );
    assert_eq!(
        contained_offset(span(4, 16), BufferReadSpan { task: 2, ..span(8, 4) }),
        None
    );
    assert_eq!(contained_offset(span(4, 16), span(4, 16)), Some(0));
    // Containment composes, and the offsets add up.
    assert_eq!(contained_offset(span(0, 32), span(8, 12)), Some(8));
}

#[test]
fn an_observation_needs_every_page_of_its_range() {
    let span = BufferReadSpan {
        task: 1,
        backing: BufferBacking { gva: 0x1000, size: 0x3000 },
        page_shift: 12,
        gva: 0x1ff0,
        offset: 0xff0,
        len: 0x20,
    };
    let seen = GatherOutcome {
        vouched: false,
        cpu_read_settled: true,
        identity: GatheredIdentity { token: 1, generation: 1 },
        audit_bytes: 0,
    };
    assert_eq!(page_count(span), Ok(2));
    let (key, _) = observe(span, 9, 3, &vec![Some(0x8000), Some(0x9000)], true, Ok(seen))
        .ok()
        .unwrap();
    assert_eq!((key.scope, key.declared_write), (9, 3));
    assert_eq!(key.pages, vec![0x8000, 0x9000]);
    for (walk, task_known, witness, want) in [
        (vec![Some(0x8000)], true, Ok(seen), MemError::Unmapped),
        (vec![Some(0x8000), None], true, Ok(seen), MemError::Unmapped),
        (vec![Some(0x8000), Some(0x9000)], false, Ok(seen), MemError::NoSuchTask),
        (
            vec![Some(0x8000), Some(0x9000)],
            true,
            Err(MemError::BadArgs),
            MemError::BadArgs,
        ),
    ] {
        assert_eq!(observe(span, 9, 3, &walk, task_known, witness).err(), Some(want));
    }
    let wide = BufferReadSpan { page_shift: 64, ..span };
    assert_eq!(page_count(wide), Err(MemError::UnsupportedPageShift));
}

#[test]
fn a_capture_reports_conflicts_and_declined_observations() {
    let f = Fixture::new(PAGE_SHIFT_X86);
    let bind = f.bind(7, 1, f.page, 0);
    let requested = f.span(&bind, object(16));
    let wider = BufferReadSpan { len: 32, ..requested };
    let session = |owned: bool, phase: Phase| FillSession {
        requested,
        origin: Origin { class: Class::Fragment, slot: 0 },
        owned,
        phase,
    };
    let reason = MemError::Unmapped;
    let seen = || Ok::<_, MemError>(witnessed());
    let asked = |span: BufferReadSpan| Phase::Observing { span };
    assert!(session(true, asked(requested)).reports(&seen()).is_empty());
    assert_eq!(
        session(false, asked(requested)).reports(&seen()),
        vec![FillReport::StateConflict]
    );
    assert_eq!(
        session(true, asked(requested)).reports(&Err(reason)),
        vec![FillReport::Declined { reason }]
    );
    assert_eq!(
        session(false, asked(requested)).reports(&Err(reason)),
        vec![FillReport::StateConflict, FillReport::Declined { reason }]
    );
    // A wider range that cannot be observed is given up without a line.
    assert!(session(true, asked(wider)).reports(&Err(reason)).is_empty());
    assert_eq!(
        session(true, Phase::Settling { before: witnessed() }).reports(&Err(reason)),
        vec![FillReport::PostDeclined { reason }]
    );
    assert!(session(true, Phase::Settling { before: witnessed() }).reports(&seen()).is_empty());
    assert!(session(true, Phase::Filling { first: None }).reports(&Err(reason)).is_empty());
    assert_eq!(FillReport::StateConflict.class(), "metal_input_snapshot");
    assert_eq!(
        FillReport::StateConflict.slug(),
        Some("metal_input_snapshot_resource_state_conflict")
    );
    assert_eq!(FillReport::Declined { reason }.class(), "metal_input_snapshot");
    assert_eq!(FillReport::PostDeclined { reason }.class(), "metal_input_snapshot_post");
    assert_eq!(FillReport::PostDeclined { reason }.slug(), None);
}

fn witnessed() -> (Key, GatherOutcome) {
    let mut f = Fixture::new(PAGE_SHIFT_X86);
    let span = f.span(&f.bind(7, 1, f.page, 0), object(16));
    f.observe(span, 1, 7).ok().unwrap()
}
