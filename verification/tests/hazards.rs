use reims_vgpu::hazards::{
    affected_targets, color_footprint, dependency_bytes, gva_pages, input_references,
    landing_targets, materialize_inputs, materialize_targets, may_overlap, texture_pages,
    texture_root, AttachmentState, ColorTarget, HazardStatus, Landed, MaterializedTarget, PageObject, PageSource,
    PassDependencies, RefusedAttachment,
};

const PAGE: u64 = 1 << 14;

fn target(texture_ref: u32) -> ColorTarget {
    ColorTarget {
        texture_ref,
        memoryless: false,
        mapping_id: 0,
        mapping: None,
        gva: 0,
        row_stride: 0,
        height: 0,
        walked: Vec::new(),
    }
}

#[test]
fn a_colour_is_read_through_its_mapping_or_else_its_rows() {
    let objects = vec![PageObject { reference: 37, source: PageSource::View { base: 30 } }];
    let surface = ColorTarget {
        mapping_id: 5,
        mapping: Some(vec![0x4000]),
        gva: PAGE,
        row_stride: 16,
        height: 4,
        walked: vec![0x8000],
        ..target(37)
    };
    let mapped = color_footprint(&objects, surface, PAGE);
    assert_eq!((mapped.root, mapped.pages), (37, Some(vec![0x4000])));
    let linear = ColorTarget {
        mapping: Some(vec![0x4000]),
        gva: PAGE,
        row_stride: 16,
        height: 4,
        walked: vec![0x8000],
        ..target(37)
    };
    assert_eq!(color_footprint(&objects, linear, PAGE).pages, Some(vec![0x8000]));
    let local = ColorTarget { memoryless: true, mapping_id: 5, ..target(37) };
    let local = color_footprint(&objects, local, PAGE);
    assert_eq!((local.root, local.pages), (30, Some(vec![])));
}

#[test]
fn a_guest_backed_view_aliases_itself_by_its_pages() {
    let objects = vec![
        PageObject { reference: 37, source: PageSource::View { base: 30 } },
        PageObject {
            reference: 30,
            source: PageSource::Mapping { pages: Some(vec![0x4000]) },
        },
    ];
    for (pages, aliases) in [(0x4000, vec![0]), (0x8000, vec![])] {
        let view = ColorTarget { mapping_id: 5, mapping: Some(vec![pages]), ..target(37) };
        let mut dependencies = PassDependencies::new();
        dependencies.prepare(vec![color_footprint(&objects, view, PAGE)]);
        dependencies.input(&objects, 37, PAGE);
        assert_eq!(dependencies.aliases(&vec![true], 37), (aliases, false));
    }
}

#[test]
fn physical_aliases_and_unknown_footprints_require_materialization() {
    let a = Some(vec![0x4000, 0x8000]);
    let alias = Some(vec![0x8000]);
    let disjoint = Some(vec![0xc000]);
    assert!(may_overlap(&a, &alias));
    assert!(!may_overlap(&a, &disjoint));
    assert!(may_overlap(&a, &None));
    assert!(may_overlap(&None, &disjoint));
}

#[test]
fn distinct_buffer_objects_and_virtual_addresses_can_alias_an_attachment() {
    // Virtual page 2 and the attachment's page 1 deliberately name one physical
    // page, the fifth; virtual page 3 names the seventh.
    let objects: Vec<PageObject> = [(8u32, 2u64, 5u64), (9, 3, 7)]
        .into_iter()
        .map(|(reference, page, physical)| PageObject {
            reference,
            source: PageSource::Linear {
                gva: page * PAGE,
                span: 64,
                walked: vec![physical * PAGE],
            },
        })
        .collect();
    let mut dependencies = PassDependencies::new();
    assert!(!dependencies.is_prepared());
    dependencies.prepare(vec![color_footprint(
        &objects,
        ColorTarget {
            gva: PAGE,
            row_stride: 16,
            height: 4,
            walked: vec![5 * PAGE],
            ..target(37)
        },
        PAGE,
    )]);
    assert!(dependencies.is_prepared());
    let mut aliases = |reference: u32| {
        dependencies.input(&objects, reference, PAGE);
        dependencies.aliases(&vec![true], reference)
    };
    assert_eq!(aliases(8), (vec![0], false));
    assert!(aliases(9).0.is_empty());
    assert_eq!(
        aliases(10),
        (vec![0], true),
        "an unresolved object must not become evidence of disjointness"
    );
}

#[test]
fn a_walk_that_misses_a_page_or_leaves_the_address_space_is_unknown() {
    assert_eq!(gva_pages(5, 0, PAGE, vec![]), Some(vec![]));
    assert_eq!(gva_pages(0, PAGE, PAGE, vec![7]), Some(vec![7]));
    assert_eq!(gva_pages(1, PAGE, PAGE, vec![7]), None);
    assert_eq!(gva_pages(1, PAGE, PAGE, vec![7, 8]), Some(vec![7, 8]));
    assert_eq!(gva_pages(u64::MAX, 2, PAGE, vec![7]), None);
    assert_eq!(gva_pages(0, PAGE, PAGE, vec![]), None);
}

#[test]
fn views_and_buffer_textures_take_the_pages_they_really_read() {
    let objects = vec![
        PageObject { reference: 1, source: PageSource::View { base: 2 } },
        PageObject {
            reference: 2,
            source: PageSource::Mapping { pages: Some(vec![0x4000]) },
        },
        PageObject { reference: 3, source: PageSource::View { base: 1 } },
        PageObject {
            reference: 4,
            source: PageSource::BufferTexture {
                gva: PAGE,
                span: 2 * PAGE,
                offset: PAGE,
                walked: vec![0x8000],
            },
        },
        PageObject {
            reference: 5,
            source: PageSource::BufferTexture { gva: PAGE, span: 8, offset: 9, walked: vec![] },
        },
        PageObject {
            reference: 6,
            source: PageSource::BufferTexture {
                gva: u64::MAX,
                span: 8,
                offset: 1,
                walked: vec![],
            },
        },
    ];
    assert_eq!(texture_pages(&objects, 1, PAGE), Some(vec![0x4000]));
    assert_eq!(texture_pages(&objects, 3, PAGE), None);
    assert_eq!(texture_pages(&objects, 4, PAGE), Some(vec![0x8000]));
    assert_eq!(texture_pages(&objects, 5, PAGE), None);
    assert_eq!(texture_pages(&objects, 6, PAGE), None);
    assert_eq!(texture_pages(&objects, 7, PAGE), None);
}

#[test]
fn pass_local_attachments_alias_by_root_alone() {
    let objects = vec![
        PageObject { reference: 37, source: PageSource::View { base: 30 } },
        PageObject {
            reference: 30,
            source: PageSource::Mapping { pages: Some(vec![0x4000]) },
        },
    ];
    assert_eq!(texture_root(&objects, 37), 30);
    assert_eq!(texture_root(&objects, 30), 30);
    assert_eq!(texture_root(&objects, 99), 99);
    let mut dependencies = PassDependencies::new();
    dependencies.prepare(vec![
        color_footprint(&objects, ColorTarget { memoryless: true, ..target(37) }, PAGE),
        color_footprint(&objects, ColorTarget { mapping_id: 5, ..target(38) }, PAGE),
    ]);
    // A second preparation changes nothing.
    dependencies.prepare(vec![]);
    dependencies.input(&objects, 30, PAGE);
    assert_eq!(dependencies.aliases(&vec![false, true], 30), (vec![0, 1], false));
    dependencies.input(&objects, 31, PAGE);
    assert_eq!(dependencies.aliases(&vec![false, true], 31), (vec![1], true));
    assert!(dependencies.has_input(31));
    assert!(!dependencies.has_input(32));
    // An input is looked up once.
    let later = vec![PageObject { reference: 31, source: PageSource::View { base: 30 } }];
    dependencies.input(&later, 31, PAGE);
    assert_eq!(dependencies.aliases(&vec![false, true], 31).0, vec![1]);
    // A view of the base is the base.
    let view = vec![PageObject { reference: 32, source: PageSource::View { base: 30 } }];
    dependencies.input(&view, 32, PAGE);
    assert_eq!(dependencies.aliases(&vec![false, true], 32).0, vec![0, 1]);
}

#[test]
fn only_rendered_aliases_are_materialized_and_pass_local_ones_are_refused() {
    let state = |memoryless: bool, initialized: bool| AttachmentState { memoryless, initialized };
    assert_eq!(input_references(&vec![9, 0, 3, 9, 1]), vec![1, 3, 9]);
    let attachments = vec![state(false, true), state(false, false), state(true, true)];
    assert_eq!(
        affected_targets(&vec![vec![0, 1], vec![1]], &attachments),
        Ok(vec![true, false, false])
    );
    assert_eq!(
        affected_targets(&vec![vec![0], vec![2]], &attachments),
        Err(HazardStatus::MemorylessSampleAlias)
    );
    assert_eq!(
        HazardStatus::MemorylessSampleAlias.slug(),
        Some("draw_mtl_memoryless_sample_alias")
    );
    let plan = materialize_inputs(vec![1, 3], &vec![vec![0, 1], vec![1]], &attachments)
        .unwrap()
        .unwrap();
    assert_eq!(plan.targets, vec![0]);
    assert_eq!(plan.invalidate, vec![1, 3]);
    assert!(materialize_inputs(vec![1], &vec![vec![1]], &attachments).unwrap().is_none());
    assert!(matches!(
        materialize_inputs(vec![1], &vec![vec![2]], &attachments),
        Err(HazardStatus::MemorylessSampleAlias)
    ));
}

#[test]
fn materializing_stops_at_the_first_target_that_cannot_land() {
    let target = |texture_ref: u32, target_gva: u64| MaterializedTarget {
        texture_ref,
        target_gva,
        known: true,
        width: 4,
        height: 4,
        wrote: true,
    };
    let (done, result) = materialize_targets(true, &vec![target(1, 0), target(2, 0x4000)]);
    assert_eq!(result, Ok(()));
    assert_eq!(
        done,
        vec![
            Landed { texture_ref: 1, evict: None },
            Landed { texture_ref: 2, evict: Some(0x4000) },
        ]
    );
    let (done, result) = materialize_targets(false, &vec![target(1, 0)]);
    assert!(done.is_empty());
    assert_eq!(result, Err(HazardStatus::FlushRefused));
    for (broken, want, slug) in [
        (
            MaterializedTarget { known: false, ..target(2, 0) },
            HazardStatus::TargetMissing,
            None,
        ),
        (
            MaterializedTarget { width: u32::MAX, height: u32::MAX, ..target(2, 0) },
            HazardStatus::DependencyGeometry,
            Some("draw_mtl_dependency_geometry"),
        ),
        (
            MaterializedTarget { wrote: false, ..target(2, 0) },
            HazardStatus::DependencyWriteback,
            Some("draw_mtl_dependency_writeback"),
        ),
    ] {
        let (done, result) = materialize_targets(true, &vec![target(1, 0), broken, target(3, 0)]);
        assert_eq!(done.len(), 1);
        assert_eq!(result, Err(want));
        assert_eq!(want.slug(), slug);
    }
    assert_eq!(dependency_bytes(4, 4), Ok(64));
    let attachment = |guest_backed: bool, stores: bool, initialized: bool| RefusedAttachment {
        guest_backed,
        stores,
        initialized,
    };
    assert_eq!(
        landing_targets(&vec![
            attachment(true, true, true),
            attachment(false, true, true),
            attachment(true, false, true),
            attachment(true, true, false),
        ]),
        vec![true, false, false, false]
    );
}
