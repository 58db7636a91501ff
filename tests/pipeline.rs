use blackhole_web::bloom::{bloom_chain_length, MAX_BLOOM_ITER};
use blackhole_web::frame::{fragment_shader_name, frame_plan, vertex_shader_name, PassKind, PassStep};
use blackhole_web::targets::{target_layout, ResizeOutcome, TargetRole, TargetSet, TargetSpec};

fn spec(role: TargetRole, width: u32, height: u32) -> TargetSpec {
    TargetSpec { role, width, height }
}

#[test]
fn bloom_length_of_default_window() {
    assert_eq!(bloom_chain_length(1200, 800), 8);
}

#[test]
fn bloom_length_of_single_pixel() {
    assert_eq!(bloom_chain_length(1, 1), 0);
}

#[test]
fn bloom_length_small_sizes() {
    assert_eq!(bloom_chain_length(2, 2), 1);
    assert_eq!(bloom_chain_length(3, 2), 1);
    assert_eq!(bloom_chain_length(4, 4), 2);
    assert_eq!(bloom_chain_length(4, 1), 0);
    assert_eq!(bloom_chain_length(0, 100), 0);
}

#[test]
fn bloom_length_cap_boundary() {
    assert_eq!(bloom_chain_length(255, 255), 7);
    assert_eq!(bloom_chain_length(256, 256), 8);
    assert_eq!(bloom_chain_length(511, 1000), 8);
    assert_eq!(bloom_chain_length(u32::MAX, u32::MAX), MAX_BLOOM_ITER);
}

#[test]
fn bloom_length_is_largest_level_on_large_viewport() {
    for (w, h) in [(512u32, 512u32), (1920, 1080), (4096, 600)] {
        let largest = (0..64u32)
            .filter(|i| i + 1 < 32 && (w >> (i + 1)) >= 1 && (h >> (i + 1)) >= 1)
            .max()
            .unwrap();
        assert_eq!(bloom_chain_length(w, h), largest.min(8) as usize);
    }
}

#[test]
fn layout_of_four_by_four() {
    let l = target_layout(4, 4);
    let expected = vec![
        spec(TargetRole::Scene, 4, 4),
        spec(TargetRole::Brightness, 4, 4),
        spec(TargetRole::LensFlare, 4, 4),
        spec(TargetRole::Downsample(0), 2, 2),
        spec(TargetRole::Upsample(0), 4, 4),
        spec(TargetRole::Downsample(1), 1, 1),
        spec(TargetRole::Upsample(1), 2, 2),
        spec(TargetRole::Composite, 4, 4),
        spec(TargetRole::Tonemapped, 4, 4),
    ];
    assert_eq!(l, expected);
}

#[test]
fn layout_of_zero_size_is_empty() {
    assert!(target_layout(0, 600).is_empty());
    assert!(target_layout(800, 0).is_empty());
}

#[test]
fn layout_of_default_window_has_full_chain() {
    let l = target_layout(1200, 800);
    assert_eq!(l.len(), 5 + 2 * 8);
    assert_eq!(l[3 + 2 * 7], spec(TargetRole::Downsample(7), 1200 >> 8, 800 >> 8));
    assert_eq!(l[4 + 2 * 7], spec(TargetRole::Upsample(7), 1200 >> 7, 800 >> 7));
}

fn rebuild(set: &mut TargetSet<u32>, w: u32, h: u32, first: u32) -> (Vec<u32>, Vec<TargetSpec>) {
    match set.resize(w, h) {
        ResizeOutcome::Rebuild { released, create } => {
            let handles: Vec<u32> = (0..create.len() as u32).map(|i| first + i).collect();
            set.install(handles);
            (released, create)
        }
        ResizeOutcome::Unchanged => panic!("expected a rebuild"),
    }
}

#[test]
fn resize_same_size_is_noop() {
    let mut set: TargetSet<u32> = TargetSet::new();
    rebuild(&mut set, 8, 4, 100);
    let before: Vec<u32> = target_layout(8, 4)
        .iter()
        .map(|t| *set.handle(t.role).unwrap())
        .collect();
    assert!(matches!(set.resize(8, 4), ResizeOutcome::Unchanged));
    let after: Vec<u32> = target_layout(8, 4)
        .iter()
        .map(|t| *set.handle(t.role).unwrap())
        .collect();
    assert_eq!(before, after);
    assert_eq!(set.size(), (8, 4));
}

#[test]
fn resize_releases_all_old_targets() {
    let mut set: TargetSet<u32> = TargetSet::new();
    let (released, create) = rebuild(&mut set, 8, 8, 100);
    assert!(released.is_empty());
    assert_eq!(create, target_layout(8, 8));
    let (released, create) = rebuild(&mut set, 4, 2, 200);
    assert_eq!(released, (100..100 + target_layout(8, 8).len() as u32).collect::<Vec<u32>>());
    assert_eq!(create, target_layout(4, 2));
    assert_eq!(set.handle(TargetRole::Scene), Some(&200));
    assert_eq!(set.handle(TargetRole::Downsample(0)), Some(&203));
    assert_eq!(set.handle(TargetRole::Upsample(0)), Some(&204));
    assert_eq!(set.handle(TargetRole::Downsample(1)), None);
    assert_eq!(set.handle(TargetRole::Composite), Some(&205));
    assert_eq!(set.handle(TargetRole::Tonemapped), Some(&206));
}

#[test]
fn resize_to_zero_tears_down() {
    let mut set: TargetSet<u32> = TargetSet::new();
    rebuild(&mut set, 4, 4, 1);
    assert!(set.is_ready());
    let (released, create) = rebuild(&mut set, 0, 4, 50);
    assert_eq!(released.len(), 9);
    assert!(create.is_empty());
    assert!(!set.is_ready());
    assert_eq!(set.handle(TargetRole::Scene), None);
}

#[test]
fn handles_missing_before_install() {
    let mut set: TargetSet<u32> = TargetSet::new();
    assert!(!set.is_ready());
    assert_eq!(set.handle(TargetRole::Scene), None);
    assert!(matches!(set.resize(4, 4), ResizeOutcome::Rebuild { .. }));
    assert!(!set.is_ready());
    assert_eq!(set.handle(TargetRole::Tonemapped), None);
}

fn check(s: &PassStep, pass: PassKind, inputs: &[TargetRole], output: Option<TargetRole>, w: u32, h: u32) {
    assert_eq!(s.pass, pass);
    assert_eq!(s.inputs, inputs.to_vec());
    assert_eq!(s.output, output);
    assert_eq!((s.width, s.height), (w, h));
}

#[test]
fn frame_trace_with_two_levels() {
    let p = frame_plan(4, 4);
    assert_eq!(p.len(), 6 + 2 * 2);
    check(&p[0], PassKind::Main, &[], Some(TargetRole::Scene), 4, 4);
    check(&p[1], PassKind::Brightness, &[TargetRole::Scene], Some(TargetRole::Brightness), 4, 4);
    check(&p[2], PassKind::LensFlare, &[TargetRole::Brightness], Some(TargetRole::LensFlare), 4, 4);
    check(&p[3], PassKind::Downsample, &[TargetRole::Brightness], Some(TargetRole::Downsample(0)), 2, 2);
    check(&p[4], PassKind::Downsample, &[TargetRole::Downsample(0)], Some(TargetRole::Downsample(1)), 1, 1);
    check(&p[5], PassKind::Upsample, &[TargetRole::Downsample(1), TargetRole::Downsample(0)], Some(TargetRole::Upsample(1)), 2, 2);
    check(&p[6], PassKind::Upsample, &[TargetRole::Upsample(1), TargetRole::Brightness], Some(TargetRole::Upsample(0)), 4, 4);
    check(&p[7], PassKind::Composite, &[TargetRole::Scene, TargetRole::Upsample(0), TargetRole::LensFlare], Some(TargetRole::Composite), 4, 4);
    check(&p[8], PassKind::Tonemap, &[TargetRole::Composite], Some(TargetRole::Tonemapped), 4, 4);
    check(&p[9], PassKind::Passthrough, &[TargetRole::Tonemapped], None, 4, 4);
}

#[test]
fn frame_trace_without_bloom_levels() {
    let p = frame_plan(1, 1);
    assert_eq!(p.len(), 6);
    check(&p[3], PassKind::Composite, &[TargetRole::Scene, TargetRole::Scene, TargetRole::LensFlare], Some(TargetRole::Composite), 1, 1);
    check(&p[5], PassKind::Passthrough, &[TargetRole::Tonemapped], None, 1, 1);
}

#[test]
fn frame_trace_of_default_window() {
    let p = frame_plan(1200, 800);
    assert_eq!(p.len(), 6 + 2 * 8);
    assert!(p[..p.len() - 1].iter().all(|s| s.output.is_some()));
    assert_eq!(p.last().unwrap().output, None);
    let kinds: Vec<PassKind> = p.iter().map(|s| s.pass).collect();
    assert_eq!(kinds[3..11], [PassKind::Downsample; 8]);
    assert_eq!(kinds[11..19], [PassKind::Upsample; 8]);
}

#[test]
fn frame_inputs_are_written_earlier() {
    let p = frame_plan(640, 360);
    for (k, step) in p.iter().enumerate() {
        for input in &step.inputs {
            assert!(p[..k].iter().any(|s| s.output == Some(*input)));
        }
    }
}

#[test]
fn frame_of_zero_size_is_empty() {
    assert!(frame_plan(0, 0).is_empty());
    assert!(frame_plan(10, 0).is_empty());
}

#[test]
fn shader_file_names() {
    assert_eq!(vertex_shader_name(), "simple.vert");
    assert_eq!(fragment_shader_name(PassKind::Main), "blackhole_main.frag");
    assert_eq!(fragment_shader_name(PassKind::Brightness), "bloom_brightness_pass.frag");
    assert_eq!(fragment_shader_name(PassKind::Tonemap), "tonemapping.frag");
    assert_eq!(fragment_shader_name(PassKind::Passthrough), "passthrough.frag");
}
