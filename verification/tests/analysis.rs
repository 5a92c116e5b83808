use lx_audiolabs::level::Level;
use lx_audiolabs::lucent::Lucent;
use lx_audiolabs::lucent_classic;
use lx_audiolabs::lucent_panel::{folder_is_set, shows_masking, spectrum_curves, TickAccum};
use lx_audiolabs::masking::{bare_sources, collect_above, find_loudest_pair, find_spread, persist, MaskingAnalyzer};
use lx_audiolabs::max_hold::{max_hold_named, max_hold_score, rank_named, NamedHold, ScoreHold};
use lx_audiolabs::rank::order_desc;
use lx_audiolabs::registry::{
    publish_masking, publish_resonance, read_masking, read_resonance, remove_masking, remove_resonance, MaskingRegistry,
    ResonanceLists, ResonanceRegistry,
};
use lx_audiolabs::resonance::{
    attribute_contributors, find_candidates, is_harmonic, rank_peaks, suppress_harmonics, width, window_around, Candidate,
    PeakShape, PeakTracker, SensitivityThresholds, Spectrum,
};
use lx_audiolabs::scope::{goniometer_dots, FrameBuffer, Scope};

fn f(x: f32) -> Level {
    Level::from_bits(x.to_bits())
}

fn x(l: Level) -> f32 {
    f32::from_bits(l.bits)
}

fn blend(p: Level, s: Level) -> Level {
    f(x(p) * (5.0 / 6.0) + x(s) * (1.0 / 6.0))
}

fn thresholds() -> SensitivityThresholds {
    SensitivityThresholds {
        contrast_min_db: f(5.0),
        flatness_max: f(0.7),
        floor_db: f(-75.0),
        score_min: f(2.0),
        persistence_min: 3,
        masking_floor_db: f(-70.0),
        min_q: f(4.0),
    }
}

fn quiet(peaks: &[(usize, f32)]) -> Vec<Level> {
    let mut v = vec![f(-90.0); 1024];
    for (k, db) in peaks {
        v[*k] = f(*db);
    }
    v
}

fn spectrum(peaks: &[(usize, f32)]) -> Spectrum {
    let shape = PeakShape { contrast: f(30.0), flatness: f(0.1), edge: f(-60.0) };
    Spectrum { levels: quiet(peaks), shapes: vec![shape; 1024], ceilings: quiet(peaks) }
}

fn named(list: &[(&str, Vec<Level>)]) -> Vec<(String, Vec<Level>)> {
    list.iter().map(|(n, v)| (n.to_string(), v.clone())).collect()
}

#[test]
fn only_common_levels_collide() {
    let own = quiet(&[(10, -20.0)]);
    let relays = vec![quiet(&[(10, -30.0), (20, -40.0)]), quiet(&[(10, -25.0)])];
    let s = bare_sources(Some(&own), &relays, f(-70.0), 10);
    let (pair, level) = find_loudest_pair(&s);
    assert_eq!(pair, Some((0, 2)));
    assert_eq!(level, f(-25.0));
    let lone = bare_sources(Some(&own), &relays, f(-70.0), 20);
    assert_eq!(find_loudest_pair(&lone), (None, f(-90.0)));
}

#[test]
fn a_collision_spreads_to_its_neighbours() {
    let mut levels = vec![f(-90.0); 16];
    levels[8] = f(-10.0);
    assert_eq!(find_spread(&levels, 6, 2), Some(8));
    assert_eq!(find_spread(&levels, 5, 2).map(|k| levels[k]).unwrap_or(f(-90.0)), f(-90.0));
}

#[test]
fn persistence_counts_up_by_one_and_is_capped() {
    assert_eq!(persist(0, true), 1);
    assert_eq!(persist(40, true), 40);
    assert_eq!(persist(0, false), 0);
    assert!(persist(9, false) < 9);
}

#[test]
fn collisions_show_once_they_have_lasted() {
    let mut m = MaskingAnalyzer::new();
    let own = quiet(&[(100, -20.0)]);
    let relays = named(&[("Bass", quiet(&[(100, -30.0)]))]);
    let half = vec![0usize; 1024];
    for _ in 0..3 {
        m.compute_masking(Some(&own), &relays, f(-70.0), &half, 3);
        assert_eq!(m.masking_map[100], f(-90.0));
    }
    m.compute_masking(Some(&own), &relays, f(-70.0), &half, 3);
    assert_eq!(m.masking_map[100], f(-30.0));
    let top = m.top_peaks(3, f(-70.0));
    assert!(!top.is_empty());
    assert!(top.iter().any(|(bin, level, _)| *bin == 100 && *level == f(-30.0)));
    assert!(top[0].2.contains(&"Bass".to_string()));
}

#[test]
fn a_source_alone_never_collides() {
    let mut m = MaskingAnalyzer::new();
    let half = vec![2usize; 1024];
    for _ in 0..50 {
        m.compute_masking(Some(&quiet(&[(5, 0.0)])), &vec![], f(-70.0), &half, 1);
    }
    assert!(m.masking_map.iter().all(|l| *l == f(-90.0)));
    assert!(m.top_peaks(3, f(-70.0)).is_empty());
}

#[test]
fn bins_over_a_floor_are_collected_in_order() {
    assert_eq!(collect_above(&vec![f(-80.0), f(-60.0), f(-70.0), f(-5.0)], f(-70.0)), vec![(1, f(-60.0)), (3, f(-5.0))]);
}

#[test]
fn levels_are_ordered_from_the_loudest() {
    assert_eq!(order_desc(&vec![f(1.0), f(3.0), f(2.0), f(3.0)]), vec![1, 3, 2, 0]);
    assert_eq!(rank_peaks(&vec![(4, f(1.0)), (9, f(3.0)), (2, f(2.0))], 2), vec![(9, f(3.0)), (2, f(2.0))]);
}

#[test]
fn windows_stay_inside() {
    assert_eq!(window_around(0, 3, 10), (0, 3));
    assert_eq!(window_around(9, 3, 10), (6, 9));
}

#[test]
fn narrow_peaks_are_candidates() {
    let s = spectrum(&[(50, -20.0), (51, -50.0), (200, -80.0)]);
    let c = find_candidates(&s.levels, &s.shapes, &thresholds());
    assert_eq!(c.len(), 1);
    assert_eq!((c[0].bin, c[0].lo_edge, c[0].hi_edge), (50, 50, 51));
    assert_eq!(width(&c[0]), 1);
}

#[test]
fn resonances_need_to_last() {
    let mut tracker = PeakTracker::new();
    let quality = |c: &Candidate| f(c.bin as f32 / width(c) as f32);
    let envelope = |score: Level, prominence: Level, _n: u32| f(x(score) * 0.5 + x(prominence) * 0.5);
    let s = spectrum(&[(300, -20.0)]);
    let t = thresholds();
    for _ in 0..3 {
        assert!(tracker.track(&s, &t, &quality, &envelope).is_empty());
    }
    let found = tracker.track(&s, &t, &quality, &envelope);
    assert_eq!(found.len(), 1);
    assert_eq!(found[0].0, 300);
    for _ in 0..60 {
        tracker.track(&spectrum(&[]), &t, &quality, &envelope);
    }
    assert!(tracker.resonance_peaks(&t).is_empty());
}

#[test]
fn overtones_of_a_louder_peak_are_dropped() {
    assert!(is_harmonic(100, 200));
    assert!(is_harmonic(100, 301));
    assert!(!is_harmonic(100, 250));
    let levels = quiet(&[(100, -20.0), (200, -30.0), (250, -30.0)]);
    let peaks = vec![(100, f(9.0)), (200, f(8.0)), (250, f(7.0))];
    let kept = suppress_harmonics(&levels, &levels, &peaks);
    assert_eq!(kept, vec![(100, f(9.0)), (250, f(7.0))]);
    assert_eq!(suppress_harmonics(&levels, &levels, &kept), kept);
}

#[test]
fn contributors_are_the_audible_relays() {
    let relays = named(&[("A", quiet(&[(7, -60.0)])), ("B", quiet(&[(7, -71.0)])), ("C", vec![])]);
    let r = attribute_contributors(&vec![(7, f(5.0))], &relays);
    assert_eq!(r, vec![(7, f(5.0), vec!["A".to_string()])]);
}

#[test]
fn instances_do_not_see_each_other() {
    let mut reg = ResonanceRegistry::new();
    publish_resonance(&mut reg, 1, ResonanceLists { own: vec![(5, f(3.0))], relay: vec![] });
    publish_resonance(&mut reg, 2, ResonanceLists { own: vec![], relay: vec![(6, f(1.0), vec!["X".to_string()])] });
    assert_eq!(read_resonance(&reg, 1).own, vec![(5, f(3.0))]);
    assert_eq!(read_resonance(&reg, 2).relay.len(), 1);
    remove_resonance(&mut reg, 1);
    assert!(read_resonance(&reg, 1).own.is_empty());
    assert_eq!(read_resonance(&reg, 2).relay[0].0, 6);

    let mut masking = MaskingRegistry::new();
    publish_masking(&mut masking, 9, vec![(1, f(-3.0), vec![])]);
    assert_eq!(read_masking(&masking, 9).len(), 1);
    assert!(read_masking(&masking, 8).is_empty());
    remove_masking(&mut masking, 9);
    assert!(read_masking(&masking, 9).is_empty());
}

#[test]
fn the_loudest_findings_are_held() {
    let mut scores = ScoreHold::new();
    max_hold_score(&mut scores, 4, f(2.0));
    max_hold_score(&mut scores, 4, f(1.0));
    max_hold_score(&mut scores, 9, f(3.0));
    assert_eq!(scores.ranked_entries(5), vec![(9, f(3.0)), (4, f(2.0))]);
    let mut held = NamedHold::new();
    max_hold_named(&mut held, 4, f(-20.0), &vec!["A".to_string()]);
    max_hold_named(&mut held, 4, f(-10.0), &vec!["B".to_string()]);
    max_hold_named(&mut held, 4, f(-30.0), &vec!["C".to_string()]);
    assert_eq!(held.ranked_entries(5), vec![(4, f(-10.0), vec!["B".to_string()])]);
    let ranked = rank_named(&vec![(1, f(-9.0), vec![]), (2, f(-3.0), vec![]), (3, f(-6.0), vec![])], 2);
    assert_eq!(ranked.iter().map(|p| p.0).collect::<Vec<_>>(), vec![2, 3]);
}

#[test]
fn a_frame_of_lucent_is_published() {
    let mut lucent = Lucent::new(42);
    let mut resonance = ResonanceRegistry::new();
    let mut masking = MaskingRegistry::new();
    let quality = |c: &Candidate| f(c.bin as f32 / width(c) as f32);
    let envelope = |score: Level, prominence: Level, _n: u32| f(x(score) * 0.5 + x(prominence) * 0.5);
    let own = spectrum(&[(300, -20.0)]);
    let sum = spectrum(&[]);
    let relays = named(&[("Bass", quiet(&[(300, -25.0)]))]);
    let half = vec![0usize; 1024];
    for _ in 0..4 {
        let view = lucent.analyze_frame(1, &own, &sum, &relays, &thresholds(), &half, &quality, &envelope, &mut resonance, &mut masking);
        assert!(view.shows_own);
    }
    assert_eq!(read_resonance(&resonance, 42).own[0].0, 300);
    assert!(read_masking(&masking, 42).iter().any(|p| p.0 == 300));
    let view = lucent.analyze_frame(2, &own, &sum, &relays, &thresholds(), &half, &quality, &envelope, &mut resonance, &mut masking);
    assert!(!view.shows_own);
}

#[test]
fn lucent_holds_its_peaks_and_its_slot() {
    let mut lucent = Lucent::new(1);
    assert_eq!(lucent.end_block(f(-12.0), f(-6.0)), f(-6.0));
    assert_eq!(lucent.end_block(f(-20.0), f(-30.0)), f(-20.0));
    assert_eq!((lucent.holds.value, lucent.holds.left, lucent.holds.right), (f(-6.0), f(-12.0), f(-6.0)));
    lucent.begin_block(true);
    assert_eq!(lucent.holds.value, f(-100.0));
    lucent.claim_slot(Some(2));
    assert_eq!(lucent.shm_slot, 2);
    assert_eq!(lucent.advertised_name(&"Shown".to_string()), "Shown");
    assert_eq!(lucent.release(), Some(2));
}

#[test]
fn the_classic_analysis_finds_prominent_peaks() {
    let mut levels = vec![f(-90.0); 1024];
    levels[40] = f(-20.0);
    let mut prominences = vec![f(0.0); 1024];
    prominences[40] = f(12.0);
    let peaks = lucent_classic::find_peaks(&levels, &prominences);
    assert_eq!(peaks, vec![(40, f(12.0))]);
    let mut m = lucent_classic::MaskingAnalyzer::new();
    m.compute_masking(Some(&levels), &vec![levels.clone()]);
    assert!(m.masking_map[40].gt(f(-90.0)));
    let mut a = lucent_classic::Analysis::new();
    let envelope = |score: Level, prominence: Level, _n: u32| f(x(score) * 0.5 + x(prominence) * 0.5);
    for _ in 0..4 {
        a.analyze_frame(0, &levels, &prominences, &vec![], &envelope);
    }
    assert_eq!(a.resonance_hub[0].0, 40);
}

#[test]
fn the_panel_holds_findings_for_half_a_second() {
    let mut acc = TickAccum::new(None, 1000);
    let lists = ResonanceLists { own: vec![(5, f(3.0))], relay: vec![] };
    acc.gather(&lists, &vec![(8, f(-20.0), vec!["A".to_string()])]);
    assert!(acc.refresh(1499).is_none());
    let shown = acc.refresh(1500).unwrap();
    assert_eq!(shown.own, vec![(5, f(3.0))]);
    assert_eq!(shown.masking[0].0, 8);
    assert!(acc.refresh(2000).unwrap().own.is_empty());
}

#[test]
fn switches_of_the_panel_survive_a_tick() {
    let mut acc = TickAccum::new(None, 0);
    let feeds = || vec![(1u8, "A".to_string(), vec![f(-40.0)]), (3u8, "B".to_string(), vec![f(-50.0)])];
    assert_eq!(acc.sync(1, None, &vec![], feeds(), blend), 0b1010);
    assert_eq!(acc.sync(1, Some(vec![f(-9.0)]), &vec![(1, false), (3, true)], feeds(), blend), 0b1000);
    assert_eq!(acc.ui.own_spectrum, vec![f(-9.0)]);
    assert_eq!(acc.sync(1, None, &vec![(1, false), (3, true)], feeds(), blend), 0b1000);
    assert_eq!(spectrum_curves(&acc.ui.own_spectrum, &acc.ui.relays, 1).len(), 2);
    assert_eq!(acc.sync(0, None, &vec![], feeds(), blend), 0);
    assert!(acc.ui.relays.is_empty());
    assert!(shows_masking(true, 1, 1));
    assert!(shows_masking(true, 0, 2));
    assert!(!shows_masking(true, 0, 1));
    assert!(!shows_masking(false, 1, 1));
    assert!(!folder_is_set(&Some(String::new())));
    assert!(folder_is_set(&Some("x".to_string())));
}

#[test]
fn the_scope_keeps_the_last_samples() {
    let mut scope = Scope::new(4);
    let frames: Vec<(Level, Level)> = (0..6).map(|i| (f(i as f32), f(0.0))).collect();
    scope.write_block(&frames);
    assert_eq!(scope.write_pos, 2);
    assert_eq!(scope.samples, vec![frames[4], frames[5], frames[2], frames[3]]);
    let dots = goniometer_dots(4, scope.write_pos, 2048);
    assert_eq!(dots.iter().map(|d| d.index).collect::<Vec<_>>(), vec![2, 3, 0, 1]);
    assert_eq!(dots.last().unwrap().shade, 2);
    assert!(goniometer_dots(0, 7, 2048).is_empty());
}

#[test]
fn a_frame_is_full_after_its_last_sample() {
    let mut frame = FrameBuffer::new(3);
    assert!(!frame.push(f(1.0)));
    assert_eq!(frame.fill(&vec![f(9.0), f(2.0), f(3.0), f(4.0)], 1), Some(3));
    assert_eq!(frame.input, vec![f(1.0), f(2.0), f(3.0)]);
    assert_eq!(frame.write_pos, 0);
    assert_eq!(frame.fill(&vec![f(4.0)], 0), None);
}

fn thresholds_at(sensitivity: f32) -> lx_audiolabs::resonance::SensitivityThresholds {
    lx_audiolabs::sensitivity::sensitivity_thresholds(
        f(sensitivity),
        |a: Level, b: Level, d: Level| f(x(a) + (x(b) - x(a)) * x(d)),
        |frames: Level| x(frames) as u32,
    )
}

#[test]
fn the_sensitivity_scales_all_thresholds() {
    let t = thresholds_at(0.5);
    assert_eq!(t.contrast_min_db, f(5.5));
    assert_eq!(t.floor_db, f(-75.0));
    assert_eq!(t.score_min, f(2.5));
    assert_eq!(t.persistence_min, 12);
    assert_eq!(t.masking_floor_db, f(-70.0));
    assert_eq!(t.min_q, f(4.0));
    let strict = thresholds_at(-1.0);
    assert_eq!((strict.contrast_min_db, strict.persistence_min), (f(8.0), 20));
    assert_eq!((strict.flatness_max, strict.min_q), (f(0.5), f(6.0)));
    let loose = thresholds_at(7.0);
    assert_eq!((loose.floor_db, loose.masking_floor_db), (f(-85.0), f(-85.0)));
    assert_eq!((loose.flatness_max, loose.persistence_min), (f(0.85), 4));
}

#[test]
fn a_collision_shows_once_it_has_held() {
    let mut m = lx_audiolabs::masking::MaskingAnalyzer::new();
    let own = vec![f(-20.0); 1024];
    let relays = vec![("Kick".to_string(), vec![f(-30.0); 1024])];
    let halves = vec![3usize; 1024];
    for k in 1..=8 {
        m.compute_masking(Some(&own), &relays, f(-60.0), &halves, 5);
        let shown = if k > 5 { f(-30.0) } else { f(-90.0) };
        assert!(m.masking_map.iter().all(|l| *l == shown));
    }
}

#[test]
fn a_higher_sensitivity_keeps_every_peak() {
    let tracker = lx_audiolabs::resonance::PeakTracker::new();
    let levels: Vec<Level> = (0..64)
        .map(|k| f(if k % 16 == 8 { -20.0 - k as f32 / 4.0 } else { -60.0 - k as f32 / 8.0 }))
        .collect();
    let shapes: Vec<_> = (0..64)
        .map(|k| lx_audiolabs::resonance::PeakShape {
            contrast: f(3.5 + (k / 16) as f32),
            flatness: f(0.4),
            edge: f(x(levels[k]) - 3.0),
        })
        .collect();
    let quality = |c: &lx_audiolabs::resonance::Candidate| f(c.bin as f32 / 4.0);
    let few = tracker.find_peaks(&levels, &shapes, &thresholds_at(0.5), &quality);
    let many = tracker.find_peaks(&levels, &shapes, &thresholds_at(1.0), &quality);
    assert_eq!(few.iter().map(|p| p.0).collect::<Vec<_>>(), vec![40, 56]);
    assert_eq!(many.iter().map(|p| p.0).collect::<Vec<_>>(), vec![8, 24, 40, 56]);
}
