use skyview_geometry::subdivision::{ArcView, LonLat, Subdivision, MAX_TURN_UAS};

fn view(s: bool, m: bool, e: bool, turn: u64, l1: u64, l2: u64) -> ArcView {
    ArcView { start_visible: s, mid_visible: m, end_visible: e, turn, first_len2: l1, second_len2: l2 }
}

fn p(lon: i64, lat: i64) -> LonLat {
    LonLat { lon, lat }
}

#[test]
fn smooth_arc_without_forced_levels_gives_two_chords() {
    let mut s = Subdivision::new(p(0, 0), p(0, 50), p(0, 100), 0, 0);
    s.examine(view(true, true, true, 0, 1, 1));
    assert!(s.is_done());
    assert_eq!(s.segments().len(), 2);
    assert_eq!(s.segments()[0].from, p(0, 0));
    assert_eq!(s.segments()[0].to, p(0, 50));
    assert_eq!(s.segments()[1].to, p(0, 100));
}

#[test]
fn forced_levels_split_before_drawing() {
    let mut s = Subdivision::new(p(0, 0), p(0, 400), p(0, 800), 7, 2);
    let mut steps = 0;
    while !s.is_done() {
        s.examine(view(true, true, true, 0, 1, 1));
        steps += 1;
    }
    // Two forced levels: four arcs, each drawn as two chords.
    assert_eq!(steps, 1 + 2 + 4);
    let segs = s.segments();
    assert_eq!(segs.len(), 8);
    for k in 0..segs.len() - 1 {
        assert_eq!(segs[k].to, segs[k + 1].from);
    }
    assert_eq!(segs[0].from, p(0, 0));
    assert_eq!(segs[7].to, p(0, 800));
    assert_eq!(segs[0].to, p(0, 100));
}

#[test]
fn chord_count_bounded_by_budget() {
    for depth in 0..6usize {
        let mut s = Subdivision::new(p(0, 0), p(1000, 0), p(2000, 0), depth, 0);
        while let Some(a) = s.next_arc() {
            // Curved everywhere but at the last level, where it looks smooth.
            let turn = if a.depth == 0 { 0 } else { MAX_TURN_UAS };
            s.examine(view(true, true, true, turn, 4, 4));
        }
        assert_eq!(s.segments().len(), 1 << (depth + 1));
        for k in 0..s.segments().len() - 1 {
            assert_eq!(s.segments()[k].to, s.segments()[k + 1].from);
        }
    }
}

#[test]
fn nothing_visible_gives_nothing() {
    let mut s = Subdivision::new(p(0, 0), p(0, 50), p(0, 100), 7, 2);
    s.examine(view(false, false, false, 0, 0, 0));
    assert!(s.is_done());
    assert!(s.segments().is_empty());
}

#[test]
fn only_start_visible_follows_first_half() {
    let mut s = Subdivision::new(p(0, 0), p(0, 400), p(0, 800), 3, 0);
    s.examine(view(true, false, false, 0, 0, 0));
    let a = s.next_arc().unwrap();
    assert_eq!((a.start, a.mid, a.end, a.depth), (p(0, 0), p(0, 200), p(0, 400), 2));
    s.examine(view(true, true, true, 0, 1, 1));
    assert!(s.is_done());
    assert_eq!(s.segments().len(), 2);
}

#[test]
fn only_end_visible_follows_second_half() {
    let mut s = Subdivision::new(p(0, 0), p(0, 400), p(0, 800), 3, 0);
    s.examine(view(false, false, true, 0, 0, 0));
    let a = s.next_arc().unwrap();
    assert_eq!((a.start, a.mid, a.end), (p(0, 400), p(0, 600), p(0, 800)));
}

#[test]
fn only_mid_visible_follows_both_halves() {
    let mut s = Subdivision::new(p(0, 0), p(0, 400), p(0, 800), 3, 0);
    s.examine(view(false, true, false, 0, 0, 0));
    let a = s.next_arc().unwrap();
    assert_eq!(a.end, p(0, 400));
    s.examine(view(false, false, false, 0, 0, 0));
    let b = s.next_arc().unwrap();
    assert_eq!(b.start, p(0, 400));
}

#[test]
fn exhausted_budget_drops_only_a_near_zero_chord() {
    // First chord under a tenth of the second: the second is kept.
    let mut s = Subdivision::new(p(0, 0), p(0, 1), p(0, 100), 0, 0);
    s.examine(view(true, true, true, MAX_TURN_UAS, 1, 10_000));
    assert_eq!(s.segments().len(), 1);
    assert_eq!(s.segments()[0].from, p(0, 1));
    assert_eq!(s.segments()[0].to, p(0, 100));

    // Second chord under a tenth of the first: the first is kept.
    let mut s = Subdivision::new(p(0, 0), p(0, 99), p(0, 100), 0, 0);
    s.examine(view(true, true, true, MAX_TURN_UAS, 10_000, 1));
    assert_eq!(s.segments().len(), 1);
    assert_eq!(s.segments()[0].from, p(0, 0));
    assert_eq!(s.segments()[0].to, p(0, 99));

    // Neither is that short: both chords are the best approximation left.
    let mut s = Subdivision::new(p(0, 0), p(0, 50), p(0, 100), 0, 0);
    s.examine(view(true, true, true, MAX_TURN_UAS, 10, 100));
    assert_eq!(s.segments().len(), 2);
    assert_eq!(s.segments()[0].to, s.segments()[1].from);
}

#[test]
fn curved_half_still_reaches_the_end() {
    let mut s = Subdivision::new(p(0, 0), p(0, 400), p(0, 800), 1, 0);
    // The whole arc turns too much; its first half is smooth, its second is not.
    s.examine(view(true, true, true, MAX_TURN_UAS, 4, 4));
    s.examine(view(true, true, true, 0, 4, 4));
    s.examine(view(true, true, true, MAX_TURN_UAS, 4, 4));
    assert!(s.is_done());
    let segs = s.segments();
    assert_eq!(segs.len(), 4);
    for k in 0..segs.len() - 1 {
        assert_eq!(segs[k].to, segs[k + 1].from);
    }
    assert_eq!(segs[3].to, p(0, 800));
}

#[test]
fn examinations_bounded_by_budget() {
    for depth in 0..6usize {
        let mut s = Subdivision::new(p(0, 0), p(0, 4000), p(0, 8000), depth, 0);
        let mut steps = 0;
        while !s.is_done() {
            s.examine(view(true, true, true, MAX_TURN_UAS, 4, 4));
            steps += 1;
        }
        assert_eq!(steps, (1 << (depth + 1)) - 1);
    }
}

#[test]
fn midpoints_round_down() {
    let mut s = Subdivision::new(p(-3, 0), p(0, 0), p(3, 0), 1, 1);
    s.examine(view(true, true, true, 0, 1, 1));
    let a = s.next_arc().unwrap();
    assert_eq!(a.mid, p(-2, 0));
    assert_eq!(a.min_level, 0);
}
