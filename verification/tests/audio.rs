use photon_engine::audio::{choose_footstep, clamp_volume, FootstepChoice};

#[test]
fn volume_is_capped_at_100() {
    assert_eq!(clamp_volume(0), 0);
    assert_eq!(clamp_volume(75), 75);
    assert_eq!(clamp_volume(100), 100);
    assert_eq!(clamp_volume(250), 100);
}

#[test]
fn no_dirt_clips_plays_nothing() {
    assert_eq!(choose_footstep(5, 0, 3), (None, 5));
}

#[test]
fn every_third_step_is_metal() {
    let mut step = 0usize;
    let mut seen = Vec::new();
    for _ in 0..6 {
        let (c, next) = choose_footstep(step, 4, 2);
        seen.push(c.unwrap());
        step = next;
    }
    assert_eq!(step, 6);
    assert_eq!(
        seen,
        vec![
            FootstepChoice { metal: false, index: 0 },
            FootstepChoice { metal: false, index: 1 },
            FootstepChoice { metal: true, index: 0 },
            FootstepChoice { metal: false, index: 3 },
            FootstepChoice { metal: false, index: 0 },
            FootstepChoice { metal: false, index: 1 },
        ]
    );
}

#[test]
fn without_metal_clips_always_dirt() {
    assert_eq!(choose_footstep(2, 4, 0), (Some(FootstepChoice { metal: false, index: 2 }), 3));
    assert_eq!(choose_footstep(usize::MAX, 1, 0).1, 0);
}
