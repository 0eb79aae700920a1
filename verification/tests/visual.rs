use zmux::geometry::Rect;
use zmux::keys::NavDir;
use zmux::visual::{current_from_hits, neighbor_in_dir, VisualHit, VisualTarget};

fn hit(
    target: VisualTarget,
    x: u16,
    y: u16,
    w: u16,
    h: u16,
    active: bool,
) -> VisualHit {
    VisualHit {
        target,
        rect: Rect {
            x,
            y,
            width: w,
            height: h,
        },
        active,
    }
}

#[test]
fn current_from_hits_prefers_active_when_stored_is_missing() {
    let hits = vec![
        hit(VisualTarget::Local { pane_id: 1 }, 0, 0, 40, 10, false),
        hit(VisualTarget::Local { pane_id: 2 }, 41, 0, 40, 10, true),
    ];
    assert_eq!(
        current_from_hits(None, &hits),
        Some(VisualTarget::Local { pane_id: 2 })
    );
    assert_eq!(
        current_from_hits(Some(&VisualTarget::Local { pane_id: 1 }), &hits),
        Some(VisualTarget::Local { pane_id: 1 })
    );
    assert_eq!(
        current_from_hits(Some(&VisualTarget::Local { pane_id: 9 }), &hits),
        Some(VisualTarget::Local { pane_id: 2 })
    );
}

#[test]
fn neighbor_in_dir_reaches_non_overlapping_pane() {
    let hits = vec![
        hit(VisualTarget::Local { pane_id: 1 }, 0, 0, 20, 10, true),
        hit(VisualTarget::Local { pane_id: 2 }, 30, 12, 20, 10, false),
    ];
    let from = VisualTarget::Local { pane_id: 1 };
    assert_eq!(
        neighbor_in_dir(&hits, &from, NavDir::Down),
        Some(VisualTarget::Local { pane_id: 2 })
    );
    assert_eq!(
        neighbor_in_dir(
            &hits,
            &VisualTarget::Local { pane_id: 2 },
            NavDir::Up
        ),
        Some(VisualTarget::Local { pane_id: 1 })
    );
}
