use omegaquad::render::RenderTargetStack;
use omegaquad::color::{hexcolor, Color};
use omegaquad::profile::{PersistentData, PersistentStorage};
use omegaquad::schedule::{
    draw_due, on_handoff, update_dt_us, DrawStep, FrameInfo, Handoff, SyncSchedule, Tick,
};

#[test]
fn hexcolor_splits_channels() {
    assert_eq!(hexcolor(0x12345678), Color { r: 0x12, g: 0x34, b: 0x56, a: 0x78 });
}

#[test]
fn storage_falls_back_to_a_fresh_record() {
    let s = PersistentStorage::get(None);
    assert_eq!(s.data(), PersistentData::new());
    assert_eq!(s.data().open_count, 0);
}

#[test]
fn storage_counts_openings() {
    let mut s = PersistentStorage::get(Some(PersistentData { open_count: 41 }));
    s.record_open();
    assert_eq!(s.close().open_count, 42);
}

#[test]
fn open_count_saturates() {
    let mut s = PersistentStorage::get(Some(PersistentData { open_count: u64::MAX }));
    s.record_open();
    assert_eq!(s.data().open_count, u64::MAX);
}

#[test]
fn sync_schedule_draws_after_each_hundred_updates() {
    let mut s = SyncSchedule::new();
    for _ in 0..3 {
        for _ in 0..100 {
            assert_eq!(s.next(), Tick::Update);
        }
        assert_eq!(s.next(), Tick::Draw);
    }
}

#[test]
fn pipeline_hands_off_every_hundredth_tick() {
    assert!(draw_due(0));
    assert!(!draw_due(1));
    assert!(!draw_due(99));
    assert!(draw_due(100));
    assert!(draw_due(300));
}

#[test]
fn handoff_decisions() {
    assert_eq!(on_handoff(Handoff::Ready), DrawStep::Draw);
    assert_eq!(on_handoff(Handoff::Empty), DrawStep::WaitThenDraw);
    assert_eq!(on_handoff(Handoff::Disconnected), DrawStep::Abort);
}

#[test]
fn frame_info_counts_frames() {
    let f = FrameInfo::new(update_dt_us());
    assert_eq!(f.dt_us, 333);
    let g = f.next(16_000);
    assert_eq!(g, FrameInfo { dt_us: 16_000, frames_ran: 1 });
    let h = FrameInfo { dt_us: 0, frames_ran: u64::MAX }.next(1);
    assert_eq!(h.frames_ran, u64::MAX);
}

#[test]
fn render_targets_nest() {
    let mut t: RenderTargetStack<&str, u32> = RenderTargetStack::new("screen", Some(0));
    assert_eq!(t.depth(), 1);
    t.push("canvas", Some(7));
    t.push("overlay", None);
    assert_eq!(t.active().0, "overlay");
    assert_eq!(t.pop(), None);
    assert_eq!(t.active().0, "canvas");
    assert_eq!(t.pop(), Some(7));
    assert_eq!(t.depth(), 1);
    assert_eq!(t.drawn_texture(), Some(0));
}
