use ray_tracing_in_one_weekend_webgpu::cli::{parse, str_to_vec2};
use ray_tracing_in_one_weekend_webgpu::readback::{start, step, Action, Event, Stage};
use ray_tracing_in_one_weekend_webgpu::vector::UVec2;
use ray_tracing_in_one_weekend_webgpu::Error;

#[test]
fn readback_happy_path() {
    let (s, a) = start();
    assert_eq!((s, a), (Stage::Built, Action::Submit));
    let (s, a) = step(s, Event::Submitted);
    assert_eq!(a, Action::RequestMap);
    let (s, a) = step(s, Event::MapRequested);
    assert_eq!(a, Action::Poll);
    let (s, a) = step(s, Event::PollFinished { ok: true });
    assert_eq!(a, Action::AwaitMap);
    let (s, a) = step(s, Event::MapFinished { ok: true });
    assert_eq!((s, a), (Stage::Mapped, Action::Decode));
    let (s, a) = step(s, Event::Decoded { ok: true });
    assert_eq!((s, a), (Stage::Decoded, Action::Finish));
}

#[test]
fn readback_failures_are_distinct_and_final() {
    let s = Stage::MapRequested { polled: false };
    let (s1, a) = step(s, Event::PollFinished { ok: false });
    assert_eq!(a, Action::Fail { error: Error::PollTaskFailed });
    assert_eq!(step(s1, Event::PollFinished { ok: true }), (s1, Action::Ignore));
    let s = Stage::MapRequested { polled: true };
    let (s2, a) = step(s, Event::MapFinished { ok: false });
    assert_eq!(a, Action::Fail { error: Error::MapFailed });
    assert_eq!(s2, Stage::Failed { error: Error::MapFailed });
    let (_, a) = step(Stage::Mapped, Event::Decoded { ok: false });
    assert_eq!(a, Action::Fail { error: Error::LayoutMismatch });
}

#[test]
fn readback_never_reads_before_poll() {
    // a map completion before the wait for the submission is not acted on
    let s = Stage::MapRequested { polled: false };
    assert_eq!(step(s, Event::MapFinished { ok: true }), (s, Action::Ignore));
    assert_eq!(step(Stage::Built, Event::MapFinished { ok: true }), (Stage::Built, Action::Ignore));
}

#[test]
fn str_to_vec2_reads_pairs() {
    assert_eq!(str_to_vec2("64:64"), Some(UVec2::new(64, 64)));
    assert_eq!(str_to_vec2("1920:1080"), Some(UVec2::new(1920, 1080)));
    assert_eq!(str_to_vec2("+5:007"), Some(UVec2::new(5, 7)));
    assert_eq!(str_to_vec2("4294967295:0"), Some(UVec2::new(u32::MAX, 0)));
    assert_eq!(str_to_vec2("4294967296:1"), None);
    assert_eq!(str_to_vec2("5"), None);
    assert_eq!(str_to_vec2(":5"), None);
    assert_eq!(str_to_vec2("5:"), None);
    assert_eq!(str_to_vec2("a:b"), None);
    assert_eq!(str_to_vec2("-1:2"), None);
    assert_eq!(str_to_vec2("1:2:3"), None);
    assert_eq!(str_to_vec2(" 1:2"), None);
}

#[test]
fn parse_fills_defaults() {
    let a = parse(None, None, None, None, None, None);
    assert_eq!(a.chunk_size, "64:64");
    assert_eq!(a.output, "image.ppm");
    assert_eq!(a.samples_per_pixel, 500);
    assert_eq!(a.screen_size, "1920:1080");
    assert_eq!(a.view_box_position, None);
    assert_eq!(a.view_box_size, None);
    let a = parse(Some("32:16".to_string()), Some("out.ppm".to_string()), Some(10), None, Some("1:2".to_string()), None);
    assert_eq!(a.chunk_size, "32:16");
    assert_eq!(a.output, "out.ppm");
    assert_eq!(a.samples_per_pixel, 10);
    assert_eq!(a.view_box_position, Some("1:2".to_string()));
}

#[test]
fn settings_read_every_pair() {
    let s = parse(None, None, None, None, Some("3:4".to_string()), None).settings().unwrap();
    assert_eq!(s.chunk_size, UVec2::new(64, 64));
    assert_eq!(s.screen_size, UVec2::new(1920, 1080));
    assert_eq!(s.view_box_position, Some(UVec2::new(3, 4)));
    assert_eq!(s.view_box_size, None);
    assert!(parse(None, None, None, Some("1920x1080".to_string()), None, None).settings().is_none());
    assert!(parse(None, None, None, None, None, Some("1:".to_string())).settings().is_none());
}
