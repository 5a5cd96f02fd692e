use petruterm_shell::frame_cache::FrameCache;

#[test]
fn unchanged_content_reuses_the_frame() {
    let mut c = FrameCache::new();
    assert_eq!(c.cached(1, 42), None);
    assert_eq!(c.store(1, 42, "frame-a"), None);
    assert_eq!(c.cached(1, 42), Some(&"frame-a"));
    assert_eq!(c.cached(1, 43), None);
    assert_eq!(c.cached(2, 42), None);
}

#[test]
fn a_new_frame_hands_back_the_one_it_replaces() {
    let mut c = FrameCache::new();
    c.store(1, 42, "frame-a");
    assert_eq!(c.store(1, 43, "frame-b"), Some("frame-a"));
    assert_eq!(c.cached(1, 43), Some(&"frame-b"));
    assert_eq!(c.evict(1), Some("frame-b"));
    assert_eq!(c.evict(1), None);
    assert_eq!(c.cached(1, 43), None);
}
