use hailux_tui::render_cache::RenderCache;

#[test]
fn lines_are_rendered_once_per_key() {
    let mut c: RenderCache<String> = RenderCache::new();
    let n = c.ensure_cached(7, 80, || vec!["a".to_string(), "b".to_string()]);
    assert_eq!(n, 2);
    let n = c.ensure_cached(7, 80, || panic!("rendered twice"));
    assert_eq!(n, 2);
    assert_eq!(c.line_count(7), Some(2));
    assert_eq!(c.line_count(8), None);
    assert_eq!(c.len(), 1);
}

#[test]
fn width_change_empties_cache() {
    let mut c: RenderCache<String> = RenderCache::new();
    c.ensure_cached(1, 80, || vec!["x".to_string()]);
    c.ensure_cached(2, 80, || vec!["y".to_string(), "z".to_string()]);
    assert_eq!(c.len(), 2);
    let n = c.ensure_cached(2, 60, || vec!["narrow".to_string()]);
    assert_eq!(n, 1);
    assert_eq!(c.len(), 1);
    assert_eq!(c.line_count(1), None);
    c.touch_width(60);
    assert_eq!(c.len(), 1);
    c.clear();
    assert_eq!(c.len(), 0);
}

#[test]
fn retain_keeps_only_active_keys() {
    let mut c: RenderCache<u8> = RenderCache::new();
    for k in 0..5u64 {
        c.ensure_cached(k, 40, || vec![1, 2, 3]);
    }
    c.retain_keys(&[1, 3, 3, 9]);
    assert_eq!(c.len(), 2);
    assert_eq!(c.line_count(1), Some(3));
    assert_eq!(c.line_count(3), Some(3));
    assert_eq!(c.line_count(0), None);
    assert_eq!(c.line_count(9), None);
}
