use shaderunner::line_renderer::LineRenderer;

#[test]
fn lines_are_drawn_for_one_frame() {
    let mut lines: LineRenderer<[u8; 4]> = LineRenderer::new();
    lines.draw_line([0; 4], [1; 4]);
    lines.draw_line([2; 4], [3; 4]);
    assert_eq!(lines.vertices().len(), 4);
    let packed: Vec<u8> = lines.vertices().iter().flatten().copied().collect();
    assert_eq!(lines.update_buffer_and_clear(&packed), None);
    assert_eq!(lines.count(), 4);
    assert!(lines.vertices().is_empty());
    assert_eq!(lines.buffer().size(), 16);

    // no line drawn in the next frame: nothing is drawn
    assert_eq!(lines.update_buffer_and_clear(&[]), None);
    assert_eq!(lines.count(), 0);
    assert_eq!(lines.buffer().size(), 16);
}

#[test]
fn line_buffer_grows_for_long_frames() {
    let mut lines: LineRenderer<[u8; 4]> = LineRenderer::new();
    for i in 0..5u8 {
        lines.draw_line([i; 4], [i; 4]);
    }
    let packed: Vec<u8> = lines.vertices().iter().flatten().copied().collect();
    assert_eq!(packed.len(), 40);
    assert_eq!(lines.update_buffer_and_clear(&packed), Some(52));
    assert_eq!(lines.buffer().capacity(), 52);
    assert_eq!(lines.count(), 10);
}
