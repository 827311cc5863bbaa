use invoice_merge::placement::compute_placement;

#[test]
fn wide_image_spans_page_width() {
    let p = compute_placement(800, 600);
    assert_eq!(p.den, 800);
    assert_eq!(p.disp_w_num, 210 * 800); // exactly the page width
    assert_eq!(p.disp_h_num, 210 * 600); // 157.5 mm
    assert!(p.disp_h_num <= 297 * p.den);
    assert_eq!(p.off_x_num, 0);
    assert_eq!(p.off_y_num, 297 * 800 - 210 * 600); // 69.75 mm on each side
    // scale = 210mm / (800px at 150 dpi) on the x axis
    assert_eq!(p.scale_x_num, 210 * 800 * 1500);
    assert_eq!(p.scale_x_den, 800 * 254 * 800);
}

#[test]
fn square_image_spans_page_width() {
    let p = compute_placement(1200, 1200);
    assert_eq!(p.den, 1200);
    assert_eq!(p.disp_w_num, 210 * 1200);
    assert_eq!(p.disp_h_num, 210 * 1200); // 210 mm < 297 mm
    assert_eq!(p.off_x_num, 0);
    assert_eq!(p.off_y_num, (297 - 210) * 1200);
}

#[test]
fn tall_image_spans_page_height() {
    let p = compute_placement(600, 1000);
    assert_eq!(p.den, 1000);
    assert_eq!(p.disp_h_num, 297 * 1000); // exactly the page height
    assert_eq!(p.disp_w_num, 297 * 600); // 178.2 mm
    assert!(p.disp_w_num <= 210 * p.den);
    assert_eq!(p.off_y_num, 0);
    assert_eq!(p.off_x_num, 210 * 1000 - 297 * 600);
}

#[test]
fn one_axis_is_always_tight() {
    for (w, h) in [(1u32, 1u32), (5000, 1), (1, 5000), (640, 905), (641, 905)] {
        let p = compute_placement(w, h);
        assert!(p.disp_w_num <= 210 * p.den);
        assert!(p.disp_h_num <= 297 * p.den);
        assert!(p.disp_w_num == 210 * p.den || p.disp_h_num == 297 * p.den);
    }
}
