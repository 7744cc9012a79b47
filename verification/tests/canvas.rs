use ray_tracer::canvas::{Canvas, Rgb};

fn rgb(red: u8, green: u8, blue: u8) -> Rgb {
    Rgb { red, green, blue }
}

fn scale(c: f64) -> u8 {
    (c * 255.0) as u8
}

#[test]
fn create_canvas() {
    let canvas: Canvas<(f64, f64, f64)> = Canvas::new(10, 20, (0.0, 0.0, 0.0));
    assert_eq!(canvas.width(), 10);
    assert_eq!(canvas.length(), 20);
    for h in 0..20 {
        for w in 0..10 {
            assert_eq!(canvas.pixel_at(w, h), (0.0, 0.0, 0.0));
        }
    }
}

#[test]
fn write_to_canvas() {
    let mut canvas: Canvas<(f64, f64, f64)> = Canvas::new(10, 20, (0.0, 0.0, 0.0));
    let red = (1.0, 0.0, 0.0);
    canvas.write_pixel(2, 3, red);
    assert_eq!(canvas.pixel_at(2, 3), red);
}

#[test]
fn canvas_to_ppm() {
    let canvas = Canvas::new(5, 3, rgb(0, 0, 0));
    let ppm = canvas.to_ppm();
    let expected = "P3\n5 3\n255\n0 0 0 0 0 0 0 0 0 0 0 0 0 0 0\n0 0 0 0 0 0 0 0 0 0 0 0 0 0 0\n0 0 0 0 0 0 0 0 0 0 0 0 0 0 0\n";
    assert_eq!(ppm, expected);
}

#[test]
fn ppm_header() {
    let canvas = Canvas::new(5, 3, rgb(0, 0, 0));
    let ppm = canvas.to_ppm();
    let expected = "P3\n5 3\n255\n";
    assert_eq!(&ppm[..expected.len()], expected);
}

#[test]
fn ppm_pixel_data() {
    let mut canvas = Canvas::new(5, 3, rgb(0, 0, 0));
    let c1 = (1.5, 0.0, 0.0);
    let c2 = (0.0, 0.5, 0.0);
    let c3 = (-0.5, 0.0, 1.0);
    canvas.write_pixel(0, 0, rgb(scale(c1.0), scale(c1.1), scale(c1.2)));
    canvas.write_pixel(2, 1, rgb(scale(c2.0), scale(c2.1), scale(c2.2)));
    canvas.write_pixel(4, 2, rgb(scale(c3.0), scale(c3.1), scale(c3.2)));
    let ppm = canvas.to_ppm();
    let expected = "P3\n5 3\n255\n255 0 0 0 0 0 0 0 0 0 0 0 0 0 0\n0 0 0 0 0 0 0 127 0 0 0 0 0 0 0\n0 0 0 0 0 0 0 0 0 0 0 0 0 0 255\n";
    assert_eq!(ppm, expected);
}

#[test]
fn ppm_long_rows_wrap_at_seventy() {
    let fill = rgb(scale(1.0), scale(0.8), scale(0.6));
    let canvas = Canvas::new(10, 2, fill);
    let ppm = canvas.to_ppm();
    let line = "255 204 153 255 204 153 255 204 153 255 204 153 255 204 153\n";
    let expected = format!("P3\n10 2\n255\n{}{}{}{}", line, line, line, line);
    assert_eq!(ppm, expected);
}

#[test]
fn ppm_of_empty_canvas_is_header_only() {
    let canvas = Canvas::new(0, 0, rgb(0, 0, 0));
    assert_eq!(canvas.to_ppm(), "P3\n0 0\n255\n");
}

#[test]
fn ppm_single_pixel() {
    let canvas = Canvas::new(1, 1, rgb(0, 10, 255));
    assert_eq!(canvas.to_ppm(), "P3\n1 1\n255\n0 10 255\n");
}

#[test]
fn write_pixel_leaves_other_pixels() {
    let mut canvas = Canvas::new(3, 2, rgb(1, 1, 1));
    canvas.write_pixel(1, 1, rgb(9, 9, 9));
    assert_eq!(canvas.pixel_at(1, 1), rgb(9, 9, 9));
    assert_eq!(canvas.pixel_at(0, 0), rgb(1, 1, 1));
    assert_eq!(canvas.pixel_at(2, 1), rgb(1, 1, 1));
    assert_eq!(canvas.pixel_at(1, 0), rgb(1, 1, 1));
}
