use lit_cube::color::Color;
use lit_cube::composite::{composite_color, FULL_RED_SUM};

fn base() -> Color {
    Color::new(100, 150, 255, 255)
}

#[test]
fn full_red_sum_is_three_full_channels() {
    assert_eq!(FULL_RED_SUM, 3 * 255);
}

#[test]
fn composite_scales_every_channel_by_the_average_red() {
    let front = Color::new(55, 83, 142, 255);
    let top = Color::new(81, 122, 209, 255);
    let right = Color::new(68, 103, 175, 255);
    // red sum 204: 100 * 204 / 765 = 26.6.., 150 * 204 / 765 = 40, 255 * 204 / 765 = 68
    assert_eq!(composite_color(base(), front, top, right), Color::new(26, 40, 68, 255));
}

#[test]
fn composite_differs_from_an_average_of_each_channel() {
    let front = Color::new(55, 83, 142, 255);
    let top = Color::new(81, 122, 209, 255);
    let right = Color::new(68, 103, 175, 255);
    let composite = composite_color(base(), front, top, right);
    let average = Color::new(
        ((front.r as u32 + top.r as u32 + right.r as u32) / 3) as u8,
        ((front.g as u32 + top.g as u32 + right.g as u32) / 3) as u8,
        ((front.b as u32 + top.b as u32 + right.b as u32) / 3) as u8,
        255,
    );
    assert_eq!(average, Color::new(68, 102, 175, 255));
    assert_ne!(composite, average);
    // scaling each base channel by its own average does not give it either
    let by_channel = Color::new(
        (base().r as u32 * (front.r as u32 + top.r as u32 + right.r as u32) / 765) as u8,
        (base().g as u32 * (front.g as u32 + top.g as u32 + right.g as u32) / 765) as u8,
        (base().b as u32 * (front.b as u32 + top.b as u32 + right.b as u32) / 765) as u8,
        255,
    );
    assert_eq!(by_channel, Color::new(26, 60, 175, 255));
    assert_ne!(composite, by_channel);
}

#[test]
fn composite_reads_only_the_red_of_the_faces() {
    let with_colors = composite_color(
        base(),
        Color::new(10, 200, 30, 255),
        Color::new(120, 0, 255, 255),
        Color::new(250, 90, 1, 255),
    );
    let with_red_alone = composite_color(
        base(),
        Color::new(10, 0, 0, 0),
        Color::new(120, 0, 0, 0),
        Color::new(250, 0, 0, 0),
    );
    // red sum 380: 100 * 380 / 765 = 49.6.., 150 * 380 / 765 = 74.5.., 255 * 380 / 765 = 126.6..
    assert_eq!(with_colors, Color::new(49, 74, 126, 255));
    assert_eq!(with_colors, with_red_alone);
}

#[test]
fn composite_alpha_is_always_full() {
    let dim = Color::new(9, 9, 9, 3);
    assert_eq!(composite_color(Color::new(100, 150, 255, 0), dim, dim, dim).a, 255);
}

#[test]
fn composite_of_full_and_of_no_red() {
    let full = Color::new(255, 0, 0, 0);
    let none = Color::new(0, 255, 255, 255);
    assert_eq!(composite_color(base(), full, full, full), Color::new(100, 150, 255, 255));
    assert_eq!(composite_color(base(), none, none, none), Color::new(0, 0, 0, 255));
    assert_eq!(
        composite_color(Color::new(255, 255, 255, 255), full, full, none),
        Color::new(170, 170, 170, 255),
    );
    assert_eq!(
        composite_color(Color::new(255, 255, 255, 255), Color::new(1, 0, 0, 0), none, none),
        Color::new(0, 0, 0, 255),
    );
    assert_eq!(
        composite_color(Color::new(255, 255, 255, 255), Color::new(3, 0, 0, 0), none, none),
        Color::new(1, 1, 1, 255),
    );
}
