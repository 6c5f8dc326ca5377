use crab_boy::display::Display;

const BOX: [u8; 4] = [0x5e, 0x48, 0xe8, 0xff];
const BACKGROUND: [u8; 4] = [0x48, 0xb2, 0xe8, 0xff];

#[test]
fn draw_paints_box_and_background() {
    let d = Display::new(100, 80);
    let mut frame = vec![0u8; 100 * 80 * 4];
    d.draw(&mut frame);
    let px = |x: usize, y: usize| -> [u8; 4] {
        let i = (y * 100 + x) * 4;
        [frame[i], frame[i + 1], frame[i + 2], frame[i + 3]]
    };
    assert_eq!(px(0, 0), BOX);
    assert_eq!(px(63, 63), BOX);
    assert_eq!(px(64, 0), BACKGROUND);
    assert_eq!(px(0, 64), BACKGROUND);
    assert_eq!(px(99, 79), BACKGROUND);
}

#[test]
fn draw_leaves_trailing_bytes() {
    let d = Display::new(640, 480);
    let mut frame = vec![7u8; 10];
    d.draw(&mut frame);
    assert_eq!(&frame[0..4], &BOX);
    assert_eq!(&frame[4..8], &BOX);
    assert_eq!(&frame[8..10], &[7, 7]);
}

#[test]
fn update_moves_the_box_one_pixel() {
    let mut d = Display::new(640, 480);
    d.update();
    let mut frame = vec![0u8; 640 * 4 * 70];
    d.draw(&mut frame);
    let px = |x: usize, y: usize| -> [u8; 4] {
        let i = (y * 640 + x) * 4;
        [frame[i], frame[i + 1], frame[i + 2], frame[i + 3]]
    };
    assert_eq!(px(0, 0), BACKGROUND);
    assert_eq!(px(1, 1), BOX);
    assert_eq!(px(64, 64), BOX);
    assert_eq!(px(65, 1), BACKGROUND);
    assert_eq!(px(1, 65), BACKGROUND);
}

#[test]
fn update_bounces_at_the_edge() {
    // 65 pixels leave room for one step: the box goes to 1, then turns back to 0
    let mut d = Display::new(65, 65);
    let mut frame = vec![0u8; 65 * 65 * 4];
    d.update();
    d.draw(&mut frame);
    assert_eq!(&frame[0..4], &BACKGROUND);
    d.update();
    d.draw(&mut frame);
    assert_eq!(&frame[0..4], &BOX);
    d.update();
    d.draw(&mut frame);
    assert_eq!(&frame[0..4], &BACKGROUND);
}

#[test]
fn update_keeps_the_box_still_on_a_narrow_screen() {
    let mut d = Display::new(64, 64);
    d.update();
    let mut frame = vec![0u8; 64 * 4];
    d.draw(&mut frame);
    assert_eq!(&frame[0..4], &BOX);
}
