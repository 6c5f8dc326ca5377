use vstd::prelude::*;

verus! {

/// Side of the square drawn on the placeholder screen, in pixels.
pub const BOX_SIZE: i16 = 64;

/// Abstract contents of a `Display`.
pub struct DisplayState {
    pub width: i16,
    pub height: i16,
    pub box_x: i16,
    pub box_y: i16,
    pub velocity_x: i16,
    pub velocity_y: i16,
}

/// A placeholder screen: a background with a square at (`box_x`, `box_y`) that bounces
/// around the screen, one pixel per update along each axis.
pub struct Display {
    width: i16,
    height: i16,
    box_x: i16,
    box_y: i16,
    velocity_x: i16,
    velocity_y: i16,
}

impl View for Display {
    type V = DisplayState;

    closed spec fn view(&self) -> DisplayState {
        DisplayState {
            width: self.width,
            height: self.height,
            box_x: self.box_x,
            box_y: self.box_y,
            velocity_x: self.velocity_x,
            velocity_y: self.velocity_y,
        }
    }
}

/// Whether a square at `pos` lies on an axis `extent` pixels long (on a screen too small for
/// it, it stays at 0).
pub open spec fn box_on_axis(pos: i16, extent: i16) -> bool {
    0 <= pos && (pos == 0 || pos + BOX_SIZE <= extent)
}

/// The square inside the screen, each velocity one pixel in either direction.
pub open spec fn display_ok(d: DisplayState) -> bool {
    &&& box_on_axis(d.box_x, d.width)
    &&& box_on_axis(d.box_y, d.height)
    &&& (d.velocity_x == 1 || d.velocity_x == -1)
    &&& (d.velocity_y == 1 || d.velocity_y == -1)
}

/// One move along one axis: the square moves by `velocity`, turning back first when the move
/// would take it off `0 ..= extent - BOX_SIZE`; where the screen has no room it stays put.
/// The result is the new position and the new velocity.
pub open spec fn bounce(pos: i16, velocity: i16, extent: i16) -> (i16, i16) {
    if extent - BOX_SIZE <= 0 {
        (pos, velocity)
    } else {
        let v = if pos + velocity < 0 || pos + velocity > extent - BOX_SIZE {
            -velocity
        } else {
            velocity as int
        };
        ((pos + v) as i16, v as i16)
    }
}

/// The display after one update: the square has bounced one step along each axis.
pub open spec fn advance(d: DisplayState) -> DisplayState {
    let (x, vx) = bounce(d.box_x, d.velocity_x, d.width);
    let (y, vy) = bounce(d.box_y, d.velocity_y, d.height);
    DisplayState { box_x: x, box_y: y, velocity_x: vx, velocity_y: vy, ..d }
}

/// The colour of the square.
pub open spec fn box_rgba() -> Seq<u8> {
    seq![0x5e, 0x48, 0xe8, 0xff]
}

/// The colour of the background.
pub open spec fn background_rgba() -> Seq<u8> {
    seq![0x48, 0xb2, 0xe8, 0xff]
}

/// Whether pixel number `i` (row by row, `width` pixels per row) lies in the square.
pub open spec fn inside_box(d: DisplayState, i: int) -> bool {
    let w = (d.width as usize) as int;
    let x = (i % w) as i16;
    let y = (i / w) as i16;
    x >= d.box_x && x < d.box_x + BOX_SIZE && y >= d.box_y && y < d.box_y + BOX_SIZE
}

/// The RGBA bytes of pixel number `i`.
pub open spec fn pixel_rgba(d: DisplayState, i: int) -> Seq<u8> {
    if inside_box(d, i) {
        box_rgba()
    } else {
        background_rgba()
    }
}

/// One move of the square along one axis; see `bounce`.
fn bounce_step(pos: i16, velocity: i16, extent: i16) -> (r: (i16, i16))
    requires
        box_on_axis(pos, extent),
        velocity == 1 || velocity == -1,
    ensures
        r == bounce(pos, velocity, extent),
        box_on_axis(r.0, extent),
        r.1 == 1 || r.1 == -1,
{
    let limit: i32 = extent as i32 - BOX_SIZE as i32;
    if limit <= 0 {
        (pos, velocity)
    } else {
        let next: i32 = pos as i32 + velocity as i32;
        let v: i16 = if next < 0 || next > limit {
            -velocity
        } else {
            velocity
        };
        (pos + v, v)
    }
}

impl Display {
    #[verifier::type_invariant]
    spec fn box_fits(self) -> bool {
        display_ok(self@)
    }

    /// A display of the given size (each taken modulo 2^16 as a signed number), the square
    /// in the top left corner, moving right and down.
    pub fn new(width: u32, height: u32) -> (d: Display)
        ensures
            d@ == (DisplayState {
                width: width as i16,
                height: height as i16,
                box_x: 0,
                box_y: 0,
                velocity_x: 1,
                velocity_y: 1,
            }),
    {
        Display {
            width: width as i16,
            height: height as i16,
            box_x: 0,
            box_y: 0,
            velocity_x: 1,
            velocity_y: 1,
        }
    }

    /// Updates the `Display` internal state: the square bounces around the screen.
    pub fn update(&mut self)
        ensures
            final(self)@ == advance(old(self)@),
            display_ok(final(self)@),
    {
        proof {
            use_type_invariant(&*self);
        }
        let (x, vx) = bounce_step(self.box_x, self.velocity_x, self.width);
        let (y, vy) = bounce_step(self.box_y, self.velocity_y, self.height);
        self.velocity_x = vx;
        self.box_x = x;
        self.velocity_y = vy;
        self.box_y = y;
    }

    /// Paints the frame buffer, four RGBA bytes per pixel, pixel `i` at column
    /// `i % width` and row `i / width`; bytes past the last whole pixel are left alone.
    pub fn draw(&self, frame: &mut [u8])
        requires
            old(frame)@.len() >= 4 ==> (self@.width as usize) != 0,
        ensures
            final(frame)@.len() == old(frame)@.len(),
            forall|k: int|
                0 <= k < old(frame)@.len() / 4 * 4 ==> #[trigger] final(frame)@[k] == pixel_rgba(
                    self@,
                    k / 4,
                )[k % 4],
            forall|k: int|
                old(frame)@.len() / 4 * 4 <= k < old(frame)@.len() ==> #[trigger] final(frame)@[k]
                    == old(frame)@[k],
    {
        proof {
            use_type_invariant(self);
        }
        assert(self.box_x <= i16::MAX - BOX_SIZE && self.box_y <= i16::MAX - BOX_SIZE);
        let len = frame.len();
        let n = len / 4;
        let mut i: usize = 0;
        while i < n
            invariant
                len == old(frame)@.len(),
                n == old(frame)@.len() / 4,
                i <= n,
                frame@.len() == old(frame)@.len(),
                n > 0 ==> (self@.width as usize) != 0,
                self.box_x <= i16::MAX - BOX_SIZE,
                self.box_y <= i16::MAX - BOX_SIZE,
                forall|k: int| 0 <= k < i * 4 ==> #[trigger] frame@[k] == pixel_rgba(self@, k / 4)[k % 4],
                forall|k: int| n * 4 <= k < frame@.len() ==> #[trigger] frame@[k] == old(frame)@[k],
            decreases n - i,
        {
            let w = self.width as usize;
            let x = (i % w) as i16;
            let y = (i / w) as i16;
            let inside_the_box = x >= self.box_x && x < self.box_x + BOX_SIZE && y >= self.box_y
                && y < self.box_y + BOX_SIZE;
            let rgba: [u8; 4] = if inside_the_box {
                [0x5e, 0x48, 0xe8, 0xff]
            } else {
                [0x48, 0xb2, 0xe8, 0xff]
            };
            assert(rgba@ == pixel_rgba(self@, i as int));
            assert(4 * i + 3 < frame@.len()) by (nonlinear_arith)
                requires
                    i < n,
                    n == frame@.len() / 4,
            ;
            frame[4 * i] = rgba[0];
            frame[4 * i + 1] = rgba[1];
            frame[4 * i + 2] = rgba[2];
            frame[4 * i + 3] = rgba[3];
            assert forall|k: int| 0 <= k < (i + 1) * 4 implies #[trigger] frame@[k] == pixel_rgba(
                self@,
                k / 4,
            )[k % 4] by {
                if k >= i * 4 {
                    assert(k / 4 == i);
                }
            }
            i += 1;
        }
    }
}

/// Each update keeps the square on the screen and keeps the size; wherever the screen is
/// wider (taller) than the square, the square moves by one pixel along that axis, keeping its
/// direction unless that move would take it off the screen, in which case it turns back; where
/// the screen has no room for it, it stays put.
pub proof fn law_update_bounces_inside(d: DisplayState)
    requires
        display_ok(d),
    ensures
        display_ok(advance(d)),
        advance(d).width == d.width,
        advance(d).height == d.height,
        d.width > BOX_SIZE ==> advance(d).box_x == d.box_x + 1 || advance(d).box_x == d.box_x - 1,
        d.height > BOX_SIZE ==> advance(d).box_y == d.box_y + 1 || advance(d).box_y == d.box_y - 1,
        d.width > BOX_SIZE ==> if 0 <= d.box_x + d.velocity_x <= d.width - BOX_SIZE {
            advance(d).velocity_x == d.velocity_x && advance(d).box_x == d.box_x + d.velocity_x
        } else {
            advance(d).velocity_x == -d.velocity_x && advance(d).box_x == d.box_x - d.velocity_x
        },
        d.height > BOX_SIZE ==> if 0 <= d.box_y + d.velocity_y <= d.height - BOX_SIZE {
            advance(d).velocity_y == d.velocity_y && advance(d).box_y == d.box_y + d.velocity_y
        } else {
            advance(d).velocity_y == -d.velocity_y && advance(d).box_y == d.box_y - d.velocity_y
        },
        d.width <= BOX_SIZE ==> advance(d).box_x == d.box_x,
        d.height <= BOX_SIZE ==> advance(d).box_y == d.box_y,
{
}

} // verus!
