use vstd::prelude::*;
use crate::display::is_binary;
use crate::display::index_of;
use crate::display::Display;
use crate::display::SCREEN_SIZE;
use crate::display::WIDTH;
use crate::display::HEIGHT;

verus! {

/// Each CHIP-8 pixel is drawn as a square of this many window pixels.
pub const SCALE: usize = 20;

/// Width of the window, in window pixels.
pub const WINDOW_WIDTH: usize = 1280;

/// Height of the window, in window pixels.
pub const WINDOW_HEIGHT: usize = 640;

/// Colour of a dark pixel (0x00RRGGBB).
pub const COLOR_OFF: u32 = 0xFFFFFF;

/// Colour of a lit pixel (0x00RRGGBB).
pub const COLOR_ON: u32 = 0x009900;

/// Keys are re-read at least this often, in nanoseconds.
pub const KEY_PERIOD_NANOS: u64 = 100_000_000;

/// One instruction runs once more than this has passed, in nanoseconds.
pub const INSTRUCTION_PERIOD_NANOS: u64 = 1_000_000;

/// The window is redrawn once more than this has passed, in nanoseconds.
pub const REFRESH_PERIOD_NANOS: u64 = 10_000_000;

/// The colour a screen pixel is shown in.
pub open spec fn pixel_color(pixel: u8) -> u32 {
    if pixel == 0 {
        COLOR_OFF
    } else {
        COLOR_ON
    }
}

/// The colour of window pixel `p` (row-major) for the given screen.
pub open spec fn window_pixel(screen: Seq<u8>, p: int) -> u32 {
    let wx = p % (WINDOW_WIDTH as int);
    let wy = p / (WINDOW_WIDTH as int);
    pixel_color(screen[index_of(wx / (SCALE as int), wy / (SCALE as int))])
}

/// Window pixel `p` (row-major over the 1280x640 window) shows screen
/// pixel (column `(p % 1280) / 20`, row `(p / 1280) / 20`): white when it
/// is dark, green when it is lit.
pub proof fn lemma_window_pixel(screen: Seq<u8>, p: int)
    ensures
        window_pixel(screen, p) == if screen[((p / 1280) / 20) * 64 + (p % 1280) / 20] == 0 {
            0xFFFFFFu32
        } else {
            0x009900u32
        },
{
}

/// What the main loop does in one turn.
pub struct Schedule {
    /// Hand the key just read (or none) to the machine.
    pub update_key: bool,
    /// Run one instruction.
    pub run_instruction: bool,
    /// Redraw the window.
    pub refresh_display: bool,
}

/// Decides one turn of the main loop from the key just read and the
/// nanoseconds since the key was last handed over, since the last
/// instruction and since the last redraw. A key that was read is handed
/// over at once; with no key read, the held key is dropped every 100 ms.
pub fn schedule(
    key: Option<u8>,
    since_key_update: u64,
    since_instruction: u64,
    since_display: u64,
) -> (s: Schedule)
    ensures
        s.update_key == (key is Some || since_key_update >= KEY_PERIOD_NANOS),
        s.run_instruction == (since_instruction > INSTRUCTION_PERIOD_NANOS),
        s.refresh_display == (since_display > REFRESH_PERIOD_NANOS),
{
    Schedule {
        update_key: key.is_some() || since_key_update >= KEY_PERIOD_NANOS,
        run_instruction: since_instruction > INSTRUCTION_PERIOD_NANOS,
        refresh_display: since_display > REFRESH_PERIOD_NANOS,
    }
}

/// Scales the 64x32 screen up to the window, one colour per window pixel,
/// row by row.
pub fn render_frame(screen: &[u8]) -> (frame: Vec<u32>)
    requires
        screen@.len() == SCREEN_SIZE,
        is_binary(screen@),
    ensures
        frame@.len() == WINDOW_WIDTH * WINDOW_HEIGHT,
        forall|p: int|
            0 <= p < WINDOW_WIDTH * WINDOW_HEIGHT ==> #[trigger] frame@[p] == window_pixel(
                screen@,
                p,
            ),
{
    let mut frame: Vec<u32> = Vec::new();
    let mut y: usize = 0;
    while y < WINDOW_HEIGHT
        invariant
            0 <= y <= WINDOW_HEIGHT,
            screen@.len() == SCREEN_SIZE,
            is_binary(screen@),
            frame@.len() == y * WINDOW_WIDTH,
            forall|p: int| 0 <= p < frame@.len() ==> #[trigger] frame@[p] == window_pixel(screen@, p),
        decreases WINDOW_HEIGHT - y,
    {
        let y_coord = y / SCALE;
        let mut x: usize = 0;
        while x < WINDOW_WIDTH
            invariant
                0 <= y < WINDOW_HEIGHT,
                0 <= x <= WINDOW_WIDTH,
                y_coord == y / SCALE,
                screen@.len() == SCREEN_SIZE,
                is_binary(screen@),
                frame@.len() == y * WINDOW_WIDTH + x,
                forall|p: int|
                    0 <= p < frame@.len() ==> #[trigger] frame@[p] == window_pixel(screen@, p),
            decreases WINDOW_WIDTH - x,
        {
            assert(y_coord < HEIGHT && x / SCALE < WIDTH);
            let index = Display::get_index_from_coords(x / SCALE, y_coord);
            assert(index < SCREEN_SIZE) by (nonlinear_arith)
                requires
                    index == (y_coord as int) * 64 + (x / 20) as int,
                    y_coord < 32,
                    x / 20 < 64,
            ;
            let pixel = screen[index];
            let color_pixel: u32 = if pixel == 0 {
                COLOR_OFF
            } else {
                COLOR_ON
            };
            let ghost p = frame@.len() as int;
            assert(p % 1280 == x && p / 1280 == y) by (nonlinear_arith)
                requires
                    p == y * 1280 + x,
                    0 <= x < 1280,
                    0 <= y,
            ;
            frame.push(color_pixel);
            x += 1;
        }
        y += 1;
    }
    frame
}

} // verus!
