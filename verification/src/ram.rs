use vstd::prelude::*;

verus! {

/// Size of the CHIP-8 address space, in bytes.
pub const MEMORY_SIZE: usize = 4096;

/// Number of bytes of the built-in font (16 glyphs of 5 rows each).
pub const FONT_SIZE: usize = 80;

/// The built-in hexadecimal font: glyph `d` occupies the five bytes
/// starting at `5 * d`.
pub open spec fn font() -> Seq<u8> {
    seq![
        0xF0u8, 0x90, 0x90, 0x90, 0xF0,
        0x20, 0x60, 0x20, 0x20, 0x70,
        0xF0, 0x10, 0xF0, 0x80, 0xF0,
        0xF0, 0x10, 0xF0, 0x10, 0xF0,
        0x90, 0x90, 0xF0, 0x10, 0x10,
        0xF0, 0x80, 0xF0, 0x10, 0xF0,
        0xF0, 0x80, 0xF0, 0x90, 0xF0,
        0xF0, 0x10, 0x20, 0x40, 0x40,
        0xF0, 0x90, 0xF0, 0x90, 0xF0,
        0xF0, 0x90, 0xF0, 0x10, 0xF0,
        0xF0, 0x90, 0xF0, 0x90, 0x90,
        0xE0, 0x90, 0xE0, 0x90, 0xE0,
        0xF0, 0x80, 0x80, 0x80, 0xF0,
        0xE0, 0x90, 0x90, 0x90, 0xE0,
        0xF0, 0x80, 0xF0, 0x80, 0xF0,
        0xF0, 0x80, 0xF0, 0x80, 0x80,
    ]
}

/// The memory of a freshly started machine: the font at the bottom,
/// zero everywhere else.
pub open spec fn initial_memory() -> Seq<u8> {
    Seq::new(MEMORY_SIZE as nat, |a: int| if a < FONT_SIZE { font()[a] } else { 0u8 })
}

/// `mem` with the built-in font written over its first `FONT_SIZE` bytes.
pub open spec fn with_font(mem: Seq<u8>) -> Seq<u8> {
    Seq::new(mem.len(), |a: int| if a < FONT_SIZE { font()[a] } else { mem[a] })
}

/// Writing the font a second time changes nothing.
pub proof fn lemma_font_write_idempotent(mem: Seq<u8>)
    ensures
        with_font(with_font(mem)) == with_font(mem),
{
    assert(with_font(with_font(mem)) =~= with_font(mem));
}

/// Reading a position gives back what the last write there stored, and
/// a write leaves every other position as it was.
pub proof fn lemma_read_after_write(mem: Seq<u8>, written: int, read: int, value: u8)
    requires
        mem.len() == MEMORY_SIZE,
        0 <= written < MEMORY_SIZE,
        0 <= read < MEMORY_SIZE,
    ensures
        mem.update(written, value)[read] == if read == written { value } else { mem[read] },
        mem.update(written, value).len() == MEMORY_SIZE,
{
}

/// The 4 KiB main memory.
pub struct Ram {
    pub bytes: [u8; 4096],
}

impl View for Ram {
    type V = Seq<u8>;

    open spec fn view(&self) -> Seq<u8> {
        self.bytes@
    }
}

impl Ram {
    /// Copies the built-in font into the first `FONT_SIZE` bytes and
    /// leaves every other byte as it was.
    fn write_sprites(bytes: &mut [u8; 4096]) -> (out: &mut [u8; 4096])
        ensures
            out@ == with_font(old(bytes)@),
            *final(bytes) == *final(out),
    {
        let sprites: [[u8; 5]; 16] = [
            [0xF0, 0x90, 0x90, 0x90, 0xF0],
            [0x20, 0x60, 0x20, 0x20, 0x70],
            [0xF0, 0x10, 0xF0, 0x80, 0xF0],
            [0xF0, 0x10, 0xF0, 0x10, 0xF0],
            [0x90, 0x90, 0xF0, 0x10, 0x10],
            [0xF0, 0x80, 0xF0, 0x10, 0xF0],
            [0xF0, 0x80, 0xF0, 0x90, 0xF0],
            [0xF0, 0x10, 0x20, 0x40, 0x40],
            [0xF0, 0x90, 0xF0, 0x90, 0xF0],
            [0xF0, 0x90, 0xF0, 0x10, 0xF0],
            [0xF0, 0x90, 0xF0, 0x90, 0x90],
            [0xE0, 0x90, 0xE0, 0x90, 0xE0],
            [0xF0, 0x80, 0x80, 0x80, 0xF0],
            [0xE0, 0x90, 0x90, 0x90, 0xE0],
            [0xF0, 0x80, 0xF0, 0x80, 0xF0],
            [0xF0, 0x80, 0xF0, 0x80, 0x80],
        ];
        assert(forall|g: int, r: int| 0 <= g < 16 && 0 <= r < 5 ==>
            #[trigger] sprites@[g]@[r] == font()[5 * g + r]);
        let ghost start = bytes@;
        let mut i: usize = 0;
        let mut g: usize = 0;
        while g < 16
            invariant
                0 <= g <= 16,
                i == 5 * g,
                bytes@.len() == MEMORY_SIZE,
                forall|g2: int, r: int| 0 <= g2 < 16 && 0 <= r < 5 ==>
                    #[trigger] sprites@[g2]@[r] == font()[5 * g2 + r],
                forall|a: int| 0 <= a < MEMORY_SIZE ==> #[trigger] bytes@[a] == if a < i {
                    font()[a]
                } else {
                    start[a]
                },
            decreases 16 - g,
        {
            let sprite = sprites[g];
            let mut r: usize = 0;
            while r < 5
                invariant
                    0 <= g < 16,
                    0 <= r <= 5,
                    i == 5 * g + r,
                    sprite@ == sprites@[g as int]@,
                    bytes@.len() == MEMORY_SIZE,
                    forall|g2: int, r2: int| 0 <= g2 < 16 && 0 <= r2 < 5 ==>
                        #[trigger] sprites@[g2]@[r2] == font()[5 * g2 + r2],
                    forall|a: int| 0 <= a < MEMORY_SIZE ==> #[trigger] bytes@[a] == if a < i {
                        font()[a]
                    } else {
                        start[a]
                    },
                decreases 5 - r,
            {
                bytes[i] = sprite[r];
                i += 1;
                r += 1;
            }
            g += 1;
        }
        assert(bytes@ =~= with_font(start));
        bytes
    }

    /// A memory holding the built-in font at address 0 and zeros elsewhere.
    pub fn new() -> (ram: Ram)
        ensures
            ram@ == initial_memory(),
    {
        let mut bytes: [u8; 4096] = [0; 4096];
        Ram::write_sprites(&mut bytes);
        assert(bytes@ =~= initial_memory());
        Ram { bytes }
    }

    /// Stores `value` at `position`.
    pub fn write_byte(&mut self, position: usize, value: u8)
        requires
            position < MEMORY_SIZE,
        ensures
            final(self)@ == old(self)@.update(position as int, value),
    {
        self.bytes[position] = value;
    }

    /// The byte stored at `position`.
    pub fn read_byte(&self, position: usize) -> (value: u8)
        requires
            position < MEMORY_SIZE,
        ensures
            value == self@[position as int],
    {
        self.bytes[position]
    }
}

} // verus!
