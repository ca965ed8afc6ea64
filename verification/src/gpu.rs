//! The picture processing unit: a four-mode state machine over 154
//! scanlines, and a per-scanline compositor for background, window and
//! sprites into a 160x144 grayscale framebuffer.
//!
//! Mode durations in cycles: SCAN_OAM 80, SCAN_VRAM 172, H_BLANK 204, and
//! one V_BLANK period of 456 per off-screen scanline; a full frame is
//! 70,224 cycles.  On every mode or line change the STAT register is
//! rewritten; entering V_BLANK raises interrupt bit 0; entering H_BLANK
//! renders the scanline just scanned.

use vstd::prelude::*;
use crate::memory::{Memory, fold_echo, lemma_read_after_write, make_zero_bytes};

verus! {

#[allow(non_camel_case_types)]
#[derive(Debug, Clone, Copy, PartialEq, Eq, Structural)]
pub enum GpuState {
    SCAN_OAM,
    SCAN_VRAM,
    H_BLANK,
    V_BLANK,
}

/// How many cycles the mode lasts before the next transition.
pub open spec fn mode_cycles(m: GpuState) -> u32 {
    match m {
        GpuState::SCAN_OAM => 80,
        GpuState::SCAN_VRAM => 172,
        GpuState::H_BLANK => 204,
        GpuState::V_BLANK => 456,
    }
}

/// The mode code STAT reports in its low two bits.
pub open spec fn mode_bits(m: GpuState) -> u8 {
    match m {
        GpuState::H_BLANK => 0,
        GpuState::V_BLANK => 1,
        GpuState::SCAN_OAM => 2,
        GpuState::SCAN_VRAM => 3,
    }
}

/// The STAT byte after a rewrite: the LYC-enable shadow (bit 6) is kept,
/// bit 2 reports LY==LYC, and the low two bits report the mode.
pub open spec fn stat_spec(old_stat: u8, mode: GpuState, line: u8, lyc: u8) -> u8 {
    (old_stat / 64 % 2 * 64 + (if line == lyc {
        4int
    } else {
        0int
    }) + mode_bits(mode)) as u8
}

/// One of the four grayscale shades the palette decode can produce.
pub open spec fn is_shade(b: u8) -> bool {
    b == 0 || b == 82 || b == 173 || b == 255
}

/// The shade a palette register maps a 2-bit color index to.
pub open spec fn shade_spec(palet: u8, idx: u8) -> u8 {
    let palet_loc = (palet >> (idx * 2)) % 4;
    if palet_loc == 3 {
        0
    } else if palet_loc == 2 {
        82
    } else if palet_loc == 1 {
        173
    } else {
        255
    }
}

/// Whether the background (or, when `window` is set, the window) layer
/// covers screen column `x` of the scanline: the background covers
/// everything, the window only from WX-7 on and only at or below WY.
pub open spec fn layer_applies(m: Memory, window: bool, line: u8, x: int) -> bool {
    !window || (line >= m.read_spec(0xFF4A) && x + 7 >= m.read_spec(0xFF4B))
}

/// The 2-bit color index the tile layer produces for screen column `x` of
/// the scanline: source coordinates are scrolled (background) or
/// window-relative, the tile id comes from the selected map, and the tile
/// row's two bit-planes give the index.  Signed tile indexing maps ids
/// 128..255 below 0x9000.
pub open spec fn layer_idx(m: Memory, window: bool, line: u8, x: int) -> u8 {
    let lcdc = m.read_spec(0xFF40);
    let scy = m.read_spec(0xFF42);
    let scx = m.read_spec(0xFF43);
    let wy = m.read_spec(0xFF4A);
    let wx = m.read_spec(0xFF4B);
    let src_x: int = if window {
        x + 7 - wx
    } else {
        (x + scx) % 256
    };
    let src_y: int = if window {
        line - wy
    } else {
        (line + scy) % 256
    };
    let map_sel = if window {
        lcdc / 64 % 2 == 1
    } else {
        lcdc / 8 % 2 == 1
    };
    let map_base: int = if map_sel {
        0x9C00
    } else {
        0x9800
    };
    let tile_id = m.read_spec((map_base + src_y / 8 * 32 + src_x / 8) as u16);
    let unsigned_tiles = lcdc / 16 % 2 == 1;
    let tile_addr: int = if unsigned_tiles {
        0x8000 + tile_id * 16
    } else if tile_id > 127 {
        0x8800 + (tile_id - 128) * 16
    } else {
        0x9000 + tile_id * 16
    };
    let low = m.read_spec((tile_addr + src_y % 8 * 2) as u16);
    let high = m.read_spec((tile_addr + src_y % 8 * 2 + 1) as u16);
    let shift = (7 - src_x % 8) as u8;
    ((low >> shift) % 2 + (high >> shift) % 2 * 2) as u8
}

/// One byte of a sprite's OAM record (k: 0 the Y byte, 1 the X byte, 2 the
/// tile, 3 the flags).
pub open spec fn sprite_byte(m: Memory, sprite: u16, k: int) -> u8 {
    m.read_spec((0xFE00 + sprite * 4 + k) as u16)
}

/// Sprite height in pixels: LCDC bit 2 selects 8x16.
pub open spec fn sprite_height(m: Memory) -> int {
    if m.read_spec(0xFF40) / 4 % 2 == 1 {
        16
    } else {
        8
    }
}

/// Whether the sprite's rows cover the scanline; the Y byte stores screen
/// y plus 16.
pub open spec fn sprite_covers(m: Memory, sprite: u16, line: u8) -> bool {
    let y = sprite_byte(m, sprite, 0);
    line + 16 >= y && line + 16 < y + sprite_height(m)
}

/// The 2-bit color index of the sprite's pixel `xi` (0 leftmost before
/// X-flip) on the scanline, honoring both flip flags; 8x16 sprites use the
/// even/odd tile pair.
pub open spec fn sprite_pix(m: Memory, sprite: u16, line: u8, xi: int) -> u8 {
    let y = sprite_byte(m, sprite, 0);
    let pattern = sprite_byte(m, sprite, 2);
    let flags = sprite_byte(m, sprite, 3);
    let row0 = line + 16 - y;
    let row = if flags / 64 % 2 == 1 {
        sprite_height(m) - 1 - row0
    } else {
        row0
    };
    let tile: int = if sprite_height(m) == 16 {
        pattern / 2 * 2 + row / 8
    } else {
        pattern as int
    };
    let low = m.read_spec((0x8000 + tile * 16 + row % 8 * 2) as u16);
    let high = m.read_spec((0x8000 + tile * 16 + row % 8 * 2 + 1) as u16);
    let shift = (if flags / 32 % 2 == 1 {
        xi
    } else {
        7 - xi
    }) as u8;
    ((low >> shift) % 2 + (high >> shift) % 2 * 2) as u8
}

/// The palette register the sprite's flag bit 4 selects.
pub open spec fn sprite_palette(m: Memory, sprite: u16) -> u8 {
    if sprite_byte(m, sprite, 3) / 16 % 2 == 1 {
        m.read_spec(0xFF49)
    } else {
        m.read_spec(0xFF48)
    }
}

/// What rendering one covering sprite leaves in its eight columns of the
/// scanline: an opaque pixel that is not priority-blocked takes its
/// palette shade; everything else keeps the value it had.
pub open spec fn sprite_row_rel(
    m: Memory,
    sprite: u16,
    line: u8,
    row_idx: Seq<u8>,
    pre_lcd: Seq<u8>,
    post_lcd: Seq<u8>,
) -> bool {
    forall|xi: int|
        0 <= xi < 8 && 0 <= sprite_byte(m, sprite, 1) - 8 + xi < 160 ==> post_lcd[line * 160
            + sprite_byte(m, sprite, 1) - 8 + xi] == (if #[trigger] sprite_pix(m, sprite, line, xi)
            != 0 && !(sprite_byte(m, sprite, 3) / 128 % 2 == 1 && row_idx[sprite_byte(m, sprite, 1)
            - 8 + xi] != 0) {
            shade_spec(sprite_palette(m, sprite), sprite_pix(m, sprite, line, xi))
        } else {
            pre_lcd[line * 160 + sprite_byte(m, sprite, 1) - 8 + xi]
        })
}

/// What a full scanline render leaves in the row when sprites are
/// disabled: the window layer where it applies, over the background layer,
/// over the previous contents.
pub open spec fn row_rendered_rel(m: Memory, line: u8, pre_lcd: Seq<u8>, post_lcd: Seq<u8>) -> bool {
    forall|i: int|
        line * 160 <= i < line * 160 + 160 ==> #[trigger] post_lcd[i] == ({
            let lcdc = m.read_spec(0xFF40);
            let x = i - line * 160;
            if lcdc / 32 % 2 == 1 && layer_applies(m, true, line, x) {
                shade_spec(m.read_spec(0xFF47), layer_idx(m, true, line, x))
            } else if lcdc % 2 == 1 {
                shade_spec(m.read_spec(0xFF47), layer_idx(m, false, line, x))
            } else {
                pre_lcd[i]
            }
        })
}

/// The memory after a transition that only rewrote STAT.
pub open spec fn stat_written(m0: Memory, m1: Memory, mode: GpuState, line: u8) -> bool {
    &&& m1.cart == m0.cart
    &&& m1.read_spec(0xFF41) == stat_spec(
        m0.read_spec(0xFF41),
        mode,
        line,
        m0.read_spec(0xFF45),
    )
    &&& forall|x: u16|
        fold_echo(x) != 0xFF41 ==> #[trigger] m1.read_spec(x) == m0.read_spec(x)
}

/// The memory after a transition that moved to a new line: LY holds the
/// line and STAT was rewritten.
pub open spec fn line_stat_written(m0: Memory, m1: Memory, mode: GpuState, line: u8) -> bool {
    &&& m1.cart == m0.cart
    &&& m1.read_spec(0xFF44) == line
    &&& m1.read_spec(0xFF41) == stat_spec(
        m0.read_spec(0xFF41),
        mode,
        line,
        m0.read_spec(0xFF45),
    )
    &&& forall|x: u16|
        fold_echo(x) != 0xFF41 && fold_echo(x) != 0xFF44 ==> #[trigger] m1.read_spec(x)
            == m0.read_spec(x)
}

/// The memory after the V_BLANK entry: LY and STAT as above, and interrupt
/// flag bit 0 raised.
pub open spec fn line_stat_if_written(m0: Memory, m1: Memory, mode: GpuState, line: u8) -> bool {
    &&& m1.cart == m0.cart
    &&& m1.read_spec(0xFF44) == line
    &&& m1.read_spec(0xFF41) == stat_spec(
        m0.read_spec(0xFF41),
        mode,
        line,
        m0.read_spec(0xFF45),
    )
    &&& m1.read_spec(0xFF0F) == m0.read_spec(0xFF0F) | 1
    &&& forall|x: u16|
        fold_echo(x) != 0xFF41 && fold_echo(x) != 0xFF44 && fold_echo(x) != 0xFF0F
            ==> #[trigger] m1.read_spec(x) == m0.read_spec(x)
}

/// How one PPU tick of `ticks` cycles relates the mode machine, the
/// framebuffer and the bus before to their state after: at most one mode
/// transition, the STAT/LY/IF writes of that transition, and the scanline
/// render on entering H_BLANK (quoted exactly when sprites are disabled).
pub open spec fn gpu_tick_rel(g0: GPU, m0: Memory, g1: GPU, m1: Memory, ticks: u32) -> bool {
    &&& g1.wf()
    &&& m1.wf()
    &&& m1.cart == m0.cart
    &&& ({
                let total = g0.time + ticks;
                if total < mode_cycles(g0.mode) {
                    &&& g1 == (GPU { time: total as u32, ..g0 })
                    &&& m1 == m0
                } else {
                    let t2 = (total - mode_cycles(g0.mode)) as u32;
                    match g0.mode {
                        GpuState::SCAN_OAM => {
                            &&& g1 == (GPU {
                                time: t2,
                                mode: GpuState::SCAN_VRAM,
                                ..g0
                            })
                            &&& stat_written(m0, m1, GpuState::SCAN_VRAM, g0.line)
                        },
                        GpuState::SCAN_VRAM => {
                            &&& g1.time == t2
                            &&& g1.mode == GpuState::H_BLANK
                            &&& g1.line == g0.line
                            &&& g1.time_to_draw == g0.time_to_draw
                            &&& g1.lcd@.len() == 23040
                            &&& forall|i: int|
                                0 <= i < 23040 && !(g0.line * 160 <= i < g0.line * 160 + 160)
                                    ==> #[trigger] g1.lcd@[i] == g0.lcd@[i]
                            &&& stat_written(m0, m1, GpuState::H_BLANK, g0.line)
                            &&& (m0.read_spec(0xFF40) / 2 % 2 == 0 ==> row_rendered_rel(
                                m0,
                                g0.line,
                                g0.lcd@,
                                g1.lcd@,
                            ))
                        },
                        GpuState::H_BLANK => {
                            let nl = (g0.line + 1) as u8;
                            &&& g1.time == t2
                            &&& g1.line == nl
                            &&& g1.lcd@ == g0.lcd@
                            &&& if nl == 143 {
                                &&& g1.mode == GpuState::V_BLANK
                                &&& g1.time_to_draw
                                &&& line_stat_if_written(
                                    m0,
                                    m1,
                                    GpuState::V_BLANK,
                                    nl,
                                )
                            } else {
                                &&& g1.mode == GpuState::SCAN_OAM
                                &&& g1.time_to_draw == g0.time_to_draw
                                &&& line_stat_written(m0, m1, GpuState::SCAN_OAM, nl)
                            }
                        },
                        GpuState::V_BLANK => {
                            let nl: u8 = if g0.line == 153 {
                                0
                            } else {
                                (g0.line + 1) as u8
                            };
                            let nm = if g0.line == 153 {
                                GpuState::SCAN_OAM
                            } else {
                                GpuState::V_BLANK
                            };
                            &&& g1 == (GPU { time: t2, line: nl, mode: nm, ..g0 })
                            &&& line_stat_written(m0, m1, nm, nl)
                        },
                    }
                }
            })
}

/// The framebuffer and the mode machine.  `lcd` stores rows top to bottom,
/// 160 bytes per row.
#[derive(Debug)]
pub struct GPU {
    pub time: u32,
    pub line: u8,
    pub mode: GpuState,
    pub lcd: Vec<u8>,
    pub time_to_draw: bool,
}

impl GPU {
    /// The accumulator stays below the current mode's budget, the line
    /// matches the mode, and the framebuffer holds palette shades only.
    pub open spec fn wf(self) -> bool {
        &&& self.lcd@.len() == 23040
        &&& forall|i: int| 0 <= i < 23040 ==> is_shade(#[trigger] self.lcd@[i])
        &&& self.time < mode_cycles(self.mode)
        &&& match self.mode {
            GpuState::V_BLANK => 143 <= self.line <= 153,
            _ => self.line <= 142,
        }
    }

    pub fn make_gpu() -> (r: GPU)
        ensures
            r.wf(),
            r.time == 0 && r.line == 0 && r.mode == GpuState::H_BLANK && r.time_to_draw,
            r.lcd@ == Seq::<u8>::new(23040, |i: int| 0u8),
    {
        GPU {
            time: 0,
            line: 0,
            mode: GpuState::H_BLANK,
            lcd: make_zero_bytes(23040),
            time_to_draw: true,
        }
    }

    /// Rewrites STAT for the current mode and line.
    pub fn update_stat(&self, memory: &mut Memory)
        requires
            old(memory).wf(),
        ensures
            final(memory).wf(),
            stat_written(*old(memory), *final(memory), self.mode, self.line),
    {
        let old_stat = memory.get(0xFF41);
        let lyc = memory.get(0xFF45);
        let mode_code: u8 = match self.mode {
            GpuState::H_BLANK => 0,
            GpuState::V_BLANK => 1,
            GpuState::SCAN_OAM => 2,
            GpuState::SCAN_VRAM => 3,
        };
        let val: u8 = old_stat / 64 % 2 * 64 + (if self.line == lyc {
            4
        } else {
            0
        }) + mode_code;
        memory.set(0xFF41, val);
        proof {
            assert forall|x: u16| fold_echo(x) != 0xFF41 implies #[trigger] memory.read_spec(x)
                == old(memory).read_spec(x) by {
                lemma_read_after_write(*old(memory), *memory, 0xFF41, val, x);
            }
            lemma_read_after_write(*old(memory), *memory, 0xFF41, val, 0xFF41);
        }
    }

    /// Advances the mode machine by `ticks` cycles, performing at most one
    /// transition; `ticks` never exceeds the shortest mode, which is how
    /// far one instruction can move time.
    pub fn tick(&mut self, memory: &mut Memory, ticks: u32)
        requires
            old(self).wf(),
            old(memory).wf(),
            ticks <= 80,
        ensures
            gpu_tick_rel(*old(self), *old(memory), *final(self), *final(memory), ticks),
    {
        self.time = self.time + ticks;
        match self.mode {
            GpuState::H_BLANK => {
                if self.time >= 204 {
                    self.time = self.time - 204;
                    self.line = self.line + 1;
                    memory.set(0xFF44, self.line);
                    let ghost m1 = *memory;
                    proof {
                        assert forall|x: u16| fold_echo(x) != 0xFF44 implies #[trigger] m1
                            .read_spec(x) == old(memory).read_spec(x) by {
                            lemma_read_after_write(*old(memory), m1, 0xFF44, self.line, x);
                        }
                        lemma_read_after_write(*old(memory), m1, 0xFF44, self.line, 0xFF44);
                    }
                    if self.line == 143 {
                        self.mode = GpuState::V_BLANK;
                        self.time_to_draw = true;
                        self.update_stat(memory);
                        let ghost m2 = *memory;
                        memory.setInterruptFlag(0);
                        proof {
                            assert(1u8 << 0 == 1) by (bit_vector);
                            assert forall|x: u16| fold_echo(x) != 0xFF0F implies #[trigger] memory
                                .read_spec(x) == m2.read_spec(x) by {
                                lemma_read_after_write(
                                    m2,
                                    *memory,
                                    0xFF0F,
                                    m2.read_spec(0xFF0F) | 1,
                                    x,
                                );
                            }
                            lemma_read_after_write(
                                m2,
                                *memory,
                                0xFF0F,
                                m2.read_spec(0xFF0F) | 1,
                                0xFF0F,
                            );
                        }
                    } else {
                        self.mode = GpuState::SCAN_OAM;
                        self.update_stat(memory);
                    }
                }
            },
            GpuState::V_BLANK => {
                if self.time >= 456 {
                    self.time = self.time - 456;
                    if self.line == 153 {
                        self.line = 0;
                        self.mode = GpuState::SCAN_OAM;
                    } else {
                        self.line = self.line + 1;
                    }
                    memory.set(0xFF44, self.line);
                    let ghost m1 = *memory;
                    proof {
                        assert forall|x: u16| fold_echo(x) != 0xFF44 implies #[trigger] m1
                            .read_spec(x) == old(memory).read_spec(x) by {
                            lemma_read_after_write(*old(memory), m1, 0xFF44, self.line, x);
                        }
                        lemma_read_after_write(*old(memory), m1, 0xFF44, self.line, 0xFF44);
                    }
                    self.update_stat(memory);
                }
            },
            GpuState::SCAN_OAM => {
                if self.time >= 80 {
                    self.time = self.time - 80;
                    self.mode = GpuState::SCAN_VRAM;
                    self.update_stat(memory);
                }
            },
            GpuState::SCAN_VRAM => {
                if self.time >= 172 {
                    self.time = self.time - 172;
                    self.mode = GpuState::H_BLANK;
                    let line = self.line;
                    self.draw_line(memory, line);
                    self.update_stat(memory);
                }
            },
        }
    }

    /// Renders one scanline: background, then window, then sprites.  Only
    /// the bytes of that framebuffer row change; with sprites disabled the
    /// row is exactly the window layer where it applies over the
    /// background layer.
    pub fn draw_line(&mut self, memory: &Memory, line: u8)
        requires
            old(self).wf(),
            memory.wf(),
            line < 144,
        ensures
            final(self).wf(),
            final(self).time == old(self).time,
            final(self).line == old(self).line,
            final(self).mode == old(self).mode,
            final(self).time_to_draw == old(self).time_to_draw,
            forall|i: int|
                0 <= i < 23040 && !(line * 160 <= i < line * 160 + 160) ==> #[trigger] final(self).lcd@[i] == old(self).lcd@[i],
            memory.read_spec(0xFF40) / 2 % 2 == 0 ==> row_rendered_rel(
                *memory,
                line,
                old(self).lcd@,
                final(self).lcd@,
            ),
    {
        let lcdc = memory.get(0xFF40);
        let mut row_idx: Vec<u8> = make_zero_bytes(160);
        if lcdc % 2 == 1 {
            // Bit 0: background enabled.
            self.draw_line_tiles(memory, line, false, &mut row_idx);
        }
        if lcdc / 32 % 2 == 1 && line >= memory.get(0xFF4A) {
            // Bit 5: window enabled, and the window has started on this line.
            self.draw_line_tiles(memory, line, true, &mut row_idx);
        }
        if lcdc / 2 % 2 == 1 {
            // Bit 1: sprites enabled.
            let mut sprite: u16 = 0;
            while sprite < 40
                invariant
                    self.wf(),
                    memory.wf(),
                    line < 144,
                    row_idx@.len() == 160,
                    self.time == old(self).time,
                    self.line == old(self).line,
                    self.mode == old(self).mode,
                    self.time_to_draw == old(self).time_to_draw,
                    forall|i: int|
                        0 <= i < 23040 && !(line * 160 <= i < line * 160 + 160)
                            ==> #[trigger] self.lcd@[i] == old(self).lcd@[i],
                decreases 40 - sprite,
            {
                self.draw_line_sprite(memory, line, sprite, &row_idx);
                sprite = sprite + 1;
            }
        }
    }

    /// Renders the background or the window layer of one scanline and
    /// records each pixel's 2-bit color index for sprite priority.
    pub fn draw_line_tiles(&mut self, memory: &Memory, line: u8, window: bool, row_idx: &mut Vec<
        u8,
    >)
        requires
            old(self).wf(),
            memory.wf(),
            line < 144,
            old(row_idx)@.len() == 160,
        ensures
            final(self).wf(),
            final(row_idx)@.len() == 160,
            final(self).time == old(self).time,
            final(self).line == old(self).line,
            final(self).mode == old(self).mode,
            final(self).time_to_draw == old(self).time_to_draw,
            forall|i: int|
                0 <= i < 23040 && !(line * 160 <= i < line * 160 + 160) ==> #[trigger] final(self).lcd@[i] == old(self).lcd@[i],
            forall|x: int|
                0 <= x < 160 ==> #[trigger] final(row_idx)@[x] == (if layer_applies(
                    *memory,
                    window,
                    line,
                    x,
                ) {
                    layer_idx(*memory, window, line, x)
                } else {
                    old(row_idx)@[x]
                }),
            forall|i: int|
                line * 160 <= i < line * 160 + 160 ==> #[trigger] final(self).lcd@[i] == (
                if layer_applies(*memory, window, line, i - line * 160) {
                    shade_spec(
                        memory.read_spec(0xFF47),
                        layer_idx(*memory, window, line, i - line * 160),
                    )
                } else {
                    old(self).lcd@[i]
                }),
    {
        let lcdc = memory.get(0xFF40);
        let palet = memory.get(0xFF47);
        let scy = memory.get(0xFF42);
        let scx = memory.get(0xFF43);
        let wy = memory.get(0xFF4A);
        let wx = memory.get(0xFF4B);
        let map_sel: bool = if window {
            lcdc / 64 % 2 == 1
        } else {
            lcdc / 8 % 2 == 1
        };
        let map_base: u16 = if map_sel {
            0x9C00
        } else {
            0x9800
        };
        let unsigned_tiles: bool = lcdc / 16 % 2 == 1;
        let mut x: u16 = 0;
        while x < 160
            invariant
                self.wf(),
                memory.wf(),
                line < 144,
                x <= 160,
                map_base == 0x9800 || map_base == 0x9C00,
                map_sel == (if window {
                    memory.read_spec(0xFF40) / 64 % 2 == 1
                } else {
                    memory.read_spec(0xFF40) / 8 % 2 == 1
                }),
                (map_base == 0x9C00) == map_sel,
                unsigned_tiles == (memory.read_spec(0xFF40) / 16 % 2 == 1),
                palet == memory.read_spec(0xFF47),
                scy == memory.read_spec(0xFF42),
                scx == memory.read_spec(0xFF43),
                wy == memory.read_spec(0xFF4A),
                wx == memory.read_spec(0xFF4B),
                row_idx@.len() == 160,
                self.time == old(self).time,
                self.line == old(self).line,
                self.mode == old(self).mode,
                self.time_to_draw == old(self).time_to_draw,
                forall|i: int|
                    0 <= i < 23040 && !(line * 160 <= i < line * 160 + 160)
                        ==> #[trigger] self.lcd@[i] == old(self).lcd@[i],
                forall|j: int|
                    0 <= j < x ==> #[trigger] row_idx@[j] == (if layer_applies(
                        *memory,
                        window,
                        line,
                        j,
                    ) {
                        layer_idx(*memory, window, line, j)
                    } else {
                        old(row_idx)@[j]
                    }),
                forall|j: int| x <= j < 160 ==> #[trigger] row_idx@[j] == old(row_idx)@[j],
                forall|i: int|
                    line * 160 <= i < line * 160 + x ==> #[trigger] self.lcd@[i] == (
                    if layer_applies(*memory, window, line, i - line * 160) {
                        shade_spec(
                            memory.read_spec(0xFF47),
                            layer_idx(*memory, window, line, i - line * 160),
                        )
                    } else {
                        old(self).lcd@[i]
                    }),
                forall|i: int|
                    line * 160 + x <= i < line * 160 + 160 ==> #[trigger] self.lcd@[i] == old(
                        self,
                    ).lcd@[i],
            decreases 160 - x,
        {
            let mut skip: bool = false;
            let mut src_x: u16 = 0;
            let mut src_y: u16 = 0;
            if window {
                if line < wy || x + 7 < wx as u16 {
                    skip = true;
                } else {
                    src_x = x + 7 - wx as u16;
                    src_y = (line - wy) as u16;
                }
            } else {
                src_x = (x + scx as u16) % 256;
                src_y = ((line as u16 + scy as u16) % 256);
            }
            if !skip {
                let tile_col: u16 = src_x / 8;
                let tile_row: u16 = src_y / 8;
                let fine_x: u16 = src_x % 8;
                let fine_y: u16 = src_y % 8;
                let tile_id = memory.get(map_base + tile_row * 32 + tile_col);
                let tile_addr: u16 = if unsigned_tiles {
                    0x8000 + tile_id as u16 * 16
                } else if tile_id > 127 {
                    0x8800 + (tile_id as u16 - 128) * 16
                } else {
                    0x9000 + tile_id as u16 * 16
                };
                let low = memory.get(tile_addr + fine_y * 2);
                let high = memory.get(tile_addr + fine_y * 2 + 1);
                let shift: u8 = (7 - fine_x) as u8;
                let idx: u8 = (low >> shift) % 2 + ((high >> shift) % 2) * 2;
                proof {
                    assert(layer_applies(*memory, window, line, x as int));
                    assert(idx == layer_idx(*memory, window, line, x as int));
                }
                row_idx.set(x as usize, idx);
                let shade = palette_shade(palet, idx);
                self.lcd.set(line as usize * 160 + x as usize, shade);
            } else {
                proof {
                    assert(!layer_applies(*memory, window, line, x as int));
                }
            }
            x = x + 1;
        }
    }

    /// Renders one sprite onto one scanline, honoring the flip, palette and
    /// priority flags; color 0 is transparent.
    #[verifier::rlimit(100)]
    #[verifier::spinoff_prover]
    pub fn draw_line_sprite(&mut self, memory: &Memory, line: u8, sprite: u16, row_idx: &Vec<u8>)
        requires
            old(self).wf(),
            memory.wf(),
            line < 144,
            sprite < 40,
            row_idx@.len() == 160,
        ensures
            final(self).wf(),
            final(self).time == old(self).time,
            final(self).line == old(self).line,
            final(self).mode == old(self).mode,
            final(self).time_to_draw == old(self).time_to_draw,
            forall|i: int|
                0 <= i < 23040 && !(line * 160 <= i < line * 160 + 160) ==> #[trigger] final(self).lcd@[i] == old(self).lcd@[i],
            !sprite_covers(*memory, sprite, line) ==> final(self).lcd@ == old(self).lcd@,
            forall|i: int|
                line * 160 <= i < line * 160 + 160 && !(sprite_byte(*memory, sprite, 1) - 8 <= i
                    - line * 160 < sprite_byte(*memory, sprite, 1)) ==> #[trigger] final(self).lcd@[i]
                    == old(self).lcd@[i],
            sprite_covers(*memory, sprite, line) ==> sprite_row_rel(
                *memory,
                sprite,
                line,
                row_idx@,
                old(self).lcd@,
                final(self).lcd@,
            ),
    {
        let lcdc = memory.get(0xFF40);
        let oam_loc: u16 = 0xFE00 + sprite * 4;
        let y_byte = memory.get(oam_loc) as u16;
        let x_byte = memory.get(oam_loc + 1) as u16;
        let pattern = memory.get(oam_loc + 2);
        let flags = memory.get(oam_loc + 3);
        let big_sprite: bool = lcdc / 4 % 2 == 1;
        let height: u16 = if big_sprite {
            16
        } else {
            8
        };
        let line16: u16 = line as u16 + 16;
        if !(line16 >= y_byte && line16 < y_byte + height) {
            proof {
                assert(!sprite_covers(*memory, sprite, line));
            }
            return ;
        }
        proof {
            assert(sprite_covers(*memory, sprite, line));
        }
        let row0: u16 = line16 - y_byte;
        let flip_y: bool = flags / 64 % 2 == 1;
        let flip_x: bool = flags / 32 % 2 == 1;
        let high_palet: bool = flags / 16 % 2 == 1;
        let behind_bg: bool = flags / 128 % 2 == 1;
        let row: u16 = if flip_y {
            height - 1 - row0
        } else {
            row0
        };
        let tile: u16 = if big_sprite {
            (pattern / 2 * 2) as u16 + row / 8
        } else {
            pattern as u16
        };
        let fine: u16 = row % 8;
        let low = memory.get(0x8000 + tile * 16 + fine * 2);
        let high = memory.get(0x8000 + tile * 16 + fine * 2 + 1);
        let palet = if high_palet {
            memory.get(0xFF49)
        } else {
            memory.get(0xFF48)
        };
        let mut xi: u16 = 0;
        while xi < 8
            invariant
                self.wf(),
                line < 144,
                xi <= 8,
                x_byte <= 255,
                row_idx@.len() == 160,
                sprite_covers(*memory, sprite, line),
                x_byte == sprite_byte(*memory, sprite, 1),
                flags == sprite_byte(*memory, sprite, 3),
                flip_x == (flags / 32 % 2 == 1),
                behind_bg == (flags / 128 % 2 == 1),
                palet == sprite_palette(*memory, sprite),
                forall|k: int|
                    xi <= k < 8 ==> #[trigger] sprite_pix(*memory, sprite, line, k) == ((low >> (
                    (if flags / 32 % 2 == 1 {
                        k
                    } else {
                        7 - k
                    }) as u8)) % 2 + (high >> ((if flags / 32 % 2 == 1 {
                        k
                    } else {
                        7 - k
                    }) as u8)) % 2 * 2) as u8,
                self.time == old(self).time,
                self.line == old(self).line,
                self.mode == old(self).mode,
                self.time_to_draw == old(self).time_to_draw,
                forall|i: int|
                    0 <= i < 23040 && !(line * 160 <= i < line * 160 + 160)
                        ==> #[trigger] self.lcd@[i] == old(self).lcd@[i],
                forall|i: int|
                    line * 160 <= i < line * 160 + 160 && !(x_byte - 8 <= i - line * 160 < x_byte
                        - 8 + xi) ==> #[trigger] self.lcd@[i] == old(self).lcd@[i],
                forall|k: int|
                    0 <= k < xi && 0 <= x_byte - 8 + k < 160 ==> self.lcd@[line * 160 + x_byte - 8
                        + k] == (if #[trigger] sprite_pix(*memory, sprite, line, k) != 0 && !(flags
                        / 128 % 2 == 1 && row_idx@[x_byte - 8 + k] != 0) {
                        shade_spec(
                            sprite_palette(*memory, sprite),
                            sprite_pix(*memory, sprite, line, k),
                        )
                    } else {
                        old(self).lcd@[line * 160 + x_byte - 8 + k]
                    }),
            decreases 8 - xi,
        {
            // The X byte stores screen x plus 8.
            if x_byte + xi >= 8 && x_byte + xi < 168 {
                let sx: u16 = x_byte + xi - 8;
                let shift: u8 = if flip_x {
                    xi as u8
                } else {
                    (7 - xi) as u8
                };
                let idx: u8 = (low >> shift) % 2 + ((high >> shift) % 2) * 2;
                proof {
                    assert(idx == sprite_pix(*memory, sprite, line, xi as int));
                }
                if idx != 0 && !(behind_bg && row_idx[sx as usize] != 0) {
                    let shade = palette_shade(palet, idx);
                    self.lcd.set(line as usize * 160 + sx as usize, shade);
                    proof {
                        assert(sprite_pix(*memory, sprite, line, xi as int) != 0 && !(flags / 128
                            % 2 == 1 && row_idx@[x_byte - 8 + xi] != 0));
                        assert(self.lcd@[line * 160 + x_byte - 8 + xi] == shade_spec(
                            sprite_palette(*memory, sprite),
                            sprite_pix(*memory, sprite, line, xi as int),
                        ));
                    }
                } else {
                    proof {
                        assert(!(sprite_pix(*memory, sprite, line, xi as int) != 0 && !(flags / 128
                            % 2 == 1 && row_idx@[x_byte - 8 + xi] != 0)));
                        assert(self.lcd@[line * 160 + x_byte - 8 + xi] == old(self).lcd@[line * 160
                            + x_byte - 8 + xi]);
                    }
                }
            }
            xi = xi + 1;
        }
        proof {
            assert forall|k: int| 0 <= k < 8 && 0 <= sprite_byte(*memory, sprite, 1) - 8 + k < 160
                implies self.lcd@[line * 160 + sprite_byte(*memory, sprite, 1) - 8 + k] == (
            if sprite_pix(*memory, sprite, line, k) != 0 && !(sprite_byte(*memory, sprite, 3) / 128
                % 2 == 1 && row_idx@[sprite_byte(*memory, sprite, 1) - 8 + k] != 0) {
                shade_spec(sprite_palette(*memory, sprite), sprite_pix(*memory, sprite, line, k))
            } else {
                old(self).lcd@[line * 160 + sprite_byte(*memory, sprite, 1) - 8 + k]
            }) by {
                assert(self.lcd@[line * 160 + x_byte - 8 + k] == (if sprite_pix(
                    *memory,
                    sprite,
                    line,
                    k,
                ) != 0 && !(flags / 128 % 2 == 1 && row_idx@[x_byte - 8 + k] != 0) {
                    shade_spec(
                        sprite_palette(*memory, sprite),
                        sprite_pix(*memory, sprite, line, k),
                    )
                } else {
                    old(self).lcd@[line * 160 + x_byte - 8 + k]
                }));
            }
            assert(sprite_row_rel(*memory, sprite, line, row_idx@, old(self).lcd@, self.lcd@));
        }
    }
}

/// Resolves a 2-bit color index through a palette register into one of the
/// four grayscale shades.
pub fn palette_shade(palet: u8, idx: u8) -> (r: u8)
    requires
        idx < 4,
    ensures
        is_shade(r),
        r == shade_spec(palet, idx),
{
    let palet_loc: u8 = (palet >> (idx * 2)) % 4;
    if palet_loc == 3 {
        0
    } else if palet_loc == 2 {
        82
    } else if palet_loc == 1 {
        173
    } else {
        255
    }
}

} // verus!
