//! Colors and 256-entry palettes, with their packed 12-bit form.

use vstd::prelude::*;

verus! {

/// An RGB color.
#[derive(Debug, Clone, Copy, PartialEq, Eq, Structural)]
pub struct Color {
    pub r: u8,
    pub g: u8,
    pub b: u8,
}

/// The color of a packed value: nibbles 8..11, 4..7 and 0..3 give red,
/// green and blue, each scaled by 17 to 0..255.
pub open spec fn color_of_u16(val: u16) -> Color {
    Color {
        r: (((val >> 8u16) & 0x0F) * 17) as u8,
        g: (((val >> 4u16) & 0x0F) * 17) as u8,
        b: ((val & 0x0F) * 17) as u8,
    }
}

/// The packed value of a color: each component divided by 17 into its
/// nibble.
pub open spec fn u16_of_color(c: Color) -> u16 {
    (((c.r / 17) as u16) << 8u16) | (((c.g / 17) as u16) << 4u16) | ((c.b / 17) as u16)
}

/// The sixteen standard VGA colors.
pub open spec fn vga16_colors() -> Seq<Color> {
    seq![
        Color { r: 0, g: 0, b: 0 },
        Color { r: 0, g: 0, b: 170 },
        Color { r: 0, g: 170, b: 0 },
        Color { r: 0, g: 170, b: 170 },
        Color { r: 170, g: 0, b: 0 },
        Color { r: 170, g: 0, b: 170 },
        Color { r: 170, g: 85, b: 0 },
        Color { r: 170, g: 170, b: 170 },
        Color { r: 85, g: 85, b: 85 },
        Color { r: 85, g: 85, b: 255 },
        Color { r: 85, g: 255, b: 85 },
        Color { r: 85, g: 255, b: 255 },
        Color { r: 255, g: 85, b: 85 },
        Color { r: 255, g: 85, b: 255 },
        Color { r: 255, g: 255, b: 85 },
        Color { r: 255, g: 255, b: 255 },
    ]
}

impl Color {
    /// The color `(r, g, b)`.
    pub fn new(r: u8, g: u8, b: u8) -> (c: Self)
        ensures
            c == (Color { r, g, b }),
    {
        Color { r, g, b }
    }

    /// Unpacks a 12-bit color (see `color_of_u16`).
    pub fn from_u16(val: u16) -> (c: Self)
        ensures
            c == color_of_u16(val),
    {
        assert((val >> 8u16) & 0x0Fu16 <= 15) by (bit_vector);
        assert((val >> 4u16) & 0x0Fu16 <= 15) by (bit_vector);
        assert(val & 0x0Fu16 <= 15) by (bit_vector);
        Color {
            r: ((val >> 8) & 0x0F) as u8 * 17,
            g: ((val >> 4) & 0x0F) as u8 * 17,
            b: (val & 0x0F) as u8 * 17,
        }
    }

    /// Packs the color into 12 bits (see `u16_of_color`).
    pub fn to_u16(&self) -> (v: u16)
        ensures
            v == u16_of_color(*self),
    {
        ((self.r as u16 / 17) << 8) | ((self.g as u16 / 17) << 4) | (self.b as u16 / 17)
    }
}

/// A 256-entry palette.
#[derive(Debug, Clone)]
pub struct Palette {
    pub colors: [Color; 256],
}

impl Default for Palette {
    fn default() -> (p: Self)
        ensures
            p.colors@.len() == 256,
            forall|i: int| 0 <= i < 256 ==> p.colors@[i] == (Color { r: 0, g: 0, b: 0 }),
    {
        Palette { colors: [Color { r: 0, g: 0, b: 0 }; 256] }
    }
}

impl Palette {
    /// An all-black palette.
    pub fn new() -> (p: Self)
        ensures
            p.colors@.len() == 256,
            forall|i: int| 0 <= i < 256 ==> p.colors@[i] == (Color { r: 0, g: 0, b: 0 }),
    {
        Self::default()
    }

    /// Sets entry `index`.
    pub fn set_color(&mut self, index: u8, color: Color)
        ensures
            final(self).colors@ == old(self).colors@.update(index as int, color),
    {
        self.colors[index as usize] = color;
    }

    /// Entry `index`.
    pub fn get_color(&self, index: u8) -> (c: Color)
        ensures
            c == self.colors@[index as int],
    {
        self.colors[index as usize]
    }

    /// Unpacks `values` into the entries from `start` on; values that
    /// would land past the last entry are dropped.
    pub fn load_from_u16(&mut self, start: u8, values: &[u16])
        ensures
            final(self).colors@.len() == 256,
            forall|k: int|
                0 <= k < 256 ==> #[trigger] final(self).colors@[k] == if start <= k < start
                    + values@.len() {
                    color_of_u16(values@[k - start])
                } else {
                    old(self).colors@[k]
                },
    {
        let mut i: usize = 0;
        while i < values.len()
            invariant
                i <= values@.len(),
                self.colors@.len() == 256,
                forall|k: int|
                    0 <= k < 256 ==> #[trigger] self.colors@[k] == if start <= k < start + i {
                        color_of_u16(values@[k - start])
                    } else {
                        old(self).colors@[k]
                    },
            decreases values@.len() - i,
        {
            if i < 256 - start as usize {
                let idx = start as usize + i;
                self.colors[idx] = Color::from_u16(values[i]);
            }
            i = i + 1;
        }
    }

    /// The standard sixteen VGA colors in entries 0..15, black elsewhere.
    pub fn vga16_default() -> (p: Self)
        ensures
            p.colors@.len() == 256,
            forall|i: int| 0 <= i < 16 ==> p.colors@[i] == vga16_colors()[i],
            forall|i: int| 16 <= i < 256 ==> p.colors@[i] == (Color { r: 0, g: 0, b: 0 }),
    {
        let mut p = Palette::new();
        let colors = [
            Color::new(0, 0, 0),
            Color::new(0, 0, 170),
            Color::new(0, 170, 0),
            Color::new(0, 170, 170),
            Color::new(170, 0, 0),
            Color::new(170, 0, 170),
            Color::new(170, 85, 0),
            Color::new(170, 170, 170),
            Color::new(85, 85, 85),
            Color::new(85, 85, 255),
            Color::new(85, 255, 85),
            Color::new(85, 255, 255),
            Color::new(255, 85, 85),
            Color::new(255, 85, 255),
            Color::new(255, 255, 85),
            Color::new(255, 255, 255),
        ];
        assert(colors@ =~= vga16_colors());
        let mut i: usize = 0;
        while i < 16
            invariant
                i <= 16,
                colors@ == vga16_colors(),
                p.colors@.len() == 256,
                forall|k: int| 0 <= k < i ==> p.colors@[k] == vga16_colors()[k],
                forall|k: int| i <= k < 256 ==> p.colors@[k] == (Color { r: 0, g: 0, b: 0 }),
            decreases 16 - i,
        {
            p.colors[i] = colors[i];
            i = i + 1;
        }
        p
    }
}

/// Packing an unpacked value gives back its low twelve bits.
pub proof fn lemma_u16_color_roundtrip(val: u16)
    ensures
        u16_of_color(color_of_u16(val)) == val & 0x0FFF,
{
    let r = (val >> 8u16) & 0x0F;
    let g = (val >> 4u16) & 0x0F;
    let b = val & 0x0F;
    assert((val >> 8u16) & 0x0F <= 15 && (val >> 4u16) & 0x0F <= 15 && val & 0x0F <= 15)
        by (bit_vector);
    assert(((r * 17) as u8) / 17 == r);
    assert(((g * 17) as u8) / 17 == g);
    assert(((b * 17) as u8) / 17 == b);
    assert(((((val >> 8u16) & 0x0F) << 8u16) | (((val >> 4u16) & 0x0F) << 4u16) | (val & 0x0F))
        == val & 0x0FFF) by (bit_vector);
}

/// A color whose components are multiples of 17 comes back unchanged from
/// packing and unpacking.
pub proof fn lemma_color_u16_roundtrip(c: Color)
    requires
        c.r % 17 == 0,
        c.g % 17 == 0,
        c.b % 17 == 0,
    ensures
        color_of_u16(u16_of_color(c)) == c,
{
    let r = (c.r / 17) as u16;
    let g = (c.g / 17) as u16;
    let b = (c.b / 17) as u16;
    assert(r <= 15 && g <= 15 && b <= 15);
    assert((((r << 8u16) | (g << 4u16) | b) >> 8u16) & 0x0F == r && (((r << 8u16) | (g << 4u16)
        | b) >> 4u16) & 0x0F == g && ((r << 8u16) | (g << 4u16) | b) & 0x0F == b) by (bit_vector)
        requires
            r <= 15 && g <= 15 && b <= 15,
    ;
}

} // verus!
