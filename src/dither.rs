use vstd::prelude::*;

use crate::bits::{bit_of, with_bit};

verus! {

/// The thermal-compensated darkness of an sRGB grey level: sRGB
/// linearisation combined with a bleed-compensation curve that lightens
/// mid-tones, since a thermal dot spreads (0 = black, 255 = white).
pub open spec fn srgb_to_linear(v: u8) -> u8 {
    match v {
        0 => 0,
        1 => 50,
        2 => 58,
        3 => 63,
        4 => 67,
        5 => 70,
        6 => 72,
        7 => 74,
        8 => 76,
        9 => 78,
        10 => 80,
        11 => 82,
        12 => 83,
        13 => 85,
        14 => 86,
        15 => 88,
        16 => 89,
        17 => 90,
        18 => 92,
        19 => 93,
        20 => 95,
        21 => 96,
        22 => 97,
        23 => 98,
        24 => 100,
        25 => 101,
        26 => 102,
        27 => 103,
        28 => 105,
        29 => 106,
        30 => 107,
        31 => 108,
        32 => 109,
        33 => 110,
        34 => 112,
        35 => 113,
        36 => 114,
        37 => 115,
        38 => 116,
        39 => 117,
        40 => 118,
        41 => 119,
        42 => 120,
        43 => 121,
        44 => 122,
        45 => 123,
        46 => 124,
        47 => 125,
        48 => 126,
        49 => 127,
        50 => 128,
        51 => 129,
        52 => 130,
        53 => 131,
        54 => 132,
        55 => 133,
        56 => 134,
        57 => 135,
        58 => 135,
        59 => 136,
        60 => 137,
        61 => 138,
        62 => 139,
        63 => 140,
        64 => 141,
        65 => 142,
        66 => 142,
        67 => 143,
        68 => 144,
        69 => 145,
        70 => 146,
        71 => 147,
        72 => 148,
        73 => 148,
        74 => 149,
        75 => 150,
        76 => 151,
        77 => 152,
        78 => 152,
        79 => 153,
        80 => 154,
        81 => 155,
        82 => 156,
        83 => 156,
        84 => 157,
        85 => 158,
        86 => 159,
        87 => 159,
        88 => 160,
        89 => 161,
        90 => 162,
        91 => 162,
        92 => 163,
        93 => 164,
        94 => 165,
        95 => 165,
        96 => 166,
        97 => 167,
        98 => 167,
        99 => 168,
        100 => 169,
        101 => 170,
        102 => 170,
        103 => 171,
        104 => 172,
        105 => 172,
        106 => 173,
        107 => 174,
        108 => 174,
        109 => 175,
        110 => 176,
        111 => 177,
        112 => 177,
        113 => 178,
        114 => 179,
        115 => 179,
        116 => 180,
        117 => 181,
        118 => 181,
        119 => 182,
        120 => 183,
        121 => 183,
        122 => 184,
        123 => 184,
        124 => 185,
        125 => 186,
        126 => 186,
        127 => 187,
        128 => 188,
        129 => 188,
        130 => 189,
        131 => 190,
        132 => 190,
        133 => 191,
        134 => 191,
        135 => 192,
        136 => 193,
        137 => 193,
        138 => 194,
        139 => 195,
        140 => 195,
        141 => 196,
        142 => 196,
        143 => 197,
        144 => 198,
        145 => 198,
        146 => 199,
        147 => 199,
        148 => 200,
        149 => 201,
        150 => 201,
        151 => 202,
        152 => 202,
        153 => 203,
        154 => 203,
        155 => 204,
        156 => 205,
        157 => 205,
        158 => 206,
        159 => 206,
        160 => 207,
        161 => 207,
        162 => 208,
        163 => 209,
        164 => 209,
        165 => 210,
        166 => 210,
        167 => 211,
        168 => 211,
        169 => 212,
        170 => 213,
        171 => 213,
        172 => 214,
        173 => 214,
        174 => 215,
        175 => 215,
        176 => 216,
        177 => 216,
        178 => 217,
        179 => 217,
        180 => 218,
        181 => 219,
        182 => 219,
        183 => 220,
        184 => 220,
        185 => 221,
        186 => 221,
        187 => 222,
        188 => 222,
        189 => 223,
        190 => 223,
        191 => 224,
        192 => 224,
        193 => 225,
        194 => 225,
        195 => 226,
        196 => 226,
        197 => 227,
        198 => 227,
        199 => 228,
        200 => 228,
        201 => 229,
        202 => 230,
        203 => 230,
        204 => 231,
        205 => 231,
        206 => 232,
        207 => 232,
        208 => 233,
        209 => 233,
        210 => 234,
        211 => 234,
        212 => 235,
        213 => 235,
        214 => 236,
        215 => 236,
        216 => 237,
        217 => 237,
        218 => 238,
        219 => 238,
        220 => 238,
        221 => 239,
        222 => 239,
        223 => 240,
        224 => 240,
        225 => 241,
        226 => 241,
        227 => 242,
        228 => 242,
        229 => 243,
        230 => 243,
        231 => 244,
        232 => 244,
        233 => 245,
        234 => 245,
        235 => 246,
        236 => 246,
        237 => 247,
        238 => 247,
        239 => 248,
        240 => 248,
        241 => 249,
        242 => 249,
        243 => 249,
        244 => 250,
        245 => 250,
        246 => 251,
        247 => 251,
        248 => 252,
        249 => 252,
        250 => 253,
        251 => 253,
        252 => 254,
        253 => 254,
        254 => 255,
        _ => 255,
    }
}

/// Look up the darkness table.
pub fn srgb_to_linear_value(v: u8) -> (r: u8)
    ensures
        r == srgb_to_linear(v),
{
    match v {
        0 => 0,
        1 => 50,
        2 => 58,
        3 => 63,
        4 => 67,
        5 => 70,
        6 => 72,
        7 => 74,
        8 => 76,
        9 => 78,
        10 => 80,
        11 => 82,
        12 => 83,
        13 => 85,
        14 => 86,
        15 => 88,
        16 => 89,
        17 => 90,
        18 => 92,
        19 => 93,
        20 => 95,
        21 => 96,
        22 => 97,
        23 => 98,
        24 => 100,
        25 => 101,
        26 => 102,
        27 => 103,
        28 => 105,
        29 => 106,
        30 => 107,
        31 => 108,
        32 => 109,
        33 => 110,
        34 => 112,
        35 => 113,
        36 => 114,
        37 => 115,
        38 => 116,
        39 => 117,
        40 => 118,
        41 => 119,
        42 => 120,
        43 => 121,
        44 => 122,
        45 => 123,
        46 => 124,
        47 => 125,
        48 => 126,
        49 => 127,
        50 => 128,
        51 => 129,
        52 => 130,
        53 => 131,
        54 => 132,
        55 => 133,
        56 => 134,
        57 => 135,
        58 => 135,
        59 => 136,
        60 => 137,
        61 => 138,
        62 => 139,
        63 => 140,
        64 => 141,
        65 => 142,
        66 => 142,
        67 => 143,
        68 => 144,
        69 => 145,
        70 => 146,
        71 => 147,
        72 => 148,
        73 => 148,
        74 => 149,
        75 => 150,
        76 => 151,
        77 => 152,
        78 => 152,
        79 => 153,
        80 => 154,
        81 => 155,
        82 => 156,
        83 => 156,
        84 => 157,
        85 => 158,
        86 => 159,
        87 => 159,
        88 => 160,
        89 => 161,
        90 => 162,
        91 => 162,
        92 => 163,
        93 => 164,
        94 => 165,
        95 => 165,
        96 => 166,
        97 => 167,
        98 => 167,
        99 => 168,
        100 => 169,
        101 => 170,
        102 => 170,
        103 => 171,
        104 => 172,
        105 => 172,
        106 => 173,
        107 => 174,
        108 => 174,
        109 => 175,
        110 => 176,
        111 => 177,
        112 => 177,
        113 => 178,
        114 => 179,
        115 => 179,
        116 => 180,
        117 => 181,
        118 => 181,
        119 => 182,
        120 => 183,
        121 => 183,
        122 => 184,
        123 => 184,
        124 => 185,
        125 => 186,
        126 => 186,
        127 => 187,
        128 => 188,
        129 => 188,
        130 => 189,
        131 => 190,
        132 => 190,
        133 => 191,
        134 => 191,
        135 => 192,
        136 => 193,
        137 => 193,
        138 => 194,
        139 => 195,
        140 => 195,
        141 => 196,
        142 => 196,
        143 => 197,
        144 => 198,
        145 => 198,
        146 => 199,
        147 => 199,
        148 => 200,
        149 => 201,
        150 => 201,
        151 => 202,
        152 => 202,
        153 => 203,
        154 => 203,
        155 => 204,
        156 => 205,
        157 => 205,
        158 => 206,
        159 => 206,
        160 => 207,
        161 => 207,
        162 => 208,
        163 => 209,
        164 => 209,
        165 => 210,
        166 => 210,
        167 => 211,
        168 => 211,
        169 => 212,
        170 => 213,
        171 => 213,
        172 => 214,
        173 => 214,
        174 => 215,
        175 => 215,
        176 => 216,
        177 => 216,
        178 => 217,
        179 => 217,
        180 => 218,
        181 => 219,
        182 => 219,
        183 => 220,
        184 => 220,
        185 => 221,
        186 => 221,
        187 => 222,
        188 => 222,
        189 => 223,
        190 => 223,
        191 => 224,
        192 => 224,
        193 => 225,
        194 => 225,
        195 => 226,
        196 => 226,
        197 => 227,
        198 => 227,
        199 => 228,
        200 => 228,
        201 => 229,
        202 => 230,
        203 => 230,
        204 => 231,
        205 => 231,
        206 => 232,
        207 => 232,
        208 => 233,
        209 => 233,
        210 => 234,
        211 => 234,
        212 => 235,
        213 => 235,
        214 => 236,
        215 => 236,
        216 => 237,
        217 => 237,
        218 => 238,
        219 => 238,
        220 => 238,
        221 => 239,
        222 => 239,
        223 => 240,
        224 => 240,
        225 => 241,
        226 => 241,
        227 => 242,
        228 => 242,
        229 => 243,
        230 => 243,
        231 => 244,
        232 => 244,
        233 => 245,
        234 => 245,
        235 => 246,
        236 => 246,
        237 => 247,
        238 => 247,
        239 => 248,
        240 => 248,
        241 => 249,
        242 => 249,
        243 => 249,
        244 => 250,
        245 => 250,
        246 => 251,
        247 => 251,
        248 => 252,
        249 => 252,
        250 => 253,
        251 => 253,
        252 => 254,
        253 => 254,
        254 => 255,
        _ => 255,
    }
}

/// The 4x4 Bayer ordered-dither threshold matrix, scaled to 0..255.
pub open spec fn bayer4(row: int, col: int) -> u8 {
    if row == 0 {
        if col == 0 { 8 } else if col == 1 { 136 } else if col == 2 { 40 } else { 168 }
    } else if row == 1 {
        if col == 0 { 200 } else if col == 1 { 72 } else if col == 2 { 232 } else { 104 }
    } else if row == 2 {
        if col == 0 { 56 } else if col == 1 { 184 } else if col == 2 { 24 } else { 152 }
    } else {
        if col == 0 { 248 } else if col == 1 { 120 } else if col == 2 { 216 } else { 88 }
    }
}

/// Look up the threshold matrix.
pub fn bayer4_value(row: u32, col: u32) -> (r: u8)
    requires
        row < 4,
        col < 4,
    ensures
        r == bayer4(row as int, col as int),
{
    if row == 0 {
        if col == 0 { 8 } else if col == 1 { 136 } else if col == 2 { 40 } else { 168 }
    } else if row == 1 {
        if col == 0 { 200 } else if col == 1 { 72 } else if col == 2 { 232 } else { 104 }
    } else if row == 2 {
        if col == 0 { 56 } else if col == 1 { 184 } else if col == 2 { 24 } else { 152 }
    } else {
        if col == 0 { 248 } else if col == 1 { 120 } else if col == 2 { 216 } else { 88 }
    }
}

/// Whether output pixel `p` of a dithered line is black: the line is
/// mirrored, so it comes from input pixel `width - 1 - p`.
pub open spec fn dither_dot(line: Seq<u8>, width: int, y: int, p: int) -> bool {
    srgb_to_linear(line[width - 1 - p]) < bayer4(y % 4, p % 4)
}

/// Dither one 8-bit grey line to 1 bpp MSB-first, mirrored horizontally,
/// by ordered dithering with the row `y % 4` of the Bayer matrix. Black
/// pixels are set in `mono`; no bit is cleared, so `mono` should start out
/// zeroed.
pub fn dither_line(line: &[u8], width: u32, y: u32, mono: &mut [u8])
    requires
        line@.len() >= width,
        old(mono)@.len() >= (width as int + 7) / 8,
    ensures
        final(mono)@.len() == old(mono)@.len(),
        forall|k: int, b: u8|
            0 <= k < old(mono)@.len() && b < 8 ==> #[trigger] bit_of(final(mono)@[k], b) == (bit_of(old(mono)@[k], b) || (
            8 * k + 7 - b < width && dither_dot(line@, width as int, y as int, 8 * k + 7 - b))),
{
    let row = y % 4;
    let mut x: u32 = 0;
    while x < width
        invariant
            x <= width,
            line@.len() >= width,
            row == y % 4,
            mono@.len() == old(mono)@.len(),
            old(mono)@.len() >= (width as int + 7) / 8,
            forall|k: int, b: u8|
                0 <= k < mono@.len() && b < 8 ==> #[trigger] bit_of(mono@[k], b) == (bit_of(old(mono)@[k], b) || (
                width - x <= 8 * k + 7 - b < width && dither_dot(line@, width as int, y as int, 8 * k + 7 - b))),
        decreases width - x,
    {
        let mx: u32 = width - 1 - x;
        let lin = srgb_to_linear_value(line[x as usize]);
        if lin < bayer4_value(row, mx % 4) {
            let k: usize = (mx / 8) as usize;
            let b: u8 = 7 - (mx % 8) as u8;
            let ghost before = mono@;
            let v = with_bit(mono[k], b);
            mono[k] = v;
            proof {
                assert forall|kk: int, bb: u8|
                    0 <= kk < mono@.len() && bb < 8 implies #[trigger] bit_of(mono@[kk], bb) == (bit_of(old(mono)@[kk], bb)
                    || (width - (x + 1) <= 8 * kk + 7 - bb < width && dither_dot(line@, width as int, y as int, 8 * kk + 7 - bb))) by {
                    if kk == k as int {
                        assert(bit_of(mono@[kk], bb) == (bit_of(before[kk], bb) || bb == b));
                    }
                    assert(8 * kk + 7 - bb == mx <==> (kk == k as int && bb == b));
                }
            }
        } else {
            proof {
                assert forall|kk: int, bb: u8|
                    0 <= kk < mono@.len() && bb < 8 implies #[trigger] bit_of(mono@[kk], bb) == (bit_of(old(mono)@[kk], bb)
                    || (width - (x + 1) <= 8 * kk + 7 - bb < width && dither_dot(line@, width as int, y as int, 8 * kk + 7 - bb))) by {
                    if 8 * kk + 7 - bb == mx {
                        assert(!dither_dot(line@, width as int, y as int, mx as int));
                    }
                }
            }
        }
        x = x + 1;
    }
}

} // verus!
