use vstd::prelude::*;

use crate::image::Rgb;

verus! {
/// Number of colors in the fixed output palette.
pub const PALETTE_LEN: usize = 244;
/// The fixed output palette, as (red, green, blue) triples in declaration order.
/// Indices at or past `PALETTE_LEN` are not part of the palette.
#[verifier::opaque]
pub open spec fn palette_rgb(i: usize) -> (u8, u8, u8) {
    match i {
        0 => (89, 125, 39),
        1 => (109, 153, 48),
        2 => (127, 178, 56),
        3 => (67, 94, 29),
        4 => (174, 164, 115),
        5 => (213, 201, 140),
        6 => (247, 233, 163),
        7 => (130, 123, 86),
        8 => (140, 140, 140),
        9 => (171, 171, 171),
        10 => (199, 199, 199),
        11 => (105, 105, 105),
        12 => (180, 0, 0),
        13 => (220, 0, 0),
        14 => (255, 0, 0),
        15 => (135, 0, 0),
        16 => (112, 112, 180),
        17 => (138, 138, 220),
        18 => (160, 160, 255),
        19 => (84, 84, 135),
        20 => (117, 117, 117),
        21 => (144, 144, 144),
        22 => (167, 167, 167),
        23 => (88, 88, 88),
        24 => (0, 87, 0),
        25 => (0, 106, 0),
        26 => (0, 124, 0),
        27 => (0, 65, 0),
        28 => (180, 180, 180),
        29 => (220, 220, 220),
        30 => (255, 255, 255),
        31 => (135, 135, 135),
        32 => (115, 118, 129),
        33 => (141, 144, 158),
        34 => (164, 168, 184),
        35 => (86, 88, 97),
        36 => (106, 76, 54),
        37 => (130, 94, 66),
        38 => (151, 109, 77),
        39 => (79, 57, 40),
        40 => (79, 79, 79),
        41 => (96, 96, 96),
        42 => (112, 112, 112),
        43 => (59, 59, 59),
        44 => (45, 45, 180),
        45 => (55, 55, 220),
        46 => (64, 64, 255),
        47 => (33, 33, 135),
        48 => (100, 84, 50),
        49 => (123, 102, 62),
        50 => (143, 119, 72),
        51 => (75, 63, 38),
        52 => (180, 177, 172),
        53 => (220, 217, 211),
        54 => (255, 252, 245),
        55 => (135, 133, 129),
        56 => (152, 89, 36),
        57 => (186, 109, 44),
        58 => (216, 127, 51),
        59 => (114, 67, 27),
        60 => (125, 53, 152),
        61 => (153, 65, 186),
        62 => (178, 76, 216),
        63 => (94, 40, 114),
        64 => (72, 108, 152),
        65 => (88, 132, 186),
        66 => (102, 153, 216),
        67 => (54, 81, 114),
        68 => (161, 161, 36),
        69 => (197, 197, 44),
        70 => (229, 229, 51),
        71 => (121, 121, 27),
        72 => (89, 144, 17),
        73 => (109, 176, 21),
        74 => (127, 204, 25),
        75 => (67, 108, 13),
        76 => (170, 89, 116),
        77 => (208, 109, 142),
        78 => (242, 127, 165),
        79 => (128, 67, 87),
        80 => (53, 53, 53),
        81 => (65, 65, 65),
        82 => (76, 76, 76),
        83 => (40, 40, 40),
        84 => (108, 108, 108),
        85 => (132, 132, 132),
        86 => (153, 153, 153),
        87 => (81, 81, 81),
        88 => (53, 89, 108),
        89 => (65, 109, 132),
        90 => (76, 127, 153),
        91 => (40, 67, 81),
        92 => (89, 44, 125),
        93 => (109, 54, 153),
        94 => (127, 63, 178),
        95 => (67, 33, 94),
        96 => (36, 53, 125),
        97 => (44, 65, 153),
        98 => (51, 76, 178),
        99 => (27, 40, 94),
        100 => (72, 53, 36),
        101 => (88, 65, 44),
        102 => (102, 76, 51),
        103 => (54, 40, 27),
        104 => (72, 89, 36),
        105 => (88, 109, 44),
        106 => (102, 127, 51),
        107 => (54, 67, 27),
        108 => (108, 36, 36),
        109 => (132, 44, 44),
        110 => (153, 51, 51),
        111 => (81, 27, 27),
        112 => (17, 17, 17),
        113 => (21, 21, 21),
        114 => (25, 25, 25),
        115 => (13, 13, 13),
        116 => (176, 168, 54),
        117 => (215, 205, 66),
        118 => (250, 238, 77),
        119 => (132, 126, 40),
        120 => (64, 154, 150),
        121 => (79, 188, 183),
        122 => (92, 219, 213),
        123 => (48, 115, 112),
        124 => (52, 90, 180),
        125 => (63, 110, 220),
        126 => (74, 128, 255),
        127 => (39, 67, 135),
        128 => (0, 153, 40),
        129 => (0, 187, 50),
        130 => (0, 217, 58),
        131 => (0, 114, 30),
        132 => (91, 60, 34),
        133 => (111, 74, 42),
        134 => (129, 86, 49),
        135 => (68, 45, 25),
        136 => (79, 1, 0),
        137 => (96, 1, 0),
        138 => (112, 2, 0),
        139 => (59, 1, 0),
        140 => (147, 124, 113),
        141 => (180, 152, 138),
        142 => (209, 177, 161),
        143 => (110, 93, 85),
        144 => (112, 57, 25),
        145 => (137, 70, 31),
        146 => (159, 82, 36),
        147 => (84, 43, 19),
        148 => (105, 61, 76),
        149 => (128, 75, 93),
        150 => (149, 87, 108),
        151 => (78, 46, 57),
        152 => (79, 76, 97),
        153 => (96, 93, 119),
        154 => (112, 108, 138),
        155 => (59, 57, 73),
        156 => (131, 93, 25),
        157 => (160, 114, 31),
        158 => (186, 133, 36),
        159 => (98, 70, 19),
        160 => (72, 82, 37),
        161 => (88, 100, 45),
        162 => (103, 117, 53),
        163 => (54, 61, 28),
        164 => (112, 54, 55),
        165 => (138, 66, 67),
        166 => (160, 77, 78),
        167 => (84, 40, 41),
        168 => (40, 28, 24),
        169 => (49, 35, 30),
        170 => (57, 41, 35),
        171 => (30, 21, 18),
        172 => (95, 75, 69),
        173 => (116, 92, 84),
        174 => (135, 107, 98),
        175 => (71, 56, 51),
        176 => (61, 64, 64),
        177 => (75, 79, 79),
        178 => (87, 92, 92),
        179 => (46, 48, 48),
        180 => (86, 51, 62),
        181 => (105, 62, 75),
        182 => (122, 73, 88),
        183 => (64, 38, 46),
        184 => (53, 43, 64),
        185 => (65, 53, 79),
        186 => (76, 62, 92),
        187 => (40, 32, 48),
        188 => (53, 35, 24),
        189 => (65, 43, 30),
        190 => (76, 50, 35),
        191 => (40, 26, 18),
        192 => (53, 57, 29),
        193 => (65, 70, 36),
        194 => (76, 82, 42),
        195 => (40, 43, 22),
        196 => (100, 42, 32),
        197 => (122, 51, 39),
        198 => (142, 60, 46),
        199 => (75, 31, 24),
        200 => (26, 15, 11),
        201 => (31, 18, 13),
        202 => (37, 22, 16),
        203 => (19, 11, 8),
        204 => (133, 33, 34),
        205 => (163, 41, 42),
        206 => (189, 48, 49),
        207 => (100, 25, 25),
        208 => (104, 44, 68),
        209 => (127, 54, 83),
        210 => (148, 63, 97),
        211 => (78, 33, 51),
        212 => (64, 17, 20),
        213 => (79, 21, 25),
        214 => (92, 25, 29),
        215 => (48, 13, 15),
        216 => (15, 88, 94),
        217 => (18, 108, 115),
        218 => (22, 126, 134),
        219 => (11, 66, 70),
        220 => (40, 100, 98),
        221 => (50, 122, 120),
        222 => (58, 142, 140),
        223 => (30, 75, 74),
        224 => (60, 31, 43),
        225 => (74, 37, 53),
        226 => (86, 44, 62),
        227 => (45, 23, 32),
        228 => (14, 127, 93),
        229 => (17, 155, 114),
        230 => (20, 180, 133),
        231 => (10, 95, 70),
        232 => (70, 70, 70),
        233 => (86, 86, 86),
        234 => (100, 100, 100),
        235 => (52, 52, 52),
        236 => (152, 123, 103),
        237 => (186, 150, 126),
        238 => (216, 175, 147),
        239 => (114, 92, 77),
        240 => (89, 117, 105),
        241 => (109, 144, 129),
        242 => (127, 167, 150),
        243 => (67, 88, 79),
        _ => (0, 0, 0),
    }
}

/// The palette color at index `i`.
pub open spec fn palette_color(i: int) -> Rgb {
    Rgb { r: palette_rgb(i as usize).0, g: palette_rgb(i as usize).1, b: palette_rgb(i as usize).2 }
}

/// Whether `c` is one of the palette's colors.
pub open spec fn in_palette(c: Rgb) -> bool {
    exists|i: int| 0 <= i < PALETTE_LEN && #[trigger] palette_color(i) == c
}

/// Returns the palette color at index `i`.
pub fn palette_entry(i: usize) -> (c: Rgb)
    requires
        i < PALETTE_LEN,
    ensures
        c == palette_color(i as int),
{
    reveal(palette_rgb);
    let (r, g, b): (u8, u8, u8) = match i {
        0 => (89, 125, 39),
        1 => (109, 153, 48),
        2 => (127, 178, 56),
        3 => (67, 94, 29),
        4 => (174, 164, 115),
        5 => (213, 201, 140),
        6 => (247, 233, 163),
        7 => (130, 123, 86),
        8 => (140, 140, 140),
        9 => (171, 171, 171),
        10 => (199, 199, 199),
        11 => (105, 105, 105),
        12 => (180, 0, 0),
        13 => (220, 0, 0),
        14 => (255, 0, 0),
        15 => (135, 0, 0),
        16 => (112, 112, 180),
        17 => (138, 138, 220),
        18 => (160, 160, 255),
        19 => (84, 84, 135),
        20 => (117, 117, 117),
        21 => (144, 144, 144),
        22 => (167, 167, 167),
        23 => (88, 88, 88),
        24 => (0, 87, 0),
        25 => (0, 106, 0),
        26 => (0, 124, 0),
        27 => (0, 65, 0),
        28 => (180, 180, 180),
        29 => (220, 220, 220),
        30 => (255, 255, 255),
        31 => (135, 135, 135),
        32 => (115, 118, 129),
        33 => (141, 144, 158),
        34 => (164, 168, 184),
        35 => (86, 88, 97),
        36 => (106, 76, 54),
        37 => (130, 94, 66),
        38 => (151, 109, 77),
        39 => (79, 57, 40),
        40 => (79, 79, 79),
        41 => (96, 96, 96),
        42 => (112, 112, 112),
        43 => (59, 59, 59),
        44 => (45, 45, 180),
        45 => (55, 55, 220),
        46 => (64, 64, 255),
        47 => (33, 33, 135),
        48 => (100, 84, 50),
        49 => (123, 102, 62),
        50 => (143, 119, 72),
        51 => (75, 63, 38),
        52 => (180, 177, 172),
        53 => (220, 217, 211),
        54 => (255, 252, 245),
        55 => (135, 133, 129),
        56 => (152, 89, 36),
        57 => (186, 109, 44),
        58 => (216, 127, 51),
        59 => (114, 67, 27),
        60 => (125, 53, 152),
        61 => (153, 65, 186),
        62 => (178, 76, 216),
        63 => (94, 40, 114),
        64 => (72, 108, 152),
        65 => (88, 132, 186),
        66 => (102, 153, 216),
        67 => (54, 81, 114),
        68 => (161, 161, 36),
        69 => (197, 197, 44),
        70 => (229, 229, 51),
        71 => (121, 121, 27),
        72 => (89, 144, 17),
        73 => (109, 176, 21),
        74 => (127, 204, 25),
        75 => (67, 108, 13),
        76 => (170, 89, 116),
        77 => (208, 109, 142),
        78 => (242, 127, 165),
        79 => (128, 67, 87),
        80 => (53, 53, 53),
        81 => (65, 65, 65),
        82 => (76, 76, 76),
        83 => (40, 40, 40),
        84 => (108, 108, 108),
        85 => (132, 132, 132),
        86 => (153, 153, 153),
        87 => (81, 81, 81),
        88 => (53, 89, 108),
        89 => (65, 109, 132),
        90 => (76, 127, 153),
        91 => (40, 67, 81),
        92 => (89, 44, 125),
        93 => (109, 54, 153),
        94 => (127, 63, 178),
        95 => (67, 33, 94),
        96 => (36, 53, 125),
        97 => (44, 65, 153),
        98 => (51, 76, 178),
        99 => (27, 40, 94),
        100 => (72, 53, 36),
        101 => (88, 65, 44),
        102 => (102, 76, 51),
        103 => (54, 40, 27),
        104 => (72, 89, 36),
        105 => (88, 109, 44),
        106 => (102, 127, 51),
        107 => (54, 67, 27),
        108 => (108, 36, 36),
        109 => (132, 44, 44),
        110 => (153, 51, 51),
        111 => (81, 27, 27),
        112 => (17, 17, 17),
        113 => (21, 21, 21),
        114 => (25, 25, 25),
        115 => (13, 13, 13),
        116 => (176, 168, 54),
        117 => (215, 205, 66),
        118 => (250, 238, 77),
        119 => (132, 126, 40),
        120 => (64, 154, 150),
        121 => (79, 188, 183),
        122 => (92, 219, 213),
        123 => (48, 115, 112),
        124 => (52, 90, 180),
        125 => (63, 110, 220),
        126 => (74, 128, 255),
        127 => (39, 67, 135),
        128 => (0, 153, 40),
        129 => (0, 187, 50),
        130 => (0, 217, 58),
        131 => (0, 114, 30),
        132 => (91, 60, 34),
        133 => (111, 74, 42),
        134 => (129, 86, 49),
        135 => (68, 45, 25),
        136 => (79, 1, 0),
        137 => (96, 1, 0),
        138 => (112, 2, 0),
        139 => (59, 1, 0),
        140 => (147, 124, 113),
        141 => (180, 152, 138),
        142 => (209, 177, 161),
        143 => (110, 93, 85),
        144 => (112, 57, 25),
        145 => (137, 70, 31),
        146 => (159, 82, 36),
        147 => (84, 43, 19),
        148 => (105, 61, 76),
        149 => (128, 75, 93),
        150 => (149, 87, 108),
        151 => (78, 46, 57),
        152 => (79, 76, 97),
        153 => (96, 93, 119),
        154 => (112, 108, 138),
        155 => (59, 57, 73),
        156 => (131, 93, 25),
        157 => (160, 114, 31),
        158 => (186, 133, 36),
        159 => (98, 70, 19),
        160 => (72, 82, 37),
        161 => (88, 100, 45),
        162 => (103, 117, 53),
        163 => (54, 61, 28),
        164 => (112, 54, 55),
        165 => (138, 66, 67),
        166 => (160, 77, 78),
        167 => (84, 40, 41),
        168 => (40, 28, 24),
        169 => (49, 35, 30),
        170 => (57, 41, 35),
        171 => (30, 21, 18),
        172 => (95, 75, 69),
        173 => (116, 92, 84),
        174 => (135, 107, 98),
        175 => (71, 56, 51),
        176 => (61, 64, 64),
        177 => (75, 79, 79),
        178 => (87, 92, 92),
        179 => (46, 48, 48),
        180 => (86, 51, 62),
        181 => (105, 62, 75),
        182 => (122, 73, 88),
        183 => (64, 38, 46),
        184 => (53, 43, 64),
        185 => (65, 53, 79),
        186 => (76, 62, 92),
        187 => (40, 32, 48),
        188 => (53, 35, 24),
        189 => (65, 43, 30),
        190 => (76, 50, 35),
        191 => (40, 26, 18),
        192 => (53, 57, 29),
        193 => (65, 70, 36),
        194 => (76, 82, 42),
        195 => (40, 43, 22),
        196 => (100, 42, 32),
        197 => (122, 51, 39),
        198 => (142, 60, 46),
        199 => (75, 31, 24),
        200 => (26, 15, 11),
        201 => (31, 18, 13),
        202 => (37, 22, 16),
        203 => (19, 11, 8),
        204 => (133, 33, 34),
        205 => (163, 41, 42),
        206 => (189, 48, 49),
        207 => (100, 25, 25),
        208 => (104, 44, 68),
        209 => (127, 54, 83),
        210 => (148, 63, 97),
        211 => (78, 33, 51),
        212 => (64, 17, 20),
        213 => (79, 21, 25),
        214 => (92, 25, 29),
        215 => (48, 13, 15),
        216 => (15, 88, 94),
        217 => (18, 108, 115),
        218 => (22, 126, 134),
        219 => (11, 66, 70),
        220 => (40, 100, 98),
        221 => (50, 122, 120),
        222 => (58, 142, 140),
        223 => (30, 75, 74),
        224 => (60, 31, 43),
        225 => (74, 37, 53),
        226 => (86, 44, 62),
        227 => (45, 23, 32),
        228 => (14, 127, 93),
        229 => (17, 155, 114),
        230 => (20, 180, 133),
        231 => (10, 95, 70),
        232 => (70, 70, 70),
        233 => (86, 86, 86),
        234 => (100, 100, 100),
        235 => (52, 52, 52),
        236 => (152, 123, 103),
        237 => (186, 150, 126),
        238 => (216, 175, 147),
        239 => (114, 92, 77),
        240 => (89, 117, 105),
        241 => (109, 144, 129),
        242 => (127, 167, 150),
        243 => (67, 88, 79),
        _ => (0, 0, 0),
    };
    Rgb { r, g, b }
}

} // verus!
