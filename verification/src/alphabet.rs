//! The fixed glyph alphabet, the hue permanently tied to each glyph,
//! and the colour mapping that renders a cell's numeric state.

use vstd::prelude::*;
use vstd::string::StringExecFns;

verus! {

/// Number of glyphs in the alphabet.
pub const ALPHABET_LEN: usize = 20;

/// The fixed, ordered alphabet of 20 glyphs.
pub open spec fn alphabet() -> Seq<char> {
    seq![
        '凧', '矢', '日', '星', '空', '風', '雨', '雪', '山', '川',
        '火', '水', '木', '金', '土', '月', '花', '鳥', '魚', '龍',
    ]
}

/// The hue tied to a glyph, in degrees on the colour wheel: the glyphs
/// take the 20 evenly spaced hues 0, 18, ..., 342 in alphabet order,
/// and any character outside the alphabet falls back to hue 0.
pub open spec fn hue_spec(c: char) -> u32 {
    match c {
        '凧' => 0,
        '矢' => 18,
        '日' => 36,
        '星' => 54,
        '空' => 72,
        '風' => 90,
        '雨' => 108,
        '雪' => 126,
        '山' => 144,
        '川' => 162,
        '火' => 180,
        '水' => 198,
        '木' => 216,
        '金' => 234,
        '土' => 252,
        '月' => 270,
        '花' => 288,
        '鳥' => 306,
        '魚' => 324,
        '龍' => 342,
        _ => 0,
    }
}

/// The glyph at a given position of the alphabet.
pub fn symbol_at(k: usize) -> (c: char)
    requires
        k < 20,
    ensures
        c == alphabet()[k as int],
{
    match k {
        0 => '凧',
        1 => '矢',
        2 => '日',
        3 => '星',
        4 => '空',
        5 => '風',
        6 => '雨',
        7 => '雪',
        8 => '山',
        9 => '川',
        10 => '火',
        11 => '水',
        12 => '木',
        13 => '金',
        14 => '土',
        15 => '月',
        16 => '花',
        17 => '鳥',
        18 => '魚',
        _ => '龍',
    }
}

/// The hue for a character: its table entry, and 0 for any character
/// outside the closed alphabet (the defensive fallback — it never
/// fires on a well-formed grid).
pub fn get_hue_for_char(c: char) -> (h: u32)
    ensures
        h == hue_spec(c),
{
    match c {
        '凧' => 0,
        '矢' => 18,
        '日' => 36,
        '星' => 54,
        '空' => 72,
        '風' => 90,
        '雨' => 108,
        '雪' => 126,
        '山' => 144,
        '川' => 162,
        '火' => 180,
        '水' => 198,
        '木' => 216,
        '金' => 234,
        '土' => 252,
        '月' => 270,
        '花' => 288,
        '鳥' => 306,
        '魚' => 324,
        '龍' => 342,
        _ => 0,
    }
}

/// The decimal digit characters.
pub open spec fn digit_char(d: int) -> char {
    if d == 0 {
        '0'
    } else if d == 1 {
        '1'
    } else if d == 2 {
        '2'
    } else if d == 3 {
        '3'
    } else if d == 4 {
        '4'
    } else if d == 5 {
        '5'
    } else if d == 6 {
        '6'
    } else if d == 7 {
        '7'
    } else if d == 8 {
        '8'
    } else {
        '9'
    }
}

/// Decimal rendering of a number below 1000, without leading zeroes —
/// enough for every hue on the colour wheel.
pub open spec fn decimal_text(n: int) -> Seq<char> {
    if n < 10 {
        seq![digit_char(n)]
    } else if n < 100 {
        seq![digit_char(n / 10), digit_char(n % 10)]
    } else {
        seq![digit_char(n / 100), digit_char((n / 10) % 10), digit_char(n % 10)]
    }
}

/// The decimal rendering of a character's hue, as the colour string
/// carries it.
pub fn get_hue_text_for_char(c: char) -> (s: &'static str)
    ensures
        s@ == decimal_text(hue_spec(c) as int),
{
    proof {
        reveal_strlit("0");
        reveal_strlit("18");
        reveal_strlit("36");
        reveal_strlit("54");
        reveal_strlit("72");
        reveal_strlit("90");
        reveal_strlit("108");
        reveal_strlit("126");
        reveal_strlit("144");
        reveal_strlit("162");
        reveal_strlit("180");
        reveal_strlit("198");
        reveal_strlit("216");
        reveal_strlit("234");
        reveal_strlit("252");
        reveal_strlit("270");
        reveal_strlit("288");
        reveal_strlit("306");
        reveal_strlit("324");
        reveal_strlit("342");
        assert("0"@ =~= decimal_text(0));
        assert("18"@ =~= decimal_text(18));
        assert("36"@ =~= decimal_text(36));
        assert("54"@ =~= decimal_text(54));
        assert("72"@ =~= decimal_text(72));
        assert("90"@ =~= decimal_text(90));
        assert("108"@ =~= decimal_text(108));
        assert("126"@ =~= decimal_text(126));
        assert("144"@ =~= decimal_text(144));
        assert("162"@ =~= decimal_text(162));
        assert("180"@ =~= decimal_text(180));
        assert("198"@ =~= decimal_text(198));
        assert("216"@ =~= decimal_text(216));
        assert("234"@ =~= decimal_text(234));
        assert("252"@ =~= decimal_text(252));
        assert("270"@ =~= decimal_text(270));
        assert("288"@ =~= decimal_text(288));
        assert("306"@ =~= decimal_text(306));
        assert("324"@ =~= decimal_text(324));
        assert("342"@ =~= decimal_text(342));
    }
    match c {
        '凧' => "0",
        '矢' => "18",
        '日' => "36",
        '星' => "54",
        '空' => "72",
        '風' => "90",
        '雨' => "108",
        '雪' => "126",
        '山' => "144",
        '川' => "162",
        '火' => "180",
        '水' => "198",
        '木' => "216",
        '金' => "234",
        '土' => "252",
        '月' => "270",
        '花' => "288",
        '鳥' => "306",
        '魚' => "324",
        '龍' => "342",
        _ => "0",
    }
}

/// The character's display colour, as an `hsl(hue, saturation%,
/// lightness%)` string. The hue is exactly the glyph's table value,
/// whatever the factor behind the two rendered percentages; saturation
/// and lightness arrive already rendered by the caller (they are
/// affine images of the combined colour factor) and are embedded
/// verbatim, deliberately unclamped.
pub fn get_color_for_char(c: char, saturation: &str, lightness: &str) -> (color: String)
    ensures
        color@ == "hsl("@ + decimal_text(hue_spec(c) as int) + ", "@ + saturation@ + "%, "@
            + lightness@ + "%)"@,
{
    let mut color = String::from_str("hsl(");
    color.append(get_hue_text_for_char(c));
    color.append(", ");
    color.append(saturation);
    color.append("%, ");
    color.append(lightness);
    color.append("%)");
    color
}

/// The hues are evenly spaced: the glyph at position `k` of the
/// alphabet carries hue `18 * k`.
pub proof fn lemma_hues_evenly_spaced()
    ensures
        forall|k: int| 0 <= k < 20 ==> hue_spec(#[trigger] alphabet()[k]) == 18 * k,
{
    assert forall|k: int| 0 <= k < 20 implies hue_spec(#[trigger] alphabet()[k]) == 18 * k by {
        if k == 0 {
            assert(alphabet()[0] == '凧');
        }
    }
}

/// The 20 glyphs of the alphabet are pairwise distinct.
pub proof fn lemma_alphabet_distinct()
    ensures
        forall|i: int, j: int| 0 <= i < j < 20 ==> #[trigger] alphabet()[i] != #[trigger] alphabet()[j],
{
}

} // verus!
