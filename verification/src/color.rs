//! Colors by name and in hexadecimal.
use vstd::prelude::*;
use vstd::slice::slice_subrange;

use crate::number;
use crate::number::read_hex_pair;
use crate::text;
use crate::text::{chars_of, text_eq, trimmed};

verus! {

/// A letter of the Latin alphabet in lower case; other characters as they are.
pub open spec fn lower(c: char) -> char {
    if 'A' <= c <= 'Z' {
        (c as u8 + 32) as char
    } else {
        c
    }
}

/// A text with its letters in lower case.
pub open spec fn lowered(s: Seq<char>) -> Seq<char> {
    s.map_values(|c: char| lower(c))
}

fn lowered_of(v: &[char]) -> (r: Vec<char>)
    ensures
        r@ == lowered(v@),
{
    let mut r: Vec<char> = Vec::new();
    let mut i: usize = 0;
    while i < v.len()
        invariant
            i <= v@.len(),
            r@ =~= lowered(v@.take(i as int)),
        decreases v@.len() - i,
    {
        let c: char = v[i];
        r.push(
            if 'A' <= c && c <= 'Z' {
                (c as u8 + 32) as char
            } else {
                c
            },
        );
        i = i + 1;
    }
    assert(v@.take(i as int) =~= v@);
    r
}

/// The colors whose names begin with a to c.
pub open spec fn rgb_a_to_c(name: Seq<char>) -> Option<(u8, u8, u8)> {
    if name == "aliceblue"@ {
        Some((240, 248, 255))
    } else if name == "antiquewhite"@ {
        Some((250, 235, 215))
    } else if name == "aqua"@ {
        Some((0, 255, 255))
    } else if name == "aquamarine"@ {
        Some((127, 255, 212))
    } else if name == "azure"@ {
        Some((240, 255, 255))
    } else if name == "beige"@ {
        Some((245, 245, 220))
    } else if name == "bisque"@ {
        Some((255, 228, 196))
    } else if name == "black"@ {
        Some((0, 0, 0))
    } else if name == "blanchedalmond"@ {
        Some((255, 235, 205))
    } else if name == "blue"@ {
        Some((0, 0, 255))
    } else if name == "blueviolet"@ {
        Some((138, 43, 226))
    } else if name == "brown"@ {
        Some((165, 42, 42))
    } else if name == "burlywood"@ {
        Some((222, 184, 135))
    } else if name == "cadetblue"@ {
        Some((95, 158, 160))
    } else if name == "chartreuse"@ {
        Some((127, 255, 0))
    } else if name == "chocolate"@ {
        Some((210, 105, 30))
    } else if name == "coral"@ {
        Some((255, 127, 80))
    } else if name == "cornflowerblue"@ {
        Some((100, 149, 237))
    } else if name == "cornsilk"@ {
        Some((255, 248, 220))
    } else if name == "crimson"@ {
        Some((220, 20, 60))
    } else if name == "cyan"@ {
        Some((0, 255, 255))
    } else {
        None
    }
}

fn find_rgb_a_to_c(name: &[char]) -> (r: Option<(u8, u8, u8)>)
    ensures
        r == rgb_a_to_c(name@),
{
    if text_eq(name, "aliceblue") {
        Some((240, 248, 255))
    } else if text_eq(name, "antiquewhite") {
        Some((250, 235, 215))
    } else if text_eq(name, "aqua") {
        Some((0, 255, 255))
    } else if text_eq(name, "aquamarine") {
        Some((127, 255, 212))
    } else if text_eq(name, "azure") {
        Some((240, 255, 255))
    } else if text_eq(name, "beige") {
        Some((245, 245, 220))
    } else if text_eq(name, "bisque") {
        Some((255, 228, 196))
    } else if text_eq(name, "black") {
        Some((0, 0, 0))
    } else if text_eq(name, "blanchedalmond") {
        Some((255, 235, 205))
    } else if text_eq(name, "blue") {
        Some((0, 0, 255))
    } else if text_eq(name, "blueviolet") {
        Some((138, 43, 226))
    } else if text_eq(name, "brown") {
        Some((165, 42, 42))
    } else if text_eq(name, "burlywood") {
        Some((222, 184, 135))
    } else if text_eq(name, "cadetblue") {
        Some((95, 158, 160))
    } else if text_eq(name, "chartreuse") {
        Some((127, 255, 0))
    } else if text_eq(name, "chocolate") {
        Some((210, 105, 30))
    } else if text_eq(name, "coral") {
        Some((255, 127, 80))
    } else if text_eq(name, "cornflowerblue") {
        Some((100, 149, 237))
    } else if text_eq(name, "cornsilk") {
        Some((255, 248, 220))
    } else if text_eq(name, "crimson") {
        Some((220, 20, 60))
    } else if text_eq(name, "cyan") {
        Some((0, 255, 255))
    } else {
        None
    }
}

/// The colors whose names begin with d.
pub open spec fn rgb_d(name: Seq<char>) -> Option<(u8, u8, u8)> {
    if name == "darkblue"@ {
        Some((0, 0, 139))
    } else if name == "darkcyan"@ {
        Some((0, 139, 139))
    } else if name == "darkgoldenrod"@ {
        Some((184, 134, 11))
    } else if name == "darkgray"@ {
        Some((169, 169, 169))
    } else if name == "darkgreen"@ {
        Some((0, 100, 0))
    } else if name == "darkgrey"@ {
        Some((169, 169, 169))
    } else if name == "darkkhaki"@ {
        Some((189, 183, 107))
    } else if name == "darkmagenta"@ {
        Some((139, 0, 139))
    } else if name == "darkolivegreen"@ {
        Some((85, 107, 47))
    } else if name == "darkorange"@ {
        Some((255, 140, 0))
    } else if name == "darkorchid"@ {
        Some((153, 50, 204))
    } else if name == "darkred"@ {
        Some((139, 0, 0))
    } else if name == "darksalmon"@ {
        Some((233, 150, 122))
    } else if name == "darkseagreen"@ {
        Some((143, 188, 143))
    } else if name == "darkslateblue"@ {
        Some((72, 61, 139))
    } else if name == "darkslategray"@ {
        Some((47, 79, 79))
    } else if name == "darkslategrey"@ {
        Some((47, 79, 79))
    } else if name == "darkturquoise"@ {
        Some((0, 206, 209))
    } else if name == "darkviolet"@ {
        Some((148, 0, 211))
    } else if name == "deeppink"@ {
        Some((255, 20, 147))
    } else if name == "deepskyblue"@ {
        Some((0, 191, 255))
    } else if name == "dimgray"@ {
        Some((105, 105, 105))
    } else if name == "dimgrey"@ {
        Some((105, 105, 105))
    } else if name == "dodgerblue"@ {
        Some((30, 144, 255))
    } else {
        None
    }
}

fn find_rgb_d(name: &[char]) -> (r: Option<(u8, u8, u8)>)
    ensures
        r == rgb_d(name@),
{
    if text_eq(name, "darkblue") {
        Some((0, 0, 139))
    } else if text_eq(name, "darkcyan") {
        Some((0, 139, 139))
    } else if text_eq(name, "darkgoldenrod") {
        Some((184, 134, 11))
    } else if text_eq(name, "darkgray") {
        Some((169, 169, 169))
    } else if text_eq(name, "darkgreen") {
        Some((0, 100, 0))
    } else if text_eq(name, "darkgrey") {
        Some((169, 169, 169))
    } else if text_eq(name, "darkkhaki") {
        Some((189, 183, 107))
    } else if text_eq(name, "darkmagenta") {
        Some((139, 0, 139))
    } else if text_eq(name, "darkolivegreen") {
        Some((85, 107, 47))
    } else if text_eq(name, "darkorange") {
        Some((255, 140, 0))
    } else if text_eq(name, "darkorchid") {
        Some((153, 50, 204))
    } else if text_eq(name, "darkred") {
        Some((139, 0, 0))
    } else if text_eq(name, "darksalmon") {
        Some((233, 150, 122))
    } else if text_eq(name, "darkseagreen") {
        Some((143, 188, 143))
    } else if text_eq(name, "darkslateblue") {
        Some((72, 61, 139))
    } else if text_eq(name, "darkslategray") {
        Some((47, 79, 79))
    } else if text_eq(name, "darkslategrey") {
        Some((47, 79, 79))
    } else if text_eq(name, "darkturquoise") {
        Some((0, 206, 209))
    } else if text_eq(name, "darkviolet") {
        Some((148, 0, 211))
    } else if text_eq(name, "deeppink") {
        Some((255, 20, 147))
    } else if text_eq(name, "deepskyblue") {
        Some((0, 191, 255))
    } else if text_eq(name, "dimgray") {
        Some((105, 105, 105))
    } else if text_eq(name, "dimgrey") {
        Some((105, 105, 105))
    } else if text_eq(name, "dodgerblue") {
        Some((30, 144, 255))
    } else {
        None
    }
}

/// The colors whose names begin with e to k.
pub open spec fn rgb_e_to_k(name: Seq<char>) -> Option<(u8, u8, u8)> {
    if name == "firebrick"@ {
        Some((178, 34, 34))
    } else if name == "floralwhite"@ {
        Some((255, 250, 240))
    } else if name == "forestgreen"@ {
        Some((34, 139, 34))
    } else if name == "fuchsia"@ {
        Some((255, 0, 255))
    } else if name == "gainsboro"@ {
        Some((220, 220, 220))
    } else if name == "ghostwhite"@ {
        Some((248, 248, 255))
    } else if name == "gold"@ {
        Some((255, 215, 0))
    } else if name == "goldenrod"@ {
        Some((218, 165, 32))
    } else if name == "gray"@ {
        Some((128, 128, 128))
    } else if name == "green"@ {
        Some((0, 128, 0))
    } else if name == "greenyellow"@ {
        Some((173, 255, 47))
    } else if name == "grey"@ {
        Some((128, 128, 128))
    } else if name == "honeydew"@ {
        Some((240, 255, 240))
    } else if name == "hotpink"@ {
        Some((255, 105, 180))
    } else if name == "indianred"@ {
        Some((205, 92, 92))
    } else if name == "indigo"@ {
        Some((75, 0, 130))
    } else if name == "ivory"@ {
        Some((255, 255, 240))
    } else if name == "khaki"@ {
        Some((240, 230, 140))
    } else {
        None
    }
}

fn find_rgb_e_to_k(name: &[char]) -> (r: Option<(u8, u8, u8)>)
    ensures
        r == rgb_e_to_k(name@),
{
    if text_eq(name, "firebrick") {
        Some((178, 34, 34))
    } else if text_eq(name, "floralwhite") {
        Some((255, 250, 240))
    } else if text_eq(name, "forestgreen") {
        Some((34, 139, 34))
    } else if text_eq(name, "fuchsia") {
        Some((255, 0, 255))
    } else if text_eq(name, "gainsboro") {
        Some((220, 220, 220))
    } else if text_eq(name, "ghostwhite") {
        Some((248, 248, 255))
    } else if text_eq(name, "gold") {
        Some((255, 215, 0))
    } else if text_eq(name, "goldenrod") {
        Some((218, 165, 32))
    } else if text_eq(name, "gray") {
        Some((128, 128, 128))
    } else if text_eq(name, "green") {
        Some((0, 128, 0))
    } else if text_eq(name, "greenyellow") {
        Some((173, 255, 47))
    } else if text_eq(name, "grey") {
        Some((128, 128, 128))
    } else if text_eq(name, "honeydew") {
        Some((240, 255, 240))
    } else if text_eq(name, "hotpink") {
        Some((255, 105, 180))
    } else if text_eq(name, "indianred") {
        Some((205, 92, 92))
    } else if text_eq(name, "indigo") {
        Some((75, 0, 130))
    } else if text_eq(name, "ivory") {
        Some((255, 255, 240))
    } else if text_eq(name, "khaki") {
        Some((240, 230, 140))
    } else {
        None
    }
}

/// The colors whose names begin with l.
pub open spec fn rgb_l(name: Seq<char>) -> Option<(u8, u8, u8)> {
    if name == "lavender"@ {
        Some((230, 230, 250))
    } else if name == "lavenderblush"@ {
        Some((255, 240, 245))
    } else if name == "lawngreen"@ {
        Some((124, 252, 0))
    } else if name == "lemonchiffon"@ {
        Some((255, 250, 205))
    } else if name == "lightblue"@ {
        Some((173, 216, 230))
    } else if name == "lightcoral"@ {
        Some((240, 128, 128))
    } else if name == "lightcyan"@ {
        Some((224, 255, 255))
    } else if name == "lightgoldenrodyellow"@ {
        Some((250, 250, 210))
    } else if name == "lightgray"@ {
        Some((211, 211, 211))
    } else if name == "lightgreen"@ {
        Some((144, 238, 144))
    } else if name == "lightgrey"@ {
        Some((211, 211, 211))
    } else if name == "lightpink"@ {
        Some((255, 182, 193))
    } else if name == "lightsalmon"@ {
        Some((255, 160, 122))
    } else if name == "lightseagreen"@ {
        Some((32, 178, 170))
    } else if name == "lightskyblue"@ {
        Some((135, 206, 250))
    } else if name == "lightslategray"@ {
        Some((119, 136, 153))
    } else if name == "lightslategrey"@ {
        Some((119, 136, 153))
    } else if name == "lightsteelblue"@ {
        Some((176, 196, 222))
    } else if name == "lightyellow"@ {
        Some((255, 255, 224))
    } else if name == "lime"@ {
        Some((0, 255, 0))
    } else if name == "limegreen"@ {
        Some((50, 205, 50))
    } else if name == "linen"@ {
        Some((250, 240, 230))
    } else {
        None
    }
}

fn find_rgb_l(name: &[char]) -> (r: Option<(u8, u8, u8)>)
    ensures
        r == rgb_l(name@),
{
    if text_eq(name, "lavender") {
        Some((230, 230, 250))
    } else if text_eq(name, "lavenderblush") {
        Some((255, 240, 245))
    } else if text_eq(name, "lawngreen") {
        Some((124, 252, 0))
    } else if text_eq(name, "lemonchiffon") {
        Some((255, 250, 205))
    } else if text_eq(name, "lightblue") {
        Some((173, 216, 230))
    } else if text_eq(name, "lightcoral") {
        Some((240, 128, 128))
    } else if text_eq(name, "lightcyan") {
        Some((224, 255, 255))
    } else if text_eq(name, "lightgoldenrodyellow") {
        Some((250, 250, 210))
    } else if text_eq(name, "lightgray") {
        Some((211, 211, 211))
    } else if text_eq(name, "lightgreen") {
        Some((144, 238, 144))
    } else if text_eq(name, "lightgrey") {
        Some((211, 211, 211))
    } else if text_eq(name, "lightpink") {
        Some((255, 182, 193))
    } else if text_eq(name, "lightsalmon") {
        Some((255, 160, 122))
    } else if text_eq(name, "lightseagreen") {
        Some((32, 178, 170))
    } else if text_eq(name, "lightskyblue") {
        Some((135, 206, 250))
    } else if text_eq(name, "lightslategray") {
        Some((119, 136, 153))
    } else if text_eq(name, "lightslategrey") {
        Some((119, 136, 153))
    } else if text_eq(name, "lightsteelblue") {
        Some((176, 196, 222))
    } else if text_eq(name, "lightyellow") {
        Some((255, 255, 224))
    } else if text_eq(name, "lime") {
        Some((0, 255, 0))
    } else if text_eq(name, "limegreen") {
        Some((50, 205, 50))
    } else if text_eq(name, "linen") {
        Some((250, 240, 230))
    } else {
        None
    }
}

/// The colors whose names begin with m.
pub open spec fn rgb_m(name: Seq<char>) -> Option<(u8, u8, u8)> {
    if name == "magenta"@ {
        Some((255, 0, 255))
    } else if name == "maroon"@ {
        Some((128, 0, 0))
    } else if name == "mediumaquamarine"@ {
        Some((102, 205, 170))
    } else if name == "mediumblue"@ {
        Some((0, 0, 205))
    } else if name == "mediumorchid"@ {
        Some((186, 85, 211))
    } else if name == "mediumpurple"@ {
        Some((147, 112, 219))
    } else if name == "mediumseagreen"@ {
        Some((60, 179, 113))
    } else if name == "mediumslateblue"@ {
        Some((123, 104, 238))
    } else if name == "mediumspringgreen"@ {
        Some((0, 250, 154))
    } else if name == "mediumturquoise"@ {
        Some((72, 209, 204))
    } else if name == "mediumvioletred"@ {
        Some((199, 21, 133))
    } else if name == "midnightblue"@ {
        Some((25, 25, 112))
    } else if name == "mintcream"@ {
        Some((245, 255, 250))
    } else if name == "mistyrose"@ {
        Some((255, 228, 225))
    } else if name == "moccasin"@ {
        Some((255, 228, 181))
    } else {
        None
    }
}

fn find_rgb_m(name: &[char]) -> (r: Option<(u8, u8, u8)>)
    ensures
        r == rgb_m(name@),
{
    if text_eq(name, "magenta") {
        Some((255, 0, 255))
    } else if text_eq(name, "maroon") {
        Some((128, 0, 0))
    } else if text_eq(name, "mediumaquamarine") {
        Some((102, 205, 170))
    } else if text_eq(name, "mediumblue") {
        Some((0, 0, 205))
    } else if text_eq(name, "mediumorchid") {
        Some((186, 85, 211))
    } else if text_eq(name, "mediumpurple") {
        Some((147, 112, 219))
    } else if text_eq(name, "mediumseagreen") {
        Some((60, 179, 113))
    } else if text_eq(name, "mediumslateblue") {
        Some((123, 104, 238))
    } else if text_eq(name, "mediumspringgreen") {
        Some((0, 250, 154))
    } else if text_eq(name, "mediumturquoise") {
        Some((72, 209, 204))
    } else if text_eq(name, "mediumvioletred") {
        Some((199, 21, 133))
    } else if text_eq(name, "midnightblue") {
        Some((25, 25, 112))
    } else if text_eq(name, "mintcream") {
        Some((245, 255, 250))
    } else if text_eq(name, "mistyrose") {
        Some((255, 228, 225))
    } else if text_eq(name, "moccasin") {
        Some((255, 228, 181))
    } else {
        None
    }
}

/// The colors whose names begin with n to q.
pub open spec fn rgb_n_to_q(name: Seq<char>) -> Option<(u8, u8, u8)> {
    if name == "navajowhite"@ {
        Some((255, 222, 173))
    } else if name == "navy"@ {
        Some((0, 0, 128))
    } else if name == "oldlace"@ {
        Some((253, 245, 230))
    } else if name == "olive"@ {
        Some((128, 128, 0))
    } else if name == "olivedrab"@ {
        Some((107, 142, 35))
    } else if name == "orange"@ {
        Some((255, 165, 0))
    } else if name == "orangered"@ {
        Some((255, 69, 0))
    } else if name == "orchid"@ {
        Some((218, 112, 214))
    } else if name == "palegoldenrod"@ {
        Some((238, 232, 170))
    } else if name == "palegreen"@ {
        Some((152, 251, 152))
    } else if name == "paleturquoise"@ {
        Some((175, 238, 238))
    } else if name == "palevioletred"@ {
        Some((219, 112, 147))
    } else if name == "papayawhip"@ {
        Some((255, 239, 213))
    } else if name == "peachpuff"@ {
        Some((255, 218, 185))
    } else if name == "peru"@ {
        Some((205, 133, 63))
    } else if name == "pink"@ {
        Some((255, 192, 203))
    } else if name == "plum"@ {
        Some((221, 160, 221))
    } else if name == "powderblue"@ {
        Some((176, 224, 230))
    } else if name == "purple"@ {
        Some((128, 0, 128))
    } else {
        None
    }
}

fn find_rgb_n_to_q(name: &[char]) -> (r: Option<(u8, u8, u8)>)
    ensures
        r == rgb_n_to_q(name@),
{
    if text_eq(name, "navajowhite") {
        Some((255, 222, 173))
    } else if text_eq(name, "navy") {
        Some((0, 0, 128))
    } else if text_eq(name, "oldlace") {
        Some((253, 245, 230))
    } else if text_eq(name, "olive") {
        Some((128, 128, 0))
    } else if text_eq(name, "olivedrab") {
        Some((107, 142, 35))
    } else if text_eq(name, "orange") {
        Some((255, 165, 0))
    } else if text_eq(name, "orangered") {
        Some((255, 69, 0))
    } else if text_eq(name, "orchid") {
        Some((218, 112, 214))
    } else if text_eq(name, "palegoldenrod") {
        Some((238, 232, 170))
    } else if text_eq(name, "palegreen") {
        Some((152, 251, 152))
    } else if text_eq(name, "paleturquoise") {
        Some((175, 238, 238))
    } else if text_eq(name, "palevioletred") {
        Some((219, 112, 147))
    } else if text_eq(name, "papayawhip") {
        Some((255, 239, 213))
    } else if text_eq(name, "peachpuff") {
        Some((255, 218, 185))
    } else if text_eq(name, "peru") {
        Some((205, 133, 63))
    } else if text_eq(name, "pink") {
        Some((255, 192, 203))
    } else if text_eq(name, "plum") {
        Some((221, 160, 221))
    } else if text_eq(name, "powderblue") {
        Some((176, 224, 230))
    } else if text_eq(name, "purple") {
        Some((128, 0, 128))
    } else {
        None
    }
}

/// The colors whose names begin with r to z.
pub open spec fn rgb_r_to_z(name: Seq<char>) -> Option<(u8, u8, u8)> {
    if name == "rebeccapurple"@ {
        Some((102, 51, 153))
    } else if name == "red"@ {
        Some((255, 0, 0))
    } else if name == "rosybrown"@ {
        Some((188, 143, 143))
    } else if name == "royalblue"@ {
        Some((65, 105, 225))
    } else if name == "saddlebrown"@ {
        Some((139, 69, 19))
    } else if name == "salmon"@ {
        Some((250, 128, 114))
    } else if name == "sandybrown"@ {
        Some((244, 164, 96))
    } else if name == "seagreen"@ {
        Some((46, 139, 87))
    } else if name == "seashell"@ {
        Some((255, 245, 238))
    } else if name == "sienna"@ {
        Some((160, 82, 45))
    } else if name == "silver"@ {
        Some((192, 192, 192))
    } else if name == "skyblue"@ {
        Some((135, 206, 235))
    } else if name == "slateblue"@ {
        Some((106, 90, 205))
    } else if name == "slategray"@ {
        Some((112, 128, 144))
    } else if name == "slategrey"@ {
        Some((112, 128, 144))
    } else if name == "snow"@ {
        Some((255, 250, 250))
    } else if name == "springgreen"@ {
        Some((0, 255, 127))
    } else if name == "steelblue"@ {
        Some((70, 130, 180))
    } else if name == "tan"@ {
        Some((210, 180, 140))
    } else if name == "teal"@ {
        Some((0, 128, 128))
    } else if name == "thistle"@ {
        Some((216, 191, 216))
    } else if name == "tomato"@ {
        Some((255, 99, 71))
    } else if name == "turquoise"@ {
        Some((64, 224, 208))
    } else if name == "violet"@ {
        Some((238, 130, 238))
    } else if name == "wheat"@ {
        Some((245, 222, 179))
    } else if name == "white"@ {
        Some((255, 255, 255))
    } else if name == "whitesmoke"@ {
        Some((245, 245, 245))
    } else if name == "yellow"@ {
        Some((255, 255, 0))
    } else if name == "yellowgreen"@ {
        Some((154, 205, 50))
    } else {
        None
    }
}

fn find_rgb_r_to_z(name: &[char]) -> (r: Option<(u8, u8, u8)>)
    ensures
        r == rgb_r_to_z(name@),
{
    if text_eq(name, "rebeccapurple") {
        Some((102, 51, 153))
    } else if text_eq(name, "red") {
        Some((255, 0, 0))
    } else if text_eq(name, "rosybrown") {
        Some((188, 143, 143))
    } else if text_eq(name, "royalblue") {
        Some((65, 105, 225))
    } else if text_eq(name, "saddlebrown") {
        Some((139, 69, 19))
    } else if text_eq(name, "salmon") {
        Some((250, 128, 114))
    } else if text_eq(name, "sandybrown") {
        Some((244, 164, 96))
    } else if text_eq(name, "seagreen") {
        Some((46, 139, 87))
    } else if text_eq(name, "seashell") {
        Some((255, 245, 238))
    } else if text_eq(name, "sienna") {
        Some((160, 82, 45))
    } else if text_eq(name, "silver") {
        Some((192, 192, 192))
    } else if text_eq(name, "skyblue") {
        Some((135, 206, 235))
    } else if text_eq(name, "slateblue") {
        Some((106, 90, 205))
    } else if text_eq(name, "slategray") {
        Some((112, 128, 144))
    } else if text_eq(name, "slategrey") {
        Some((112, 128, 144))
    } else if text_eq(name, "snow") {
        Some((255, 250, 250))
    } else if text_eq(name, "springgreen") {
        Some((0, 255, 127))
    } else if text_eq(name, "steelblue") {
        Some((70, 130, 180))
    } else if text_eq(name, "tan") {
        Some((210, 180, 140))
    } else if text_eq(name, "teal") {
        Some((0, 128, 128))
    } else if text_eq(name, "thistle") {
        Some((216, 191, 216))
    } else if text_eq(name, "tomato") {
        Some((255, 99, 71))
    } else if text_eq(name, "turquoise") {
        Some((64, 224, 208))
    } else if text_eq(name, "violet") {
        Some((238, 130, 238))
    } else if text_eq(name, "wheat") {
        Some((245, 222, 179))
    } else if text_eq(name, "white") {
        Some((255, 255, 255))
    } else if text_eq(name, "whitesmoke") {
        Some((245, 245, 245))
    } else if text_eq(name, "yellow") {
        Some((255, 255, 0))
    } else if text_eq(name, "yellowgreen") {
        Some((154, 205, 50))
    } else {
        None
    }
}

/// The first color of several that is known.
pub open spec fn first_known(first: Option<(u8, u8, u8)>, second: Option<(u8, u8, u8)>) -> Option<(u8, u8, u8)> {
    if first is Some {
        first
    } else {
        second
    }
}

/// The standard color names, in lower case.
pub open spec fn rgb_of(name: Seq<char>) -> Option<(u8, u8, u8)> {
    first_known(rgb_a_to_c(name), first_known(rgb_d(name), first_known(rgb_e_to_k(name), first_known(rgb_l(name), first_known(rgb_m(name), first_known(rgb_n_to_q(name), rgb_r_to_z(name)))))))
}

fn find_rgb(name: &[char]) -> (r: Option<(u8, u8, u8)>)
    ensures
        r == rgb_of(name@),
{
    if let Some(rgb) = find_rgb_a_to_c(name) {
        return Some(rgb);
    }
    if let Some(rgb) = find_rgb_d(name) {
        return Some(rgb);
    }
    if let Some(rgb) = find_rgb_e_to_k(name) {
        return Some(rgb);
    }
    if let Some(rgb) = find_rgb_l(name) {
        return Some(rgb);
    }
    if let Some(rgb) = find_rgb_m(name) {
        return Some(rgb);
    }
    if let Some(rgb) = find_rgb_n_to_q(name) {
        return Some(rgb);
    }
    find_rgb_r_to_z(name)
}

/// The color that a name stands for, as red, green, blue and opacity. White
/// space around the name and the case of its letters do not matter.
pub open spec fn named_color(name: Seq<char>) -> Option<Seq<u8>> {
    let key = lowered(text::trim(name));
    if key == "transparent"@ {
        Some(seq![0u8, 0, 0, 0])
    } else {
        match rgb_of(key) {
            Some(rgb) => Some(seq![rgb.0, rgb.1, rgb.2, 255]),
            None => None,
        }
    }
}

/// A color, or none, is the one that is stated.
pub open spec fn is_color(r: Option<[u8; 4]>, color: Option<Seq<u8>>) -> bool {
    match r {
        Some(c) => color == Some(c@),
        None => color is None,
    }
}

fn named_color_of(name: &[char]) -> (r: Option<[u8; 4]>)
    ensures
        is_color(r, named_color(name@)),
{
    let key = lowered_of(trimmed(name));
    if text_eq(key.as_slice(), "transparent") {
        let clear: [u8; 4] = [0, 0, 0, 0];
        assert(clear@ =~= seq![0u8, 0, 0, 0]);
        return Some(clear);
    }
    match find_rgb(key.as_slice()) {
        Some(rgb) => {
            let color: [u8; 4] = [rgb.0, rgb.1, rgb.2, 255];
            assert(color@ =~= seq![rgb.0, rgb.1, rgb.2, 255]);
            Some(color)
        },
        None => None,
    }
}

/// Finds a color by its name.
pub fn css_named_color(value: &str) -> (r: Option<[u8; 4]>)
    ensures
        is_color(r, named_color(value@)),
{
    let v = chars_of(value);
    named_color_of(v.as_slice())
}

/// The names of these colors begin with these letters.
proof fn lemma_first_a_to_c(name: Seq<char>)
    ensures
        rgb_a_to_c(name) is Some ==> name.len() > 0 && 'a' <= name[0] <= 'c',
{
    reveal_strlit("aliceblue");
    reveal_strlit("antiquewhite");
    reveal_strlit("aqua");
    reveal_strlit("aquamarine");
    reveal_strlit("azure");
    reveal_strlit("beige");
    reveal_strlit("bisque");
    reveal_strlit("black");
    reveal_strlit("blanchedalmond");
    reveal_strlit("blue");
    reveal_strlit("blueviolet");
    reveal_strlit("brown");
    reveal_strlit("burlywood");
    reveal_strlit("cadetblue");
    reveal_strlit("chartreuse");
    reveal_strlit("chocolate");
    reveal_strlit("coral");
    reveal_strlit("cornflowerblue");
    reveal_strlit("cornsilk");
    reveal_strlit("crimson");
    reveal_strlit("cyan");
}

/// The names of these colors begin with these letters.
proof fn lemma_first_d(name: Seq<char>)
    ensures
        rgb_d(name) is Some ==> name.len() > 0 && name[0] == 'd',
{
    reveal_strlit("darkblue");
    reveal_strlit("darkcyan");
    reveal_strlit("darkgoldenrod");
    reveal_strlit("darkgray");
    reveal_strlit("darkgreen");
    reveal_strlit("darkgrey");
    reveal_strlit("darkkhaki");
    reveal_strlit("darkmagenta");
    reveal_strlit("darkolivegreen");
    reveal_strlit("darkorange");
    reveal_strlit("darkorchid");
    reveal_strlit("darkred");
    reveal_strlit("darksalmon");
    reveal_strlit("darkseagreen");
    reveal_strlit("darkslateblue");
    reveal_strlit("darkslategray");
    reveal_strlit("darkslategrey");
    reveal_strlit("darkturquoise");
    reveal_strlit("darkviolet");
    reveal_strlit("deeppink");
    reveal_strlit("deepskyblue");
    reveal_strlit("dimgray");
    reveal_strlit("dimgrey");
    reveal_strlit("dodgerblue");
}

/// The names of these colors begin with these letters.
proof fn lemma_first_e_to_k(name: Seq<char>)
    ensures
        rgb_e_to_k(name) is Some ==> name.len() > 0 && 'e' <= name[0] <= 'k',
{
    reveal_strlit("firebrick");
    reveal_strlit("floralwhite");
    reveal_strlit("forestgreen");
    reveal_strlit("fuchsia");
    reveal_strlit("gainsboro");
    reveal_strlit("ghostwhite");
    reveal_strlit("gold");
    reveal_strlit("goldenrod");
    reveal_strlit("gray");
    reveal_strlit("green");
    reveal_strlit("greenyellow");
    reveal_strlit("grey");
    reveal_strlit("honeydew");
    reveal_strlit("hotpink");
    reveal_strlit("indianred");
    reveal_strlit("indigo");
    reveal_strlit("ivory");
    reveal_strlit("khaki");
}

/// The names of these colors begin with these letters.
proof fn lemma_first_l(name: Seq<char>)
    ensures
        rgb_l(name) is Some ==> name.len() > 0 && name[0] == 'l',
{
    reveal_strlit("lavender");
    reveal_strlit("lavenderblush");
    reveal_strlit("lawngreen");
    reveal_strlit("lemonchiffon");
    reveal_strlit("lightblue");
    reveal_strlit("lightcoral");
    reveal_strlit("lightcyan");
    reveal_strlit("lightgoldenrodyellow");
    reveal_strlit("lightgray");
    reveal_strlit("lightgreen");
    reveal_strlit("lightgrey");
    reveal_strlit("lightpink");
    reveal_strlit("lightsalmon");
    reveal_strlit("lightseagreen");
    reveal_strlit("lightskyblue");
    reveal_strlit("lightslategray");
    reveal_strlit("lightslategrey");
    reveal_strlit("lightsteelblue");
    reveal_strlit("lightyellow");
    reveal_strlit("lime");
    reveal_strlit("limegreen");
    reveal_strlit("linen");
}

/// The names of these colors begin with these letters.
proof fn lemma_first_m(name: Seq<char>)
    ensures
        rgb_m(name) is Some ==> name.len() > 0 && name[0] == 'm',
{
    reveal_strlit("magenta");
    reveal_strlit("maroon");
    reveal_strlit("mediumaquamarine");
    reveal_strlit("mediumblue");
    reveal_strlit("mediumorchid");
    reveal_strlit("mediumpurple");
    reveal_strlit("mediumseagreen");
    reveal_strlit("mediumslateblue");
    reveal_strlit("mediumspringgreen");
    reveal_strlit("mediumturquoise");
    reveal_strlit("mediumvioletred");
    reveal_strlit("midnightblue");
    reveal_strlit("mintcream");
    reveal_strlit("mistyrose");
    reveal_strlit("moccasin");
}

/// The names of these colors begin with these letters.
proof fn lemma_first_n_to_q(name: Seq<char>)
    ensures
        rgb_n_to_q(name) is Some ==> name.len() > 0 && 'n' <= name[0] <= 'q',
{
    reveal_strlit("navajowhite");
    reveal_strlit("navy");
    reveal_strlit("oldlace");
    reveal_strlit("olive");
    reveal_strlit("olivedrab");
    reveal_strlit("orange");
    reveal_strlit("orangered");
    reveal_strlit("orchid");
    reveal_strlit("palegoldenrod");
    reveal_strlit("palegreen");
    reveal_strlit("paleturquoise");
    reveal_strlit("palevioletred");
    reveal_strlit("papayawhip");
    reveal_strlit("peachpuff");
    reveal_strlit("peru");
    reveal_strlit("pink");
    reveal_strlit("plum");
    reveal_strlit("powderblue");
    reveal_strlit("purple");
}

/// The names of these colors begin with these letters.
proof fn lemma_first_r_to_z(name: Seq<char>)
    ensures
        rgb_r_to_z(name) is Some ==> name.len() > 0 && 'r' <= name[0] <= 'z',
{
    reveal_strlit("rebeccapurple");
    reveal_strlit("red");
    reveal_strlit("rosybrown");
    reveal_strlit("royalblue");
    reveal_strlit("saddlebrown");
    reveal_strlit("salmon");
    reveal_strlit("sandybrown");
    reveal_strlit("seagreen");
    reveal_strlit("seashell");
    reveal_strlit("sienna");
    reveal_strlit("silver");
    reveal_strlit("skyblue");
    reveal_strlit("slateblue");
    reveal_strlit("slategray");
    reveal_strlit("slategrey");
    reveal_strlit("snow");
    reveal_strlit("springgreen");
    reveal_strlit("steelblue");
    reveal_strlit("tan");
    reveal_strlit("teal");
    reveal_strlit("thistle");
    reveal_strlit("tomato");
    reveal_strlit("turquoise");
    reveal_strlit("violet");
    reveal_strlit("wheat");
    reveal_strlit("white");
    reveal_strlit("whitesmoke");
    reveal_strlit("yellow");
    reveal_strlit("yellowgreen");
}

/// Two spellings of these colors.
proof fn lemma_spellings_d()
    ensures
        rgb_d("darkgray"@) is Some && rgb_d("darkgray"@) == rgb_d("darkgrey"@),
        rgb_d("dimgray"@) is Some && rgb_d("dimgray"@) == rgb_d("dimgrey"@),
        rgb_d("darkslategray"@) is Some && rgb_d("darkslategray"@) == rgb_d("darkslategrey"@),
{
    reveal_strlit("darkblue");
    reveal_strlit("darkcyan");
    reveal_strlit("darkgoldenrod");
    reveal_strlit("darkgray");
    reveal_strlit("darkgreen");
    reveal_strlit("darkgrey");
    reveal_strlit("darkkhaki");
    reveal_strlit("darkmagenta");
    reveal_strlit("darkolivegreen");
    reveal_strlit("darkorange");
    reveal_strlit("darkorchid");
    reveal_strlit("darkred");
    reveal_strlit("darksalmon");
    reveal_strlit("darkseagreen");
    reveal_strlit("darkslateblue");
    reveal_strlit("darkslategray");
    reveal_strlit("darkslategrey");
    reveal_strlit("darkturquoise");
    reveal_strlit("darkviolet");
    reveal_strlit("deeppink");
    reveal_strlit("deepskyblue");
    reveal_strlit("dimgray");
    reveal_strlit("dimgrey");
    reveal_strlit("dodgerblue");
    assert("darkblue"@.len() == 8);
    assert("darkcyan"@.len() == 8);
    assert("darkgoldenrod"@.len() == 13);
    assert("darkgray"@.len() == 8);
    assert("darkgreen"@.len() == 9);
    assert("darkgrey"@.len() == 8);
    assert("darkkhaki"@.len() == 9);
    assert("darkmagenta"@.len() == 11);
    assert("darkolivegreen"@.len() == 14);
    assert("darkorange"@.len() == 10);
    assert("darkorchid"@.len() == 10);
    assert("darkred"@.len() == 7);
    assert("darksalmon"@.len() == 10);
    assert("darkseagreen"@.len() == 12);
    assert("darkslateblue"@.len() == 13);
    assert("darkslategray"@.len() == 13);
    assert("darkslategrey"@.len() == 13);
    assert("darkturquoise"@.len() == 13);
    assert("darkviolet"@.len() == 10);
    assert("deeppink"@.len() == 8);
    assert("deepskyblue"@.len() == 11);
    assert("dimgray"@.len() == 7);
    assert("dimgrey"@.len() == 7);
    assert("dodgerblue"@.len() == 10);
    assert("darkgray"@[4] != "darkblue"@[4]);
    assert("darkgray"@[4] != "darkcyan"@[4]);
    assert("darkgrey"@[4] != "darkblue"@[4]);
    assert("darkgrey"@[4] != "darkcyan"@[4]);
    assert("darkgrey"@[6] != "darkgray"@[6]);
    assert("dimgray"@[1] != "darkred"@[1]);
    assert("dimgrey"@[1] != "darkred"@[1]);
    assert("dimgrey"@[5] != "dimgray"@[5]);
    assert("darkslategray"@[4] != "darkgoldenrod"@[4]);
    assert("darkslategray"@[9] != "darkslateblue"@[9]);
    assert("darkslategrey"@[4] != "darkgoldenrod"@[4]);
    assert("darkslategrey"@[9] != "darkslateblue"@[9]);
    assert("darkslategrey"@[11] != "darkslategray"@[11]);
}

/// Two spellings of these colors.
proof fn lemma_spellings_e_to_k()
    ensures
        rgb_e_to_k("gray"@) is Some && rgb_e_to_k("gray"@) == rgb_e_to_k("grey"@),
{
    reveal_strlit("firebrick");
    reveal_strlit("floralwhite");
    reveal_strlit("forestgreen");
    reveal_strlit("fuchsia");
    reveal_strlit("gainsboro");
    reveal_strlit("ghostwhite");
    reveal_strlit("gold");
    reveal_strlit("goldenrod");
    reveal_strlit("gray");
    reveal_strlit("green");
    reveal_strlit("greenyellow");
    reveal_strlit("grey");
    reveal_strlit("honeydew");
    reveal_strlit("hotpink");
    reveal_strlit("indianred");
    reveal_strlit("indigo");
    reveal_strlit("ivory");
    reveal_strlit("khaki");
    assert("firebrick"@.len() == 9);
    assert("floralwhite"@.len() == 11);
    assert("forestgreen"@.len() == 11);
    assert("fuchsia"@.len() == 7);
    assert("gainsboro"@.len() == 9);
    assert("ghostwhite"@.len() == 10);
    assert("gold"@.len() == 4);
    assert("goldenrod"@.len() == 9);
    assert("gray"@.len() == 4);
    assert("green"@.len() == 5);
    assert("greenyellow"@.len() == 11);
    assert("grey"@.len() == 4);
    assert("honeydew"@.len() == 8);
    assert("hotpink"@.len() == 7);
    assert("indianred"@.len() == 9);
    assert("indigo"@.len() == 6);
    assert("ivory"@.len() == 5);
    assert("khaki"@.len() == 5);
    assert("gray"@[1] != "gold"@[1]);
    assert("grey"@[1] != "gold"@[1]);
    assert("grey"@[2] != "gray"@[2]);
}

/// Two spellings of these colors.
proof fn lemma_spellings_l()
    ensures
        rgb_l("lightgray"@) is Some && rgb_l("lightgray"@) == rgb_l("lightgrey"@),
        rgb_l("lightslategray"@) is Some && rgb_l("lightslategray"@) == rgb_l("lightslategrey"@),
{
    reveal_strlit("lavender");
    reveal_strlit("lavenderblush");
    reveal_strlit("lawngreen");
    reveal_strlit("lemonchiffon");
    reveal_strlit("lightblue");
    reveal_strlit("lightcoral");
    reveal_strlit("lightcyan");
    reveal_strlit("lightgoldenrodyellow");
    reveal_strlit("lightgray");
    reveal_strlit("lightgreen");
    reveal_strlit("lightgrey");
    reveal_strlit("lightpink");
    reveal_strlit("lightsalmon");
    reveal_strlit("lightseagreen");
    reveal_strlit("lightskyblue");
    reveal_strlit("lightslategray");
    reveal_strlit("lightslategrey");
    reveal_strlit("lightsteelblue");
    reveal_strlit("lightyellow");
    reveal_strlit("lime");
    reveal_strlit("limegreen");
    reveal_strlit("linen");
    assert("lavender"@.len() == 8);
    assert("lavenderblush"@.len() == 13);
    assert("lawngreen"@.len() == 9);
    assert("lemonchiffon"@.len() == 12);
    assert("lightblue"@.len() == 9);
    assert("lightcoral"@.len() == 10);
    assert("lightcyan"@.len() == 9);
    assert("lightgoldenrodyellow"@.len() == 20);
    assert("lightgray"@.len() == 9);
    assert("lightgreen"@.len() == 10);
    assert("lightgrey"@.len() == 9);
    assert("lightpink"@.len() == 9);
    assert("lightsalmon"@.len() == 11);
    assert("lightseagreen"@.len() == 13);
    assert("lightskyblue"@.len() == 12);
    assert("lightslategray"@.len() == 14);
    assert("lightslategrey"@.len() == 14);
    assert("lightsteelblue"@.len() == 14);
    assert("lightyellow"@.len() == 11);
    assert("lime"@.len() == 4);
    assert("limegreen"@.len() == 9);
    assert("linen"@.len() == 5);
    assert("lightgray"@[1] != "lawngreen"@[1]);
    assert("lightgray"@[5] != "lightblue"@[5]);
    assert("lightgray"@[5] != "lightcyan"@[5]);
    assert("lightgrey"@[1] != "lawngreen"@[1]);
    assert("lightgrey"@[5] != "lightblue"@[5]);
    assert("lightgrey"@[5] != "lightcyan"@[5]);
    assert("lightgrey"@[7] != "lightgray"@[7]);
    assert("lightslategrey"@[12] != "lightslategray"@[12]);
}

/// Two spellings of these colors.
proof fn lemma_spellings_r_to_z()
    ensures
        rgb_r_to_z("slategray"@) is Some && rgb_r_to_z("slategray"@) == rgb_r_to_z("slategrey"@),
{
    reveal_strlit("rebeccapurple");
    reveal_strlit("red");
    reveal_strlit("rosybrown");
    reveal_strlit("royalblue");
    reveal_strlit("saddlebrown");
    reveal_strlit("salmon");
    reveal_strlit("sandybrown");
    reveal_strlit("seagreen");
    reveal_strlit("seashell");
    reveal_strlit("sienna");
    reveal_strlit("silver");
    reveal_strlit("skyblue");
    reveal_strlit("slateblue");
    reveal_strlit("slategray");
    reveal_strlit("slategrey");
    reveal_strlit("snow");
    reveal_strlit("springgreen");
    reveal_strlit("steelblue");
    reveal_strlit("tan");
    reveal_strlit("teal");
    reveal_strlit("thistle");
    reveal_strlit("tomato");
    reveal_strlit("turquoise");
    reveal_strlit("violet");
    reveal_strlit("wheat");
    reveal_strlit("white");
    reveal_strlit("whitesmoke");
    reveal_strlit("yellow");
    reveal_strlit("yellowgreen");
    assert("rebeccapurple"@.len() == 13);
    assert("red"@.len() == 3);
    assert("rosybrown"@.len() == 9);
    assert("royalblue"@.len() == 9);
    assert("saddlebrown"@.len() == 11);
    assert("salmon"@.len() == 6);
    assert("sandybrown"@.len() == 10);
    assert("seagreen"@.len() == 8);
    assert("seashell"@.len() == 8);
    assert("sienna"@.len() == 6);
    assert("silver"@.len() == 6);
    assert("skyblue"@.len() == 7);
    assert("slateblue"@.len() == 9);
    assert("slategray"@.len() == 9);
    assert("slategrey"@.len() == 9);
    assert("snow"@.len() == 4);
    assert("springgreen"@.len() == 11);
    assert("steelblue"@.len() == 9);
    assert("tan"@.len() == 3);
    assert("teal"@.len() == 4);
    assert("thistle"@.len() == 7);
    assert("tomato"@.len() == 6);
    assert("turquoise"@.len() == 9);
    assert("violet"@.len() == 6);
    assert("wheat"@.len() == 5);
    assert("white"@.len() == 5);
    assert("whitesmoke"@.len() == 10);
    assert("yellow"@.len() == 6);
    assert("yellowgreen"@.len() == 11);
    assert("slategray"@[0] != "rosybrown"@[0]);
    assert("slategray"@[0] != "royalblue"@[0]);
    assert("slategray"@[5] != "slateblue"@[5]);
    assert("slategrey"@[0] != "rosybrown"@[0]);
    assert("slategrey"@[0] != "royalblue"@[0]);
    assert("slategrey"@[5] != "slateblue"@[5]);
    assert("slategrey"@[7] != "slategray"@[7]);
}

/// Two spellings of these colors.
proof fn lemma_spellings_a_to_c()
    ensures
        rgb_a_to_c("aqua"@) is Some && rgb_a_to_c("aqua"@) == rgb_a_to_c("cyan"@),
{
    reveal_strlit("aliceblue");
    reveal_strlit("antiquewhite");
    reveal_strlit("aqua");
    reveal_strlit("aquamarine");
    reveal_strlit("azure");
    reveal_strlit("beige");
    reveal_strlit("bisque");
    reveal_strlit("black");
    reveal_strlit("blanchedalmond");
    reveal_strlit("blue");
    reveal_strlit("blueviolet");
    reveal_strlit("brown");
    reveal_strlit("burlywood");
    reveal_strlit("cadetblue");
    reveal_strlit("chartreuse");
    reveal_strlit("chocolate");
    reveal_strlit("coral");
    reveal_strlit("cornflowerblue");
    reveal_strlit("cornsilk");
    reveal_strlit("crimson");
    reveal_strlit("cyan");
    assert("aliceblue"@.len() == 9);
    assert("antiquewhite"@.len() == 12);
    assert("aqua"@.len() == 4);
    assert("aquamarine"@.len() == 10);
    assert("azure"@.len() == 5);
    assert("beige"@.len() == 5);
    assert("bisque"@.len() == 6);
    assert("black"@.len() == 5);
    assert("blanchedalmond"@.len() == 14);
    assert("blue"@.len() == 4);
    assert("blueviolet"@.len() == 10);
    assert("brown"@.len() == 5);
    assert("burlywood"@.len() == 9);
    assert("cadetblue"@.len() == 9);
    assert("chartreuse"@.len() == 10);
    assert("chocolate"@.len() == 9);
    assert("coral"@.len() == 5);
    assert("cornflowerblue"@.len() == 14);
    assert("cornsilk"@.len() == 8);
    assert("crimson"@.len() == 7);
    assert("cyan"@.len() == 4);
    assert("cyan"@[0] != "aqua"@[0]);
    assert("cyan"@[0] != "blue"@[0]);
}

/// Two names of one color.
proof fn lemma_fuchsia_is_magenta()
    ensures
        rgb_e_to_k("fuchsia"@) is Some && rgb_e_to_k("fuchsia"@) == rgb_m("magenta"@),
{
    reveal_strlit("firebrick");
    reveal_strlit("floralwhite");
    reveal_strlit("forestgreen");
    reveal_strlit("fuchsia");
    reveal_strlit("gainsboro");
    reveal_strlit("ghostwhite");
    reveal_strlit("gold");
    reveal_strlit("goldenrod");
    reveal_strlit("gray");
    reveal_strlit("green");
    reveal_strlit("greenyellow");
    reveal_strlit("grey");
    reveal_strlit("honeydew");
    reveal_strlit("hotpink");
    reveal_strlit("indianred");
    reveal_strlit("indigo");
    reveal_strlit("ivory");
    reveal_strlit("khaki");
    reveal_strlit("magenta");
    reveal_strlit("maroon");
    reveal_strlit("mediumaquamarine");
    reveal_strlit("mediumblue");
    reveal_strlit("mediumorchid");
    reveal_strlit("mediumpurple");
    reveal_strlit("mediumseagreen");
    reveal_strlit("mediumslateblue");
    reveal_strlit("mediumspringgreen");
    reveal_strlit("mediumturquoise");
    reveal_strlit("mediumvioletred");
    reveal_strlit("midnightblue");
    reveal_strlit("mintcream");
    reveal_strlit("mistyrose");
    reveal_strlit("moccasin");
    assert("firebrick"@.len() == 9);
    assert("floralwhite"@.len() == 11);
    assert("forestgreen"@.len() == 11);
    assert("fuchsia"@.len() == 7);
    assert("gainsboro"@.len() == 9);
    assert("ghostwhite"@.len() == 10);
    assert("gold"@.len() == 4);
    assert("goldenrod"@.len() == 9);
    assert("gray"@.len() == 4);
    assert("green"@.len() == 5);
    assert("greenyellow"@.len() == 11);
    assert("grey"@.len() == 4);
    assert("honeydew"@.len() == 8);
    assert("hotpink"@.len() == 7);
    assert("indianred"@.len() == 9);
    assert("indigo"@.len() == 6);
    assert("ivory"@.len() == 5);
    assert("khaki"@.len() == 5);
    assert("magenta"@.len() == 7);
    assert("maroon"@.len() == 6);
    assert("mediumaquamarine"@.len() == 16);
    assert("mediumblue"@.len() == 10);
    assert("mediumorchid"@.len() == 12);
    assert("mediumpurple"@.len() == 12);
    assert("mediumseagreen"@.len() == 14);
    assert("mediumslateblue"@.len() == 15);
    assert("mediumspringgreen"@.len() == 17);
    assert("mediumturquoise"@.len() == 15);
    assert("mediumvioletred"@.len() == 15);
    assert("midnightblue"@.len() == 12);
    assert("mintcream"@.len() == 9);
    assert("mistyrose"@.len() == 9);
    assert("moccasin"@.len() == 8);
}

/// A name is found among those that begin with its letter only.
proof fn lemma_found_by_letter(name: Seq<char>)
    ensures
        rgb_a_to_c(name) is Some ==> rgb_of(name) == rgb_a_to_c(name),
        rgb_d(name) is Some ==> rgb_of(name) == rgb_d(name),
        rgb_e_to_k(name) is Some ==> rgb_of(name) == rgb_e_to_k(name),
        rgb_l(name) is Some ==> rgb_of(name) == rgb_l(name),
        rgb_m(name) is Some ==> rgb_of(name) == rgb_m(name),
        rgb_n_to_q(name) is Some ==> rgb_of(name) == rgb_n_to_q(name),
        rgb_r_to_z(name) is Some ==> rgb_of(name) == rgb_r_to_z(name),
        rgb_of(name) is Some ==> name.len() > 0,
{
    lemma_first_a_to_c(name);
    lemma_first_d(name);
    lemma_first_e_to_k(name);
    lemma_first_l(name);
    lemma_first_m(name);
    lemma_first_n_to_q(name);
    lemma_first_r_to_z(name);
}

/// A name stands in the list for its first letter, and in no other.
pub proof fn lemma_one_list(name: Seq<char>)
    requires
        name.len() > 0,
    ensures
        'a' <= name[0] <= 'c' ==> rgb_of(name) == rgb_a_to_c(name),
        name[0] == 'd' ==> rgb_of(name) == rgb_d(name),
        'e' <= name[0] <= 'k' ==> rgb_of(name) == rgb_e_to_k(name),
        name[0] == 'l' ==> rgb_of(name) == rgb_l(name),
        name[0] == 'm' ==> rgb_of(name) == rgb_m(name),
        'n' <= name[0] <= 'q' ==> rgb_of(name) == rgb_n_to_q(name),
        'r' <= name[0] <= 'z' ==> rgb_of(name) == rgb_r_to_z(name),
{
    lemma_first_a_to_c(name);
    lemma_first_d(name);
    lemma_first_e_to_k(name);
    lemma_first_l(name);
    lemma_first_m(name);
    lemma_first_n_to_q(name);
    lemma_first_r_to_z(name);
}

/// A name that is spelled alike but for the case of letters and white space around
/// it stands for the same color. Every color is opaque but the transparent one,
/// and no name stands for none.
pub proof fn color_goes_by_its_name(s: Seq<char>, t: Seq<char>)
    requires
        lowered(text::trim(s)) == lowered(text::trim(t)),
    ensures
        named_color(s) == named_color(t),
        named_color(s) matches Some(color) ==> color.len() == 4 && (color[3] == 255 || lowered(text::trim(s))
            == "transparent"@),
        text::trim(s).len() == 0 ==> named_color(s) is None,
{
    reveal_strlit("transparent");
    assert(lowered(text::trim(s)).len() == text::trim(s).len());
    lemma_found_by_letter(lowered(text::trim(s)));
}

/// Two names of one color.
pub open spec fn are_synonyms(a: Seq<char>, b: Seq<char>) -> bool {
    ||| a == "gray"@ && b == "grey"@
    ||| a == "darkgray"@ && b == "darkgrey"@
    ||| a == "dimgray"@ && b == "dimgrey"@
    ||| a == "lightgray"@ && b == "lightgrey"@
    ||| a == "slategray"@ && b == "slategrey"@
    ||| a == "darkslategray"@ && b == "darkslategrey"@
    ||| a == "lightslategray"@ && b == "lightslategrey"@
    ||| a == "aqua"@ && b == "cyan"@
    ||| a == "fuchsia"@ && b == "magenta"@
}

/// Gray may be spelled grey, aqua is cyan, and fuchsia is magenta, whatever the
/// case of the letters and the white space around the name.
pub proof fn synonyms_stand_for_one_color(s: Seq<char>, t: Seq<char>)
    requires
        are_synonyms(lowered(text::trim(s)), lowered(text::trim(t))),
    ensures
        named_color(s) is Some,
        named_color(s) == named_color(t),
{
    lemma_spellings_d();
    lemma_spellings_e_to_k();
    lemma_spellings_l();
    lemma_spellings_r_to_z();
    lemma_spellings_a_to_c();
    lemma_fuchsia_is_magenta();
    lemma_found_by_letter("darkgray"@);
    lemma_found_by_letter("darkgrey"@);
    lemma_found_by_letter("dimgray"@);
    lemma_found_by_letter("dimgrey"@);
    lemma_found_by_letter("darkslategray"@);
    lemma_found_by_letter("darkslategrey"@);
    lemma_found_by_letter("gray"@);
    lemma_found_by_letter("grey"@);
    lemma_found_by_letter("lightgray"@);
    lemma_found_by_letter("lightgrey"@);
    lemma_found_by_letter("lightslategray"@);
    lemma_found_by_letter("lightslategrey"@);
    lemma_found_by_letter("slategray"@);
    lemma_found_by_letter("slategrey"@);
    lemma_found_by_letter("aqua"@);
    lemma_found_by_letter("cyan"@);
    lemma_found_by_letter("fuchsia"@);
    lemma_found_by_letter("magenta"@);
    reveal_strlit("transparent");
    assert("transparent"@.len() == 11);
    reveal_strlit("gray");
    reveal_strlit("grey");
    reveal_strlit("darkgray");
    reveal_strlit("darkgrey");
    reveal_strlit("dimgray");
    reveal_strlit("dimgrey");
    reveal_strlit("lightgray");
    reveal_strlit("lightgrey");
    reveal_strlit("slategray");
    reveal_strlit("slategrey");
    reveal_strlit("darkslategray");
    reveal_strlit("darkslategrey");
    reveal_strlit("lightslategray");
    reveal_strlit("lightslategrey");
    reveal_strlit("aqua");
    reveal_strlit("cyan");
    reveal_strlit("fuchsia");
    reveal_strlit("magenta");
    assert("gray"@.len() == 4);
    assert("grey"@.len() == 4);
    assert("darkgray"@.len() == 8);
    assert("darkgrey"@.len() == 8);
    assert("dimgray"@.len() == 7);
    assert("dimgrey"@.len() == 7);
    assert("lightgray"@.len() == 9);
    assert("lightgrey"@.len() == 9);
    assert("slategray"@.len() == 9);
    assert("slategrey"@.len() == 9);
    assert("darkslategray"@.len() == 13);
    assert("darkslategrey"@.len() == 13);
    assert("lightslategray"@.len() == 14);
    assert("lightslategrey"@.len() == 14);
    assert("aqua"@.len() == 4);
    assert("cyan"@.len() == 4);
    assert("fuchsia"@.len() == 7);
    assert("magenta"@.len() == 7);
}

/// The number of bytes of a character in UTF-8.
pub open spec fn width(c: char) -> nat {
    if (c as u32) < 0x80 {
        1
    } else if (c as u32) < 0x800 {
        2
    } else if (c as u32) < 0x10000 {
        3
    } else {
        4
    }
}

/// The number of bytes of a text in UTF-8.
pub open spec fn byte_len(s: Seq<char>) -> nat
    decreases s.len(),
{
    if s.len() == 0 {
        0
    } else {
        byte_len(s.drop_last()) + width(s.last())
    }
}

/// A character of the text starts, or the text ends, after `n` bytes.
pub open spec fn splits_at(s: Seq<char>, n: nat) -> bool {
    exists|k: int| 0 <= k <= s.len() && byte_len(#[trigger] s.take(k)) == n
}

/// What is left of a color's text without white space and a number sign in front.
pub open spec fn color_digits(value: Seq<char>) -> Seq<char> {
    let t = text::trim(value);
    if t.len() > 0 && t[0] == '#' {
        t.skip(1)
    } else {
        t
    }
}

/// A text of six bytes can be taken apart into pairs of bytes as far as the
/// pairs are numbers.
pub open spec fn splits_into_pairs(v: Seq<char>) -> bool {
    &&& splits_at(v, 2)
    &&& splits_at(v, 4) || v.len() < 2 || number::parse_hex_pair(v[0], v[1]) is None
}

/// A color can be read from a text: where it has the length of a hexadecimal
/// color, no character stands across two pairs of digits.
pub open spec fn is_readable(value: Seq<char>) -> bool {
    byte_len(color_digits(value)) == 6 ==> splits_into_pairs(color_digits(value))
}

/// The color of six hexadecimal digits.
pub open spec fn hex_color(v: Seq<char>) -> Option<Seq<u8>> {
    match (
        number::parse_hex_pair(v[0], v[1]),
        number::parse_hex_pair(v[2], v[3]),
        number::parse_hex_pair(v[4], v[5]),
    ) {
        (Some(red), Some(green), Some(blue)) => Some(seq![red as u8, green as u8, blue as u8, 255]),
        _ => None,
    }
}

/// A text begins with a number sign, apart from white space.
pub open spec fn is_signed(value: Seq<char>) -> bool {
    text::trim(value).len() > 0 && text::trim(value)[0] == '#'
}

/// The color that a text stands for: six hexadecimal digits, or else a name. Six
/// bytes after a number sign are digits or nothing.
pub open spec fn color_of(value: Seq<char>) -> Option<Seq<u8>> {
    let v = color_digits(value);
    if byte_len(v) == 6 && v.len() == 6 && hex_color(v) is Some {
        hex_color(v)
    } else if byte_len(v) == 6 && is_signed(value) {
        None
    } else {
        named_color(v)
    }
}

fn width_of(c: char) -> (r: u32)
    ensures
        r == width(c),
{
    let n: u32 = c as u32;
    if n < 0x80 {
        1
    } else if n < 0x800 {
        2
    } else if n < 0x10000 {
        3
    } else {
        4
    }
}

proof fn lemma_byte_len_grows(s: Seq<char>, a: int, b: int)
    requires
        0 <= a <= b <= s.len(),
    ensures
        byte_len(s.take(a)) + (b - a) <= byte_len(s.take(b)),
    decreases b - a,
{
    if a < b {
        lemma_byte_len_grows(s, a, b - 1);
        assert(s.take(b).drop_last() =~= s.take(b - 1));
    }
}

/// Whether a character starts, or the text ends, after a few bytes.
fn splits_text_at(v: &[char], n: u32) -> (r: bool)
    requires
        n <= 6,
    ensures
        r == splits_at(v@, n as nat),
{
    let mut total: u32 = 0;
    let mut i: usize = 0;
    assert(v@.take(0).len() == 0);
    while i < v.len() && total < n
        invariant
            i <= v@.len(),
            n <= 6,
            total <= n + 3,
            total == byte_len(v@.take(i as int)),
            forall|k: int| 0 <= k < i ==> byte_len(#[trigger] v@.take(k)) < n,
        decreases v@.len() - i,
    {
        assert(v@.take(i + 1).drop_last() =~= v@.take(i as int));
        total = total + width_of(v[i]);
        i = i + 1;
    }
    if total != n {
        assert forall|k: int| 0 <= k <= v@.len() implies byte_len(#[trigger] v@.take(k)) != n by {
            if k >= i {
                lemma_byte_len_grows(v@, i as int, k);
            }
        }
    }
    total == n
}

/// Whether a text has six bytes.
fn has_six_bytes(v: &[char]) -> (r: bool)
    ensures
        r == (byte_len(v@) == 6),
{
    let mut total: u32 = 0;
    let mut i: usize = 0;
    assert(v@.take(0).len() == 0);
    while i < v.len() && total <= 6
        invariant
            i <= v@.len(),
            total <= 10,
            total == byte_len(v@.take(i as int)),
        decreases v@.len() - i,
    {
        assert(v@.take(i + 1).drop_last() =~= v@.take(i as int));
        total = total + width_of(v[i]);
        i = i + 1;
    }
    proof {
        lemma_byte_len_grows(v@, i as int, v@.len() as int);
        assert(v@.take(v@.len() as int) =~= v@);
    }
    total == 6 && i == v.len()
}

fn color_digits_of(v: &[char]) -> (r: &[char])
    ensures
        r@ == color_digits(v@),
{
    let t = trimmed(v);
    if t.len() > 0 && t[0] == '#' {
        let rest = slice_subrange(t, 1, t.len());
        assert(rest@ =~= t@.skip(1));
        rest
    } else {
        t
    }
}

/// Whether a color can be read from a text.
pub fn color_is_readable(value: &str) -> (r: bool)
    ensures
        r == is_readable(value@),
{
    let all = chars_of(value);
    let v = color_digits_of(all.as_slice());
    if !has_six_bytes(v) {
        return true;
    }
    if !splits_text_at(v, 2) {
        return false;
    }
    splits_text_at(v, 4) || v.len() < 2 || read_hex_pair(v[0], v[1]).is_none()
}

/// Reads a color.
pub fn parse_color(value: &str) -> (r: Option<[u8; 4]>)
    requires
        is_readable(value@),
    ensures
        is_color(r, color_of(value@)),
{
    let all = chars_of(value);
    let v = color_digits_of(all.as_slice());
    if !has_six_bytes(v) {
        return named_color_of(v);
    }
    if v.len() == 6 {
        if let (Some(red), Some(green), Some(blue)) = (
            read_hex_pair(v[0], v[1]),
            read_hex_pair(v[2], v[3]),
            read_hex_pair(v[4], v[5]),
        ) {
            let color: [u8; 4] = [red, green, blue, 255];
            assert(color@ =~= seq![red, green, blue, 255]);
            return Some(color);
        }
    }
    let t = trimmed(all.as_slice());
    if t.len() > 0 && t[0] == '#' {
        None
    } else {
        named_color_of(v)
    }
}

/// Characters of the basic Latin set have one byte each.
pub proof fn lemma_latin_bytes(s: Seq<char>)
    requires
        forall|i: int| 0 <= i < s.len() ==> (#[trigger] s[i] as u32) < 0x80,
    ensures
        byte_len(s) == s.len(),
    decreases s.len(),
{
    if s.len() > 0 {
        assert forall|i: int| 0 <= i < s.drop_last().len() implies (#[trigger] s.drop_last()[i] as u32) < 0x80 by {
            assert(s.drop_last()[i] == s[i]);
        }
        lemma_latin_bytes(s.drop_last());
        assert((s[s.len() - 1] as u32) < 0x80);
    }
}

/// Six hexadecimal digits are an opaque color, two for each of red, green and blue,
/// with a number sign before them or without, whatever white space stands around.
pub proof fn six_digits_are_a_color(before: Seq<char>, v: Seq<char>, after: Seq<char>)
    requires
        forall|i: int| 0 <= i < before.len() ==> text::is_white(#[trigger] before[i]),
        forall|i: int| 0 <= i < after.len() ==> text::is_white(#[trigger] after[i]),
        v.len() == 6,
        forall|i: int| 0 <= i < 6 ==> number::hex_digit(#[trigger] v[i]) is Some,
    ensures
        ({
            let red = 16 * number::hex_digit(v[0])->0 + number::hex_digit(v[1])->0;
            let green = 16 * number::hex_digit(v[2])->0 + number::hex_digit(v[3])->0;
            let blue = 16 * number::hex_digit(v[4])->0 + number::hex_digit(v[5])->0;
            let color = seq![red as u8, green as u8, blue as u8, 255u8];
            &&& color_of(before + v + after) == Some(color)
            &&& color_of(before + (seq!['#'] + v) + after) == Some(color)
            &&& red < 256 && green < 256 && blue < 256
        }),
{
    assert forall|i: int| 0 <= i < v.len() implies (#[trigger] v[i] as u32) < 0x80 by {
        assert(number::hex_digit(v[i]) is Some);
    }
    lemma_latin_bytes(v);
    assert(number::hex_digit(v[0]) is Some && number::hex_digit(v[1]) is Some);
    assert(number::hex_digit(v[2]) is Some && number::hex_digit(v[3]) is Some);
    assert(number::hex_digit(v[4]) is Some && number::hex_digit(v[5]) is Some);
    assert(v.last() == v[5]);
    text::white_ends_are_cut(before, v, after);
    let signed = seq!['#'] + v;
    assert(signed.last() == v[5]);
    text::white_ends_are_cut(before, signed, after);
    assert(signed.skip(1) =~= v);
    assert(color_digits(before + signed + after) =~= v);
    assert(color_digits(before + v + after) =~= v);
}

/// A text of another length than six bytes is a name, with a number sign before it
/// or without. Six bytes that are no digits are a name only without the sign.
pub proof fn other_texts_are_names(before: Seq<char>, v: Seq<char>, after: Seq<char>)
    requires
        forall|i: int| 0 <= i < before.len() ==> text::is_white(#[trigger] before[i]),
        forall|i: int| 0 <= i < after.len() ==> text::is_white(#[trigger] after[i]),
        v.len() > 0,
        !text::is_white(v[0]),
        !text::is_white(v.last()),
        v[0] != '#',
    ensures
        byte_len(v) != 6 ==> color_of(before + v + after) == named_color(v),
        byte_len(v) != 6 ==> color_of(before + (seq!['#'] + v) + after) == named_color(v),
        byte_len(v) == 6 && v.len() != 6 ==> color_of(before + (seq!['#'] + v) + after) is None,
        v.len() == 6 && number::hex_digit(v[1]) is None ==> color_of(before + v + after) == named_color(v),
{
    text::white_ends_are_cut(before, v, after);
    let signed = seq!['#'] + v;
    assert(signed.last() == v.last());
    text::white_ends_are_cut(before, signed, after);
    assert(signed.skip(1) =~= v);
}

/// A name in small letters, without white space around it, is looked up as it is;
/// a color that is found is opaque.
pub proof fn small_letters_are_looked_up(name: Seq<char>)
    requires
        name.len() > 0,
        forall|i: int| 0 <= i < name.len() ==> 'a' <= #[trigger] name[i] <= 'z',
        name != "transparent"@,
    ensures
        named_color(name) == (match rgb_of(name) {
            Some(rgb) => Some(seq![rgb.0, rgb.1, rgb.2, 255u8]),
            None => None,
        }),
        named_color("transparent"@) == Some(seq![0u8, 0u8, 0u8, 0u8]),
{
    assert('a' <= name[0] <= 'z' && 'a' <= name[name.len() - 1] <= 'z');
    text::white_ends_are_cut(seq![], name, seq![]);
    assert(seq![] + name + seq![] =~= name);
    assert(lowered(name) =~= name);
    let clear = "transparent"@;
    reveal_strlit("transparent");
    text::white_ends_are_cut(seq![], clear, seq![]);
    assert(seq![] + clear + seq![] =~= clear);
    assert(lowered(clear) =~= clear);
}

} // verus!
