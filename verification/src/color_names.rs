//! The standard colors by their names.
use vstd::prelude::*;

use crate::color;

verus! {

/// The colors whose names begin with a to c are the standard ones.
#[verifier::spinoff_prover]
#[verifier::rlimit(60)]
pub proof fn standard_colors_a_to_c()
    ensures
        color::rgb_of("aliceblue"@) == Some((240u8, 248u8, 255u8)),
        color::rgb_of("antiquewhite"@) == Some((250u8, 235u8, 215u8)),
        color::rgb_of("aqua"@) == Some((0u8, 255u8, 255u8)),
        color::rgb_of("aquamarine"@) == Some((127u8, 255u8, 212u8)),
        color::rgb_of("azure"@) == Some((240u8, 255u8, 255u8)),
        color::rgb_of("beige"@) == Some((245u8, 245u8, 220u8)),
        color::rgb_of("bisque"@) == Some((255u8, 228u8, 196u8)),
        color::rgb_of("black"@) == Some((0u8, 0u8, 0u8)),
        color::rgb_of("blanchedalmond"@) == Some((255u8, 235u8, 205u8)),
        color::rgb_of("blue"@) == Some((0u8, 0u8, 255u8)),
        color::rgb_of("blueviolet"@) == Some((138u8, 43u8, 226u8)),
        color::rgb_of("brown"@) == Some((165u8, 42u8, 42u8)),
        color::rgb_of("burlywood"@) == Some((222u8, 184u8, 135u8)),
        color::rgb_of("cadetblue"@) == Some((95u8, 158u8, 160u8)),
        color::rgb_of("chartreuse"@) == Some((127u8, 255u8, 0u8)),
        color::rgb_of("chocolate"@) == Some((210u8, 105u8, 30u8)),
        color::rgb_of("coral"@) == Some((255u8, 127u8, 80u8)),
        color::rgb_of("cornflowerblue"@) == Some((100u8, 149u8, 237u8)),
        color::rgb_of("cornsilk"@) == Some((255u8, 248u8, 220u8)),
        color::rgb_of("crimson"@) == Some((220u8, 20u8, 60u8)),
        color::rgb_of("cyan"@) == Some((0u8, 255u8, 255u8)),
{
    reveal_strlit("aliceblue");
    reveal_strlit("antiquewhite");
    reveal_strlit("aqua");
    reveal_strlit("aquamarine");
    reveal_strlit("azure");
    reveal_strlit("beige");
    reveal_strlit("bisque");
    reveal_strlit("black");
    reveal_strlit("blanchedalmond");
    reveal_strlit("blue");
    reveal_strlit("blueviolet");
    reveal_strlit("brown");
    reveal_strlit("burlywood");
    reveal_strlit("cadetblue");
    reveal_strlit("chartreuse");
    reveal_strlit("chocolate");
    reveal_strlit("coral");
    reveal_strlit("cornflowerblue");
    reveal_strlit("cornsilk");
    reveal_strlit("crimson");
    reveal_strlit("cyan");
    assert("aliceblue"@.len() == 9);
    assert("antiquewhite"@.len() == 12);
    assert("aqua"@.len() == 4);
    assert("aquamarine"@.len() == 10);
    assert("azure"@.len() == 5);
    assert("beige"@.len() == 5);
    assert("bisque"@.len() == 6);
    assert("black"@.len() == 5);
    assert("blanchedalmond"@.len() == 14);
    assert("blue"@.len() == 4);
    assert("blueviolet"@.len() == 10);
    assert("brown"@.len() == 5);
    assert("burlywood"@.len() == 9);
    assert("cadetblue"@.len() == 9);
    assert("chartreuse"@.len() == 10);
    assert("chocolate"@.len() == 9);
    assert("coral"@.len() == 5);
    assert("cornflowerblue"@.len() == 14);
    assert("cornsilk"@.len() == 8);
    assert("crimson"@.len() == 7);
    assert("cyan"@.len() == 4);
    assert("beige"@[0] != "azure"@[0]);
    assert("black"@[0] != "azure"@[0]);
    assert("black"@[1] != "beige"@[1]);
    assert("blue"@[0] != "aqua"@[0]);
    assert("blueviolet"@[0] != "aquamarine"@[0]);
    assert("brown"@[0] != "azure"@[0]);
    assert("brown"@[1] != "beige"@[1]);
    assert("brown"@[1] != "black"@[1]);
    assert("burlywood"@[0] != "aliceblue"@[0]);
    assert("cadetblue"@[0] != "aliceblue"@[0]);
    assert("cadetblue"@[0] != "burlywood"@[0]);
    assert("chartreuse"@[0] != "aquamarine"@[0]);
    assert("chartreuse"@[0] != "blueviolet"@[0]);
    assert("chocolate"@[0] != "aliceblue"@[0]);
    assert("chocolate"@[0] != "burlywood"@[0]);
    assert("chocolate"@[1] != "cadetblue"@[1]);
    assert("coral"@[0] != "azure"@[0]);
    assert("coral"@[0] != "beige"@[0]);
    assert("coral"@[0] != "black"@[0]);
    assert("coral"@[0] != "brown"@[0]);
    assert("cornflowerblue"@[0] != "blanchedalmond"@[0]);
    assert("cyan"@[0] != "aqua"@[0]);
    assert("cyan"@[0] != "blue"@[0]);
    color::lemma_one_list("aliceblue"@);
    color::lemma_one_list("antiquewhite"@);
    color::lemma_one_list("aqua"@);
    color::lemma_one_list("aquamarine"@);
    color::lemma_one_list("azure"@);
    color::lemma_one_list("beige"@);
    color::lemma_one_list("bisque"@);
    color::lemma_one_list("black"@);
    color::lemma_one_list("blanchedalmond"@);
    color::lemma_one_list("blue"@);
    color::lemma_one_list("blueviolet"@);
    color::lemma_one_list("brown"@);
    color::lemma_one_list("burlywood"@);
    color::lemma_one_list("cadetblue"@);
    color::lemma_one_list("chartreuse"@);
    color::lemma_one_list("chocolate"@);
    color::lemma_one_list("coral"@);
    color::lemma_one_list("cornflowerblue"@);
    color::lemma_one_list("cornsilk"@);
    color::lemma_one_list("crimson"@);
    color::lemma_one_list("cyan"@);
}

/// The colors whose names begin with d are the standard ones.
#[verifier::spinoff_prover]
#[verifier::rlimit(60)]
pub proof fn standard_colors_d()
    ensures
        color::rgb_of("darkblue"@) == Some((0u8, 0u8, 139u8)),
        color::rgb_of("darkcyan"@) == Some((0u8, 139u8, 139u8)),
        color::rgb_of("darkgoldenrod"@) == Some((184u8, 134u8, 11u8)),
        color::rgb_of("darkgray"@) == Some((169u8, 169u8, 169u8)),
        color::rgb_of("darkgreen"@) == Some((0u8, 100u8, 0u8)),
        color::rgb_of("darkgrey"@) == Some((169u8, 169u8, 169u8)),
        color::rgb_of("darkkhaki"@) == Some((189u8, 183u8, 107u8)),
        color::rgb_of("darkmagenta"@) == Some((139u8, 0u8, 139u8)),
        color::rgb_of("darkolivegreen"@) == Some((85u8, 107u8, 47u8)),
        color::rgb_of("darkorange"@) == Some((255u8, 140u8, 0u8)),
        color::rgb_of("darkorchid"@) == Some((153u8, 50u8, 204u8)),
        color::rgb_of("darkred"@) == Some((139u8, 0u8, 0u8)),
        color::rgb_of("darksalmon"@) == Some((233u8, 150u8, 122u8)),
        color::rgb_of("darkseagreen"@) == Some((143u8, 188u8, 143u8)),
        color::rgb_of("darkslateblue"@) == Some((72u8, 61u8, 139u8)),
        color::rgb_of("darkslategray"@) == Some((47u8, 79u8, 79u8)),
        color::rgb_of("darkslategrey"@) == Some((47u8, 79u8, 79u8)),
        color::rgb_of("darkturquoise"@) == Some((0u8, 206u8, 209u8)),
        color::rgb_of("darkviolet"@) == Some((148u8, 0u8, 211u8)),
        color::rgb_of("deeppink"@) == Some((255u8, 20u8, 147u8)),
        color::rgb_of("deepskyblue"@) == Some((0u8, 191u8, 255u8)),
        color::rgb_of("dimgray"@) == Some((105u8, 105u8, 105u8)),
        color::rgb_of("dimgrey"@) == Some((105u8, 105u8, 105u8)),
        color::rgb_of("dodgerblue"@) == Some((30u8, 144u8, 255u8)),
{
    reveal_strlit("darkblue");
    reveal_strlit("darkcyan");
    reveal_strlit("darkgoldenrod");
    reveal_strlit("darkgray");
    reveal_strlit("darkgreen");
    reveal_strlit("darkgrey");
    reveal_strlit("darkkhaki");
    reveal_strlit("darkmagenta");
    reveal_strlit("darkolivegreen");
    reveal_strlit("darkorange");
    reveal_strlit("darkorchid");
    reveal_strlit("darkred");
    reveal_strlit("darksalmon");
    reveal_strlit("darkseagreen");
    reveal_strlit("darkslateblue");
    reveal_strlit("darkslategray");
    reveal_strlit("darkslategrey");
    reveal_strlit("darkturquoise");
    reveal_strlit("darkviolet");
    reveal_strlit("deeppink");
    reveal_strlit("deepskyblue");
    reveal_strlit("dimgray");
    reveal_strlit("dimgrey");
    reveal_strlit("dodgerblue");
    assert("darkblue"@.len() == 8);
    assert("darkcyan"@.len() == 8);
    assert("darkgoldenrod"@.len() == 13);
    assert("darkgray"@.len() == 8);
    assert("darkgreen"@.len() == 9);
    assert("darkgrey"@.len() == 8);
    assert("darkkhaki"@.len() == 9);
    assert("darkmagenta"@.len() == 11);
    assert("darkolivegreen"@.len() == 14);
    assert("darkorange"@.len() == 10);
    assert("darkorchid"@.len() == 10);
    assert("darkred"@.len() == 7);
    assert("darksalmon"@.len() == 10);
    assert("darkseagreen"@.len() == 12);
    assert("darkslateblue"@.len() == 13);
    assert("darkslategray"@.len() == 13);
    assert("darkslategrey"@.len() == 13);
    assert("darkturquoise"@.len() == 13);
    assert("darkviolet"@.len() == 10);
    assert("deeppink"@.len() == 8);
    assert("deepskyblue"@.len() == 11);
    assert("dimgray"@.len() == 7);
    assert("dimgrey"@.len() == 7);
    assert("dodgerblue"@.len() == 10);
    assert("darkcyan"@[4] != "darkblue"@[4]);
    assert("darkgray"@[4] != "darkblue"@[4]);
    assert("darkgray"@[4] != "darkcyan"@[4]);
    assert("darkgrey"@[4] != "darkblue"@[4]);
    assert("darkgrey"@[4] != "darkcyan"@[4]);
    assert("darkgrey"@[6] != "darkgray"@[6]);
    assert("darkkhaki"@[4] != "darkgreen"@[4]);
    assert("darkorchid"@[6] != "darkorange"@[6]);
    assert("darksalmon"@[4] != "darkorange"@[4]);
    assert("darksalmon"@[4] != "darkorchid"@[4]);
    assert("darkslateblue"@[4] != "darkgoldenrod"@[4]);
    assert("darkslategray"@[4] != "darkgoldenrod"@[4]);
    assert("darkslategray"@[9] != "darkslateblue"@[9]);
    assert("darkslategrey"@[4] != "darkgoldenrod"@[4]);
    assert("darkslategrey"@[9] != "darkslateblue"@[9]);
    assert("darkslategrey"@[11] != "darkslategray"@[11]);
    assert("darkturquoise"@[4] != "darkgoldenrod"@[4]);
    assert("darkturquoise"@[4] != "darkslateblue"@[4]);
    assert("darkturquoise"@[4] != "darkslategray"@[4]);
    assert("darkturquoise"@[4] != "darkslategrey"@[4]);
    assert("darkviolet"@[4] != "darkorange"@[4]);
    assert("darkviolet"@[4] != "darkorchid"@[4]);
    assert("darkviolet"@[4] != "darksalmon"@[4]);
    assert("deeppink"@[1] != "darkblue"@[1]);
    assert("deeppink"@[1] != "darkcyan"@[1]);
    assert("deeppink"@[1] != "darkgray"@[1]);
    assert("deeppink"@[1] != "darkgrey"@[1]);
    assert("deepskyblue"@[1] != "darkmagenta"@[1]);
    assert("dimgray"@[1] != "darkred"@[1]);
    assert("dimgrey"@[1] != "darkred"@[1]);
    assert("dimgrey"@[5] != "dimgray"@[5]);
    assert("dodgerblue"@[1] != "darkorange"@[1]);
    assert("dodgerblue"@[1] != "darkorchid"@[1]);
    assert("dodgerblue"@[1] != "darksalmon"@[1]);
    assert("dodgerblue"@[1] != "darkviolet"@[1]);
    color::lemma_one_list("darkblue"@);
    color::lemma_one_list("darkcyan"@);
    color::lemma_one_list("darkgoldenrod"@);
    color::lemma_one_list("darkgray"@);
    color::lemma_one_list("darkgreen"@);
    color::lemma_one_list("darkgrey"@);
    color::lemma_one_list("darkkhaki"@);
    color::lemma_one_list("darkmagenta"@);
    color::lemma_one_list("darkolivegreen"@);
    color::lemma_one_list("darkorange"@);
    color::lemma_one_list("darkorchid"@);
    color::lemma_one_list("darkred"@);
    color::lemma_one_list("darksalmon"@);
    color::lemma_one_list("darkseagreen"@);
    color::lemma_one_list("darkslateblue"@);
    color::lemma_one_list("darkslategray"@);
    color::lemma_one_list("darkslategrey"@);
    color::lemma_one_list("darkturquoise"@);
    color::lemma_one_list("darkviolet"@);
    color::lemma_one_list("deeppink"@);
    color::lemma_one_list("deepskyblue"@);
    color::lemma_one_list("dimgray"@);
    color::lemma_one_list("dimgrey"@);
    color::lemma_one_list("dodgerblue"@);
}

/// The colors whose names begin with e to k are the standard ones.
#[verifier::spinoff_prover]
#[verifier::rlimit(60)]
pub proof fn standard_colors_e_to_k()
    ensures
        color::rgb_of("firebrick"@) == Some((178u8, 34u8, 34u8)),
        color::rgb_of("floralwhite"@) == Some((255u8, 250u8, 240u8)),
        color::rgb_of("forestgreen"@) == Some((34u8, 139u8, 34u8)),
        color::rgb_of("fuchsia"@) == Some((255u8, 0u8, 255u8)),
        color::rgb_of("gainsboro"@) == Some((220u8, 220u8, 220u8)),
        color::rgb_of("ghostwhite"@) == Some((248u8, 248u8, 255u8)),
        color::rgb_of("gold"@) == Some((255u8, 215u8, 0u8)),
        color::rgb_of("goldenrod"@) == Some((218u8, 165u8, 32u8)),
        color::rgb_of("gray"@) == Some((128u8, 128u8, 128u8)),
        color::rgb_of("green"@) == Some((0u8, 128u8, 0u8)),
        color::rgb_of("greenyellow"@) == Some((173u8, 255u8, 47u8)),
        color::rgb_of("grey"@) == Some((128u8, 128u8, 128u8)),
        color::rgb_of("honeydew"@) == Some((240u8, 255u8, 240u8)),
        color::rgb_of("hotpink"@) == Some((255u8, 105u8, 180u8)),
        color::rgb_of("indianred"@) == Some((205u8, 92u8, 92u8)),
        color::rgb_of("indigo"@) == Some((75u8, 0u8, 130u8)),
        color::rgb_of("ivory"@) == Some((255u8, 255u8, 240u8)),
        color::rgb_of("khaki"@) == Some((240u8, 230u8, 140u8)),
{
    reveal_strlit("firebrick");
    reveal_strlit("floralwhite");
    reveal_strlit("forestgreen");
    reveal_strlit("fuchsia");
    reveal_strlit("gainsboro");
    reveal_strlit("ghostwhite");
    reveal_strlit("gold");
    reveal_strlit("goldenrod");
    reveal_strlit("gray");
    reveal_strlit("green");
    reveal_strlit("greenyellow");
    reveal_strlit("grey");
    reveal_strlit("honeydew");
    reveal_strlit("hotpink");
    reveal_strlit("indianred");
    reveal_strlit("indigo");
    reveal_strlit("ivory");
    reveal_strlit("khaki");
    assert("firebrick"@.len() == 9);
    assert("floralwhite"@.len() == 11);
    assert("forestgreen"@.len() == 11);
    assert("fuchsia"@.len() == 7);
    assert("gainsboro"@.len() == 9);
    assert("ghostwhite"@.len() == 10);
    assert("gold"@.len() == 4);
    assert("goldenrod"@.len() == 9);
    assert("gray"@.len() == 4);
    assert("green"@.len() == 5);
    assert("greenyellow"@.len() == 11);
    assert("grey"@.len() == 4);
    assert("honeydew"@.len() == 8);
    assert("hotpink"@.len() == 7);
    assert("indianred"@.len() == 9);
    assert("indigo"@.len() == 6);
    assert("ivory"@.len() == 5);
    assert("khaki"@.len() == 5);
    assert("forestgreen"@[1] != "floralwhite"@[1]);
    assert("gainsboro"@[0] != "firebrick"@[0]);
    assert("goldenrod"@[0] != "firebrick"@[0]);
    assert("goldenrod"@[1] != "gainsboro"@[1]);
    assert("gray"@[1] != "gold"@[1]);
    assert("greenyellow"@[0] != "floralwhite"@[0]);
    assert("greenyellow"@[0] != "forestgreen"@[0]);
    assert("grey"@[1] != "gold"@[1]);
    assert("grey"@[2] != "gray"@[2]);
    assert("hotpink"@[0] != "fuchsia"@[0]);
    assert("indianred"@[0] != "firebrick"@[0]);
    assert("indianred"@[0] != "gainsboro"@[0]);
    assert("indianred"@[0] != "goldenrod"@[0]);
    assert("ivory"@[0] != "green"@[0]);
    assert("khaki"@[0] != "green"@[0]);
    assert("khaki"@[0] != "ivory"@[0]);
    color::lemma_one_list("firebrick"@);
    color::lemma_one_list("floralwhite"@);
    color::lemma_one_list("forestgreen"@);
    color::lemma_one_list("fuchsia"@);
    color::lemma_one_list("gainsboro"@);
    color::lemma_one_list("ghostwhite"@);
    color::lemma_one_list("gold"@);
    color::lemma_one_list("goldenrod"@);
    color::lemma_one_list("gray"@);
    color::lemma_one_list("green"@);
    color::lemma_one_list("greenyellow"@);
    color::lemma_one_list("grey"@);
    color::lemma_one_list("honeydew"@);
    color::lemma_one_list("hotpink"@);
    color::lemma_one_list("indianred"@);
    color::lemma_one_list("indigo"@);
    color::lemma_one_list("ivory"@);
    color::lemma_one_list("khaki"@);
}

/// The colors whose names begin with l are the standard ones.
#[verifier::spinoff_prover]
#[verifier::rlimit(60)]
pub proof fn standard_colors_l()
    ensures
        color::rgb_of("lavender"@) == Some((230u8, 230u8, 250u8)),
        color::rgb_of("lavenderblush"@) == Some((255u8, 240u8, 245u8)),
        color::rgb_of("lawngreen"@) == Some((124u8, 252u8, 0u8)),
        color::rgb_of("lemonchiffon"@) == Some((255u8, 250u8, 205u8)),
        color::rgb_of("lightblue"@) == Some((173u8, 216u8, 230u8)),
        color::rgb_of("lightcoral"@) == Some((240u8, 128u8, 128u8)),
        color::rgb_of("lightcyan"@) == Some((224u8, 255u8, 255u8)),
        color::rgb_of("lightgoldenrodyellow"@) == Some((250u8, 250u8, 210u8)),
        color::rgb_of("lightgray"@) == Some((211u8, 211u8, 211u8)),
        color::rgb_of("lightgreen"@) == Some((144u8, 238u8, 144u8)),
        color::rgb_of("lightgrey"@) == Some((211u8, 211u8, 211u8)),
        color::rgb_of("lightpink"@) == Some((255u8, 182u8, 193u8)),
        color::rgb_of("lightsalmon"@) == Some((255u8, 160u8, 122u8)),
        color::rgb_of("lightseagreen"@) == Some((32u8, 178u8, 170u8)),
        color::rgb_of("lightskyblue"@) == Some((135u8, 206u8, 250u8)),
        color::rgb_of("lightslategray"@) == Some((119u8, 136u8, 153u8)),
        color::rgb_of("lightslategrey"@) == Some((119u8, 136u8, 153u8)),
        color::rgb_of("lightsteelblue"@) == Some((176u8, 196u8, 222u8)),
        color::rgb_of("lightyellow"@) == Some((255u8, 255u8, 224u8)),
        color::rgb_of("lime"@) == Some((0u8, 255u8, 0u8)),
        color::rgb_of("limegreen"@) == Some((50u8, 205u8, 50u8)),
        color::rgb_of("linen"@) == Some((250u8, 240u8, 230u8)),
{
    reveal_strlit("lavender");
    reveal_strlit("lavenderblush");
    reveal_strlit("lawngreen");
    reveal_strlit("lemonchiffon");
    reveal_strlit("lightblue");
    reveal_strlit("lightcoral");
    reveal_strlit("lightcyan");
    reveal_strlit("lightgoldenrodyellow");
    reveal_strlit("lightgray");
    reveal_strlit("lightgreen");
    reveal_strlit("lightgrey");
    reveal_strlit("lightpink");
    reveal_strlit("lightsalmon");
    reveal_strlit("lightseagreen");
    reveal_strlit("lightskyblue");
    reveal_strlit("lightslategray");
    reveal_strlit("lightslategrey");
    reveal_strlit("lightsteelblue");
    reveal_strlit("lightyellow");
    reveal_strlit("lime");
    reveal_strlit("limegreen");
    reveal_strlit("linen");
    assert("lavender"@.len() == 8);
    assert("lavenderblush"@.len() == 13);
    assert("lawngreen"@.len() == 9);
    assert("lemonchiffon"@.len() == 12);
    assert("lightblue"@.len() == 9);
    assert("lightcoral"@.len() == 10);
    assert("lightcyan"@.len() == 9);
    assert("lightgoldenrodyellow"@.len() == 20);
    assert("lightgray"@.len() == 9);
    assert("lightgreen"@.len() == 10);
    assert("lightgrey"@.len() == 9);
    assert("lightpink"@.len() == 9);
    assert("lightsalmon"@.len() == 11);
    assert("lightseagreen"@.len() == 13);
    assert("lightskyblue"@.len() == 12);
    assert("lightslategray"@.len() == 14);
    assert("lightslategrey"@.len() == 14);
    assert("lightsteelblue"@.len() == 14);
    assert("lightyellow"@.len() == 11);
    assert("lime"@.len() == 4);
    assert("limegreen"@.len() == 9);
    assert("linen"@.len() == 5);
    assert("lightblue"@[1] != "lawngreen"@[1]);
    assert("lightcyan"@[1] != "lawngreen"@[1]);
    assert("lightcyan"@[5] != "lightblue"@[5]);
    assert("lightgray"@[1] != "lawngreen"@[1]);
    assert("lightgray"@[5] != "lightblue"@[5]);
    assert("lightgray"@[5] != "lightcyan"@[5]);
    assert("lightgreen"@[5] != "lightcoral"@[5]);
    assert("lightgrey"@[1] != "lawngreen"@[1]);
    assert("lightgrey"@[5] != "lightblue"@[5]);
    assert("lightgrey"@[5] != "lightcyan"@[5]);
    assert("lightgrey"@[7] != "lightgray"@[7]);
    assert("lightpink"@[1] != "lawngreen"@[1]);
    assert("lightpink"@[5] != "lightblue"@[5]);
    assert("lightpink"@[5] != "lightcyan"@[5]);
    assert("lightpink"@[5] != "lightgray"@[5]);
    assert("lightpink"@[5] != "lightgrey"@[5]);
    assert("lightseagreen"@[1] != "lavenderblush"@[1]);
    assert("lightskyblue"@[1] != "lemonchiffon"@[1]);
    assert("lightslategrey"@[12] != "lightslategray"@[12]);
    assert("lightsteelblue"@[6] != "lightslategray"@[6]);
    assert("lightsteelblue"@[6] != "lightslategrey"@[6]);
    assert("lightyellow"@[5] != "lightsalmon"@[5]);
    assert("limegreen"@[1] != "lawngreen"@[1]);
    assert("limegreen"@[2] != "lightblue"@[2]);
    assert("limegreen"@[2] != "lightcyan"@[2]);
    assert("limegreen"@[2] != "lightgray"@[2]);
    assert("limegreen"@[2] != "lightgrey"@[2]);
    assert("limegreen"@[2] != "lightpink"@[2]);
    color::lemma_one_list("lavender"@);
    color::lemma_one_list("lavenderblush"@);
    color::lemma_one_list("lawngreen"@);
    color::lemma_one_list("lemonchiffon"@);
    color::lemma_one_list("lightblue"@);
    color::lemma_one_list("lightcoral"@);
    color::lemma_one_list("lightcyan"@);
    color::lemma_one_list("lightgoldenrodyellow"@);
    color::lemma_one_list("lightgray"@);
    color::lemma_one_list("lightgreen"@);
    color::lemma_one_list("lightgrey"@);
    color::lemma_one_list("lightpink"@);
    color::lemma_one_list("lightsalmon"@);
    color::lemma_one_list("lightseagreen"@);
    color::lemma_one_list("lightskyblue"@);
    color::lemma_one_list("lightslategray"@);
    color::lemma_one_list("lightslategrey"@);
    color::lemma_one_list("lightsteelblue"@);
    color::lemma_one_list("lightyellow"@);
    color::lemma_one_list("lime"@);
    color::lemma_one_list("limegreen"@);
    color::lemma_one_list("linen"@);
}

/// The colors whose names begin with m are the standard ones.
#[verifier::spinoff_prover]
#[verifier::rlimit(60)]
pub proof fn standard_colors_m()
    ensures
        color::rgb_of("magenta"@) == Some((255u8, 0u8, 255u8)),
        color::rgb_of("maroon"@) == Some((128u8, 0u8, 0u8)),
        color::rgb_of("mediumaquamarine"@) == Some((102u8, 205u8, 170u8)),
        color::rgb_of("mediumblue"@) == Some((0u8, 0u8, 205u8)),
        color::rgb_of("mediumorchid"@) == Some((186u8, 85u8, 211u8)),
        color::rgb_of("mediumpurple"@) == Some((147u8, 112u8, 219u8)),
        color::rgb_of("mediumseagreen"@) == Some((60u8, 179u8, 113u8)),
        color::rgb_of("mediumslateblue"@) == Some((123u8, 104u8, 238u8)),
        color::rgb_of("mediumspringgreen"@) == Some((0u8, 250u8, 154u8)),
        color::rgb_of("mediumturquoise"@) == Some((72u8, 209u8, 204u8)),
        color::rgb_of("mediumvioletred"@) == Some((199u8, 21u8, 133u8)),
        color::rgb_of("midnightblue"@) == Some((25u8, 25u8, 112u8)),
        color::rgb_of("mintcream"@) == Some((245u8, 255u8, 250u8)),
        color::rgb_of("mistyrose"@) == Some((255u8, 228u8, 225u8)),
        color::rgb_of("moccasin"@) == Some((255u8, 228u8, 181u8)),
{
    reveal_strlit("magenta");
    reveal_strlit("maroon");
    reveal_strlit("mediumaquamarine");
    reveal_strlit("mediumblue");
    reveal_strlit("mediumorchid");
    reveal_strlit("mediumpurple");
    reveal_strlit("mediumseagreen");
    reveal_strlit("mediumslateblue");
    reveal_strlit("mediumspringgreen");
    reveal_strlit("mediumturquoise");
    reveal_strlit("mediumvioletred");
    reveal_strlit("midnightblue");
    reveal_strlit("mintcream");
    reveal_strlit("mistyrose");
    reveal_strlit("moccasin");
    assert("magenta"@.len() == 7);
    assert("maroon"@.len() == 6);
    assert("mediumaquamarine"@.len() == 16);
    assert("mediumblue"@.len() == 10);
    assert("mediumorchid"@.len() == 12);
    assert("mediumpurple"@.len() == 12);
    assert("mediumseagreen"@.len() == 14);
    assert("mediumslateblue"@.len() == 15);
    assert("mediumspringgreen"@.len() == 17);
    assert("mediumturquoise"@.len() == 15);
    assert("mediumvioletred"@.len() == 15);
    assert("midnightblue"@.len() == 12);
    assert("mintcream"@.len() == 9);
    assert("mistyrose"@.len() == 9);
    assert("moccasin"@.len() == 8);
    assert("mediumpurple"@[6] != "mediumorchid"@[6]);
    assert("mediumturquoise"@[6] != "mediumslateblue"@[6]);
    assert("mediumvioletred"@[6] != "mediumslateblue"@[6]);
    assert("mediumvioletred"@[6] != "mediumturquoise"@[6]);
    assert("midnightblue"@[1] != "mediumorchid"@[1]);
    assert("midnightblue"@[1] != "mediumpurple"@[1]);
    assert("mistyrose"@[2] != "mintcream"@[2]);
    color::lemma_one_list("magenta"@);
    color::lemma_one_list("maroon"@);
    color::lemma_one_list("mediumaquamarine"@);
    color::lemma_one_list("mediumblue"@);
    color::lemma_one_list("mediumorchid"@);
    color::lemma_one_list("mediumpurple"@);
    color::lemma_one_list("mediumseagreen"@);
    color::lemma_one_list("mediumslateblue"@);
    color::lemma_one_list("mediumspringgreen"@);
    color::lemma_one_list("mediumturquoise"@);
    color::lemma_one_list("mediumvioletred"@);
    color::lemma_one_list("midnightblue"@);
    color::lemma_one_list("mintcream"@);
    color::lemma_one_list("mistyrose"@);
    color::lemma_one_list("moccasin"@);
}

/// The colors whose names begin with n to q are the standard ones.
#[verifier::spinoff_prover]
#[verifier::rlimit(60)]
pub proof fn standard_colors_n_to_q()
    ensures
        color::rgb_of("navajowhite"@) == Some((255u8, 222u8, 173u8)),
        color::rgb_of("navy"@) == Some((0u8, 0u8, 128u8)),
        color::rgb_of("oldlace"@) == Some((253u8, 245u8, 230u8)),
        color::rgb_of("olive"@) == Some((128u8, 128u8, 0u8)),
        color::rgb_of("olivedrab"@) == Some((107u8, 142u8, 35u8)),
        color::rgb_of("orange"@) == Some((255u8, 165u8, 0u8)),
        color::rgb_of("orangered"@) == Some((255u8, 69u8, 0u8)),
        color::rgb_of("orchid"@) == Some((218u8, 112u8, 214u8)),
        color::rgb_of("palegoldenrod"@) == Some((238u8, 232u8, 170u8)),
        color::rgb_of("palegreen"@) == Some((152u8, 251u8, 152u8)),
        color::rgb_of("paleturquoise"@) == Some((175u8, 238u8, 238u8)),
        color::rgb_of("palevioletred"@) == Some((219u8, 112u8, 147u8)),
        color::rgb_of("papayawhip"@) == Some((255u8, 239u8, 213u8)),
        color::rgb_of("peachpuff"@) == Some((255u8, 218u8, 185u8)),
        color::rgb_of("peru"@) == Some((205u8, 133u8, 63u8)),
        color::rgb_of("pink"@) == Some((255u8, 192u8, 203u8)),
        color::rgb_of("plum"@) == Some((221u8, 160u8, 221u8)),
        color::rgb_of("powderblue"@) == Some((176u8, 224u8, 230u8)),
        color::rgb_of("purple"@) == Some((128u8, 0u8, 128u8)),
{
    reveal_strlit("navajowhite");
    reveal_strlit("navy");
    reveal_strlit("oldlace");
    reveal_strlit("olive");
    reveal_strlit("olivedrab");
    reveal_strlit("orange");
    reveal_strlit("orangered");
    reveal_strlit("orchid");
    reveal_strlit("palegoldenrod");
    reveal_strlit("palegreen");
    reveal_strlit("paleturquoise");
    reveal_strlit("palevioletred");
    reveal_strlit("papayawhip");
    reveal_strlit("peachpuff");
    reveal_strlit("peru");
    reveal_strlit("pink");
    reveal_strlit("plum");
    reveal_strlit("powderblue");
    reveal_strlit("purple");
    assert("navajowhite"@.len() == 11);
    assert("navy"@.len() == 4);
    assert("oldlace"@.len() == 7);
    assert("olive"@.len() == 5);
    assert("olivedrab"@.len() == 9);
    assert("orange"@.len() == 6);
    assert("orangered"@.len() == 9);
    assert("orchid"@.len() == 6);
    assert("palegoldenrod"@.len() == 13);
    assert("palegreen"@.len() == 9);
    assert("paleturquoise"@.len() == 13);
    assert("palevioletred"@.len() == 13);
    assert("papayawhip"@.len() == 10);
    assert("peachpuff"@.len() == 9);
    assert("peru"@.len() == 4);
    assert("pink"@.len() == 4);
    assert("plum"@.len() == 4);
    assert("powderblue"@.len() == 10);
    assert("purple"@.len() == 6);
    assert("orangered"@[1] != "olivedrab"@[1]);
    assert("orchid"@[2] != "orange"@[2]);
    assert("palegreen"@[0] != "olivedrab"@[0]);
    assert("palegreen"@[0] != "orangered"@[0]);
    assert("paleturquoise"@[4] != "palegoldenrod"@[4]);
    assert("palevioletred"@[4] != "palegoldenrod"@[4]);
    assert("palevioletred"@[4] != "paleturquoise"@[4]);
    assert("peachpuff"@[0] != "olivedrab"@[0]);
    assert("peachpuff"@[0] != "orangered"@[0]);
    assert("peachpuff"@[1] != "palegreen"@[1]);
    assert("peru"@[0] != "navy"@[0]);
    assert("pink"@[0] != "navy"@[0]);
    assert("pink"@[1] != "peru"@[1]);
    assert("plum"@[0] != "navy"@[0]);
    assert("plum"@[1] != "peru"@[1]);
    assert("plum"@[1] != "pink"@[1]);
    assert("powderblue"@[1] != "papayawhip"@[1]);
    assert("purple"@[0] != "orange"@[0]);
    assert("purple"@[0] != "orchid"@[0]);
    color::lemma_one_list("navajowhite"@);
    color::lemma_one_list("navy"@);
    color::lemma_one_list("oldlace"@);
    color::lemma_one_list("olive"@);
    color::lemma_one_list("olivedrab"@);
    color::lemma_one_list("orange"@);
    color::lemma_one_list("orangered"@);
    color::lemma_one_list("orchid"@);
    color::lemma_one_list("palegoldenrod"@);
    color::lemma_one_list("palegreen"@);
    color::lemma_one_list("paleturquoise"@);
    color::lemma_one_list("palevioletred"@);
    color::lemma_one_list("papayawhip"@);
    color::lemma_one_list("peachpuff"@);
    color::lemma_one_list("peru"@);
    color::lemma_one_list("pink"@);
    color::lemma_one_list("plum"@);
    color::lemma_one_list("powderblue"@);
    color::lemma_one_list("purple"@);
}

/// The colors whose names begin with r to z are the standard ones.
#[verifier::spinoff_prover]
#[verifier::rlimit(60)]
pub proof fn standard_colors_r_to_z()
    ensures
        color::rgb_of("rebeccapurple"@) == Some((102u8, 51u8, 153u8)),
        color::rgb_of("red"@) == Some((255u8, 0u8, 0u8)),
        color::rgb_of("rosybrown"@) == Some((188u8, 143u8, 143u8)),
        color::rgb_of("royalblue"@) == Some((65u8, 105u8, 225u8)),
        color::rgb_of("saddlebrown"@) == Some((139u8, 69u8, 19u8)),
        color::rgb_of("salmon"@) == Some((250u8, 128u8, 114u8)),
        color::rgb_of("sandybrown"@) == Some((244u8, 164u8, 96u8)),
        color::rgb_of("seagreen"@) == Some((46u8, 139u8, 87u8)),
        color::rgb_of("seashell"@) == Some((255u8, 245u8, 238u8)),
        color::rgb_of("sienna"@) == Some((160u8, 82u8, 45u8)),
        color::rgb_of("silver"@) == Some((192u8, 192u8, 192u8)),
        color::rgb_of("skyblue"@) == Some((135u8, 206u8, 235u8)),
        color::rgb_of("slateblue"@) == Some((106u8, 90u8, 205u8)),
        color::rgb_of("slategray"@) == Some((112u8, 128u8, 144u8)),
        color::rgb_of("slategrey"@) == Some((112u8, 128u8, 144u8)),
        color::rgb_of("snow"@) == Some((255u8, 250u8, 250u8)),
        color::rgb_of("springgreen"@) == Some((0u8, 255u8, 127u8)),
        color::rgb_of("steelblue"@) == Some((70u8, 130u8, 180u8)),
        color::rgb_of("tan"@) == Some((210u8, 180u8, 140u8)),
        color::rgb_of("teal"@) == Some((0u8, 128u8, 128u8)),
        color::rgb_of("thistle"@) == Some((216u8, 191u8, 216u8)),
        color::rgb_of("tomato"@) == Some((255u8, 99u8, 71u8)),
        color::rgb_of("turquoise"@) == Some((64u8, 224u8, 208u8)),
        color::rgb_of("violet"@) == Some((238u8, 130u8, 238u8)),
        color::rgb_of("wheat"@) == Some((245u8, 222u8, 179u8)),
        color::rgb_of("white"@) == Some((255u8, 255u8, 255u8)),
        color::rgb_of("whitesmoke"@) == Some((245u8, 245u8, 245u8)),
        color::rgb_of("yellow"@) == Some((255u8, 255u8, 0u8)),
        color::rgb_of("yellowgreen"@) == Some((154u8, 205u8, 50u8)),
{
    reveal_strlit("rebeccapurple");
    reveal_strlit("red");
    reveal_strlit("rosybrown");
    reveal_strlit("royalblue");
    reveal_strlit("saddlebrown");
    reveal_strlit("salmon");
    reveal_strlit("sandybrown");
    reveal_strlit("seagreen");
    reveal_strlit("seashell");
    reveal_strlit("sienna");
    reveal_strlit("silver");
    reveal_strlit("skyblue");
    reveal_strlit("slateblue");
    reveal_strlit("slategray");
    reveal_strlit("slategrey");
    reveal_strlit("snow");
    reveal_strlit("springgreen");
    reveal_strlit("steelblue");
    reveal_strlit("tan");
    reveal_strlit("teal");
    reveal_strlit("thistle");
    reveal_strlit("tomato");
    reveal_strlit("turquoise");
    reveal_strlit("violet");
    reveal_strlit("wheat");
    reveal_strlit("white");
    reveal_strlit("whitesmoke");
    reveal_strlit("yellow");
    reveal_strlit("yellowgreen");
    assert("rebeccapurple"@.len() == 13);
    assert("red"@.len() == 3);
    assert("rosybrown"@.len() == 9);
    assert("royalblue"@.len() == 9);
    assert("saddlebrown"@.len() == 11);
    assert("salmon"@.len() == 6);
    assert("sandybrown"@.len() == 10);
    assert("seagreen"@.len() == 8);
    assert("seashell"@.len() == 8);
    assert("sienna"@.len() == 6);
    assert("silver"@.len() == 6);
    assert("skyblue"@.len() == 7);
    assert("slateblue"@.len() == 9);
    assert("slategray"@.len() == 9);
    assert("slategrey"@.len() == 9);
    assert("snow"@.len() == 4);
    assert("springgreen"@.len() == 11);
    assert("steelblue"@.len() == 9);
    assert("tan"@.len() == 3);
    assert("teal"@.len() == 4);
    assert("thistle"@.len() == 7);
    assert("tomato"@.len() == 6);
    assert("turquoise"@.len() == 9);
    assert("violet"@.len() == 6);
    assert("wheat"@.len() == 5);
    assert("white"@.len() == 5);
    assert("whitesmoke"@.len() == 10);
    assert("yellow"@.len() == 6);
    assert("yellowgreen"@.len() == 11);
    assert("royalblue"@[2] != "rosybrown"@[2]);
    assert("seashell"@[3] != "seagreen"@[3]);
    assert("sienna"@[1] != "salmon"@[1]);
    assert("silver"@[1] != "salmon"@[1]);
    assert("silver"@[2] != "sienna"@[2]);
    assert("slateblue"@[0] != "rosybrown"@[0]);
    assert("slateblue"@[0] != "royalblue"@[0]);
    assert("slategray"@[0] != "rosybrown"@[0]);
    assert("slategray"@[0] != "royalblue"@[0]);
    assert("slategray"@[5] != "slateblue"@[5]);
    assert("slategrey"@[0] != "rosybrown"@[0]);
    assert("slategrey"@[0] != "royalblue"@[0]);
    assert("slategrey"@[5] != "slateblue"@[5]);
    assert("slategrey"@[7] != "slategray"@[7]);
    assert("springgreen"@[1] != "saddlebrown"@[1]);
    assert("steelblue"@[0] != "rosybrown"@[0]);
    assert("steelblue"@[0] != "royalblue"@[0]);
    assert("steelblue"@[1] != "slateblue"@[1]);
    assert("steelblue"@[1] != "slategray"@[1]);
    assert("steelblue"@[1] != "slategrey"@[1]);
    assert("tan"@[0] != "red"@[0]);
    assert("teal"@[0] != "snow"@[0]);
    assert("thistle"@[0] != "skyblue"@[0]);
    assert("tomato"@[0] != "salmon"@[0]);
    assert("tomato"@[0] != "sienna"@[0]);
    assert("tomato"@[0] != "silver"@[0]);
    assert("turquoise"@[0] != "rosybrown"@[0]);
    assert("turquoise"@[0] != "royalblue"@[0]);
    assert("turquoise"@[0] != "slateblue"@[0]);
    assert("turquoise"@[0] != "slategray"@[0]);
    assert("turquoise"@[0] != "slategrey"@[0]);
    assert("turquoise"@[0] != "steelblue"@[0]);
    assert("violet"@[0] != "salmon"@[0]);
    assert("violet"@[0] != "sienna"@[0]);
    assert("violet"@[0] != "silver"@[0]);
    assert("violet"@[0] != "tomato"@[0]);
    assert("white"@[2] != "wheat"@[2]);
    assert("whitesmoke"@[0] != "sandybrown"@[0]);
    assert("yellow"@[0] != "salmon"@[0]);
    assert("yellow"@[0] != "sienna"@[0]);
    assert("yellow"@[0] != "silver"@[0]);
    assert("yellow"@[0] != "tomato"@[0]);
    assert("yellow"@[0] != "violet"@[0]);
    assert("yellowgreen"@[0] != "saddlebrown"@[0]);
    assert("yellowgreen"@[0] != "springgreen"@[0]);
    color::lemma_one_list("rebeccapurple"@);
    color::lemma_one_list("red"@);
    color::lemma_one_list("rosybrown"@);
    color::lemma_one_list("royalblue"@);
    color::lemma_one_list("saddlebrown"@);
    color::lemma_one_list("salmon"@);
    color::lemma_one_list("sandybrown"@);
    color::lemma_one_list("seagreen"@);
    color::lemma_one_list("seashell"@);
    color::lemma_one_list("sienna"@);
    color::lemma_one_list("silver"@);
    color::lemma_one_list("skyblue"@);
    color::lemma_one_list("slateblue"@);
    color::lemma_one_list("slategray"@);
    color::lemma_one_list("slategrey"@);
    color::lemma_one_list("snow"@);
    color::lemma_one_list("springgreen"@);
    color::lemma_one_list("steelblue"@);
    color::lemma_one_list("tan"@);
    color::lemma_one_list("teal"@);
    color::lemma_one_list("thistle"@);
    color::lemma_one_list("tomato"@);
    color::lemma_one_list("turquoise"@);
    color::lemma_one_list("violet"@);
    color::lemma_one_list("wheat"@);
    color::lemma_one_list("white"@);
    color::lemma_one_list("whitesmoke"@);
    color::lemma_one_list("yellow"@);
    color::lemma_one_list("yellowgreen"@);
}

} // verus!
