//! Punctuation and symbol table of the Basic Multilingual Plane.
//!
//! Every code point of the BMP whose Unicode general category is punctuation
//! (`P*`) or symbol (`S*`) is listed, as ranges in ascending order, with the
//! symbol sub-kind it gets: sentence stops, pauses, opening brackets and
//! quotes (`Ps`, `Pi`), closing ones (`Pe`, `Pf`), and plain symbols.

use vstd::prelude::*;

use super::CharType;

verus! {

/// The symbol kind of `cp` according to the table; `Other` when `cp` is no
/// punctuation or symbol of the BMP.
pub open spec fn spec_symbol_class(cp: u32) -> CharType {
    if cp == 0x0021 {
        CharType::SymbolStop
    } else if 0x0022 <= cp <= 0x0027 {
        CharType::Symbol
    } else if cp == 0x0028 {
        CharType::SymbolOpen
    } else if cp == 0x0029 {
        CharType::SymbolClose
    } else if 0x002A <= cp <= 0x002B {
        CharType::Symbol
    } else if cp == 0x002C {
        CharType::SymbolPause
    } else if cp == 0x002D {
        CharType::Symbol
    } else if cp == 0x002E {
        CharType::SymbolStop
    } else if cp == 0x002F {
        CharType::Symbol
    } else if 0x003A <= cp <= 0x003E {
        CharType::Symbol
    } else if cp == 0x003F {
        CharType::SymbolStop
    } else if cp == 0x0040 {
        CharType::Symbol
    } else if cp == 0x005B {
        CharType::SymbolOpen
    } else if cp == 0x005C {
        CharType::Symbol
    } else if cp == 0x005D {
        CharType::SymbolClose
    } else if 0x005E <= cp <= 0x0060 {
        CharType::Symbol
    } else if cp == 0x007B {
        CharType::SymbolOpen
    } else if cp == 0x007C {
        CharType::Symbol
    } else if cp == 0x007D {
        CharType::SymbolClose
    } else if cp == 0x007E {
        CharType::Symbol
    } else if 0x00A1 <= cp <= 0x00A9 {
        CharType::Symbol
    } else if cp == 0x00AB {
        CharType::SymbolOpen
    } else if cp == 0x00AC {
        CharType::Symbol
    } else if 0x00AE <= cp <= 0x00B1 {
        CharType::Symbol
    } else if cp == 0x00B4 {
        CharType::Symbol
    } else if 0x00B6 <= cp <= 0x00B8 {
        CharType::Symbol
    } else if cp == 0x00BB {
        CharType::SymbolClose
    } else if cp == 0x00BF {
        CharType::Symbol
    } else if cp == 0x00D7 {
        CharType::Symbol
    } else if cp == 0x00F7 {
        CharType::Symbol
    } else if 0x02C2 <= cp <= 0x02C5 {
        CharType::Symbol
    } else if 0x02D2 <= cp <= 0x02DF {
        CharType::Symbol
    } else if 0x02E5 <= cp <= 0x02EB {
        CharType::Symbol
    } else if cp == 0x02ED {
        CharType::Symbol
    } else if 0x02EF <= cp <= 0x02FF {
        CharType::Symbol
    } else if cp == 0x0375 {
        CharType::Symbol
    } else if cp == 0x037E {
        CharType::Symbol
    } else if 0x0384 <= cp <= 0x0385 {
        CharType::Symbol
    } else if cp == 0x0387 {
        CharType::Symbol
    } else if cp == 0x03F6 {
        CharType::Symbol
    } else if cp == 0x0482 {
        CharType::Symbol
    } else if 0x055A <= cp <= 0x055F {
        CharType::Symbol
    } else if 0x0589 <= cp <= 0x058A {
        CharType::Symbol
    } else if 0x058D <= cp <= 0x058F {
        CharType::Symbol
    } else if cp == 0x05BE {
        CharType::Symbol
    } else if cp == 0x05C0 {
        CharType::Symbol
    } else if cp == 0x05C3 {
        CharType::Symbol
    } else if cp == 0x05C6 {
        CharType::Symbol
    } else if 0x05F3 <= cp <= 0x05F4 {
        CharType::Symbol
    } else if 0x0606 <= cp <= 0x060F {
        CharType::Symbol
    } else if cp == 0x061B {
        CharType::Symbol
    } else if 0x061D <= cp <= 0x061F {
        CharType::Symbol
    } else if 0x066A <= cp <= 0x066D {
        CharType::Symbol
    } else if cp == 0x06D4 {
        CharType::Symbol
    } else if cp == 0x06DE {
        CharType::Symbol
    } else if cp == 0x06E9 {
        CharType::Symbol
    } else if 0x06FD <= cp <= 0x06FE {
        CharType::Symbol
    } else if 0x0700 <= cp <= 0x070D {
        CharType::Symbol
    } else if 0x07F6 <= cp <= 0x07F9 {
        CharType::Symbol
    } else if 0x07FE <= cp <= 0x07FF {
        CharType::Symbol
    } else if 0x0830 <= cp <= 0x083E {
        CharType::Symbol
    } else if cp == 0x085E {
        CharType::Symbol
    } else if cp == 0x0888 {
        CharType::Symbol
    } else if 0x0964 <= cp <= 0x0965 {
        CharType::Symbol
    } else if cp == 0x0970 {
        CharType::Symbol
    } else if 0x09F2 <= cp <= 0x09F3 {
        CharType::Symbol
    } else if 0x09FA <= cp <= 0x09FB {
        CharType::Symbol
    } else if cp == 0x09FD {
        CharType::Symbol
    } else if cp == 0x0A76 {
        CharType::Symbol
    } else if 0x0AF0 <= cp <= 0x0AF1 {
        CharType::Symbol
    } else if cp == 0x0B70 {
        CharType::Symbol
    } else if 0x0BF3 <= cp <= 0x0BFA {
        CharType::Symbol
    } else if cp == 0x0C77 {
        CharType::Symbol
    } else if cp == 0x0C7F {
        CharType::Symbol
    } else if cp == 0x0C84 {
        CharType::Symbol
    } else if cp == 0x0D4F {
        CharType::Symbol
    } else if cp == 0x0D79 {
        CharType::Symbol
    } else if cp == 0x0DF4 {
        CharType::Symbol
    } else if cp == 0x0E3F {
        CharType::Symbol
    } else if cp == 0x0E4F {
        CharType::Symbol
    } else if 0x0E5A <= cp <= 0x0E5B {
        CharType::Symbol
    } else if 0x0F01 <= cp <= 0x0F17 {
        CharType::Symbol
    } else if 0x0F1A <= cp <= 0x0F1F {
        CharType::Symbol
    } else if cp == 0x0F34 {
        CharType::Symbol
    } else if cp == 0x0F36 {
        CharType::Symbol
    } else if cp == 0x0F38 {
        CharType::Symbol
    } else if cp == 0x0F3A {
        CharType::SymbolOpen
    } else if cp == 0x0F3B {
        CharType::SymbolClose
    } else if cp == 0x0F3C {
        CharType::SymbolOpen
    } else if cp == 0x0F3D {
        CharType::SymbolClose
    } else if cp == 0x0F85 {
        CharType::Symbol
    } else if 0x0FBE <= cp <= 0x0FC5 {
        CharType::Symbol
    } else if 0x0FC7 <= cp <= 0x0FCC {
        CharType::Symbol
    } else if 0x0FCE <= cp <= 0x0FDA {
        CharType::Symbol
    } else if 0x104A <= cp <= 0x104F {
        CharType::Symbol
    } else if 0x109E <= cp <= 0x109F {
        CharType::Symbol
    } else if cp == 0x10FB {
        CharType::Symbol
    } else if 0x1360 <= cp <= 0x1368 {
        CharType::Symbol
    } else if 0x1390 <= cp <= 0x1399 {
        CharType::Symbol
    } else if cp == 0x1400 {
        CharType::Symbol
    } else if 0x166D <= cp <= 0x166E {
        CharType::Symbol
    } else if cp == 0x169B {
        CharType::SymbolOpen
    } else if cp == 0x169C {
        CharType::SymbolClose
    } else if 0x16EB <= cp <= 0x16ED {
        CharType::Symbol
    } else if 0x1735 <= cp <= 0x1736 {
        CharType::Symbol
    } else if 0x17D4 <= cp <= 0x17D6 {
        CharType::Symbol
    } else if 0x17D8 <= cp <= 0x17DB {
        CharType::Symbol
    } else if 0x1800 <= cp <= 0x180A {
        CharType::Symbol
    } else if cp == 0x1940 {
        CharType::Symbol
    } else if 0x1944 <= cp <= 0x1945 {
        CharType::Symbol
    } else if 0x19DE <= cp <= 0x19FF {
        CharType::Symbol
    } else if 0x1A1E <= cp <= 0x1A1F {
        CharType::Symbol
    } else if 0x1AA0 <= cp <= 0x1AA6 {
        CharType::Symbol
    } else if 0x1AA8 <= cp <= 0x1AAD {
        CharType::Symbol
    } else if 0x1B5A <= cp <= 0x1B6A {
        CharType::Symbol
    } else if 0x1B74 <= cp <= 0x1B7E {
        CharType::Symbol
    } else if 0x1BFC <= cp <= 0x1BFF {
        CharType::Symbol
    } else if 0x1C3B <= cp <= 0x1C3F {
        CharType::Symbol
    } else if 0x1C7E <= cp <= 0x1C7F {
        CharType::Symbol
    } else if 0x1CC0 <= cp <= 0x1CC7 {
        CharType::Symbol
    } else if cp == 0x1CD3 {
        CharType::Symbol
    } else if cp == 0x1FBD {
        CharType::Symbol
    } else if 0x1FBF <= cp <= 0x1FC1 {
        CharType::Symbol
    } else if 0x1FCD <= cp <= 0x1FCF {
        CharType::Symbol
    } else if 0x1FDD <= cp <= 0x1FDF {
        CharType::Symbol
    } else if 0x1FED <= cp <= 0x1FEF {
        CharType::Symbol
    } else if 0x1FFD <= cp <= 0x1FFE {
        CharType::Symbol
    } else if 0x2010 <= cp <= 0x2017 {
        CharType::Symbol
    } else if cp == 0x2018 {
        CharType::SymbolOpen
    } else if cp == 0x2019 {
        CharType::SymbolClose
    } else if 0x201A <= cp <= 0x201C {
        CharType::SymbolOpen
    } else if cp == 0x201D {
        CharType::SymbolClose
    } else if 0x201E <= cp <= 0x201F {
        CharType::SymbolOpen
    } else if 0x2020 <= cp <= 0x2027 {
        CharType::Symbol
    } else if 0x2030 <= cp <= 0x2038 {
        CharType::Symbol
    } else if cp == 0x2039 {
        CharType::SymbolOpen
    } else if cp == 0x203A {
        CharType::SymbolClose
    } else if 0x203B <= cp <= 0x2044 {
        CharType::Symbol
    } else if cp == 0x2045 {
        CharType::SymbolOpen
    } else if cp == 0x2046 {
        CharType::SymbolClose
    } else if 0x2047 <= cp <= 0x205E {
        CharType::Symbol
    } else if 0x207A <= cp <= 0x207C {
        CharType::Symbol
    } else if cp == 0x207D {
        CharType::SymbolOpen
    } else if cp == 0x207E {
        CharType::SymbolClose
    } else if 0x208A <= cp <= 0x208C {
        CharType::Symbol
    } else if cp == 0x208D {
        CharType::SymbolOpen
    } else if cp == 0x208E {
        CharType::SymbolClose
    } else if 0x20A0 <= cp <= 0x20C0 {
        CharType::Symbol
    } else if 0x2100 <= cp <= 0x2101 {
        CharType::Symbol
    } else if 0x2103 <= cp <= 0x2106 {
        CharType::Symbol
    } else if 0x2108 <= cp <= 0x2109 {
        CharType::Symbol
    } else if cp == 0x2114 {
        CharType::Symbol
    } else if 0x2116 <= cp <= 0x2118 {
        CharType::Symbol
    } else if 0x211E <= cp <= 0x2123 {
        CharType::Symbol
    } else if cp == 0x2125 {
        CharType::Symbol
    } else if cp == 0x2127 {
        CharType::Symbol
    } else if cp == 0x2129 {
        CharType::Symbol
    } else if cp == 0x212E {
        CharType::Symbol
    } else if 0x213A <= cp <= 0x213B {
        CharType::Symbol
    } else if 0x2140 <= cp <= 0x2144 {
        CharType::Symbol
    } else if 0x214A <= cp <= 0x214D {
        CharType::Symbol
    } else if cp == 0x214F {
        CharType::Symbol
    } else if 0x218A <= cp <= 0x218B {
        CharType::Symbol
    } else if 0x2190 <= cp <= 0x2307 {
        CharType::Symbol
    } else if cp == 0x2308 {
        CharType::SymbolOpen
    } else if cp == 0x2309 {
        CharType::SymbolClose
    } else if cp == 0x230A {
        CharType::SymbolOpen
    } else if cp == 0x230B {
        CharType::SymbolClose
    } else if 0x230C <= cp <= 0x2328 {
        CharType::Symbol
    } else if cp == 0x2329 {
        CharType::SymbolOpen
    } else if cp == 0x232A {
        CharType::SymbolClose
    } else if 0x232B <= cp <= 0x2426 {
        CharType::Symbol
    } else if 0x2440 <= cp <= 0x244A {
        CharType::Symbol
    } else if 0x249C <= cp <= 0x24E9 {
        CharType::Symbol
    } else if 0x2500 <= cp <= 0x2767 {
        CharType::Symbol
    } else if cp == 0x2768 {
        CharType::SymbolOpen
    } else if cp == 0x2769 {
        CharType::SymbolClose
    } else if cp == 0x276A {
        CharType::SymbolOpen
    } else if cp == 0x276B {
        CharType::SymbolClose
    } else if cp == 0x276C {
        CharType::SymbolOpen
    } else if cp == 0x276D {
        CharType::SymbolClose
    } else if cp == 0x276E {
        CharType::SymbolOpen
    } else if cp == 0x276F {
        CharType::SymbolClose
    } else if cp == 0x2770 {
        CharType::SymbolOpen
    } else if cp == 0x2771 {
        CharType::SymbolClose
    } else if cp == 0x2772 {
        CharType::SymbolOpen
    } else if cp == 0x2773 {
        CharType::SymbolClose
    } else if cp == 0x2774 {
        CharType::SymbolOpen
    } else if cp == 0x2775 {
        CharType::SymbolClose
    } else if 0x2794 <= cp <= 0x27C4 {
        CharType::Symbol
    } else if cp == 0x27C5 {
        CharType::SymbolOpen
    } else if cp == 0x27C6 {
        CharType::SymbolClose
    } else if 0x27C7 <= cp <= 0x27E5 {
        CharType::Symbol
    } else if cp == 0x27E6 {
        CharType::SymbolOpen
    } else if cp == 0x27E7 {
        CharType::SymbolClose
    } else if cp == 0x27E8 {
        CharType::SymbolOpen
    } else if cp == 0x27E9 {
        CharType::SymbolClose
    } else if cp == 0x27EA {
        CharType::SymbolOpen
    } else if cp == 0x27EB {
        CharType::SymbolClose
    } else if cp == 0x27EC {
        CharType::SymbolOpen
    } else if cp == 0x27ED {
        CharType::SymbolClose
    } else if cp == 0x27EE {
        CharType::SymbolOpen
    } else if cp == 0x27EF {
        CharType::SymbolClose
    } else if 0x27F0 <= cp <= 0x2982 {
        CharType::Symbol
    } else if cp == 0x2983 {
        CharType::SymbolOpen
    } else if cp == 0x2984 {
        CharType::SymbolClose
    } else if cp == 0x2985 {
        CharType::SymbolOpen
    } else if cp == 0x2986 {
        CharType::SymbolClose
    } else if cp == 0x2987 {
        CharType::SymbolOpen
    } else if cp == 0x2988 {
        CharType::SymbolClose
    } else if cp == 0x2989 {
        CharType::SymbolOpen
    } else if cp == 0x298A {
        CharType::SymbolClose
    } else if cp == 0x298B {
        CharType::SymbolOpen
    } else if cp == 0x298C {
        CharType::SymbolClose
    } else if cp == 0x298D {
        CharType::SymbolOpen
    } else if cp == 0x298E {
        CharType::SymbolClose
    } else if cp == 0x298F {
        CharType::SymbolOpen
    } else if cp == 0x2990 {
        CharType::SymbolClose
    } else if cp == 0x2991 {
        CharType::SymbolOpen
    } else if cp == 0x2992 {
        CharType::SymbolClose
    } else if cp == 0x2993 {
        CharType::SymbolOpen
    } else if cp == 0x2994 {
        CharType::SymbolClose
    } else if cp == 0x2995 {
        CharType::SymbolOpen
    } else if cp == 0x2996 {
        CharType::SymbolClose
    } else if cp == 0x2997 {
        CharType::SymbolOpen
    } else if cp == 0x2998 {
        CharType::SymbolClose
    } else if 0x2999 <= cp <= 0x29D7 {
        CharType::Symbol
    } else if cp == 0x29D8 {
        CharType::SymbolOpen
    } else if cp == 0x29D9 {
        CharType::SymbolClose
    } else if cp == 0x29DA {
        CharType::SymbolOpen
    } else if cp == 0x29DB {
        CharType::SymbolClose
    } else if 0x29DC <= cp <= 0x29FB {
        CharType::Symbol
    } else if cp == 0x29FC {
        CharType::SymbolOpen
    } else if cp == 0x29FD {
        CharType::SymbolClose
    } else if 0x29FE <= cp <= 0x2B73 {
        CharType::Symbol
    } else if 0x2B76 <= cp <= 0x2B95 {
        CharType::Symbol
    } else if 0x2B97 <= cp <= 0x2BFF {
        CharType::Symbol
    } else if 0x2CE5 <= cp <= 0x2CEA {
        CharType::Symbol
    } else if 0x2CF9 <= cp <= 0x2CFC {
        CharType::Symbol
    } else if 0x2CFE <= cp <= 0x2CFF {
        CharType::Symbol
    } else if cp == 0x2D70 {
        CharType::Symbol
    } else if 0x2E00 <= cp <= 0x2E01 {
        CharType::Symbol
    } else if cp == 0x2E02 {
        CharType::SymbolOpen
    } else if cp == 0x2E03 {
        CharType::SymbolClose
    } else if cp == 0x2E04 {
        CharType::SymbolOpen
    } else if cp == 0x2E05 {
        CharType::SymbolClose
    } else if 0x2E06 <= cp <= 0x2E08 {
        CharType::Symbol
    } else if cp == 0x2E09 {
        CharType::SymbolOpen
    } else if cp == 0x2E0A {
        CharType::SymbolClose
    } else if cp == 0x2E0B {
        CharType::Symbol
    } else if cp == 0x2E0C {
        CharType::SymbolOpen
    } else if cp == 0x2E0D {
        CharType::SymbolClose
    } else if 0x2E0E <= cp <= 0x2E1B {
        CharType::Symbol
    } else if cp == 0x2E1C {
        CharType::SymbolOpen
    } else if cp == 0x2E1D {
        CharType::SymbolClose
    } else if 0x2E1E <= cp <= 0x2E1F {
        CharType::Symbol
    } else if cp == 0x2E20 {
        CharType::SymbolOpen
    } else if cp == 0x2E21 {
        CharType::SymbolClose
    } else if cp == 0x2E22 {
        CharType::SymbolOpen
    } else if cp == 0x2E23 {
        CharType::SymbolClose
    } else if cp == 0x2E24 {
        CharType::SymbolOpen
    } else if cp == 0x2E25 {
        CharType::SymbolClose
    } else if cp == 0x2E26 {
        CharType::SymbolOpen
    } else if cp == 0x2E27 {
        CharType::SymbolClose
    } else if cp == 0x2E28 {
        CharType::SymbolOpen
    } else if cp == 0x2E29 {
        CharType::SymbolClose
    } else if 0x2E2A <= cp <= 0x2E2E {
        CharType::Symbol
    } else if 0x2E30 <= cp <= 0x2E41 {
        CharType::Symbol
    } else if cp == 0x2E42 {
        CharType::SymbolOpen
    } else if 0x2E43 <= cp <= 0x2E54 {
        CharType::Symbol
    } else if cp == 0x2E55 {
        CharType::SymbolOpen
    } else if cp == 0x2E56 {
        CharType::SymbolClose
    } else if cp == 0x2E57 {
        CharType::SymbolOpen
    } else if cp == 0x2E58 {
        CharType::SymbolClose
    } else if cp == 0x2E59 {
        CharType::SymbolOpen
    } else if cp == 0x2E5A {
        CharType::SymbolClose
    } else if cp == 0x2E5B {
        CharType::SymbolOpen
    } else if cp == 0x2E5C {
        CharType::SymbolClose
    } else if cp == 0x2E5D {
        CharType::Symbol
    } else if 0x2E80 <= cp <= 0x2E99 {
        CharType::Symbol
    } else if 0x2E9B <= cp <= 0x2EF3 {
        CharType::Symbol
    } else if 0x2F00 <= cp <= 0x2FD5 {
        CharType::Symbol
    } else if 0x2FF0 <= cp <= 0x2FFB {
        CharType::Symbol
    } else if cp == 0x3001 {
        CharType::SymbolPause
    } else if cp == 0x3002 {
        CharType::SymbolStop
    } else if 0x3003 <= cp <= 0x3004 {
        CharType::Symbol
    } else if cp == 0x3008 {
        CharType::SymbolOpen
    } else if cp == 0x3009 {
        CharType::SymbolClose
    } else if cp == 0x300A {
        CharType::SymbolOpen
    } else if cp == 0x300B {
        CharType::SymbolClose
    } else if cp == 0x300C {
        CharType::SymbolOpen
    } else if cp == 0x300D {
        CharType::SymbolClose
    } else if cp == 0x300E {
        CharType::SymbolOpen
    } else if cp == 0x300F {
        CharType::SymbolClose
    } else if cp == 0x3010 {
        CharType::SymbolOpen
    } else if cp == 0x3011 {
        CharType::SymbolClose
    } else if 0x3012 <= cp <= 0x3013 {
        CharType::Symbol
    } else if cp == 0x3014 {
        CharType::SymbolOpen
    } else if cp == 0x3015 {
        CharType::SymbolClose
    } else if cp == 0x3016 {
        CharType::SymbolOpen
    } else if cp == 0x3017 {
        CharType::SymbolClose
    } else if cp == 0x3018 {
        CharType::SymbolOpen
    } else if cp == 0x3019 {
        CharType::SymbolClose
    } else if cp == 0x301A {
        CharType::SymbolOpen
    } else if cp == 0x301B {
        CharType::SymbolClose
    } else if cp == 0x301C {
        CharType::Symbol
    } else if cp == 0x301D {
        CharType::SymbolOpen
    } else if 0x301E <= cp <= 0x301F {
        CharType::SymbolClose
    } else if cp == 0x3020 {
        CharType::Symbol
    } else if cp == 0x3030 {
        CharType::Symbol
    } else if 0x3036 <= cp <= 0x3037 {
        CharType::Symbol
    } else if 0x303D <= cp <= 0x303F {
        CharType::Symbol
    } else if 0x309B <= cp <= 0x309C {
        CharType::Symbol
    } else if cp == 0x30A0 {
        CharType::Symbol
    } else if cp == 0x30FB {
        CharType::SymbolPause
    } else if 0x3190 <= cp <= 0x3191 {
        CharType::Symbol
    } else if 0x3196 <= cp <= 0x319F {
        CharType::Symbol
    } else if 0x31C0 <= cp <= 0x31E3 {
        CharType::Symbol
    } else if 0x3200 <= cp <= 0x321E {
        CharType::Symbol
    } else if 0x322A <= cp <= 0x3247 {
        CharType::Symbol
    } else if cp == 0x3250 {
        CharType::Symbol
    } else if 0x3260 <= cp <= 0x327F {
        CharType::Symbol
    } else if 0x328A <= cp <= 0x32B0 {
        CharType::Symbol
    } else if 0x32C0 <= cp <= 0x33FF {
        CharType::Symbol
    } else if 0x4DC0 <= cp <= 0x4DFF {
        CharType::Symbol
    } else if 0xA490 <= cp <= 0xA4C6 {
        CharType::Symbol
    } else if 0xA4FE <= cp <= 0xA4FF {
        CharType::Symbol
    } else if 0xA60D <= cp <= 0xA60F {
        CharType::Symbol
    } else if cp == 0xA673 {
        CharType::Symbol
    } else if cp == 0xA67E {
        CharType::Symbol
    } else if 0xA6F2 <= cp <= 0xA6F7 {
        CharType::Symbol
    } else if 0xA700 <= cp <= 0xA716 {
        CharType::Symbol
    } else if 0xA720 <= cp <= 0xA721 {
        CharType::Symbol
    } else if 0xA789 <= cp <= 0xA78A {
        CharType::Symbol
    } else if 0xA828 <= cp <= 0xA82B {
        CharType::Symbol
    } else if 0xA836 <= cp <= 0xA839 {
        CharType::Symbol
    } else if 0xA874 <= cp <= 0xA877 {
        CharType::Symbol
    } else if 0xA8CE <= cp <= 0xA8CF {
        CharType::Symbol
    } else if 0xA8F8 <= cp <= 0xA8FA {
        CharType::Symbol
    } else if cp == 0xA8FC {
        CharType::Symbol
    } else if 0xA92E <= cp <= 0xA92F {
        CharType::Symbol
    } else if cp == 0xA95F {
        CharType::Symbol
    } else if 0xA9C1 <= cp <= 0xA9CD {
        CharType::Symbol
    } else if 0xA9DE <= cp <= 0xA9DF {
        CharType::Symbol
    } else if 0xAA5C <= cp <= 0xAA5F {
        CharType::Symbol
    } else if 0xAA77 <= cp <= 0xAA79 {
        CharType::Symbol
    } else if 0xAADE <= cp <= 0xAADF {
        CharType::Symbol
    } else if 0xAAF0 <= cp <= 0xAAF1 {
        CharType::Symbol
    } else if cp == 0xAB5B {
        CharType::Symbol
    } else if 0xAB6A <= cp <= 0xAB6B {
        CharType::Symbol
    } else if cp == 0xABEB {
        CharType::Symbol
    } else if cp == 0xFB29 {
        CharType::Symbol
    } else if 0xFBB2 <= cp <= 0xFBC2 {
        CharType::Symbol
    } else if cp == 0xFD3E {
        CharType::SymbolClose
    } else if cp == 0xFD3F {
        CharType::SymbolOpen
    } else if 0xFD40 <= cp <= 0xFD4F {
        CharType::Symbol
    } else if cp == 0xFDCF {
        CharType::Symbol
    } else if 0xFDFC <= cp <= 0xFDFF {
        CharType::Symbol
    } else if 0xFE10 <= cp <= 0xFE16 {
        CharType::Symbol
    } else if cp == 0xFE17 {
        CharType::SymbolOpen
    } else if cp == 0xFE18 {
        CharType::SymbolClose
    } else if cp == 0xFE19 {
        CharType::Symbol
    } else if 0xFE30 <= cp <= 0xFE34 {
        CharType::Symbol
    } else if cp == 0xFE35 {
        CharType::SymbolOpen
    } else if cp == 0xFE36 {
        CharType::SymbolClose
    } else if cp == 0xFE37 {
        CharType::SymbolOpen
    } else if cp == 0xFE38 {
        CharType::SymbolClose
    } else if cp == 0xFE39 {
        CharType::SymbolOpen
    } else if cp == 0xFE3A {
        CharType::SymbolClose
    } else if cp == 0xFE3B {
        CharType::SymbolOpen
    } else if cp == 0xFE3C {
        CharType::SymbolClose
    } else if cp == 0xFE3D {
        CharType::SymbolOpen
    } else if cp == 0xFE3E {
        CharType::SymbolClose
    } else if cp == 0xFE3F {
        CharType::SymbolOpen
    } else if cp == 0xFE40 {
        CharType::SymbolClose
    } else if cp == 0xFE41 {
        CharType::SymbolOpen
    } else if cp == 0xFE42 {
        CharType::SymbolClose
    } else if cp == 0xFE43 {
        CharType::SymbolOpen
    } else if cp == 0xFE44 {
        CharType::SymbolClose
    } else if 0xFE45 <= cp <= 0xFE46 {
        CharType::Symbol
    } else if cp == 0xFE47 {
        CharType::SymbolOpen
    } else if cp == 0xFE48 {
        CharType::SymbolClose
    } else if 0xFE49 <= cp <= 0xFE52 {
        CharType::Symbol
    } else if 0xFE54 <= cp <= 0xFE58 {
        CharType::Symbol
    } else if cp == 0xFE59 {
        CharType::SymbolOpen
    } else if cp == 0xFE5A {
        CharType::SymbolClose
    } else if cp == 0xFE5B {
        CharType::SymbolOpen
    } else if cp == 0xFE5C {
        CharType::SymbolClose
    } else if cp == 0xFE5D {
        CharType::SymbolOpen
    } else if cp == 0xFE5E {
        CharType::SymbolClose
    } else if 0xFE5F <= cp <= 0xFE66 {
        CharType::Symbol
    } else if 0xFE68 <= cp <= 0xFE6B {
        CharType::Symbol
    } else if cp == 0xFF01 {
        CharType::SymbolStop
    } else if 0xFF02 <= cp <= 0xFF07 {
        CharType::Symbol
    } else if cp == 0xFF08 {
        CharType::SymbolOpen
    } else if cp == 0xFF09 {
        CharType::SymbolClose
    } else if 0xFF0A <= cp <= 0xFF0B {
        CharType::Symbol
    } else if cp == 0xFF0C {
        CharType::SymbolPause
    } else if cp == 0xFF0D {
        CharType::Symbol
    } else if cp == 0xFF0E {
        CharType::SymbolStop
    } else if cp == 0xFF0F {
        CharType::Symbol
    } else if 0xFF1A <= cp <= 0xFF1E {
        CharType::Symbol
    } else if cp == 0xFF1F {
        CharType::SymbolStop
    } else if cp == 0xFF20 {
        CharType::Symbol
    } else if cp == 0xFF3B {
        CharType::SymbolOpen
    } else if cp == 0xFF3C {
        CharType::Symbol
    } else if cp == 0xFF3D {
        CharType::SymbolClose
    } else if 0xFF3E <= cp <= 0xFF40 {
        CharType::Symbol
    } else if cp == 0xFF5B {
        CharType::SymbolOpen
    } else if cp == 0xFF5C {
        CharType::Symbol
    } else if cp == 0xFF5D {
        CharType::SymbolClose
    } else if cp == 0xFF5E {
        CharType::Symbol
    } else if cp == 0xFF5F {
        CharType::SymbolOpen
    } else if cp == 0xFF60 {
        CharType::SymbolClose
    } else if cp == 0xFF61 {
        CharType::SymbolStop
    } else if cp == 0xFF62 {
        CharType::SymbolOpen
    } else if cp == 0xFF63 {
        CharType::SymbolClose
    } else if 0xFF64 <= cp <= 0xFF65 {
        CharType::SymbolPause
    } else if 0xFFE0 <= cp <= 0xFFE6 {
        CharType::Symbol
    } else if 0xFFE8 <= cp <= 0xFFEE {
        CharType::Symbol
    } else if 0xFFFC <= cp <= 0xFFFD {
        CharType::Symbol
    } else {
        CharType::Other
    }
}

/// Looks `cp` up in the table.
pub fn symbol_class(cp: u32) -> (r: CharType)
    ensures
        r == spec_symbol_class(cp),
{
    if cp == 0x0021 {
        CharType::SymbolStop
    } else if 0x0022 <= cp && cp <= 0x0027 {
        CharType::Symbol
    } else if cp == 0x0028 {
        CharType::SymbolOpen
    } else if cp == 0x0029 {
        CharType::SymbolClose
    } else if 0x002A <= cp && cp <= 0x002B {
        CharType::Symbol
    } else if cp == 0x002C {
        CharType::SymbolPause
    } else if cp == 0x002D {
        CharType::Symbol
    } else if cp == 0x002E {
        CharType::SymbolStop
    } else if cp == 0x002F {
        CharType::Symbol
    } else if 0x003A <= cp && cp <= 0x003E {
        CharType::Symbol
    } else if cp == 0x003F {
        CharType::SymbolStop
    } else if cp == 0x0040 {
        CharType::Symbol
    } else if cp == 0x005B {
        CharType::SymbolOpen
    } else if cp == 0x005C {
        CharType::Symbol
    } else if cp == 0x005D {
        CharType::SymbolClose
    } else if 0x005E <= cp && cp <= 0x0060 {
        CharType::Symbol
    } else if cp == 0x007B {
        CharType::SymbolOpen
    } else if cp == 0x007C {
        CharType::Symbol
    } else if cp == 0x007D {
        CharType::SymbolClose
    } else if cp == 0x007E {
        CharType::Symbol
    } else if 0x00A1 <= cp && cp <= 0x00A9 {
        CharType::Symbol
    } else if cp == 0x00AB {
        CharType::SymbolOpen
    } else if cp == 0x00AC {
        CharType::Symbol
    } else if 0x00AE <= cp && cp <= 0x00B1 {
        CharType::Symbol
    } else if cp == 0x00B4 {
        CharType::Symbol
    } else if 0x00B6 <= cp && cp <= 0x00B8 {
        CharType::Symbol
    } else if cp == 0x00BB {
        CharType::SymbolClose
    } else if cp == 0x00BF {
        CharType::Symbol
    } else if cp == 0x00D7 {
        CharType::Symbol
    } else if cp == 0x00F7 {
        CharType::Symbol
    } else if 0x02C2 <= cp && cp <= 0x02C5 {
        CharType::Symbol
    } else if 0x02D2 <= cp && cp <= 0x02DF {
        CharType::Symbol
    } else if 0x02E5 <= cp && cp <= 0x02EB {
        CharType::Symbol
    } else if cp == 0x02ED {
        CharType::Symbol
    } else if 0x02EF <= cp && cp <= 0x02FF {
        CharType::Symbol
    } else if cp == 0x0375 {
        CharType::Symbol
    } else if cp == 0x037E {
        CharType::Symbol
    } else if 0x0384 <= cp && cp <= 0x0385 {
        CharType::Symbol
    } else if cp == 0x0387 {
        CharType::Symbol
    } else if cp == 0x03F6 {
        CharType::Symbol
    } else if cp == 0x0482 {
        CharType::Symbol
    } else if 0x055A <= cp && cp <= 0x055F {
        CharType::Symbol
    } else if 0x0589 <= cp && cp <= 0x058A {
        CharType::Symbol
    } else if 0x058D <= cp && cp <= 0x058F {
        CharType::Symbol
    } else if cp == 0x05BE {
        CharType::Symbol
    } else if cp == 0x05C0 {
        CharType::Symbol
    } else if cp == 0x05C3 {
        CharType::Symbol
    } else if cp == 0x05C6 {
        CharType::Symbol
    } else if 0x05F3 <= cp && cp <= 0x05F4 {
        CharType::Symbol
    } else if 0x0606 <= cp && cp <= 0x060F {
        CharType::Symbol
    } else if cp == 0x061B {
        CharType::Symbol
    } else if 0x061D <= cp && cp <= 0x061F {
        CharType::Symbol
    } else if 0x066A <= cp && cp <= 0x066D {
        CharType::Symbol
    } else if cp == 0x06D4 {
        CharType::Symbol
    } else if cp == 0x06DE {
        CharType::Symbol
    } else if cp == 0x06E9 {
        CharType::Symbol
    } else if 0x06FD <= cp && cp <= 0x06FE {
        CharType::Symbol
    } else if 0x0700 <= cp && cp <= 0x070D {
        CharType::Symbol
    } else if 0x07F6 <= cp && cp <= 0x07F9 {
        CharType::Symbol
    } else if 0x07FE <= cp && cp <= 0x07FF {
        CharType::Symbol
    } else if 0x0830 <= cp && cp <= 0x083E {
        CharType::Symbol
    } else if cp == 0x085E {
        CharType::Symbol
    } else if cp == 0x0888 {
        CharType::Symbol
    } else if 0x0964 <= cp && cp <= 0x0965 {
        CharType::Symbol
    } else if cp == 0x0970 {
        CharType::Symbol
    } else if 0x09F2 <= cp && cp <= 0x09F3 {
        CharType::Symbol
    } else if 0x09FA <= cp && cp <= 0x09FB {
        CharType::Symbol
    } else if cp == 0x09FD {
        CharType::Symbol
    } else if cp == 0x0A76 {
        CharType::Symbol
    } else if 0x0AF0 <= cp && cp <= 0x0AF1 {
        CharType::Symbol
    } else if cp == 0x0B70 {
        CharType::Symbol
    } else if 0x0BF3 <= cp && cp <= 0x0BFA {
        CharType::Symbol
    } else if cp == 0x0C77 {
        CharType::Symbol
    } else if cp == 0x0C7F {
        CharType::Symbol
    } else if cp == 0x0C84 {
        CharType::Symbol
    } else if cp == 0x0D4F {
        CharType::Symbol
    } else if cp == 0x0D79 {
        CharType::Symbol
    } else if cp == 0x0DF4 {
        CharType::Symbol
    } else if cp == 0x0E3F {
        CharType::Symbol
    } else if cp == 0x0E4F {
        CharType::Symbol
    } else if 0x0E5A <= cp && cp <= 0x0E5B {
        CharType::Symbol
    } else if 0x0F01 <= cp && cp <= 0x0F17 {
        CharType::Symbol
    } else if 0x0F1A <= cp && cp <= 0x0F1F {
        CharType::Symbol
    } else if cp == 0x0F34 {
        CharType::Symbol
    } else if cp == 0x0F36 {
        CharType::Symbol
    } else if cp == 0x0F38 {
        CharType::Symbol
    } else if cp == 0x0F3A {
        CharType::SymbolOpen
    } else if cp == 0x0F3B {
        CharType::SymbolClose
    } else if cp == 0x0F3C {
        CharType::SymbolOpen
    } else if cp == 0x0F3D {
        CharType::SymbolClose
    } else if cp == 0x0F85 {
        CharType::Symbol
    } else if 0x0FBE <= cp && cp <= 0x0FC5 {
        CharType::Symbol
    } else if 0x0FC7 <= cp && cp <= 0x0FCC {
        CharType::Symbol
    } else if 0x0FCE <= cp && cp <= 0x0FDA {
        CharType::Symbol
    } else if 0x104A <= cp && cp <= 0x104F {
        CharType::Symbol
    } else if 0x109E <= cp && cp <= 0x109F {
        CharType::Symbol
    } else if cp == 0x10FB {
        CharType::Symbol
    } else if 0x1360 <= cp && cp <= 0x1368 {
        CharType::Symbol
    } else if 0x1390 <= cp && cp <= 0x1399 {
        CharType::Symbol
    } else if cp == 0x1400 {
        CharType::Symbol
    } else if 0x166D <= cp && cp <= 0x166E {
        CharType::Symbol
    } else if cp == 0x169B {
        CharType::SymbolOpen
    } else if cp == 0x169C {
        CharType::SymbolClose
    } else if 0x16EB <= cp && cp <= 0x16ED {
        CharType::Symbol
    } else if 0x1735 <= cp && cp <= 0x1736 {
        CharType::Symbol
    } else if 0x17D4 <= cp && cp <= 0x17D6 {
        CharType::Symbol
    } else if 0x17D8 <= cp && cp <= 0x17DB {
        CharType::Symbol
    } else if 0x1800 <= cp && cp <= 0x180A {
        CharType::Symbol
    } else if cp == 0x1940 {
        CharType::Symbol
    } else if 0x1944 <= cp && cp <= 0x1945 {
        CharType::Symbol
    } else if 0x19DE <= cp && cp <= 0x19FF {
        CharType::Symbol
    } else if 0x1A1E <= cp && cp <= 0x1A1F {
        CharType::Symbol
    } else if 0x1AA0 <= cp && cp <= 0x1AA6 {
        CharType::Symbol
    } else if 0x1AA8 <= cp && cp <= 0x1AAD {
        CharType::Symbol
    } else if 0x1B5A <= cp && cp <= 0x1B6A {
        CharType::Symbol
    } else if 0x1B74 <= cp && cp <= 0x1B7E {
        CharType::Symbol
    } else if 0x1BFC <= cp && cp <= 0x1BFF {
        CharType::Symbol
    } else if 0x1C3B <= cp && cp <= 0x1C3F {
        CharType::Symbol
    } else if 0x1C7E <= cp && cp <= 0x1C7F {
        CharType::Symbol
    } else if 0x1CC0 <= cp && cp <= 0x1CC7 {
        CharType::Symbol
    } else if cp == 0x1CD3 {
        CharType::Symbol
    } else if cp == 0x1FBD {
        CharType::Symbol
    } else if 0x1FBF <= cp && cp <= 0x1FC1 {
        CharType::Symbol
    } else if 0x1FCD <= cp && cp <= 0x1FCF {
        CharType::Symbol
    } else if 0x1FDD <= cp && cp <= 0x1FDF {
        CharType::Symbol
    } else if 0x1FED <= cp && cp <= 0x1FEF {
        CharType::Symbol
    } else if 0x1FFD <= cp && cp <= 0x1FFE {
        CharType::Symbol
    } else if 0x2010 <= cp && cp <= 0x2017 {
        CharType::Symbol
    } else if cp == 0x2018 {
        CharType::SymbolOpen
    } else if cp == 0x2019 {
        CharType::SymbolClose
    } else if 0x201A <= cp && cp <= 0x201C {
        CharType::SymbolOpen
    } else if cp == 0x201D {
        CharType::SymbolClose
    } else if 0x201E <= cp && cp <= 0x201F {
        CharType::SymbolOpen
    } else if 0x2020 <= cp && cp <= 0x2027 {
        CharType::Symbol
    } else if 0x2030 <= cp && cp <= 0x2038 {
        CharType::Symbol
    } else if cp == 0x2039 {
        CharType::SymbolOpen
    } else if cp == 0x203A {
        CharType::SymbolClose
    } else if 0x203B <= cp && cp <= 0x2044 {
        CharType::Symbol
    } else if cp == 0x2045 {
        CharType::SymbolOpen
    } else if cp == 0x2046 {
        CharType::SymbolClose
    } else if 0x2047 <= cp && cp <= 0x205E {
        CharType::Symbol
    } else if 0x207A <= cp && cp <= 0x207C {
        CharType::Symbol
    } else if cp == 0x207D {
        CharType::SymbolOpen
    } else if cp == 0x207E {
        CharType::SymbolClose
    } else if 0x208A <= cp && cp <= 0x208C {
        CharType::Symbol
    } else if cp == 0x208D {
        CharType::SymbolOpen
    } else if cp == 0x208E {
        CharType::SymbolClose
    } else if 0x20A0 <= cp && cp <= 0x20C0 {
        CharType::Symbol
    } else if 0x2100 <= cp && cp <= 0x2101 {
        CharType::Symbol
    } else if 0x2103 <= cp && cp <= 0x2106 {
        CharType::Symbol
    } else if 0x2108 <= cp && cp <= 0x2109 {
        CharType::Symbol
    } else if cp == 0x2114 {
        CharType::Symbol
    } else if 0x2116 <= cp && cp <= 0x2118 {
        CharType::Symbol
    } else if 0x211E <= cp && cp <= 0x2123 {
        CharType::Symbol
    } else if cp == 0x2125 {
        CharType::Symbol
    } else if cp == 0x2127 {
        CharType::Symbol
    } else if cp == 0x2129 {
        CharType::Symbol
    } else if cp == 0x212E {
        CharType::Symbol
    } else if 0x213A <= cp && cp <= 0x213B {
        CharType::Symbol
    } else if 0x2140 <= cp && cp <= 0x2144 {
        CharType::Symbol
    } else if 0x214A <= cp && cp <= 0x214D {
        CharType::Symbol
    } else if cp == 0x214F {
        CharType::Symbol
    } else if 0x218A <= cp && cp <= 0x218B {
        CharType::Symbol
    } else if 0x2190 <= cp && cp <= 0x2307 {
        CharType::Symbol
    } else if cp == 0x2308 {
        CharType::SymbolOpen
    } else if cp == 0x2309 {
        CharType::SymbolClose
    } else if cp == 0x230A {
        CharType::SymbolOpen
    } else if cp == 0x230B {
        CharType::SymbolClose
    } else if 0x230C <= cp && cp <= 0x2328 {
        CharType::Symbol
    } else if cp == 0x2329 {
        CharType::SymbolOpen
    } else if cp == 0x232A {
        CharType::SymbolClose
    } else if 0x232B <= cp && cp <= 0x2426 {
        CharType::Symbol
    } else if 0x2440 <= cp && cp <= 0x244A {
        CharType::Symbol
    } else if 0x249C <= cp && cp <= 0x24E9 {
        CharType::Symbol
    } else if 0x2500 <= cp && cp <= 0x2767 {
        CharType::Symbol
    } else if cp == 0x2768 {
        CharType::SymbolOpen
    } else if cp == 0x2769 {
        CharType::SymbolClose
    } else if cp == 0x276A {
        CharType::SymbolOpen
    } else if cp == 0x276B {
        CharType::SymbolClose
    } else if cp == 0x276C {
        CharType::SymbolOpen
    } else if cp == 0x276D {
        CharType::SymbolClose
    } else if cp == 0x276E {
        CharType::SymbolOpen
    } else if cp == 0x276F {
        CharType::SymbolClose
    } else if cp == 0x2770 {
        CharType::SymbolOpen
    } else if cp == 0x2771 {
        CharType::SymbolClose
    } else if cp == 0x2772 {
        CharType::SymbolOpen
    } else if cp == 0x2773 {
        CharType::SymbolClose
    } else if cp == 0x2774 {
        CharType::SymbolOpen
    } else if cp == 0x2775 {
        CharType::SymbolClose
    } else if 0x2794 <= cp && cp <= 0x27C4 {
        CharType::Symbol
    } else if cp == 0x27C5 {
        CharType::SymbolOpen
    } else if cp == 0x27C6 {
        CharType::SymbolClose
    } else if 0x27C7 <= cp && cp <= 0x27E5 {
        CharType::Symbol
    } else if cp == 0x27E6 {
        CharType::SymbolOpen
    } else if cp == 0x27E7 {
        CharType::SymbolClose
    } else if cp == 0x27E8 {
        CharType::SymbolOpen
    } else if cp == 0x27E9 {
        CharType::SymbolClose
    } else if cp == 0x27EA {
        CharType::SymbolOpen
    } else if cp == 0x27EB {
        CharType::SymbolClose
    } else if cp == 0x27EC {
        CharType::SymbolOpen
    } else if cp == 0x27ED {
        CharType::SymbolClose
    } else if cp == 0x27EE {
        CharType::SymbolOpen
    } else if cp == 0x27EF {
        CharType::SymbolClose
    } else if 0x27F0 <= cp && cp <= 0x2982 {
        CharType::Symbol
    } else if cp == 0x2983 {
        CharType::SymbolOpen
    } else if cp == 0x2984 {
        CharType::SymbolClose
    } else if cp == 0x2985 {
        CharType::SymbolOpen
    } else if cp == 0x2986 {
        CharType::SymbolClose
    } else if cp == 0x2987 {
        CharType::SymbolOpen
    } else if cp == 0x2988 {
        CharType::SymbolClose
    } else if cp == 0x2989 {
        CharType::SymbolOpen
    } else if cp == 0x298A {
        CharType::SymbolClose
    } else if cp == 0x298B {
        CharType::SymbolOpen
    } else if cp == 0x298C {
        CharType::SymbolClose
    } else if cp == 0x298D {
        CharType::SymbolOpen
    } else if cp == 0x298E {
        CharType::SymbolClose
    } else if cp == 0x298F {
        CharType::SymbolOpen
    } else if cp == 0x2990 {
        CharType::SymbolClose
    } else if cp == 0x2991 {
        CharType::SymbolOpen
    } else if cp == 0x2992 {
        CharType::SymbolClose
    } else if cp == 0x2993 {
        CharType::SymbolOpen
    } else if cp == 0x2994 {
        CharType::SymbolClose
    } else if cp == 0x2995 {
        CharType::SymbolOpen
    } else if cp == 0x2996 {
        CharType::SymbolClose
    } else if cp == 0x2997 {
        CharType::SymbolOpen
    } else if cp == 0x2998 {
        CharType::SymbolClose
    } else if 0x2999 <= cp && cp <= 0x29D7 {
        CharType::Symbol
    } else if cp == 0x29D8 {
        CharType::SymbolOpen
    } else if cp == 0x29D9 {
        CharType::SymbolClose
    } else if cp == 0x29DA {
        CharType::SymbolOpen
    } else if cp == 0x29DB {
        CharType::SymbolClose
    } else if 0x29DC <= cp && cp <= 0x29FB {
        CharType::Symbol
    } else if cp == 0x29FC {
        CharType::SymbolOpen
    } else if cp == 0x29FD {
        CharType::SymbolClose
    } else if 0x29FE <= cp && cp <= 0x2B73 {
        CharType::Symbol
    } else if 0x2B76 <= cp && cp <= 0x2B95 {
        CharType::Symbol
    } else if 0x2B97 <= cp && cp <= 0x2BFF {
        CharType::Symbol
    } else if 0x2CE5 <= cp && cp <= 0x2CEA {
        CharType::Symbol
    } else if 0x2CF9 <= cp && cp <= 0x2CFC {
        CharType::Symbol
    } else if 0x2CFE <= cp && cp <= 0x2CFF {
        CharType::Symbol
    } else if cp == 0x2D70 {
        CharType::Symbol
    } else if 0x2E00 <= cp && cp <= 0x2E01 {
        CharType::Symbol
    } else if cp == 0x2E02 {
        CharType::SymbolOpen
    } else if cp == 0x2E03 {
        CharType::SymbolClose
    } else if cp == 0x2E04 {
        CharType::SymbolOpen
    } else if cp == 0x2E05 {
        CharType::SymbolClose
    } else if 0x2E06 <= cp && cp <= 0x2E08 {
        CharType::Symbol
    } else if cp == 0x2E09 {
        CharType::SymbolOpen
    } else if cp == 0x2E0A {
        CharType::SymbolClose
    } else if cp == 0x2E0B {
        CharType::Symbol
    } else if cp == 0x2E0C {
        CharType::SymbolOpen
    } else if cp == 0x2E0D {
        CharType::SymbolClose
    } else if 0x2E0E <= cp && cp <= 0x2E1B {
        CharType::Symbol
    } else if cp == 0x2E1C {
        CharType::SymbolOpen
    } else if cp == 0x2E1D {
        CharType::SymbolClose
    } else if 0x2E1E <= cp && cp <= 0x2E1F {
        CharType::Symbol
    } else if cp == 0x2E20 {
        CharType::SymbolOpen
    } else if cp == 0x2E21 {
        CharType::SymbolClose
    } else if cp == 0x2E22 {
        CharType::SymbolOpen
    } else if cp == 0x2E23 {
        CharType::SymbolClose
    } else if cp == 0x2E24 {
        CharType::SymbolOpen
    } else if cp == 0x2E25 {
        CharType::SymbolClose
    } else if cp == 0x2E26 {
        CharType::SymbolOpen
    } else if cp == 0x2E27 {
        CharType::SymbolClose
    } else if cp == 0x2E28 {
        CharType::SymbolOpen
    } else if cp == 0x2E29 {
        CharType::SymbolClose
    } else if 0x2E2A <= cp && cp <= 0x2E2E {
        CharType::Symbol
    } else if 0x2E30 <= cp && cp <= 0x2E41 {
        CharType::Symbol
    } else if cp == 0x2E42 {
        CharType::SymbolOpen
    } else if 0x2E43 <= cp && cp <= 0x2E54 {
        CharType::Symbol
    } else if cp == 0x2E55 {
        CharType::SymbolOpen
    } else if cp == 0x2E56 {
        CharType::SymbolClose
    } else if cp == 0x2E57 {
        CharType::SymbolOpen
    } else if cp == 0x2E58 {
        CharType::SymbolClose
    } else if cp == 0x2E59 {
        CharType::SymbolOpen
    } else if cp == 0x2E5A {
        CharType::SymbolClose
    } else if cp == 0x2E5B {
        CharType::SymbolOpen
    } else if cp == 0x2E5C {
        CharType::SymbolClose
    } else if cp == 0x2E5D {
        CharType::Symbol
    } else if 0x2E80 <= cp && cp <= 0x2E99 {
        CharType::Symbol
    } else if 0x2E9B <= cp && cp <= 0x2EF3 {
        CharType::Symbol
    } else if 0x2F00 <= cp && cp <= 0x2FD5 {
        CharType::Symbol
    } else if 0x2FF0 <= cp && cp <= 0x2FFB {
        CharType::Symbol
    } else if cp == 0x3001 {
        CharType::SymbolPause
    } else if cp == 0x3002 {
        CharType::SymbolStop
    } else if 0x3003 <= cp && cp <= 0x3004 {
        CharType::Symbol
    } else if cp == 0x3008 {
        CharType::SymbolOpen
    } else if cp == 0x3009 {
        CharType::SymbolClose
    } else if cp == 0x300A {
        CharType::SymbolOpen
    } else if cp == 0x300B {
        CharType::SymbolClose
    } else if cp == 0x300C {
        CharType::SymbolOpen
    } else if cp == 0x300D {
        CharType::SymbolClose
    } else if cp == 0x300E {
        CharType::SymbolOpen
    } else if cp == 0x300F {
        CharType::SymbolClose
    } else if cp == 0x3010 {
        CharType::SymbolOpen
    } else if cp == 0x3011 {
        CharType::SymbolClose
    } else if 0x3012 <= cp && cp <= 0x3013 {
        CharType::Symbol
    } else if cp == 0x3014 {
        CharType::SymbolOpen
    } else if cp == 0x3015 {
        CharType::SymbolClose
    } else if cp == 0x3016 {
        CharType::SymbolOpen
    } else if cp == 0x3017 {
        CharType::SymbolClose
    } else if cp == 0x3018 {
        CharType::SymbolOpen
    } else if cp == 0x3019 {
        CharType::SymbolClose
    } else if cp == 0x301A {
        CharType::SymbolOpen
    } else if cp == 0x301B {
        CharType::SymbolClose
    } else if cp == 0x301C {
        CharType::Symbol
    } else if cp == 0x301D {
        CharType::SymbolOpen
    } else if 0x301E <= cp && cp <= 0x301F {
        CharType::SymbolClose
    } else if cp == 0x3020 {
        CharType::Symbol
    } else if cp == 0x3030 {
        CharType::Symbol
    } else if 0x3036 <= cp && cp <= 0x3037 {
        CharType::Symbol
    } else if 0x303D <= cp && cp <= 0x303F {
        CharType::Symbol
    } else if 0x309B <= cp && cp <= 0x309C {
        CharType::Symbol
    } else if cp == 0x30A0 {
        CharType::Symbol
    } else if cp == 0x30FB {
        CharType::SymbolPause
    } else if 0x3190 <= cp && cp <= 0x3191 {
        CharType::Symbol
    } else if 0x3196 <= cp && cp <= 0x319F {
        CharType::Symbol
    } else if 0x31C0 <= cp && cp <= 0x31E3 {
        CharType::Symbol
    } else if 0x3200 <= cp && cp <= 0x321E {
        CharType::Symbol
    } else if 0x322A <= cp && cp <= 0x3247 {
        CharType::Symbol
    } else if cp == 0x3250 {
        CharType::Symbol
    } else if 0x3260 <= cp && cp <= 0x327F {
        CharType::Symbol
    } else if 0x328A <= cp && cp <= 0x32B0 {
        CharType::Symbol
    } else if 0x32C0 <= cp && cp <= 0x33FF {
        CharType::Symbol
    } else if 0x4DC0 <= cp && cp <= 0x4DFF {
        CharType::Symbol
    } else if 0xA490 <= cp && cp <= 0xA4C6 {
        CharType::Symbol
    } else if 0xA4FE <= cp && cp <= 0xA4FF {
        CharType::Symbol
    } else if 0xA60D <= cp && cp <= 0xA60F {
        CharType::Symbol
    } else if cp == 0xA673 {
        CharType::Symbol
    } else if cp == 0xA67E {
        CharType::Symbol
    } else if 0xA6F2 <= cp && cp <= 0xA6F7 {
        CharType::Symbol
    } else if 0xA700 <= cp && cp <= 0xA716 {
        CharType::Symbol
    } else if 0xA720 <= cp && cp <= 0xA721 {
        CharType::Symbol
    } else if 0xA789 <= cp && cp <= 0xA78A {
        CharType::Symbol
    } else if 0xA828 <= cp && cp <= 0xA82B {
        CharType::Symbol
    } else if 0xA836 <= cp && cp <= 0xA839 {
        CharType::Symbol
    } else if 0xA874 <= cp && cp <= 0xA877 {
        CharType::Symbol
    } else if 0xA8CE <= cp && cp <= 0xA8CF {
        CharType::Symbol
    } else if 0xA8F8 <= cp && cp <= 0xA8FA {
        CharType::Symbol
    } else if cp == 0xA8FC {
        CharType::Symbol
    } else if 0xA92E <= cp && cp <= 0xA92F {
        CharType::Symbol
    } else if cp == 0xA95F {
        CharType::Symbol
    } else if 0xA9C1 <= cp && cp <= 0xA9CD {
        CharType::Symbol
    } else if 0xA9DE <= cp && cp <= 0xA9DF {
        CharType::Symbol
    } else if 0xAA5C <= cp && cp <= 0xAA5F {
        CharType::Symbol
    } else if 0xAA77 <= cp && cp <= 0xAA79 {
        CharType::Symbol
    } else if 0xAADE <= cp && cp <= 0xAADF {
        CharType::Symbol
    } else if 0xAAF0 <= cp && cp <= 0xAAF1 {
        CharType::Symbol
    } else if cp == 0xAB5B {
        CharType::Symbol
    } else if 0xAB6A <= cp && cp <= 0xAB6B {
        CharType::Symbol
    } else if cp == 0xABEB {
        CharType::Symbol
    } else if cp == 0xFB29 {
        CharType::Symbol
    } else if 0xFBB2 <= cp && cp <= 0xFBC2 {
        CharType::Symbol
    } else if cp == 0xFD3E {
        CharType::SymbolClose
    } else if cp == 0xFD3F {
        CharType::SymbolOpen
    } else if 0xFD40 <= cp && cp <= 0xFD4F {
        CharType::Symbol
    } else if cp == 0xFDCF {
        CharType::Symbol
    } else if 0xFDFC <= cp && cp <= 0xFDFF {
        CharType::Symbol
    } else if 0xFE10 <= cp && cp <= 0xFE16 {
        CharType::Symbol
    } else if cp == 0xFE17 {
        CharType::SymbolOpen
    } else if cp == 0xFE18 {
        CharType::SymbolClose
    } else if cp == 0xFE19 {
        CharType::Symbol
    } else if 0xFE30 <= cp && cp <= 0xFE34 {
        CharType::Symbol
    } else if cp == 0xFE35 {
        CharType::SymbolOpen
    } else if cp == 0xFE36 {
        CharType::SymbolClose
    } else if cp == 0xFE37 {
        CharType::SymbolOpen
    } else if cp == 0xFE38 {
        CharType::SymbolClose
    } else if cp == 0xFE39 {
        CharType::SymbolOpen
    } else if cp == 0xFE3A {
        CharType::SymbolClose
    } else if cp == 0xFE3B {
        CharType::SymbolOpen
    } else if cp == 0xFE3C {
        CharType::SymbolClose
    } else if cp == 0xFE3D {
        CharType::SymbolOpen
    } else if cp == 0xFE3E {
        CharType::SymbolClose
    } else if cp == 0xFE3F {
        CharType::SymbolOpen
    } else if cp == 0xFE40 {
        CharType::SymbolClose
    } else if cp == 0xFE41 {
        CharType::SymbolOpen
    } else if cp == 0xFE42 {
        CharType::SymbolClose
    } else if cp == 0xFE43 {
        CharType::SymbolOpen
    } else if cp == 0xFE44 {
        CharType::SymbolClose
    } else if 0xFE45 <= cp && cp <= 0xFE46 {
        CharType::Symbol
    } else if cp == 0xFE47 {
        CharType::SymbolOpen
    } else if cp == 0xFE48 {
        CharType::SymbolClose
    } else if 0xFE49 <= cp && cp <= 0xFE52 {
        CharType::Symbol
    } else if 0xFE54 <= cp && cp <= 0xFE58 {
        CharType::Symbol
    } else if cp == 0xFE59 {
        CharType::SymbolOpen
    } else if cp == 0xFE5A {
        CharType::SymbolClose
    } else if cp == 0xFE5B {
        CharType::SymbolOpen
    } else if cp == 0xFE5C {
        CharType::SymbolClose
    } else if cp == 0xFE5D {
        CharType::SymbolOpen
    } else if cp == 0xFE5E {
        CharType::SymbolClose
    } else if 0xFE5F <= cp && cp <= 0xFE66 {
        CharType::Symbol
    } else if 0xFE68 <= cp && cp <= 0xFE6B {
        CharType::Symbol
    } else if cp == 0xFF01 {
        CharType::SymbolStop
    } else if 0xFF02 <= cp && cp <= 0xFF07 {
        CharType::Symbol
    } else if cp == 0xFF08 {
        CharType::SymbolOpen
    } else if cp == 0xFF09 {
        CharType::SymbolClose
    } else if 0xFF0A <= cp && cp <= 0xFF0B {
        CharType::Symbol
    } else if cp == 0xFF0C {
        CharType::SymbolPause
    } else if cp == 0xFF0D {
        CharType::Symbol
    } else if cp == 0xFF0E {
        CharType::SymbolStop
    } else if cp == 0xFF0F {
        CharType::Symbol
    } else if 0xFF1A <= cp && cp <= 0xFF1E {
        CharType::Symbol
    } else if cp == 0xFF1F {
        CharType::SymbolStop
    } else if cp == 0xFF20 {
        CharType::Symbol
    } else if cp == 0xFF3B {
        CharType::SymbolOpen
    } else if cp == 0xFF3C {
        CharType::Symbol
    } else if cp == 0xFF3D {
        CharType::SymbolClose
    } else if 0xFF3E <= cp && cp <= 0xFF40 {
        CharType::Symbol
    } else if cp == 0xFF5B {
        CharType::SymbolOpen
    } else if cp == 0xFF5C {
        CharType::Symbol
    } else if cp == 0xFF5D {
        CharType::SymbolClose
    } else if cp == 0xFF5E {
        CharType::Symbol
    } else if cp == 0xFF5F {
        CharType::SymbolOpen
    } else if cp == 0xFF60 {
        CharType::SymbolClose
    } else if cp == 0xFF61 {
        CharType::SymbolStop
    } else if cp == 0xFF62 {
        CharType::SymbolOpen
    } else if cp == 0xFF63 {
        CharType::SymbolClose
    } else if 0xFF64 <= cp && cp <= 0xFF65 {
        CharType::SymbolPause
    } else if 0xFFE0 <= cp && cp <= 0xFFE6 {
        CharType::Symbol
    } else if 0xFFE8 <= cp && cp <= 0xFFEE {
        CharType::Symbol
    } else if 0xFFFC <= cp && cp <= 0xFFFD {
        CharType::Symbol
    } else {
        CharType::Other
    }
}

} // verus!
