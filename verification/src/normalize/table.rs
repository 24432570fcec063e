//! Folding and expansion tables of the input normaliser.
//!
//! The folding table maps each code point of the CJK Radicals Supplement,
//! the Kangxi Radicals, the CJK Compatibility Ideographs and their
//! supplement that has a one-character compatibility form (NFKC) to that
//! unified ideograph. The expansion table maps the Latin ligatures
//! (U+FB00–U+FB06) to their letters.

use vstd::prelude::*;

verus! {

/// The unified ideograph that `cp` folds to, if it has one.
pub open spec fn spec_fold(cp: u32) -> Option<char> {
    if cp <= 0x2F93 {
        spec_fold_0(cp)
    } else if cp <= 0xF953 {
        spec_fold_1(cp)
    } else if cp <= 0xF9E9 {
        spec_fold_2(cp)
    } else if cp <= 0xFA8D {
        spec_fold_3(cp)
    } else if cp <= 0x2F849 {
        spec_fold_4(cp)
    } else if cp <= 0x2F8DF {
        spec_fold_5(cp)
    } else if cp <= 0x2F975 {
        spec_fold_6(cp)
    } else if cp <= 0x2FA0B {
        spec_fold_7(cp)
    } else if cp <= 0x2FA1D {
        spec_fold_8(cp)
    } else {
        None
    }
}

/// Looks `cp` up in the folding table.
pub fn normalize_lookup(cp: u32) -> (r: Option<char>)
    ensures
        r == spec_fold(cp),
{
    if cp <= 0x2F93 {
        lookup_0(cp)
    } else if cp <= 0xF953 {
        lookup_1(cp)
    } else if cp <= 0xF9E9 {
        lookup_2(cp)
    } else if cp <= 0xFA8D {
        lookup_3(cp)
    } else if cp <= 0x2F849 {
        lookup_4(cp)
    } else if cp <= 0x2F8DF {
        lookup_5(cp)
    } else if cp <= 0x2F975 {
        lookup_6(cp)
    } else if cp <= 0x2FA0B {
        lookup_7(cp)
    } else if cp <= 0x2FA1D {
        lookup_8(cp)
    } else {
        None
    }
}

/// Part 1 of the folding table.
pub open spec fn spec_fold_0(cp: u32) -> Option<char> {
    if cp == 0x2E9F {
        Some('\u{6BCD}')
    } else if cp == 0x2EF3 {
        Some('\u{9F9F}')
    } else if cp == 0x2F00 {
        Some('\u{4E00}')
    } else if cp == 0x2F01 {
        Some('\u{4E28}')
    } else if cp == 0x2F02 {
        Some('\u{4E36}')
    } else if cp == 0x2F03 {
        Some('\u{4E3F}')
    } else if cp == 0x2F04 {
        Some('\u{4E59}')
    } else if cp == 0x2F05 {
        Some('\u{4E85}')
    } else if cp == 0x2F06 {
        Some('\u{4E8C}')
    } else if cp == 0x2F07 {
        Some('\u{4EA0}')
    } else if cp == 0x2F08 {
        Some('\u{4EBA}')
    } else if cp == 0x2F09 {
        Some('\u{513F}')
    } else if cp == 0x2F0A {
        Some('\u{5165}')
    } else if cp == 0x2F0B {
        Some('\u{516B}')
    } else if cp == 0x2F0C {
        Some('\u{5182}')
    } else if cp == 0x2F0D {
        Some('\u{5196}')
    } else if cp == 0x2F0E {
        Some('\u{51AB}')
    } else if cp == 0x2F0F {
        Some('\u{51E0}')
    } else if cp == 0x2F10 {
        Some('\u{51F5}')
    } else if cp == 0x2F11 {
        Some('\u{5200}')
    } else if cp == 0x2F12 {
        Some('\u{529B}')
    } else if cp == 0x2F13 {
        Some('\u{52F9}')
    } else if cp == 0x2F14 {
        Some('\u{5315}')
    } else if cp == 0x2F15 {
        Some('\u{531A}')
    } else if cp == 0x2F16 {
        Some('\u{5338}')
    } else if cp == 0x2F17 {
        Some('\u{5341}')
    } else if cp == 0x2F18 {
        Some('\u{535C}')
    } else if cp == 0x2F19 {
        Some('\u{5369}')
    } else if cp == 0x2F1A {
        Some('\u{5382}')
    } else if cp == 0x2F1B {
        Some('\u{53B6}')
    } else if cp == 0x2F1C {
        Some('\u{53C8}')
    } else if cp == 0x2F1D {
        Some('\u{53E3}')
    } else if cp == 0x2F1E {
        Some('\u{56D7}')
    } else if cp == 0x2F1F {
        Some('\u{571F}')
    } else if cp == 0x2F20 {
        Some('\u{58EB}')
    } else if cp == 0x2F21 {
        Some('\u{5902}')
    } else if cp == 0x2F22 {
        Some('\u{590A}')
    } else if cp == 0x2F23 {
        Some('\u{5915}')
    } else if cp == 0x2F24 {
        Some('\u{5927}')
    } else if cp == 0x2F25 {
        Some('\u{5973}')
    } else if cp == 0x2F26 {
        Some('\u{5B50}')
    } else if cp == 0x2F27 {
        Some('\u{5B80}')
    } else if cp == 0x2F28 {
        Some('\u{5BF8}')
    } else if cp == 0x2F29 {
        Some('\u{5C0F}')
    } else if cp == 0x2F2A {
        Some('\u{5C22}')
    } else if cp == 0x2F2B {
        Some('\u{5C38}')
    } else if cp == 0x2F2C {
        Some('\u{5C6E}')
    } else if cp == 0x2F2D {
        Some('\u{5C71}')
    } else if cp == 0x2F2E {
        Some('\u{5DDB}')
    } else if cp == 0x2F2F {
        Some('\u{5DE5}')
    } else if cp == 0x2F30 {
        Some('\u{5DF1}')
    } else if cp == 0x2F31 {
        Some('\u{5DFE}')
    } else if cp == 0x2F32 {
        Some('\u{5E72}')
    } else if cp == 0x2F33 {
        Some('\u{5E7A}')
    } else if cp == 0x2F34 {
        Some('\u{5E7F}')
    } else if cp == 0x2F35 {
        Some('\u{5EF4}')
    } else if cp == 0x2F36 {
        Some('\u{5EFE}')
    } else if cp == 0x2F37 {
        Some('\u{5F0B}')
    } else if cp == 0x2F38 {
        Some('\u{5F13}')
    } else if cp == 0x2F39 {
        Some('\u{5F50}')
    } else if cp == 0x2F3A {
        Some('\u{5F61}')
    } else if cp == 0x2F3B {
        Some('\u{5F73}')
    } else if cp == 0x2F3C {
        Some('\u{5FC3}')
    } else if cp == 0x2F3D {
        Some('\u{6208}')
    } else if cp == 0x2F3E {
        Some('\u{6236}')
    } else if cp == 0x2F3F {
        Some('\u{624B}')
    } else if cp == 0x2F40 {
        Some('\u{652F}')
    } else if cp == 0x2F41 {
        Some('\u{6534}')
    } else if cp == 0x2F42 {
        Some('\u{6587}')
    } else if cp == 0x2F43 {
        Some('\u{6597}')
    } else if cp == 0x2F44 {
        Some('\u{65A4}')
    } else if cp == 0x2F45 {
        Some('\u{65B9}')
    } else if cp == 0x2F46 {
        Some('\u{65E0}')
    } else if cp == 0x2F47 {
        Some('\u{65E5}')
    } else if cp == 0x2F48 {
        Some('\u{66F0}')
    } else if cp == 0x2F49 {
        Some('\u{6708}')
    } else if cp == 0x2F4A {
        Some('\u{6728}')
    } else if cp == 0x2F4B {
        Some('\u{6B20}')
    } else if cp == 0x2F4C {
        Some('\u{6B62}')
    } else if cp == 0x2F4D {
        Some('\u{6B79}')
    } else if cp == 0x2F4E {
        Some('\u{6BB3}')
    } else if cp == 0x2F4F {
        Some('\u{6BCB}')
    } else if cp == 0x2F50 {
        Some('\u{6BD4}')
    } else if cp == 0x2F51 {
        Some('\u{6BDB}')
    } else if cp == 0x2F52 {
        Some('\u{6C0F}')
    } else if cp == 0x2F53 {
        Some('\u{6C14}')
    } else if cp == 0x2F54 {
        Some('\u{6C34}')
    } else if cp == 0x2F55 {
        Some('\u{706B}')
    } else if cp == 0x2F56 {
        Some('\u{722A}')
    } else if cp == 0x2F57 {
        Some('\u{7236}')
    } else if cp == 0x2F58 {
        Some('\u{723B}')
    } else if cp == 0x2F59 {
        Some('\u{723F}')
    } else if cp == 0x2F5A {
        Some('\u{7247}')
    } else if cp == 0x2F5B {
        Some('\u{7259}')
    } else if cp == 0x2F5C {
        Some('\u{725B}')
    } else if cp == 0x2F5D {
        Some('\u{72AC}')
    } else if cp == 0x2F5E {
        Some('\u{7384}')
    } else if cp == 0x2F5F {
        Some('\u{7389}')
    } else if cp == 0x2F60 {
        Some('\u{74DC}')
    } else if cp == 0x2F61 {
        Some('\u{74E6}')
    } else if cp == 0x2F62 {
        Some('\u{7518}')
    } else if cp == 0x2F63 {
        Some('\u{751F}')
    } else if cp == 0x2F64 {
        Some('\u{7528}')
    } else if cp == 0x2F65 {
        Some('\u{7530}')
    } else if cp == 0x2F66 {
        Some('\u{758B}')
    } else if cp == 0x2F67 {
        Some('\u{7592}')
    } else if cp == 0x2F68 {
        Some('\u{7676}')
    } else if cp == 0x2F69 {
        Some('\u{767D}')
    } else if cp == 0x2F6A {
        Some('\u{76AE}')
    } else if cp == 0x2F6B {
        Some('\u{76BF}')
    } else if cp == 0x2F6C {
        Some('\u{76EE}')
    } else if cp == 0x2F6D {
        Some('\u{77DB}')
    } else if cp == 0x2F6E {
        Some('\u{77E2}')
    } else if cp == 0x2F6F {
        Some('\u{77F3}')
    } else if cp == 0x2F70 {
        Some('\u{793A}')
    } else if cp == 0x2F71 {
        Some('\u{79B8}')
    } else if cp == 0x2F72 {
        Some('\u{79BE}')
    } else if cp == 0x2F73 {
        Some('\u{7A74}')
    } else if cp == 0x2F74 {
        Some('\u{7ACB}')
    } else if cp == 0x2F75 {
        Some('\u{7AF9}')
    } else if cp == 0x2F76 {
        Some('\u{7C73}')
    } else if cp == 0x2F77 {
        Some('\u{7CF8}')
    } else if cp == 0x2F78 {
        Some('\u{7F36}')
    } else if cp == 0x2F79 {
        Some('\u{7F51}')
    } else if cp == 0x2F7A {
        Some('\u{7F8A}')
    } else if cp == 0x2F7B {
        Some('\u{7FBD}')
    } else if cp == 0x2F7C {
        Some('\u{8001}')
    } else if cp == 0x2F7D {
        Some('\u{800C}')
    } else if cp == 0x2F7E {
        Some('\u{8012}')
    } else if cp == 0x2F7F {
        Some('\u{8033}')
    } else if cp == 0x2F80 {
        Some('\u{807F}')
    } else if cp == 0x2F81 {
        Some('\u{8089}')
    } else if cp == 0x2F82 {
        Some('\u{81E3}')
    } else if cp == 0x2F83 {
        Some('\u{81EA}')
    } else if cp == 0x2F84 {
        Some('\u{81F3}')
    } else if cp == 0x2F85 {
        Some('\u{81FC}')
    } else if cp == 0x2F86 {
        Some('\u{820C}')
    } else if cp == 0x2F87 {
        Some('\u{821B}')
    } else if cp == 0x2F88 {
        Some('\u{821F}')
    } else if cp == 0x2F89 {
        Some('\u{826E}')
    } else if cp == 0x2F8A {
        Some('\u{8272}')
    } else if cp == 0x2F8B {
        Some('\u{8278}')
    } else if cp == 0x2F8C {
        Some('\u{864D}')
    } else if cp == 0x2F8D {
        Some('\u{866B}')
    } else if cp == 0x2F8E {
        Some('\u{8840}')
    } else if cp == 0x2F8F {
        Some('\u{884C}')
    } else if cp == 0x2F90 {
        Some('\u{8863}')
    } else if cp == 0x2F91 {
        Some('\u{897E}')
    } else if cp == 0x2F92 {
        Some('\u{898B}')
    } else if cp == 0x2F93 {
        Some('\u{89D2}')
    } else {
        None
    }
}

fn lookup_0(cp: u32) -> (r: Option<char>)
    ensures
        r == spec_fold_0(cp),
{
    if cp == 0x2E9F {
        Some('\u{6BCD}')
    } else if cp == 0x2EF3 {
        Some('\u{9F9F}')
    } else if cp == 0x2F00 {
        Some('\u{4E00}')
    } else if cp == 0x2F01 {
        Some('\u{4E28}')
    } else if cp == 0x2F02 {
        Some('\u{4E36}')
    } else if cp == 0x2F03 {
        Some('\u{4E3F}')
    } else if cp == 0x2F04 {
        Some('\u{4E59}')
    } else if cp == 0x2F05 {
        Some('\u{4E85}')
    } else if cp == 0x2F06 {
        Some('\u{4E8C}')
    } else if cp == 0x2F07 {
        Some('\u{4EA0}')
    } else if cp == 0x2F08 {
        Some('\u{4EBA}')
    } else if cp == 0x2F09 {
        Some('\u{513F}')
    } else if cp == 0x2F0A {
        Some('\u{5165}')
    } else if cp == 0x2F0B {
        Some('\u{516B}')
    } else if cp == 0x2F0C {
        Some('\u{5182}')
    } else if cp == 0x2F0D {
        Some('\u{5196}')
    } else if cp == 0x2F0E {
        Some('\u{51AB}')
    } else if cp == 0x2F0F {
        Some('\u{51E0}')
    } else if cp == 0x2F10 {
        Some('\u{51F5}')
    } else if cp == 0x2F11 {
        Some('\u{5200}')
    } else if cp == 0x2F12 {
        Some('\u{529B}')
    } else if cp == 0x2F13 {
        Some('\u{52F9}')
    } else if cp == 0x2F14 {
        Some('\u{5315}')
    } else if cp == 0x2F15 {
        Some('\u{531A}')
    } else if cp == 0x2F16 {
        Some('\u{5338}')
    } else if cp == 0x2F17 {
        Some('\u{5341}')
    } else if cp == 0x2F18 {
        Some('\u{535C}')
    } else if cp == 0x2F19 {
        Some('\u{5369}')
    } else if cp == 0x2F1A {
        Some('\u{5382}')
    } else if cp == 0x2F1B {
        Some('\u{53B6}')
    } else if cp == 0x2F1C {
        Some('\u{53C8}')
    } else if cp == 0x2F1D {
        Some('\u{53E3}')
    } else if cp == 0x2F1E {
        Some('\u{56D7}')
    } else if cp == 0x2F1F {
        Some('\u{571F}')
    } else if cp == 0x2F20 {
        Some('\u{58EB}')
    } else if cp == 0x2F21 {
        Some('\u{5902}')
    } else if cp == 0x2F22 {
        Some('\u{590A}')
    } else if cp == 0x2F23 {
        Some('\u{5915}')
    } else if cp == 0x2F24 {
        Some('\u{5927}')
    } else if cp == 0x2F25 {
        Some('\u{5973}')
    } else if cp == 0x2F26 {
        Some('\u{5B50}')
    } else if cp == 0x2F27 {
        Some('\u{5B80}')
    } else if cp == 0x2F28 {
        Some('\u{5BF8}')
    } else if cp == 0x2F29 {
        Some('\u{5C0F}')
    } else if cp == 0x2F2A {
        Some('\u{5C22}')
    } else if cp == 0x2F2B {
        Some('\u{5C38}')
    } else if cp == 0x2F2C {
        Some('\u{5C6E}')
    } else if cp == 0x2F2D {
        Some('\u{5C71}')
    } else if cp == 0x2F2E {
        Some('\u{5DDB}')
    } else if cp == 0x2F2F {
        Some('\u{5DE5}')
    } else if cp == 0x2F30 {
        Some('\u{5DF1}')
    } else if cp == 0x2F31 {
        Some('\u{5DFE}')
    } else if cp == 0x2F32 {
        Some('\u{5E72}')
    } else if cp == 0x2F33 {
        Some('\u{5E7A}')
    } else if cp == 0x2F34 {
        Some('\u{5E7F}')
    } else if cp == 0x2F35 {
        Some('\u{5EF4}')
    } else if cp == 0x2F36 {
        Some('\u{5EFE}')
    } else if cp == 0x2F37 {
        Some('\u{5F0B}')
    } else if cp == 0x2F38 {
        Some('\u{5F13}')
    } else if cp == 0x2F39 {
        Some('\u{5F50}')
    } else if cp == 0x2F3A {
        Some('\u{5F61}')
    } else if cp == 0x2F3B {
        Some('\u{5F73}')
    } else if cp == 0x2F3C {
        Some('\u{5FC3}')
    } else if cp == 0x2F3D {
        Some('\u{6208}')
    } else if cp == 0x2F3E {
        Some('\u{6236}')
    } else if cp == 0x2F3F {
        Some('\u{624B}')
    } else if cp == 0x2F40 {
        Some('\u{652F}')
    } else if cp == 0x2F41 {
        Some('\u{6534}')
    } else if cp == 0x2F42 {
        Some('\u{6587}')
    } else if cp == 0x2F43 {
        Some('\u{6597}')
    } else if cp == 0x2F44 {
        Some('\u{65A4}')
    } else if cp == 0x2F45 {
        Some('\u{65B9}')
    } else if cp == 0x2F46 {
        Some('\u{65E0}')
    } else if cp == 0x2F47 {
        Some('\u{65E5}')
    } else if cp == 0x2F48 {
        Some('\u{66F0}')
    } else if cp == 0x2F49 {
        Some('\u{6708}')
    } else if cp == 0x2F4A {
        Some('\u{6728}')
    } else if cp == 0x2F4B {
        Some('\u{6B20}')
    } else if cp == 0x2F4C {
        Some('\u{6B62}')
    } else if cp == 0x2F4D {
        Some('\u{6B79}')
    } else if cp == 0x2F4E {
        Some('\u{6BB3}')
    } else if cp == 0x2F4F {
        Some('\u{6BCB}')
    } else if cp == 0x2F50 {
        Some('\u{6BD4}')
    } else if cp == 0x2F51 {
        Some('\u{6BDB}')
    } else if cp == 0x2F52 {
        Some('\u{6C0F}')
    } else if cp == 0x2F53 {
        Some('\u{6C14}')
    } else if cp == 0x2F54 {
        Some('\u{6C34}')
    } else if cp == 0x2F55 {
        Some('\u{706B}')
    } else if cp == 0x2F56 {
        Some('\u{722A}')
    } else if cp == 0x2F57 {
        Some('\u{7236}')
    } else if cp == 0x2F58 {
        Some('\u{723B}')
    } else if cp == 0x2F59 {
        Some('\u{723F}')
    } else if cp == 0x2F5A {
        Some('\u{7247}')
    } else if cp == 0x2F5B {
        Some('\u{7259}')
    } else if cp == 0x2F5C {
        Some('\u{725B}')
    } else if cp == 0x2F5D {
        Some('\u{72AC}')
    } else if cp == 0x2F5E {
        Some('\u{7384}')
    } else if cp == 0x2F5F {
        Some('\u{7389}')
    } else if cp == 0x2F60 {
        Some('\u{74DC}')
    } else if cp == 0x2F61 {
        Some('\u{74E6}')
    } else if cp == 0x2F62 {
        Some('\u{7518}')
    } else if cp == 0x2F63 {
        Some('\u{751F}')
    } else if cp == 0x2F64 {
        Some('\u{7528}')
    } else if cp == 0x2F65 {
        Some('\u{7530}')
    } else if cp == 0x2F66 {
        Some('\u{758B}')
    } else if cp == 0x2F67 {
        Some('\u{7592}')
    } else if cp == 0x2F68 {
        Some('\u{7676}')
    } else if cp == 0x2F69 {
        Some('\u{767D}')
    } else if cp == 0x2F6A {
        Some('\u{76AE}')
    } else if cp == 0x2F6B {
        Some('\u{76BF}')
    } else if cp == 0x2F6C {
        Some('\u{76EE}')
    } else if cp == 0x2F6D {
        Some('\u{77DB}')
    } else if cp == 0x2F6E {
        Some('\u{77E2}')
    } else if cp == 0x2F6F {
        Some('\u{77F3}')
    } else if cp == 0x2F70 {
        Some('\u{793A}')
    } else if cp == 0x2F71 {
        Some('\u{79B8}')
    } else if cp == 0x2F72 {
        Some('\u{79BE}')
    } else if cp == 0x2F73 {
        Some('\u{7A74}')
    } else if cp == 0x2F74 {
        Some('\u{7ACB}')
    } else if cp == 0x2F75 {
        Some('\u{7AF9}')
    } else if cp == 0x2F76 {
        Some('\u{7C73}')
    } else if cp == 0x2F77 {
        Some('\u{7CF8}')
    } else if cp == 0x2F78 {
        Some('\u{7F36}')
    } else if cp == 0x2F79 {
        Some('\u{7F51}')
    } else if cp == 0x2F7A {
        Some('\u{7F8A}')
    } else if cp == 0x2F7B {
        Some('\u{7FBD}')
    } else if cp == 0x2F7C {
        Some('\u{8001}')
    } else if cp == 0x2F7D {
        Some('\u{800C}')
    } else if cp == 0x2F7E {
        Some('\u{8012}')
    } else if cp == 0x2F7F {
        Some('\u{8033}')
    } else if cp == 0x2F80 {
        Some('\u{807F}')
    } else if cp == 0x2F81 {
        Some('\u{8089}')
    } else if cp == 0x2F82 {
        Some('\u{81E3}')
    } else if cp == 0x2F83 {
        Some('\u{81EA}')
    } else if cp == 0x2F84 {
        Some('\u{81F3}')
    } else if cp == 0x2F85 {
        Some('\u{81FC}')
    } else if cp == 0x2F86 {
        Some('\u{820C}')
    } else if cp == 0x2F87 {
        Some('\u{821B}')
    } else if cp == 0x2F88 {
        Some('\u{821F}')
    } else if cp == 0x2F89 {
        Some('\u{826E}')
    } else if cp == 0x2F8A {
        Some('\u{8272}')
    } else if cp == 0x2F8B {
        Some('\u{8278}')
    } else if cp == 0x2F8C {
        Some('\u{864D}')
    } else if cp == 0x2F8D {
        Some('\u{866B}')
    } else if cp == 0x2F8E {
        Some('\u{8840}')
    } else if cp == 0x2F8F {
        Some('\u{884C}')
    } else if cp == 0x2F90 {
        Some('\u{8863}')
    } else if cp == 0x2F91 {
        Some('\u{897E}')
    } else if cp == 0x2F92 {
        Some('\u{898B}')
    } else if cp == 0x2F93 {
        Some('\u{89D2}')
    } else {
        None
    }
}

/// Part 2 of the folding table.
pub open spec fn spec_fold_1(cp: u32) -> Option<char> {
    if cp == 0x2F94 {
        Some('\u{8A00}')
    } else if cp == 0x2F95 {
        Some('\u{8C37}')
    } else if cp == 0x2F96 {
        Some('\u{8C46}')
    } else if cp == 0x2F97 {
        Some('\u{8C55}')
    } else if cp == 0x2F98 {
        Some('\u{8C78}')
    } else if cp == 0x2F99 {
        Some('\u{8C9D}')
    } else if cp == 0x2F9A {
        Some('\u{8D64}')
    } else if cp == 0x2F9B {
        Some('\u{8D70}')
    } else if cp == 0x2F9C {
        Some('\u{8DB3}')
    } else if cp == 0x2F9D {
        Some('\u{8EAB}')
    } else if cp == 0x2F9E {
        Some('\u{8ECA}')
    } else if cp == 0x2F9F {
        Some('\u{8F9B}')
    } else if cp == 0x2FA0 {
        Some('\u{8FB0}')
    } else if cp == 0x2FA1 {
        Some('\u{8FB5}')
    } else if cp == 0x2FA2 {
        Some('\u{9091}')
    } else if cp == 0x2FA3 {
        Some('\u{9149}')
    } else if cp == 0x2FA4 {
        Some('\u{91C6}')
    } else if cp == 0x2FA5 {
        Some('\u{91CC}')
    } else if cp == 0x2FA6 {
        Some('\u{91D1}')
    } else if cp == 0x2FA7 {
        Some('\u{9577}')
    } else if cp == 0x2FA8 {
        Some('\u{9580}')
    } else if cp == 0x2FA9 {
        Some('\u{961C}')
    } else if cp == 0x2FAA {
        Some('\u{96B6}')
    } else if cp == 0x2FAB {
        Some('\u{96B9}')
    } else if cp == 0x2FAC {
        Some('\u{96E8}')
    } else if cp == 0x2FAD {
        Some('\u{9751}')
    } else if cp == 0x2FAE {
        Some('\u{975E}')
    } else if cp == 0x2FAF {
        Some('\u{9762}')
    } else if cp == 0x2FB0 {
        Some('\u{9769}')
    } else if cp == 0x2FB1 {
        Some('\u{97CB}')
    } else if cp == 0x2FB2 {
        Some('\u{97ED}')
    } else if cp == 0x2FB3 {
        Some('\u{97F3}')
    } else if cp == 0x2FB4 {
        Some('\u{9801}')
    } else if cp == 0x2FB5 {
        Some('\u{98A8}')
    } else if cp == 0x2FB6 {
        Some('\u{98DB}')
    } else if cp == 0x2FB7 {
        Some('\u{98DF}')
    } else if cp == 0x2FB8 {
        Some('\u{9996}')
    } else if cp == 0x2FB9 {
        Some('\u{9999}')
    } else if cp == 0x2FBA {
        Some('\u{99AC}')
    } else if cp == 0x2FBB {
        Some('\u{9AA8}')
    } else if cp == 0x2FBC {
        Some('\u{9AD8}')
    } else if cp == 0x2FBD {
        Some('\u{9ADF}')
    } else if cp == 0x2FBE {
        Some('\u{9B25}')
    } else if cp == 0x2FBF {
        Some('\u{9B2F}')
    } else if cp == 0x2FC0 {
        Some('\u{9B32}')
    } else if cp == 0x2FC1 {
        Some('\u{9B3C}')
    } else if cp == 0x2FC2 {
        Some('\u{9B5A}')
    } else if cp == 0x2FC3 {
        Some('\u{9CE5}')
    } else if cp == 0x2FC4 {
        Some('\u{9E75}')
    } else if cp == 0x2FC5 {
        Some('\u{9E7F}')
    } else if cp == 0x2FC6 {
        Some('\u{9EA5}')
    } else if cp == 0x2FC7 {
        Some('\u{9EBB}')
    } else if cp == 0x2FC8 {
        Some('\u{9EC3}')
    } else if cp == 0x2FC9 {
        Some('\u{9ECD}')
    } else if cp == 0x2FCA {
        Some('\u{9ED1}')
    } else if cp == 0x2FCB {
        Some('\u{9EF9}')
    } else if cp == 0x2FCC {
        Some('\u{9EFD}')
    } else if cp == 0x2FCD {
        Some('\u{9F0E}')
    } else if cp == 0x2FCE {
        Some('\u{9F13}')
    } else if cp == 0x2FCF {
        Some('\u{9F20}')
    } else if cp == 0x2FD0 {
        Some('\u{9F3B}')
    } else if cp == 0x2FD1 {
        Some('\u{9F4A}')
    } else if cp == 0x2FD2 {
        Some('\u{9F52}')
    } else if cp == 0x2FD3 {
        Some('\u{9F8D}')
    } else if cp == 0x2FD4 {
        Some('\u{9F9C}')
    } else if cp == 0x2FD5 {
        Some('\u{9FA0}')
    } else if cp == 0xF900 {
        Some('\u{8C48}')
    } else if cp == 0xF901 {
        Some('\u{66F4}')
    } else if cp == 0xF902 {
        Some('\u{8ECA}')
    } else if cp == 0xF903 {
        Some('\u{8CC8}')
    } else if cp == 0xF904 {
        Some('\u{6ED1}')
    } else if cp == 0xF905 {
        Some('\u{4E32}')
    } else if cp == 0xF906 {
        Some('\u{53E5}')
    } else if cp == 0xF907 {
        Some('\u{9F9C}')
    } else if cp == 0xF908 {
        Some('\u{9F9C}')
    } else if cp == 0xF909 {
        Some('\u{5951}')
    } else if cp == 0xF90A {
        Some('\u{91D1}')
    } else if cp == 0xF90B {
        Some('\u{5587}')
    } else if cp == 0xF90C {
        Some('\u{5948}')
    } else if cp == 0xF90D {
        Some('\u{61F6}')
    } else if cp == 0xF90E {
        Some('\u{7669}')
    } else if cp == 0xF90F {
        Some('\u{7F85}')
    } else if cp == 0xF910 {
        Some('\u{863F}')
    } else if cp == 0xF911 {
        Some('\u{87BA}')
    } else if cp == 0xF912 {
        Some('\u{88F8}')
    } else if cp == 0xF913 {
        Some('\u{908F}')
    } else if cp == 0xF914 {
        Some('\u{6A02}')
    } else if cp == 0xF915 {
        Some('\u{6D1B}')
    } else if cp == 0xF916 {
        Some('\u{70D9}')
    } else if cp == 0xF917 {
        Some('\u{73DE}')
    } else if cp == 0xF918 {
        Some('\u{843D}')
    } else if cp == 0xF919 {
        Some('\u{916A}')
    } else if cp == 0xF91A {
        Some('\u{99F1}')
    } else if cp == 0xF91B {
        Some('\u{4E82}')
    } else if cp == 0xF91C {
        Some('\u{5375}')
    } else if cp == 0xF91D {
        Some('\u{6B04}')
    } else if cp == 0xF91E {
        Some('\u{721B}')
    } else if cp == 0xF91F {
        Some('\u{862D}')
    } else if cp == 0xF920 {
        Some('\u{9E1E}')
    } else if cp == 0xF921 {
        Some('\u{5D50}')
    } else if cp == 0xF922 {
        Some('\u{6FEB}')
    } else if cp == 0xF923 {
        Some('\u{85CD}')
    } else if cp == 0xF924 {
        Some('\u{8964}')
    } else if cp == 0xF925 {
        Some('\u{62C9}')
    } else if cp == 0xF926 {
        Some('\u{81D8}')
    } else if cp == 0xF927 {
        Some('\u{881F}')
    } else if cp == 0xF928 {
        Some('\u{5ECA}')
    } else if cp == 0xF929 {
        Some('\u{6717}')
    } else if cp == 0xF92A {
        Some('\u{6D6A}')
    } else if cp == 0xF92B {
        Some('\u{72FC}')
    } else if cp == 0xF92C {
        Some('\u{90CE}')
    } else if cp == 0xF92D {
        Some('\u{4F86}')
    } else if cp == 0xF92E {
        Some('\u{51B7}')
    } else if cp == 0xF92F {
        Some('\u{52DE}')
    } else if cp == 0xF930 {
        Some('\u{64C4}')
    } else if cp == 0xF931 {
        Some('\u{6AD3}')
    } else if cp == 0xF932 {
        Some('\u{7210}')
    } else if cp == 0xF933 {
        Some('\u{76E7}')
    } else if cp == 0xF934 {
        Some('\u{8001}')
    } else if cp == 0xF935 {
        Some('\u{8606}')
    } else if cp == 0xF936 {
        Some('\u{865C}')
    } else if cp == 0xF937 {
        Some('\u{8DEF}')
    } else if cp == 0xF938 {
        Some('\u{9732}')
    } else if cp == 0xF939 {
        Some('\u{9B6F}')
    } else if cp == 0xF93A {
        Some('\u{9DFA}')
    } else if cp == 0xF93B {
        Some('\u{788C}')
    } else if cp == 0xF93C {
        Some('\u{797F}')
    } else if cp == 0xF93D {
        Some('\u{7DA0}')
    } else if cp == 0xF93E {
        Some('\u{83C9}')
    } else if cp == 0xF93F {
        Some('\u{9304}')
    } else if cp == 0xF940 {
        Some('\u{9E7F}')
    } else if cp == 0xF941 {
        Some('\u{8AD6}')
    } else if cp == 0xF942 {
        Some('\u{58DF}')
    } else if cp == 0xF943 {
        Some('\u{5F04}')
    } else if cp == 0xF944 {
        Some('\u{7C60}')
    } else if cp == 0xF945 {
        Some('\u{807E}')
    } else if cp == 0xF946 {
        Some('\u{7262}')
    } else if cp == 0xF947 {
        Some('\u{78CA}')
    } else if cp == 0xF948 {
        Some('\u{8CC2}')
    } else if cp == 0xF949 {
        Some('\u{96F7}')
    } else if cp == 0xF94A {
        Some('\u{58D8}')
    } else if cp == 0xF94B {
        Some('\u{5C62}')
    } else if cp == 0xF94C {
        Some('\u{6A13}')
    } else if cp == 0xF94D {
        Some('\u{6DDA}')
    } else if cp == 0xF94E {
        Some('\u{6F0F}')
    } else if cp == 0xF94F {
        Some('\u{7D2F}')
    } else if cp == 0xF950 {
        Some('\u{7E37}')
    } else if cp == 0xF951 {
        Some('\u{964B}')
    } else if cp == 0xF952 {
        Some('\u{52D2}')
    } else if cp == 0xF953 {
        Some('\u{808B}')
    } else {
        None
    }
}

fn lookup_1(cp: u32) -> (r: Option<char>)
    ensures
        r == spec_fold_1(cp),
{
    if cp == 0x2F94 {
        Some('\u{8A00}')
    } else if cp == 0x2F95 {
        Some('\u{8C37}')
    } else if cp == 0x2F96 {
        Some('\u{8C46}')
    } else if cp == 0x2F97 {
        Some('\u{8C55}')
    } else if cp == 0x2F98 {
        Some('\u{8C78}')
    } else if cp == 0x2F99 {
        Some('\u{8C9D}')
    } else if cp == 0x2F9A {
        Some('\u{8D64}')
    } else if cp == 0x2F9B {
        Some('\u{8D70}')
    } else if cp == 0x2F9C {
        Some('\u{8DB3}')
    } else if cp == 0x2F9D {
        Some('\u{8EAB}')
    } else if cp == 0x2F9E {
        Some('\u{8ECA}')
    } else if cp == 0x2F9F {
        Some('\u{8F9B}')
    } else if cp == 0x2FA0 {
        Some('\u{8FB0}')
    } else if cp == 0x2FA1 {
        Some('\u{8FB5}')
    } else if cp == 0x2FA2 {
        Some('\u{9091}')
    } else if cp == 0x2FA3 {
        Some('\u{9149}')
    } else if cp == 0x2FA4 {
        Some('\u{91C6}')
    } else if cp == 0x2FA5 {
        Some('\u{91CC}')
    } else if cp == 0x2FA6 {
        Some('\u{91D1}')
    } else if cp == 0x2FA7 {
        Some('\u{9577}')
    } else if cp == 0x2FA8 {
        Some('\u{9580}')
    } else if cp == 0x2FA9 {
        Some('\u{961C}')
    } else if cp == 0x2FAA {
        Some('\u{96B6}')
    } else if cp == 0x2FAB {
        Some('\u{96B9}')
    } else if cp == 0x2FAC {
        Some('\u{96E8}')
    } else if cp == 0x2FAD {
        Some('\u{9751}')
    } else if cp == 0x2FAE {
        Some('\u{975E}')
    } else if cp == 0x2FAF {
        Some('\u{9762}')
    } else if cp == 0x2FB0 {
        Some('\u{9769}')
    } else if cp == 0x2FB1 {
        Some('\u{97CB}')
    } else if cp == 0x2FB2 {
        Some('\u{97ED}')
    } else if cp == 0x2FB3 {
        Some('\u{97F3}')
    } else if cp == 0x2FB4 {
        Some('\u{9801}')
    } else if cp == 0x2FB5 {
        Some('\u{98A8}')
    } else if cp == 0x2FB6 {
        Some('\u{98DB}')
    } else if cp == 0x2FB7 {
        Some('\u{98DF}')
    } else if cp == 0x2FB8 {
        Some('\u{9996}')
    } else if cp == 0x2FB9 {
        Some('\u{9999}')
    } else if cp == 0x2FBA {
        Some('\u{99AC}')
    } else if cp == 0x2FBB {
        Some('\u{9AA8}')
    } else if cp == 0x2FBC {
        Some('\u{9AD8}')
    } else if cp == 0x2FBD {
        Some('\u{9ADF}')
    } else if cp == 0x2FBE {
        Some('\u{9B25}')
    } else if cp == 0x2FBF {
        Some('\u{9B2F}')
    } else if cp == 0x2FC0 {
        Some('\u{9B32}')
    } else if cp == 0x2FC1 {
        Some('\u{9B3C}')
    } else if cp == 0x2FC2 {
        Some('\u{9B5A}')
    } else if cp == 0x2FC3 {
        Some('\u{9CE5}')
    } else if cp == 0x2FC4 {
        Some('\u{9E75}')
    } else if cp == 0x2FC5 {
        Some('\u{9E7F}')
    } else if cp == 0x2FC6 {
        Some('\u{9EA5}')
    } else if cp == 0x2FC7 {
        Some('\u{9EBB}')
    } else if cp == 0x2FC8 {
        Some('\u{9EC3}')
    } else if cp == 0x2FC9 {
        Some('\u{9ECD}')
    } else if cp == 0x2FCA {
        Some('\u{9ED1}')
    } else if cp == 0x2FCB {
        Some('\u{9EF9}')
    } else if cp == 0x2FCC {
        Some('\u{9EFD}')
    } else if cp == 0x2FCD {
        Some('\u{9F0E}')
    } else if cp == 0x2FCE {
        Some('\u{9F13}')
    } else if cp == 0x2FCF {
        Some('\u{9F20}')
    } else if cp == 0x2FD0 {
        Some('\u{9F3B}')
    } else if cp == 0x2FD1 {
        Some('\u{9F4A}')
    } else if cp == 0x2FD2 {
        Some('\u{9F52}')
    } else if cp == 0x2FD3 {
        Some('\u{9F8D}')
    } else if cp == 0x2FD4 {
        Some('\u{9F9C}')
    } else if cp == 0x2FD5 {
        Some('\u{9FA0}')
    } else if cp == 0xF900 {
        Some('\u{8C48}')
    } else if cp == 0xF901 {
        Some('\u{66F4}')
    } else if cp == 0xF902 {
        Some('\u{8ECA}')
    } else if cp == 0xF903 {
        Some('\u{8CC8}')
    } else if cp == 0xF904 {
        Some('\u{6ED1}')
    } else if cp == 0xF905 {
        Some('\u{4E32}')
    } else if cp == 0xF906 {
        Some('\u{53E5}')
    } else if cp == 0xF907 {
        Some('\u{9F9C}')
    } else if cp == 0xF908 {
        Some('\u{9F9C}')
    } else if cp == 0xF909 {
        Some('\u{5951}')
    } else if cp == 0xF90A {
        Some('\u{91D1}')
    } else if cp == 0xF90B {
        Some('\u{5587}')
    } else if cp == 0xF90C {
        Some('\u{5948}')
    } else if cp == 0xF90D {
        Some('\u{61F6}')
    } else if cp == 0xF90E {
        Some('\u{7669}')
    } else if cp == 0xF90F {
        Some('\u{7F85}')
    } else if cp == 0xF910 {
        Some('\u{863F}')
    } else if cp == 0xF911 {
        Some('\u{87BA}')
    } else if cp == 0xF912 {
        Some('\u{88F8}')
    } else if cp == 0xF913 {
        Some('\u{908F}')
    } else if cp == 0xF914 {
        Some('\u{6A02}')
    } else if cp == 0xF915 {
        Some('\u{6D1B}')
    } else if cp == 0xF916 {
        Some('\u{70D9}')
    } else if cp == 0xF917 {
        Some('\u{73DE}')
    } else if cp == 0xF918 {
        Some('\u{843D}')
    } else if cp == 0xF919 {
        Some('\u{916A}')
    } else if cp == 0xF91A {
        Some('\u{99F1}')
    } else if cp == 0xF91B {
        Some('\u{4E82}')
    } else if cp == 0xF91C {
        Some('\u{5375}')
    } else if cp == 0xF91D {
        Some('\u{6B04}')
    } else if cp == 0xF91E {
        Some('\u{721B}')
    } else if cp == 0xF91F {
        Some('\u{862D}')
    } else if cp == 0xF920 {
        Some('\u{9E1E}')
    } else if cp == 0xF921 {
        Some('\u{5D50}')
    } else if cp == 0xF922 {
        Some('\u{6FEB}')
    } else if cp == 0xF923 {
        Some('\u{85CD}')
    } else if cp == 0xF924 {
        Some('\u{8964}')
    } else if cp == 0xF925 {
        Some('\u{62C9}')
    } else if cp == 0xF926 {
        Some('\u{81D8}')
    } else if cp == 0xF927 {
        Some('\u{881F}')
    } else if cp == 0xF928 {
        Some('\u{5ECA}')
    } else if cp == 0xF929 {
        Some('\u{6717}')
    } else if cp == 0xF92A {
        Some('\u{6D6A}')
    } else if cp == 0xF92B {
        Some('\u{72FC}')
    } else if cp == 0xF92C {
        Some('\u{90CE}')
    } else if cp == 0xF92D {
        Some('\u{4F86}')
    } else if cp == 0xF92E {
        Some('\u{51B7}')
    } else if cp == 0xF92F {
        Some('\u{52DE}')
    } else if cp == 0xF930 {
        Some('\u{64C4}')
    } else if cp == 0xF931 {
        Some('\u{6AD3}')
    } else if cp == 0xF932 {
        Some('\u{7210}')
    } else if cp == 0xF933 {
        Some('\u{76E7}')
    } else if cp == 0xF934 {
        Some('\u{8001}')
    } else if cp == 0xF935 {
        Some('\u{8606}')
    } else if cp == 0xF936 {
        Some('\u{865C}')
    } else if cp == 0xF937 {
        Some('\u{8DEF}')
    } else if cp == 0xF938 {
        Some('\u{9732}')
    } else if cp == 0xF939 {
        Some('\u{9B6F}')
    } else if cp == 0xF93A {
        Some('\u{9DFA}')
    } else if cp == 0xF93B {
        Some('\u{788C}')
    } else if cp == 0xF93C {
        Some('\u{797F}')
    } else if cp == 0xF93D {
        Some('\u{7DA0}')
    } else if cp == 0xF93E {
        Some('\u{83C9}')
    } else if cp == 0xF93F {
        Some('\u{9304}')
    } else if cp == 0xF940 {
        Some('\u{9E7F}')
    } else if cp == 0xF941 {
        Some('\u{8AD6}')
    } else if cp == 0xF942 {
        Some('\u{58DF}')
    } else if cp == 0xF943 {
        Some('\u{5F04}')
    } else if cp == 0xF944 {
        Some('\u{7C60}')
    } else if cp == 0xF945 {
        Some('\u{807E}')
    } else if cp == 0xF946 {
        Some('\u{7262}')
    } else if cp == 0xF947 {
        Some('\u{78CA}')
    } else if cp == 0xF948 {
        Some('\u{8CC2}')
    } else if cp == 0xF949 {
        Some('\u{96F7}')
    } else if cp == 0xF94A {
        Some('\u{58D8}')
    } else if cp == 0xF94B {
        Some('\u{5C62}')
    } else if cp == 0xF94C {
        Some('\u{6A13}')
    } else if cp == 0xF94D {
        Some('\u{6DDA}')
    } else if cp == 0xF94E {
        Some('\u{6F0F}')
    } else if cp == 0xF94F {
        Some('\u{7D2F}')
    } else if cp == 0xF950 {
        Some('\u{7E37}')
    } else if cp == 0xF951 {
        Some('\u{964B}')
    } else if cp == 0xF952 {
        Some('\u{52D2}')
    } else if cp == 0xF953 {
        Some('\u{808B}')
    } else {
        None
    }
}

/// Part 3 of the folding table.
pub open spec fn spec_fold_2(cp: u32) -> Option<char> {
    if cp == 0xF954 {
        Some('\u{51DC}')
    } else if cp == 0xF955 {
        Some('\u{51CC}')
    } else if cp == 0xF956 {
        Some('\u{7A1C}')
    } else if cp == 0xF957 {
        Some('\u{7DBE}')
    } else if cp == 0xF958 {
        Some('\u{83F1}')
    } else if cp == 0xF959 {
        Some('\u{9675}')
    } else if cp == 0xF95A {
        Some('\u{8B80}')
    } else if cp == 0xF95B {
        Some('\u{62CF}')
    } else if cp == 0xF95C {
        Some('\u{6A02}')
    } else if cp == 0xF95D {
        Some('\u{8AFE}')
    } else if cp == 0xF95E {
        Some('\u{4E39}')
    } else if cp == 0xF95F {
        Some('\u{5BE7}')
    } else if cp == 0xF960 {
        Some('\u{6012}')
    } else if cp == 0xF961 {
        Some('\u{7387}')
    } else if cp == 0xF962 {
        Some('\u{7570}')
    } else if cp == 0xF963 {
        Some('\u{5317}')
    } else if cp == 0xF964 {
        Some('\u{78FB}')
    } else if cp == 0xF965 {
        Some('\u{4FBF}')
    } else if cp == 0xF966 {
        Some('\u{5FA9}')
    } else if cp == 0xF967 {
        Some('\u{4E0D}')
    } else if cp == 0xF968 {
        Some('\u{6CCC}')
    } else if cp == 0xF969 {
        Some('\u{6578}')
    } else if cp == 0xF96A {
        Some('\u{7D22}')
    } else if cp == 0xF96B {
        Some('\u{53C3}')
    } else if cp == 0xF96C {
        Some('\u{585E}')
    } else if cp == 0xF96D {
        Some('\u{7701}')
    } else if cp == 0xF96E {
        Some('\u{8449}')
    } else if cp == 0xF96F {
        Some('\u{8AAA}')
    } else if cp == 0xF970 {
        Some('\u{6BBA}')
    } else if cp == 0xF971 {
        Some('\u{8FB0}')
    } else if cp == 0xF972 {
        Some('\u{6C88}')
    } else if cp == 0xF973 {
        Some('\u{62FE}')
    } else if cp == 0xF974 {
        Some('\u{82E5}')
    } else if cp == 0xF975 {
        Some('\u{63A0}')
    } else if cp == 0xF976 {
        Some('\u{7565}')
    } else if cp == 0xF977 {
        Some('\u{4EAE}')
    } else if cp == 0xF978 {
        Some('\u{5169}')
    } else if cp == 0xF979 {
        Some('\u{51C9}')
    } else if cp == 0xF97A {
        Some('\u{6881}')
    } else if cp == 0xF97B {
        Some('\u{7CE7}')
    } else if cp == 0xF97C {
        Some('\u{826F}')
    } else if cp == 0xF97D {
        Some('\u{8AD2}')
    } else if cp == 0xF97E {
        Some('\u{91CF}')
    } else if cp == 0xF97F {
        Some('\u{52F5}')
    } else if cp == 0xF980 {
        Some('\u{5442}')
    } else if cp == 0xF981 {
        Some('\u{5973}')
    } else if cp == 0xF982 {
        Some('\u{5EEC}')
    } else if cp == 0xF983 {
        Some('\u{65C5}')
    } else if cp == 0xF984 {
        Some('\u{6FFE}')
    } else if cp == 0xF985 {
        Some('\u{792A}')
    } else if cp == 0xF986 {
        Some('\u{95AD}')
    } else if cp == 0xF987 {
        Some('\u{9A6A}')
    } else if cp == 0xF988 {
        Some('\u{9E97}')
    } else if cp == 0xF989 {
        Some('\u{9ECE}')
    } else if cp == 0xF98A {
        Some('\u{529B}')
    } else if cp == 0xF98B {
        Some('\u{66C6}')
    } else if cp == 0xF98C {
        Some('\u{6B77}')
    } else if cp == 0xF98D {
        Some('\u{8F62}')
    } else if cp == 0xF98E {
        Some('\u{5E74}')
    } else if cp == 0xF98F {
        Some('\u{6190}')
    } else if cp == 0xF990 {
        Some('\u{6200}')
    } else if cp == 0xF991 {
        Some('\u{649A}')
    } else if cp == 0xF992 {
        Some('\u{6F23}')
    } else if cp == 0xF993 {
        Some('\u{7149}')
    } else if cp == 0xF994 {
        Some('\u{7489}')
    } else if cp == 0xF995 {
        Some('\u{79CA}')
    } else if cp == 0xF996 {
        Some('\u{7DF4}')
    } else if cp == 0xF997 {
        Some('\u{806F}')
    } else if cp == 0xF998 {
        Some('\u{8F26}')
    } else if cp == 0xF999 {
        Some('\u{84EE}')
    } else if cp == 0xF99A {
        Some('\u{9023}')
    } else if cp == 0xF99B {
        Some('\u{934A}')
    } else if cp == 0xF99C {
        Some('\u{5217}')
    } else if cp == 0xF99D {
        Some('\u{52A3}')
    } else if cp == 0xF99E {
        Some('\u{54BD}')
    } else if cp == 0xF99F {
        Some('\u{70C8}')
    } else if cp == 0xF9A0 {
        Some('\u{88C2}')
    } else if cp == 0xF9A1 {
        Some('\u{8AAA}')
    } else if cp == 0xF9A2 {
        Some('\u{5EC9}')
    } else if cp == 0xF9A3 {
        Some('\u{5FF5}')
    } else if cp == 0xF9A4 {
        Some('\u{637B}')
    } else if cp == 0xF9A5 {
        Some('\u{6BAE}')
    } else if cp == 0xF9A6 {
        Some('\u{7C3E}')
    } else if cp == 0xF9A7 {
        Some('\u{7375}')
    } else if cp == 0xF9A8 {
        Some('\u{4EE4}')
    } else if cp == 0xF9A9 {
        Some('\u{56F9}')
    } else if cp == 0xF9AA {
        Some('\u{5BE7}')
    } else if cp == 0xF9AB {
        Some('\u{5DBA}')
    } else if cp == 0xF9AC {
        Some('\u{601C}')
    } else if cp == 0xF9AD {
        Some('\u{73B2}')
    } else if cp == 0xF9AE {
        Some('\u{7469}')
    } else if cp == 0xF9AF {
        Some('\u{7F9A}')
    } else if cp == 0xF9B0 {
        Some('\u{8046}')
    } else if cp == 0xF9B1 {
        Some('\u{9234}')
    } else if cp == 0xF9B2 {
        Some('\u{96F6}')
    } else if cp == 0xF9B3 {
        Some('\u{9748}')
    } else if cp == 0xF9B4 {
        Some('\u{9818}')
    } else if cp == 0xF9B5 {
        Some('\u{4F8B}')
    } else if cp == 0xF9B6 {
        Some('\u{79AE}')
    } else if cp == 0xF9B7 {
        Some('\u{91B4}')
    } else if cp == 0xF9B8 {
        Some('\u{96B8}')
    } else if cp == 0xF9B9 {
        Some('\u{60E1}')
    } else if cp == 0xF9BA {
        Some('\u{4E86}')
    } else if cp == 0xF9BB {
        Some('\u{50DA}')
    } else if cp == 0xF9BC {
        Some('\u{5BEE}')
    } else if cp == 0xF9BD {
        Some('\u{5C3F}')
    } else if cp == 0xF9BE {
        Some('\u{6599}')
    } else if cp == 0xF9BF {
        Some('\u{6A02}')
    } else if cp == 0xF9C0 {
        Some('\u{71CE}')
    } else if cp == 0xF9C1 {
        Some('\u{7642}')
    } else if cp == 0xF9C2 {
        Some('\u{84FC}')
    } else if cp == 0xF9C3 {
        Some('\u{907C}')
    } else if cp == 0xF9C4 {
        Some('\u{9F8D}')
    } else if cp == 0xF9C5 {
        Some('\u{6688}')
    } else if cp == 0xF9C6 {
        Some('\u{962E}')
    } else if cp == 0xF9C7 {
        Some('\u{5289}')
    } else if cp == 0xF9C8 {
        Some('\u{677B}')
    } else if cp == 0xF9C9 {
        Some('\u{67F3}')
    } else if cp == 0xF9CA {
        Some('\u{6D41}')
    } else if cp == 0xF9CB {
        Some('\u{6E9C}')
    } else if cp == 0xF9CC {
        Some('\u{7409}')
    } else if cp == 0xF9CD {
        Some('\u{7559}')
    } else if cp == 0xF9CE {
        Some('\u{786B}')
    } else if cp == 0xF9CF {
        Some('\u{7D10}')
    } else if cp == 0xF9D0 {
        Some('\u{985E}')
    } else if cp == 0xF9D1 {
        Some('\u{516D}')
    } else if cp == 0xF9D2 {
        Some('\u{622E}')
    } else if cp == 0xF9D3 {
        Some('\u{9678}')
    } else if cp == 0xF9D4 {
        Some('\u{502B}')
    } else if cp == 0xF9D5 {
        Some('\u{5D19}')
    } else if cp == 0xF9D6 {
        Some('\u{6DEA}')
    } else if cp == 0xF9D7 {
        Some('\u{8F2A}')
    } else if cp == 0xF9D8 {
        Some('\u{5F8B}')
    } else if cp == 0xF9D9 {
        Some('\u{6144}')
    } else if cp == 0xF9DA {
        Some('\u{6817}')
    } else if cp == 0xF9DB {
        Some('\u{7387}')
    } else if cp == 0xF9DC {
        Some('\u{9686}')
    } else if cp == 0xF9DD {
        Some('\u{5229}')
    } else if cp == 0xF9DE {
        Some('\u{540F}')
    } else if cp == 0xF9DF {
        Some('\u{5C65}')
    } else if cp == 0xF9E0 {
        Some('\u{6613}')
    } else if cp == 0xF9E1 {
        Some('\u{674E}')
    } else if cp == 0xF9E2 {
        Some('\u{68A8}')
    } else if cp == 0xF9E3 {
        Some('\u{6CE5}')
    } else if cp == 0xF9E4 {
        Some('\u{7406}')
    } else if cp == 0xF9E5 {
        Some('\u{75E2}')
    } else if cp == 0xF9E6 {
        Some('\u{7F79}')
    } else if cp == 0xF9E7 {
        Some('\u{88CF}')
    } else if cp == 0xF9E8 {
        Some('\u{88E1}')
    } else if cp == 0xF9E9 {
        Some('\u{91CC}')
    } else {
        None
    }
}

fn lookup_2(cp: u32) -> (r: Option<char>)
    ensures
        r == spec_fold_2(cp),
{
    if cp == 0xF954 {
        Some('\u{51DC}')
    } else if cp == 0xF955 {
        Some('\u{51CC}')
    } else if cp == 0xF956 {
        Some('\u{7A1C}')
    } else if cp == 0xF957 {
        Some('\u{7DBE}')
    } else if cp == 0xF958 {
        Some('\u{83F1}')
    } else if cp == 0xF959 {
        Some('\u{9675}')
    } else if cp == 0xF95A {
        Some('\u{8B80}')
    } else if cp == 0xF95B {
        Some('\u{62CF}')
    } else if cp == 0xF95C {
        Some('\u{6A02}')
    } else if cp == 0xF95D {
        Some('\u{8AFE}')
    } else if cp == 0xF95E {
        Some('\u{4E39}')
    } else if cp == 0xF95F {
        Some('\u{5BE7}')
    } else if cp == 0xF960 {
        Some('\u{6012}')
    } else if cp == 0xF961 {
        Some('\u{7387}')
    } else if cp == 0xF962 {
        Some('\u{7570}')
    } else if cp == 0xF963 {
        Some('\u{5317}')
    } else if cp == 0xF964 {
        Some('\u{78FB}')
    } else if cp == 0xF965 {
        Some('\u{4FBF}')
    } else if cp == 0xF966 {
        Some('\u{5FA9}')
    } else if cp == 0xF967 {
        Some('\u{4E0D}')
    } else if cp == 0xF968 {
        Some('\u{6CCC}')
    } else if cp == 0xF969 {
        Some('\u{6578}')
    } else if cp == 0xF96A {
        Some('\u{7D22}')
    } else if cp == 0xF96B {
        Some('\u{53C3}')
    } else if cp == 0xF96C {
        Some('\u{585E}')
    } else if cp == 0xF96D {
        Some('\u{7701}')
    } else if cp == 0xF96E {
        Some('\u{8449}')
    } else if cp == 0xF96F {
        Some('\u{8AAA}')
    } else if cp == 0xF970 {
        Some('\u{6BBA}')
    } else if cp == 0xF971 {
        Some('\u{8FB0}')
    } else if cp == 0xF972 {
        Some('\u{6C88}')
    } else if cp == 0xF973 {
        Some('\u{62FE}')
    } else if cp == 0xF974 {
        Some('\u{82E5}')
    } else if cp == 0xF975 {
        Some('\u{63A0}')
    } else if cp == 0xF976 {
        Some('\u{7565}')
    } else if cp == 0xF977 {
        Some('\u{4EAE}')
    } else if cp == 0xF978 {
        Some('\u{5169}')
    } else if cp == 0xF979 {
        Some('\u{51C9}')
    } else if cp == 0xF97A {
        Some('\u{6881}')
    } else if cp == 0xF97B {
        Some('\u{7CE7}')
    } else if cp == 0xF97C {
        Some('\u{826F}')
    } else if cp == 0xF97D {
        Some('\u{8AD2}')
    } else if cp == 0xF97E {
        Some('\u{91CF}')
    } else if cp == 0xF97F {
        Some('\u{52F5}')
    } else if cp == 0xF980 {
        Some('\u{5442}')
    } else if cp == 0xF981 {
        Some('\u{5973}')
    } else if cp == 0xF982 {
        Some('\u{5EEC}')
    } else if cp == 0xF983 {
        Some('\u{65C5}')
    } else if cp == 0xF984 {
        Some('\u{6FFE}')
    } else if cp == 0xF985 {
        Some('\u{792A}')
    } else if cp == 0xF986 {
        Some('\u{95AD}')
    } else if cp == 0xF987 {
        Some('\u{9A6A}')
    } else if cp == 0xF988 {
        Some('\u{9E97}')
    } else if cp == 0xF989 {
        Some('\u{9ECE}')
    } else if cp == 0xF98A {
        Some('\u{529B}')
    } else if cp == 0xF98B {
        Some('\u{66C6}')
    } else if cp == 0xF98C {
        Some('\u{6B77}')
    } else if cp == 0xF98D {
        Some('\u{8F62}')
    } else if cp == 0xF98E {
        Some('\u{5E74}')
    } else if cp == 0xF98F {
        Some('\u{6190}')
    } else if cp == 0xF990 {
        Some('\u{6200}')
    } else if cp == 0xF991 {
        Some('\u{649A}')
    } else if cp == 0xF992 {
        Some('\u{6F23}')
    } else if cp == 0xF993 {
        Some('\u{7149}')
    } else if cp == 0xF994 {
        Some('\u{7489}')
    } else if cp == 0xF995 {
        Some('\u{79CA}')
    } else if cp == 0xF996 {
        Some('\u{7DF4}')
    } else if cp == 0xF997 {
        Some('\u{806F}')
    } else if cp == 0xF998 {
        Some('\u{8F26}')
    } else if cp == 0xF999 {
        Some('\u{84EE}')
    } else if cp == 0xF99A {
        Some('\u{9023}')
    } else if cp == 0xF99B {
        Some('\u{934A}')
    } else if cp == 0xF99C {
        Some('\u{5217}')
    } else if cp == 0xF99D {
        Some('\u{52A3}')
    } else if cp == 0xF99E {
        Some('\u{54BD}')
    } else if cp == 0xF99F {
        Some('\u{70C8}')
    } else if cp == 0xF9A0 {
        Some('\u{88C2}')
    } else if cp == 0xF9A1 {
        Some('\u{8AAA}')
    } else if cp == 0xF9A2 {
        Some('\u{5EC9}')
    } else if cp == 0xF9A3 {
        Some('\u{5FF5}')
    } else if cp == 0xF9A4 {
        Some('\u{637B}')
    } else if cp == 0xF9A5 {
        Some('\u{6BAE}')
    } else if cp == 0xF9A6 {
        Some('\u{7C3E}')
    } else if cp == 0xF9A7 {
        Some('\u{7375}')
    } else if cp == 0xF9A8 {
        Some('\u{4EE4}')
    } else if cp == 0xF9A9 {
        Some('\u{56F9}')
    } else if cp == 0xF9AA {
        Some('\u{5BE7}')
    } else if cp == 0xF9AB {
        Some('\u{5DBA}')
    } else if cp == 0xF9AC {
        Some('\u{601C}')
    } else if cp == 0xF9AD {
        Some('\u{73B2}')
    } else if cp == 0xF9AE {
        Some('\u{7469}')
    } else if cp == 0xF9AF {
        Some('\u{7F9A}')
    } else if cp == 0xF9B0 {
        Some('\u{8046}')
    } else if cp == 0xF9B1 {
        Some('\u{9234}')
    } else if cp == 0xF9B2 {
        Some('\u{96F6}')
    } else if cp == 0xF9B3 {
        Some('\u{9748}')
    } else if cp == 0xF9B4 {
        Some('\u{9818}')
    } else if cp == 0xF9B5 {
        Some('\u{4F8B}')
    } else if cp == 0xF9B6 {
        Some('\u{79AE}')
    } else if cp == 0xF9B7 {
        Some('\u{91B4}')
    } else if cp == 0xF9B8 {
        Some('\u{96B8}')
    } else if cp == 0xF9B9 {
        Some('\u{60E1}')
    } else if cp == 0xF9BA {
        Some('\u{4E86}')
    } else if cp == 0xF9BB {
        Some('\u{50DA}')
    } else if cp == 0xF9BC {
        Some('\u{5BEE}')
    } else if cp == 0xF9BD {
        Some('\u{5C3F}')
    } else if cp == 0xF9BE {
        Some('\u{6599}')
    } else if cp == 0xF9BF {
        Some('\u{6A02}')
    } else if cp == 0xF9C0 {
        Some('\u{71CE}')
    } else if cp == 0xF9C1 {
        Some('\u{7642}')
    } else if cp == 0xF9C2 {
        Some('\u{84FC}')
    } else if cp == 0xF9C3 {
        Some('\u{907C}')
    } else if cp == 0xF9C4 {
        Some('\u{9F8D}')
    } else if cp == 0xF9C5 {
        Some('\u{6688}')
    } else if cp == 0xF9C6 {
        Some('\u{962E}')
    } else if cp == 0xF9C7 {
        Some('\u{5289}')
    } else if cp == 0xF9C8 {
        Some('\u{677B}')
    } else if cp == 0xF9C9 {
        Some('\u{67F3}')
    } else if cp == 0xF9CA {
        Some('\u{6D41}')
    } else if cp == 0xF9CB {
        Some('\u{6E9C}')
    } else if cp == 0xF9CC {
        Some('\u{7409}')
    } else if cp == 0xF9CD {
        Some('\u{7559}')
    } else if cp == 0xF9CE {
        Some('\u{786B}')
    } else if cp == 0xF9CF {
        Some('\u{7D10}')
    } else if cp == 0xF9D0 {
        Some('\u{985E}')
    } else if cp == 0xF9D1 {
        Some('\u{516D}')
    } else if cp == 0xF9D2 {
        Some('\u{622E}')
    } else if cp == 0xF9D3 {
        Some('\u{9678}')
    } else if cp == 0xF9D4 {
        Some('\u{502B}')
    } else if cp == 0xF9D5 {
        Some('\u{5D19}')
    } else if cp == 0xF9D6 {
        Some('\u{6DEA}')
    } else if cp == 0xF9D7 {
        Some('\u{8F2A}')
    } else if cp == 0xF9D8 {
        Some('\u{5F8B}')
    } else if cp == 0xF9D9 {
        Some('\u{6144}')
    } else if cp == 0xF9DA {
        Some('\u{6817}')
    } else if cp == 0xF9DB {
        Some('\u{7387}')
    } else if cp == 0xF9DC {
        Some('\u{9686}')
    } else if cp == 0xF9DD {
        Some('\u{5229}')
    } else if cp == 0xF9DE {
        Some('\u{540F}')
    } else if cp == 0xF9DF {
        Some('\u{5C65}')
    } else if cp == 0xF9E0 {
        Some('\u{6613}')
    } else if cp == 0xF9E1 {
        Some('\u{674E}')
    } else if cp == 0xF9E2 {
        Some('\u{68A8}')
    } else if cp == 0xF9E3 {
        Some('\u{6CE5}')
    } else if cp == 0xF9E4 {
        Some('\u{7406}')
    } else if cp == 0xF9E5 {
        Some('\u{75E2}')
    } else if cp == 0xF9E6 {
        Some('\u{7F79}')
    } else if cp == 0xF9E7 {
        Some('\u{88CF}')
    } else if cp == 0xF9E8 {
        Some('\u{88E1}')
    } else if cp == 0xF9E9 {
        Some('\u{91CC}')
    } else {
        None
    }
}

/// Part 4 of the folding table.
pub open spec fn spec_fold_3(cp: u32) -> Option<char> {
    if cp == 0xF9EA {
        Some('\u{96E2}')
    } else if cp == 0xF9EB {
        Some('\u{533F}')
    } else if cp == 0xF9EC {
        Some('\u{6EBA}')
    } else if cp == 0xF9ED {
        Some('\u{541D}')
    } else if cp == 0xF9EE {
        Some('\u{71D0}')
    } else if cp == 0xF9EF {
        Some('\u{7498}')
    } else if cp == 0xF9F0 {
        Some('\u{85FA}')
    } else if cp == 0xF9F1 {
        Some('\u{96A3}')
    } else if cp == 0xF9F2 {
        Some('\u{9C57}')
    } else if cp == 0xF9F3 {
        Some('\u{9E9F}')
    } else if cp == 0xF9F4 {
        Some('\u{6797}')
    } else if cp == 0xF9F5 {
        Some('\u{6DCB}')
    } else if cp == 0xF9F6 {
        Some('\u{81E8}')
    } else if cp == 0xF9F7 {
        Some('\u{7ACB}')
    } else if cp == 0xF9F8 {
        Some('\u{7B20}')
    } else if cp == 0xF9F9 {
        Some('\u{7C92}')
    } else if cp == 0xF9FA {
        Some('\u{72C0}')
    } else if cp == 0xF9FB {
        Some('\u{7099}')
    } else if cp == 0xF9FC {
        Some('\u{8B58}')
    } else if cp == 0xF9FD {
        Some('\u{4EC0}')
    } else if cp == 0xF9FE {
        Some('\u{8336}')
    } else if cp == 0xF9FF {
        Some('\u{523A}')
    } else if cp == 0xFA00 {
        Some('\u{5207}')
    } else if cp == 0xFA01 {
        Some('\u{5EA6}')
    } else if cp == 0xFA02 {
        Some('\u{62D3}')
    } else if cp == 0xFA03 {
        Some('\u{7CD6}')
    } else if cp == 0xFA04 {
        Some('\u{5B85}')
    } else if cp == 0xFA05 {
        Some('\u{6D1E}')
    } else if cp == 0xFA06 {
        Some('\u{66B4}')
    } else if cp == 0xFA07 {
        Some('\u{8F3B}')
    } else if cp == 0xFA08 {
        Some('\u{884C}')
    } else if cp == 0xFA09 {
        Some('\u{964D}')
    } else if cp == 0xFA0A {
        Some('\u{898B}')
    } else if cp == 0xFA0B {
        Some('\u{5ED3}')
    } else if cp == 0xFA0C {
        Some('\u{5140}')
    } else if cp == 0xFA0D {
        Some('\u{55C0}')
    } else if cp == 0xFA10 {
        Some('\u{585A}')
    } else if cp == 0xFA12 {
        Some('\u{6674}')
    } else if cp == 0xFA15 {
        Some('\u{51DE}')
    } else if cp == 0xFA16 {
        Some('\u{732A}')
    } else if cp == 0xFA17 {
        Some('\u{76CA}')
    } else if cp == 0xFA18 {
        Some('\u{793C}')
    } else if cp == 0xFA19 {
        Some('\u{795E}')
    } else if cp == 0xFA1A {
        Some('\u{7965}')
    } else if cp == 0xFA1B {
        Some('\u{798F}')
    } else if cp == 0xFA1C {
        Some('\u{9756}')
    } else if cp == 0xFA1D {
        Some('\u{7CBE}')
    } else if cp == 0xFA1E {
        Some('\u{7FBD}')
    } else if cp == 0xFA20 {
        Some('\u{8612}')
    } else if cp == 0xFA22 {
        Some('\u{8AF8}')
    } else if cp == 0xFA25 {
        Some('\u{9038}')
    } else if cp == 0xFA26 {
        Some('\u{90FD}')
    } else if cp == 0xFA2A {
        Some('\u{98EF}')
    } else if cp == 0xFA2B {
        Some('\u{98FC}')
    } else if cp == 0xFA2C {
        Some('\u{9928}')
    } else if cp == 0xFA2D {
        Some('\u{9DB4}')
    } else if cp == 0xFA2E {
        Some('\u{90DE}')
    } else if cp == 0xFA2F {
        Some('\u{96B7}')
    } else if cp == 0xFA30 {
        Some('\u{4FAE}')
    } else if cp == 0xFA31 {
        Some('\u{50E7}')
    } else if cp == 0xFA32 {
        Some('\u{514D}')
    } else if cp == 0xFA33 {
        Some('\u{52C9}')
    } else if cp == 0xFA34 {
        Some('\u{52E4}')
    } else if cp == 0xFA35 {
        Some('\u{5351}')
    } else if cp == 0xFA36 {
        Some('\u{559D}')
    } else if cp == 0xFA37 {
        Some('\u{5606}')
    } else if cp == 0xFA38 {
        Some('\u{5668}')
    } else if cp == 0xFA39 {
        Some('\u{5840}')
    } else if cp == 0xFA3A {
        Some('\u{58A8}')
    } else if cp == 0xFA3B {
        Some('\u{5C64}')
    } else if cp == 0xFA3C {
        Some('\u{5C6E}')
    } else if cp == 0xFA3D {
        Some('\u{6094}')
    } else if cp == 0xFA3E {
        Some('\u{6168}')
    } else if cp == 0xFA3F {
        Some('\u{618E}')
    } else if cp == 0xFA40 {
        Some('\u{61F2}')
    } else if cp == 0xFA41 {
        Some('\u{654F}')
    } else if cp == 0xFA42 {
        Some('\u{65E2}')
    } else if cp == 0xFA43 {
        Some('\u{6691}')
    } else if cp == 0xFA44 {
        Some('\u{6885}')
    } else if cp == 0xFA45 {
        Some('\u{6D77}')
    } else if cp == 0xFA46 {
        Some('\u{6E1A}')
    } else if cp == 0xFA47 {
        Some('\u{6F22}')
    } else if cp == 0xFA48 {
        Some('\u{716E}')
    } else if cp == 0xFA49 {
        Some('\u{722B}')
    } else if cp == 0xFA4A {
        Some('\u{7422}')
    } else if cp == 0xFA4B {
        Some('\u{7891}')
    } else if cp == 0xFA4C {
        Some('\u{793E}')
    } else if cp == 0xFA4D {
        Some('\u{7949}')
    } else if cp == 0xFA4E {
        Some('\u{7948}')
    } else if cp == 0xFA4F {
        Some('\u{7950}')
    } else if cp == 0xFA50 {
        Some('\u{7956}')
    } else if cp == 0xFA51 {
        Some('\u{795D}')
    } else if cp == 0xFA52 {
        Some('\u{798D}')
    } else if cp == 0xFA53 {
        Some('\u{798E}')
    } else if cp == 0xFA54 {
        Some('\u{7A40}')
    } else if cp == 0xFA55 {
        Some('\u{7A81}')
    } else if cp == 0xFA56 {
        Some('\u{7BC0}')
    } else if cp == 0xFA57 {
        Some('\u{7DF4}')
    } else if cp == 0xFA58 {
        Some('\u{7E09}')
    } else if cp == 0xFA59 {
        Some('\u{7E41}')
    } else if cp == 0xFA5A {
        Some('\u{7F72}')
    } else if cp == 0xFA5B {
        Some('\u{8005}')
    } else if cp == 0xFA5C {
        Some('\u{81ED}')
    } else if cp == 0xFA5D {
        Some('\u{8279}')
    } else if cp == 0xFA5E {
        Some('\u{8279}')
    } else if cp == 0xFA5F {
        Some('\u{8457}')
    } else if cp == 0xFA60 {
        Some('\u{8910}')
    } else if cp == 0xFA61 {
        Some('\u{8996}')
    } else if cp == 0xFA62 {
        Some('\u{8B01}')
    } else if cp == 0xFA63 {
        Some('\u{8B39}')
    } else if cp == 0xFA64 {
        Some('\u{8CD3}')
    } else if cp == 0xFA65 {
        Some('\u{8D08}')
    } else if cp == 0xFA66 {
        Some('\u{8FB6}')
    } else if cp == 0xFA67 {
        Some('\u{9038}')
    } else if cp == 0xFA68 {
        Some('\u{96E3}')
    } else if cp == 0xFA69 {
        Some('\u{97FF}')
    } else if cp == 0xFA6A {
        Some('\u{983B}')
    } else if cp == 0xFA6B {
        Some('\u{6075}')
    } else if cp == 0xFA6C {
        Some('\u{242EE}')
    } else if cp == 0xFA6D {
        Some('\u{8218}')
    } else if cp == 0xFA70 {
        Some('\u{4E26}')
    } else if cp == 0xFA71 {
        Some('\u{51B5}')
    } else if cp == 0xFA72 {
        Some('\u{5168}')
    } else if cp == 0xFA73 {
        Some('\u{4F80}')
    } else if cp == 0xFA74 {
        Some('\u{5145}')
    } else if cp == 0xFA75 {
        Some('\u{5180}')
    } else if cp == 0xFA76 {
        Some('\u{52C7}')
    } else if cp == 0xFA77 {
        Some('\u{52FA}')
    } else if cp == 0xFA78 {
        Some('\u{559D}')
    } else if cp == 0xFA79 {
        Some('\u{5555}')
    } else if cp == 0xFA7A {
        Some('\u{5599}')
    } else if cp == 0xFA7B {
        Some('\u{55E2}')
    } else if cp == 0xFA7C {
        Some('\u{585A}')
    } else if cp == 0xFA7D {
        Some('\u{58B3}')
    } else if cp == 0xFA7E {
        Some('\u{5944}')
    } else if cp == 0xFA7F {
        Some('\u{5954}')
    } else if cp == 0xFA80 {
        Some('\u{5A62}')
    } else if cp == 0xFA81 {
        Some('\u{5B28}')
    } else if cp == 0xFA82 {
        Some('\u{5ED2}')
    } else if cp == 0xFA83 {
        Some('\u{5ED9}')
    } else if cp == 0xFA84 {
        Some('\u{5F69}')
    } else if cp == 0xFA85 {
        Some('\u{5FAD}')
    } else if cp == 0xFA86 {
        Some('\u{60D8}')
    } else if cp == 0xFA87 {
        Some('\u{614E}')
    } else if cp == 0xFA88 {
        Some('\u{6108}')
    } else if cp == 0xFA89 {
        Some('\u{618E}')
    } else if cp == 0xFA8A {
        Some('\u{6160}')
    } else if cp == 0xFA8B {
        Some('\u{61F2}')
    } else if cp == 0xFA8C {
        Some('\u{6234}')
    } else if cp == 0xFA8D {
        Some('\u{63C4}')
    } else {
        None
    }
}

fn lookup_3(cp: u32) -> (r: Option<char>)
    ensures
        r == spec_fold_3(cp),
{
    if cp == 0xF9EA {
        Some('\u{96E2}')
    } else if cp == 0xF9EB {
        Some('\u{533F}')
    } else if cp == 0xF9EC {
        Some('\u{6EBA}')
    } else if cp == 0xF9ED {
        Some('\u{541D}')
    } else if cp == 0xF9EE {
        Some('\u{71D0}')
    } else if cp == 0xF9EF {
        Some('\u{7498}')
    } else if cp == 0xF9F0 {
        Some('\u{85FA}')
    } else if cp == 0xF9F1 {
        Some('\u{96A3}')
    } else if cp == 0xF9F2 {
        Some('\u{9C57}')
    } else if cp == 0xF9F3 {
        Some('\u{9E9F}')
    } else if cp == 0xF9F4 {
        Some('\u{6797}')
    } else if cp == 0xF9F5 {
        Some('\u{6DCB}')
    } else if cp == 0xF9F6 {
        Some('\u{81E8}')
    } else if cp == 0xF9F7 {
        Some('\u{7ACB}')
    } else if cp == 0xF9F8 {
        Some('\u{7B20}')
    } else if cp == 0xF9F9 {
        Some('\u{7C92}')
    } else if cp == 0xF9FA {
        Some('\u{72C0}')
    } else if cp == 0xF9FB {
        Some('\u{7099}')
    } else if cp == 0xF9FC {
        Some('\u{8B58}')
    } else if cp == 0xF9FD {
        Some('\u{4EC0}')
    } else if cp == 0xF9FE {
        Some('\u{8336}')
    } else if cp == 0xF9FF {
        Some('\u{523A}')
    } else if cp == 0xFA00 {
        Some('\u{5207}')
    } else if cp == 0xFA01 {
        Some('\u{5EA6}')
    } else if cp == 0xFA02 {
        Some('\u{62D3}')
    } else if cp == 0xFA03 {
        Some('\u{7CD6}')
    } else if cp == 0xFA04 {
        Some('\u{5B85}')
    } else if cp == 0xFA05 {
        Some('\u{6D1E}')
    } else if cp == 0xFA06 {
        Some('\u{66B4}')
    } else if cp == 0xFA07 {
        Some('\u{8F3B}')
    } else if cp == 0xFA08 {
        Some('\u{884C}')
    } else if cp == 0xFA09 {
        Some('\u{964D}')
    } else if cp == 0xFA0A {
        Some('\u{898B}')
    } else if cp == 0xFA0B {
        Some('\u{5ED3}')
    } else if cp == 0xFA0C {
        Some('\u{5140}')
    } else if cp == 0xFA0D {
        Some('\u{55C0}')
    } else if cp == 0xFA10 {
        Some('\u{585A}')
    } else if cp == 0xFA12 {
        Some('\u{6674}')
    } else if cp == 0xFA15 {
        Some('\u{51DE}')
    } else if cp == 0xFA16 {
        Some('\u{732A}')
    } else if cp == 0xFA17 {
        Some('\u{76CA}')
    } else if cp == 0xFA18 {
        Some('\u{793C}')
    } else if cp == 0xFA19 {
        Some('\u{795E}')
    } else if cp == 0xFA1A {
        Some('\u{7965}')
    } else if cp == 0xFA1B {
        Some('\u{798F}')
    } else if cp == 0xFA1C {
        Some('\u{9756}')
    } else if cp == 0xFA1D {
        Some('\u{7CBE}')
    } else if cp == 0xFA1E {
        Some('\u{7FBD}')
    } else if cp == 0xFA20 {
        Some('\u{8612}')
    } else if cp == 0xFA22 {
        Some('\u{8AF8}')
    } else if cp == 0xFA25 {
        Some('\u{9038}')
    } else if cp == 0xFA26 {
        Some('\u{90FD}')
    } else if cp == 0xFA2A {
        Some('\u{98EF}')
    } else if cp == 0xFA2B {
        Some('\u{98FC}')
    } else if cp == 0xFA2C {
        Some('\u{9928}')
    } else if cp == 0xFA2D {
        Some('\u{9DB4}')
    } else if cp == 0xFA2E {
        Some('\u{90DE}')
    } else if cp == 0xFA2F {
        Some('\u{96B7}')
    } else if cp == 0xFA30 {
        Some('\u{4FAE}')
    } else if cp == 0xFA31 {
        Some('\u{50E7}')
    } else if cp == 0xFA32 {
        Some('\u{514D}')
    } else if cp == 0xFA33 {
        Some('\u{52C9}')
    } else if cp == 0xFA34 {
        Some('\u{52E4}')
    } else if cp == 0xFA35 {
        Some('\u{5351}')
    } else if cp == 0xFA36 {
        Some('\u{559D}')
    } else if cp == 0xFA37 {
        Some('\u{5606}')
    } else if cp == 0xFA38 {
        Some('\u{5668}')
    } else if cp == 0xFA39 {
        Some('\u{5840}')
    } else if cp == 0xFA3A {
        Some('\u{58A8}')
    } else if cp == 0xFA3B {
        Some('\u{5C64}')
    } else if cp == 0xFA3C {
        Some('\u{5C6E}')
    } else if cp == 0xFA3D {
        Some('\u{6094}')
    } else if cp == 0xFA3E {
        Some('\u{6168}')
    } else if cp == 0xFA3F {
        Some('\u{618E}')
    } else if cp == 0xFA40 {
        Some('\u{61F2}')
    } else if cp == 0xFA41 {
        Some('\u{654F}')
    } else if cp == 0xFA42 {
        Some('\u{65E2}')
    } else if cp == 0xFA43 {
        Some('\u{6691}')
    } else if cp == 0xFA44 {
        Some('\u{6885}')
    } else if cp == 0xFA45 {
        Some('\u{6D77}')
    } else if cp == 0xFA46 {
        Some('\u{6E1A}')
    } else if cp == 0xFA47 {
        Some('\u{6F22}')
    } else if cp == 0xFA48 {
        Some('\u{716E}')
    } else if cp == 0xFA49 {
        Some('\u{722B}')
    } else if cp == 0xFA4A {
        Some('\u{7422}')
    } else if cp == 0xFA4B {
        Some('\u{7891}')
    } else if cp == 0xFA4C {
        Some('\u{793E}')
    } else if cp == 0xFA4D {
        Some('\u{7949}')
    } else if cp == 0xFA4E {
        Some('\u{7948}')
    } else if cp == 0xFA4F {
        Some('\u{7950}')
    } else if cp == 0xFA50 {
        Some('\u{7956}')
    } else if cp == 0xFA51 {
        Some('\u{795D}')
    } else if cp == 0xFA52 {
        Some('\u{798D}')
    } else if cp == 0xFA53 {
        Some('\u{798E}')
    } else if cp == 0xFA54 {
        Some('\u{7A40}')
    } else if cp == 0xFA55 {
        Some('\u{7A81}')
    } else if cp == 0xFA56 {
        Some('\u{7BC0}')
    } else if cp == 0xFA57 {
        Some('\u{7DF4}')
    } else if cp == 0xFA58 {
        Some('\u{7E09}')
    } else if cp == 0xFA59 {
        Some('\u{7E41}')
    } else if cp == 0xFA5A {
        Some('\u{7F72}')
    } else if cp == 0xFA5B {
        Some('\u{8005}')
    } else if cp == 0xFA5C {
        Some('\u{81ED}')
    } else if cp == 0xFA5D {
        Some('\u{8279}')
    } else if cp == 0xFA5E {
        Some('\u{8279}')
    } else if cp == 0xFA5F {
        Some('\u{8457}')
    } else if cp == 0xFA60 {
        Some('\u{8910}')
    } else if cp == 0xFA61 {
        Some('\u{8996}')
    } else if cp == 0xFA62 {
        Some('\u{8B01}')
    } else if cp == 0xFA63 {
        Some('\u{8B39}')
    } else if cp == 0xFA64 {
        Some('\u{8CD3}')
    } else if cp == 0xFA65 {
        Some('\u{8D08}')
    } else if cp == 0xFA66 {
        Some('\u{8FB6}')
    } else if cp == 0xFA67 {
        Some('\u{9038}')
    } else if cp == 0xFA68 {
        Some('\u{96E3}')
    } else if cp == 0xFA69 {
        Some('\u{97FF}')
    } else if cp == 0xFA6A {
        Some('\u{983B}')
    } else if cp == 0xFA6B {
        Some('\u{6075}')
    } else if cp == 0xFA6C {
        Some('\u{242EE}')
    } else if cp == 0xFA6D {
        Some('\u{8218}')
    } else if cp == 0xFA70 {
        Some('\u{4E26}')
    } else if cp == 0xFA71 {
        Some('\u{51B5}')
    } else if cp == 0xFA72 {
        Some('\u{5168}')
    } else if cp == 0xFA73 {
        Some('\u{4F80}')
    } else if cp == 0xFA74 {
        Some('\u{5145}')
    } else if cp == 0xFA75 {
        Some('\u{5180}')
    } else if cp == 0xFA76 {
        Some('\u{52C7}')
    } else if cp == 0xFA77 {
        Some('\u{52FA}')
    } else if cp == 0xFA78 {
        Some('\u{559D}')
    } else if cp == 0xFA79 {
        Some('\u{5555}')
    } else if cp == 0xFA7A {
        Some('\u{5599}')
    } else if cp == 0xFA7B {
        Some('\u{55E2}')
    } else if cp == 0xFA7C {
        Some('\u{585A}')
    } else if cp == 0xFA7D {
        Some('\u{58B3}')
    } else if cp == 0xFA7E {
        Some('\u{5944}')
    } else if cp == 0xFA7F {
        Some('\u{5954}')
    } else if cp == 0xFA80 {
        Some('\u{5A62}')
    } else if cp == 0xFA81 {
        Some('\u{5B28}')
    } else if cp == 0xFA82 {
        Some('\u{5ED2}')
    } else if cp == 0xFA83 {
        Some('\u{5ED9}')
    } else if cp == 0xFA84 {
        Some('\u{5F69}')
    } else if cp == 0xFA85 {
        Some('\u{5FAD}')
    } else if cp == 0xFA86 {
        Some('\u{60D8}')
    } else if cp == 0xFA87 {
        Some('\u{614E}')
    } else if cp == 0xFA88 {
        Some('\u{6108}')
    } else if cp == 0xFA89 {
        Some('\u{618E}')
    } else if cp == 0xFA8A {
        Some('\u{6160}')
    } else if cp == 0xFA8B {
        Some('\u{61F2}')
    } else if cp == 0xFA8C {
        Some('\u{6234}')
    } else if cp == 0xFA8D {
        Some('\u{63C4}')
    } else {
        None
    }
}

/// Part 5 of the folding table.
pub open spec fn spec_fold_4(cp: u32) -> Option<char> {
    if cp == 0xFA8E {
        Some('\u{641C}')
    } else if cp == 0xFA8F {
        Some('\u{6452}')
    } else if cp == 0xFA90 {
        Some('\u{6556}')
    } else if cp == 0xFA91 {
        Some('\u{6674}')
    } else if cp == 0xFA92 {
        Some('\u{6717}')
    } else if cp == 0xFA93 {
        Some('\u{671B}')
    } else if cp == 0xFA94 {
        Some('\u{6756}')
    } else if cp == 0xFA95 {
        Some('\u{6B79}')
    } else if cp == 0xFA96 {
        Some('\u{6BBA}')
    } else if cp == 0xFA97 {
        Some('\u{6D41}')
    } else if cp == 0xFA98 {
        Some('\u{6EDB}')
    } else if cp == 0xFA99 {
        Some('\u{6ECB}')
    } else if cp == 0xFA9A {
        Some('\u{6F22}')
    } else if cp == 0xFA9B {
        Some('\u{701E}')
    } else if cp == 0xFA9C {
        Some('\u{716E}')
    } else if cp == 0xFA9D {
        Some('\u{77A7}')
    } else if cp == 0xFA9E {
        Some('\u{7235}')
    } else if cp == 0xFA9F {
        Some('\u{72AF}')
    } else if cp == 0xFAA0 {
        Some('\u{732A}')
    } else if cp == 0xFAA1 {
        Some('\u{7471}')
    } else if cp == 0xFAA2 {
        Some('\u{7506}')
    } else if cp == 0xFAA3 {
        Some('\u{753B}')
    } else if cp == 0xFAA4 {
        Some('\u{761D}')
    } else if cp == 0xFAA5 {
        Some('\u{761F}')
    } else if cp == 0xFAA6 {
        Some('\u{76CA}')
    } else if cp == 0xFAA7 {
        Some('\u{76DB}')
    } else if cp == 0xFAA8 {
        Some('\u{76F4}')
    } else if cp == 0xFAA9 {
        Some('\u{774A}')
    } else if cp == 0xFAAA {
        Some('\u{7740}')
    } else if cp == 0xFAAB {
        Some('\u{78CC}')
    } else if cp == 0xFAAC {
        Some('\u{7AB1}')
    } else if cp == 0xFAAD {
        Some('\u{7BC0}')
    } else if cp == 0xFAAE {
        Some('\u{7C7B}')
    } else if cp == 0xFAAF {
        Some('\u{7D5B}')
    } else if cp == 0xFAB0 {
        Some('\u{7DF4}')
    } else if cp == 0xFAB1 {
        Some('\u{7F3E}')
    } else if cp == 0xFAB2 {
        Some('\u{8005}')
    } else if cp == 0xFAB3 {
        Some('\u{8352}')
    } else if cp == 0xFAB4 {
        Some('\u{83EF}')
    } else if cp == 0xFAB5 {
        Some('\u{8779}')
    } else if cp == 0xFAB6 {
        Some('\u{8941}')
    } else if cp == 0xFAB7 {
        Some('\u{8986}')
    } else if cp == 0xFAB8 {
        Some('\u{8996}')
    } else if cp == 0xFAB9 {
        Some('\u{8ABF}')
    } else if cp == 0xFABA {
        Some('\u{8AF8}')
    } else if cp == 0xFABB {
        Some('\u{8ACB}')
    } else if cp == 0xFABC {
        Some('\u{8B01}')
    } else if cp == 0xFABD {
        Some('\u{8AFE}')
    } else if cp == 0xFABE {
        Some('\u{8AED}')
    } else if cp == 0xFABF {
        Some('\u{8B39}')
    } else if cp == 0xFAC0 {
        Some('\u{8B8A}')
    } else if cp == 0xFAC1 {
        Some('\u{8D08}')
    } else if cp == 0xFAC2 {
        Some('\u{8F38}')
    } else if cp == 0xFAC3 {
        Some('\u{9072}')
    } else if cp == 0xFAC4 {
        Some('\u{9199}')
    } else if cp == 0xFAC5 {
        Some('\u{9276}')
    } else if cp == 0xFAC6 {
        Some('\u{967C}')
    } else if cp == 0xFAC7 {
        Some('\u{96E3}')
    } else if cp == 0xFAC8 {
        Some('\u{9756}')
    } else if cp == 0xFAC9 {
        Some('\u{97DB}')
    } else if cp == 0xFACA {
        Some('\u{97FF}')
    } else if cp == 0xFACB {
        Some('\u{980B}')
    } else if cp == 0xFACC {
        Some('\u{983B}')
    } else if cp == 0xFACD {
        Some('\u{9B12}')
    } else if cp == 0xFACE {
        Some('\u{9F9C}')
    } else if cp == 0xFACF {
        Some('\u{2284A}')
    } else if cp == 0xFAD0 {
        Some('\u{22844}')
    } else if cp == 0xFAD1 {
        Some('\u{233D5}')
    } else if cp == 0xFAD2 {
        Some('\u{3B9D}')
    } else if cp == 0xFAD3 {
        Some('\u{4018}')
    } else if cp == 0xFAD4 {
        Some('\u{4039}')
    } else if cp == 0xFAD5 {
        Some('\u{25249}')
    } else if cp == 0xFAD6 {
        Some('\u{25CD0}')
    } else if cp == 0xFAD7 {
        Some('\u{27ED3}')
    } else if cp == 0xFAD8 {
        Some('\u{9F43}')
    } else if cp == 0xFAD9 {
        Some('\u{9F8E}')
    } else if cp == 0x2F800 {
        Some('\u{4E3D}')
    } else if cp == 0x2F801 {
        Some('\u{4E38}')
    } else if cp == 0x2F802 {
        Some('\u{4E41}')
    } else if cp == 0x2F803 {
        Some('\u{20122}')
    } else if cp == 0x2F804 {
        Some('\u{4F60}')
    } else if cp == 0x2F805 {
        Some('\u{4FAE}')
    } else if cp == 0x2F806 {
        Some('\u{4FBB}')
    } else if cp == 0x2F807 {
        Some('\u{5002}')
    } else if cp == 0x2F808 {
        Some('\u{507A}')
    } else if cp == 0x2F809 {
        Some('\u{5099}')
    } else if cp == 0x2F80A {
        Some('\u{50E7}')
    } else if cp == 0x2F80B {
        Some('\u{50CF}')
    } else if cp == 0x2F80C {
        Some('\u{349E}')
    } else if cp == 0x2F80D {
        Some('\u{2063A}')
    } else if cp == 0x2F80E {
        Some('\u{514D}')
    } else if cp == 0x2F80F {
        Some('\u{5154}')
    } else if cp == 0x2F810 {
        Some('\u{5164}')
    } else if cp == 0x2F811 {
        Some('\u{5177}')
    } else if cp == 0x2F812 {
        Some('\u{2051C}')
    } else if cp == 0x2F813 {
        Some('\u{34B9}')
    } else if cp == 0x2F814 {
        Some('\u{5167}')
    } else if cp == 0x2F815 {
        Some('\u{518D}')
    } else if cp == 0x2F816 {
        Some('\u{2054B}')
    } else if cp == 0x2F817 {
        Some('\u{5197}')
    } else if cp == 0x2F818 {
        Some('\u{51A4}')
    } else if cp == 0x2F819 {
        Some('\u{4ECC}')
    } else if cp == 0x2F81A {
        Some('\u{51AC}')
    } else if cp == 0x2F81B {
        Some('\u{51B5}')
    } else if cp == 0x2F81C {
        Some('\u{291DF}')
    } else if cp == 0x2F81D {
        Some('\u{51F5}')
    } else if cp == 0x2F81E {
        Some('\u{5203}')
    } else if cp == 0x2F81F {
        Some('\u{34DF}')
    } else if cp == 0x2F820 {
        Some('\u{523B}')
    } else if cp == 0x2F821 {
        Some('\u{5246}')
    } else if cp == 0x2F822 {
        Some('\u{5272}')
    } else if cp == 0x2F823 {
        Some('\u{5277}')
    } else if cp == 0x2F824 {
        Some('\u{3515}')
    } else if cp == 0x2F825 {
        Some('\u{52C7}')
    } else if cp == 0x2F826 {
        Some('\u{52C9}')
    } else if cp == 0x2F827 {
        Some('\u{52E4}')
    } else if cp == 0x2F828 {
        Some('\u{52FA}')
    } else if cp == 0x2F829 {
        Some('\u{5305}')
    } else if cp == 0x2F82A {
        Some('\u{5306}')
    } else if cp == 0x2F82B {
        Some('\u{5317}')
    } else if cp == 0x2F82C {
        Some('\u{5349}')
    } else if cp == 0x2F82D {
        Some('\u{5351}')
    } else if cp == 0x2F82E {
        Some('\u{535A}')
    } else if cp == 0x2F82F {
        Some('\u{5373}')
    } else if cp == 0x2F830 {
        Some('\u{537D}')
    } else if cp == 0x2F831 {
        Some('\u{537F}')
    } else if cp == 0x2F832 {
        Some('\u{537F}')
    } else if cp == 0x2F833 {
        Some('\u{537F}')
    } else if cp == 0x2F834 {
        Some('\u{20A2C}')
    } else if cp == 0x2F835 {
        Some('\u{7070}')
    } else if cp == 0x2F836 {
        Some('\u{53CA}')
    } else if cp == 0x2F837 {
        Some('\u{53DF}')
    } else if cp == 0x2F838 {
        Some('\u{20B63}')
    } else if cp == 0x2F839 {
        Some('\u{53EB}')
    } else if cp == 0x2F83A {
        Some('\u{53F1}')
    } else if cp == 0x2F83B {
        Some('\u{5406}')
    } else if cp == 0x2F83C {
        Some('\u{549E}')
    } else if cp == 0x2F83D {
        Some('\u{5438}')
    } else if cp == 0x2F83E {
        Some('\u{5448}')
    } else if cp == 0x2F83F {
        Some('\u{5468}')
    } else if cp == 0x2F840 {
        Some('\u{54A2}')
    } else if cp == 0x2F841 {
        Some('\u{54F6}')
    } else if cp == 0x2F842 {
        Some('\u{5510}')
    } else if cp == 0x2F843 {
        Some('\u{5553}')
    } else if cp == 0x2F844 {
        Some('\u{5563}')
    } else if cp == 0x2F845 {
        Some('\u{5584}')
    } else if cp == 0x2F846 {
        Some('\u{5584}')
    } else if cp == 0x2F847 {
        Some('\u{5599}')
    } else if cp == 0x2F848 {
        Some('\u{55AB}')
    } else if cp == 0x2F849 {
        Some('\u{55B3}')
    } else {
        None
    }
}

fn lookup_4(cp: u32) -> (r: Option<char>)
    ensures
        r == spec_fold_4(cp),
{
    if cp == 0xFA8E {
        Some('\u{641C}')
    } else if cp == 0xFA8F {
        Some('\u{6452}')
    } else if cp == 0xFA90 {
        Some('\u{6556}')
    } else if cp == 0xFA91 {
        Some('\u{6674}')
    } else if cp == 0xFA92 {
        Some('\u{6717}')
    } else if cp == 0xFA93 {
        Some('\u{671B}')
    } else if cp == 0xFA94 {
        Some('\u{6756}')
    } else if cp == 0xFA95 {
        Some('\u{6B79}')
    } else if cp == 0xFA96 {
        Some('\u{6BBA}')
    } else if cp == 0xFA97 {
        Some('\u{6D41}')
    } else if cp == 0xFA98 {
        Some('\u{6EDB}')
    } else if cp == 0xFA99 {
        Some('\u{6ECB}')
    } else if cp == 0xFA9A {
        Some('\u{6F22}')
    } else if cp == 0xFA9B {
        Some('\u{701E}')
    } else if cp == 0xFA9C {
        Some('\u{716E}')
    } else if cp == 0xFA9D {
        Some('\u{77A7}')
    } else if cp == 0xFA9E {
        Some('\u{7235}')
    } else if cp == 0xFA9F {
        Some('\u{72AF}')
    } else if cp == 0xFAA0 {
        Some('\u{732A}')
    } else if cp == 0xFAA1 {
        Some('\u{7471}')
    } else if cp == 0xFAA2 {
        Some('\u{7506}')
    } else if cp == 0xFAA3 {
        Some('\u{753B}')
    } else if cp == 0xFAA4 {
        Some('\u{761D}')
    } else if cp == 0xFAA5 {
        Some('\u{761F}')
    } else if cp == 0xFAA6 {
        Some('\u{76CA}')
    } else if cp == 0xFAA7 {
        Some('\u{76DB}')
    } else if cp == 0xFAA8 {
        Some('\u{76F4}')
    } else if cp == 0xFAA9 {
        Some('\u{774A}')
    } else if cp == 0xFAAA {
        Some('\u{7740}')
    } else if cp == 0xFAAB {
        Some('\u{78CC}')
    } else if cp == 0xFAAC {
        Some('\u{7AB1}')
    } else if cp == 0xFAAD {
        Some('\u{7BC0}')
    } else if cp == 0xFAAE {
        Some('\u{7C7B}')
    } else if cp == 0xFAAF {
        Some('\u{7D5B}')
    } else if cp == 0xFAB0 {
        Some('\u{7DF4}')
    } else if cp == 0xFAB1 {
        Some('\u{7F3E}')
    } else if cp == 0xFAB2 {
        Some('\u{8005}')
    } else if cp == 0xFAB3 {
        Some('\u{8352}')
    } else if cp == 0xFAB4 {
        Some('\u{83EF}')
    } else if cp == 0xFAB5 {
        Some('\u{8779}')
    } else if cp == 0xFAB6 {
        Some('\u{8941}')
    } else if cp == 0xFAB7 {
        Some('\u{8986}')
    } else if cp == 0xFAB8 {
        Some('\u{8996}')
    } else if cp == 0xFAB9 {
        Some('\u{8ABF}')
    } else if cp == 0xFABA {
        Some('\u{8AF8}')
    } else if cp == 0xFABB {
        Some('\u{8ACB}')
    } else if cp == 0xFABC {
        Some('\u{8B01}')
    } else if cp == 0xFABD {
        Some('\u{8AFE}')
    } else if cp == 0xFABE {
        Some('\u{8AED}')
    } else if cp == 0xFABF {
        Some('\u{8B39}')
    } else if cp == 0xFAC0 {
        Some('\u{8B8A}')
    } else if cp == 0xFAC1 {
        Some('\u{8D08}')
    } else if cp == 0xFAC2 {
        Some('\u{8F38}')
    } else if cp == 0xFAC3 {
        Some('\u{9072}')
    } else if cp == 0xFAC4 {
        Some('\u{9199}')
    } else if cp == 0xFAC5 {
        Some('\u{9276}')
    } else if cp == 0xFAC6 {
        Some('\u{967C}')
    } else if cp == 0xFAC7 {
        Some('\u{96E3}')
    } else if cp == 0xFAC8 {
        Some('\u{9756}')
    } else if cp == 0xFAC9 {
        Some('\u{97DB}')
    } else if cp == 0xFACA {
        Some('\u{97FF}')
    } else if cp == 0xFACB {
        Some('\u{980B}')
    } else if cp == 0xFACC {
        Some('\u{983B}')
    } else if cp == 0xFACD {
        Some('\u{9B12}')
    } else if cp == 0xFACE {
        Some('\u{9F9C}')
    } else if cp == 0xFACF {
        Some('\u{2284A}')
    } else if cp == 0xFAD0 {
        Some('\u{22844}')
    } else if cp == 0xFAD1 {
        Some('\u{233D5}')
    } else if cp == 0xFAD2 {
        Some('\u{3B9D}')
    } else if cp == 0xFAD3 {
        Some('\u{4018}')
    } else if cp == 0xFAD4 {
        Some('\u{4039}')
    } else if cp == 0xFAD5 {
        Some('\u{25249}')
    } else if cp == 0xFAD6 {
        Some('\u{25CD0}')
    } else if cp == 0xFAD7 {
        Some('\u{27ED3}')
    } else if cp == 0xFAD8 {
        Some('\u{9F43}')
    } else if cp == 0xFAD9 {
        Some('\u{9F8E}')
    } else if cp == 0x2F800 {
        Some('\u{4E3D}')
    } else if cp == 0x2F801 {
        Some('\u{4E38}')
    } else if cp == 0x2F802 {
        Some('\u{4E41}')
    } else if cp == 0x2F803 {
        Some('\u{20122}')
    } else if cp == 0x2F804 {
        Some('\u{4F60}')
    } else if cp == 0x2F805 {
        Some('\u{4FAE}')
    } else if cp == 0x2F806 {
        Some('\u{4FBB}')
    } else if cp == 0x2F807 {
        Some('\u{5002}')
    } else if cp == 0x2F808 {
        Some('\u{507A}')
    } else if cp == 0x2F809 {
        Some('\u{5099}')
    } else if cp == 0x2F80A {
        Some('\u{50E7}')
    } else if cp == 0x2F80B {
        Some('\u{50CF}')
    } else if cp == 0x2F80C {
        Some('\u{349E}')
    } else if cp == 0x2F80D {
        Some('\u{2063A}')
    } else if cp == 0x2F80E {
        Some('\u{514D}')
    } else if cp == 0x2F80F {
        Some('\u{5154}')
    } else if cp == 0x2F810 {
        Some('\u{5164}')
    } else if cp == 0x2F811 {
        Some('\u{5177}')
    } else if cp == 0x2F812 {
        Some('\u{2051C}')
    } else if cp == 0x2F813 {
        Some('\u{34B9}')
    } else if cp == 0x2F814 {
        Some('\u{5167}')
    } else if cp == 0x2F815 {
        Some('\u{518D}')
    } else if cp == 0x2F816 {
        Some('\u{2054B}')
    } else if cp == 0x2F817 {
        Some('\u{5197}')
    } else if cp == 0x2F818 {
        Some('\u{51A4}')
    } else if cp == 0x2F819 {
        Some('\u{4ECC}')
    } else if cp == 0x2F81A {
        Some('\u{51AC}')
    } else if cp == 0x2F81B {
        Some('\u{51B5}')
    } else if cp == 0x2F81C {
        Some('\u{291DF}')
    } else if cp == 0x2F81D {
        Some('\u{51F5}')
    } else if cp == 0x2F81E {
        Some('\u{5203}')
    } else if cp == 0x2F81F {
        Some('\u{34DF}')
    } else if cp == 0x2F820 {
        Some('\u{523B}')
    } else if cp == 0x2F821 {
        Some('\u{5246}')
    } else if cp == 0x2F822 {
        Some('\u{5272}')
    } else if cp == 0x2F823 {
        Some('\u{5277}')
    } else if cp == 0x2F824 {
        Some('\u{3515}')
    } else if cp == 0x2F825 {
        Some('\u{52C7}')
    } else if cp == 0x2F826 {
        Some('\u{52C9}')
    } else if cp == 0x2F827 {
        Some('\u{52E4}')
    } else if cp == 0x2F828 {
        Some('\u{52FA}')
    } else if cp == 0x2F829 {
        Some('\u{5305}')
    } else if cp == 0x2F82A {
        Some('\u{5306}')
    } else if cp == 0x2F82B {
        Some('\u{5317}')
    } else if cp == 0x2F82C {
        Some('\u{5349}')
    } else if cp == 0x2F82D {
        Some('\u{5351}')
    } else if cp == 0x2F82E {
        Some('\u{535A}')
    } else if cp == 0x2F82F {
        Some('\u{5373}')
    } else if cp == 0x2F830 {
        Some('\u{537D}')
    } else if cp == 0x2F831 {
        Some('\u{537F}')
    } else if cp == 0x2F832 {
        Some('\u{537F}')
    } else if cp == 0x2F833 {
        Some('\u{537F}')
    } else if cp == 0x2F834 {
        Some('\u{20A2C}')
    } else if cp == 0x2F835 {
        Some('\u{7070}')
    } else if cp == 0x2F836 {
        Some('\u{53CA}')
    } else if cp == 0x2F837 {
        Some('\u{53DF}')
    } else if cp == 0x2F838 {
        Some('\u{20B63}')
    } else if cp == 0x2F839 {
        Some('\u{53EB}')
    } else if cp == 0x2F83A {
        Some('\u{53F1}')
    } else if cp == 0x2F83B {
        Some('\u{5406}')
    } else if cp == 0x2F83C {
        Some('\u{549E}')
    } else if cp == 0x2F83D {
        Some('\u{5438}')
    } else if cp == 0x2F83E {
        Some('\u{5448}')
    } else if cp == 0x2F83F {
        Some('\u{5468}')
    } else if cp == 0x2F840 {
        Some('\u{54A2}')
    } else if cp == 0x2F841 {
        Some('\u{54F6}')
    } else if cp == 0x2F842 {
        Some('\u{5510}')
    } else if cp == 0x2F843 {
        Some('\u{5553}')
    } else if cp == 0x2F844 {
        Some('\u{5563}')
    } else if cp == 0x2F845 {
        Some('\u{5584}')
    } else if cp == 0x2F846 {
        Some('\u{5584}')
    } else if cp == 0x2F847 {
        Some('\u{5599}')
    } else if cp == 0x2F848 {
        Some('\u{55AB}')
    } else if cp == 0x2F849 {
        Some('\u{55B3}')
    } else {
        None
    }
}

/// Part 6 of the folding table.
pub open spec fn spec_fold_5(cp: u32) -> Option<char> {
    if cp == 0x2F84A {
        Some('\u{55C2}')
    } else if cp == 0x2F84B {
        Some('\u{5716}')
    } else if cp == 0x2F84C {
        Some('\u{5606}')
    } else if cp == 0x2F84D {
        Some('\u{5717}')
    } else if cp == 0x2F84E {
        Some('\u{5651}')
    } else if cp == 0x2F84F {
        Some('\u{5674}')
    } else if cp == 0x2F850 {
        Some('\u{5207}')
    } else if cp == 0x2F851 {
        Some('\u{58EE}')
    } else if cp == 0x2F852 {
        Some('\u{57CE}')
    } else if cp == 0x2F853 {
        Some('\u{57F4}')
    } else if cp == 0x2F854 {
        Some('\u{580D}')
    } else if cp == 0x2F855 {
        Some('\u{578B}')
    } else if cp == 0x2F856 {
        Some('\u{5832}')
    } else if cp == 0x2F857 {
        Some('\u{5831}')
    } else if cp == 0x2F858 {
        Some('\u{58AC}')
    } else if cp == 0x2F859 {
        Some('\u{214E4}')
    } else if cp == 0x2F85A {
        Some('\u{58F2}')
    } else if cp == 0x2F85B {
        Some('\u{58F7}')
    } else if cp == 0x2F85C {
        Some('\u{5906}')
    } else if cp == 0x2F85D {
        Some('\u{591A}')
    } else if cp == 0x2F85E {
        Some('\u{5922}')
    } else if cp == 0x2F85F {
        Some('\u{5962}')
    } else if cp == 0x2F860 {
        Some('\u{216A8}')
    } else if cp == 0x2F861 {
        Some('\u{216EA}')
    } else if cp == 0x2F862 {
        Some('\u{59EC}')
    } else if cp == 0x2F863 {
        Some('\u{5A1B}')
    } else if cp == 0x2F864 {
        Some('\u{5A27}')
    } else if cp == 0x2F865 {
        Some('\u{59D8}')
    } else if cp == 0x2F866 {
        Some('\u{5A66}')
    } else if cp == 0x2F867 {
        Some('\u{36EE}')
    } else if cp == 0x2F868 {
        Some('\u{36FC}')
    } else if cp == 0x2F869 {
        Some('\u{5B08}')
    } else if cp == 0x2F86A {
        Some('\u{5B3E}')
    } else if cp == 0x2F86B {
        Some('\u{5B3E}')
    } else if cp == 0x2F86C {
        Some('\u{219C8}')
    } else if cp == 0x2F86D {
        Some('\u{5BC3}')
    } else if cp == 0x2F86E {
        Some('\u{5BD8}')
    } else if cp == 0x2F86F {
        Some('\u{5BE7}')
    } else if cp == 0x2F870 {
        Some('\u{5BF3}')
    } else if cp == 0x2F871 {
        Some('\u{21B18}')
    } else if cp == 0x2F872 {
        Some('\u{5BFF}')
    } else if cp == 0x2F873 {
        Some('\u{5C06}')
    } else if cp == 0x2F874 {
        Some('\u{5F53}')
    } else if cp == 0x2F875 {
        Some('\u{5C22}')
    } else if cp == 0x2F876 {
        Some('\u{3781}')
    } else if cp == 0x2F877 {
        Some('\u{5C60}')
    } else if cp == 0x2F878 {
        Some('\u{5C6E}')
    } else if cp == 0x2F879 {
        Some('\u{5CC0}')
    } else if cp == 0x2F87A {
        Some('\u{5C8D}')
    } else if cp == 0x2F87B {
        Some('\u{21DE4}')
    } else if cp == 0x2F87C {
        Some('\u{5D43}')
    } else if cp == 0x2F87D {
        Some('\u{21DE6}')
    } else if cp == 0x2F87E {
        Some('\u{5D6E}')
    } else if cp == 0x2F87F {
        Some('\u{5D6B}')
    } else if cp == 0x2F880 {
        Some('\u{5D7C}')
    } else if cp == 0x2F881 {
        Some('\u{5DE1}')
    } else if cp == 0x2F882 {
        Some('\u{5DE2}')
    } else if cp == 0x2F883 {
        Some('\u{382F}')
    } else if cp == 0x2F884 {
        Some('\u{5DFD}')
    } else if cp == 0x2F885 {
        Some('\u{5E28}')
    } else if cp == 0x2F886 {
        Some('\u{5E3D}')
    } else if cp == 0x2F887 {
        Some('\u{5E69}')
    } else if cp == 0x2F888 {
        Some('\u{3862}')
    } else if cp == 0x2F889 {
        Some('\u{22183}')
    } else if cp == 0x2F88A {
        Some('\u{387C}')
    } else if cp == 0x2F88B {
        Some('\u{5EB0}')
    } else if cp == 0x2F88C {
        Some('\u{5EB3}')
    } else if cp == 0x2F88D {
        Some('\u{5EB6}')
    } else if cp == 0x2F88E {
        Some('\u{5ECA}')
    } else if cp == 0x2F88F {
        Some('\u{2A392}')
    } else if cp == 0x2F890 {
        Some('\u{5EFE}')
    } else if cp == 0x2F891 {
        Some('\u{22331}')
    } else if cp == 0x2F892 {
        Some('\u{22331}')
    } else if cp == 0x2F893 {
        Some('\u{8201}')
    } else if cp == 0x2F894 {
        Some('\u{5F22}')
    } else if cp == 0x2F895 {
        Some('\u{5F22}')
    } else if cp == 0x2F896 {
        Some('\u{38C7}')
    } else if cp == 0x2F897 {
        Some('\u{232B8}')
    } else if cp == 0x2F898 {
        Some('\u{261DA}')
    } else if cp == 0x2F899 {
        Some('\u{5F62}')
    } else if cp == 0x2F89A {
        Some('\u{5F6B}')
    } else if cp == 0x2F89B {
        Some('\u{38E3}')
    } else if cp == 0x2F89C {
        Some('\u{5F9A}')
    } else if cp == 0x2F89D {
        Some('\u{5FCD}')
    } else if cp == 0x2F89E {
        Some('\u{5FD7}')
    } else if cp == 0x2F89F {
        Some('\u{5FF9}')
    } else if cp == 0x2F8A0 {
        Some('\u{6081}')
    } else if cp == 0x2F8A1 {
        Some('\u{393A}')
    } else if cp == 0x2F8A2 {
        Some('\u{391C}')
    } else if cp == 0x2F8A3 {
        Some('\u{6094}')
    } else if cp == 0x2F8A4 {
        Some('\u{226D4}')
    } else if cp == 0x2F8A5 {
        Some('\u{60C7}')
    } else if cp == 0x2F8A6 {
        Some('\u{6148}')
    } else if cp == 0x2F8A7 {
        Some('\u{614C}')
    } else if cp == 0x2F8A8 {
        Some('\u{614E}')
    } else if cp == 0x2F8A9 {
        Some('\u{614C}')
    } else if cp == 0x2F8AA {
        Some('\u{617A}')
    } else if cp == 0x2F8AB {
        Some('\u{618E}')
    } else if cp == 0x2F8AC {
        Some('\u{61B2}')
    } else if cp == 0x2F8AD {
        Some('\u{61A4}')
    } else if cp == 0x2F8AE {
        Some('\u{61AF}')
    } else if cp == 0x2F8AF {
        Some('\u{61DE}')
    } else if cp == 0x2F8B0 {
        Some('\u{61F2}')
    } else if cp == 0x2F8B1 {
        Some('\u{61F6}')
    } else if cp == 0x2F8B2 {
        Some('\u{6210}')
    } else if cp == 0x2F8B3 {
        Some('\u{621B}')
    } else if cp == 0x2F8B4 {
        Some('\u{625D}')
    } else if cp == 0x2F8B5 {
        Some('\u{62B1}')
    } else if cp == 0x2F8B6 {
        Some('\u{62D4}')
    } else if cp == 0x2F8B7 {
        Some('\u{6350}')
    } else if cp == 0x2F8B8 {
        Some('\u{22B0C}')
    } else if cp == 0x2F8B9 {
        Some('\u{633D}')
    } else if cp == 0x2F8BA {
        Some('\u{62FC}')
    } else if cp == 0x2F8BB {
        Some('\u{6368}')
    } else if cp == 0x2F8BC {
        Some('\u{6383}')
    } else if cp == 0x2F8BD {
        Some('\u{63E4}')
    } else if cp == 0x2F8BE {
        Some('\u{22BF1}')
    } else if cp == 0x2F8BF {
        Some('\u{6422}')
    } else if cp == 0x2F8C0 {
        Some('\u{63C5}')
    } else if cp == 0x2F8C1 {
        Some('\u{63A9}')
    } else if cp == 0x2F8C2 {
        Some('\u{3A2E}')
    } else if cp == 0x2F8C3 {
        Some('\u{6469}')
    } else if cp == 0x2F8C4 {
        Some('\u{647E}')
    } else if cp == 0x2F8C5 {
        Some('\u{649D}')
    } else if cp == 0x2F8C6 {
        Some('\u{6477}')
    } else if cp == 0x2F8C7 {
        Some('\u{3A6C}')
    } else if cp == 0x2F8C8 {
        Some('\u{654F}')
    } else if cp == 0x2F8C9 {
        Some('\u{656C}')
    } else if cp == 0x2F8CA {
        Some('\u{2300A}')
    } else if cp == 0x2F8CB {
        Some('\u{65E3}')
    } else if cp == 0x2F8CC {
        Some('\u{66F8}')
    } else if cp == 0x2F8CD {
        Some('\u{6649}')
    } else if cp == 0x2F8CE {
        Some('\u{3B19}')
    } else if cp == 0x2F8CF {
        Some('\u{6691}')
    } else if cp == 0x2F8D0 {
        Some('\u{3B08}')
    } else if cp == 0x2F8D1 {
        Some('\u{3AE4}')
    } else if cp == 0x2F8D2 {
        Some('\u{5192}')
    } else if cp == 0x2F8D3 {
        Some('\u{5195}')
    } else if cp == 0x2F8D4 {
        Some('\u{6700}')
    } else if cp == 0x2F8D5 {
        Some('\u{669C}')
    } else if cp == 0x2F8D6 {
        Some('\u{80AD}')
    } else if cp == 0x2F8D7 {
        Some('\u{43D9}')
    } else if cp == 0x2F8D8 {
        Some('\u{6717}')
    } else if cp == 0x2F8D9 {
        Some('\u{671B}')
    } else if cp == 0x2F8DA {
        Some('\u{6721}')
    } else if cp == 0x2F8DB {
        Some('\u{675E}')
    } else if cp == 0x2F8DC {
        Some('\u{6753}')
    } else if cp == 0x2F8DD {
        Some('\u{233C3}')
    } else if cp == 0x2F8DE {
        Some('\u{3B49}')
    } else if cp == 0x2F8DF {
        Some('\u{67FA}')
    } else {
        None
    }
}

fn lookup_5(cp: u32) -> (r: Option<char>)
    ensures
        r == spec_fold_5(cp),
{
    if cp == 0x2F84A {
        Some('\u{55C2}')
    } else if cp == 0x2F84B {
        Some('\u{5716}')
    } else if cp == 0x2F84C {
        Some('\u{5606}')
    } else if cp == 0x2F84D {
        Some('\u{5717}')
    } else if cp == 0x2F84E {
        Some('\u{5651}')
    } else if cp == 0x2F84F {
        Some('\u{5674}')
    } else if cp == 0x2F850 {
        Some('\u{5207}')
    } else if cp == 0x2F851 {
        Some('\u{58EE}')
    } else if cp == 0x2F852 {
        Some('\u{57CE}')
    } else if cp == 0x2F853 {
        Some('\u{57F4}')
    } else if cp == 0x2F854 {
        Some('\u{580D}')
    } else if cp == 0x2F855 {
        Some('\u{578B}')
    } else if cp == 0x2F856 {
        Some('\u{5832}')
    } else if cp == 0x2F857 {
        Some('\u{5831}')
    } else if cp == 0x2F858 {
        Some('\u{58AC}')
    } else if cp == 0x2F859 {
        Some('\u{214E4}')
    } else if cp == 0x2F85A {
        Some('\u{58F2}')
    } else if cp == 0x2F85B {
        Some('\u{58F7}')
    } else if cp == 0x2F85C {
        Some('\u{5906}')
    } else if cp == 0x2F85D {
        Some('\u{591A}')
    } else if cp == 0x2F85E {
        Some('\u{5922}')
    } else if cp == 0x2F85F {
        Some('\u{5962}')
    } else if cp == 0x2F860 {
        Some('\u{216A8}')
    } else if cp == 0x2F861 {
        Some('\u{216EA}')
    } else if cp == 0x2F862 {
        Some('\u{59EC}')
    } else if cp == 0x2F863 {
        Some('\u{5A1B}')
    } else if cp == 0x2F864 {
        Some('\u{5A27}')
    } else if cp == 0x2F865 {
        Some('\u{59D8}')
    } else if cp == 0x2F866 {
        Some('\u{5A66}')
    } else if cp == 0x2F867 {
        Some('\u{36EE}')
    } else if cp == 0x2F868 {
        Some('\u{36FC}')
    } else if cp == 0x2F869 {
        Some('\u{5B08}')
    } else if cp == 0x2F86A {
        Some('\u{5B3E}')
    } else if cp == 0x2F86B {
        Some('\u{5B3E}')
    } else if cp == 0x2F86C {
        Some('\u{219C8}')
    } else if cp == 0x2F86D {
        Some('\u{5BC3}')
    } else if cp == 0x2F86E {
        Some('\u{5BD8}')
    } else if cp == 0x2F86F {
        Some('\u{5BE7}')
    } else if cp == 0x2F870 {
        Some('\u{5BF3}')
    } else if cp == 0x2F871 {
        Some('\u{21B18}')
    } else if cp == 0x2F872 {
        Some('\u{5BFF}')
    } else if cp == 0x2F873 {
        Some('\u{5C06}')
    } else if cp == 0x2F874 {
        Some('\u{5F53}')
    } else if cp == 0x2F875 {
        Some('\u{5C22}')
    } else if cp == 0x2F876 {
        Some('\u{3781}')
    } else if cp == 0x2F877 {
        Some('\u{5C60}')
    } else if cp == 0x2F878 {
        Some('\u{5C6E}')
    } else if cp == 0x2F879 {
        Some('\u{5CC0}')
    } else if cp == 0x2F87A {
        Some('\u{5C8D}')
    } else if cp == 0x2F87B {
        Some('\u{21DE4}')
    } else if cp == 0x2F87C {
        Some('\u{5D43}')
    } else if cp == 0x2F87D {
        Some('\u{21DE6}')
    } else if cp == 0x2F87E {
        Some('\u{5D6E}')
    } else if cp == 0x2F87F {
        Some('\u{5D6B}')
    } else if cp == 0x2F880 {
        Some('\u{5D7C}')
    } else if cp == 0x2F881 {
        Some('\u{5DE1}')
    } else if cp == 0x2F882 {
        Some('\u{5DE2}')
    } else if cp == 0x2F883 {
        Some('\u{382F}')
    } else if cp == 0x2F884 {
        Some('\u{5DFD}')
    } else if cp == 0x2F885 {
        Some('\u{5E28}')
    } else if cp == 0x2F886 {
        Some('\u{5E3D}')
    } else if cp == 0x2F887 {
        Some('\u{5E69}')
    } else if cp == 0x2F888 {
        Some('\u{3862}')
    } else if cp == 0x2F889 {
        Some('\u{22183}')
    } else if cp == 0x2F88A {
        Some('\u{387C}')
    } else if cp == 0x2F88B {
        Some('\u{5EB0}')
    } else if cp == 0x2F88C {
        Some('\u{5EB3}')
    } else if cp == 0x2F88D {
        Some('\u{5EB6}')
    } else if cp == 0x2F88E {
        Some('\u{5ECA}')
    } else if cp == 0x2F88F {
        Some('\u{2A392}')
    } else if cp == 0x2F890 {
        Some('\u{5EFE}')
    } else if cp == 0x2F891 {
        Some('\u{22331}')
    } else if cp == 0x2F892 {
        Some('\u{22331}')
    } else if cp == 0x2F893 {
        Some('\u{8201}')
    } else if cp == 0x2F894 {
        Some('\u{5F22}')
    } else if cp == 0x2F895 {
        Some('\u{5F22}')
    } else if cp == 0x2F896 {
        Some('\u{38C7}')
    } else if cp == 0x2F897 {
        Some('\u{232B8}')
    } else if cp == 0x2F898 {
        Some('\u{261DA}')
    } else if cp == 0x2F899 {
        Some('\u{5F62}')
    } else if cp == 0x2F89A {
        Some('\u{5F6B}')
    } else if cp == 0x2F89B {
        Some('\u{38E3}')
    } else if cp == 0x2F89C {
        Some('\u{5F9A}')
    } else if cp == 0x2F89D {
        Some('\u{5FCD}')
    } else if cp == 0x2F89E {
        Some('\u{5FD7}')
    } else if cp == 0x2F89F {
        Some('\u{5FF9}')
    } else if cp == 0x2F8A0 {
        Some('\u{6081}')
    } else if cp == 0x2F8A1 {
        Some('\u{393A}')
    } else if cp == 0x2F8A2 {
        Some('\u{391C}')
    } else if cp == 0x2F8A3 {
        Some('\u{6094}')
    } else if cp == 0x2F8A4 {
        Some('\u{226D4}')
    } else if cp == 0x2F8A5 {
        Some('\u{60C7}')
    } else if cp == 0x2F8A6 {
        Some('\u{6148}')
    } else if cp == 0x2F8A7 {
        Some('\u{614C}')
    } else if cp == 0x2F8A8 {
        Some('\u{614E}')
    } else if cp == 0x2F8A9 {
        Some('\u{614C}')
    } else if cp == 0x2F8AA {
        Some('\u{617A}')
    } else if cp == 0x2F8AB {
        Some('\u{618E}')
    } else if cp == 0x2F8AC {
        Some('\u{61B2}')
    } else if cp == 0x2F8AD {
        Some('\u{61A4}')
    } else if cp == 0x2F8AE {
        Some('\u{61AF}')
    } else if cp == 0x2F8AF {
        Some('\u{61DE}')
    } else if cp == 0x2F8B0 {
        Some('\u{61F2}')
    } else if cp == 0x2F8B1 {
        Some('\u{61F6}')
    } else if cp == 0x2F8B2 {
        Some('\u{6210}')
    } else if cp == 0x2F8B3 {
        Some('\u{621B}')
    } else if cp == 0x2F8B4 {
        Some('\u{625D}')
    } else if cp == 0x2F8B5 {
        Some('\u{62B1}')
    } else if cp == 0x2F8B6 {
        Some('\u{62D4}')
    } else if cp == 0x2F8B7 {
        Some('\u{6350}')
    } else if cp == 0x2F8B8 {
        Some('\u{22B0C}')
    } else if cp == 0x2F8B9 {
        Some('\u{633D}')
    } else if cp == 0x2F8BA {
        Some('\u{62FC}')
    } else if cp == 0x2F8BB {
        Some('\u{6368}')
    } else if cp == 0x2F8BC {
        Some('\u{6383}')
    } else if cp == 0x2F8BD {
        Some('\u{63E4}')
    } else if cp == 0x2F8BE {
        Some('\u{22BF1}')
    } else if cp == 0x2F8BF {
        Some('\u{6422}')
    } else if cp == 0x2F8C0 {
        Some('\u{63C5}')
    } else if cp == 0x2F8C1 {
        Some('\u{63A9}')
    } else if cp == 0x2F8C2 {
        Some('\u{3A2E}')
    } else if cp == 0x2F8C3 {
        Some('\u{6469}')
    } else if cp == 0x2F8C4 {
        Some('\u{647E}')
    } else if cp == 0x2F8C5 {
        Some('\u{649D}')
    } else if cp == 0x2F8C6 {
        Some('\u{6477}')
    } else if cp == 0x2F8C7 {
        Some('\u{3A6C}')
    } else if cp == 0x2F8C8 {
        Some('\u{654F}')
    } else if cp == 0x2F8C9 {
        Some('\u{656C}')
    } else if cp == 0x2F8CA {
        Some('\u{2300A}')
    } else if cp == 0x2F8CB {
        Some('\u{65E3}')
    } else if cp == 0x2F8CC {
        Some('\u{66F8}')
    } else if cp == 0x2F8CD {
        Some('\u{6649}')
    } else if cp == 0x2F8CE {
        Some('\u{3B19}')
    } else if cp == 0x2F8CF {
        Some('\u{6691}')
    } else if cp == 0x2F8D0 {
        Some('\u{3B08}')
    } else if cp == 0x2F8D1 {
        Some('\u{3AE4}')
    } else if cp == 0x2F8D2 {
        Some('\u{5192}')
    } else if cp == 0x2F8D3 {
        Some('\u{5195}')
    } else if cp == 0x2F8D4 {
        Some('\u{6700}')
    } else if cp == 0x2F8D5 {
        Some('\u{669C}')
    } else if cp == 0x2F8D6 {
        Some('\u{80AD}')
    } else if cp == 0x2F8D7 {
        Some('\u{43D9}')
    } else if cp == 0x2F8D8 {
        Some('\u{6717}')
    } else if cp == 0x2F8D9 {
        Some('\u{671B}')
    } else if cp == 0x2F8DA {
        Some('\u{6721}')
    } else if cp == 0x2F8DB {
        Some('\u{675E}')
    } else if cp == 0x2F8DC {
        Some('\u{6753}')
    } else if cp == 0x2F8DD {
        Some('\u{233C3}')
    } else if cp == 0x2F8DE {
        Some('\u{3B49}')
    } else if cp == 0x2F8DF {
        Some('\u{67FA}')
    } else {
        None
    }
}

/// Part 7 of the folding table.
pub open spec fn spec_fold_6(cp: u32) -> Option<char> {
    if cp == 0x2F8E0 {
        Some('\u{6785}')
    } else if cp == 0x2F8E1 {
        Some('\u{6852}')
    } else if cp == 0x2F8E2 {
        Some('\u{6885}')
    } else if cp == 0x2F8E3 {
        Some('\u{2346D}')
    } else if cp == 0x2F8E4 {
        Some('\u{688E}')
    } else if cp == 0x2F8E5 {
        Some('\u{681F}')
    } else if cp == 0x2F8E6 {
        Some('\u{6914}')
    } else if cp == 0x2F8E7 {
        Some('\u{3B9D}')
    } else if cp == 0x2F8E8 {
        Some('\u{6942}')
    } else if cp == 0x2F8E9 {
        Some('\u{69A3}')
    } else if cp == 0x2F8EA {
        Some('\u{69EA}')
    } else if cp == 0x2F8EB {
        Some('\u{6AA8}')
    } else if cp == 0x2F8EC {
        Some('\u{236A3}')
    } else if cp == 0x2F8ED {
        Some('\u{6ADB}')
    } else if cp == 0x2F8EE {
        Some('\u{3C18}')
    } else if cp == 0x2F8EF {
        Some('\u{6B21}')
    } else if cp == 0x2F8F0 {
        Some('\u{238A7}')
    } else if cp == 0x2F8F1 {
        Some('\u{6B54}')
    } else if cp == 0x2F8F2 {
        Some('\u{3C4E}')
    } else if cp == 0x2F8F3 {
        Some('\u{6B72}')
    } else if cp == 0x2F8F4 {
        Some('\u{6B9F}')
    } else if cp == 0x2F8F5 {
        Some('\u{6BBA}')
    } else if cp == 0x2F8F6 {
        Some('\u{6BBB}')
    } else if cp == 0x2F8F7 {
        Some('\u{23A8D}')
    } else if cp == 0x2F8F8 {
        Some('\u{21D0B}')
    } else if cp == 0x2F8F9 {
        Some('\u{23AFA}')
    } else if cp == 0x2F8FA {
        Some('\u{6C4E}')
    } else if cp == 0x2F8FB {
        Some('\u{23CBC}')
    } else if cp == 0x2F8FC {
        Some('\u{6CBF}')
    } else if cp == 0x2F8FD {
        Some('\u{6CCD}')
    } else if cp == 0x2F8FE {
        Some('\u{6C67}')
    } else if cp == 0x2F8FF {
        Some('\u{6D16}')
    } else if cp == 0x2F900 {
        Some('\u{6D3E}')
    } else if cp == 0x2F901 {
        Some('\u{6D77}')
    } else if cp == 0x2F902 {
        Some('\u{6D41}')
    } else if cp == 0x2F903 {
        Some('\u{6D69}')
    } else if cp == 0x2F904 {
        Some('\u{6D78}')
    } else if cp == 0x2F905 {
        Some('\u{6D85}')
    } else if cp == 0x2F906 {
        Some('\u{23D1E}')
    } else if cp == 0x2F907 {
        Some('\u{6D34}')
    } else if cp == 0x2F908 {
        Some('\u{6E2F}')
    } else if cp == 0x2F909 {
        Some('\u{6E6E}')
    } else if cp == 0x2F90A {
        Some('\u{3D33}')
    } else if cp == 0x2F90B {
        Some('\u{6ECB}')
    } else if cp == 0x2F90C {
        Some('\u{6EC7}')
    } else if cp == 0x2F90D {
        Some('\u{23ED1}')
    } else if cp == 0x2F90E {
        Some('\u{6DF9}')
    } else if cp == 0x2F90F {
        Some('\u{6F6E}')
    } else if cp == 0x2F910 {
        Some('\u{23F5E}')
    } else if cp == 0x2F911 {
        Some('\u{23F8E}')
    } else if cp == 0x2F912 {
        Some('\u{6FC6}')
    } else if cp == 0x2F913 {
        Some('\u{7039}')
    } else if cp == 0x2F914 {
        Some('\u{701E}')
    } else if cp == 0x2F915 {
        Some('\u{701B}')
    } else if cp == 0x2F916 {
        Some('\u{3D96}')
    } else if cp == 0x2F917 {
        Some('\u{704A}')
    } else if cp == 0x2F918 {
        Some('\u{707D}')
    } else if cp == 0x2F919 {
        Some('\u{7077}')
    } else if cp == 0x2F91A {
        Some('\u{70AD}')
    } else if cp == 0x2F91B {
        Some('\u{20525}')
    } else if cp == 0x2F91C {
        Some('\u{7145}')
    } else if cp == 0x2F91D {
        Some('\u{24263}')
    } else if cp == 0x2F91E {
        Some('\u{719C}')
    } else if cp == 0x2F91F {
        Some('\u{243AB}')
    } else if cp == 0x2F920 {
        Some('\u{7228}')
    } else if cp == 0x2F921 {
        Some('\u{7235}')
    } else if cp == 0x2F922 {
        Some('\u{7250}')
    } else if cp == 0x2F923 {
        Some('\u{24608}')
    } else if cp == 0x2F924 {
        Some('\u{7280}')
    } else if cp == 0x2F925 {
        Some('\u{7295}')
    } else if cp == 0x2F926 {
        Some('\u{24735}')
    } else if cp == 0x2F927 {
        Some('\u{24814}')
    } else if cp == 0x2F928 {
        Some('\u{737A}')
    } else if cp == 0x2F929 {
        Some('\u{738B}')
    } else if cp == 0x2F92A {
        Some('\u{3EAC}')
    } else if cp == 0x2F92B {
        Some('\u{73A5}')
    } else if cp == 0x2F92C {
        Some('\u{3EB8}')
    } else if cp == 0x2F92D {
        Some('\u{3EB8}')
    } else if cp == 0x2F92E {
        Some('\u{7447}')
    } else if cp == 0x2F92F {
        Some('\u{745C}')
    } else if cp == 0x2F930 {
        Some('\u{7471}')
    } else if cp == 0x2F931 {
        Some('\u{7485}')
    } else if cp == 0x2F932 {
        Some('\u{74CA}')
    } else if cp == 0x2F933 {
        Some('\u{3F1B}')
    } else if cp == 0x2F934 {
        Some('\u{7524}')
    } else if cp == 0x2F935 {
        Some('\u{24C36}')
    } else if cp == 0x2F936 {
        Some('\u{753E}')
    } else if cp == 0x2F937 {
        Some('\u{24C92}')
    } else if cp == 0x2F938 {
        Some('\u{7570}')
    } else if cp == 0x2F939 {
        Some('\u{2219F}')
    } else if cp == 0x2F93A {
        Some('\u{7610}')
    } else if cp == 0x2F93B {
        Some('\u{24FA1}')
    } else if cp == 0x2F93C {
        Some('\u{24FB8}')
    } else if cp == 0x2F93D {
        Some('\u{25044}')
    } else if cp == 0x2F93E {
        Some('\u{3FFC}')
    } else if cp == 0x2F93F {
        Some('\u{4008}')
    } else if cp == 0x2F940 {
        Some('\u{76F4}')
    } else if cp == 0x2F941 {
        Some('\u{250F3}')
    } else if cp == 0x2F942 {
        Some('\u{250F2}')
    } else if cp == 0x2F943 {
        Some('\u{25119}')
    } else if cp == 0x2F944 {
        Some('\u{25133}')
    } else if cp == 0x2F945 {
        Some('\u{771E}')
    } else if cp == 0x2F946 {
        Some('\u{771F}')
    } else if cp == 0x2F947 {
        Some('\u{771F}')
    } else if cp == 0x2F948 {
        Some('\u{774A}')
    } else if cp == 0x2F949 {
        Some('\u{4039}')
    } else if cp == 0x2F94A {
        Some('\u{778B}')
    } else if cp == 0x2F94B {
        Some('\u{4046}')
    } else if cp == 0x2F94C {
        Some('\u{4096}')
    } else if cp == 0x2F94D {
        Some('\u{2541D}')
    } else if cp == 0x2F94E {
        Some('\u{784E}')
    } else if cp == 0x2F94F {
        Some('\u{788C}')
    } else if cp == 0x2F950 {
        Some('\u{78CC}')
    } else if cp == 0x2F951 {
        Some('\u{40E3}')
    } else if cp == 0x2F952 {
        Some('\u{25626}')
    } else if cp == 0x2F953 {
        Some('\u{7956}')
    } else if cp == 0x2F954 {
        Some('\u{2569A}')
    } else if cp == 0x2F955 {
        Some('\u{256C5}')
    } else if cp == 0x2F956 {
        Some('\u{798F}')
    } else if cp == 0x2F957 {
        Some('\u{79EB}')
    } else if cp == 0x2F958 {
        Some('\u{412F}')
    } else if cp == 0x2F959 {
        Some('\u{7A40}')
    } else if cp == 0x2F95A {
        Some('\u{7A4A}')
    } else if cp == 0x2F95B {
        Some('\u{7A4F}')
    } else if cp == 0x2F95C {
        Some('\u{2597C}')
    } else if cp == 0x2F95D {
        Some('\u{25AA7}')
    } else if cp == 0x2F95E {
        Some('\u{25AA7}')
    } else if cp == 0x2F95F {
        Some('\u{7AEE}')
    } else if cp == 0x2F960 {
        Some('\u{4202}')
    } else if cp == 0x2F961 {
        Some('\u{25BAB}')
    } else if cp == 0x2F962 {
        Some('\u{7BC6}')
    } else if cp == 0x2F963 {
        Some('\u{7BC9}')
    } else if cp == 0x2F964 {
        Some('\u{4227}')
    } else if cp == 0x2F965 {
        Some('\u{25C80}')
    } else if cp == 0x2F966 {
        Some('\u{7CD2}')
    } else if cp == 0x2F967 {
        Some('\u{42A0}')
    } else if cp == 0x2F968 {
        Some('\u{7CE8}')
    } else if cp == 0x2F969 {
        Some('\u{7CE3}')
    } else if cp == 0x2F96A {
        Some('\u{7D00}')
    } else if cp == 0x2F96B {
        Some('\u{25F86}')
    } else if cp == 0x2F96C {
        Some('\u{7D63}')
    } else if cp == 0x2F96D {
        Some('\u{4301}')
    } else if cp == 0x2F96E {
        Some('\u{7DC7}')
    } else if cp == 0x2F96F {
        Some('\u{7E02}')
    } else if cp == 0x2F970 {
        Some('\u{7E45}')
    } else if cp == 0x2F971 {
        Some('\u{4334}')
    } else if cp == 0x2F972 {
        Some('\u{26228}')
    } else if cp == 0x2F973 {
        Some('\u{26247}')
    } else if cp == 0x2F974 {
        Some('\u{4359}')
    } else if cp == 0x2F975 {
        Some('\u{262D9}')
    } else {
        None
    }
}

fn lookup_6(cp: u32) -> (r: Option<char>)
    ensures
        r == spec_fold_6(cp),
{
    if cp == 0x2F8E0 {
        Some('\u{6785}')
    } else if cp == 0x2F8E1 {
        Some('\u{6852}')
    } else if cp == 0x2F8E2 {
        Some('\u{6885}')
    } else if cp == 0x2F8E3 {
        Some('\u{2346D}')
    } else if cp == 0x2F8E4 {
        Some('\u{688E}')
    } else if cp == 0x2F8E5 {
        Some('\u{681F}')
    } else if cp == 0x2F8E6 {
        Some('\u{6914}')
    } else if cp == 0x2F8E7 {
        Some('\u{3B9D}')
    } else if cp == 0x2F8E8 {
        Some('\u{6942}')
    } else if cp == 0x2F8E9 {
        Some('\u{69A3}')
    } else if cp == 0x2F8EA {
        Some('\u{69EA}')
    } else if cp == 0x2F8EB {
        Some('\u{6AA8}')
    } else if cp == 0x2F8EC {
        Some('\u{236A3}')
    } else if cp == 0x2F8ED {
        Some('\u{6ADB}')
    } else if cp == 0x2F8EE {
        Some('\u{3C18}')
    } else if cp == 0x2F8EF {
        Some('\u{6B21}')
    } else if cp == 0x2F8F0 {
        Some('\u{238A7}')
    } else if cp == 0x2F8F1 {
        Some('\u{6B54}')
    } else if cp == 0x2F8F2 {
        Some('\u{3C4E}')
    } else if cp == 0x2F8F3 {
        Some('\u{6B72}')
    } else if cp == 0x2F8F4 {
        Some('\u{6B9F}')
    } else if cp == 0x2F8F5 {
        Some('\u{6BBA}')
    } else if cp == 0x2F8F6 {
        Some('\u{6BBB}')
    } else if cp == 0x2F8F7 {
        Some('\u{23A8D}')
    } else if cp == 0x2F8F8 {
        Some('\u{21D0B}')
    } else if cp == 0x2F8F9 {
        Some('\u{23AFA}')
    } else if cp == 0x2F8FA {
        Some('\u{6C4E}')
    } else if cp == 0x2F8FB {
        Some('\u{23CBC}')
    } else if cp == 0x2F8FC {
        Some('\u{6CBF}')
    } else if cp == 0x2F8FD {
        Some('\u{6CCD}')
    } else if cp == 0x2F8FE {
        Some('\u{6C67}')
    } else if cp == 0x2F8FF {
        Some('\u{6D16}')
    } else if cp == 0x2F900 {
        Some('\u{6D3E}')
    } else if cp == 0x2F901 {
        Some('\u{6D77}')
    } else if cp == 0x2F902 {
        Some('\u{6D41}')
    } else if cp == 0x2F903 {
        Some('\u{6D69}')
    } else if cp == 0x2F904 {
        Some('\u{6D78}')
    } else if cp == 0x2F905 {
        Some('\u{6D85}')
    } else if cp == 0x2F906 {
        Some('\u{23D1E}')
    } else if cp == 0x2F907 {
        Some('\u{6D34}')
    } else if cp == 0x2F908 {
        Some('\u{6E2F}')
    } else if cp == 0x2F909 {
        Some('\u{6E6E}')
    } else if cp == 0x2F90A {
        Some('\u{3D33}')
    } else if cp == 0x2F90B {
        Some('\u{6ECB}')
    } else if cp == 0x2F90C {
        Some('\u{6EC7}')
    } else if cp == 0x2F90D {
        Some('\u{23ED1}')
    } else if cp == 0x2F90E {
        Some('\u{6DF9}')
    } else if cp == 0x2F90F {
        Some('\u{6F6E}')
    } else if cp == 0x2F910 {
        Some('\u{23F5E}')
    } else if cp == 0x2F911 {
        Some('\u{23F8E}')
    } else if cp == 0x2F912 {
        Some('\u{6FC6}')
    } else if cp == 0x2F913 {
        Some('\u{7039}')
    } else if cp == 0x2F914 {
        Some('\u{701E}')
    } else if cp == 0x2F915 {
        Some('\u{701B}')
    } else if cp == 0x2F916 {
        Some('\u{3D96}')
    } else if cp == 0x2F917 {
        Some('\u{704A}')
    } else if cp == 0x2F918 {
        Some('\u{707D}')
    } else if cp == 0x2F919 {
        Some('\u{7077}')
    } else if cp == 0x2F91A {
        Some('\u{70AD}')
    } else if cp == 0x2F91B {
        Some('\u{20525}')
    } else if cp == 0x2F91C {
        Some('\u{7145}')
    } else if cp == 0x2F91D {
        Some('\u{24263}')
    } else if cp == 0x2F91E {
        Some('\u{719C}')
    } else if cp == 0x2F91F {
        Some('\u{243AB}')
    } else if cp == 0x2F920 {
        Some('\u{7228}')
    } else if cp == 0x2F921 {
        Some('\u{7235}')
    } else if cp == 0x2F922 {
        Some('\u{7250}')
    } else if cp == 0x2F923 {
        Some('\u{24608}')
    } else if cp == 0x2F924 {
        Some('\u{7280}')
    } else if cp == 0x2F925 {
        Some('\u{7295}')
    } else if cp == 0x2F926 {
        Some('\u{24735}')
    } else if cp == 0x2F927 {
        Some('\u{24814}')
    } else if cp == 0x2F928 {
        Some('\u{737A}')
    } else if cp == 0x2F929 {
        Some('\u{738B}')
    } else if cp == 0x2F92A {
        Some('\u{3EAC}')
    } else if cp == 0x2F92B {
        Some('\u{73A5}')
    } else if cp == 0x2F92C {
        Some('\u{3EB8}')
    } else if cp == 0x2F92D {
        Some('\u{3EB8}')
    } else if cp == 0x2F92E {
        Some('\u{7447}')
    } else if cp == 0x2F92F {
        Some('\u{745C}')
    } else if cp == 0x2F930 {
        Some('\u{7471}')
    } else if cp == 0x2F931 {
        Some('\u{7485}')
    } else if cp == 0x2F932 {
        Some('\u{74CA}')
    } else if cp == 0x2F933 {
        Some('\u{3F1B}')
    } else if cp == 0x2F934 {
        Some('\u{7524}')
    } else if cp == 0x2F935 {
        Some('\u{24C36}')
    } else if cp == 0x2F936 {
        Some('\u{753E}')
    } else if cp == 0x2F937 {
        Some('\u{24C92}')
    } else if cp == 0x2F938 {
        Some('\u{7570}')
    } else if cp == 0x2F939 {
        Some('\u{2219F}')
    } else if cp == 0x2F93A {
        Some('\u{7610}')
    } else if cp == 0x2F93B {
        Some('\u{24FA1}')
    } else if cp == 0x2F93C {
        Some('\u{24FB8}')
    } else if cp == 0x2F93D {
        Some('\u{25044}')
    } else if cp == 0x2F93E {
        Some('\u{3FFC}')
    } else if cp == 0x2F93F {
        Some('\u{4008}')
    } else if cp == 0x2F940 {
        Some('\u{76F4}')
    } else if cp == 0x2F941 {
        Some('\u{250F3}')
    } else if cp == 0x2F942 {
        Some('\u{250F2}')
    } else if cp == 0x2F943 {
        Some('\u{25119}')
    } else if cp == 0x2F944 {
        Some('\u{25133}')
    } else if cp == 0x2F945 {
        Some('\u{771E}')
    } else if cp == 0x2F946 {
        Some('\u{771F}')
    } else if cp == 0x2F947 {
        Some('\u{771F}')
    } else if cp == 0x2F948 {
        Some('\u{774A}')
    } else if cp == 0x2F949 {
        Some('\u{4039}')
    } else if cp == 0x2F94A {
        Some('\u{778B}')
    } else if cp == 0x2F94B {
        Some('\u{4046}')
    } else if cp == 0x2F94C {
        Some('\u{4096}')
    } else if cp == 0x2F94D {
        Some('\u{2541D}')
    } else if cp == 0x2F94E {
        Some('\u{784E}')
    } else if cp == 0x2F94F {
        Some('\u{788C}')
    } else if cp == 0x2F950 {
        Some('\u{78CC}')
    } else if cp == 0x2F951 {
        Some('\u{40E3}')
    } else if cp == 0x2F952 {
        Some('\u{25626}')
    } else if cp == 0x2F953 {
        Some('\u{7956}')
    } else if cp == 0x2F954 {
        Some('\u{2569A}')
    } else if cp == 0x2F955 {
        Some('\u{256C5}')
    } else if cp == 0x2F956 {
        Some('\u{798F}')
    } else if cp == 0x2F957 {
        Some('\u{79EB}')
    } else if cp == 0x2F958 {
        Some('\u{412F}')
    } else if cp == 0x2F959 {
        Some('\u{7A40}')
    } else if cp == 0x2F95A {
        Some('\u{7A4A}')
    } else if cp == 0x2F95B {
        Some('\u{7A4F}')
    } else if cp == 0x2F95C {
        Some('\u{2597C}')
    } else if cp == 0x2F95D {
        Some('\u{25AA7}')
    } else if cp == 0x2F95E {
        Some('\u{25AA7}')
    } else if cp == 0x2F95F {
        Some('\u{7AEE}')
    } else if cp == 0x2F960 {
        Some('\u{4202}')
    } else if cp == 0x2F961 {
        Some('\u{25BAB}')
    } else if cp == 0x2F962 {
        Some('\u{7BC6}')
    } else if cp == 0x2F963 {
        Some('\u{7BC9}')
    } else if cp == 0x2F964 {
        Some('\u{4227}')
    } else if cp == 0x2F965 {
        Some('\u{25C80}')
    } else if cp == 0x2F966 {
        Some('\u{7CD2}')
    } else if cp == 0x2F967 {
        Some('\u{42A0}')
    } else if cp == 0x2F968 {
        Some('\u{7CE8}')
    } else if cp == 0x2F969 {
        Some('\u{7CE3}')
    } else if cp == 0x2F96A {
        Some('\u{7D00}')
    } else if cp == 0x2F96B {
        Some('\u{25F86}')
    } else if cp == 0x2F96C {
        Some('\u{7D63}')
    } else if cp == 0x2F96D {
        Some('\u{4301}')
    } else if cp == 0x2F96E {
        Some('\u{7DC7}')
    } else if cp == 0x2F96F {
        Some('\u{7E02}')
    } else if cp == 0x2F970 {
        Some('\u{7E45}')
    } else if cp == 0x2F971 {
        Some('\u{4334}')
    } else if cp == 0x2F972 {
        Some('\u{26228}')
    } else if cp == 0x2F973 {
        Some('\u{26247}')
    } else if cp == 0x2F974 {
        Some('\u{4359}')
    } else if cp == 0x2F975 {
        Some('\u{262D9}')
    } else {
        None
    }
}

/// Part 8 of the folding table.
pub open spec fn spec_fold_7(cp: u32) -> Option<char> {
    if cp == 0x2F976 {
        Some('\u{7F7A}')
    } else if cp == 0x2F977 {
        Some('\u{2633E}')
    } else if cp == 0x2F978 {
        Some('\u{7F95}')
    } else if cp == 0x2F979 {
        Some('\u{7FFA}')
    } else if cp == 0x2F97A {
        Some('\u{8005}')
    } else if cp == 0x2F97B {
        Some('\u{264DA}')
    } else if cp == 0x2F97C {
        Some('\u{26523}')
    } else if cp == 0x2F97D {
        Some('\u{8060}')
    } else if cp == 0x2F97E {
        Some('\u{265A8}')
    } else if cp == 0x2F97F {
        Some('\u{8070}')
    } else if cp == 0x2F980 {
        Some('\u{2335F}')
    } else if cp == 0x2F981 {
        Some('\u{43D5}')
    } else if cp == 0x2F982 {
        Some('\u{80B2}')
    } else if cp == 0x2F983 {
        Some('\u{8103}')
    } else if cp == 0x2F984 {
        Some('\u{440B}')
    } else if cp == 0x2F985 {
        Some('\u{813E}')
    } else if cp == 0x2F986 {
        Some('\u{5AB5}')
    } else if cp == 0x2F987 {
        Some('\u{267A7}')
    } else if cp == 0x2F988 {
        Some('\u{267B5}')
    } else if cp == 0x2F989 {
        Some('\u{23393}')
    } else if cp == 0x2F98A {
        Some('\u{2339C}')
    } else if cp == 0x2F98B {
        Some('\u{8201}')
    } else if cp == 0x2F98C {
        Some('\u{8204}')
    } else if cp == 0x2F98D {
        Some('\u{8F9E}')
    } else if cp == 0x2F98E {
        Some('\u{446B}')
    } else if cp == 0x2F98F {
        Some('\u{8291}')
    } else if cp == 0x2F990 {
        Some('\u{828B}')
    } else if cp == 0x2F991 {
        Some('\u{829D}')
    } else if cp == 0x2F992 {
        Some('\u{52B3}')
    } else if cp == 0x2F993 {
        Some('\u{82B1}')
    } else if cp == 0x2F994 {
        Some('\u{82B3}')
    } else if cp == 0x2F995 {
        Some('\u{82BD}')
    } else if cp == 0x2F996 {
        Some('\u{82E6}')
    } else if cp == 0x2F997 {
        Some('\u{26B3C}')
    } else if cp == 0x2F998 {
        Some('\u{82E5}')
    } else if cp == 0x2F999 {
        Some('\u{831D}')
    } else if cp == 0x2F99A {
        Some('\u{8363}')
    } else if cp == 0x2F99B {
        Some('\u{83AD}')
    } else if cp == 0x2F99C {
        Some('\u{8323}')
    } else if cp == 0x2F99D {
        Some('\u{83BD}')
    } else if cp == 0x2F99E {
        Some('\u{83E7}')
    } else if cp == 0x2F99F {
        Some('\u{8457}')
    } else if cp == 0x2F9A0 {
        Some('\u{8353}')
    } else if cp == 0x2F9A1 {
        Some('\u{83CA}')
    } else if cp == 0x2F9A2 {
        Some('\u{83CC}')
    } else if cp == 0x2F9A3 {
        Some('\u{83DC}')
    } else if cp == 0x2F9A4 {
        Some('\u{26C36}')
    } else if cp == 0x2F9A5 {
        Some('\u{26D6B}')
    } else if cp == 0x2F9A6 {
        Some('\u{26CD5}')
    } else if cp == 0x2F9A7 {
        Some('\u{452B}')
    } else if cp == 0x2F9A8 {
        Some('\u{84F1}')
    } else if cp == 0x2F9A9 {
        Some('\u{84F3}')
    } else if cp == 0x2F9AA {
        Some('\u{8516}')
    } else if cp == 0x2F9AB {
        Some('\u{273CA}')
    } else if cp == 0x2F9AC {
        Some('\u{8564}')
    } else if cp == 0x2F9AD {
        Some('\u{26F2C}')
    } else if cp == 0x2F9AE {
        Some('\u{455D}')
    } else if cp == 0x2F9AF {
        Some('\u{4561}')
    } else if cp == 0x2F9B0 {
        Some('\u{26FB1}')
    } else if cp == 0x2F9B1 {
        Some('\u{270D2}')
    } else if cp == 0x2F9B2 {
        Some('\u{456B}')
    } else if cp == 0x2F9B3 {
        Some('\u{8650}')
    } else if cp == 0x2F9B4 {
        Some('\u{865C}')
    } else if cp == 0x2F9B5 {
        Some('\u{8667}')
    } else if cp == 0x2F9B6 {
        Some('\u{8669}')
    } else if cp == 0x2F9B7 {
        Some('\u{86A9}')
    } else if cp == 0x2F9B8 {
        Some('\u{8688}')
    } else if cp == 0x2F9B9 {
        Some('\u{870E}')
    } else if cp == 0x2F9BA {
        Some('\u{86E2}')
    } else if cp == 0x2F9BB {
        Some('\u{8779}')
    } else if cp == 0x2F9BC {
        Some('\u{8728}')
    } else if cp == 0x2F9BD {
        Some('\u{876B}')
    } else if cp == 0x2F9BE {
        Some('\u{8786}')
    } else if cp == 0x2F9BF {
        Some('\u{45D7}')
    } else if cp == 0x2F9C0 {
        Some('\u{87E1}')
    } else if cp == 0x2F9C1 {
        Some('\u{8801}')
    } else if cp == 0x2F9C2 {
        Some('\u{45F9}')
    } else if cp == 0x2F9C3 {
        Some('\u{8860}')
    } else if cp == 0x2F9C4 {
        Some('\u{8863}')
    } else if cp == 0x2F9C5 {
        Some('\u{27667}')
    } else if cp == 0x2F9C6 {
        Some('\u{88D7}')
    } else if cp == 0x2F9C7 {
        Some('\u{88DE}')
    } else if cp == 0x2F9C8 {
        Some('\u{4635}')
    } else if cp == 0x2F9C9 {
        Some('\u{88FA}')
    } else if cp == 0x2F9CA {
        Some('\u{34BB}')
    } else if cp == 0x2F9CB {
        Some('\u{278AE}')
    } else if cp == 0x2F9CC {
        Some('\u{27966}')
    } else if cp == 0x2F9CD {
        Some('\u{46BE}')
    } else if cp == 0x2F9CE {
        Some('\u{46C7}')
    } else if cp == 0x2F9CF {
        Some('\u{8AA0}')
    } else if cp == 0x2F9D0 {
        Some('\u{8AED}')
    } else if cp == 0x2F9D1 {
        Some('\u{8B8A}')
    } else if cp == 0x2F9D2 {
        Some('\u{8C55}')
    } else if cp == 0x2F9D3 {
        Some('\u{27CA8}')
    } else if cp == 0x2F9D4 {
        Some('\u{8CAB}')
    } else if cp == 0x2F9D5 {
        Some('\u{8CC1}')
    } else if cp == 0x2F9D6 {
        Some('\u{8D1B}')
    } else if cp == 0x2F9D7 {
        Some('\u{8D77}')
    } else if cp == 0x2F9D8 {
        Some('\u{27F2F}')
    } else if cp == 0x2F9D9 {
        Some('\u{20804}')
    } else if cp == 0x2F9DA {
        Some('\u{8DCB}')
    } else if cp == 0x2F9DB {
        Some('\u{8DBC}')
    } else if cp == 0x2F9DC {
        Some('\u{8DF0}')
    } else if cp == 0x2F9DD {
        Some('\u{208DE}')
    } else if cp == 0x2F9DE {
        Some('\u{8ED4}')
    } else if cp == 0x2F9DF {
        Some('\u{8F38}')
    } else if cp == 0x2F9E0 {
        Some('\u{285D2}')
    } else if cp == 0x2F9E1 {
        Some('\u{285ED}')
    } else if cp == 0x2F9E2 {
        Some('\u{9094}')
    } else if cp == 0x2F9E3 {
        Some('\u{90F1}')
    } else if cp == 0x2F9E4 {
        Some('\u{9111}')
    } else if cp == 0x2F9E5 {
        Some('\u{2872E}')
    } else if cp == 0x2F9E6 {
        Some('\u{911B}')
    } else if cp == 0x2F9E7 {
        Some('\u{9238}')
    } else if cp == 0x2F9E8 {
        Some('\u{92D7}')
    } else if cp == 0x2F9E9 {
        Some('\u{92D8}')
    } else if cp == 0x2F9EA {
        Some('\u{927C}')
    } else if cp == 0x2F9EB {
        Some('\u{93F9}')
    } else if cp == 0x2F9EC {
        Some('\u{9415}')
    } else if cp == 0x2F9ED {
        Some('\u{28BFA}')
    } else if cp == 0x2F9EE {
        Some('\u{958B}')
    } else if cp == 0x2F9EF {
        Some('\u{4995}')
    } else if cp == 0x2F9F0 {
        Some('\u{95B7}')
    } else if cp == 0x2F9F1 {
        Some('\u{28D77}')
    } else if cp == 0x2F9F2 {
        Some('\u{49E6}')
    } else if cp == 0x2F9F3 {
        Some('\u{96C3}')
    } else if cp == 0x2F9F4 {
        Some('\u{5DB2}')
    } else if cp == 0x2F9F5 {
        Some('\u{9723}')
    } else if cp == 0x2F9F6 {
        Some('\u{29145}')
    } else if cp == 0x2F9F7 {
        Some('\u{2921A}')
    } else if cp == 0x2F9F8 {
        Some('\u{4A6E}')
    } else if cp == 0x2F9F9 {
        Some('\u{4A76}')
    } else if cp == 0x2F9FA {
        Some('\u{97E0}')
    } else if cp == 0x2F9FB {
        Some('\u{2940A}')
    } else if cp == 0x2F9FC {
        Some('\u{4AB2}')
    } else if cp == 0x2F9FD {
        Some('\u{29496}')
    } else if cp == 0x2F9FE {
        Some('\u{980B}')
    } else if cp == 0x2F9FF {
        Some('\u{980B}')
    } else if cp == 0x2FA00 {
        Some('\u{9829}')
    } else if cp == 0x2FA01 {
        Some('\u{295B6}')
    } else if cp == 0x2FA02 {
        Some('\u{98E2}')
    } else if cp == 0x2FA03 {
        Some('\u{4B33}')
    } else if cp == 0x2FA04 {
        Some('\u{9929}')
    } else if cp == 0x2FA05 {
        Some('\u{99A7}')
    } else if cp == 0x2FA06 {
        Some('\u{99C2}')
    } else if cp == 0x2FA07 {
        Some('\u{99FE}')
    } else if cp == 0x2FA08 {
        Some('\u{4BCE}')
    } else if cp == 0x2FA09 {
        Some('\u{29B30}')
    } else if cp == 0x2FA0A {
        Some('\u{9B12}')
    } else if cp == 0x2FA0B {
        Some('\u{9C40}')
    } else {
        None
    }
}

fn lookup_7(cp: u32) -> (r: Option<char>)
    ensures
        r == spec_fold_7(cp),
{
    if cp == 0x2F976 {
        Some('\u{7F7A}')
    } else if cp == 0x2F977 {
        Some('\u{2633E}')
    } else if cp == 0x2F978 {
        Some('\u{7F95}')
    } else if cp == 0x2F979 {
        Some('\u{7FFA}')
    } else if cp == 0x2F97A {
        Some('\u{8005}')
    } else if cp == 0x2F97B {
        Some('\u{264DA}')
    } else if cp == 0x2F97C {
        Some('\u{26523}')
    } else if cp == 0x2F97D {
        Some('\u{8060}')
    } else if cp == 0x2F97E {
        Some('\u{265A8}')
    } else if cp == 0x2F97F {
        Some('\u{8070}')
    } else if cp == 0x2F980 {
        Some('\u{2335F}')
    } else if cp == 0x2F981 {
        Some('\u{43D5}')
    } else if cp == 0x2F982 {
        Some('\u{80B2}')
    } else if cp == 0x2F983 {
        Some('\u{8103}')
    } else if cp == 0x2F984 {
        Some('\u{440B}')
    } else if cp == 0x2F985 {
        Some('\u{813E}')
    } else if cp == 0x2F986 {
        Some('\u{5AB5}')
    } else if cp == 0x2F987 {
        Some('\u{267A7}')
    } else if cp == 0x2F988 {
        Some('\u{267B5}')
    } else if cp == 0x2F989 {
        Some('\u{23393}')
    } else if cp == 0x2F98A {
        Some('\u{2339C}')
    } else if cp == 0x2F98B {
        Some('\u{8201}')
    } else if cp == 0x2F98C {
        Some('\u{8204}')
    } else if cp == 0x2F98D {
        Some('\u{8F9E}')
    } else if cp == 0x2F98E {
        Some('\u{446B}')
    } else if cp == 0x2F98F {
        Some('\u{8291}')
    } else if cp == 0x2F990 {
        Some('\u{828B}')
    } else if cp == 0x2F991 {
        Some('\u{829D}')
    } else if cp == 0x2F992 {
        Some('\u{52B3}')
    } else if cp == 0x2F993 {
        Some('\u{82B1}')
    } else if cp == 0x2F994 {
        Some('\u{82B3}')
    } else if cp == 0x2F995 {
        Some('\u{82BD}')
    } else if cp == 0x2F996 {
        Some('\u{82E6}')
    } else if cp == 0x2F997 {
        Some('\u{26B3C}')
    } else if cp == 0x2F998 {
        Some('\u{82E5}')
    } else if cp == 0x2F999 {
        Some('\u{831D}')
    } else if cp == 0x2F99A {
        Some('\u{8363}')
    } else if cp == 0x2F99B {
        Some('\u{83AD}')
    } else if cp == 0x2F99C {
        Some('\u{8323}')
    } else if cp == 0x2F99D {
        Some('\u{83BD}')
    } else if cp == 0x2F99E {
        Some('\u{83E7}')
    } else if cp == 0x2F99F {
        Some('\u{8457}')
    } else if cp == 0x2F9A0 {
        Some('\u{8353}')
    } else if cp == 0x2F9A1 {
        Some('\u{83CA}')
    } else if cp == 0x2F9A2 {
        Some('\u{83CC}')
    } else if cp == 0x2F9A3 {
        Some('\u{83DC}')
    } else if cp == 0x2F9A4 {
        Some('\u{26C36}')
    } else if cp == 0x2F9A5 {
        Some('\u{26D6B}')
    } else if cp == 0x2F9A6 {
        Some('\u{26CD5}')
    } else if cp == 0x2F9A7 {
        Some('\u{452B}')
    } else if cp == 0x2F9A8 {
        Some('\u{84F1}')
    } else if cp == 0x2F9A9 {
        Some('\u{84F3}')
    } else if cp == 0x2F9AA {
        Some('\u{8516}')
    } else if cp == 0x2F9AB {
        Some('\u{273CA}')
    } else if cp == 0x2F9AC {
        Some('\u{8564}')
    } else if cp == 0x2F9AD {
        Some('\u{26F2C}')
    } else if cp == 0x2F9AE {
        Some('\u{455D}')
    } else if cp == 0x2F9AF {
        Some('\u{4561}')
    } else if cp == 0x2F9B0 {
        Some('\u{26FB1}')
    } else if cp == 0x2F9B1 {
        Some('\u{270D2}')
    } else if cp == 0x2F9B2 {
        Some('\u{456B}')
    } else if cp == 0x2F9B3 {
        Some('\u{8650}')
    } else if cp == 0x2F9B4 {
        Some('\u{865C}')
    } else if cp == 0x2F9B5 {
        Some('\u{8667}')
    } else if cp == 0x2F9B6 {
        Some('\u{8669}')
    } else if cp == 0x2F9B7 {
        Some('\u{86A9}')
    } else if cp == 0x2F9B8 {
        Some('\u{8688}')
    } else if cp == 0x2F9B9 {
        Some('\u{870E}')
    } else if cp == 0x2F9BA {
        Some('\u{86E2}')
    } else if cp == 0x2F9BB {
        Some('\u{8779}')
    } else if cp == 0x2F9BC {
        Some('\u{8728}')
    } else if cp == 0x2F9BD {
        Some('\u{876B}')
    } else if cp == 0x2F9BE {
        Some('\u{8786}')
    } else if cp == 0x2F9BF {
        Some('\u{45D7}')
    } else if cp == 0x2F9C0 {
        Some('\u{87E1}')
    } else if cp == 0x2F9C1 {
        Some('\u{8801}')
    } else if cp == 0x2F9C2 {
        Some('\u{45F9}')
    } else if cp == 0x2F9C3 {
        Some('\u{8860}')
    } else if cp == 0x2F9C4 {
        Some('\u{8863}')
    } else if cp == 0x2F9C5 {
        Some('\u{27667}')
    } else if cp == 0x2F9C6 {
        Some('\u{88D7}')
    } else if cp == 0x2F9C7 {
        Some('\u{88DE}')
    } else if cp == 0x2F9C8 {
        Some('\u{4635}')
    } else if cp == 0x2F9C9 {
        Some('\u{88FA}')
    } else if cp == 0x2F9CA {
        Some('\u{34BB}')
    } else if cp == 0x2F9CB {
        Some('\u{278AE}')
    } else if cp == 0x2F9CC {
        Some('\u{27966}')
    } else if cp == 0x2F9CD {
        Some('\u{46BE}')
    } else if cp == 0x2F9CE {
        Some('\u{46C7}')
    } else if cp == 0x2F9CF {
        Some('\u{8AA0}')
    } else if cp == 0x2F9D0 {
        Some('\u{8AED}')
    } else if cp == 0x2F9D1 {
        Some('\u{8B8A}')
    } else if cp == 0x2F9D2 {
        Some('\u{8C55}')
    } else if cp == 0x2F9D3 {
        Some('\u{27CA8}')
    } else if cp == 0x2F9D4 {
        Some('\u{8CAB}')
    } else if cp == 0x2F9D5 {
        Some('\u{8CC1}')
    } else if cp == 0x2F9D6 {
        Some('\u{8D1B}')
    } else if cp == 0x2F9D7 {
        Some('\u{8D77}')
    } else if cp == 0x2F9D8 {
        Some('\u{27F2F}')
    } else if cp == 0x2F9D9 {
        Some('\u{20804}')
    } else if cp == 0x2F9DA {
        Some('\u{8DCB}')
    } else if cp == 0x2F9DB {
        Some('\u{8DBC}')
    } else if cp == 0x2F9DC {
        Some('\u{8DF0}')
    } else if cp == 0x2F9DD {
        Some('\u{208DE}')
    } else if cp == 0x2F9DE {
        Some('\u{8ED4}')
    } else if cp == 0x2F9DF {
        Some('\u{8F38}')
    } else if cp == 0x2F9E0 {
        Some('\u{285D2}')
    } else if cp == 0x2F9E1 {
        Some('\u{285ED}')
    } else if cp == 0x2F9E2 {
        Some('\u{9094}')
    } else if cp == 0x2F9E3 {
        Some('\u{90F1}')
    } else if cp == 0x2F9E4 {
        Some('\u{9111}')
    } else if cp == 0x2F9E5 {
        Some('\u{2872E}')
    } else if cp == 0x2F9E6 {
        Some('\u{911B}')
    } else if cp == 0x2F9E7 {
        Some('\u{9238}')
    } else if cp == 0x2F9E8 {
        Some('\u{92D7}')
    } else if cp == 0x2F9E9 {
        Some('\u{92D8}')
    } else if cp == 0x2F9EA {
        Some('\u{927C}')
    } else if cp == 0x2F9EB {
        Some('\u{93F9}')
    } else if cp == 0x2F9EC {
        Some('\u{9415}')
    } else if cp == 0x2F9ED {
        Some('\u{28BFA}')
    } else if cp == 0x2F9EE {
        Some('\u{958B}')
    } else if cp == 0x2F9EF {
        Some('\u{4995}')
    } else if cp == 0x2F9F0 {
        Some('\u{95B7}')
    } else if cp == 0x2F9F1 {
        Some('\u{28D77}')
    } else if cp == 0x2F9F2 {
        Some('\u{49E6}')
    } else if cp == 0x2F9F3 {
        Some('\u{96C3}')
    } else if cp == 0x2F9F4 {
        Some('\u{5DB2}')
    } else if cp == 0x2F9F5 {
        Some('\u{9723}')
    } else if cp == 0x2F9F6 {
        Some('\u{29145}')
    } else if cp == 0x2F9F7 {
        Some('\u{2921A}')
    } else if cp == 0x2F9F8 {
        Some('\u{4A6E}')
    } else if cp == 0x2F9F9 {
        Some('\u{4A76}')
    } else if cp == 0x2F9FA {
        Some('\u{97E0}')
    } else if cp == 0x2F9FB {
        Some('\u{2940A}')
    } else if cp == 0x2F9FC {
        Some('\u{4AB2}')
    } else if cp == 0x2F9FD {
        Some('\u{29496}')
    } else if cp == 0x2F9FE {
        Some('\u{980B}')
    } else if cp == 0x2F9FF {
        Some('\u{980B}')
    } else if cp == 0x2FA00 {
        Some('\u{9829}')
    } else if cp == 0x2FA01 {
        Some('\u{295B6}')
    } else if cp == 0x2FA02 {
        Some('\u{98E2}')
    } else if cp == 0x2FA03 {
        Some('\u{4B33}')
    } else if cp == 0x2FA04 {
        Some('\u{9929}')
    } else if cp == 0x2FA05 {
        Some('\u{99A7}')
    } else if cp == 0x2FA06 {
        Some('\u{99C2}')
    } else if cp == 0x2FA07 {
        Some('\u{99FE}')
    } else if cp == 0x2FA08 {
        Some('\u{4BCE}')
    } else if cp == 0x2FA09 {
        Some('\u{29B30}')
    } else if cp == 0x2FA0A {
        Some('\u{9B12}')
    } else if cp == 0x2FA0B {
        Some('\u{9C40}')
    } else {
        None
    }
}

/// Part 9 of the folding table.
pub open spec fn spec_fold_8(cp: u32) -> Option<char> {
    if cp == 0x2FA0C {
        Some('\u{9CFD}')
    } else if cp == 0x2FA0D {
        Some('\u{4CCE}')
    } else if cp == 0x2FA0E {
        Some('\u{4CED}')
    } else if cp == 0x2FA0F {
        Some('\u{9D67}')
    } else if cp == 0x2FA10 {
        Some('\u{2A0CE}')
    } else if cp == 0x2FA11 {
        Some('\u{4CF8}')
    } else if cp == 0x2FA12 {
        Some('\u{2A105}')
    } else if cp == 0x2FA13 {
        Some('\u{2A20E}')
    } else if cp == 0x2FA14 {
        Some('\u{2A291}')
    } else if cp == 0x2FA15 {
        Some('\u{9EBB}')
    } else if cp == 0x2FA16 {
        Some('\u{4D56}')
    } else if cp == 0x2FA17 {
        Some('\u{9EF9}')
    } else if cp == 0x2FA18 {
        Some('\u{9EFE}')
    } else if cp == 0x2FA19 {
        Some('\u{9F05}')
    } else if cp == 0x2FA1A {
        Some('\u{9F0F}')
    } else if cp == 0x2FA1B {
        Some('\u{9F16}')
    } else if cp == 0x2FA1C {
        Some('\u{9F3B}')
    } else if cp == 0x2FA1D {
        Some('\u{2A600}')
    } else {
        None
    }
}

fn lookup_8(cp: u32) -> (r: Option<char>)
    ensures
        r == spec_fold_8(cp),
{
    if cp == 0x2FA0C {
        Some('\u{9CFD}')
    } else if cp == 0x2FA0D {
        Some('\u{4CCE}')
    } else if cp == 0x2FA0E {
        Some('\u{4CED}')
    } else if cp == 0x2FA0F {
        Some('\u{9D67}')
    } else if cp == 0x2FA10 {
        Some('\u{2A0CE}')
    } else if cp == 0x2FA11 {
        Some('\u{4CF8}')
    } else if cp == 0x2FA12 {
        Some('\u{2A105}')
    } else if cp == 0x2FA13 {
        Some('\u{2A20E}')
    } else if cp == 0x2FA14 {
        Some('\u{2A291}')
    } else if cp == 0x2FA15 {
        Some('\u{9EBB}')
    } else if cp == 0x2FA16 {
        Some('\u{4D56}')
    } else if cp == 0x2FA17 {
        Some('\u{9EF9}')
    } else if cp == 0x2FA18 {
        Some('\u{9EFE}')
    } else if cp == 0x2FA19 {
        Some('\u{9F05}')
    } else if cp == 0x2FA1A {
        Some('\u{9F0F}')
    } else if cp == 0x2FA1B {
        Some('\u{9F16}')
    } else if cp == 0x2FA1C {
        Some('\u{9F3B}')
    } else if cp == 0x2FA1D {
        Some('\u{2A600}')
    } else {
        None
    }
}

/// The letters a ligature expands to, if `cp` is one.
pub open spec fn spec_expand(cp: u32) -> Option<Seq<char>> {
    if cp == 0xFB00 {
        Some(seq!['f', 'f'])
    } else if cp == 0xFB01 {
        Some(seq!['f', 'i'])
    } else if cp == 0xFB02 {
        Some(seq!['f', 'l'])
    } else if cp == 0xFB03 {
        Some(seq!['f', 'f', 'i'])
    } else if cp == 0xFB04 {
        Some(seq!['f', 'f', 'l'])
    } else if cp == 0xFB05 {
        Some(seq!['s', 't'])
    } else if cp == 0xFB06 {
        Some(seq!['s', 't'])
    } else {
        None
    }
}

/// Looks `cp` up in the expansion table.
pub fn expand_lookup(cp: u32) -> (r: Option<&'static str>)
    ensures
        match r {
            Some(s) => spec_expand(cp) == Some(s@),
            None => spec_expand(cp) is None,
        },
{
    proof {
        reveal_strlit("ff");
        assert("ff"@ =~= seq!['f', 'f']);
        reveal_strlit("fi");
        assert("fi"@ =~= seq!['f', 'i']);
        reveal_strlit("fl");
        assert("fl"@ =~= seq!['f', 'l']);
        reveal_strlit("ffi");
        assert("ffi"@ =~= seq!['f', 'f', 'i']);
        reveal_strlit("ffl");
        assert("ffl"@ =~= seq!['f', 'f', 'l']);
        reveal_strlit("st");
        assert("st"@ =~= seq!['s', 't']);
    }
    if cp == 0xFB00 {
        Some("ff")
    } else if cp == 0xFB01 {
        Some("fi")
    } else if cp == 0xFB02 {
        Some("fl")
    } else if cp == 0xFB03 {
        Some("ffi")
    } else if cp == 0xFB04 {
        Some("ffl")
    } else if cp == 0xFB05 {
        Some("st")
    } else if cp == 0xFB06 {
        Some("st")
    } else {
        None
    }
}

} // verus!
