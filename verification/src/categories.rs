use vstd::prelude::*;

verus! {

/// Category of text input processors.
pub const TFCAT_CATEGORY_OF_TIP: u128 = 0x534c48c1_0607_4098_a521_4fc899c73e90;
/// Keyboard text input processors.
pub const TFCAT_TIP_KEYBOARD: u128 = 0x34745c63_b2f0_4784_8b67_5e12c8701a31;
/// Speech text input processors (not claimed by the input method).
pub const TFCAT_TIP_SPEECH: u128 = 0xb5a73cd1_8355_426b_a161_259808f26b14;
/// Handwriting text input processors (not claimed by the input method).
pub const TFCAT_TIP_HANDWRITING: u128 = 0x246ecb87_c2f2_4abe_905b_c8b38add2c43;
/// Works on the secure desktop.
pub const TFCAT_TIPCAP_SECUREMODE: u128 = 0x49d2f9ce_1f5e_11d7_a6d3_00065b84435c;
/// Supports UI elements.
pub const TFCAT_TIPCAP_UIELEMENTENABLED: u128 = 0x49d2f9cf_1f5e_11d7_a6d3_00065b84435c;
/// Supports the input mode compartment.
pub const TFCAT_TIPCAP_INPUTMODECOMPARTMENT: u128 = 0xccf05dd7_4a87_11d7_a6e2_00065b84435c;
/// Works without COM.
pub const TFCAT_TIPCAP_COMLESS: u128 = 0x364215d9_75bc_11d7_a6ef_00065b84435c;
/// Works in 16-bit applications.
pub const TFCAT_TIPCAP_WOW16: u128 = 0x364215da_75bc_11d7_a6ef_00065b84435c;
/// Supports immersive (store) applications.
pub const TFCAT_TIPCAP_IMMERSIVESUPPORT: u128 = 0x13a016df_560b_46cd_947a_4c3af1e0e35d;
/// Supports the system tray.
pub const TFCAT_TIPCAP_SYSTRAYSUPPORT: u128 = 0x25504fb4_7bab_4bc1_9c69_cf81890f0ef5;
/// Audio data property.
pub const TFCAT_PROP_AUDIODATA: u128 = 0x9b7be3a9_e8ab_4d47_a8fe_254fa423436d;
/// Ink data property.
pub const TFCAT_PROP_INKDATA: u128 = 0x7c6a82ae_b0d7_4f14_a745_14f28b009d61;
/// Static property style.
pub const TFCAT_PROPSTYLE_STATIC: u128 = 0x565fb8d8_6bd4_4ca1_b223_0f2ccb8f4f96;
/// Static compact property style.
pub const TFCAT_PROPSTYLE_STATICCOMPACT: u128 = 0x85f9794b_4d19_40d8_8864_4e747371a66d;
/// Custom property style.
pub const TFCAT_PROPSTYLE_CUSTOM: u128 = 0x24af3031_852d_40a2_bc09_8992898ce722;
/// Display attribute provider.
pub const TFCAT_DISPLAYATTRIBUTEPROVIDER: u128 = 0x046b8c80_1647_40f7_9b21_b93b81aabc1b;
/// Display attribute property.
pub const TFCAT_DISPLAYATTRIBUTEPROPERTY: u128 = 0xb95f181b_ea4c_4af1_8056_7c321abbb091;

/// The categories the input method registers itself in, in the order it
/// registers them: all of the text services framework's categories but the
/// speech and handwriting ones, without which it fails in some applications.
pub open spec fn spec_supported_categories() -> Seq<u128> {
    seq![
        TFCAT_CATEGORY_OF_TIP,
        TFCAT_TIP_KEYBOARD,
        TFCAT_TIPCAP_SECUREMODE,
        TFCAT_TIPCAP_UIELEMENTENABLED,
        TFCAT_TIPCAP_INPUTMODECOMPARTMENT,
        TFCAT_TIPCAP_COMLESS,
        TFCAT_TIPCAP_WOW16,
        TFCAT_TIPCAP_IMMERSIVESUPPORT,
        TFCAT_TIPCAP_SYSTRAYSUPPORT,
        TFCAT_PROP_AUDIODATA,
        TFCAT_PROP_INKDATA,
        TFCAT_PROPSTYLE_STATIC,
        TFCAT_PROPSTYLE_STATICCOMPACT,
        TFCAT_PROPSTYLE_CUSTOM,
        TFCAT_DISPLAYATTRIBUTEPROVIDER,
        TFCAT_DISPLAYATTRIBUTEPROPERTY,
    ]
}

/// The category ids the input method registers (and unregisters), in order.
pub fn supported_categories() -> (r: Vec<u128>)
    ensures
        r@ == spec_supported_categories(),
{
    vec![
        TFCAT_CATEGORY_OF_TIP,
        TFCAT_TIP_KEYBOARD,
        TFCAT_TIPCAP_SECUREMODE,
        TFCAT_TIPCAP_UIELEMENTENABLED,
        TFCAT_TIPCAP_INPUTMODECOMPARTMENT,
        TFCAT_TIPCAP_COMLESS,
        TFCAT_TIPCAP_WOW16,
        TFCAT_TIPCAP_IMMERSIVESUPPORT,
        TFCAT_TIPCAP_SYSTRAYSUPPORT,
        TFCAT_PROP_AUDIODATA,
        TFCAT_PROP_INKDATA,
        TFCAT_PROPSTYLE_STATIC,
        TFCAT_PROPSTYLE_STATICCOMPACT,
        TFCAT_PROPSTYLE_CUSTOM,
        TFCAT_DISPLAYATTRIBUTEPROVIDER,
        TFCAT_DISPLAYATTRIBUTEPROPERTY,
    ]
}

/// The categories the input method registers in are exactly these sixteen
/// text services framework categories (tip, keyboard tip, secure mode, UI
/// elements, input mode compartment, COM-less, 16-bit, immersive, system
/// tray, audio data, ink data, static, static compact and custom property
/// styles, display attribute provider and property), in this order.
pub proof fn lemma_supported_category_members(c: u128)
    ensures
        spec_supported_categories().contains(c) <==> (c == 0x534c48c1_0607_4098_a521_4fc899c73e90
            || c == 0x34745c63_b2f0_4784_8b67_5e12c8701a31 || c
            == 0x49d2f9ce_1f5e_11d7_a6d3_00065b84435c || c
            == 0x49d2f9cf_1f5e_11d7_a6d3_00065b84435c || c
            == 0xccf05dd7_4a87_11d7_a6e2_00065b84435c || c
            == 0x364215d9_75bc_11d7_a6ef_00065b84435c || c
            == 0x364215da_75bc_11d7_a6ef_00065b84435c || c
            == 0x13a016df_560b_46cd_947a_4c3af1e0e35d || c
            == 0x25504fb4_7bab_4bc1_9c69_cf81890f0ef5 || c
            == 0x9b7be3a9_e8ab_4d47_a8fe_254fa423436d || c
            == 0x7c6a82ae_b0d7_4f14_a745_14f28b009d61 || c
            == 0x565fb8d8_6bd4_4ca1_b223_0f2ccb8f4f96 || c
            == 0x85f9794b_4d19_40d8_8864_4e747371a66d || c
            == 0x24af3031_852d_40a2_bc09_8992898ce722 || c
            == 0x046b8c80_1647_40f7_9b21_b93b81aabc1b || c
            == 0xb95f181b_ea4c_4af1_8056_7c321abbb091),
        spec_supported_categories()[0] == 0x534c48c1_0607_4098_a521_4fc899c73e90,
        spec_supported_categories()[1] == 0x34745c63_b2f0_4784_8b67_5e12c8701a31,
{
    let s = spec_supported_categories();
    assert(s[0] == TFCAT_CATEGORY_OF_TIP);
    assert(s[1] == TFCAT_TIP_KEYBOARD);
    assert(s[2] == TFCAT_TIPCAP_SECUREMODE);
    assert(s[3] == TFCAT_TIPCAP_UIELEMENTENABLED);
    assert(s[4] == TFCAT_TIPCAP_INPUTMODECOMPARTMENT);
    assert(s[5] == TFCAT_TIPCAP_COMLESS);
    assert(s[6] == TFCAT_TIPCAP_WOW16);
    assert(s[7] == TFCAT_TIPCAP_IMMERSIVESUPPORT);
    assert(s[8] == TFCAT_TIPCAP_SYSTRAYSUPPORT);
    assert(s[9] == TFCAT_PROP_AUDIODATA);
    assert(s[10] == TFCAT_PROP_INKDATA);
    assert(s[11] == TFCAT_PROPSTYLE_STATIC);
    assert(s[12] == TFCAT_PROPSTYLE_STATICCOMPACT);
    assert(s[13] == TFCAT_PROPSTYLE_CUSTOM);
    assert(s[14] == TFCAT_DISPLAYATTRIBUTEPROVIDER);
    assert(s[15] == TFCAT_DISPLAYATTRIBUTEPROPERTY);
    if s.contains(c) {
        let i = choose|i: int| 0 <= i < s.len() && s[i] == c;
        assert(0 <= i < 16);
        assert(i == 0 || i == 1 || i == 2 || i == 3 || i == 4 || i == 5 || i == 6 || i == 7 || i
            == 8 || i == 9 || i == 10 || i == 11 || i == 12 || i == 13 || i == 14 || i == 15);
    }
}

/// The input method claims sixteen categories, each once, and neither the
/// speech nor the handwriting one.
pub proof fn lemma_supported_categories()
    ensures
        spec_supported_categories().len() == 16,
        spec_supported_categories().no_duplicates(),
        !spec_supported_categories().contains(TFCAT_TIP_SPEECH),
        !spec_supported_categories().contains(TFCAT_TIP_HANDWRITING),
{
    let s = spec_supported_categories();
    assert(s[0] == TFCAT_CATEGORY_OF_TIP);
    assert(s[1] == TFCAT_TIP_KEYBOARD);
    assert(s[2] == TFCAT_TIPCAP_SECUREMODE);
    assert(s[3] == TFCAT_TIPCAP_UIELEMENTENABLED);
    assert(s[4] == TFCAT_TIPCAP_INPUTMODECOMPARTMENT);
    assert(s[5] == TFCAT_TIPCAP_COMLESS);
    assert(s[6] == TFCAT_TIPCAP_WOW16);
    assert(s[7] == TFCAT_TIPCAP_IMMERSIVESUPPORT);
    assert(s[8] == TFCAT_TIPCAP_SYSTRAYSUPPORT);
    assert(s[9] == TFCAT_PROP_AUDIODATA);
    assert(s[10] == TFCAT_PROP_INKDATA);
    assert(s[11] == TFCAT_PROPSTYLE_STATIC);
    assert(s[12] == TFCAT_PROPSTYLE_STATICCOMPACT);
    assert(s[13] == TFCAT_PROPSTYLE_CUSTOM);
    assert(s[14] == TFCAT_DISPLAYATTRIBUTEPROVIDER);
    assert(s[15] == TFCAT_DISPLAYATTRIBUTEPROPERTY);
    assert forall|i: int, j: int| 0 <= i < s.len() && 0 <= j < s.len() && i != j implies s[i]
        != s[j] by {
        assert(0 <= i < 16 && 0 <= j < 16);
    }
    assert forall|i: int| 0 <= i < s.len() implies s[i] != TFCAT_TIP_SPEECH && s[i]
        != TFCAT_TIP_HANDWRITING by {
        assert(0 <= i < 16);
    }
}

} // verus!
