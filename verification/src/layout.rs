use vstd::prelude::*;

use crate::hex::{parse_hex_u32, spec_parse_hex_u32};

verus! {

/// The keyboard layout families that the input method can sit on top of.
#[derive(Clone, Copy, Debug, PartialEq, Eq, Structural)]
pub enum Layout {
    Qwerty,
    Dvorak,
    Qwertz,
    Azerty,
    Custom,
}

/// Language id of US English, used when no preferred layout is found.
pub const US: u16 = 0x0409;
/// Keyboard layout id (KLID) of United States-Dvorak.
pub const US_DVORAK: u32 = 0x0001_0409;
/// KLID of French.
pub const FRENCH: u32 = 0x0000_040C;
/// KLID of Belgian French.
pub const BELGIAN_FRENCH: u32 = 0x0000_080C;
/// KLID of Belgian (Comma).
pub const BELGIAN_FRENCH_COMMA: u32 = 0x0001_080C;
/// KLID of Belgian (Period).
pub const BELGIAN_FRENCH_PERIOD: u32 = 0x0000_0813;
/// KLID of German.
pub const GERMAN: u32 = 0x0000_0407;
/// KLID of German (IBM).
pub const GERMAN_IBM: u32 = 0x0001_0407;
/// KLID of Swiss French.
pub const SWISS_FRENCH: u32 = 0x0000_100C;

/// The exact bytes that name each layout in the `.layout` preference file.
pub open spec fn layout_name(l: Layout) -> Seq<u8> {
    match l {
        Layout::Qwerty => seq![0x51u8, 0x57, 0x45, 0x52, 0x54, 0x59],  // QWERTY
        Layout::Dvorak => seq![0x44u8, 0x56, 0x4f, 0x52, 0x41, 0x4b],  // DVORAK
        Layout::Qwertz => seq![0x51u8, 0x57, 0x45, 0x52, 0x54, 0x5a],  // QWERTZ
        Layout::Azerty => seq![0x41u8, 0x5a, 0x45, 0x52, 0x54, 0x59],  // AZERTY
        Layout::Custom => seq![0x43u8, 0x55, 0x53, 0x54, 0x4f, 0x4d],  // CUSTOM
    }
}

/// The ASCII bytes of a text.
pub open spec fn ascii_bytes(text: Seq<char>) -> Seq<u8> {
    text.map_values(|c: char| c as u8)
}

/// The preference file names a layout exactly when it holds, byte for byte,
/// one of `QWERTY`, `DVORAK`, `QWERTZ`, `AZERTY` or `CUSTOM`.
pub proof fn lemma_layout_file_names(text: Seq<u8>)
    ensures
        spec_parse_layout_name(text) == Some(Layout::Qwerty) <==> text == ascii_bytes(
            seq!['Q', 'W', 'E', 'R', 'T', 'Y'],
        ),
        spec_parse_layout_name(text) == Some(Layout::Dvorak) <==> text == ascii_bytes(
            seq!['D', 'V', 'O', 'R', 'A', 'K'],
        ),
        spec_parse_layout_name(text) == Some(Layout::Qwertz) <==> text == ascii_bytes(
            seq!['Q', 'W', 'E', 'R', 'T', 'Z'],
        ),
        spec_parse_layout_name(text) == Some(Layout::Azerty) <==> text == ascii_bytes(
            seq!['A', 'Z', 'E', 'R', 'T', 'Y'],
        ),
        spec_parse_layout_name(text) == Some(Layout::Custom) <==> text == ascii_bytes(
            seq!['C', 'U', 'S', 'T', 'O', 'M'],
        ),
{
    assert(ascii_bytes(seq!['Q', 'W', 'E', 'R', 'T', 'Y']) =~= layout_name(Layout::Qwerty));
    assert(ascii_bytes(seq!['D', 'V', 'O', 'R', 'A', 'K']) =~= layout_name(Layout::Dvorak));
    assert(ascii_bytes(seq!['Q', 'W', 'E', 'R', 'T', 'Z']) =~= layout_name(Layout::Qwertz));
    assert(ascii_bytes(seq!['A', 'Z', 'E', 'R', 'T', 'Y']) =~= layout_name(Layout::Azerty));
    assert(ascii_bytes(seq!['C', 'U', 'S', 'T', 'O', 'M']) =~= layout_name(Layout::Custom));
    lemma_layout_name_round_trip(Layout::Qwerty);
    lemma_layout_name_round_trip(Layout::Dvorak);
    lemma_layout_name_round_trip(Layout::Qwertz);
    lemma_layout_name_round_trip(Layout::Azerty);
    lemma_layout_name_round_trip(Layout::Custom);
}

/// The layout that the preference file's contents name, if they name one
/// exactly (no surrounding whitespace, upper case).
pub open spec fn spec_parse_layout_name(text: Seq<u8>) -> Option<Layout> {
    if text == layout_name(Layout::Qwerty) {
        Some(Layout::Qwerty)
    } else if text == layout_name(Layout::Dvorak) {
        Some(Layout::Dvorak)
    } else if text == layout_name(Layout::Qwertz) {
        Some(Layout::Qwertz)
    } else if text == layout_name(Layout::Azerty) {
        Some(Layout::Azerty)
    } else if text == layout_name(Layout::Custom) {
        Some(Layout::Custom)
    } else {
        None
    }
}

/// The layout family of a keyboard layout id: the listed Dvorak, QWERTZ and
/// AZERTY ids, then any other id whose top four bits are `0xA` (ids of
/// layouts installed by users), then QWERTY for all the rest.
pub open spec fn spec_layout_of_klid(id: u32) -> Layout {
    if id == US_DVORAK {
        Layout::Dvorak
    } else if id == GERMAN || id == GERMAN_IBM || id == SWISS_FRENCH {
        Layout::Qwertz
    } else if id == FRENCH || id == BELGIAN_FRENCH || id == BELGIAN_FRENCH_COMMA || id
        == BELGIAN_FRENCH_PERIOD {
        Layout::Azerty
    } else if id / 0x1000_0000 == 0xA {
        Layout::Custom
    } else {
        Layout::Qwerty
    }
}

/// The id belongs to the family, by the family's list of ids.
pub open spec fn layout_family_is(id: u32, family: Layout) -> bool {
    match family {
        Layout::Dvorak => id == 0x0001_0409,
        Layout::Qwertz => id == 0x0000_0407 || id == 0x0001_0407 || id == 0x0000_100C,
        Layout::Azerty => id == 0x0000_040C || id == 0x0000_080C || id == 0x0001_080C || id
            == 0x0000_0813,
        Layout::Custom => 0xA000_0000 <= id <= 0xAFFF_FFFF,
        Layout::Qwerty => !(id == 0x0001_0409 || id == 0x0000_0407 || id == 0x0001_0407 || id
            == 0x0000_100C || id == 0x0000_040C || id == 0x0000_080C || id == 0x0001_080C || id
            == 0x0000_0813 || 0xA000_0000 <= id <= 0xAFFF_FFFF),
    }
}

/// Each id belongs to exactly one family.
pub proof fn lemma_families_partition(id: u32, a: Layout, b: Layout)
    ensures
        layout_family_is(id, spec_layout_of_klid(id)),
        layout_family_is(id, a) && layout_family_is(id, b) ==> a == b,
{
}

/// The language id carried in the low 16 bits of a keyboard layout id.
pub open spec fn spec_language_of_klid(id: u32) -> u16 {
    (id % 0x1_0000) as u16
}

/// Each layout's name in the preference file reads back as that layout, so
/// the five names are told apart.
pub proof fn lemma_layout_name_round_trip(l: Layout)
    ensures
        spec_parse_layout_name(layout_name(l)) == Some(l),
{
    match l {
        Layout::Qwerty => {},
        Layout::Dvorak => {
            assert(layout_name(Layout::Dvorak)[0] != layout_name(Layout::Qwerty)[0]);
        },
        Layout::Qwertz => {
            assert(layout_name(Layout::Qwertz)[5] != layout_name(Layout::Qwerty)[5]);
            assert(layout_name(Layout::Qwertz)[0] != layout_name(Layout::Dvorak)[0]);
        },
        Layout::Azerty => {
            assert(layout_name(Layout::Azerty)[0] != layout_name(Layout::Qwerty)[0]);
            assert(layout_name(Layout::Azerty)[0] != layout_name(Layout::Dvorak)[0]);
            assert(layout_name(Layout::Azerty)[0] != layout_name(Layout::Qwertz)[0]);
        },
        Layout::Custom => {
            assert(layout_name(Layout::Custom)[0] != layout_name(Layout::Qwerty)[0]);
            assert(layout_name(Layout::Custom)[0] != layout_name(Layout::Dvorak)[0]);
            assert(layout_name(Layout::Custom)[0] != layout_name(Layout::Qwertz)[0]);
            assert(layout_name(Layout::Custom)[0] != layout_name(Layout::Azerty)[0]);
        },
    }
}

/// Every keyboard layout id whose top four bits are `0xA` (the ids Windows
/// gives to layouts that users install) is of the custom family.
pub proof fn lemma_user_klid_is_custom(id: u32)
    requires
        id / 0x1000_0000 == 0xA,
    ensures
        spec_layout_of_klid(id) == Layout::Custom,
{
}

/// For a name buffer whose first eight bytes are hexadecimal digits, as the
/// system writes them, a search step never aborts: it finds the layout, with
/// the low 16 bits of the id as language id, exactly when the id is of the
/// preferred family.
pub proof fn lemma_probe_of_system_name(preferred: Layout, name: Seq<u8>)
    requires
        name.len() == 9,
        crate::hex::all_hex_digits(name.take(8)),
    ensures
        ({
            let id = crate::hex::hex_value(name.take(8)) as u32;
            &&& spec_probe_layout(preferred, Some(name)) != LayoutProbe::Abort
            &&& (spec_probe_layout(preferred, Some(name)) == (LayoutProbe::Found {
                klid: id,
                lang_id: spec_language_of_klid(id),
            }) <==> spec_layout_of_klid(id) == preferred)
        }),
{
    crate::hex::lemma_eight_hex_digits_parse(name.take(8));
}

/// The outcome of the whole layout search from position `i` of the installed
/// layouts on, given the name buffer read for each (`None` where activating
/// it or reading its name failed): the position and language id of the first
/// layout whose step says `Found`, provided no step before it said `Abort`;
/// `None` where a step aborts first or no step finds one.
pub open spec fn spec_scan_layouts(preferred: Layout, names: Seq<Option<Seq<u8>>>, i: nat) -> Option<
    (nat, u16),
>
    decreases names.len() - i,
{
    if i >= names.len() {
        None
    } else {
        match spec_probe_layout(preferred, names[i as int]) {
            LayoutProbe::Found { klid, lang_id } => Some((i, lang_id)),
            LayoutProbe::Abort => None,
            LayoutProbe::Skip => spec_scan_layouts(preferred, names, i + 1),
        }
    }
}

/// Stepping through the layouts with `probe_layout` reaches the outcome of
/// the whole search: while every step so far said `Skip`, the search's
/// outcome is that of the search from the current position, so the first
/// `Found` gives its position and language id, the first `Abort` gives
/// `None`, and running out of layouts gives `None`.
pub proof fn lemma_scan_by_steps(preferred: Layout, names: Seq<Option<Seq<u8>>>, i: nat)
    requires
        i <= names.len(),
        forall|j: int| 0 <= j < i ==> spec_probe_layout(preferred, #[trigger] names[j])
            == LayoutProbe::Skip,
    ensures
        spec_scan_layouts(preferred, names, 0) == spec_scan_layouts(preferred, names, i),
        i == names.len() ==> spec_scan_layouts(preferred, names, 0) is None,
        i < names.len() ==> match spec_probe_layout(preferred, names[i as int]) {
            LayoutProbe::Found { klid, lang_id } => spec_scan_layouts(preferred, names, 0) == Some(
                (i, lang_id),
            ),
            LayoutProbe::Abort => spec_scan_layouts(preferred, names, 0) is None,
            LayoutProbe::Skip => true,
        },
    decreases i,
{
    if i > 0 {
        let k = (i - 1) as nat;
        lemma_scan_by_steps(preferred, names, k);
        assert(spec_probe_layout(preferred, names[k as int]) == LayoutProbe::Skip);
    }
}

fn name_bytes(l: Layout) -> (r: Vec<u8>)
    ensures
        r@ == layout_name(l),
{
    match l {
        Layout::Qwerty => vec![0x51u8, 0x57, 0x45, 0x52, 0x54, 0x59],
        Layout::Dvorak => vec![0x44u8, 0x56, 0x4f, 0x52, 0x41, 0x4b],
        Layout::Qwertz => vec![0x51u8, 0x57, 0x45, 0x52, 0x54, 0x5a],
        Layout::Azerty => vec![0x41u8, 0x5a, 0x45, 0x52, 0x54, 0x59],
        Layout::Custom => vec![0x43u8, 0x55, 0x53, 0x54, 0x4f, 0x4d],
    }
}

fn bytes_equal(a: &[u8], b: &[u8]) -> (r: bool)
    ensures
        r == (a@ == b@),
{
    if a.len() != b.len() {
        return false;
    }
    let mut i: usize = 0;
    while i < a.len()
        invariant
            a@.len() == b@.len(),
            i <= a@.len(),
            forall|j: int| 0 <= j < i ==> a@[j] == b@[j],
        decreases a@.len() - i,
    {
        if a[i] != b[i] {
            return false;
        }
        i = i + 1;
    }
    assert(a@ =~= b@);
    true
}

/// Reads the contents of the `.layout` preference file: the layout it names,
/// or `None` where it names none.
pub fn parse_layout_name(text: &[u8]) -> (r: Option<Layout>)
    ensures
        r == spec_parse_layout_name(text@),
{
    let qwerty = name_bytes(Layout::Qwerty);
    if bytes_equal(text, qwerty.as_slice()) {
        return Some(Layout::Qwerty);
    }
    let dvorak = name_bytes(Layout::Dvorak);
    if bytes_equal(text, dvorak.as_slice()) {
        return Some(Layout::Dvorak);
    }
    let qwertz = name_bytes(Layout::Qwertz);
    if bytes_equal(text, qwertz.as_slice()) {
        return Some(Layout::Qwertz);
    }
    let azerty = name_bytes(Layout::Azerty);
    if bytes_equal(text, azerty.as_slice()) {
        return Some(Layout::Azerty);
    }
    let custom = name_bytes(Layout::Custom);
    if bytes_equal(text, custom.as_slice()) {
        return Some(Layout::Custom);
    }
    None
}

/// The layout family of a keyboard layout id.
pub fn layout_of_klid(id: u32) -> (r: Layout)
    ensures
        r == spec_layout_of_klid(id),
        layout_family_is(id, r),
{
    proof {
        lemma_klid_families(id);
    }
    if id == US_DVORAK {
        Layout::Dvorak
    } else if id == GERMAN || id == GERMAN_IBM || id == SWISS_FRENCH {
        Layout::Qwertz
    } else if id == FRENCH || id == BELGIAN_FRENCH || id == BELGIAN_FRENCH_COMMA || id
        == BELGIAN_FRENCH_PERIOD {
        Layout::Azerty
    } else {
        assert(id >> 28u32 == id / 0x1000_0000) by (bit_vector);
        if id >> 28u32 == 0xA {
            Layout::Custom
        } else {
            Layout::Qwerty
        }
    }
}

/// The keyboard layout id in a layout name buffer as the system fills it
/// (eight hexadecimal digits and a terminating zero): the first eight bytes
/// read as a base-16 number.
pub open spec fn spec_klid_of_name(name: Seq<u8>) -> Option<u32> {
    spec_parse_hex_u32(name.take(8))
}

/// What one step of the layout search decides.
#[derive(Clone, Copy, Debug, PartialEq, Eq, Structural)]
pub enum LayoutProbe {
    /// The layout is of the preferred family: stop, with its keyboard layout
    /// id and the language id within it.
    Found { klid: u32, lang_id: u16 },
    /// The layout is of another family: go on with the next one.
    Skip,
    /// Reading the layout failed: stop, with no layout found.
    Abort,
}

/// The decision for one installed layout, given the name buffer that the
/// system filled for it (`None` where activating the layout or reading its
/// name failed).
pub open spec fn spec_probe_layout(preferred: Layout, name: Option<Seq<u8>>) -> LayoutProbe {
    match name {
        None => LayoutProbe::Abort,
        Some(n) => match spec_klid_of_name(n) {
            None => LayoutProbe::Abort,
            Some(id) => if spec_layout_of_klid(id) == preferred {
                LayoutProbe::Found { klid: id, lang_id: spec_language_of_klid(id) }
            } else {
                LayoutProbe::Skip
            },
        },
    }
}

/// Which ids make up each layout family, in the ids' own terms: United
/// States-Dvorak alone is Dvorak; German, German (IBM) and Swiss French are
/// QWERTZ; French and the three Belgian layouts are AZERTY; every other id
/// from `0xA000_0000` to `0xAFFF_FFFF` is custom; every remaining id is
/// QWERTY.
pub proof fn lemma_klid_families(id: u32)
    ensures
        spec_layout_of_klid(id) == Layout::Dvorak <==> id == 0x0001_0409,
        spec_layout_of_klid(id) == Layout::Qwertz <==> (id == 0x0000_0407 || id == 0x0001_0407
            || id == 0x0000_100C),
        spec_layout_of_klid(id) == Layout::Azerty <==> (id == 0x0000_040C || id == 0x0000_080C
            || id == 0x0001_080C || id == 0x0000_0813),
        spec_layout_of_klid(id) == Layout::Custom <==> (0xA000_0000 <= id <= 0xAFFF_FFFF),
        spec_layout_of_klid(id) == Layout::Qwerty <==> !(id == 0x0001_0409 || id == 0x0000_0407
            || id == 0x0001_0407 || id == 0x0000_100C || id == 0x0000_040C || id == 0x0000_080C
            || id == 0x0001_080C || id == 0x0000_0813 || 0xA000_0000 <= id <= 0xAFFF_FFFF),
{
}

/// The language id is the low 16 bits of the layout id: the id is the
/// language id plus a multiple of `0x10000`.
pub proof fn lemma_language_is_low_half(id: u32)
    ensures
        spec_language_of_klid(id) as int == id as int % 0x10000,
        id as int == (id as int / 0x10000) * 0x10000 + spec_language_of_klid(id) as int,
{
}

/// What a search step that finds a layout hands back: the id written in the
/// first eight bytes of the name buffer, which is of the preferred family,
/// with its low 16 bits as language id; and a step only skips a layout whose
/// id it read and which is of another family.
pub proof fn lemma_probe_outcomes(preferred: Layout, name: Option<Seq<u8>>)
    ensures
        spec_probe_layout(preferred, name) matches LayoutProbe::Found { klid, lang_id } ==> {
            &&& name is Some
            &&& crate::hex::spec_parse_hex_u32(name.unwrap().take(8)) == Some(klid)
            &&& spec_layout_of_klid(klid) == preferred
            &&& lang_id as int == klid as int % 0x10000
        },
        spec_probe_layout(preferred, name) == LayoutProbe::Skip ==> {
            &&& name is Some
            &&& crate::hex::spec_parse_hex_u32(name.unwrap().take(8)) matches Some(id)
            &&& spec_layout_of_klid(id) != preferred
        },
        spec_probe_layout(preferred, name) == LayoutProbe::Abort <==> (name is None
            || crate::hex::spec_parse_hex_u32(name.unwrap().take(8)) is None),
{
}

/// One step of the search for an installed layout of the preferred family.
/// The caller activates each installed layout in turn, reads its name into
/// a nine-byte buffer and hands it here; it stops at `Found` or `Abort`.
pub fn probe_layout(preferred: Layout, name: Option<&[u8; 9]>) -> (r: LayoutProbe)
    ensures
        r == spec_probe_layout(
            preferred,
            match name {
                Some(n) => Some(n@),
                None => None,
            },
        ),
        r matches LayoutProbe::Found { klid, lang_id } ==> lang_id as int == klid as int % 0x10000
            && layout_family_is(klid, preferred),
{
    proof {
        lemma_probe_outcomes(
            preferred,
            match name {
                Some(n) => Some(n@),
                None => None,
            },
        );
    }
    match name {
        None => LayoutProbe::Abort,
        Some(n) => {
            let bytes = n.as_slice();
            match parse_hex_u32(bytes, 8) {
                None => LayoutProbe::Abort,
                Some(id) => {
                    if layout_of_klid(id) == preferred {
                        LayoutProbe::Found { klid: id, lang_id: (id % 0x1_0000) as u16 }
                    } else {
                        LayoutProbe::Skip
                    }
                },
            }
        },
    }
}

/// The language id and substitute layout for the language profile: those of
/// the layout found, or US English with no substitute where none was found.
pub fn language_and_layout<H>(found: Option<(u16, H)>) -> (r: (u16, Option<H>))
    ensures
        match found {
            Some((lang_id, hkl)) => r.0 == lang_id && r.1 == Some(hkl),
            None => r.0 == US && r.1 is None,
        },
{
    match found {
        Some((lang_id, layout)) => (lang_id, Some(layout)),
        None => (US, None),
    }
}

} // verus!
