//! Pixel formats: which of them a display can show, and which of them is drawn in.

use vstd::prelude::*;

use crate::protocol::number_bytes;

verus! {

/// The formats with an alpha channel of eight bits.
pub const ARGB8888: u32 = 0x34325241;

pub const ABGR8888: u32 = 0x34324241;

pub const RGBA8888: u32 = 0x34324152;

pub const BGRA8888: u32 = 0x34324142;

/// Bytes read as text, with a replacement character for what is no UTF-8.
pub uninterp spec fn utf8_lossy(bytes: Seq<u8>) -> Seq<char>;

/// `String::from_utf8_lossy` reads bytes as text. Valid UTF-8 is decoded as it stands. Where the
/// replacement characters stand in other bytes is left to `utf8_lossy`, a function of the bytes
/// alone.
#[verifier::external_body]
fn lossy_text(bytes: &[u8]) -> (text: String)
    ensures
        text@ == utf8_lossy(bytes@),
        vstd::utf8::valid_utf8(bytes@) ==> text@ == vstd::utf8::decode_utf8(bytes@),
{
    String::from_utf8_lossy(bytes).into_owned()
}

/// The code of a format as text: its four bytes, the lowest first.
pub fn fourcc_string(format: u32) -> (text: String)
    ensures
        text@ == utf8_lossy(crate::protocol::le_bytes(format)),
        vstd::utf8::valid_utf8(crate::protocol::le_bytes(format)) ==> text@
            == vstd::utf8::decode_utf8(crate::protocol::le_bytes(format)),
{
    let bytes: [u8; 4] = number_bytes(format);
    lossy_text(bytes.as_slice())
}

/// The number of significant bits of a pixel.
pub open spec fn depth_of(format: u32) -> u32 {
    if format == ARGB8888 || format == ABGR8888 || format == RGBA8888 || format == BGRA8888 {
        32
    } else {
        24
    }
}

/// The number of significant bits of a pixel: alpha counts.
pub fn framebuffer_depth(format: u32) -> (depth: u32)
    ensures
        depth == depth_of(format),
{
    match format {
        ARGB8888 | ABGR8888 | RGBA8888 | BGRA8888 => 32,
        _ => 24,
    }
}

/// A plane of the display hardware.
#[derive(Debug)]
pub struct Plane {
    /// The CRTCs that can show the plane.
    pub possible_crtcs: Vec<u32>,
    /// The codes of the formats that the plane can read.
    pub formats: Vec<u32>,
}

/// What is listed for the first time, in the order of the list.
pub open spec fn first_mentions(list: Seq<u32>) -> Seq<u32>
    decreases list.len(),
{
    if list.len() == 0 {
        Seq::empty()
    } else {
        let before = first_mentions(list.drop_last());
        if before.contains(list.last()) {
            before
        } else {
            before.push(list.last())
        }
    }
}

/// The formats of the planes that a CRTC can show, one plane after the other.
pub open spec fn formats_for(planes: Seq<Option<Plane>>, crtc: u32) -> Seq<u32>
    decreases planes.len(),
{
    if planes.len() == 0 {
        Seq::empty()
    } else {
        let before = formats_for(planes.drop_last(), crtc);
        match planes.last() {
            Some(plane) if plane.possible_crtcs@.contains(crtc) => before + plane.formats@,
            _ => before,
        }
    }
}

/// Whether a list holds a number.
pub(crate) fn list_contains(list: &Vec<u32>, wanted: u32) -> (found: bool)
    ensures
        found == list@.contains(wanted),
{
    for i in 0..list.len()
        invariant
            forall|k: int| 0 <= k < i ==> list@[k] != wanted,
    {
        if list[i] == wanted {
            return true;
        }
    }
    false
}

/// The formats that a CRTC can show: those of its planes, each once. A plane that could not be
/// read is left out.
pub fn primary_plane_formats(planes: &Vec<Option<Plane>>, crtc: u32) -> (formats: Vec<u32>)
    ensures
        formats@ == first_mentions(formats_for(planes@, crtc)),
{
    let mut formats: Vec<u32> = Vec::new();
    assert(planes@.take(0) =~= Seq::empty());
    for i in 0..planes.len()
        invariant
            formats@ == first_mentions(formats_for(planes@.take(i as int), crtc)),
    {
        assert(planes@.take(i + 1).drop_last() =~= planes@.take(i as int));
        let ghost before = formats_for(planes@.take(i as int), crtc);
        if let Some(plane) = &planes[i] {
            if list_contains(&plane.possible_crtcs, crtc) {
                assert(before + plane.formats@.take(0) =~= before);
                for j in 0..plane.formats.len()
                    invariant
                        formats@ == first_mentions(before + plane.formats@.take(j as int)),
                {
                    let ghost now = before + plane.formats@.take(j + 1);
                    assert(now.drop_last() =~= before + plane.formats@.take(j as int));
                    if !list_contains(&formats, plane.formats[j]) {
                        formats.push(plane.formats[j]);
                    }
                }
                assert(plane.formats@.take(plane.formats@.len() as int) =~= plane.formats@);
            }
        }
    }
    assert(planes@.take(planes@.len() as int) =~= planes@);
    formats
}

/// Which of the four plane entries of a framebuffer are filled in, for a buffer with some number
/// of planes. The first one always is.
pub fn planes_used(count: u32) -> (used: [bool; 4])
    ensures
        used@ == seq![true, count > 1, count > 2, count > 3],
{
    let used: [bool; 4] = [true, count > 1, count > 2, count > 3];
    assert(used@ =~= seq![true, count > 1, count > 2, count > 3]);
    used
}

/// Whether a code belongs to a known format.
pub uninterp spec fn is_fourcc(code: u32) -> bool;

/// `DrmFourcc::try_from` looks a code up in the list of formats that the kernel defines. Which
/// codes are in the list is left to `is_fourcc`, a function of the code alone.
#[verifier::external_body]
fn is_known_format(code: u32) -> (known: bool)
    ensures
        known == is_fourcc(code),
{
    drm::buffer::DrmFourcc::try_from(code).is_ok()
}

/// Why no configuration was chosen.
#[derive(Clone, Copy, Debug, PartialEq, Eq, Structural)]
pub enum ConfigError {
    /// The native visual of this configuration could not be read.
    Unreadable(usize),
    /// No configuration has a known format.
    NoneUsable,
}

/// The native visual of a configuration.
#[derive(Clone, Copy, Debug, PartialEq, Eq, Structural)]
pub enum Visual {
    /// It could not be read.
    Unreadable,
    /// It is no known format.
    Unknown,
    /// It is the format with this code.
    Format(u32),
}

/// The visual that goes with what was read of a configuration.
pub open spec fn visual(id: Option<i32>) -> Visual {
    match id {
        None => Visual::Unreadable,
        Some(id) => if is_fourcc(id as u32) {
            Visual::Format(id as u32)
        } else {
            Visual::Unknown
        },
    }
}

/// Whether the display can show a visual.
pub open spec fn is_shown(visual: Visual, supported: Seq<u32>) -> bool {
    visual matches Visual::Format(code) && supported.contains(code)
}

/// Whether the search goes on behind the first configurations: all of them could be read, and the
/// display shows none of them.
pub open spec fn goes_on(visuals: Seq<Visual>, supported: Seq<u32>, n: int) -> bool {
    forall|k: int|
        0 <= k < n ==> (#[trigger] visuals[k]) !is Unreadable && !is_shown(visuals[k], supported)
}

/// What the search for a configuration finds: the first one that the display can show, or else
/// the first one with a known format. It ends early where a native visual could not be read.
pub open spec fn is_choice(
    visuals: Seq<Visual>,
    supported: Seq<u32>,
    choice: Result<usize, ConfigError>,
) -> bool {
    match choice {
        Ok(i) => {
            &&& i < visuals.len()
            &&& visuals[i as int] is Format
            &&& if is_shown(visuals[i as int], supported) {
                goes_on(visuals, supported, i as int)
            } else {
                goes_on(visuals, supported, visuals.len() as int) && forall|k: int|
                    0 <= k < i ==> (#[trigger] visuals[k]) is Unknown
            }
        },
        Err(ConfigError::Unreadable(i)) => {
            &&& i < visuals.len()
            &&& visuals[i as int] is Unreadable
            &&& goes_on(visuals, supported, i as int)
        },
        Err(ConfigError::NoneUsable) => {
            forall|k: int| 0 <= k < visuals.len() ==> (#[trigger] visuals[k]) is Unknown
        },
    }
}

/// The visual that goes with what was read of a configuration.
pub fn read_visual(id: Option<i32>) -> (result: Visual)
    ensures
        result == visual(id),
{
    match id {
        None => Visual::Unreadable,
        Some(id) => {
            let code: u32 = id as u32;
            if is_known_format(code) {
                Visual::Format(code)
            } else {
                Visual::Unknown
            }
        },
    }
}

/// Chooses a configuration by the native visuals of all of them.
pub fn choose_visual(visuals: &Vec<Visual>, supported: &Vec<u32>) -> (choice: Result<
    usize,
    ConfigError,
>)
    ensures
        is_choice(visuals@, supported@, choice),
{
    let mut fallback: Option<usize> = None;
    for i in 0..visuals.len()
        invariant
            goes_on(visuals@, supported@, i as int),
            match fallback {
                Some(f) => f < i && visuals@[f as int] is Format && forall|k: int|
                    0 <= k < f ==> (#[trigger] visuals@[k]) is Unknown,
                None => forall|k: int| 0 <= k < i ==> (#[trigger] visuals@[k]) is Unknown,
            },
    {
        match visuals[i] {
            Visual::Unreadable => {
                return Err(ConfigError::Unreadable(i));
            },
            Visual::Unknown => {},
            Visual::Format(code) => {
                if list_contains(supported, code) {
                    return Ok(i);
                }
                if fallback.is_none() {
                    fallback = Some(i);
                }
            },
        }
    }
    match fallback {
        Some(i) => Ok(i),
        None => Err(ConfigError::NoneUsable),
    }
}

/// Chooses a configuration by the visual ids of all of them, `None` where one could not be read.
pub fn choose_egl_config(ids: &Vec<Option<i32>>, supported: &Vec<u32>) -> (choice: Result<
    usize,
    ConfigError,
>)
    ensures
        is_choice(ids@.map_values(|id: Option<i32>| visual(id)), supported@, choice),
{
    let mut visuals: Vec<Visual> = Vec::new();
    for i in 0..ids.len()
        invariant
            visuals@.len() == i,
            forall|k: int| 0 <= k < i ==> #[trigger] visuals@[k] == visual(ids@[k]),
    {
        visuals.push(read_visual(ids[i]));
    }
    assert(visuals@ =~= ids@.map_values(|id: Option<i32>| visual(id)));
    choose_visual(&visuals, supported)
}

/// The search finds one thing only.
pub proof fn law_one_choice(
    visuals: Seq<Visual>,
    supported: Seq<u32>,
    a: Result<usize, ConfigError>,
    b: Result<usize, ConfigError>,
)
    requires
        is_choice(visuals, supported, a),
        is_choice(visuals, supported, b),
    ensures
        a == b,
{
    let i = match a {
        Ok(i) => i as int,
        Err(ConfigError::Unreadable(i)) => i as int,
        Err(ConfigError::NoneUsable) => 0,
    };
    let j = match b {
        Ok(i) => i as int,
        Err(ConfigError::Unreadable(i)) => i as int,
        Err(ConfigError::NoneUsable) => 0,
    };
    assert(visuals[i] == visuals[i] && visuals[j] == visuals[j]);
}

/// A display that can show one of the configurations is never given another.
pub proof fn law_shown_formats_are_preferred(
    visuals: Seq<Visual>,
    supported: Seq<u32>,
    i: int,
    choice: usize,
)
    requires
        is_choice(visuals, supported, Ok(choice)),
        0 <= i < visuals.len(),
        is_shown(visuals[i], supported),
    ensures
        is_shown(visuals[choice as int], supported),
        choice <= i,
{
}

/// The list of formats names each format of the planes once, and no other.
pub proof fn law_formats_are_listed_once(list: Seq<u32>)
    ensures
        first_mentions(list).no_duplicates(),
        forall|format: u32| first_mentions(list).contains(format) <==> list.contains(format),
    decreases list.len(),
{
    if list.len() > 0 {
        let before = list.drop_last();
        let mentions = first_mentions(before);
        law_formats_are_listed_once(before);
        assert forall|format: u32|
            first_mentions(list).contains(format) <==> list.contains(format) by {
            assert(list =~= before.push(list.last()));
            assert(before.push(list.last()).contains(format) <==> before.contains(format) || format
                == list.last()) by {
                if before.contains(format) {
                    let k = choose|k: int| 0 <= k < before.len() && before[k] == format;
                    assert(list[k] == format);
                }
                if format == list.last() {
                    assert(list[list.len() - 1] == format);
                }
            }
            if mentions.contains(format) {
                let k = choose|k: int| 0 <= k < mentions.len() && mentions[k] == format;
                assert(first_mentions(list)[k] == format);
            }
            if format == list.last() && !mentions.contains(format) {
                assert(first_mentions(list)[mentions.len() as int] == format);
            }
        }
    }
}

/// The bytes of a code that was made of four bytes are these bytes.
proof fn lemma_code_bytes(a: u8, b: u8, c: u8, d: u8, code: u32)
    requires
        code == a + b * 0x100 + c * 0x1_0000 + d * 0x100_0000,
    ensures
        crate::protocol::le_bytes(code) == seq![a, b, c, d],
{
    let n = code as int;
    assert(n / 256 == b + c * 0x100 + d * 0x1_0000 && n % 256 == a);
    assert(n / 65536 == c + d * 0x100);
    assert(n / 16777216 == d);
    assert(crate::protocol::le_bytes(code) =~= seq![a, b, c, d]);
}

/// The text of a code that was made of four ASCII characters is these characters.
pub proof fn law_code_spells_its_characters(a: u8, b: u8, c: u8, d: u8, code: u32)
    requires
        a < 128,
        b < 128,
        c < 128,
        d < 128,
        code == a + b * 0x100 + c * 0x1_0000 + d * 0x100_0000,
    ensures
        vstd::utf8::valid_utf8(crate::protocol::le_bytes(code)),
        vstd::utf8::decode_utf8(crate::protocol::le_bytes(code)) == seq![
            a as char,
            b as char,
            c as char,
            d as char,
        ],
{
    let chars = seq![a as char, b as char, c as char, d as char];
    lemma_code_bytes(a, b, c, d, code);
    vstd::utf8::is_ascii_chars_encode_utf8(chars);
    assert(vstd::utf8::encode_utf8(chars) =~= seq![a, b, c, d]);
    vstd::utf8::encode_utf8_valid_utf8(chars);
    vstd::utf8::encode_utf8_decode_utf8(chars);
}

/// A format has 32 significant bits exactly if its code spells one of the orders of alpha, red,
/// green and blue, and else 24.
pub proof fn law_alpha_counts(format: u32)
    ensures
        depth_of(format) == 32 || depth_of(format) == 24,
        depth_of(format) == 32 <==> {
            let bytes = crate::protocol::le_bytes(format);
            ||| bytes == seq!['A' as u8, 'R' as u8, '2' as u8, '4' as u8]
            ||| bytes == seq!['A' as u8, 'B' as u8, '2' as u8, '4' as u8]
            ||| bytes == seq!['R' as u8, 'A' as u8, '2' as u8, '4' as u8]
            ||| bytes == seq!['B' as u8, 'A' as u8, '2' as u8, '4' as u8]
        },
{
    lemma_code_bytes(0x41, 0x52, 0x32, 0x34, 0x34325241);
    lemma_code_bytes(0x41, 0x42, 0x32, 0x34, 0x34324241);
    lemma_code_bytes(0x52, 0x41, 0x32, 0x34, 0x34324152);
    lemma_code_bytes(0x42, 0x41, 0x32, 0x34, 0x34324142);
    crate::protocol::law_length_round_trip(format);
    crate::protocol::law_length_round_trip(0x34325241);
    crate::protocol::law_length_round_trip(0x34324241);
    crate::protocol::law_length_round_trip(0x34324152);
    crate::protocol::law_length_round_trip(0x34324142);
}

/// A format is offered exactly if a plane that could be read, and that the CRTC can show, has it.
pub proof fn law_offered_formats(planes: Seq<Option<Plane>>, crtc: u32, format: u32)
    ensures
        first_mentions(formats_for(planes, crtc)).contains(format) <==> exists|i: int|
            0 <= i < planes.len() && has_format(#[trigger] planes[i], crtc, format),
{
    law_formats_are_listed_once(formats_for(planes, crtc));
    lemma_formats_for(planes, crtc, format);
}

/// Whether a plane could be read, can be shown by a CRTC, and has a format.
pub open spec fn has_format(plane: Option<Plane>, crtc: u32, format: u32) -> bool {
    plane is Some && plane->0.possible_crtcs@.contains(crtc) && plane->0.formats@.contains(format)
}

proof fn lemma_formats_for(planes: Seq<Option<Plane>>, crtc: u32, format: u32)
    ensures
        formats_for(planes, crtc).contains(format) <==> exists|i: int|
            0 <= i < planes.len() && has_format(#[trigger] planes[i], crtc, format),
    decreases planes.len(),
{
    if planes.len() > 0 {
        let rest = planes.drop_last();
        let before = formats_for(rest, crtc);
        lemma_formats_for(rest, crtc, format);
        let last = planes.len() - 1;
        if before.contains(format) {
            let i = choose|i: int|
                0 <= i < rest.len() && has_format(#[trigger] rest[i], crtc, format);
            assert(planes[i] == rest[i]);
            let k = choose|k: int| 0 <= k < before.len() && before[k] == format;
            assert(formats_for(planes, crtc)[k] == format);
        }
        if has_format(planes[last], crtc, format) {
            let formats = planes[last]->0.formats@;
            let k = choose|k: int| 0 <= k < formats.len() && formats[k] == format;
            assert(formats_for(planes, crtc)[before.len() + k] == format);
        }
        if formats_for(planes, crtc).contains(format) && !before.contains(format) {
            let all = formats_for(planes, crtc);
            let k = choose|k: int| 0 <= k < all.len() && all[k] == format;
            assert(k >= before.len()) by {
                if k < before.len() {
                    assert(before[k] == format);
                }
            }
            assert(planes[last]->0.formats@[k - before.len()] == format);
            assert(has_format(planes[last], crtc, format));
        }
        if exists|i: int| 0 <= i < planes.len() && has_format(#[trigger] planes[i], crtc, format) {
            let i = choose|i: int|
                0 <= i < planes.len() && has_format(#[trigger] planes[i], crtc, format);
            if i < last {
                assert(rest[i] == planes[i]);
            }
        }
    }
}

/// Formats are offered in the order in which the planes list them: what more planes and more
/// formats bring comes behind.
pub proof fn law_formats_keep_their_order(
    planes: Seq<Option<Plane>>,
    plane: Plane,
    crtc: u32,
    list: Seq<u32>,
    format: u32,
)
    ensures
        formats_for(planes.push(None), crtc) == formats_for(planes, crtc),
        formats_for(planes.push(Some(plane)), crtc) == if plane.possible_crtcs@.contains(crtc) {
            formats_for(planes, crtc) + plane.formats@
        } else {
            formats_for(planes, crtc)
        },
        first_mentions(list.push(format)) == if list.contains(format) {
            first_mentions(list)
        } else {
            first_mentions(list).push(format)
        },
{
    assert(planes.push(None).drop_last() =~= planes);
    assert(planes.push(Some(plane)).drop_last() =~= planes);
    assert(list.push(format).drop_last() =~= list);
    law_formats_are_listed_once(list);
}

/// A configuration that could not be read, one with an unknown format, and one with a known one are
/// told apart.
pub proof fn law_visuals(id: i32)
    ensures
        visual(None) is Unreadable,
        visual(Some(id)) == if is_fourcc(id as u32) {
            Visual::Format(id as u32)
        } else {
            Visual::Unknown
        },
{
}

/// Where all configurations could be read, one is chosen if any has a known format: the first that
/// the display can show, and if it shows none, the first with a known format.
pub proof fn law_first_fitting_configuration_is_chosen(
    visuals: Seq<Visual>,
    supported: Seq<u32>,
    choice: Result<usize, ConfigError>,
    i: int,
)
    requires
        is_choice(visuals, supported, choice),
        forall|k: int| 0 <= k < visuals.len() ==> !((#[trigger] visuals[k]) is Unreadable),
        0 <= i < visuals.len(),
        visuals[i] is Format,
        supported.contains(visuals[i]->Format_0) || forall|k: int|
            0 <= k < visuals.len() && (#[trigger] visuals[k]) is Format ==> !supported.contains(
                visuals[k]->Format_0,
            ),
        forall|k: int|
            0 <= k < i && (#[trigger] visuals[k]) is Format ==> supported.contains(
                visuals[i]->Format_0,
            ) && !supported.contains(visuals[k]->Format_0),
    ensures
        choice matches Ok(chosen) && chosen == i,
{
    assert(visuals[i] == visuals[i]);
    match choice {
        Ok(chosen) => {
            assert(visuals[chosen as int] is Format);
            if chosen < i {
                assert(supported.contains(visuals[i]->Format_0));
            }
        },
        Err(ConfigError::Unreadable(k)) => {
            assert(visuals[k as int] is Unreadable);
        },
        Err(ConfigError::NoneUsable) => {},
    }
}

/// The search fails for want of a known format only if there is none, and at a configuration that
/// could not be read only if the display shows none of those before it.
pub proof fn law_search_fails_for_a_reason(
    visuals: Seq<Visual>,
    supported: Seq<u32>,
    error: ConfigError,
    i: int,
)
    requires
        is_choice(visuals, supported, Err(error)),
        0 <= i < visuals.len(),
    ensures
        error is NoneUsable ==> visuals[i] is Unknown,
        error matches ConfigError::Unreadable(k) ==> {
            &&& k < visuals.len()
            &&& visuals[k as int] is Unreadable
            &&& i < k ==> !(visuals[i] is Unreadable) && (visuals[i] matches Visual::Format(code)
                ==> !supported.contains(code))
        },
{
    assert(visuals[i] == visuals[i]);
}

} // verus!
