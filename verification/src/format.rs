//! Pixel formats and buffer layouts: which of the formats and modifiers that the
//! GPU offers can be captured, and how DRM names them against PipeWire.
use vstd::prelude::*;

verus! {

/// A PipeWire video format. Those that have a DRM counterpart have a variant of
/// their own; any other is kept by its number.
#[derive(Debug, Clone, Copy, PartialEq, Eq, Structural)]
pub enum VideoFormat {
    Rgb,
    Bgr,
    Bgra,
    Abgr,
    Rgba,
    Argb,
    Bgrx,
    Xbgr,
    Xrgb,
    Rgbx,
    Abgr210Le,
    Xbgr210Le,
    Argb210Le,
    Xrgb210Le,
    Other(u32),
}

pub const FOURCC_RGB888: u32 = 0x34324752;

pub const FOURCC_BGR888: u32 = 0x34324742;

pub const FOURCC_BGRA8888: u32 = 0x34324142;

pub const FOURCC_ABGR8888: u32 = 0x34324241;

pub const FOURCC_RGBA8888: u32 = 0x34324152;

pub const FOURCC_ARGB8888: u32 = 0x34325241;

pub const FOURCC_BGRX8888: u32 = 0x34325842;

pub const FOURCC_XBGR8888: u32 = 0x34324258;

pub const FOURCC_XRGB8888: u32 = 0x34325258;

pub const FOURCC_RGBX8888: u32 = 0x34325852;

pub const FOURCC_ABGR2101010: u32 = 0x30334241;

pub const FOURCC_XBGR2101010: u32 = 0x30334258;

pub const FOURCC_ARGB2101010: u32 = 0x30335241;

pub const FOURCC_XRGB2101010: u32 = 0x30335258;

/// The PipeWire format of a DRM fourcc. DRM names the components from the most
/// significant bit down, PipeWire in memory order, so the letters are reversed;
/// both name the packed ten-bit formats alike.
pub open spec fn spa_format_of(fourcc: u32) -> Option<VideoFormat> {
    if fourcc == FOURCC_RGB888 {
        Some(VideoFormat::Bgr)
    } else if fourcc == FOURCC_BGR888 {
        Some(VideoFormat::Rgb)
    } else if fourcc == FOURCC_BGRA8888 {
        Some(VideoFormat::Argb)
    } else if fourcc == FOURCC_ABGR8888 {
        Some(VideoFormat::Rgba)
    } else if fourcc == FOURCC_RGBA8888 {
        Some(VideoFormat::Abgr)
    } else if fourcc == FOURCC_ARGB8888 {
        Some(VideoFormat::Bgra)
    } else if fourcc == FOURCC_BGRX8888 {
        Some(VideoFormat::Xrgb)
    } else if fourcc == FOURCC_XBGR8888 {
        Some(VideoFormat::Rgbx)
    } else if fourcc == FOURCC_XRGB8888 {
        Some(VideoFormat::Bgrx)
    } else if fourcc == FOURCC_RGBX8888 {
        Some(VideoFormat::Xbgr)
    } else if fourcc == FOURCC_ABGR2101010 {
        Some(VideoFormat::Abgr210Le)
    } else if fourcc == FOURCC_XBGR2101010 {
        Some(VideoFormat::Xbgr210Le)
    } else if fourcc == FOURCC_ARGB2101010 {
        Some(VideoFormat::Argb210Le)
    } else if fourcc == FOURCC_XRGB2101010 {
        Some(VideoFormat::Xrgb210Le)
    } else {
        None
    }
}

/// The DRM fourcc of a PipeWire format.
pub open spec fn fourcc_of(format: VideoFormat) -> Option<u32> {
    match format {
        VideoFormat::Rgb => Some(FOURCC_BGR888),
        VideoFormat::Bgr => Some(FOURCC_RGB888),
        VideoFormat::Bgra => Some(FOURCC_ARGB8888),
        VideoFormat::Abgr => Some(FOURCC_RGBA8888),
        VideoFormat::Rgba => Some(FOURCC_ABGR8888),
        VideoFormat::Argb => Some(FOURCC_BGRA8888),
        VideoFormat::Bgrx => Some(FOURCC_XRGB8888),
        VideoFormat::Xbgr => Some(FOURCC_RGBX8888),
        VideoFormat::Xrgb => Some(FOURCC_BGRX8888),
        VideoFormat::Rgbx => Some(FOURCC_XBGR8888),
        VideoFormat::Abgr210Le => Some(FOURCC_ABGR2101010),
        VideoFormat::Xbgr210Le => Some(FOURCC_XBGR2101010),
        VideoFormat::Argb210Le => Some(FOURCC_ARGB2101010),
        VideoFormat::Xrgb210Le => Some(FOURCC_XRGB2101010),
        VideoFormat::Other(_) => None,
    }
}

/// The two translations undo each other, wherever either is defined.
pub proof fn format_translations_are_inverse(fourcc: u32, format: VideoFormat)
    ensures
        spa_format_of(fourcc) == Some(format) <==> fourcc_of(format) == Some(fourcc),
        fourcc_of(format) is None <==> format is Other,
{
}

pub fn fourcc_to_spa_format(fourcc: u32) -> (format: Option<VideoFormat>)
    ensures
        format == spa_format_of(fourcc),
{
    match fourcc {
        FOURCC_RGB888 => Some(VideoFormat::Bgr),
        FOURCC_BGR888 => Some(VideoFormat::Rgb),
        FOURCC_BGRA8888 => Some(VideoFormat::Argb),
        FOURCC_ABGR8888 => Some(VideoFormat::Rgba),
        FOURCC_RGBA8888 => Some(VideoFormat::Abgr),
        FOURCC_ARGB8888 => Some(VideoFormat::Bgra),
        FOURCC_BGRX8888 => Some(VideoFormat::Xrgb),
        FOURCC_XBGR8888 => Some(VideoFormat::Rgbx),
        FOURCC_XRGB8888 => Some(VideoFormat::Bgrx),
        FOURCC_RGBX8888 => Some(VideoFormat::Xbgr),
        FOURCC_ABGR2101010 => Some(VideoFormat::Abgr210Le),
        FOURCC_XBGR2101010 => Some(VideoFormat::Xbgr210Le),
        FOURCC_ARGB2101010 => Some(VideoFormat::Argb210Le),
        FOURCC_XRGB2101010 => Some(VideoFormat::Xrgb210Le),
        _ => None,
    }
}

/// Tells whether a format has a DRM counterpart.
pub fn has_fourcc(format: VideoFormat) -> (known: bool)
    ensures
        known == (fourcc_of(format) is Some),
{
    !matches!(format, VideoFormat::Other(_))
}

pub fn spa_format_to_fourcc(format: VideoFormat) -> (fourcc: u32)
    requires
        fourcc_of(format) is Some,
    ensures
        fourcc_of(format) == Some(fourcc),
{
    match format {
        VideoFormat::Rgb => FOURCC_BGR888,
        VideoFormat::Bgr => FOURCC_RGB888,
        VideoFormat::Bgra => FOURCC_ARGB8888,
        VideoFormat::Abgr => FOURCC_RGBA8888,
        VideoFormat::Rgba => FOURCC_ABGR8888,
        VideoFormat::Argb => FOURCC_BGRA8888,
        VideoFormat::Bgrx => FOURCC_XRGB8888,
        VideoFormat::Xbgr => FOURCC_RGBX8888,
        VideoFormat::Xrgb => FOURCC_BGRX8888,
        VideoFormat::Rgbx => FOURCC_XBGR8888,
        VideoFormat::Abgr210Le => FOURCC_ABGR2101010,
        VideoFormat::Xbgr210Le => FOURCC_XBGR2101010,
        VideoFormat::Argb210Le => FOURCC_ARGB2101010,
        _ => FOURCC_XRGB2101010,
    }
}

/// A code is one that `DrmFourcc` has a variant for.
pub uninterp spec fn fourcc_recognised(code: u32) -> bool;

/// `DrmFourcc::try_from`, the variant read back as its code: it succeeds on the
/// codes that the enum has a variant for, each variant casts to its own code, and
/// the codes with a PipeWire counterpart are among them.
#[verifier::external_body]
fn drm_fourcc(code: u32) -> (fourcc: Option<u32>)
    ensures
        fourcc == (if fourcc_recognised(code) {
            Some(code)
        } else {
            None
        }),
        spa_format_of(code) is Some ==> fourcc is Some,
{
    match drm_fourcc::DrmFourcc::try_from(code) {
        Ok(fourcc) => Some(fourcc as u32),
        Err(_) => None,
    }
}

/// The modifier that stands for no modifier at all.
pub const MODIFIER_INVALID: u64 = 0x00ff_ffff_ffff_ffff;

/// `u64::from(DrmModifier::Invalid)`: the number of the invalid modifier.
#[verifier::external_body]
pub(crate) fn invalid_modifier() -> (m: u64)
    ensures
        m == MODIFIER_INVALID,
{
    u64::from(drm_fourcc::DrmModifier::Invalid)
}

pub const MODIFIER_VENDOR_AMD: u64 = 0x2;

pub const AMD_FMT_MOD_TILE_VER_GFX10: u64 = 0x2;

/// The vendor of a modifier: its top eight bits.
pub open spec fn modifier_vendor(modifier: u64) -> u64 {
    modifier >> 56
}

/// The tile version of an AMD modifier: its low eight bits.
pub open spec fn amd_tile_version(modifier: u64) -> u64 {
    modifier & 0xff
}

/// An AMD modifier turns on delta color compression.
pub open spec fn amd_dcc(modifier: u64) -> bool {
    (modifier >> 13) & 1 == 1
}

/// An AMD modifier compresses independent blocks of 64 bytes.
pub open spec fn amd_dcc_independent_64b(modifier: u64) -> bool {
    (modifier >> 16) & 1 == 1
}

/// Buffers of this size can be allocated with this modifier. Only compressed AMD
/// layouts since GFX10 are restricted, when they do not compress 64-byte blocks
/// independently: they cannot exceed 2560 pixels either way.
pub open spec fn modifier_fits(modifier: u64, width: u16, height: u16) -> bool {
    ||| modifier_vendor(modifier) != MODIFIER_VENDOR_AMD
    ||| width <= 2560 && height <= 2560
    ||| amd_tile_version(modifier) < AMD_FMT_MOD_TILE_VER_GFX10
    ||| !amd_dcc(modifier)
    ||| amd_dcc_independent_64b(modifier)
}

/// A modifier read by its vendor alone.
pub struct Modifier(pub u64);

impl Modifier {
    pub fn vendor(&self) -> (v: u64)
        ensures
            v == modifier_vendor(self.0),
    {
        self.0 >> 56
    }
}

/// A modifier read as AMD lays it out.
pub struct AmdModifier(pub u64);

impl AmdModifier {
    pub fn tile_version(&self) -> (v: u64)
        ensures
            v == amd_tile_version(self.0),
    {
        self.0 & 0xff
    }

    pub fn dcc(&self) -> (on: bool)
        ensures
            on == amd_dcc(self.0),
    {
        (self.0 >> 13) & 1 == 1
    }

    pub fn dcc_independent_64b(&self) -> (on: bool)
        ensures
            on == amd_dcc_independent_64b(self.0),
    {
        (self.0 >> 16) & 1 == 1
    }
}

/// Tells whether buffers of this size can be allocated with this modifier.
pub fn extra_modifier_check(modifier: u64, width: u16, height: u16) -> (fits: bool)
    ensures
        fits == modifier_fits(modifier, width, height),
{
    let modifier = Modifier(modifier);
    if modifier.vendor() != MODIFIER_VENDOR_AMD {
        return true;
    }
    let amd_modifier = AmdModifier(modifier.0);
    if width <= 2560 && height <= 2560 {
        // Allocating 2560x2560 buffers is always possible.
        return true;
    }
    if amd_modifier.tile_version() < AMD_FMT_MOD_TILE_VER_GFX10 {
        // GPUs earlier than GFX10 have no size restriction.
        return true;
    }
    !amd_modifier.dcc() || amd_modifier.dcc_independent_64b()
}

/// A modifier whose buffers fit at one size fits at every smaller size.
pub proof fn modifier_fits_smaller(modifier: u64, width: u16, height: u16, w: u16, h: u16)
    requires
        modifier_fits(modifier, width, height),
        w <= width,
        h <= height,
    ensures
        modifier_fits(modifier, w, h),
{
}

/// The modifiers that are restricted, read off the number: those of vendor 2 with a
/// tile version of 2 or later, with bit 13 set and bit 16 clear, and only on screens
/// that exceed 2560 pixels one way or the other. Every other modifier fits every screen.
pub proof fn restricted_modifiers(modifier: u64, width: u16, height: u16)
    ensures
        modifier_fits(modifier, width, height) <==> !((width > 2560 || height > 2560) && modifier
            / 0x100_0000_0000_0000 == 2 && modifier % 0x100 >= 2 && (modifier / 0x2000) % 2 == 1 && (
        modifier / 0x1_0000) % 2 == 0),
{
    assert(modifier >> 56 == modifier / 0x100_0000_0000_0000 && modifier & 0xff == modifier % 0x100
        && (modifier >> 13) & 1 == (modifier / 0x2000) % 2 && (modifier >> 16) & 1 == (modifier
        / 0x1_0000) % 2) by (bit_vector);
}

/// A modifier as EGL reports it, with the flag that is nonzero where images of
/// that layout can only be sampled and not rendered to.
#[derive(Debug, Clone, Copy, PartialEq, Eq, Structural)]
pub struct EglModifier {
    pub modifier: u64,
    pub external_only: u32,
}

/// The modifiers that EGL lists, each with the flag at the same place of the other
/// list. What has no counterpart is left out.
pub fn pair_modifiers(modifiers: &Vec<u64>, external_only: &Vec<u32>) -> (list: Vec<EglModifier>)
    ensures
        list@.len() == (if modifiers@.len() <= external_only@.len() {
            modifiers@.len()
        } else {
            external_only@.len()
        }),
        forall|i: int|
            0 <= i < list@.len() ==> #[trigger] list@[i] == (EglModifier {
                modifier: modifiers@[i],
                external_only: external_only@[i],
            }),
{
    let mut list: Vec<EglModifier> = Vec::new();
    let mut i: usize = 0;
    while i < modifiers.len() && i < external_only.len()
        invariant
            i <= modifiers@.len(),
            i <= external_only@.len(),
            list@.len() == i,
            forall|j: int|
                0 <= j < i ==> #[trigger] list@[j] == (EglModifier {
                    modifier: modifiers@[j],
                    external_only: external_only@[j],
                }),
        decreases modifiers@.len() - i,
    {
        list.push(EglModifier { modifier: modifiers[i], external_only: external_only[i] });
        i = i + 1;
    }
    list
}

/// A modifier that can be captured into at this screen size.
pub open spec fn usable(m: EglModifier, width: u16, height: u16) -> bool {
    m.external_only == 0 && modifier_fits(m.modifier, width, height)
}

/// The usable modifiers of a list, in order.
pub open spec fn usable_modifiers(all: Seq<EglModifier>, width: u16, height: u16) -> Seq<u64> {
    all.filter(|m: EglModifier| usable(m, width, height)).map_values(|m: EglModifier| m.modifier)
}

pub fn select_modifiers(all: &Vec<EglModifier>, width: u16, height: u16) -> (kept: Vec<u64>)
    ensures
        kept@ == usable_modifiers(all@, width, height),
{
    let mut kept: Vec<u64> = Vec::new();
    let ghost keep = |m: EglModifier| usable(m, width, height);
    let ghost number = |m: EglModifier| m.modifier;
    proof {
        reveal(Seq::filter);
        assert(all@.take(0).filter(keep).map_values(number) =~= kept@);
    }
    for i in 0..all.len()
        invariant
            keep == (|m: EglModifier| usable(m, width, height)),
            number == (|m: EglModifier| m.modifier),
            kept@ == all@.take(i as int).filter(keep).map_values(number),
    {
        let m = all[i];
        proof {
            reveal(Seq::filter);
            assert(all@.take(i + 1).drop_last() =~= all@.take(i as int));
            assert(all@.take(i + 1).last() == m);
        }
        if m.external_only == 0 && extra_modifier_check(m.modifier, width, height) {
            kept.push(m.modifier);
        }
        assert(kept@ =~= all@.take(i + 1).filter(keep).map_values(number));
    }
    assert(all@.take(all@.len() as int) =~= all@);
    kept
}

/// Every usable modifier was reported, is renderable and fits the screen.
pub proof fn usable_modifiers_are_usable(all: Seq<EglModifier>, width: u16, height: u16, i: int)
    requires
        0 <= i < usable_modifiers(all, width, height).len(),
    ensures
        modifier_fits(usable_modifiers(all, width, height)[i], width, height),
        exists|j: int|
            0 <= j < all.len() && #[trigger] all[j].external_only == 0 && all[j].modifier
                == usable_modifiers(all, width, height)[i],
{
    let keep = |m: EglModifier| usable(m, width, height);
    let kept = all.filter(keep);
    broadcast use vstd::seq_lib::group_filter_ensures;

    assert(keep(kept[i]));
    all.lemma_filter_contains_rev(keep, kept[i]);
}

/// No usable modifier is left out, moved or repeated: the usable modifiers are those at
/// the positions `at` of the list, in order, and a position is among these exactly where
/// the modifier can be rendered to and fits the screen.
pub proof fn usable_modifiers_are_complete(all: Seq<EglModifier>, width: u16, height: u16) -> (at:
    Seq<int>)
    ensures
        at.len() == usable_modifiers(all, width, height).len(),
        forall|j: int, k: int| 0 <= j < k < at.len() ==> at[j] < at[k],
        forall|j: int|
            0 <= j < at.len() ==> 0 <= #[trigger] at[j] < all.len() && usable_modifiers(
                all,
                width,
                height,
            )[j] == all[at[j]].modifier,
        forall|i: int|
            0 <= i < all.len() ==> (at.contains(i) <==> (#[trigger] all[i]).external_only == 0
                && modifier_fits(all[i].modifier, width, height)),
    decreases all.len(),
{
    reveal(Seq::filter);
    if all.len() == 0 {
        Seq::empty()
    } else {
        let before = all.drop_last();
        let n = all.len() - 1;
        let rest = usable_modifiers_are_complete(before, width, height);
        let last = all.last();
        let at = if last.external_only == 0 && modifier_fits(last.modifier, width, height) {
            rest.push(n)
        } else {
            rest
        };
        assert forall|i: int| 0 <= i < all.len() implies (at.contains(i) <==> (
        #[trigger] all[i]).external_only == 0 && modifier_fits(all[i].modifier, width, height)) by {
            if i < n {
                assert(before[i] == all[i]);
                if rest.contains(i) {
                    let k = choose|k: int| 0 <= k < rest.len() && rest[k] == i;
                    assert(at[k] == i);
                }
                if at.contains(i) {
                    let k = choose|k: int| 0 <= k < at.len() && at[k] == i;
                    assert(rest[k] == i);
                }
            } else {
                if at.len() > rest.len() {
                    assert(at[rest.len() as int] == n);
                }
                if at.contains(n) && at.len() == rest.len() {
                    let k = choose|k: int| 0 <= k < at.len() && at[k] == n;
                    assert(0 <= rest[k] < before.len());
                }
            }
        }
        assert forall|j: int| 0 <= j < at.len() implies 0 <= #[trigger] at[j] < all.len()
            && usable_modifiers(all, width, height)[j] == all[at[j]].modifier by {
            if j < rest.len() {
                assert(0 <= rest[j] < before.len());
            }
        }
        at
    }
}

/// The codes that can be captured and that EGL lists, each once.
pub open spec fn capturable(formats: Seq<i32>, code: u32) -> bool {
    &&& spa_format_of(code) is Some
    &&& exists|i: int| 0 <= i < formats.len() && #[trigger] (formats[i] as u32) == code
}

fn has_code(codes: &Vec<u32>, code: u32) -> (found: bool)
    ensures
        found == codes@.contains(code),
{
    for i in 0..codes.len()
        invariant
            forall|j: int| 0 <= j < i ==> codes@[j] != code,
    {
        if codes[i] == code {
            assert(codes@[i as int] == code);
            return true;
        }
    }
    false
}

/// The formats to ask EGL for modifiers of: those it lists that have a PipeWire
/// counterpart, without repetition.
pub fn queryable_formats(formats: &Vec<i32>) -> (codes: Vec<u32>)
    ensures
        codes@.no_duplicates(),
        forall|code: u32| codes@.contains(code) <==> capturable(formats@, code),
{
    let mut codes: Vec<u32> = Vec::new();
    for i in 0..formats.len()
        invariant
            codes@.no_duplicates(),
            forall|code: u32| codes@.contains(code) <==> capturable(formats@.take(i as int), code),
    {
        let code: u32 = formats[i] as u32;
        let ghost before = codes@;
        let ghost seen = formats@.take(i as int);
        let ghost now = formats@.take(i + 1);
        let mut add = false;
        if let Some(fourcc) = drm_fourcc(code) {
            if fourcc_to_spa_format(fourcc).is_some() && !has_code(&codes, fourcc) {
                codes.push(fourcc);
                add = true;
            }
        }
        proof {
            assert(now[i as int] as u32 == code);
            assert forall|c: u32| codes@.contains(c) <==> capturable(now, c) by {
                if codes@.contains(c) {
                    let k = choose|k: int| 0 <= k < codes@.len() && codes@[k] == c;
                    if k < before.len() {
                        assert(before[k] == c);
                        assert(before.contains(c));
                        let j = choose|j: int|
                            0 <= j < seen.len() && #[trigger] (seen[j] as u32) == c;
                        assert(now[j] as u32 == c);
                    }
                }
                if capturable(now, c) {
                    let j = choose|j: int| 0 <= j < now.len() && #[trigger] (now[j] as u32) == c;
                    if j < i {
                        assert(seen[j] as u32 == c);
                        assert(before.contains(c));
                        let k = choose|k: int| 0 <= k < before.len() && before[k] == c;
                        assert(codes@[k] == c);
                    } else if add {
                        assert(codes@[codes@.len() - 1] == c);
                    } else {
                        assert(before.contains(c));
                    }
                }
            }
        }
    }
    assert(formats@.take(formats@.len() as int) =~= formats@);
    codes
}

/// Whatever EGL lists is asked for exactly where it has a PipeWire counterpart, and
/// nothing else is asked for.
pub proof fn listed_formats_are_queried(formats: Seq<i32>, i: int, code: u32)
    requires
        0 <= i < formats.len(),
    ensures
        capturable(formats, formats[i] as u32) <==> spa_format_of(formats[i] as u32) is Some,
        capturable(formats, code) ==> exists|j: int|
            0 <= j < formats.len() && #[trigger] (formats[j] as u32) == code,
{
    assert(formats[i] as u32 == formats[i] as u32);
}

/// One format with the modifiers that EGL reports for it.
#[derive(Debug)]
pub struct OfferedFormat {
    pub fourcc: u32,
    pub modifiers: Vec<EglModifier>,
}

/// One format with the modifiers that are offered to PipeWire.
#[derive(Debug)]
pub struct FormatModifiers {
    pub format: VideoFormat,
    pub modifiers: Vec<u64>,
}

impl View for FormatModifiers {
    type V = (VideoFormat, Seq<u64>);

    open spec fn view(&self) -> (VideoFormat, Seq<u64>) {
        (self.format, self.modifiers@)
    }
}

/// What of one format can be offered: nothing, where it has no PipeWire
/// counterpart or no modifier of it is usable.
pub open spec fn offer_of(o: OfferedFormat, width: u16, height: u16) -> Option<
    (VideoFormat, Seq<u64>),
> {
    let kept = usable_modifiers(o.modifiers@, width, height);
    match spa_format_of(o.fourcc) {
        Some(format) if kept.len() > 0 => Some((format, kept)),
        _ => None,
    }
}

/// The formats that can be offered, in order.
pub open spec fn offers(all: Seq<OfferedFormat>, width: u16, height: u16) -> Seq<
    (VideoFormat, Seq<u64>),
>
    decreases all.len(),
{
    if all.len() == 0 {
        Seq::empty()
    } else {
        let before = offers(all.drop_last(), width, height);
        match offer_of(all.last(), width, height) {
            Some(o) => before.push(o),
            None => before,
        }
    }
}

pub open spec fn format_views(list: Seq<FormatModifiers>) -> Seq<(VideoFormat, Seq<u64>)> {
    list.map_values(|f: FormatModifiers| f@)
}

/// A list of formats stands for the list of their pixels and modifiers.
pub proof fn format_lists_stand_for_themselves(list: Seq<FormatModifiers>, i: int)
    requires
        0 <= i < list.len(),
    ensures
        format_views(list).len() == list.len(),
        format_views(list)[i].0 == list[i].format,
        format_views(list)[i].1 == list[i].modifiers@,
{
}

/// The formats to offer to PipeWire at this screen size, or `None` where there is
/// none.
pub fn collect_formats(all: &Vec<OfferedFormat>, width: u16, height: u16) -> (r: Option<
    Vec<FormatModifiers>,
>)
    ensures
        r is None <==> offers(all@, width, height).len() == 0,
        r matches Some(list) ==> format_views(list@) == offers(all@, width, height),
{
    let mut list: Vec<FormatModifiers> = Vec::new();
    assert(format_views(list@) =~= offers(all@.take(0), width, height));
    for i in 0..all.len()
        invariant
            format_views(list@) == offers(all@.take(i as int), width, height),
    {
        let ghost before = list@;
        assert(all@.take(i + 1).drop_last() =~= all@.take(i as int));
        if let Some(format) = fourcc_to_spa_format(all[i].fourcc) {
            let modifiers = select_modifiers(&all[i].modifiers, width, height);
            if modifiers.len() > 0 {
                list.push(FormatModifiers { format, modifiers });
                assert(format_views(list@) =~= format_views(before).push(list@.last()@));
            }
        }
    }
    assert(all@.take(all@.len() as int) =~= all@);
    if list.len() == 0 {
        None
    } else {
        Some(list)
    }
}

/// Whatever is offered can be allocated: its format has a DRM counterpart, it has
/// at least one modifier, and every modifier fits the screen.
pub proof fn offers_are_allocatable(all: Seq<OfferedFormat>, width: u16, height: u16, i: int)
    requires
        0 <= i < offers(all, width, height).len(),
    ensures
        fourcc_of(offers(all, width, height)[i].0) is Some,
        offers(all, width, height)[i].1.len() > 0,
        forall|j: int|
            0 <= j < offers(all, width, height)[i].1.len() ==> modifier_fits(
                #[trigger] offers(all, width, height)[i].1[j],
                width,
                height,
            ),
    decreases all.len(),
{
    let before = offers(all.drop_last(), width, height);
    if i < before.len() {
        offers_are_allocatable(all.drop_last(), width, height, i);
    } else {
        let last = all.last();
        let kept = usable_modifiers(last.modifiers@, width, height);
        assert forall|j: int| 0 <= j < kept.len() implies modifier_fits(
            #[trigger] kept[j],
            width,
            height,
        ) by {
            usable_modifiers_are_usable(last.modifiers@, width, height, j);
        }
    }
}

/// No format is left out, moved or repeated: the offers are made from the formats at
/// the positions `at` of the list, in order, each with its own PipeWire format and all
/// of its usable modifiers, and a position is among these exactly where the format has a
/// PipeWire counterpart and some modifier of it can be rendered to and fits the screen.
pub proof fn offers_are_complete(all: Seq<OfferedFormat>, width: u16, height: u16) -> (at: Seq<
    int,
>)
    ensures
        at.len() == offers(all, width, height).len(),
        forall|j: int, k: int| 0 <= j < k < at.len() ==> at[j] < at[k],
        forall|j: int|
            0 <= j < at.len() ==> 0 <= #[trigger] at[j] < all.len() && spa_format_of(
                all[at[j]].fourcc,
            ) == Some(offers(all, width, height)[j].0) && offers(all, width, height)[j].1
                == usable_modifiers(all[at[j]].modifiers@, width, height),
        forall|i: int|
            0 <= i < all.len() ==> (at.contains(i) <==> spa_format_of((#[trigger] all[i]).fourcc)
                is Some && exists|m: int|
                0 <= m < all[i].modifiers@.len() && (
                #[trigger] all[i].modifiers@[m]).external_only == 0 && modifier_fits(
                    all[i].modifiers@[m].modifier,
                    width,
                    height,
                )),
    decreases all.len(),
{
    if all.len() == 0 {
        Seq::empty()
    } else {
        let before = all.drop_last();
        let n = all.len() - 1;
        let rest = offers_are_complete(before, width, height);
        let last = all.last();
        let kept = usable_modifiers_are_complete(last.modifiers@, width, height);
        let some = exists|m: int|
            0 <= m < last.modifiers@.len() && (#[trigger] last.modifiers@[m]).external_only == 0
                && modifier_fits(last.modifiers@[m].modifier, width, height);
        if kept.len() > 0 {
            assert(kept.contains(kept[0]));
            assert(last.modifiers@[kept[0]].external_only == 0);
        }
        if some {
            let m = choose|m: int|
                0 <= m < last.modifiers@.len() && (#[trigger] last.modifiers@[m]).external_only
                    == 0 && modifier_fits(last.modifiers@[m].modifier, width, height);
            assert(kept.contains(m));
        }
        assert(some <==> kept.len() > 0);
        let at = if spa_format_of(last.fourcc) is Some && some {
            rest.push(n)
        } else {
            rest
        };
        assert forall|i: int| 0 <= i < all.len() implies (at.contains(i) <==> spa_format_of(
            (#[trigger] all[i]).fourcc,
        ) is Some && exists|m: int|
            0 <= m < all[i].modifiers@.len() && (#[trigger] all[i].modifiers@[m]).external_only == 0
                && modifier_fits(all[i].modifiers@[m].modifier, width, height)) by {
            if i < n {
                assert(before[i] == all[i]);
                if rest.contains(i) {
                    let k = choose|k: int| 0 <= k < rest.len() && rest[k] == i;
                    assert(at[k] == i);
                }
                if at.contains(i) {
                    let k = choose|k: int| 0 <= k < at.len() && at[k] == i;
                    assert(rest[k] == i);
                }
            } else {
                if at.len() > rest.len() {
                    assert(at[rest.len() as int] == n);
                }
                if at.contains(n) && at.len() == rest.len() {
                    let k = choose|k: int| 0 <= k < at.len() && at[k] == n;
                    assert(0 <= rest[k] < before.len());
                }
            }
        }
        assert forall|j: int| 0 <= j < at.len() implies 0 <= #[trigger] at[j] < all.len()
            && spa_format_of(all[at[j]].fourcc) == Some(offers(all, width, height)[j].0) && offers(
            all,
            width,
            height,
        )[j].1 == usable_modifiers(all[at[j]].modifiers@, width, height) by {
            if j < rest.len() {
                assert(0 <= rest[j] < before.len());
            }
        }
        at
    }
}

} // verus!
