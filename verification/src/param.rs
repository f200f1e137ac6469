//! Format negotiation with a PipeWire consumer: how a format is written as a list
//! of properties and read back, and what is answered when the consumer picks one.
//!
//! Types with a type parameter are used twice: with a `Vec` by the executable
//! code, and with a `Seq` as the mathematical value it stands for.
use crate::format::{
    has_fourcc, invalid_modifier, spa_format_to_fourcc, VideoFormat, MODIFIER_INVALID,
};
use crate::stream::stream_error_text;
use vstd::prelude::*;

verus! {

/// The properties of a format object.
#[derive(Debug, Clone, Copy, PartialEq, Eq, Structural)]
pub enum FormatKey {
    MediaType,
    MediaSubtype,
    VideoFormat,
    VideoModifier,
    VideoSize,
    VideoFramerate,
    Unknown,
}

/// A choice between 64-bit numbers.
#[derive(Debug)]
#[verifier::ext_equal]
pub enum LongChoice<L> {
    Single(i64),
    Enum { default: i64, alternatives: L },
    /// A range, a stepped range or a set of flags.
    Other,
}

/// The value of a property.
#[derive(Debug)]
#[verifier::ext_equal]
pub enum PodValue<L> {
    /// The media type of video.
    MediaVideo,
    /// The media subtype of raw frames.
    MediaRaw,
    /// An id, read as a video format.
    Format(VideoFormat),
    /// A choice of ids: the format, where the choice is of one value only.
    FormatChoice(Option<VideoFormat>),
    Size { width: u32, height: u32 },
    /// A choice of rectangles: the size, where the choice is of one value only.
    SizeChoice(Option<(u32, u32)>),
    Long(i64),
    LongChoice(LongChoice<L>),
    Fraction { num: u32, denom: u32 },
    Other,
}

/// The flags of a property, as far as the negotiation knows them.
#[derive(Debug, Clone, Copy, PartialEq, Eq, Structural)]
pub struct PropertyFlags {
    pub mandatory: bool,
    pub dont_fixate: bool,
}

#[derive(Debug)]
#[verifier::ext_equal]
pub struct Property<L> {
    pub key: FormatKey,
    pub value: PodValue<L>,
    pub flags: PropertyFlags,
}

impl View for LongChoice<Vec<i64>> {
    type V = LongChoice<Seq<i64>>;

    open spec fn view(&self) -> LongChoice<Seq<i64>> {
        match self {
            LongChoice::Single(m) => LongChoice::Single(*m),
            LongChoice::Enum { default, alternatives } => LongChoice::Enum {
                default: *default,
                alternatives: alternatives@,
            },
            LongChoice::Other => LongChoice::Other,
        }
    }
}

impl View for PodValue<Vec<i64>> {
    type V = PodValue<Seq<i64>>;

    open spec fn view(&self) -> PodValue<Seq<i64>> {
        match self {
            PodValue::MediaVideo => PodValue::MediaVideo,
            PodValue::MediaRaw => PodValue::MediaRaw,
            PodValue::Format(f) => PodValue::Format(*f),
            PodValue::FormatChoice(f) => PodValue::FormatChoice(*f),
            PodValue::Size { width, height } => PodValue::Size { width: *width, height: *height },
            PodValue::SizeChoice(s) => PodValue::SizeChoice(*s),
            PodValue::Long(m) => PodValue::Long(*m),
            PodValue::LongChoice(c) => PodValue::LongChoice(c@),
            PodValue::Fraction { num, denom } => PodValue::Fraction { num: *num, denom: *denom },
            PodValue::Other => PodValue::Other,
        }
    }
}

impl View for Property<Vec<i64>> {
    type V = Property<Seq<i64>>;

    open spec fn view(&self) -> Property<Seq<i64>> {
        Property { key: self.key, value: self.value@, flags: self.flags }
    }
}

pub open spec fn property_views(props: Seq<Property<Vec<i64>>>) -> Seq<Property<Seq<i64>>> {
    props.map_values(|p: Property<Vec<i64>>| p@)
}

/// Why a list of properties is no format.
#[derive(Debug, Clone, Copy, PartialEq, Eq, Structural)]
pub enum DeserializeError {
    InvalidType,
    InvalidChoiceType,
}

/// A video format as it is negotiated. `M` holds the modifiers.
#[derive(Debug)]
#[verifier::ext_equal]
pub struct ParamFormat<M> {
    pub format: Option<VideoFormat>,
    pub modifiers: M,
    pub width: u32,
    pub height: u32,
    pub fixate: bool,
}

impl View for ParamFormat<Vec<u64>> {
    type V = ParamFormat<Seq<u64>>;

    open spec fn view(&self) -> ParamFormat<Seq<u64>> {
        ParamFormat {
            format: self.format,
            modifiers: self.modifiers@,
            width: self.width,
            height: self.height,
            fixate: self.fixate,
        }
    }
}

/// The mathematical value of a format is the format itself, field by field.
pub proof fn formats_stand_for_themselves(f: ParamFormat<Vec<u64>>)
    ensures
        f@.format == f.format,
        f@.modifiers == f.modifiers@,
        f@.width == f.width,
        f@.height == f.height,
        f@.fixate == f.fixate,
{
}

/// The mathematical value of a property is the property itself, with a list for a list.
pub proof fn properties_stand_for_themselves(p: Property<Vec<i64>>)
    ensures
        p@.key == p.key,
        p@.flags == p.flags,
        p.value matches PodValue::Format(f) ==> p@.value == PodValue::<Seq<i64>>::Format(f),
        p.value matches PodValue::FormatChoice(f) ==> p@.value == PodValue::<
            Seq<i64>,
        >::FormatChoice(f),
        p.value matches PodValue::Size { width, height } ==> p@.value == (PodValue::<
            Seq<i64>,
        >::Size { width, height }),
        p.value matches PodValue::SizeChoice(s) ==> p@.value == PodValue::<Seq<i64>>::SizeChoice(s),
        p.value matches PodValue::Long(m) ==> p@.value == PodValue::<Seq<i64>>::Long(m),
        p.value matches PodValue::LongChoice(LongChoice::Single(m)) ==> p@.value == PodValue::<
            Seq<i64>,
        >::LongChoice(LongChoice::Single(m)),
        p.value matches PodValue::LongChoice(LongChoice::Enum { default, alternatives }) ==> p@.value
            == PodValue::<Seq<i64>>::LongChoice(
            LongChoice::Enum { default, alternatives: alternatives@ },
        ),
        p.value matches PodValue::LongChoice(LongChoice::Other) ==> p@.value == PodValue::<
            Seq<i64>,
        >::LongChoice(LongChoice::Other),
        p.value matches PodValue::Fraction { num, denom } ==> p@.value == (PodValue::<
            Seq<i64>,
        >::Fraction { num, denom }),
        p.value is MediaVideo <==> p@.value is MediaVideo,
        p.value is MediaRaw <==> p@.value is MediaRaw,
        p.value is Other <==> p@.value is Other,
{
}

/// A list of properties stands for the list of what each stands for.
pub proof fn property_lists_stand_for_themselves(props: Seq<Property<Vec<i64>>>, i: int)
    requires
        0 <= i < props.len(),
    ensures
        property_views(props).len() == props.len(),
        property_views(props)[i] == props[i]@,
{
}

/// The modifiers that a list of 64-bit numbers stands for.
pub open spec fn as_modifiers(list: Seq<i64>) -> Seq<u64> {
    list.map_values(|m: i64| m as u64)
}

/// The 64-bit numbers that stand for modifiers.
pub open spec fn as_longs(list: Seq<u64>) -> Seq<i64> {
    list.map_values(|m: u64| m as i64)
}

impl ParamFormat<Seq<u64>> {
    /// What is known before the first property.
    pub open spec fn unknown() -> ParamFormat<Seq<u64>> {
        ParamFormat {
            format: None,
            modifiers: Seq::empty(),
            width: 0,
            height: 0,
            fixate: false,
        }
    }

    /// The format after one more property, or why the property is not accepted.
    /// Modifiers add up, any other property replaces what an earlier one said.
    pub open spec fn visit(self, prop: Property<Seq<i64>>) -> Result<Self, DeserializeError> {
        match prop.key {
            FormatKey::VideoSize => match prop.value {
                PodValue::Size { width, height } => Ok(ParamFormat { width, height, ..self }),
                PodValue::SizeChoice(Some(size)) => Ok(
                    ParamFormat { width: size.0, height: size.1, ..self },
                ),
                _ => Err(DeserializeError::InvalidType),
            },
            FormatKey::VideoModifier => {
                let fixate = !prop.flags.dont_fixate;
                match prop.value {
                    PodValue::Long(m) => Ok(
                        ParamFormat { fixate, modifiers: self.modifiers.push(m as u64), ..self },
                    ),
                    PodValue::LongChoice(LongChoice::Single(m)) => Ok(
                        ParamFormat { fixate, modifiers: self.modifiers.push(m as u64), ..self },
                    ),
                    PodValue::LongChoice(LongChoice::Enum { default, alternatives }) => Ok(
                        ParamFormat {
                            fixate,
                            modifiers: self.modifiers.push(default as u64) + as_modifiers(
                                alternatives,
                            ),
                            ..self
                        },
                    ),
                    _ => Err(DeserializeError::InvalidChoiceType),
                }
            },
            FormatKey::VideoFormat => match prop.value {
                PodValue::Format(f) => Ok(ParamFormat { format: Some(f), ..self }),
                PodValue::FormatChoice(Some(f)) => Ok(ParamFormat { format: Some(f), ..self }),
                _ => Err(DeserializeError::InvalidType),
            },
            _ => Ok(self),
        }
    }

    /// The format that a list of properties describes, or the first reason why it
    /// is none.
    pub open spec fn parse(props: Seq<Property<Seq<i64>>>) -> Result<Self, DeserializeError>
        decreases props.len(),
    {
        if props.len() == 0 {
            Ok(Self::unknown())
        } else {
            match Self::parse(props.drop_last()) {
                Ok(p) => p.visit(props.last()),
                Err(e) => Err(e),
            }
        }
    }

    /// A consumer that was promised this format gets it from `other`: same pixels,
    /// same size, and every modifier of this one is among those of the other.
    pub open spec fn satisfied_by(self, other: Self) -> bool {
        &&& self.format == other.format
        &&& self.width == other.width
        &&& self.height == other.height
        &&& forall|i: int|
            0 <= i < self.modifiers.len() ==> other.modifiers.contains(#[trigger] self.modifiers[i])
    }

    /// The format can be written: it has a modifier, and only one once fixated.
    pub open spec fn writable(self) -> bool {
        &&& self.modifiers.len() > 0
        &&& self.fixate ==> self.modifiers.len() == 1
    }

    /// The property that lists the modifiers. No modifier at all is always offered
    /// as a last resort until the format is fixated.
    pub open spec fn modifier_property(self) -> Property<Seq<i64>> {
        if self.modifiers.len() == 1 && self.modifiers[0] == MODIFIER_INVALID {
            Property {
                key: FormatKey::VideoModifier,
                value: PodValue::Long(MODIFIER_INVALID as i64),
                flags: PropertyFlags { mandatory: true, dont_fixate: false },
            }
        } else {
            let listed = as_longs(self.modifiers);
            let alternatives = if !self.modifiers.contains(MODIFIER_INVALID) && !self.fixate {
                listed.push(MODIFIER_INVALID as i64)
            } else {
                listed
            };
            Property {
                key: FormatKey::VideoModifier,
                value: PodValue::LongChoice(
                    LongChoice::Enum { default: self.modifiers[0] as i64, alternatives },
                ),
                flags: PropertyFlags { mandatory: true, dont_fixate: self.fixate },
            }
        }
    }

    /// The format as a list of properties.
    pub open spec fn written(self) -> Seq<Property<Seq<i64>>> {
        let head = seq![
            plain_property(FormatKey::MediaType, PodValue::MediaVideo),
            plain_property(FormatKey::MediaSubtype, PodValue::MediaRaw),
        ];
        let format = match self.format {
            Some(f) => seq![plain_property(FormatKey::VideoFormat, PodValue::Format(f))],
            None => Seq::empty(),
        };
        head + format + seq![
            self.modifier_property(),
            plain_property(
                FormatKey::VideoSize,
                PodValue::Size { width: self.width, height: self.height },
            ),
            plain_property(FormatKey::VideoFramerate, PodValue::Fraction { num: 0, denom: 1 }),
        ]
    }
}

/// A property without flags.
pub open spec fn plain_property(key: FormatKey, value: PodValue<Seq<i64>>) -> Property<Seq<i64>> {
    Property { key, value, flags: PropertyFlags { mandatory: false, dont_fixate: false } }
}

fn plain(key: FormatKey, value: PodValue<Vec<i64>>) -> (p: Property<Vec<i64>>)
    ensures
        p@ == plain_property(key, value@),
{
    Property { key, value, flags: PropertyFlags { mandatory: false, dont_fixate: false } }
}

fn has_modifier(list: &Vec<u64>, m: u64) -> (found: bool)
    ensures
        found == list@.contains(m),
{
    for i in 0..list.len()
        invariant
            forall|j: int| 0 <= j < i ==> list@[j] != m,
    {
        if list[i] == m {
            assert(list@[i as int] == m);
            return true;
        }
    }
    false
}

impl ParamFormat<Vec<u64>> {
    /// Tells whether a consumer that was promised this format gets it from `other`.
    pub fn satisfies(&self, other: &ParamFormat<Vec<u64>>) -> (yes: bool)
        ensures
            yes == self@.satisfied_by(other@),
    {
        let same_format = match (self.format, other.format) {
            (Some(a), Some(b)) => a == b,
            (None, None) => true,
            _ => false,
        };
        if !same_format || self.width != other.width || self.height != other.height {
            return false;
        }
        for i in 0..self.modifiers.len()
            invariant
                self.format == other.format,
                self.width == other.width,
                self.height == other.height,
                forall|j: int|
                    0 <= j < i ==> other.modifiers@.contains(#[trigger] self.modifiers@[j]),
        {
            if !has_modifier(&other.modifiers, self.modifiers[i]) {
                assert(!other@.modifiers.contains(self@.modifiers[i as int]));
                return false;
            }
        }
        true
    }

    /// Takes one more property into account. Where it is not accepted, the format
    /// is left in the middle of that property, and is not to be used.
    fn visit_property(&mut self, prop: &Property<Vec<i64>>) -> (r: Result<(), DeserializeError>)
        ensures
            match old(self)@.visit(prop@) {
                Ok(p) => r is Ok && final(self)@ == p,
                Err(e) => r == Err::<(), DeserializeError>(e),
            },
    {
        match prop.key {
            FormatKey::VideoSize => match &prop.value {
                PodValue::Size { width, height } => {
                    self.width = *width;
                    self.height = *height;
                },
                PodValue::SizeChoice(Some(size)) => {
                    self.width = size.0;
                    self.height = size.1;
                },
                _ => {
                    return Err(DeserializeError::InvalidType);
                },
            },
            FormatKey::VideoModifier => {
                self.fixate = !prop.flags.dont_fixate;
                match &prop.value {
                    PodValue::Long(m) => {
                        self.modifiers.push(*m as u64);
                    },
                    PodValue::LongChoice(LongChoice::Single(m)) => {
                        self.modifiers.push(*m as u64);
                    },
                    PodValue::LongChoice(LongChoice::Enum { default, alternatives }) => {
                        self.modifiers.push(*default as u64);
                        let ghost before = self.modifiers@;
                        let ghost rest = ParamFormat { modifiers: Seq::<u64>::empty(), ..self@ };
                        for i in 0..alternatives.len()
                            invariant
                                self.modifiers@ == before + as_modifiers(
                                    alternatives@.take(i as int),
                                ),
                                rest == (ParamFormat { modifiers: Seq::<u64>::empty(), ..self@ }),
                        {
                            self.modifiers.push(alternatives[i] as u64);
                            assert(self.modifiers@ =~= before + as_modifiers(
                                alternatives@.take(i + 1),
                            ));
                        }
                        assert(alternatives@.take(alternatives@.len() as int) =~= alternatives@);
                    },
                    _ => {
                        return Err(DeserializeError::InvalidChoiceType);
                    },
                }
            },
            FormatKey::VideoFormat => match &prop.value {
                PodValue::Format(f) => {
                    self.format = Some(*f);
                },
                PodValue::FormatChoice(Some(f)) => {
                    self.format = Some(*f);
                },
                _ => {
                    return Err(DeserializeError::InvalidType);
                },
            },
            _ => {},
        }
        Ok(())
    }

    /// Reads a format from its properties.
    pub fn deserialize(props: &Vec<Property<Vec<i64>>>) -> (r: Result<Self, DeserializeError>)
        ensures
            match ParamFormat::parse(property_views(props@)) {
                Ok(p) => r matches Ok(f) && f@ == p,
                Err(e) => r matches Err(x) && x == e,
            },
    {
        let mut ret = ParamFormat {
            format: None,
            modifiers: Vec::new(),
            width: 0,
            height: 0,
            fixate: false,
        };
        let ghost all = property_views(props@);
        assert(ret@ =~= ParamFormat::unknown());
        for i in 0..props.len()
            invariant
                all == property_views(props@),
                ParamFormat::parse(all.take(i as int)) == Ok::<_, DeserializeError>(ret@),
        {
            let ghost before = ret@;
            proof {
                assert(all.take(i + 1).drop_last() =~= all.take(i as int));
                assert(all.take(i + 1).last() == props@[i as int]@);
            }
            match ret.visit_property(&props[i]) {
                Ok(()) => {},
                Err(e) => {
                    proof {
                        parse_error_stays(all, i + 1, e);
                    }
                    return Err(e);
                },
            }
        }
        assert(all.take(props@.len() as int) =~= all);
        Ok(ret)
    }

    /// Writes the format as a list of properties.
    pub fn serialize(&self) -> (props: Vec<Property<Vec<i64>>>)
        requires
            self@.writable(),
        ensures
            property_views(props@) == self@.written(),
    {
        let mut props: Vec<Property<Vec<i64>>> = Vec::new();
        props.push(plain(FormatKey::MediaType, PodValue::MediaVideo));
        props.push(plain(FormatKey::MediaSubtype, PodValue::MediaRaw));
        if let Some(format) = self.format {
            props.push(plain(FormatKey::VideoFormat, PodValue::Format(format)));
        }
        props.push(self.write_modifiers());
        props.push(
            plain(
                FormatKey::VideoSize,
                PodValue::Size { width: self.width, height: self.height },
            ),
        );
        props.push(plain(FormatKey::VideoFramerate, PodValue::Fraction { num: 0, denom: 1 }));
        assert(property_views(props@) =~= self@.written());
        props
    }

    fn write_modifiers(&self) -> (p: Property<Vec<i64>>)
        requires
            self@.writable(),
        ensures
            p@ == self@.modifier_property(),
    {
        let invalid: u64 = invalid_modifier();
        if self.modifiers.len() == 1 && self.modifiers[0] == invalid {
            Property {
                key: FormatKey::VideoModifier,
                value: PodValue::Long(invalid as i64),
                flags: PropertyFlags { mandatory: true, dont_fixate: false },
            }
        } else {
            let mut alternatives: Vec<i64> = Vec::new();
            for i in 0..self.modifiers.len()
                invariant
                    alternatives@ == as_longs(self.modifiers@.take(i as int)),
            {
                alternatives.push(self.modifiers[i] as i64);
                assert(alternatives@ =~= as_longs(self.modifiers@.take(i + 1)));
            }
            assert(self.modifiers@.take(self.modifiers@.len() as int) =~= self.modifiers@);
            if !has_modifier(&self.modifiers, invalid) && !self.fixate {
                alternatives.push(invalid as i64);
            }
            let p = Property {
                key: FormatKey::VideoModifier,
                value: PodValue::LongChoice(
                    LongChoice::Enum { default: self.modifiers[0] as i64, alternatives },
                ),
                flags: PropertyFlags { mandatory: true, dont_fixate: self.fixate },
            };
            assert(p@ =~= self@.modifier_property());
            p
        }
    }
}

/// An error in a prefix of the properties is the error of the whole list.
proof fn parse_error_stays(props: Seq<Property<Seq<i64>>>, n: int, e: DeserializeError)
    requires
        0 <= n <= props.len(),
        ParamFormat::parse(props.take(n)) == Err::<ParamFormat<Seq<u64>>, _>(e),
    ensures
        ParamFormat::parse(props) == Err::<ParamFormat<Seq<u64>>, _>(e),
    decreases props.len(),
{
    if n < props.len() {
        assert(props.drop_last().take(n) =~= props.take(n));
        parse_error_stays(props.drop_last(), n, e);
    } else {
        assert(props.take(n) =~= props);
    }
}

/// One more property is visited last.
proof fn parse_push(props: Seq<Property<Seq<i64>>>, p: Property<Seq<i64>>)
    ensures
        ParamFormat::parse(props.push(p)) == (match ParamFormat::parse(props) {
            Ok(f) => f.visit(p),
            Err(e) => Err(e),
        }),
{
    assert(props.push(p).drop_last() =~= props);
}

/// Properties are read in order, from a format of which nothing is known, and none is
/// read after one that is refused.
pub proof fn properties_are_read_in_order(props: Seq<Property<Seq<i64>>>, p: Property<Seq<i64>>)
    ensures
        ParamFormat::parse(Seq::empty()) matches Ok(f) && f.format is None && f.modifiers.len() == 0
            && f.width == 0 && f.height == 0 && !f.fixate,
        ParamFormat::parse(props) matches Ok(f) ==> ParamFormat::parse(props.push(p)) == f.visit(p),
        ParamFormat::parse(props) matches Err(e) ==> ParamFormat::parse(props.push(p)) == Err::<
            ParamFormat<Seq<u64>>,
            _,
        >(e),
{
    parse_push(props, p);
}

/// A property is refused exactly where its value is not of the kind that its key calls
/// for.
pub proof fn misfit_values_are_refused(f: ParamFormat<Seq<u64>>, prop: Property<Seq<i64>>)
    ensures
        f.visit(prop) == Err::<ParamFormat<Seq<u64>>, _>(DeserializeError::InvalidType) <==> (
        prop.key == FormatKey::VideoSize && !(prop.value is Size) && !(prop.value is SizeChoice
            && prop.value->SizeChoice_0 is Some)) || (prop.key == FormatKey::VideoFormat && !(
        prop.value is Format) && !(prop.value is FormatChoice && prop.value->FormatChoice_0 is Some)),
        f.visit(prop) == Err::<ParamFormat<Seq<u64>>, _>(DeserializeError::InvalidChoiceType)
            <==> prop.key == FormatKey::VideoModifier && !(prop.value is Long) && !(
        prop.value is LongChoice && !(prop.value->LongChoice_0 is Other)),
{
}

/// A size is taken over as it stands, width for width and height for height, and no other
/// property touches it.
pub proof fn size_is_taken_over(f: ParamFormat<Seq<u64>>, prop: Property<Seq<i64>>)
    requires
        f.visit(prop) is Ok,
    ensures
        ({
            let g = f.visit(prop)->Ok_0;
            &&& prop.key != FormatKey::VideoSize ==> g.width == f.width && g.height == f.height
            &&& prop.key == FormatKey::VideoSize ==> (match prop.value {
                PodValue::Size { width, height } => g.width == width && g.height == height,
                PodValue::SizeChoice(Some((w, h))) => g.width == w && g.height == h,
                _ => false,
            })
        }),
{
}

/// Pixels are taken over as they stand, and no other property touches them.
pub proof fn pixels_are_taken_over(f: ParamFormat<Seq<u64>>, prop: Property<Seq<i64>>)
    requires
        f.visit(prop) is Ok,
    ensures
        ({
            let g = f.visit(prop)->Ok_0;
            &&& prop.key != FormatKey::VideoFormat ==> g.format == f.format
            &&& prop.key == FormatKey::VideoFormat ==> g.format is Some && (prop.value
                == PodValue::<Seq<i64>>::Format(g.format->0) || prop.value == PodValue::<
                Seq<i64>,
            >::FormatChoice(g.format))
        }),
{
}

/// Modifiers are added behind those already read, each as the number it is, the default
/// of a choice before its alternatives; the reader fixates unless the property says not
/// to; and no other property touches either.
pub proof fn modifiers_add_up(f: ParamFormat<Seq<u64>>, prop: Property<Seq<i64>>)
    requires
        f.visit(prop) is Ok,
    ensures
        ({
            let g = f.visit(prop)->Ok_0;
            let n = f.modifiers.len() as int;
            &&& prop.key != FormatKey::VideoModifier ==> g.modifiers == f.modifiers && g.fixate
                == f.fixate
            &&& prop.key == FormatKey::VideoModifier ==> {
                &&& g.fixate != prop.flags.dont_fixate
                &&& g.modifiers.len() > n
                &&& g.modifiers.take(n) == f.modifiers
                &&& match prop.value {
                    PodValue::Long(m) => g.modifiers.len() == n + 1 && g.modifiers[n] as i64 == m,
                    PodValue::LongChoice(LongChoice::Single(m)) => g.modifiers.len() == n + 1
                        && g.modifiers[n] as i64 == m,
                    PodValue::LongChoice(LongChoice::Enum { default, alternatives }) => {
                        &&& g.modifiers.len() == n + 1 + alternatives.len()
                        &&& g.modifiers[n] as i64 == default
                        &&& forall|i: int|
                            0 <= i < alternatives.len() ==> #[trigger] g.modifiers[n + 1 + i] as i64
                                == alternatives[i]
                    },
                    _ => false,
                }
            }
        }),
{
    assert forall|x: i64| #![trigger x as u64] (x as u64) as i64 == x by {
        assert((x as u64) as i64 == x) by (bit_vector);
    }
    let g = f.visit(prop)->Ok_0;
    if prop.key == FormatKey::VideoModifier {
        assert(g.modifiers.take(f.modifiers.len() as int) =~= f.modifiers);
    }
}

/// Of several sizes the last one counts.
pub proof fn last_size_counts(props: Seq<Property<Seq<i64>>>, i: int)
    requires
        ParamFormat::parse(props) is Ok,
        0 <= i < props.len(),
        props[i].key == FormatKey::VideoSize,
        forall|j: int| i < j < props.len() ==> (#[trigger] props[j]).key != FormatKey::VideoSize,
    ensures
        match props[i].value {
            PodValue::Size { width, height } => ParamFormat::parse(props)->Ok_0.width == width
                && ParamFormat::parse(props)->Ok_0.height == height,
            PodValue::SizeChoice(Some((w, h))) => ParamFormat::parse(props)->Ok_0.width == w
                && ParamFormat::parse(props)->Ok_0.height == h,
            _ => false,
        },
    decreases props.len(),
{
    if i < props.len() - 1 {
        assert(props.drop_last()[i] == props[i]);
        last_size_counts(props.drop_last(), i);
    }
}

/// Of several pixel formats the last one counts.
pub proof fn last_pixels_count(props: Seq<Property<Seq<i64>>>, i: int)
    requires
        ParamFormat::parse(props) is Ok,
        0 <= i < props.len(),
        props[i].key == FormatKey::VideoFormat,
        forall|j: int| i < j < props.len() ==> (#[trigger] props[j]).key != FormatKey::VideoFormat,
    ensures
        match props[i].value {
            PodValue::Format(f) => ParamFormat::parse(props)->Ok_0.format == Some(f),
            PodValue::FormatChoice(Some(f)) => ParamFormat::parse(props)->Ok_0.format == Some(f),
            _ => false,
        },
    decreases props.len(),
{
    if i < props.len() - 1 {
        assert(props.drop_last()[i] == props[i]);
        last_pixels_count(props.drop_last(), i);
    }
}

/// The format that a reader makes of what `p` writes: everything is read back, the
/// first modifier twice where it is both the default and an alternative, with no
/// modifier as the last resort where `p` offers it, and to be fixated by the reader
/// unless `p` was fixated by its writer.
pub open spec fn read_back(p: ParamFormat<Seq<u64>>) -> ParamFormat<Seq<u64>> {
    let modifiers = if p.modifiers.len() == 1 && p.modifiers[0] == MODIFIER_INVALID {
        p.modifiers
    } else if !p.modifiers.contains(MODIFIER_INVALID) && !p.fixate {
        seq![p.modifiers[0]] + p.modifiers + seq![MODIFIER_INVALID]
    } else {
        seq![p.modifiers[0]] + p.modifiers
    };
    ParamFormat { modifiers, fixate: !p.modifier_property().flags.dont_fixate, ..p }
}

/// Reading the properties that a format writes gives the format back, up to how
/// often a modifier is listed.
pub proof fn written_is_read_back(p: ParamFormat<Seq<u64>>)
    requires
        p.writable(),
    ensures
        ParamFormat::parse(p.written()) == Ok::<_, DeserializeError>(read_back(p)),
{
    let empty = Seq::<Property<Seq<i64>>>::empty();
    let a = plain_property(FormatKey::MediaType, PodValue::MediaVideo);
    let b = plain_property(FormatKey::MediaSubtype, PodValue::MediaRaw);
    let m = p.modifier_property();
    let z = plain_property(
        FormatKey::VideoSize,
        PodValue::Size { width: p.width, height: p.height },
    );
    let r = plain_property(FormatKey::VideoFramerate, PodValue::Fraction { num: 0, denom: 1 });
    parse_push(empty, a);
    parse_push(empty.push(a), b);
    let head = empty.push(a).push(b);
    let mid = match p.format {
        Some(f) => head.push(plain_property(FormatKey::VideoFormat, PodValue::Format(f))),
        None => head,
    };
    if let Some(f) = p.format {
        parse_push(head, plain_property(FormatKey::VideoFormat, PodValue::Format(f)));
    }
    parse_push(mid, m);
    parse_push(mid.push(m), z);
    parse_push(mid.push(m).push(z), r);
    assert(p.written() =~= mid.push(m).push(z).push(r));
    assert forall|x: u64| #![trigger x as i64] (x as i64) as u64 == x by {
        assert((x as i64) as u64 == x) by (bit_vector);
    }
    let back = read_back(p);
    assert(ParamFormat::parse(mid) == Ok::<_, DeserializeError>(
        ParamFormat { format: p.format, ..ParamFormat::unknown() },
    ));
    let known = ParamFormat { format: p.format, ..ParamFormat::<Seq<u64>>::unknown() };
    let step = known.visit(m);
    assert(step is Ok);
    if let PodValue::LongChoice(LongChoice::Enum { default, alternatives }) = m.value {
        assert(step->Ok_0.modifiers == Seq::<u64>::empty().push(default as u64) + as_modifiers(
            alternatives,
        ));
        assert(as_modifiers(as_longs(p.modifiers)) =~= p.modifiers);
    }
    assert(step->Ok_0.modifiers =~= back.modifiers);
    assert(ParamFormat::parse(p.written())->Ok_0 =~= back);
}

/// Who reads what a format writes gets the same pixels and the same size, the same first
/// modifier, and the same modifiers, with no modifier at all as one more choice as long
/// as the format is open. The reader fixates unless the writer did.
pub proof fn written_format_means_the_same(p: ParamFormat<Seq<u64>>)
    requires
        p.writable(),
    ensures
        ParamFormat::parse(p.written()) matches Ok(q) && {
            &&& q.format == p.format
            &&& q.width == p.width
            &&& q.height == p.height
            &&& q.modifiers.len() > 0
            &&& q.modifiers[0] == p.modifiers[0]
            &&& forall|m: u64| #[trigger]
                q.modifiers.contains(m) <==> p.modifiers.contains(m) || (m == 0xff_ffff_ffff_ffff
                    && !p.fixate)
            &&& q.fixate <==> !p.fixate || p.modifiers[0] == 0xff_ffff_ffff_ffff
        },
{
    written_is_read_back(p);
    let q = read_back(p);
    assert forall|m: u64| #[trigger]
        q.modifiers.contains(m) <==> p.modifiers.contains(m) || (m == MODIFIER_INVALID
            && !p.fixate) by {
        let n = p.modifiers.len() as int;
        if p.modifiers.contains(m) {
            let i = choose|i: int| 0 <= i < n && p.modifiers[i] == m;
            if n == 1 && p.modifiers[0] == MODIFIER_INVALID {
                assert(q.modifiers[i] == m);
            } else {
                assert(q.modifiers[i + 1] == m);
            }
        } else if m == MODIFIER_INVALID && !p.fixate {
            assert(q.modifiers[n + 1] == m);
        }
        if q.modifiers.contains(m) {
            let i = choose|i: int| 0 <= i < q.modifiers.len() && q.modifiers[i] == m;
            if n == 1 && p.modifiers[0] == MODIFIER_INVALID {
                assert(p.modifiers[i] == m);
            } else if i == 0 {
                assert(p.modifiers[0] == m);
            } else if i <= n {
                assert(p.modifiers[i - 1] == m);
            }
        }
    }
}

/// What is written is labelled as raw video of no fixed rate, says nothing twice, says
/// nothing of pixels where there are none, and insists on the modifiers alone.
pub proof fn written_format_is_labelled(p: ParamFormat<Seq<u64>>, i: int, j: int)
    requires
        p.writable(),
        0 <= i < j < p.written().len(),
    ensures
        p.written()[i].key != p.written()[j].key,
        p.written().len() == (if p.format is Some {
            6nat
        } else {
            5nat
        }),
        p.written()[i].flags.mandatory <==> p.written()[i].key == FormatKey::VideoModifier,
        p.written()[j].flags.mandatory <==> p.written()[j].key == FormatKey::VideoModifier,
        p.written()[i].key == FormatKey::MediaType ==> p.written()[i].value is MediaVideo,
        p.written()[0].key == FormatKey::MediaType,
        p.written()[1].key == FormatKey::MediaSubtype && p.written()[1].value is MediaRaw,
        p.written().last().key == FormatKey::VideoFramerate,
        p.written().last().value matches PodValue::Fraction { num, denom } && num == 0 && denom == 1,
        forall|k: int| 0 <= k < p.written().len() ==> (#[trigger] p.written()[k]).key
            != FormatKey::Unknown,
{
}

/// A format cannot be written only where it has no modifier, or several though it is
/// fixated.
pub proof fn formats_can_be_written(p: ParamFormat<Seq<u64>>)
    ensures
        p.writable() <==> p.modifiers.len() == 1 || (p.modifiers.len() > 1 && !p.fixate),
{
}

/// What a format announces satisfies it: a consumer that echoes the properties of
/// an announced format is never told that it asked for a different one.
pub proof fn announced_format_is_satisfied(p: ParamFormat<Seq<u64>>)
    requires
        p.writable(),
    ensures
        ParamFormat::parse(p.written()) is Ok,
        p.satisfied_by(ParamFormat::parse(p.written())->Ok_0),
{
    written_is_read_back(p);
    let back = read_back(p);
    assert forall|i: int| 0 <= i < p.modifiers.len() implies back.modifiers.contains(
        #[trigger] p.modifiers[i],
    ) by {
        if p.modifiers.len() == 1 && p.modifiers[0] == MODIFIER_INVALID {
            assert(back.modifiers[i] == p.modifiers[i]);
        } else {
            assert(back.modifiers[i + 1] == p.modifiers[i]);
        }
    }
}

/// A format is satisfied by another exactly where pixels, width and height agree and none
/// of its modifiers is missing from the other.
pub proof fn satisfaction_is_agreement(a: ParamFormat<Seq<u64>>, b: ParamFormat<Seq<u64>>)
    ensures
        a.satisfied_by(b) <==> a.format == b.format && a.width == b.width && a.height == b.height
            && !exists|m: u64| #[trigger] a.modifiers.contains(m) && !b.modifiers.contains(m),
{
    if a.satisfied_by(b) {
        assert forall|m: u64| #[trigger] a.modifiers.contains(m) implies b.modifiers.contains(m) by {
            let i = choose|i: int| 0 <= i < a.modifiers.len() && a.modifiers[i] == m;
            assert(b.modifiers.contains(a.modifiers[i]));
        }
    }
    if !exists|m: u64| #[trigger] a.modifiers.contains(m) && !b.modifiers.contains(m) {
        assert forall|i: int| 0 <= i < a.modifiers.len() implies b.modifiers.contains(
            #[trigger] a.modifiers[i],
        ) by {
            assert(a.modifiers.contains(a.modifiers[i]));
        }
    }
}

/// Every format satisfies itself, and satisfaction passes on.
pub proof fn satisfaction_is_a_preorder(
    a: ParamFormat<Seq<u64>>,
    b: ParamFormat<Seq<u64>>,
    c: ParamFormat<Seq<u64>>,
)
    ensures
        a.satisfied_by(a),
        a.satisfied_by(b) && b.satisfied_by(c) ==> a.satisfied_by(c),
{
    assert forall|i: int| 0 <= i < a.modifiers.len() implies a.modifiers.contains(
        #[trigger] a.modifiers[i],
    ) by {}
    if a.satisfied_by(b) && b.satisfied_by(c) {
        assert forall|i: int| 0 <= i < a.modifiers.len() implies c.modifiers.contains(
            #[trigger] a.modifiers[i],
        ) by {
            let j = choose|j: int| 0 <= j < b.modifiers.len() && b.modifiers[j] == a.modifiers[i];
            assert(b.modifiers[j] == a.modifiers[i]);
        }
    }
}

/// What PipeWire reports about the parameters of a stream.
#[derive(Debug)]
pub enum ParamEvent {
    /// A parameter other than the format changed.
    OtherParam,
    /// The format was taken away.
    FormatRemoved,
    /// The consumer picked a format, with these properties.
    FormatChosen(Vec<Property<Vec<i64>>>),
}

/// What is done about it.
#[derive(Debug)]
pub enum ParamAction {
    Nothing,
    /// The stream has run its course: put it into the error state, in which it reports
    /// this text (see [`stop_text`]).
    Stop { text: String },
    /// Announce this fixated format.
    Announce(Vec<Property<Vec<i64>>>),
    /// Allocate a buffer to see whether the format works.
    TestAllocate { params: ParamFormat<Vec<u64>>, fourcc: u32, modifier: u64 },
}

/// What a stream that has run its course reports.
pub open spec fn stopped_text() -> Seq<char> {
    crate::stream::error_text("\"Format removed, stopping.\""@)
}

/// What a stream that has run its course reports.
pub fn stop_text() -> (text: String)
    ensures
        text@ == stopped_text(),
{
    stream_error_text("\"Format removed, stopping.\"")
}

/// Why a stream cannot go on.
#[derive(Debug, Clone, Copy, PartialEq, Eq, Structural)]
pub enum NegotiationError {
    Unreadable(DeserializeError),
    NoDmaBuf,
    DifferentFormat,
    FormatMissing,
    NotNegotiated,
}

impl NegotiationError {
    pub open spec fn text(self) -> Seq<char> {
        match self {
            NegotiationError::Unreadable(DeserializeError::InvalidType) => "InvalidType"@,
            NegotiationError::Unreadable(DeserializeError::InvalidChoiceType) =>
            "InvalidChoiceType"@,
            NegotiationError::NoDmaBuf => "Client doesn't support DMA-Buf"@,
            NegotiationError::DifferentFormat => "Client requested a different format"@,
            NegotiationError::FormatMissing => "Format missing"@,
            NegotiationError::NotNegotiated => "add_buffer called without a negotiated format"@,
        }
    }

    /// The error in words.
    pub fn message(&self) -> (s: &'static str)
        ensures
            s@ == self.text(),
    {
        match self {
            NegotiationError::Unreadable(DeserializeError::InvalidType) => "InvalidType",
            NegotiationError::Unreadable(DeserializeError::InvalidChoiceType) =>
            "InvalidChoiceType",
            NegotiationError::NoDmaBuf => "Client doesn't support DMA-Buf",
            NegotiationError::DifferentFormat => "Client requested a different format",
            NegotiationError::FormatMissing => "Format missing",
            NegotiationError::NotNegotiated => "add_buffer called without a negotiated format",
        }
    }
}

/// Where the buffers of a stream come from.
#[derive(Debug)]
pub enum BufferSource {
    /// The buffer of the test allocation, which is handed over.
    TestBuffer,
    /// A new buffer.
    Allocate { width: u32, height: u32, fourcc: u32, modifiers: Vec<u64> },
}

/// The format that is announced when the consumer leaves the choice open: its
/// first modifier, fixated.
pub open spec fn fixated_from(p: ParamFormat<Seq<u64>>) -> ParamFormat<Seq<u64>> {
    ParamFormat { modifiers: seq![p.modifiers[0]], fixate: true, ..p }
}

/// The format that is settled on for an open choice has the pixels, the width and the
/// height that the consumer chose, and of its modifiers the first alone. What is announced
/// is read as just that, and a consumer that confirms its choice with that modifier gets
/// what it was promised.
pub proof fn open_choice_is_kept(p: ParamFormat<Seq<u64>>, confirmed: ParamFormat<Seq<u64>>)
    requires
        p.modifiers.len() > 0,
    ensures
        fixated_from(p).format == p.format,
        fixated_from(p).width == p.width,
        fixated_from(p).height == p.height,
        fixated_from(p).modifiers.len() == 1,
        fixated_from(p).modifiers[0] == p.modifiers[0],
        fixated_from(p).fixate,
        ParamFormat::parse(fixated_from(p).written()) matches Ok(q) && q.format == p.format
            && q.width == p.width && q.height == p.height && forall|m: u64| #[trigger]
            q.modifiers.contains(m) <==> m == p.modifiers[0],
        confirmed.format == p.format && confirmed.width == p.width && confirmed.height == p.height
            && confirmed.modifiers.contains(p.modifiers[0]) ==> fixated_from(p).satisfied_by(
            confirmed,
        ),
{
    let f = fixated_from(p);
    written_format_means_the_same(f);
    let q = ParamFormat::parse(f.written())->Ok_0;
    assert forall|m: u64| #[trigger] q.modifiers.contains(m) <==> m == p.modifiers[0] by {
        assert(f.modifiers.contains(m) <==> m == p.modifiers[0]) by {
            assert(f.modifiers[0] == p.modifiers[0]);
        }
    }
}

/// The format can be allocated with the DRM name of its pixels.
pub open spec fn has_drm_name(format: Option<VideoFormat>) -> bool {
    format matches Some(f) && crate::format::fourcc_of(f) is Some
}

/// How far the negotiation of one stream has come.
#[derive(Debug)]
pub struct Negotiation {
    fixated_format: Option<ParamFormat<Vec<u64>>>,
    test_buffer: bool,
}

impl Negotiation {
    /// The format that was settled on.
    pub closed spec fn fixated(&self) -> Option<ParamFormat<Seq<u64>>> {
        match self.fixated_format {
            Some(f) => Some(f@),
            None => None,
        }
    }

    /// A test allocation is at hand that no buffer uses yet.
    pub closed spec fn holds_test_buffer(&self) -> bool {
        self.test_buffer
    }

    /// The consumer picks a format for a test allocation.
    pub open spec fn is_test(&self, p: ParamFormat<Seq<u64>>) -> bool {
        self.fixated() is None && p.modifiers.len() > 0 && p.fixate
    }

    /// A test allocation only ever comes up for pixels that DRM has a name for.
    pub open spec fn allocatable(&self, event: ParamEvent) -> bool {
        event matches ParamEvent::FormatChosen(props) ==> (ParamFormat::parse(
            property_views(props@),
        ) matches Ok(p) ==> self.is_test(p) && p.format is Some ==> has_drm_name(p.format))
    }

    pub fn new() -> (n: Negotiation)
        ensures
            n.fixated() is None,
            !n.holds_test_buffer(),
    {
        Negotiation { fixated_format: None, test_buffer: false }
    }

    /// Tells whether [`Negotiation::on_param_changed`] may be called.
    pub fn can_allocate(&self, event: &ParamEvent) -> (yes: bool)
        ensures
            yes == self.allocatable(*event),
    {
        match event {
            ParamEvent::FormatChosen(props) => match ParamFormat::deserialize(props) {
                Ok(p) => match p.format {
                    Some(f) => self.fixated_format.is_some() || p.modifiers.len() == 0 || !p.fixate
                        || has_fourcc(f),
                    None => true,
                },
                Err(_) => true,
            },
            _ => true,
        }
    }

    /// Decides what follows a change of parameters. The format is settled by the
    /// first choice that leaves it open, or by the test allocation (see
    /// [`Negotiation::complete_test`]), and never changes after that.
    pub fn on_param_changed(&mut self, event: ParamEvent) -> (r: Result<
        ParamAction,
        NegotiationError,
    >)
        requires
            old(self).allocatable(event),
        ensures
            final(self).holds_test_buffer() == old(self).holds_test_buffer(),
            old(self).fixated() is Some ==> final(self).fixated() == old(self).fixated(),
            !(r matches Ok(ParamAction::Announce(_))) ==> final(self).fixated() == old(
                self,
            ).fixated(),
            match event {
                ParamEvent::OtherParam => r matches Ok(ParamAction::Nothing),
                ParamEvent::FormatRemoved => if old(self).fixated() is Some {
                    r matches Ok(ParamAction::Stop { text }) && text@ == stopped_text()
                } else {
                    r matches Ok(ParamAction::Nothing)
                },
                ParamEvent::FormatChosen(props) => match ParamFormat::parse(
                    property_views(props@),
                ) {
                    Err(e) => r matches Err(x) && x == NegotiationError::Unreadable(e),
                    Ok(p) => if p.modifiers.len() == 0 {
                        r matches Err(NegotiationError::NoDmaBuf)
                    } else if let Some(f) = old(self).fixated() {
                        if f.satisfied_by(p) {
                            r matches Ok(ParamAction::Nothing)
                        } else {
                            r matches Err(NegotiationError::DifferentFormat)
                        }
                    } else if !p.fixate {
                        &&& final(self).fixated() == Some(fixated_from(p))
                        &&& r matches Ok(ParamAction::Announce(out)) && property_views(out@)
                            == fixated_from(p).written()
                    } else if p.format is None {
                        r matches Err(NegotiationError::FormatMissing)
                    } else {
                        r matches Ok(ParamAction::TestAllocate { params, fourcc, modifier })
                            && params@ == p && crate::format::fourcc_of(p.format->0) == Some(
                            fourcc,
                        ) && modifier == p.modifiers[0]
                    },
                },
            },
    {
        let props = match event {
            ParamEvent::OtherParam => {
                return Ok(ParamAction::Nothing);
            },
            ParamEvent::FormatRemoved => {
                if self.fixated_format.is_some() {
                    return Ok(ParamAction::Stop { text: stop_text() });
                }
                return Ok(ParamAction::Nothing);
            },
            ParamEvent::FormatChosen(props) => props,
        };
        let params = match ParamFormat::deserialize(&props) {
            Ok(p) => p,
            Err(e) => {
                return Err(NegotiationError::Unreadable(e));
            },
        };
        if params.modifiers.len() == 0 {
            return Err(NegotiationError::NoDmaBuf);
        }
        if let Some(old_fixated_format) = &self.fixated_format {
            if !old_fixated_format.satisfies(&params) {
                return Err(NegotiationError::DifferentFormat);
            }
            Ok(ParamAction::Nothing)
        } else if !params.fixate {
            let mut modifiers: Vec<u64> = Vec::new();
            modifiers.push(params.modifiers[0]);
            let fixated_params = ParamFormat {
                format: params.format,
                modifiers,
                width: params.width,
                height: params.height,
                fixate: true,
            };
            assert(fixated_params@ =~= fixated_from(params@));
            let out = fixated_params.serialize();
            self.fixated_format = Some(fixated_params);
            Ok(ParamAction::Announce(out))
        } else {
            match params.format {
                None => Err(NegotiationError::FormatMissing),
                Some(format) => {
                    let fourcc: u32 = spa_format_to_fourcc(format);
                    let modifier: u64 = params.modifiers[0];
                    Ok(ParamAction::TestAllocate { params, fourcc, modifier })
                },
            }
        }
    }

    /// The test allocation succeeded: its buffer is kept.
    pub fn keep_test_buffer(&mut self)
        ensures
            final(self).holds_test_buffer(),
            final(self).fixated() == old(self).fixated(),
    {
        self.test_buffer = true;
    }

    /// Settles on the format that the test allocation worked with, and tells what
    /// buffers the stream needs, given the layout of the test buffer.
    pub fn complete_test(
        &mut self,
        params: ParamFormat<Vec<u64>>,
        stride: u32,
        height: u32,
        planes: u32,
        data_type: u32,
    ) -> (info: BufferInfo)
        requires
            stride * height <= u32::MAX,
        ensures
            final(self).fixated() == Some(params@),
            final(self).holds_test_buffer() == old(self).holds_test_buffer(),
            info.buffers == (2u32, 3u32),
            info.blocks == planes,
            info.size == stride * height,
            info.stride == stride,
            info.data_type@ == seq![data_type],
    {
        self.fixated_format = Some(params);
        let mut types: Vec<u32> = Vec::new();
        types.push(data_type);
        BufferInfo { buffers: (2, 3), blocks: planes, size: stride * height, stride, data_type: types }
    }

    /// Where a new buffer comes from cannot be told only when the settled format
    /// has no DRM name and no test buffer stands in.
    pub open spec fn can_add(&self) -> bool {
        self.fixated() matches Some(f) ==> self.holds_test_buffer() || has_drm_name(f.format)
    }

    /// Tells whether [`Negotiation::add_buffer`] may be called.
    pub fn can_add_buffer(&self) -> (yes: bool)
        ensures
            yes == self.can_add(),
    {
        match &self.fixated_format {
            None => true,
            Some(f) => self.test_buffer || (match f.format {
                Some(f) => has_fourcc(f),
                None => false,
            }),
        }
    }

    /// Where a new buffer of the stream comes from. The test buffer is handed over
    /// once; after that every buffer is allocated with all modifiers of the format.
    pub fn add_buffer(&mut self) -> (r: Result<BufferSource, NegotiationError>)
        requires
            old(self).can_add(),
        ensures
            final(self).fixated() == old(self).fixated(),
            match old(self).fixated() {
                None => (r matches Err(NegotiationError::NotNegotiated))
                    && final(self).holds_test_buffer() == old(self).holds_test_buffer(),
                Some(f) => {
                    &&& !final(self).holds_test_buffer()
                    &&& if old(self).holds_test_buffer() {
                        r matches Ok(BufferSource::TestBuffer)
                    } else {
                        r matches Ok(BufferSource::Allocate { width, height, fourcc, modifiers })
                            && width == f.width && height == f.height
                            && crate::format::fourcc_of(f.format->0) == Some(fourcc) && modifiers@
                            == f.modifiers
                    }
                },
            },
    {
        match &self.fixated_format {
            None => Err(NegotiationError::NotNegotiated),
            Some(f) => {
                if self.test_buffer {
                    self.test_buffer = false;
                    return Ok(BufferSource::TestBuffer);
                }
                let fourcc: u32 = match f.format {
                    Some(format) => spa_format_to_fourcc(format),
                    None => 0,
                };
                let mut modifiers: Vec<u64> = Vec::new();
                modifiers.extend_from_slice(f.modifiers.as_slice());
                assert(modifiers@ =~= f.modifiers@);
                Ok(
                    BufferSource::Allocate {
                        width: f.width,
                        height: f.height,
                        fourcc,
                        modifiers,
                    },
                )
            },
        }
    }
}

/// Pixels can be allocated exactly where there are any that DRM has a name for.
pub proof fn named_pixels_can_be_allocated(format: Option<VideoFormat>)
    ensures
        has_drm_name(format) <==> format is Some && !(format->0 is Other),
{
}

/// A choice is turned away only where the consumer asks for a test allocation, as long as
/// nothing is settled, of pixels that DRM has no name for.
pub proof fn choices_are_taken(n: Negotiation, event: ParamEvent)
    ensures
        n.allocatable(event) <==> !(event is FormatChosen && n.fixated() is None && {
            let r = ParamFormat::parse(property_views(event->FormatChosen_0@));
            r is Ok && r->Ok_0.modifiers.len() > 0 && r->Ok_0.fixate && r->Ok_0.format is Some
                && r->Ok_0.format->0 is Other
        }),
{
}

/// Where a buffer comes from can be told but for a settled format without a DRM name and
/// without a test buffer.
pub proof fn buffers_can_be_added(n: Negotiation)
    ensures
        n.can_add() <==> n.fixated() is None || n.holds_test_buffer() || (n.fixated()->0.format
            is Some && !(n.fixated()->0.format->0 is Other)),
{
}

/// What a stream asks of its buffers.
#[derive(Debug)]
pub struct BufferInfo {
    /// The least and the most buffers.
    pub buffers: (u32, u32),
    pub blocks: u32,
    pub size: u32,
    pub stride: u32,
    /// The numbers of the accepted kinds of memory, the preferred one first.
    pub data_type: Vec<u32>,
}

/// The number of buffers in a parameter.
#[derive(Debug, Clone, Copy, PartialEq, Eq, Structural)]
pub enum BufferCount {
    Fixed(i32),
    Range { default: i32, min: i32, max: i32 },
}

/// The buffers parameter of a stream.
#[derive(Debug)]
pub struct BufferParams {
    pub buffers: BufferCount,
    pub blocks: i32,
    pub size: i32,
    pub stride: i32,
    pub data_type_default: i32,
    pub data_type_flags: Vec<i32>,
}

/// The bit that stands for a kind of memory.
pub open spec fn data_type_flag(t: u32) -> i32 {
    (1u32 << t) as i32
}

/// Each kind of memory has the bit of its number: the first is one, and each is twice
/// the one before.
pub proof fn memory_kinds_have_bits(t: u32)
    requires
        t < 30,
    ensures
        data_type_flag(0) == 1,
        data_type_flag((t + 1) as u32) == 2 * data_type_flag(t),
{
    let u = (t + 1) as u32;
    assert((1u32 << 0u32) as i32 == 1) by (bit_vector);
    assert((1u32 << u) as i32 == 2 * ((1u32 << t) as i32)) by (bit_vector)
        requires
            t < 30,
            u == t + 1,
    ;
}

impl BufferInfo {
    /// Writes the parameter. More buffers are preferred to fewer.
    pub fn serialize(&self) -> (p: BufferParams)
        requires
            self.data_type@.len() > 0,
            forall|i: int| 0 <= i < self.data_type@.len() ==> self.data_type@[i] < 32,
        ensures
            p.buffers == (if self.buffers.0 != self.buffers.1 {
                BufferCount::Range {
                    default: self.buffers.1 as i32,
                    min: self.buffers.0 as i32,
                    max: self.buffers.1 as i32,
                }
            } else {
                BufferCount::Fixed(self.buffers.0 as i32)
            }),
            p.blocks == self.blocks as i32,
            p.size == self.size as i32,
            p.stride == self.stride as i32,
            p.data_type_default == data_type_flag(self.data_type@[0]),
            p.data_type_flags@ == self.data_type@.map_values(|t: u32| data_type_flag(t)),
    {
        let buffers = if self.buffers.0 != self.buffers.1 {
            BufferCount::Range {
                default: self.buffers.1 as i32,
                min: self.buffers.0 as i32,
                max: self.buffers.1 as i32,
            }
        } else {
            BufferCount::Fixed(self.buffers.0 as i32)
        };
        let mut flags: Vec<i32> = Vec::new();
        for i in 0..self.data_type.len()
            invariant
                forall|j: int| 0 <= j < self.data_type@.len() ==> self.data_type@[j] < 32,
                flags@ == self.data_type@.take(i as int).map_values(|t: u32| data_type_flag(t)),
        {
            flags.push((1u32 << self.data_type[i]) as i32);
            assert(flags@ =~= self.data_type@.take(i + 1).map_values(
                |t: u32| data_type_flag(t),
            ));
        }
        assert(self.data_type@.take(self.data_type@.len() as int) =~= self.data_type@);
        BufferParams {
            buffers,
            blocks: self.blocks as i32,
            size: self.size as i32,
            stride: self.stride as i32,
            data_type_default: (1u32 << self.data_type[0]) as i32,
            data_type_flags: flags,
        }
    }
}

/// The memory of one plane of a buffer, as it is described to PipeWire.
#[derive(Debug, Clone, Copy, PartialEq, Eq, Structural)]
pub struct PlaneLayout {
    pub maxsize: u32,
    pub offset: u32,
    pub size: u32,
    pub stride: i32,
}

/// Describes a plane by its stride and its offset: it spans all lines of the
/// buffer.
pub fn plane_layout(stride: u32, offset: u32, height: u32) -> (p: PlaneLayout)
    requires
        stride * height <= u32::MAX,
    ensures
        p.maxsize == stride * height,
        p.size == stride * height,
        p.offset == offset,
        p.stride == stride as i32,
{
    PlaneLayout { maxsize: stride * height, offset, size: stride * height, stride: stride as i32 }
}

} // verus!
