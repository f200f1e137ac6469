use egl_screencast::format::VideoFormat;
use egl_screencast::param::{
    plane_layout, stop_text, BufferCount, BufferInfo, BufferSource, DeserializeError, FormatKey, LongChoice,
    Negotiation, NegotiationError, ParamAction, ParamEvent, ParamFormat, PlaneLayout, PodValue,
    Property, PropertyFlags,
};
use egl_screencast::stream::stream_formats;
use egl_screencast::format::FormatModifiers;

const INVALID: u64 = 0x00ff_ffff_ffff_ffff;

fn format(modifiers: &[u64], fixate: bool) -> ParamFormat<Vec<u64>> {
    ParamFormat {
        format: Some(VideoFormat::Bgrx),
        modifiers: modifiers.to_vec(),
        width: 640,
        height: 480,
        fixate,
    }
}

fn property(key: FormatKey, value: PodValue<Vec<i64>>) -> Property<Vec<i64>> {
    Property { key, value, flags: PropertyFlags { mandatory: false, dont_fixate: false } }
}

fn read(props: Vec<Property<Vec<i64>>>) -> ParamFormat<Vec<u64>> {
    ParamFormat::deserialize(&props).unwrap()
}

fn modifier_choice(props: &Vec<Property<Vec<i64>>>) -> (i64, Vec<i64>, PropertyFlags) {
    for p in props {
        if let PodValue::LongChoice(LongChoice::Enum { default, alternatives }) = &p.value {
            assert_eq!(p.key, FormatKey::VideoModifier);
            return (*default, alternatives.clone(), p.flags);
        }
    }
    panic!("no choice of modifiers");
}

#[test]
fn format_is_written_as_properties() {
    let props = format(&[5, 6], false).serialize();
    let keys: Vec<FormatKey> = props.iter().map(|p| p.key).collect();
    assert_eq!(
        keys,
        vec![
            FormatKey::MediaType,
            FormatKey::MediaSubtype,
            FormatKey::VideoFormat,
            FormatKey::VideoModifier,
            FormatKey::VideoSize,
            FormatKey::VideoFramerate,
        ]
    );
    assert!(matches!(props[0].value, PodValue::MediaVideo));
    assert!(matches!(props[1].value, PodValue::MediaRaw));
    assert!(matches!(props[2].value, PodValue::Format(VideoFormat::Bgrx)));
    assert!(matches!(props[4].value, PodValue::Size { width: 640, height: 480 }));
    assert!(matches!(props[5].value, PodValue::Fraction { num: 0, denom: 1 }));
    let (default, alternatives, flags) = modifier_choice(&props);
    assert_eq!(default, 5);
    assert_eq!(alternatives, vec![5, 6, INVALID as i64]);
    assert_eq!(flags, PropertyFlags { mandatory: true, dont_fixate: false });
}

#[test]
fn fixated_format_offers_its_modifier_only() {
    let props = format(&[5], true).serialize();
    let (default, alternatives, flags) = modifier_choice(&props);
    assert_eq!((default, alternatives), (5, vec![5]));
    assert_eq!(flags, PropertyFlags { mandatory: true, dont_fixate: true });
}

#[test]
fn invalid_modifier_is_not_offered_twice() {
    let (_, alternatives, _) = modifier_choice(&format(&[5, INVALID], false).serialize());
    assert_eq!(alternatives, vec![5, INVALID as i64]);
    let props = format(&[INVALID], false).serialize();
    assert!(matches!(props[3].value, PodValue::Long(m) if m == INVALID as i64));
    assert_eq!(props[3].flags, PropertyFlags { mandatory: true, dont_fixate: false });
    let props = format(&[INVALID], true).serialize();
    assert!(matches!(props[3].value, PodValue::Long(_)));
    assert_eq!(props[3].flags, PropertyFlags { mandatory: true, dont_fixate: false });
}

#[test]
fn absent_format_is_not_written() {
    let mut p = format(&[5], false);
    p.format = None;
    assert_eq!(p.serialize().len(), 5);
    assert_eq!(read(p.serialize()).format, None);
}

#[test]
fn written_format_is_read_back() {
    let back = read(format(&[5, u64::MAX], false).serialize());
    assert_eq!(back.format, Some(VideoFormat::Bgrx));
    assert_eq!((back.width, back.height), (640, 480));
    assert_eq!(back.modifiers, vec![5, 5, u64::MAX, INVALID]);
    assert!(back.fixate);
    let back = read(format(&[5], true).serialize());
    assert_eq!(back.modifiers, vec![5, 5]);
    assert!(!back.fixate);
    let back = read(format(&[INVALID], false).serialize());
    assert_eq!(back.modifiers, vec![INVALID]);
}

#[test]
fn announced_format_satisfies_itself() {
    for p in [format(&[5], true), format(&[5, 6], false), format(&[INVALID], true)] {
        assert!(p.satisfies(&read(p.serialize())));
        assert!(p.satisfies(&p));
    }
}

#[test]
fn satisfaction_compares_pixels_size_and_modifiers() {
    let a = format(&[5], true);
    assert!(a.satisfies(&format(&[6, 5], false)));
    assert!(!format(&[6, 5], false).satisfies(&a));
    let mut b = format(&[5], true);
    b.width = 641;
    assert!(!a.satisfies(&b));
    let mut b = format(&[5], true);
    b.height = 1;
    assert!(!a.satisfies(&b));
    let mut b = format(&[5], true);
    b.format = None;
    assert!(!a.satisfies(&b));
    assert!(!b.satisfies(&a));
    let mut c = format(&[5], true);
    c.format = None;
    assert!(b.satisfies(&c));
    b.format = Some(VideoFormat::Rgb);
    assert!(!a.satisfies(&b));
}

#[test]
fn properties_are_read_in_all_their_shapes() {
    let p = read(vec![
        property(FormatKey::VideoSize, PodValue::SizeChoice(Some((3, 4)))),
        property(FormatKey::VideoModifier, PodValue::Long(-1)),
        property(FormatKey::VideoModifier, PodValue::LongChoice(LongChoice::Single(9))),
        property(FormatKey::VideoFormat, PodValue::FormatChoice(Some(VideoFormat::Other(99)))),
        property(FormatKey::Unknown, PodValue::Other),
    ]);
    assert_eq!((p.width, p.height), (3, 4));
    assert_eq!(p.modifiers, vec![u64::MAX, 9]);
    assert_eq!(p.format, Some(VideoFormat::Other(99)));
    assert!(p.fixate);
    let empty = read(vec![]);
    assert_eq!((empty.format, empty.width, empty.height, empty.fixate), (None, 0, 0, false));
    assert!(empty.modifiers.is_empty());
}

#[test]
fn unreadable_properties_are_refused() {
    let cases = [
        (FormatKey::VideoSize, PodValue::SizeChoice(None), DeserializeError::InvalidType),
        (FormatKey::VideoSize, PodValue::Long(1), DeserializeError::InvalidType),
        (FormatKey::VideoFormat, PodValue::FormatChoice(None), DeserializeError::InvalidType),
        (FormatKey::VideoFormat, PodValue::Other, DeserializeError::InvalidType),
        (
            FormatKey::VideoModifier,
            PodValue::LongChoice(LongChoice::Other),
            DeserializeError::InvalidChoiceType,
        ),
        (FormatKey::VideoModifier, PodValue::Other, DeserializeError::InvalidChoiceType),
    ];
    for (key, value, error) in cases {
        let props = vec![property(key, value), property(FormatKey::VideoSize, PodValue::Other)];
        assert_eq!(ParamFormat::deserialize(&props).unwrap_err(), error);
    }
}

fn chosen(p: &ParamFormat<Vec<u64>>) -> ParamEvent {
    ParamEvent::FormatChosen(p.serialize())
}

fn picked(modifiers: &[i64], format: Option<VideoFormat>, dont_fixate: bool) -> ParamEvent {
    let mut props: Vec<Property<Vec<i64>>> = modifiers
        .iter()
        .map(|m| Property {
            key: FormatKey::VideoModifier,
            value: PodValue::Long(*m),
            flags: PropertyFlags { mandatory: true, dont_fixate },
        })
        .collect();
    if let Some(f) = format {
        props.push(property(FormatKey::VideoFormat, PodValue::Format(f)));
    }
    props.push(property(FormatKey::VideoSize, PodValue::Size { width: 8, height: 9 }));
    ParamEvent::FormatChosen(props)
}

#[test]
fn open_choice_is_fixated_and_announced() {
    let mut n = Negotiation::new();
    let event = picked(&[7, 8], Some(VideoFormat::Bgrx), true);
    assert!(n.can_allocate(&event));
    let out = match n.on_param_changed(event) {
        Ok(ParamAction::Announce(out)) => out,
        other => panic!("unexpected {:?}", other),
    };
    let (default, alternatives, flags) = modifier_choice(&out);
    assert_eq!((default, alternatives), (7, vec![7]));
    assert!(flags.dont_fixate);
    assert!(matches!(
        n.on_param_changed(ParamEvent::FormatChosen(out)),
        Ok(ParamAction::Nothing)
    ));
    assert!(matches!(
        n.on_param_changed(picked(&[8], Some(VideoFormat::Bgrx), false)),
        Err(NegotiationError::DifferentFormat)
    ));
}

#[test]
fn fixated_choice_is_tried_out() {
    let mut n = Negotiation::new();
    assert!(matches!(n.add_buffer(), Err(NegotiationError::NotNegotiated)));
    let event = picked(&[7, 8], Some(VideoFormat::Bgrx), false);
    let params = match n.on_param_changed(event) {
        Ok(ParamAction::TestAllocate { params, fourcc, modifier }) => {
            assert_eq!(fourcc, u32::from_le_bytes(*b"XR24"));
            assert_eq!(modifier, 7);
            params
        }
        other => panic!("unexpected {:?}", other),
    };
    n.keep_test_buffer();
    let info = n.complete_test(params, 32, 9, 2, 3);
    assert_eq!(info.buffers, (2, 3));
    assert_eq!((info.blocks, info.size, info.stride), (2, 288, 32));
    assert_eq!(info.data_type, vec![3]);
    assert!(n.can_add_buffer());
    assert!(matches!(n.add_buffer(), Ok(BufferSource::TestBuffer)));
    match n.add_buffer() {
        Ok(BufferSource::Allocate { width, height, fourcc, modifiers }) => {
            assert_eq!((width, height), (8, 9));
            assert_eq!(fourcc, u32::from_le_bytes(*b"XR24"));
            assert_eq!(modifiers, vec![7, 8]);
        }
        other => panic!("unexpected {:?}", other),
    }
    match n.on_param_changed(ParamEvent::FormatRemoved) {
        Ok(ParamAction::Stop { text }) => {
            assert_eq!(text, format!("Error: {:?}", "Format removed, stopping."));
            assert_eq!(text, stop_text());
        }
        other => panic!("unexpected {:?}", other),
    }
}

#[test]
fn other_changes_do_nothing() {
    let mut n = Negotiation::new();
    assert!(matches!(n.on_param_changed(ParamEvent::OtherParam), Ok(ParamAction::Nothing)));
    assert!(matches!(n.on_param_changed(ParamEvent::FormatRemoved), Ok(ParamAction::Nothing)));
}

#[test]
fn negotiation_errors() {
    let mut n = Negotiation::new();
    let e = n.on_param_changed(picked(&[], Some(VideoFormat::Bgrx), false)).unwrap_err();
    assert_eq!(e, NegotiationError::NoDmaBuf);
    assert_eq!(e.message(), "Client doesn't support DMA-Buf");
    let e = n.on_param_changed(picked(&[1], None, false)).unwrap_err();
    assert_eq!(e, NegotiationError::FormatMissing);
    assert_eq!(e.message(), "Format missing");
    let bad = vec![property(FormatKey::VideoSize, PodValue::Other)];
    let e = n.on_param_changed(ParamEvent::FormatChosen(bad)).unwrap_err();
    assert_eq!(e, NegotiationError::Unreadable(DeserializeError::InvalidType));
    assert_eq!(e.message(), "InvalidType");
    let bad = vec![property(FormatKey::VideoModifier, PodValue::Other)];
    let e = n.on_param_changed(ParamEvent::FormatChosen(bad)).unwrap_err();
    assert_eq!(e.message(), "InvalidChoiceType");
    assert_eq!(
        NegotiationError::DifferentFormat.message(),
        "Client requested a different format"
    );
    assert_eq!(
        n.add_buffer().unwrap_err().message(),
        "add_buffer called without a negotiated format"
    );
}

#[test]
fn pixels_without_drm_name_cannot_be_allocated() {
    let n = Negotiation::new();
    assert!(!n.can_allocate(&picked(&[1], Some(VideoFormat::Other(5)), false)));
    assert!(n.can_allocate(&picked(&[1], Some(VideoFormat::Other(5)), true)));
    assert!(n.can_allocate(&ParamEvent::OtherParam));
    let mut n = Negotiation::new();
    n.on_param_changed(picked(&[1], Some(VideoFormat::Other(5)), true)).unwrap();
    assert!(!n.can_add_buffer());
    assert!(n.can_allocate(&chosen(&format(&[1], true))));
}

#[test]
fn buffer_parameters() {
    let info =
        BufferInfo { buffers: (2, 3), blocks: 1, size: 100, stride: 10, data_type: vec![3, 0] };
    let p = info.serialize();
    assert_eq!(p.buffers, BufferCount::Range { default: 3, min: 2, max: 3 });
    assert_eq!((p.blocks, p.size, p.stride), (1, 100, 10));
    assert_eq!(p.data_type_default, 8);
    assert_eq!(p.data_type_flags, vec![8, 1]);
    let info = BufferInfo { buffers: (4, 4), blocks: 1, size: 1, stride: 1, data_type: vec![31] };
    let p = info.serialize();
    assert_eq!(p.buffers, BufferCount::Fixed(4));
    assert_eq!(p.data_type_default, i32::MIN);
}

#[test]
fn planes_span_all_lines() {
    assert_eq!(
        plane_layout(256, 64, 10),
        PlaneLayout { maxsize: 2560, offset: 64, size: 2560, stride: 256 }
    );
}

#[test]
fn stream_offers_every_format() {
    let formats = vec![
        FormatModifiers { format: VideoFormat::Bgrx, modifiers: vec![1, 2] },
        FormatModifiers { format: VideoFormat::Rgba, modifiers: vec![INVALID] },
    ];
    let pods = stream_formats(&formats, 20, 10);
    assert_eq!(pods.len(), 2);
    let (default, alternatives, flags) = modifier_choice(&pods[0]);
    assert_eq!((default, alternatives), (1, vec![1, 2, INVALID as i64]));
    assert!(!flags.dont_fixate);
    assert!(matches!(pods[1][2].value, PodValue::Format(VideoFormat::Rgba)));
    assert!(matches!(pods[1][4].value, PodValue::Size { width: 20, height: 10 }));
}
