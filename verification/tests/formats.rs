use egl_screencast::format::{
    collect_formats, extra_modifier_check, fourcc_to_spa_format, has_fourcc, pair_modifiers,
    queryable_formats, select_modifiers, spa_format_to_fourcc, AmdModifier, EglModifier, Modifier,
    OfferedFormat, VideoFormat,
};

fn fourcc(code: &[u8; 4]) -> u32 {
    u32::from_le_bytes(*code)
}

const AMD_GFX10_DCC: u64 = (2 << 56) | (1 << 13) | 2;

#[test]
fn formats_translate_both_ways() {
    let pairs = [
        (b"RG24", VideoFormat::Bgr),
        (b"BG24", VideoFormat::Rgb),
        (b"BA24", VideoFormat::Argb),
        (b"AB24", VideoFormat::Rgba),
        (b"RA24", VideoFormat::Abgr),
        (b"AR24", VideoFormat::Bgra),
        (b"BX24", VideoFormat::Xrgb),
        (b"XB24", VideoFormat::Rgbx),
        (b"XR24", VideoFormat::Bgrx),
        (b"RX24", VideoFormat::Xbgr),
        (b"AB30", VideoFormat::Abgr210Le),
        (b"XB30", VideoFormat::Xbgr210Le),
        (b"AR30", VideoFormat::Argb210Le),
        (b"XR30", VideoFormat::Xrgb210Le),
    ];
    for (code, format) in pairs {
        assert_eq!(fourcc_to_spa_format(fourcc(code)), Some(format));
        assert!(has_fourcc(format));
        assert_eq!(spa_format_to_fourcc(format), fourcc(code));
    }
    assert_eq!(fourcc_to_spa_format(fourcc(b"NV12")), None);
    assert_eq!(fourcc_to_spa_format(0), None);
    assert!(!has_fourcc(VideoFormat::Other(23)));
}

#[test]
fn formats_agree_with_the_drm_crate() {
    assert_eq!(fourcc(b"XR24"), drm_fourcc::DrmFourcc::Xrgb8888 as u32);
    assert_eq!(fourcc(b"RG24"), drm_fourcc::DrmFourcc::Rgb888 as u32);
    assert_eq!(fourcc(b"BG24"), drm_fourcc::DrmFourcc::Bgr888 as u32);
    assert_eq!(fourcc(b"BA24"), drm_fourcc::DrmFourcc::Bgra8888 as u32);
    assert_eq!(fourcc(b"AB24"), drm_fourcc::DrmFourcc::Abgr8888 as u32);
    assert_eq!(fourcc(b"RA24"), drm_fourcc::DrmFourcc::Rgba8888 as u32);
    assert_eq!(fourcc(b"AR24"), drm_fourcc::DrmFourcc::Argb8888 as u32);
    assert_eq!(fourcc(b"BX24"), drm_fourcc::DrmFourcc::Bgrx8888 as u32);
    assert_eq!(fourcc(b"XB24"), drm_fourcc::DrmFourcc::Xbgr8888 as u32);
    assert_eq!(fourcc(b"RX24"), drm_fourcc::DrmFourcc::Rgbx8888 as u32);
    assert_eq!(fourcc(b"AB30"), drm_fourcc::DrmFourcc::Abgr2101010 as u32);
    assert_eq!(fourcc(b"XB30"), drm_fourcc::DrmFourcc::Xbgr2101010 as u32);
    assert_eq!(fourcc(b"AR30"), drm_fourcc::DrmFourcc::Argb2101010 as u32);
    assert_eq!(fourcc(b"XR30"), drm_fourcc::DrmFourcc::Xrgb2101010 as u32);
}

#[test]
fn modifier_fields() {
    let m = AMD_GFX10_DCC | (1 << 16);
    assert_eq!(Modifier(m).vendor(), 2);
    assert_eq!(AmdModifier(m).tile_version(), 2);
    assert!(AmdModifier(m).dcc());
    assert!(AmdModifier(m).dcc_independent_64b());
    assert!(!AmdModifier(0x100).dcc());
    assert_eq!(AmdModifier(0x1ff).tile_version(), 0xff);
    assert_eq!(Modifier(u64::MAX).vendor(), 0xff);
}

#[test]
fn large_buffers_need_suitable_modifiers() {
    assert!(extra_modifier_check(0, 10_000, 10_000));
    assert!(extra_modifier_check(AMD_GFX10_DCC, 2560, 2560));
    assert!(!extra_modifier_check(AMD_GFX10_DCC, 2561, 2560));
    assert!(!extra_modifier_check(AMD_GFX10_DCC, 2560, 2561));
    assert!(extra_modifier_check(AMD_GFX10_DCC | (1 << 16), 4000, 4000));
    assert!(extra_modifier_check((2 << 56) | (1 << 13) | 1, 4000, 4000));
    assert!(extra_modifier_check((2 << 56) | 2, 4000, 4000));
    assert!(extra_modifier_check((1 << 56) | (1 << 13) | 2, 4000, 4000));
}

#[test]
fn modifier_that_fits_also_fits_smaller_screens() {
    for m in [0, AMD_GFX10_DCC, AMD_GFX10_DCC | (1 << 16), u64::MAX] {
        for (w, h) in [(100u16, 100u16), (2560, 2560), (3000, 100), (4000, 4000)] {
            if extra_modifier_check(m, w, h) {
                assert!(extra_modifier_check(m, w / 2, h));
                assert!(extra_modifier_check(m, w, h - 1));
            }
        }
    }
}

#[test]
fn modifiers_are_paired_and_selected() {
    let list = pair_modifiers(&vec![5, 6, AMD_GFX10_DCC], &vec![0, 1, 0, 0]);
    assert_eq!(
        list,
        vec![
            EglModifier { modifier: 5, external_only: 0 },
            EglModifier { modifier: 6, external_only: 1 },
            EglModifier { modifier: AMD_GFX10_DCC, external_only: 0 },
        ]
    );
    assert_eq!(select_modifiers(&list, 1920, 1080), vec![5, AMD_GFX10_DCC]);
    assert_eq!(select_modifiers(&list, 3840, 2160), vec![5]);
    assert_eq!(pair_modifiers(&vec![1, 2], &vec![7]).len(), 1);
}

#[test]
fn only_known_formats_are_queried() {
    let formats = vec![
        fourcc(b"XR24") as i32,
        fourcc(b"NV12") as i32,
        7,
        fourcc(b"AR24") as i32,
        fourcc(b"XR24") as i32,
        -1,
    ];
    assert_eq!(queryable_formats(&formats), vec![fourcc(b"XR24"), fourcc(b"AR24")]);
    assert_eq!(queryable_formats(&vec![]), Vec::<u32>::new());
}

#[test]
fn formats_without_usable_modifier_are_not_offered() {
    let all = vec![
        OfferedFormat {
            fourcc: fourcc(b"XR24"),
            modifiers: vec![
                EglModifier { modifier: 1, external_only: 0 },
                EglModifier { modifier: 2, external_only: 1 },
                EglModifier { modifier: 3, external_only: 0 },
            ],
        },
        OfferedFormat {
            fourcc: fourcc(b"AR24"),
            modifiers: vec![EglModifier { modifier: 2, external_only: 1 }],
        },
        OfferedFormat {
            fourcc: fourcc(b"NV12"),
            modifiers: vec![EglModifier { modifier: 1, external_only: 0 }],
        },
    ];
    let list = collect_formats(&all, 1920, 1080).unwrap();
    assert_eq!(list.len(), 1);
    assert_eq!(list[0].format, VideoFormat::Bgrx);
    assert_eq!(list[0].modifiers, vec![1, 3]);
    assert!(collect_formats(&vec![], 1, 1).is_none());
}
