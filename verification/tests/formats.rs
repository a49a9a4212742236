use companion::formats::{
    build_formats, derive_supported_pcm_formats, extract_capabilities,
    sample_format_supports_24bit, sort_key, ConfigRange, DeviceCapabilities, NativeFormat,
    SampleFormat, StreamConfig, StreamConfigRange, SupportedPcmFormat,
};

fn pcm(rate: u32, depth: u16) -> SupportedPcmFormat {
    SupportedPcmFormat {
        channels: 2,
        sample_rate: rate,
        bit_depth: depth,
    }
}

#[test]
fn sort_key_puts_native_rate_first() {
    assert!(sort_key(pcm(96_000, 16), Some(96_000)) < sort_key(pcm(48_000, 16), Some(96_000)));
}

#[test]
fn sort_key_follows_common_ladder_when_no_native_rate() {
    assert!(sort_key(pcm(48_000, 16), None) < sort_key(pcm(44_100, 16), None));
    assert!(sort_key(pcm(44_100, 16), None) < sort_key(pcm(96_000, 16), None));
    assert!(sort_key(pcm(96_000, 16), None) < sort_key(pcm(88_200, 16), None));
    assert!(sort_key(pcm(88_200, 16), None) < sort_key(pcm(192_000, 16), None));
    assert!(sort_key(pcm(192_000, 16), None) < sort_key(pcm(176_400, 16), None));
    assert!(sort_key(pcm(176_400, 16), None) < sort_key(pcm(384_000, 16), None));
}

#[test]
fn sort_key_handles_2205_family_rates_at_native() {
    assert!(sort_key(pcm(88_200, 16), Some(88_200)) < sort_key(pcm(48_000, 16), Some(88_200)));
    assert!(
        sort_key(pcm(176_400, 24), Some(176_400)) < sort_key(pcm(192_000, 16), Some(176_400))
    );
}

#[test]
fn sort_key_prefers_24bit_at_native_rate() {
    assert!(sort_key(pcm(96_000, 24), Some(96_000)) < sort_key(pcm(96_000, 16), Some(96_000)));
    assert!(sort_key(pcm(44_100, 24), Some(44_100)) < sort_key(pcm(44_100, 16), Some(44_100)));
}

#[test]
fn sort_key_prefers_16bit_at_non_native_rates() {
    assert!(sort_key(pcm(48_000, 16), None) < sort_key(pcm(48_000, 24), None));
    assert!(sort_key(pcm(48_000, 16), Some(96_000)) < sort_key(pcm(48_000, 24), Some(96_000)));
}

#[test]
fn sort_key_native_rate_at_any_depth_outranks_any_non_native_rate() {
    assert!(sort_key(pcm(96_000, 24), Some(96_000)) < sort_key(pcm(48_000, 16), Some(96_000)));
    assert!(sort_key(pcm(96_000, 16), Some(96_000)) < sort_key(pcm(48_000, 24), Some(96_000)));
}

#[test]
fn sort_key_values() {
    assert_eq!(sort_key(pcm(96_000, 16), Some(96_000)), (0, 1, 96_000, 16));
    assert_eq!(sort_key(pcm(96_000, 24), Some(96_000)), (0, 0, 96_000, 24));
    assert_eq!(sort_key(pcm(384_000, 24), None), (7, 1, 384_000, 24));
    assert_eq!(sort_key(pcm(352_800, 16), None), (8, 0, 352_800, 16));
}

#[test]
fn sample_format_supports_24bit_includes_high_precision_formats() {
    assert!(sample_format_supports_24bit(SampleFormat::I24));
    assert!(sample_format_supports_24bit(SampleFormat::U24));
    assert!(sample_format_supports_24bit(SampleFormat::I32));
    assert!(sample_format_supports_24bit(SampleFormat::U32));
    assert!(sample_format_supports_24bit(SampleFormat::I64));
    assert!(sample_format_supports_24bit(SampleFormat::U64));
    assert!(sample_format_supports_24bit(SampleFormat::F32));
    assert!(sample_format_supports_24bit(SampleFormat::F64));
}

#[test]
fn sample_format_supports_24bit_excludes_low_precision_formats() {
    assert!(!sample_format_supports_24bit(SampleFormat::I8));
    assert!(!sample_format_supports_24bit(SampleFormat::U8));
    assert!(!sample_format_supports_24bit(SampleFormat::I16));
    assert!(!sample_format_supports_24bit(SampleFormat::U16));
}

#[test]
fn one_bit_and_unknown_formats_do_not_carry_24bit() {
    assert!(!sample_format_supports_24bit(SampleFormat::DsdU8));
    assert!(!sample_format_supports_24bit(SampleFormat::DsdU16));
    assert!(!sample_format_supports_24bit(SampleFormat::DsdU32));
    assert!(!sample_format_supports_24bit(SampleFormat::Other));
}

#[test]
fn derive_returns_empty_when_device_is_none() {
    assert_eq!(
        derive_supported_pcm_formats(None),
        Vec::<SupportedPcmFormat>::new()
    );
}

#[test]
fn derive_returns_the_offer_of_a_device() {
    let caps = extract_capabilities(
        Some(StreamConfig {
            channels: 2,
            sample_rate: 352_800,
            sample_format: SampleFormat::I32,
        }),
        Some(vec![StreamConfigRange {
            channels: 2,
            min_sample_rate: 352_800,
            max_sample_rate: 352_800,
            sample_format: SampleFormat::I32,
        }]),
    );
    assert_eq!(
        derive_supported_pcm_formats(Some(&caps)),
        vec![pcm(352_800, 24), pcm(352_800, 16)]
    );
}

#[test]
fn build_formats_returns_empty_when_capabilities_are_empty() {
    assert!(build_formats(&DeviceCapabilities::default()).is_empty());
}

#[test]
fn build_formats_anchors_on_stereo_native_with_24bit_first() {
    let caps = DeviceCapabilities {
        native: Some(NativeFormat {
            channels: 2,
            sample_rate: 96_000,
            supports_24bit: true,
        }),
        ranges: vec![],
    };
    let formats = build_formats(&caps);
    assert_eq!(formats, vec![pcm(96_000, 24), pcm(96_000, 16)]);
}

#[test]
fn build_formats_anchors_on_stereo_native_without_24bit_support() {
    let caps = DeviceCapabilities {
        native: Some(NativeFormat {
            channels: 2,
            sample_rate: 48_000,
            supports_24bit: false,
        }),
        ranges: vec![],
    };
    assert_eq!(build_formats(&caps), vec![pcm(48_000, 16)]);
}

#[test]
fn build_formats_skips_mono_native() {
    let caps = DeviceCapabilities {
        native: Some(NativeFormat {
            channels: 1,
            sample_rate: 48_000,
            supports_24bit: true,
        }),
        ranges: vec![],
    };
    assert!(build_formats(&caps).is_empty());
}

#[test]
fn build_formats_skips_mono_ranges() {
    let caps = DeviceCapabilities {
        native: None,
        ranges: vec![ConfigRange {
            channels: 1,
            min_sample_rate: 44_100,
            max_sample_rate: 192_000,
            supports_24bit: true,
        }],
    };
    assert!(build_formats(&caps).is_empty());
}

#[test]
fn build_formats_uses_only_ranges_when_native_missing() {
    let caps = DeviceCapabilities {
        native: None,
        ranges: vec![ConfigRange {
            channels: 2,
            min_sample_rate: 44_100,
            max_sample_rate: 96_000,
            supports_24bit: false,
        }],
    };
    let formats = build_formats(&caps);
    assert_eq!(
        formats,
        vec![
            pcm(48_000, 16),
            pcm(44_100, 16),
            pcm(96_000, 16),
            pcm(88_200, 16),
        ]
    );
}

#[test]
fn build_formats_combines_native_and_ranges_with_native_first() {
    let caps = DeviceCapabilities {
        native: Some(NativeFormat {
            channels: 2,
            sample_rate: 96_000,
            supports_24bit: true,
        }),
        ranges: vec![ConfigRange {
            channels: 2,
            min_sample_rate: 44_100,
            max_sample_rate: 96_000,
            supports_24bit: false,
        }],
    };
    let formats = build_formats(&caps);
    assert_eq!(
        formats,
        vec![
            pcm(96_000, 24),
            pcm(96_000, 16),
            pcm(48_000, 16),
            pcm(44_100, 16),
            pcm(88_200, 16),
        ]
    );
}

#[test]
fn build_formats_dedups_when_native_and_range_overlap() {
    let caps = DeviceCapabilities {
        native: Some(NativeFormat {
            channels: 2,
            sample_rate: 48_000,
            supports_24bit: false,
        }),
        ranges: vec![ConfigRange {
            channels: 2,
            min_sample_rate: 44_100,
            max_sample_rate: 48_000,
            supports_24bit: false,
        }],
    };
    let formats = build_formats(&caps);
    assert_eq!(formats.iter().filter(|f| **f == pcm(48_000, 16)).count(), 1);
    assert_eq!(formats[0], pcm(48_000, 16));
    assert!(formats.contains(&pcm(44_100, 16)));
}

#[test]
fn offer_does_not_depend_on_the_order_of_ranges() {
    let a = ConfigRange {
        channels: 2,
        min_sample_rate: 44_100,
        max_sample_rate: 48_000,
        supports_24bit: false,
    };
    let b = ConfigRange {
        channels: 8,
        min_sample_rate: 48_000,
        max_sample_rate: 384_000,
        supports_24bit: true,
    };
    let native = Some(NativeFormat {
        channels: 2,
        sample_rate: 44_100,
        supports_24bit: false,
    });
    let one = build_formats(&DeviceCapabilities {
        native,
        ranges: vec![a, b],
    });
    let two = build_formats(&DeviceCapabilities {
        native,
        ranges: vec![b, a, b],
    });
    assert_eq!(one, two);
    assert_eq!(
        one,
        vec![
            pcm(44_100, 16),
            pcm(48_000, 16),
            pcm(48_000, 24),
            pcm(96_000, 16),
            pcm(96_000, 24),
            pcm(88_200, 16),
            pcm(88_200, 24),
            pcm(192_000, 16),
            pcm(192_000, 24),
            pcm(176_400, 16),
            pcm(176_400, 24),
            pcm(384_000, 16),
            pcm(384_000, 24),
        ]
    );
}

#[test]
fn a_range_may_widen_the_native_rate() {
    let formats = build_formats(&DeviceCapabilities {
        native: Some(NativeFormat {
            channels: 2,
            sample_rate: 48_000,
            supports_24bit: false,
        }),
        ranges: vec![ConfigRange {
            channels: 2,
            min_sample_rate: 48_000,
            max_sample_rate: 48_000,
            supports_24bit: true,
        }],
    });
    assert_eq!(formats, vec![pcm(48_000, 24), pcm(48_000, 16)]);
}

#[test]
fn capabilities_are_extracted_field_by_field() {
    assert_eq!(extract_capabilities(None, None), DeviceCapabilities::default());
    let caps = extract_capabilities(
        Some(StreamConfig {
            channels: 6,
            sample_rate: 44_100,
            sample_format: SampleFormat::I16,
        }),
        Some(vec![
            StreamConfigRange {
                channels: 2,
                min_sample_rate: 8_000,
                max_sample_rate: 48_000,
                sample_format: SampleFormat::F64,
            },
            StreamConfigRange {
                channels: 1,
                min_sample_rate: 1,
                max_sample_rate: 2,
                sample_format: SampleFormat::U8,
            },
        ]),
    );
    assert_eq!(
        caps,
        DeviceCapabilities {
            native: Some(NativeFormat {
                channels: 6,
                sample_rate: 44_100,
                supports_24bit: false,
            }),
            ranges: vec![
                ConfigRange {
                    channels: 2,
                    min_sample_rate: 8_000,
                    max_sample_rate: 48_000,
                    supports_24bit: true,
                },
                ConfigRange {
                    channels: 1,
                    min_sample_rate: 1,
                    max_sample_rate: 2,
                    supports_24bit: false,
                },
            ],
        }
    );
}
