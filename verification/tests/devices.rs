use companion::devices::{
    common_sample_rates, get_default_device, get_device_by_id, list_devices,
    resolve_output_device, sort_devices, AudioDevice, DeviceProbe, OutputDevice,
};
use companion::formats::{
    build_formats, extract_capabilities, SampleFormat, StreamConfig, StreamConfigRange,
    SupportedPcmFormat,
};

fn range(channels: u16, min: u32, max: u32) -> StreamConfigRange {
    StreamConfigRange {
        channels,
        min_sample_rate: min,
        max_sample_rate: max,
        sample_format: SampleFormat::F32,
    }
}

fn probe(name: &str, configs: Option<Vec<StreamConfigRange>>) -> DeviceProbe {
    DeviceProbe {
        name: Some(name.to_string()),
        configs,
    }
}

fn names(list: &[Option<&str>]) -> Result<Vec<Option<String>>, String> {
    Ok(list.iter().map(|n| n.map(|s| s.to_string())).collect())
}

#[test]
fn test_list_devices() {
    let devices = list_devices(
        Some("Speaker".to_string()),
        Ok(vec![
            probe("Speaker", Some(vec![range(2, 44_100, 48_000)])),
            probe("Headset", None),
        ]),
    );
    println!("Found devices: {:?}", devices);
    assert!(devices.is_ok());
}

#[test]
fn test_device_sorting_default_first_and_alphabetical() {
    let devices = [
        AudioDevice {
            id: "z".into(),
            name: "Zebra".into(),
            is_default: false,
            sample_rates: vec![],
            max_channels: 2,
        },
        AudioDevice {
            id: "a".into(),
            name: "Apple".into(),
            is_default: false,
            sample_rates: vec![],
            max_channels: 2,
        },
        AudioDevice {
            id: "d".into(),
            name: "Default Speaker".into(),
            is_default: true,
            sample_rates: vec![],
            max_channels: 2,
        },
        AudioDevice {
            id: "m".into(),
            name: "Monitor".into(),
            is_default: false,
            sample_rates: vec![],
            max_channels: 2,
        },
    ]
    .to_vec();

    let devices = sort_devices(devices);

    assert_eq!(devices[0].name, "Default Speaker");
    assert!(devices[0].is_default);
    assert_eq!(devices[1].name, "Apple");
    assert_eq!(devices[2].name, "Monitor");
    assert_eq!(devices[3].name, "Zebra");
}

#[test]
fn devices_of_the_same_name_stay_in_order() {
    let device = |id: &str, name: &str| AudioDevice {
        id: id.to_string(),
        name: name.to_string(),
        is_default: false,
        sample_rates: vec![],
        max_channels: 0,
    };
    let sorted = sort_devices(vec![
        device("1", "b"),
        device("2", "a"),
        device("3", "b"),
        device("4", "ab"),
        device("5", "a"),
        device("6", "\u{e9}"),
        device("7", "B"),
    ]);
    let ids: Vec<&str> = sorted.iter().map(|d| d.id.as_str()).collect();
    assert_eq!(ids, vec!["7", "2", "5", "4", "1", "3", "6"]);
    assert!(sort_devices(vec![]).is_empty());
}

#[test]
fn sorting_is_what_a_stable_sort_does() {
    let words = ["", "a", "aa", "A", "z", "\u{10ffff}", "\u{ffff}", "a\u{0}", "Z", "\u{7ff}"];
    let mut devices = Vec::new();
    for i in 0..60usize {
        devices.push(AudioDevice {
            id: format!("{}", i),
            name: words[(i * 7 + i / 3) % words.len()].to_string(),
            is_default: i % 13 == 5,
            sample_rates: vec![],
            max_channels: 1,
        });
    }
    let mut expected = devices.clone();
    expected.sort_by(|a, b| {
        b.is_default
            .cmp(&a.is_default)
            .then_with(|| a.name.cmp(&b.name))
    });
    assert_eq!(sort_devices(devices), expected);
}

#[test]
fn listing_shows_common_rates_and_channels() {
    let listed = list_devices(
        Some("Speaker".to_string()),
        Ok(vec![
            probe(
                "Headset",
                Some(vec![range(1, 8_000, 48_000), range(2, 96_000, 96_000)]),
            ),
            DeviceProbe {
                name: None,
                configs: Some(vec![range(2, 44_100, 48_000)]),
            },
            probe("Speaker", Some(vec![range(6, 192_000, 384_000), range(8, 1, 2)])),
            probe("DAC", None),
            probe("Broken", Some(vec![])),
        ]),
    )
    .unwrap();
    assert_eq!(
        listed,
        vec![
            AudioDevice {
                id: "Speaker".into(),
                name: "Speaker".into(),
                is_default: true,
                sample_rates: vec![192_000, 384_000],
                max_channels: 8,
            },
            AudioDevice {
                id: "Broken".into(),
                name: "Broken".into(),
                is_default: false,
                sample_rates: vec![],
                max_channels: 0,
            },
            AudioDevice {
                id: "DAC".into(),
                name: "DAC".into(),
                is_default: false,
                sample_rates: vec![44_100, 48_000],
                max_channels: 2,
            },
            AudioDevice {
                id: "Headset".into(),
                name: "Headset".into(),
                is_default: false,
                sample_rates: vec![44_100, 48_000, 96_000],
                max_channels: 2,
            },
        ]
    );
}

#[test]
fn listing_without_a_default_device() {
    let listed = list_devices(None, Ok(vec![probe("b", None), probe("a", None)])).unwrap();
    assert_eq!(listed[0].name, "a");
    assert!(!listed[0].is_default && !listed[1].is_default);
    assert_eq!(list_devices(None, Ok(vec![])), Ok(vec![]));
}

#[test]
fn failed_enumeration_is_reported() {
    assert_eq!(
        list_devices(None, Err("no host".to_string())),
        Err("Failed to enumerate devices: no host".to_string())
    );
    assert_eq!(
        get_device_by_id("x", &Err("no host".to_string())),
        Err("Failed to enumerate devices: no host".to_string())
    );
}

#[test]
fn common_rates_are_the_seven_of_the_ladder() {
    assert_eq!(
        common_sample_rates(&vec![range(2, 0, 1_000_000)]),
        vec![44_100, 48_000, 88_200, 96_000, 176_400, 192_000, 384_000]
    );
    assert!(common_sample_rates(&vec![range(2, 352_800, 352_800)]).is_empty());
    assert_eq!(common_sample_rates(&vec![range(2, 48_000, 48_000)]), vec![48_000]);
}

#[test]
fn test_get_device_by_id_nonexistent_returns_error() {
    let enumerated = names(&[Some("Speaker"), None, Some("Headset")]);
    let result = get_device_by_id("definitely_not_a_real_device_12345", &enumerated);
    match result {
        Err(err) => {
            assert!(
                err.contains("definitely_not_a_real_device_12345"),
                "Error should contain the device ID, got: {}",
                err
            );
            assert_eq!(err, "Device not found: definitely_not_a_real_device_12345");
        }
        Ok(_) => panic!("Expected error for nonexistent device"),
    }
}

#[test]
fn first_device_with_the_name_is_found() {
    let enumerated = names(&[None, Some("A"), Some("B"), Some("B")]);
    assert_eq!(get_device_by_id("B", &enumerated), Ok(2));
    assert_eq!(get_device_by_id("A", &enumerated), Ok(1));
}

#[test]
fn default_device_or_reason() {
    assert_eq!(get_default_device(Some(7)), Ok(7));
    assert_eq!(
        get_default_device::<u8>(None),
        Err("No default output device available".to_string())
    );
}

#[test]
fn output_goes_to_the_requested_device_or_the_default() {
    let enumerated = names(&[Some("A"), Some("B")]);
    let failed = Err("gone".to_string());
    assert_eq!(
        resolve_output_device(Some("B"), &enumerated, true),
        Some(OutputDevice::Listed(1))
    );
    assert_eq!(
        resolve_output_device(Some("B"), &enumerated, false),
        Some(OutputDevice::Listed(1))
    );
    assert_eq!(
        resolve_output_device(Some("C"), &enumerated, true),
        Some(OutputDevice::Default)
    );
    assert_eq!(resolve_output_device(Some("C"), &enumerated, false), None);
    assert_eq!(
        resolve_output_device(Some("A"), &failed, true),
        Some(OutputDevice::Default)
    );
    assert_eq!(
        resolve_output_device(None, &enumerated, true),
        Some(OutputDevice::Default)
    );
    assert_eq!(resolve_output_device(None, &enumerated, false), None);
}

#[test]
fn every_named_device_is_listed_and_found() {
    let nameless = DeviceProbe {
        name: None,
        configs: None,
    };
    let probes = vec![probe("Zebra", None), nameless, probe("Apple", None)];
    let enumerated = names(&[Some("Zebra"), None, Some("Apple")]);
    let shown = list_devices(Some("Zebra".to_string()), Ok(probes)).unwrap();
    assert_eq!(shown.len(), 2);
    assert_eq!(shown[0].id, "Zebra");
    assert_eq!(shown[1].id, "Apple");
    assert_eq!(get_device_by_id(&shown[0].id, &enumerated), Ok(0));
    assert_eq!(get_device_by_id(&shown[1].id, &enumerated), Ok(2));
}

#[test]
fn identifiers_are_unique_as_far_as_names_are() {
    let ids = |probes: Vec<DeviceProbe>| -> Vec<String> {
        list_devices(None, Ok(probes))
            .unwrap()
            .into_iter()
            .map(|d| d.id)
            .collect()
    };
    assert_eq!(
        ids(vec![probe("B", None), probe("A", None), probe("C", None)]),
        vec!["A", "B", "C"]
    );
    assert_eq!(
        ids(vec![probe("B", None), probe("A", None), probe("B", None)]),
        vec!["A", "B", "B"]
    );
}

#[test]
fn listed_stereo_rates_are_offered_and_offered_rates_are_listed() {
    // Mono up to 48 kHz, stereo at 96 kHz, running at an uncommon rate.
    let configs = vec![range(1, 44_100, 48_000), range(2, 96_000, 96_000)];
    let shown = list_devices(None, Ok(vec![probe("DAC", Some(configs.clone()))])).unwrap();
    assert_eq!(shown[0].sample_rates, vec![44_100, 48_000, 96_000]);
    let native = StreamConfig {
        channels: 2,
        sample_rate: 352_800,
        sample_format: SampleFormat::I16,
    };
    let caps = extract_capabilities(Some(native), Some(configs));
    let stereo = |sample_rate: u32, bit_depth: u16| SupportedPcmFormat {
        channels: 2,
        sample_rate,
        bit_depth,
    };
    assert_eq!(
        build_formats(&caps),
        vec![stereo(352_800, 16), stereo(96_000, 16), stereo(96_000, 24)]
    );
}
