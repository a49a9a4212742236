//! The audio output devices: how they are listed, looked up and chosen.
use vstd::prelude::*;
use crate::formats;
use crate::formats::StreamConfigRange;
use crate::order;
use crate::text;
use crate::text::{comes_before, join, same_text};

verus! {

/// An audio output device as it is shown to the user.
#[derive(Debug, Clone, PartialEq, Eq)]
pub struct AudioDevice {
    /// Identifier of the device. It is the name that the host gives the device,
    /// and so is unique exactly as far as the host's names are.
    pub id: String,
    /// Human-readable device name.
    pub name: String,
    /// Whether this is the system default device.
    pub is_default: bool,
    /// The common sample rates that the device supports.
    pub sample_rates: Vec<u32>,
    /// The highest number of output channels.
    pub max_channels: u16,
}

/// What the audio host reports of one output device.
#[derive(Debug, Clone, PartialEq, Eq)]
pub struct DeviceProbe {
    /// The device's name, missing where the host has no description of it.
    pub name: Option<String>,
    /// The supported configurations, missing where the host cannot tell.
    pub configs: Option<Vec<StreamConfigRange>>,
}

/// Which device the output goes to.
#[derive(Debug, Clone, Copy, PartialEq, Eq, Structural)]
pub enum OutputDevice {
    /// The device at this place among those enumerated.
    Listed(usize),
    /// The system default device.
    Default,
}

/// Whether one of `configs` covers a sample rate.
pub open spec fn rate_covered(configs: Seq<StreamConfigRange>, rate: u32) -> bool {
    exists|i: int|
        0 <= i < configs.len() && (#[trigger] configs[i]).min_sample_rate <= rate
            <= configs[i].max_sample_rate
}

/// The order of sample rates by size.
pub open spec fn rate_lt() -> spec_fn(u32, u32) -> bool {
    |a: u32, b: u32| a < b
}

/// Whether `rates` are the common sample rates that `configs` cover, in
/// increasing order.
pub open spec fn is_rate_list(configs: Seq<StreamConfigRange>, rates: Seq<u32>) -> bool {
    &&& forall|rate: u32| #[trigger]
        rates.contains(rate) <==> formats::is_common_rate(rate) && rate_covered(configs, rate)
    &&& order::increasing(rates, rate_lt())
}

/// The highest number of channels in `configs`, zero where there are none.
pub open spec fn most_channels(configs: Seq<StreamConfigRange>) -> u16
    decreases configs.len(),
{
    if configs.len() == 0 {
        0
    } else if configs.last().channels > most_channels(configs.drop_last()) {
        configs.last().channels
    } else {
        most_channels(configs.drop_last())
    }
}

/// Whether `device` is what a probe of the device called `name` is shown as.
/// The name serves as the identifier. Where the supported configurations are
/// not known, stereo at 44.1 and 48 kHz is taken for granted.
pub open spec fn describes(
    default_name: Option<Seq<char>>,
    name: Seq<char>,
    configs: Option<Vec<StreamConfigRange>>,
    device: AudioDevice,
) -> bool {
    &&& device.id@ == name
    &&& device.name@ == name
    &&& device.is_default <==> default_name == Some(name)
    &&& match configs {
        Some(c) => is_rate_list(c@, device.sample_rates@) && device.max_channels == most_channels(
            c@,
        ),
        None => device.sample_rates@ == seq![44_100u32, 48_000u32] && device.max_channels == 2,
    }
}

/// Whether `devices` are the probed devices that have a name, in the order of
/// the probes.
pub open spec fn are_described(
    default_name: Option<Seq<char>>,
    probes: Seq<DeviceProbe>,
    devices: Seq<AudioDevice>,
) -> bool
    decreases probes.len(),
{
    if probes.len() == 0 {
        devices.len() == 0
    } else {
        match probes.last().name {
            Some(name) => {
                &&& devices.len() > 0
                &&& describes(default_name, name@, probes.last().configs, devices.last())
                &&& are_described(default_name, probes.drop_last(), devices.drop_last())
            },
            None => are_described(default_name, probes.drop_last(), devices),
        }
    }
}

/// Whether `a` is shown before `b`: the default device first, the others by name.
pub open spec fn shown_before(a: AudioDevice, b: AudioDevice) -> bool {
    if a.is_default != b.is_default {
        a.is_default
    } else {
        text::text_lt(a.name@, b.name@)
    }
}

/// The order in which the devices at two places of `devices` are shown: where
/// neither is shown before the other, they stay as they are.
pub open spec fn place_before(devices: Seq<AudioDevice>) -> spec_fn(int, int) -> bool {
    |i: int, j: int|
        shown_before(devices[i], devices[j]) || (!shown_before(devices[j], devices[i]) && i < j)
}

/// Whether `places` are the places of `devices` in the order in which the
/// devices are shown.
pub open spec fn is_showing_order(devices: Seq<AudioDevice>, places: Seq<int>) -> bool {
    &&& places.len() == devices.len()
    &&& forall|i: int| #[trigger] places.contains(i) <==> 0 <= i < devices.len()
    &&& order::increasing(places, place_before(devices))
}

/// Whether `sorted` are the same devices in the order in which they are shown.
pub open spec fn is_sorted_from(devices: Seq<AudioDevice>, sorted: Seq<AudioDevice>) -> bool {
    exists|places: Seq<int>| #[trigger]
        is_showing_order(devices, places) && sorted == places.map_values(|i: int| devices[i])
}

/// Whether `shown` is how the probed devices are listed.
pub open spec fn is_listing(
    default_name: Option<Seq<char>>,
    probes: Seq<DeviceProbe>,
    shown: Seq<AudioDevice>,
) -> bool {
    exists|devices: Seq<AudioDevice>| #[trigger]
        are_described(default_name, probes, devices) && is_sorted_from(devices, shown)
}

/// Showing one device before another is irreflexive and transitive, and two
/// devices of which neither is shown before the other are shown alike.
proof fn shown_before_is_an_order(a: AudioDevice, b: AudioDevice, c: AudioDevice)
    ensures
        !shown_before(a, a),
        shown_before(a, b) ==> !shown_before(b, a),
        shown_before(a, b) && shown_before(b, c) ==> shown_before(a, c),
        shown_before(a, b) && !shown_before(c, b) ==> shown_before(a, c),
        !shown_before(b, a) && shown_before(b, c) ==> shown_before(a, c),
{
    text::text_lt_irreflexive(a.name@);
    if text::text_lt(a.name@, b.name@) && text::text_lt(b.name@, a.name@) {
        text::text_lt_transitive(a.name@, b.name@, a.name@);
    }
    if text::text_lt(a.name@, b.name@) && text::text_lt(b.name@, c.name@) {
        text::text_lt_transitive(a.name@, b.name@, c.name@);
    }
    if b.name@ != c.name@ {
        text::text_lt_total(b.name@, c.name@);
        if text::text_lt(a.name@, b.name@) && text::text_lt(b.name@, c.name@) {
            text::text_lt_transitive(a.name@, b.name@, c.name@);
        }
    }
    if a.name@ != b.name@ {
        text::text_lt_total(a.name@, b.name@);
        if text::text_lt(a.name@, b.name@) && text::text_lt(b.name@, c.name@) {
            text::text_lt_transitive(a.name@, b.name@, c.name@);
        }
    }
}

/// Whether `a` is shown before `b`.
fn is_shown_before(a: &AudioDevice, b: &AudioDevice) -> (r: bool)
    ensures
        r <==> shown_before(*a, *b),
{
    if a.is_default != b.is_default {
        a.is_default
    } else {
        comes_before(a.name.as_str(), b.name.as_str())
    }
}

/// The devices in the order in which they are shown.
pub fn sort_devices(devices: Vec<AudioDevice>) -> (r: Vec<AudioDevice>)
    ensures
        is_sorted_from(devices@, r@),
{
    let ghost all = devices@;
    let ghost lt = place_before(all);
    let ghost mut places: Seq<int> = Seq::empty();
    let mut rest = devices;
    let mut sorted: Vec<AudioDevice> = Vec::new();
    while rest.len() > 0
        invariant
            lt == place_before(all),
            rest@ == all.take(rest@.len() as int),
            rest@.len() + places.len() == all.len(),
            sorted@.len() == places.len(),
            forall|k: int| 0 <= k < places.len() ==> sorted@[k] == all[#[trigger] places[k]],
            forall|i: int| #[trigger] places.contains(i) <==> rest@.len() <= i < all.len(),
            order::increasing(places, lt),
        decreases rest@.len(),
    {
        let ghost place: int = rest@.len() - 1;
        let ghost (sorted0, places0) = (sorted@, places);
        match rest.pop() {
            Some(device) => {
                assert(device == all[place]);
                assert(rest@ =~= all.take(place));
                let mut at: usize = 0;
                while at < sorted.len() && is_shown_before(&sorted[at], &device)
                    invariant
                        at <= sorted@.len(),
                        sorted@ == sorted0,
                        forall|k: int|
                            0 <= k < at ==> shown_before(#[trigger] sorted0[k], device),
                    decreases sorted@.len() - at,
                {
                    at = at + 1;
                }
                sorted.insert(at, device);
                proof {
                    places = places0.insert(at as int, place);
                    sorted_insertion(all, sorted0, places0, at as int, place);
                    assert forall|k: int| 0 <= k < places.len() implies sorted@[k]
                        == all[#[trigger] places[k]] by {
                        if k < at {
                            assert(places[k] == places0[k]);
                        } else if k > at {
                            assert(places[k] == places0[k - 1]);
                        }
                    }
                }
            },
            None => {},
        }
    }
    proof {
        assert(is_showing_order(all, places));
        assert(sorted@ =~= places.map_values(|i: int| all[i]));
    }
    sorted
}

/// Putting one more place, before all others in the list, among places that
/// are in order keeps them in order.
proof fn sorted_insertion(
    all: Seq<AudioDevice>,
    sorted: Seq<AudioDevice>,
    places: Seq<int>,
    at: int,
    place: int,
)
    requires
        0 <= at <= places.len(),
        sorted.len() == places.len(),
        0 <= place < all.len(),
        forall|k: int| 0 <= k < places.len() ==> sorted[k] == all[#[trigger] places[k]],
        forall|i: int| #[trigger] places.contains(i) <==> place < i < all.len(),
        order::increasing(places, place_before(all)),
        forall|k: int| 0 <= k < at ==> shown_before(#[trigger] sorted[k], all[place]),
        at < places.len() ==> !shown_before(sorted[at], all[place]),
    ensures
        order::increasing(places.insert(at, place), place_before(all)),
        forall|i: int| #[trigger]
            places.insert(at, place).contains(i) <==> place <= i < all.len(),
{
    let lt = place_before(all);
    let more = places.insert(at, place);
    assert forall|i: int| #[trigger] more.contains(i) <==> place <= i < all.len() by {
        if places.contains(i) {
            let k = choose|k: int| 0 <= k < places.len() && places[k] == i;
            assert(more[if k < at { k } else { k + 1 }] == i);
        }
        if more.contains(i) {
            let k = choose|k: int| 0 <= k < more.len() && more[k] == i;
            if k < at {
                assert(places[k] == i);
            } else if k > at {
                assert(places[k - 1] == i);
            }
            assert(i == place || places.contains(i));
        }
        assert(more[at] == place);
    }
    assert forall|i: int, j: int| 0 <= i < j < more.len() implies lt(
        #[trigger] more[i],
        #[trigger] more[j],
    ) by {
        let bi = if i < at { i } else { i - 1 };
        let bj = if j < at { j } else { j - 1 };
        if i != at && j != at {
            assert(lt(places[bi], places[bj]));
        } else if j == at {
            assert(sorted[i] == all[places[i]]);
        } else {
            assert(places.contains(places[bj]));
            assert(sorted[bj] == all[places[bj]]);
            if bj > at {
                assert(lt(places[at], places[bj]));
                assert(sorted[at] == all[places[at]]);
                shown_before_is_an_order(all[places[bj]], all[place], all[places[at]]);
                shown_before_is_an_order(all[places[at]], all[places[bj]], all[place]);
                shown_before_is_an_order(all[place], all[places[at]], all[places[bj]]);
            }
        }
    }
}

/// Whether one of `configs` covers a sample rate.
fn covers_rate(configs: &Vec<StreamConfigRange>, rate: u32) -> (r: bool)
    ensures
        r <==> rate_covered(configs@, rate),
{
    let mut k: usize = 0;
    while k < configs.len()
        invariant
            k <= configs@.len(),
            forall|i: int|
                0 <= i < k ==> !((#[trigger] configs@[i]).min_sample_rate <= rate
                    <= configs@[i].max_sample_rate),
        decreases configs@.len() - k,
    {
        if configs[k].min_sample_rate <= rate && rate <= configs[k].max_sample_rate {
            return true;
        }
        k = k + 1;
    }
    false
}

/// The common sample rates that `configs` cover, in increasing order.
pub fn common_sample_rates(configs: &Vec<StreamConfigRange>) -> (r: Vec<u32>)
    ensures
        is_rate_list(configs@, r@),
{
    let rates: [u32; 7] = [44_100, 48_000, 88_200, 96_000, 176_400, 192_000, 384_000];
    let ghost ladder = seq![44_100u32, 48_000, 88_200, 96_000, 176_400, 192_000, 384_000];
    let mut found: Vec<u32> = Vec::new();
    let mut k: usize = 0;
    while k < 7
        invariant
            k <= 7,
            rates@ == ladder,
            ladder == seq![44_100u32, 48_000, 88_200, 96_000, 176_400, 192_000, 384_000],
            forall|rate: u32| #[trigger]
                found@.contains(rate) <==> ladder.take(k as int).contains(rate) && rate_covered(
                    configs@,
                    rate,
                ),
            order::increasing(found@, rate_lt()),
        decreases 7 - k,
    {
        let ghost found0 = found@;
        let rate: u32 = rates[k];
        let covered = covers_rate(configs, rate);
        if covered {
            found.push(rate);
        }
        proof {
            let (done, more) = (ladder.take(k as int), ladder.take(k + 1));
            assert(more =~= done.push(rate));
            assert forall|x: u32| #[trigger]
                found@.contains(x) <==> more.contains(x) && rate_covered(configs@, x) by {
                assert(more.contains(x) <==> done.contains(x) || x == rate) by {
                    if done.contains(x) {
                        let i = choose|i: int| 0 <= i < done.len() && done[i] == x;
                        assert(more[i] == x);
                    }
                    assert(more[k as int] == rate);
                }
                assert(found@.contains(x) <==> found0.contains(x) || (covered && x == rate)) by {
                    if found0.contains(x) {
                        let i = choose|i: int| 0 <= i < found0.len() && found0[i] == x;
                        assert(found@[i] == x);
                    }
                    if covered {
                        assert(found@[found0.len() as int] == rate);
                    }
                }
            }
            let lt = rate_lt();
            assert forall|i: int, j: int| 0 <= i < j < found@.len() implies lt(
                #[trigger] found@[i],
                #[trigger] found@[j],
            ) by {
                if j < found0.len() {
                    assert(lt(found0[i], found0[j]));
                } else {
                    assert(found0.contains(found0[i]));
                    let m = choose|m: int| 0 <= m < done.len() && done[m] == found0[i];
                    assert(ladder[m] < ladder[k as int]);
                }
            }
        }
        k = k + 1;
    }
    proof {
        assert(ladder.take(7) =~= ladder);
        assert forall|rate: u32| #[trigger] ladder.contains(rate) <==> formats::is_common_rate(
            rate,
        ) by {
            assert(ladder[0] == 44_100 && ladder[1] == 48_000 && ladder[2] == 88_200 && ladder[3]
                == 96_000 && ladder[4] == 176_400 && ladder[5] == 192_000 && ladder[6] == 384_000);
        }
    }
    found
}

/// The highest number of channels in `configs`.
fn max_channels_of(configs: &Vec<StreamConfigRange>) -> (r: u16)
    ensures
        r == most_channels(configs@),
{
    let mut most: u16 = 0;
    let mut k: usize = 0;
    while k < configs.len()
        invariant
            k <= configs@.len(),
            most == most_channels(configs@.take(k as int)),
        decreases configs@.len() - k,
    {
        assert(configs@.take(k + 1).drop_last() == configs@.take(k as int));
        if configs[k].channels > most {
            most = configs[k].channels;
        }
        k = k + 1;
    }
    assert(configs@.take(k as int) == configs@);
    most
}

/// How a device of the given name is shown.
fn describe_device(
    default_name: &Option<String>,
    name: &String,
    configs: &Option<Vec<StreamConfigRange>>,
) -> (r: AudioDevice)
    ensures
        describes(text::opt_text(*default_name), name@, *configs, r),
{
    let is_default = match default_name {
        Some(d) => same_text(d.as_str(), name.as_str()),
        None => false,
    };
    let (sample_rates, max_channels): (Vec<u32>, u16) = match configs {
        Some(c) => (common_sample_rates(c), max_channels_of(c)),
        None => (vec![44_100, 48_000], 2),
    };
    assert(configs is None ==> sample_rates@ =~= seq![44_100u32, 48_000u32]);
    AudioDevice { id: name.clone(), name: name.clone(), is_default, sample_rates, max_channels }
}

/// The available output devices as they are shown, from the name of the default
/// device and what the host reports of each device, or the host's own error
/// where it could not enumerate them. A device without a name is left out.
pub fn list_devices(
    default_device_name: Option<String>,
    devices: Result<Vec<DeviceProbe>, String>,
) -> (r: Result<Vec<AudioDevice>, String>)
    ensures
        match devices {
            Ok(probes) => r matches Ok(shown) && is_listing(
                text::opt_text(default_device_name),
                probes@,
                shown@,
            ),
            Err(e) => r matches Err(message) && message@ == "Failed to enumerate devices: "@ + e@,
        },
{
    let probes = match devices {
        Ok(probes) => probes,
        Err(e) => return Err(join("Failed to enumerate devices: ", e.as_str())),
    };
    let mut found: Vec<AudioDevice> = Vec::new();
    let mut k: usize = 0;
    while k < probes.len()
        invariant
            k <= probes@.len(),
            are_described(
                text::opt_text(default_device_name),
                probes@.take(k as int),
                found@,
            ),
        decreases probes@.len() - k,
    {
        assert(probes@.take(k + 1).drop_last() == probes@.take(k as int));
        assert(probes@.take(k + 1).last() == probes@[k as int]);
        let ghost found0 = found@;
        if let Some(name) = &probes[k].name {
            found.push(describe_device(&default_device_name, name, &probes[k].configs));
            assert(found@.drop_last() == found0);
        }
        k = k + 1;
    }
    assert(probes@.take(k as int) == probes@);
    Ok(sort_devices(found))
}

/// Whether `names[at]` is the first of `names` that is `id`.
pub open spec fn is_first_named(names: Seq<Option<String>>, id: Seq<char>, at: int) -> bool {
    &&& 0 <= at < names.len()
    &&& text::opt_text(names[at]) == Some(id)
    &&& forall|i: int| 0 <= i < at ==> text::opt_text(#[trigger] names[i]) != Some(id)
}

/// Whether no device in `names` is `id`.
pub open spec fn none_named(names: Seq<Option<String>>, id: Seq<char>) -> bool {
    forall|i: int| 0 <= i < names.len() ==> text::opt_text(#[trigger] names[i]) != Some(id)
}

/// The place of the device with the given identifier among the enumerated
/// devices, of which the names are given as far as the host knows them.
pub fn get_device_by_id(device_id: &str, devices: &Result<Vec<Option<String>>, String>) -> (r:
    Result<usize, String>)
    ensures
        match devices {
            Ok(names) => match r {
                Ok(at) => is_first_named(names@, device_id@, at as int),
                Err(message) => none_named(names@, device_id@) && message@ == "Device not found: "@
                    + device_id@,
            },
            Err(e) => r matches Err(message) && message@ == "Failed to enumerate devices: "@ + e@,
        },
{
    let names = match devices {
        Ok(names) => names,
        Err(e) => return Err(join("Failed to enumerate devices: ", e.as_str())),
    };
    let mut k: usize = 0;
    while k < names.len()
        invariant
            devices matches Ok(all) && all@ == names@,
            k <= names@.len(),
            forall|i: int|
                0 <= i < k ==> text::opt_text(#[trigger] names@[i]) != Some(device_id@),
        decreases names@.len() - k,
    {
        if let Some(name) = &names[k] {
            if same_text(name.as_str(), device_id) {
                return Ok(k);
            }
        }
        k = k + 1;
    }
    Err(join("Device not found: ", device_id))
}

/// The default output device, or why there is none.
pub fn get_default_device<D>(default_device: Option<D>) -> (r: Result<D, String>)
    ensures
        match default_device {
            Some(device) => r == Ok::<D, String>(device),
            None => r matches Err(message) && message@ == "No default output device available"@,
        },
{
    match default_device {
        Some(device) => Ok(device),
        None => Err("No default output device available".to_owned()),
    }
}

/// Whether `chosen` is where the output goes: to the first enumerated device
/// with the requested name, or else to the default device, if there is one.
/// `names` is missing where the devices could not be enumerated.
pub open spec fn is_resolution(
    requested: Option<Seq<char>>,
    names: Option<Seq<Option<String>>>,
    has_default: bool,
    chosen: Option<OutputDevice>,
) -> bool {
    match chosen {
        Some(OutputDevice::Listed(at)) => requested matches Some(id) && names matches Some(all)
            && is_first_named(all, id, at as int),
        _ => {
            &&& chosen == (if has_default { Some(OutputDevice::Default) } else { None })
            &&& requested matches Some(id) ==> names matches Some(all) ==> none_named(all, id)
        },
    }
}

/// Which device the output goes to: the requested one where it is among the
/// enumerated devices, else the default device, if there is one.
pub fn resolve_output_device(
    device_id: Option<&str>,
    devices: &Result<Vec<Option<String>>, String>,
    has_default: bool,
) -> (r: Option<OutputDevice>)
    ensures
        is_resolution(
            match device_id {
                Some(id) => Some(id@),
                None => None,
            },
            match devices {
                Ok(names) => Some(names@),
                Err(_) => None,
            },
            has_default,
            r,
        ),
{
    if let Some(id) = device_id {
        if let Ok(at) = get_device_by_id(id, devices) {
            return Some(OutputDevice::Listed(at));
        }
    }
    let default_device: Option<OutputDevice> = if has_default {
        Some(OutputDevice::Default)
    } else {
        None
    };
    match get_default_device(default_device) {
        Ok(device) => Some(device),
        Err(_) => None,
    }
}

/// A request that cannot be met, because no device has the requested name or
/// because the devices could not be enumerated, is treated as no request at all.
pub proof fn unmet_request_falls_back_to_the_default(
    id: Seq<char>,
    names: Option<Seq<Option<String>>>,
    has_default: bool,
    chosen: Option<OutputDevice>,
    chosen_without_request: Option<OutputDevice>,
)
    requires
        names matches Some(all) ==> none_named(all, id),
        is_resolution(Some(id), names, has_default, chosen),
        is_resolution(None, names, has_default, chosen_without_request),
    ensures
        chosen == chosen_without_request,
        chosen is Some <==> has_default,
{
    if let Some(OutputDevice::Listed(at)) = chosen {
        assert(text::opt_text(names->Some_0[at as int]) != Some(id));
    }
}

/// A request for an enumerated device is met, whether or not there is a default
/// device.
pub proof fn known_device_is_chosen(
    id: Seq<char>,
    names: Seq<Option<String>>,
    at: usize,
    has_default: bool,
    chosen: Option<OutputDevice>,
)
    requires
        is_first_named(names, id, at as int),
        is_resolution(Some(id), Some(names), has_default, chosen),
    ensures
        chosen == Some(OutputDevice::Listed(at)),
{
    if let Some(OutputDevice::Listed(other)) = chosen {
        if other < at {
            assert(text::opt_text(names[other as int]) != Some(id));
        }
        if at < other {
            assert(text::opt_text(names[at as int]) != Some(id));
        }
    }
}

/// Whether two devices are shown with the same words and figures.
pub open spec fn same_device(a: AudioDevice, b: AudioDevice) -> bool {
    &&& a.id@ == b.id@
    &&& a.name@ == b.name@
    &&& a.is_default == b.is_default
    &&& a.sample_rates@ == b.sample_rates@
    &&& a.max_channels == b.max_channels
}

/// The probes determine the devices that are described.
proof fn described_devices_agree(
    default_name: Option<Seq<char>>,
    probes: Seq<DeviceProbe>,
    a: Seq<AudioDevice>,
    b: Seq<AudioDevice>,
)
    requires
        are_described(default_name, probes, a),
        are_described(default_name, probes, b),
    ensures
        a.len() == b.len(),
        forall|i: int| 0 <= i < a.len() ==> same_device(#[trigger] a[i], b[i]),
    decreases probes.len(),
{
    if probes.len() > 0 {
        match probes.last().name {
            Some(name) => {
                described_devices_agree(
                    default_name,
                    probes.drop_last(),
                    a.drop_last(),
                    b.drop_last(),
                );
                if let Some(c) = probes.last().configs {
                    let (x, y) = (a.last().sample_rates@, b.last().sample_rates@);
                    assert forall|rate: u32| #[trigger] x.contains(rate) <==> y.contains(rate) by {
                        assert(y.contains(rate) <==> formats::is_common_rate(rate) && rate_covered(
                            c@,
                            rate,
                        ));
                    }
                    order::increasing_is_unique(x, y, rate_lt());
                }
                assert forall|i: int| 0 <= i < a.len() implies same_device(
                    #[trigger] a[i],
                    b[i],
                ) by {
                    if i < a.len() - 1 {
                        assert(same_device(a.drop_last()[i], b.drop_last()[i]));
                    }
                }
            },
            None => {
                described_devices_agree(default_name, probes.drop_last(), a, b);
            },
        }
    }
}

/// The places of the sorted devices among the unsorted ones.
proof fn sorted_places(devices: Seq<AudioDevice>, sorted: Seq<AudioDevice>) -> (places: Seq<int>)
    requires
        is_sorted_from(devices, sorted),
    ensures
        is_showing_order(devices, places),
        sorted.len() == places.len(),
        forall|k: int| 0 <= k < places.len() ==> sorted[k] == devices[#[trigger] places[k]],
        forall|k: int| 0 <= k < places.len() ==> #[trigger] sorted[k] == devices[places[k]],
{
    choose|p: Seq<int>| #[trigger]
        is_showing_order(devices, p) && sorted == p.map_values(|i: int| devices[i])
}

/// The described devices of a listing, and their places in the order shown.
proof fn listing_parts(
    default_name: Option<Seq<char>>,
    probes: Seq<DeviceProbe>,
    shown: Seq<AudioDevice>,
) -> (r: (Seq<AudioDevice>, Seq<int>))
    requires
        is_listing(default_name, probes, shown),
    ensures
        are_described(default_name, probes, r.0),
        is_sorted_from(r.0, shown),
        is_showing_order(r.0, r.1),
        shown.len() == r.1.len(),
        forall|k: int| 0 <= k < r.1.len() ==> shown[k] == r.0[#[trigger] r.1[k]],
        forall|k: int| 0 <= k < r.1.len() ==> #[trigger] shown[k] == r.0[r.1[k]],
{
    let devices = choose|d: Seq<AudioDevice>| #[trigger]
        are_described(default_name, probes, d) && is_sorted_from(d, shown);
    (devices, sorted_places(devices, shown))
}

/// There is one way to list what the host reports.
pub proof fn listing_is_determined(
    default_name: Option<Seq<char>>,
    probes: Seq<DeviceProbe>,
    a: Seq<AudioDevice>,
    b: Seq<AudioDevice>,
)
    requires
        is_listing(default_name, probes, a),
        is_listing(default_name, probes, b),
    ensures
        a.len() == b.len(),
        forall|i: int| 0 <= i < a.len() ==> same_device(#[trigger] a[i], b[i]),
{
    let (da, pa) = listing_parts(default_name, probes, a);
    let (db, pb) = listing_parts(default_name, probes, b);
    described_devices_agree(default_name, probes, da, db);
    let (la, lb) = (place_before(da), place_before(db));
    assert forall|x: int, y: int| #[trigger] la(x, y) implies !la(y, x) by {
        shown_before_is_an_order(da[x], da[y], da[x]);
    }
    assert forall|i: int, j: int| 0 <= i < j < pb.len() implies la(
        #[trigger] pb[i],
        #[trigger] pb[j],
    ) by {
        assert(lb(pb[i], pb[j]));
        assert(pb.contains(pb[i]) && pb.contains(pb[j]));
        assert(same_device(da[pb[i]], db[pb[i]]) && same_device(da[pb[j]], db[pb[j]]));
    }
    assert forall|x: int| #[trigger] pa.contains(x) <==> pb.contains(x) by {
        assert(pb.contains(x) <==> 0 <= x < db.len());
    }
    order::increasing_is_unique(pa, pb, la);
    assert forall|i: int| 0 <= i < a.len() implies same_device(#[trigger] a[i], b[i]) by {
        assert(pa.contains(pa[i]));
        assert(a[i] == da[pa[i]] && b[i] == db[pb[i]]);
    }
}

/// In a listing no device is shown before one that should precede it; the
/// default device, if it is listed, is shown first.
pub proof fn listing_is_in_order(
    default_name: Option<Seq<char>>,
    probes: Seq<DeviceProbe>,
    shown: Seq<AudioDevice>,
)
    requires
        is_listing(default_name, probes, shown),
    ensures
        forall|i: int, j: int|
            0 <= i < j < shown.len() ==> !shown_before(#[trigger] shown[j], #[trigger] shown[i]),
        forall|i: int|
            0 <= i < shown.len() && (#[trigger] shown[i]).is_default ==> shown[0].is_default,
{
    let (devices, places) = listing_parts(default_name, probes, shown);
    let lt = place_before(devices);
    assert forall|i: int, j: int| 0 <= i < j < shown.len() implies !shown_before(
        #[trigger] shown[j],
        #[trigger] shown[i],
    ) by {
        assert(lt(places[i], places[j]));
        shown_before_is_an_order(shown[i], shown[j], shown[i]);
    }
    assert forall|i: int| 0 <= i < shown.len() && (#[trigger] shown[i]).is_default implies
        shown[0].is_default by {
        if i > 0 {
            assert(!shown_before(shown[i], shown[0]));
        }
    }
}

/// Every described device comes from a probe of that name, and every probe with
/// a name is described.
proof fn described_devices_are_the_named_ones(
    default_name: Option<Seq<char>>,
    probes: Seq<DeviceProbe>,
    devices: Seq<AudioDevice>,
)
    requires
        are_described(default_name, probes, devices),
    ensures
        forall|k: int|
            0 <= k < devices.len() ==> (#[trigger] devices[k]).id@ == devices[k].name@ && is_probed(
                probes,
                devices[k].id@,
            ),
        forall|p: int|
            0 <= p < probes.len() ==> (text::opt_text((#[trigger] probes[p]).name) matches Some(name)
                ==> is_shown(devices, name)),
    decreases probes.len(),
{
    if probes.len() > 0 {
        let before = probes.drop_last();
        let last = probes.len() - 1;
        let fewer = if probes.last().name is Some {
            devices.drop_last()
        } else {
            devices
        };
        described_devices_are_the_named_ones(default_name, before, fewer);
        assert forall|k: int| 0 <= k < devices.len() implies (#[trigger] devices[k]).id@
            == devices[k].name@ && is_probed(probes, devices[k].id@) by {
            if k < fewer.len() {
                assert(devices[k] == fewer[k]);
                let p = choose|p: int|
                    0 <= p < before.len() && text::opt_text((#[trigger] before[p]).name) == Some(
                        fewer[k].id@,
                    );
                assert(probes[p] == before[p]);
            } else {
                assert(text::opt_text(probes[last].name) == Some(devices[k].id@));
            }
        }
        assert forall|p: int| 0 <= p < probes.len() implies (text::opt_text(
            (#[trigger] probes[p]).name,
        ) matches Some(name) ==> is_shown(devices, name)) by {
            if let Some(name) = text::opt_text(probes[p].name) {
                if p < last {
                    assert(probes[p] == before[p]);
                    assert(is_shown(fewer, name));
                    let k = choose|k: int|
                        0 <= k < fewer.len() && (#[trigger] fewer[k]).name@ == name;
                    assert(devices[k] == fewer[k]);
                } else {
                    assert(devices[devices.len() - 1].name@ == name);
                }
            }
        }
    }
}

/// Whether a device of the given name was probed.
pub open spec fn is_probed(probes: Seq<DeviceProbe>, name: Seq<char>) -> bool {
    exists|p: int| 0 <= p < probes.len() && text::opt_text((#[trigger] probes[p]).name) == Some(name)
}

/// Whether a device of the given name is among those shown.
pub open spec fn is_shown(shown: Seq<AudioDevice>, name: Seq<char>) -> bool {
    exists|k: int| 0 <= k < shown.len() && (#[trigger] shown[k]).name@ == name
}

/// Every probed device that has a name is listed, and every listed device can be
/// looked up by its identifier.
pub proof fn listed_devices_can_be_looked_up(
    default_name: Option<Seq<char>>,
    probes: Seq<DeviceProbe>,
    shown: Seq<AudioDevice>,
)
    requires
        is_listing(default_name, probes, shown),
    ensures
        forall|p: int|
            0 <= p < probes.len() ==> (text::opt_text((#[trigger] probes[p]).name) matches Some(name)
                ==> is_shown(shown, name)),
        forall|k: int|
            0 <= k < shown.len() ==> !none_named(
                probes.map_values(|probe: DeviceProbe| probe.name),
                (#[trigger] shown[k]).id@,
            ),
{
    let (devices, places) = listing_parts(default_name, probes, shown);
    let names = probes.map_values(|probe: DeviceProbe| probe.name);
    described_devices_are_the_named_ones(default_name, probes, devices);
    assert forall|p: int| 0 <= p < probes.len() implies (text::opt_text(
        (#[trigger] probes[p]).name,
    ) matches Some(name) ==> is_shown(shown, name)) by {
        if let Some(name) = text::opt_text(probes[p].name) {
            assert(is_shown(devices, name));
            let d = choose|d: int| 0 <= d < devices.len() && (#[trigger] devices[d]).name@ == name;
            assert(places.contains(d));
            let k = choose|k: int| 0 <= k < places.len() && places[k] == d;
            assert(shown[k] == devices[d]);
        }
    }
    assert forall|k: int| 0 <= k < shown.len() implies !none_named(names, (#[trigger] shown[k]).id@) by {
        assert(places.contains(places[k]));
        assert(shown[k] == devices[places[k]]);
        assert(is_probed(probes, shown[k].id@));
        let p = choose|p: int|
            0 <= p < probes.len() && text::opt_text((#[trigger] probes[p]).name) == Some(
                shown[k].id@,
            );
        assert(text::opt_text(names[p]) == Some(shown[k].id@));
    }
}

/// Whether no two probed devices have the same name.
pub open spec fn names_differ(probes: Seq<DeviceProbe>) -> bool {
    forall|p: int, q: int|
        0 <= p < q < probes.len() && (#[trigger] probes[p]).name is Some && (
        #[trigger] probes[q]).name is Some ==> text::opt_text(probes[p].name) != text::opt_text(
            probes[q].name,
        )
}

/// Whether no two devices have the same identifier.
pub open spec fn identifiers_differ(devices: Seq<AudioDevice>) -> bool {
    forall|i: int, j: int|
        0 <= i < j < devices.len() ==> (#[trigger] devices[i]).id@ != (#[trigger] devices[j]).id@
}

/// The described devices have different identifiers exactly where the probes
/// have different names.
proof fn described_identifiers_differ_as_names_do(
    default_name: Option<Seq<char>>,
    probes: Seq<DeviceProbe>,
    devices: Seq<AudioDevice>,
)
    requires
        are_described(default_name, probes, devices),
    ensures
        names_differ(probes) <==> identifiers_differ(devices),
    decreases probes.len(),
{
    if probes.len() > 0 {
        let before = probes.drop_last();
        let last = probes.len() - 1;
        let named = probes.last().name is Some;
        let fewer = if named {
            devices.drop_last()
        } else {
            devices
        };
        described_identifiers_differ_as_names_do(default_name, before, fewer);
        described_devices_are_the_named_ones(default_name, before, fewer);
        if names_differ(probes) {
            assert forall|p: int, q: int|
                0 <= p < q < before.len() && (#[trigger] before[p]).name is Some && (
                #[trigger] before[q]).name is Some implies text::opt_text(before[p].name)
                != text::opt_text(before[q].name) by {
                assert(before[p] == probes[p] && before[q] == probes[q]);
            }
            assert forall|i: int, j: int| 0 <= i < j < devices.len() implies (
            #[trigger] devices[i]).id@ != (#[trigger] devices[j]).id@ by {
                assert(devices[i] == fewer[i]);
                if j < fewer.len() {
                    assert(devices[j] == fewer[j]);
                } else {
                    assert(is_probed(before, fewer[i].id@));
                    let p = choose|p: int|
                        0 <= p < before.len() && text::opt_text((#[trigger] before[p]).name)
                            == Some(fewer[i].id@);
                    assert(probes[p] == before[p]);
                    assert(text::opt_text(probes[p].name) != text::opt_text(probes[last].name));
                }
            }
        }
        if identifiers_differ(devices) {
            assert forall|i: int, j: int| 0 <= i < j < fewer.len() implies (
            #[trigger] fewer[i]).id@ != (#[trigger] fewer[j]).id@ by {
                assert(devices[i] == fewer[i] && devices[j] == fewer[j]);
            }
            assert forall|p: int, q: int|
                0 <= p < q < probes.len() && (#[trigger] probes[p]).name is Some && (
                #[trigger] probes[q]).name is Some implies text::opt_text(probes[p].name)
                != text::opt_text(probes[q].name) by {
                assert(before[p] == probes[p]);
                if q < last {
                    assert(before[q] == probes[q]);
                } else {
                    let name = text::opt_text(probes[p].name)->Some_0;
                    assert(is_shown(fewer, name));
                    let k = choose|k: int|
                        0 <= k < fewer.len() && (#[trigger] fewer[k]).name@ == name;
                    assert(devices[k] == fewer[k]);
                    assert(devices[k].id@ != devices[devices.len() - 1].id@);
                }
            }
        }
    }
}

/// Two different places of a listing show two different described devices.
proof fn places_are_one_to_one(devices: Seq<AudioDevice>, places: Seq<int>)
    requires
        is_showing_order(devices, places),
    ensures
        forall|i: int| 0 <= i < places.len() ==> 0 <= #[trigger] places[i] < devices.len(),
        forall|i: int, j: int|
            0 <= i < j < places.len() ==> #[trigger] places[i] != #[trigger] places[j],
{
    let lt = place_before(devices);
    assert forall|i: int| 0 <= i < places.len() implies 0 <= #[trigger] places[i]
        < devices.len() by {
        assert(places.contains(places[i]));
    }
    assert forall|i: int, j: int| 0 <= i < j < places.len() implies #[trigger] places[i]
        != #[trigger] places[j] by {
        assert(lt(places[i], places[j]));
        shown_before_is_an_order(devices[places[i]], devices[places[i]], devices[places[i]]);
    }
}

/// Sorting leaves it as it is whether the identifiers differ.
proof fn sorting_keeps_identifiers(devices: Seq<AudioDevice>, shown: Seq<AudioDevice>)
    requires
        is_sorted_from(devices, shown),
    ensures
        identifiers_differ(devices) <==> identifiers_differ(shown),
{
    let places = sorted_places(devices, shown);
    places_are_one_to_one(devices, places);
    if identifiers_differ(devices) {
        assert forall|i: int, j: int| 0 <= i < j < shown.len() implies (#[trigger] shown[i]).id@
            != (#[trigger] shown[j]).id@ by {
            let (a, b) = (places[i], places[j]);
            assert(a != b);
            assert(shown[i] == devices[a] && shown[j] == devices[b]);
        }
    }
    if identifiers_differ(shown) {
        assert forall|a: int, b: int| 0 <= a < b < devices.len() implies (#[trigger] devices[a]).id@
            != (#[trigger] devices[b]).id@ by {
            assert(places.contains(a) && places.contains(b));
            let i = choose|i: int| 0 <= i < places.len() && places[i] == a;
            let j = choose|j: int| 0 <= j < places.len() && places[j] == b;
            assert(shown[i] == devices[a] && shown[j] == devices[b]);
        }
    }
}

/// Where the host gives different devices different names, the identifiers of
/// the listed devices are unique.
pub proof fn identifiers_are_unique(
    default_name: Option<Seq<char>>,
    probes: Seq<DeviceProbe>,
    shown: Seq<AudioDevice>,
)
    requires
        is_listing(default_name, probes, shown),
        names_differ(probes),
    ensures
        forall|i: int, j: int|
            0 <= i < j < shown.len() ==> (#[trigger] shown[i]).id@ != (#[trigger] shown[j]).id@,
{
    let (devices, _) = listing_parts(default_name, probes, shown);
    described_identifiers_differ_as_names_do(default_name, probes, devices);
    sorting_keeps_identifiers(devices, shown);
}

/// Where the host gives two devices the same name, two listed devices have the
/// same identifier.
pub proof fn identifiers_are_shared_with_names(
    default_name: Option<Seq<char>>,
    probes: Seq<DeviceProbe>,
    shown: Seq<AudioDevice>,
)
    requires
        is_listing(default_name, probes, shown),
        !names_differ(probes),
    ensures
        exists|i: int, j: int|
            0 <= i < j < shown.len() && (#[trigger] shown[i]).id@ == (#[trigger] shown[j]).id@,
{
    let (devices, _) = listing_parts(default_name, probes, shown);
    described_identifiers_differ_as_names_do(default_name, probes, devices);
    sorting_keeps_identifiers(devices, shown);
}

/// Whether one of `configs` covers a sample rate with two or more channels.
pub open spec fn rate_covered_in_stereo(configs: Seq<StreamConfigRange>, rate: u32) -> bool {
    exists|i: int|
        0 <= i < configs.len() && (#[trigger] configs[i]).channels >= 2
            && configs[i].min_sample_rate <= rate <= configs[i].max_sample_rate
}

/// Listing and negotiation agree on the common rates: every listed rate that the
/// device covers with two or more channels is offered, and whatever is offered,
/// the native configuration apart, is offered at a listed rate.
pub proof fn listed_rates_are_the_offered_ones(
    configs: Seq<StreamConfigRange>,
    native: Option<formats::NativeFormat>,
    ranges: Seq<formats::ConfigRange>,
    rates: Seq<u32>,
    list: Seq<formats::SupportedPcmFormat>,
)
    requires
        ranges == configs.map_values(|c: StreamConfigRange| formats::range_of(c)),
        is_rate_list(configs, rates),
        formats::is_offer(native, ranges, list),
    ensures
        forall|rate: u32| #[trigger]
            rates.contains(rate) && rate_covered_in_stereo(configs, rate) ==> list.contains(
                formats::stereo(rate, 16),
            ),
        forall|i: int|
            0 <= i < list.len() ==> formats::offered_by_native(native, #[trigger] list[i])
                || rates.contains(list[i].sample_rate),
{
    assert forall|rate: u32| #[trigger]
        rates.contains(rate) && rate_covered_in_stereo(configs, rate) implies list.contains(
        formats::stereo(rate, 16),
    ) by {
        let k = choose|k: int|
            0 <= k < configs.len() && (#[trigger] configs[k]).channels >= 2
                && configs[k].min_sample_rate <= rate <= configs[k].max_sample_rate;
        assert(formats::offered_by_range(ranges[k], formats::stereo(rate, 16)));
        assert(formats::offered(native, ranges, formats::stereo(rate, 16)));
    }
    assert forall|i: int| 0 <= i < list.len() implies formats::offered_by_native(
        native,
        #[trigger] list[i],
    ) || rates.contains(list[i].sample_rate) by {
        let f = list[i];
        assert(list.contains(f));
        assert(formats::offered(native, ranges, f));
        if !formats::offered_by_native(native, f) {
            let k = choose|k: int|
                0 <= k < ranges.len() && formats::offered_by_range(#[trigger] ranges[k], f);
            assert(configs[k].min_sample_rate <= f.sample_rate <= configs[k].max_sample_rate);
            assert(rate_covered(configs, f.sample_rate));
        }
    }
}

/// Where the described devices come from: the places of the probes that have a
/// name, in order.
proof fn described_sources(
    default_name: Option<Seq<char>>,
    probes: Seq<DeviceProbe>,
    devices: Seq<AudioDevice>,
) -> (from: Seq<int>)
    requires
        are_described(default_name, probes, devices),
    ensures
        from.len() == devices.len(),
        forall|p: int| #[trigger]
            from.contains(p) <==> 0 <= p < probes.len() && probes[p].name is Some,
        forall|i: int, j: int| 0 <= i < j < from.len() ==> #[trigger] from[i] < #[trigger] from[j],
        forall|k: int|
            0 <= k < from.len() ==> 0 <= #[trigger] from[k] < probes.len()
                && probes[from[k]].name is Some && describes(
                default_name,
                probes[from[k]].name->Some_0@,
                probes[from[k]].configs,
                devices[k],
            ),
    decreases probes.len(),
{
    if probes.len() == 0 {
        Seq::empty()
    } else {
        let before = probes.drop_last();
        let last = probes.len() - 1;
        if probes.last().name is Some {
            let fewer = described_sources(default_name, before, devices.drop_last());
            let from = fewer.push(last);
            assert forall|p: int| #[trigger]
                from.contains(p) <==> 0 <= p < probes.len() && probes[p].name is Some by {
                if from.contains(p) {
                    let k = choose|k: int| 0 <= k < from.len() && from[k] == p;
                    if k < fewer.len() {
                        assert(fewer[k] == p);
                        assert(fewer.contains(p));
                        assert(before[p] == probes[p]);
                    }
                }
                if 0 <= p < probes.len() && probes[p].name is Some {
                    if p < last {
                        assert(before[p] == probes[p]);
                        assert(fewer.contains(p));
                        let k = choose|k: int| 0 <= k < fewer.len() && fewer[k] == p;
                        assert(from[k] == p);
                    } else {
                        assert(from[fewer.len() as int] == p);
                    }
                }
            }
            assert forall|i: int, j: int| 0 <= i < j < from.len() implies #[trigger] from[i]
                < #[trigger] from[j] by {
                assert(from[i] == fewer[i]);
                if j < fewer.len() {
                    assert(from[j] == fewer[j]);
                }
            }
            assert forall|k: int| 0 <= k < from.len() implies 0 <= #[trigger] from[k] < probes.len()
                && probes[from[k]].name is Some && describes(
                default_name,
                probes[from[k]].name->Some_0@,
                probes[from[k]].configs,
                devices[k],
            ) by {
                if k < fewer.len() {
                    assert(from[k] == fewer[k]);
                    assert(before[fewer[k]] == probes[fewer[k]]);
                    assert(devices.drop_last()[k] == devices[k]);
                }
            }
            from
        } else {
            let from = described_sources(default_name, before, devices);
            assert forall|p: int| #[trigger]
                from.contains(p) <==> 0 <= p < probes.len() && probes[p].name is Some by {
                if 0 <= p < last {
                    assert(before[p] == probes[p]);
                }
            }
            assert forall|k: int| 0 <= k < from.len() implies 0 <= #[trigger] from[k] < probes.len()
                && probes[from[k]].name is Some && describes(
                default_name,
                probes[from[k]].name->Some_0@,
                probes[from[k]].configs,
                devices[k],
            ) by {
                assert(before[from[k]] == probes[from[k]]);
            }
            from
        }
    }
}

/// The highest number of channels is reached and not exceeded.
proof fn most_channels_is_the_highest(configs: Seq<StreamConfigRange>)
    ensures
        forall|i: int|
            0 <= i < configs.len() ==> (#[trigger] configs[i]).channels <= most_channels(configs),
        configs.len() == 0 ==> most_channels(configs) == 0,
        configs.len() > 0 ==> exists|i: int|
            0 <= i < configs.len() && (#[trigger] configs[i]).channels == most_channels(configs),
    decreases configs.len(),
{
    if configs.len() > 0 {
        let before = configs.drop_last();
        let last = configs.len() - 1;
        most_channels_is_the_highest(before);
        assert forall|i: int| 0 <= i < configs.len() implies (#[trigger] configs[i]).channels
            <= most_channels(configs) by {
            if i < last {
                assert(before[i].channels <= most_channels(before));
            }
        }
        if configs[last].channels == most_channels(configs) {
        } else {
            assert(before.len() > 0);
            let i = choose|i: int|
                0 <= i < before.len() && (#[trigger] before[i]).channels == most_channels(before);
            assert(configs[i].channels == most_channels(configs));
        }
    }
}

/// How a probed device of the given name is listed: under that name, marked as the
/// default one exactly where the host's default device has that name, with
/// exactly the common rates that one of its configurations covers, in increasing
/// order, and with as many channels as the widest of its configurations has. Where
/// the configurations are not known, it is listed with 44.1 and 48 kHz in stereo.
pub proof fn device_is_listed_as_reported(
    default_name: Option<Seq<char>>,
    name: Seq<char>,
    configs: Option<Vec<StreamConfigRange>>,
    device: AudioDevice,
    rate: u32,
    k: int,
)
    requires
        describes(default_name, name, configs, device),
    ensures
        device.id@ == name,
        device.name@ == name,
        device.is_default <==> (default_name matches Some(d) && d == name),
        configs is None ==> device.sample_rates@ == seq![44_100u32, 48_000u32]
            && device.max_channels == 2,
        configs matches Some(c) ==> {
            &&& device.sample_rates@.contains(rate) <==> (rate == 44_100 || rate == 48_000 || rate
                == 88_200 || rate == 96_000 || rate == 176_400 || rate == 192_000 || rate
                == 384_000) && exists|i: int|
                0 <= i < c@.len() && (#[trigger] c@[i]).min_sample_rate <= rate
                    <= c@[i].max_sample_rate
            &&& 0 < k < device.sample_rates@.len() ==> device.sample_rates@[k - 1]
                < device.sample_rates@[k]
            &&& 0 <= k < c@.len() ==> c@[k].channels <= device.max_channels
            &&& c@.len() == 0 ==> device.max_channels == 0
            &&& c@.len() > 0 ==> exists|i: int|
                0 <= i < c@.len() && (#[trigger] c@[i]).channels == device.max_channels
        },
{
    if let Some(c) = configs {
        most_channels_is_the_highest(c@);
        let lt = rate_lt();
        let rates = device.sample_rates@;
        assert(rates.contains(rate) <==> formats::is_common_rate(rate) && rate_covered(c@, rate));
        if 0 < k < rates.len() {
            assert(lt(rates[k - 1], rates[k]));
        }
    }
}

/// A listing shows each probe that has a name once, and nothing else. For each
/// place the place of the probe that is shown there is given. The default device
/// comes first, the others by name, and devices that are alike in both stay in
/// the order of the probes.
pub proof fn listing_shows_each_named_probe_once(
    default_device_name: Option<String>,
    probes: Vec<DeviceProbe>,
    shown: Vec<AudioDevice>,
) -> (from: Seq<int>)
    requires
        call_ensures(
            list_devices,
            (default_device_name, Ok::<Vec<DeviceProbe>, String>(probes)),
            Ok::<Vec<AudioDevice>, String>(shown),
        ),
    ensures
        from.len() == shown@.len(),
        from.no_duplicates(),
        forall|p: int| #[trigger]
            from.contains(p) <==> 0 <= p < probes@.len() && probes@[p].name is Some,
        forall|k: int|
            0 <= k < from.len() ==> 0 <= #[trigger] from[k] < probes@.len()
                && probes@[from[k]].name is Some && describes(
                match default_device_name {
                    Some(d) => Some(d@),
                    None => None,
                },
                probes@[from[k]].name->Some_0@,
                probes@[from[k]].configs,
                shown@[k],
            ),
        forall|i: int, j: int|
            0 <= i < j < shown@.len() ==> {
                &&& (#[trigger] shown@[j]).is_default ==> (#[trigger] shown@[i]).is_default
                &&& shown@[i].is_default == shown@[j].is_default ==> !text::text_lt(
                    shown@[j].name@,
                    shown@[i].name@,
                )
                &&& shown@[i].is_default == shown@[j].is_default && shown@[i].name@
                    == shown@[j].name@ ==> from[i] < from[j]
            },
{
    let default_name = text::opt_text(default_device_name);
    let (devices, places) = listing_parts(default_name, probes@, shown@);
    let sources = described_sources(default_name, probes@, devices);
    places_are_one_to_one(devices, places);
    let from = Seq::new(places.len(), |k: int| sources[places[k]]);
    assert forall|i: int, j: int| 0 <= i < from.len() && 0 <= j < from.len() && i != j implies from[i]
        != from[j] by {
        let (a, b) = (places[i], places[j]);
        if i < j {
            assert(places[i] != places[j]);
        } else {
            assert(places[j] != places[i]);
        }
        if a < b {
            assert(sources[a] < sources[b]);
        } else {
            assert(sources[b] < sources[a]);
        }
    }
    assert forall|p: int| #[trigger]
        from.contains(p) <==> 0 <= p < probes@.len() && probes@[p].name is Some by {
        if from.contains(p) {
            let k = choose|k: int| 0 <= k < from.len() && from[k] == p;
            assert(places[k] < sources.len());
            assert(sources.contains(sources[places[k]]));
        }
        if sources.contains(p) {
            let d = choose|d: int| 0 <= d < sources.len() && sources[d] == p;
            assert(places.contains(d));
            let k = choose|k: int| 0 <= k < places.len() && places[k] == d;
            assert(from[k] == p);
        }
    }
    assert forall|k: int| 0 <= k < from.len() implies 0 <= #[trigger] from[k] < probes@.len()
        && probes@[from[k]].name is Some && describes(
        default_name,
        probes@[from[k]].name->Some_0@,
        probes@[from[k]].configs,
        shown@[k],
    ) by {
        let d = places[k];
        assert(from[k] == sources[d]);
        assert(shown@[k] == devices[d]);
    }
    let lt = place_before(devices);
    assert forall|i: int, j: int| 0 <= i < j < shown@.len() implies {
        &&& (#[trigger] shown@[j]).is_default ==> (#[trigger] shown@[i]).is_default
        &&& shown@[i].is_default == shown@[j].is_default ==> !text::text_lt(
            shown@[j].name@,
            shown@[i].name@,
        )
        &&& shown@[i].is_default == shown@[j].is_default && shown@[i].name@ == shown@[j].name@
            ==> from[i] < from[j]
    } by {
        assert(lt(places[i], places[j]));
        assert(shown@[i] == devices[places[i]] && shown@[j] == devices[places[j]]);
        shown_before_is_an_order(shown@[i], shown@[j], shown@[i]);
        if shown@[i].is_default == shown@[j].is_default && shown@[i].name@ == shown@[j].name@ {
            text::text_lt_irreflexive(shown@[i].name@);
            assert(places[i] < places[j]);
            assert(sources[places[i]] < sources[places[j]]);
        }
    }
    from
}

/// What sorting does to devices: each of them is still there once, the default
/// devices come first, then it goes by name, and devices that are alike in both
/// stay in the order they were in.
pub proof fn sorting_is_stable(devices: Vec<AudioDevice>, sorted: Vec<AudioDevice>) -> (from: Seq<
    int,
>)
    requires
        call_ensures(sort_devices, (devices,), sorted),
    ensures
        from.len() == sorted@.len() && sorted@.len() == devices@.len(),
        from.no_duplicates(),
        forall|k: int|
            0 <= k < from.len() ==> 0 <= #[trigger] from[k] < devices@.len() && sorted@[k]
                == devices@[from[k]],
        forall|i: int, j: int|
            0 <= i < j < sorted@.len() ==> {
                &&& (#[trigger] sorted@[j]).is_default ==> (#[trigger] sorted@[i]).is_default
                &&& sorted@[i].is_default == sorted@[j].is_default ==> !text::text_lt(
                    sorted@[j].name@,
                    sorted@[i].name@,
                )
                &&& sorted@[i].is_default == sorted@[j].is_default && sorted@[i].name@
                    == sorted@[j].name@ ==> from[i] < from[j]
            },
{
    let places = sorted_places(devices@, sorted@);
    places_are_one_to_one(devices@, places);
    let lt = place_before(devices@);
    assert forall|i: int, j: int|
        0 <= i < places.len() && 0 <= j < places.len() && i != j implies places[i]
        != places[j] by {
        if i < j {
            assert(places[i] != places[j]);
        } else {
            assert(places[j] != places[i]);
        }
    }
    assert forall|i: int, j: int| 0 <= i < j < sorted@.len() implies {
        &&& (#[trigger] sorted@[j]).is_default ==> (#[trigger] sorted@[i]).is_default
        &&& sorted@[i].is_default == sorted@[j].is_default ==> !text::text_lt(
            sorted@[j].name@,
            sorted@[i].name@,
        )
        &&& sorted@[i].is_default == sorted@[j].is_default && sorted@[i].name@ == sorted@[j].name@
            ==> places[i] < places[j]
    } by {
        assert(lt(places[i], places[j]));
        assert(sorted@[i] == devices@[places[i]] && sorted@[j] == devices@[places[j]]);
        shown_before_is_an_order(sorted@[i], sorted@[j], sorted@[i]);
        text::text_lt_irreflexive(sorted@[i].name@);
    }
    places
}

/// The rates that are listed are those of seven that one of the configurations
/// covers, in increasing order.
pub proof fn listed_rates_are_covered_ones(
    configs: Vec<StreamConfigRange>,
    rates: Vec<u32>,
    rate: u32,
    k: int,
)
    requires
        call_ensures(common_sample_rates, (&configs,), rates),
    ensures
        rates@.contains(rate) <==> (rate == 44_100 || rate == 48_000 || rate == 88_200 || rate
            == 96_000 || rate == 176_400 || rate == 192_000 || rate == 384_000) && exists|i: int|
            0 <= i < configs@.len() && (#[trigger] configs@[i]).min_sample_rate <= rate
                <= configs@[i].max_sample_rate,
        0 < k < rates@.len() ==> rates@[k - 1] < rates@[k],
{
    let lt = rate_lt();
    assert(rates@.contains(rate) <==> formats::is_common_rate(rate) && rate_covered(
        configs@,
        rate,
    ));
    if 0 < k < rates@.len() {
        assert(lt(rates@[k - 1], rates@[k]));
    }
}

/// A lookup gives the first device that has the name. Where none has, or the
/// devices could not be enumerated, it fails and says so.
pub proof fn lookup_finds_the_first_of_the_name(
    id: &str,
    devices: Result<Vec<Option<String>>, String>,
    r: Result<usize, String>,
    k: int,
)
    requires
        call_ensures(get_device_by_id, (id, &devices), r),
    ensures
        devices matches Err(e) ==> r matches Err(message) && message@
            == "Failed to enumerate devices: "@ + e@,
        devices matches Ok(names) ==> {
            &&& r matches Ok(at) ==> at < names@.len() && (names@[at as int] matches Some(n) && n@
                == id@) && (0 <= k < at ==> !(names@[k] matches Some(n) && n@ == id@))
            &&& 0 <= k < names@.len() && (names@[k] matches Some(n) && n@ == id@) ==> r is Ok
            &&& r matches Err(message) ==> message@ == "Device not found: "@ + id@
        },
{
    if let Ok(names) = devices {
        if 0 <= k < names@.len() {
            assert(text::opt_text(names@[k]) == Some(id@) <==> (names@[k] matches Some(n) && n@
                == id@));
        }
        if let Ok(at) = r {
            assert(text::opt_text(names@[at as int]) == Some(id@));
        }
    }
}

/// The output goes to the first enumerated device that has the requested name.
/// Where nothing is requested, nothing of that name is enumerated, or nothing could
/// be enumerated, it goes to the default device, and nowhere where there is none.
pub proof fn output_goes_to_the_request_or_the_default(
    device_id: Option<&str>,
    devices: Result<Vec<Option<String>>, String>,
    has_default: bool,
    chosen: Option<OutputDevice>,
    at: usize,
)
    requires
        call_ensures(resolve_output_device, (device_id, &devices, has_default), chosen),
    ensures
        ({
            let met = |k: int|
                device_id matches Some(id) && devices matches Ok(names) && 0 <= k < names@.len() && (
                names@[k] matches Some(n) && n@ == id@);
            &&& chosen == Some(OutputDevice::Listed(at)) <==> met(at as int) && forall|k: int|
                0 <= k < at ==> !#[trigger] met(k)
            &&& chosen == Some(OutputDevice::Default) ==> has_default && !met(at as int)
            &&& chosen is None ==> !has_default && !met(at as int)
        }),
{
    let met = |k: int|
        device_id matches Some(id) && devices matches Ok(names) && 0 <= k < names@.len() && (
        names@[k] matches Some(n) && n@ == id@);
    if let (Some(id), Ok(names)) = (device_id, devices) {
        assert forall|k: int| 0 <= k < names@.len() implies (#[trigger] met(k) <==> text::opt_text(
            names@[k],
        ) == Some(id@)) by {}
        if let Some(OutputDevice::Listed(found)) = chosen {
            assert(met(found as int));
            if met(at as int) && (forall|k: int| 0 <= k < at ==> !#[trigger] met(k)) {
                assert(!met(found as int) || found >= at);
                if at < found {
                    assert(text::opt_text(names@[at as int]) != Some(id@));
                }
            }
            if at == found {
                assert forall|k: int| 0 <= k < at implies !#[trigger] met(k) by {
                    assert(text::opt_text(names@[k]) != Some(id@));
                }
            }
        } else if met(at as int) {
            assert(text::opt_text(names@[at as int]) != Some(id@));
        }
    }
}

/// The host's default device is the one that is given, and it is missed where
/// there is none.
pub proof fn default_device_is_the_hosts<D>(default_device: Option<D>, r: Result<D, String>)
    requires
        call_ensures(get_default_device::<D>, (default_device,), r),
    ensures
        default_device matches Some(d) ==> r == Ok::<D, String>(d),
        default_device is None ==> (r matches Err(message) && message@
            == "No default output device available"@),
{
}

/// A failed enumeration is reported with the host's own words, and nothing is
/// listed; a successful one is listed.
pub proof fn failed_enumeration_lists_nothing(
    default_device_name: Option<String>,
    devices: Result<Vec<DeviceProbe>, String>,
    r: Result<Vec<AudioDevice>, String>,
)
    requires
        call_ensures(list_devices, (default_device_name, devices), r),
    ensures
        r is Ok <==> devices is Ok,
        devices matches Err(e) ==> r matches Err(message) && message@
            == "Failed to enumerate devices: "@ + e@,
{
}

} // verus!
