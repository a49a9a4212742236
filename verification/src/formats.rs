//! The PCM formats that are offered for a device when a stream is negotiated.
//!
//! The device's native output configuration anchors the list: the rate that the
//! device is running at comes first, so that nothing has to be resampled. Other
//! common rates follow where the device reports that it can handle them. Only
//! stereo is offered.
use vstd::prelude::*;
use crate::order;

verus! {

/// A PCM format that can be offered.
#[derive(Debug, Clone, Copy, PartialEq, Eq, PartialOrd, Ord, Structural)]
pub struct SupportedPcmFormat {
    pub channels: u16,
    pub sample_rate: u32,
    pub bit_depth: u16,
}

/// How a device stores one sample.
#[derive(Debug, Clone, Copy, PartialEq, Eq, Structural)]
pub enum SampleFormat {
    I8,
    I16,
    I24,
    I32,
    I64,
    U8,
    U16,
    U24,
    U32,
    U64,
    F32,
    F64,
    /// One-bit streams in containers of one, two or four bytes.
    DsdU8,
    DsdU16,
    DsdU32,
    /// Anything else that a device may report.
    Other,
}

/// The current default output format of a device, as far as negotiation cares.
#[derive(Debug, Clone, Copy, PartialEq, Eq, Structural)]
pub struct NativeFormat {
    pub channels: u16,
    pub sample_rate: u32,
    pub supports_24bit: bool,
}

/// One range of configurations that a device reports.
#[derive(Debug, Clone, Copy, PartialEq, Eq, Structural)]
pub struct ConfigRange {
    pub channels: u16,
    pub min_sample_rate: u32,
    pub max_sample_rate: u32,
    pub supports_24bit: bool,
}

/// All that negotiation has to know of a device.
#[derive(Debug, Clone, PartialEq, Eq)]
pub struct DeviceCapabilities {
    pub native: Option<NativeFormat>,
    pub ranges: Vec<ConfigRange>,
}

/// The default output configuration of a device, as the audio host reports it.
#[derive(Debug, Clone, Copy, PartialEq, Eq, Structural)]
pub struct StreamConfig {
    pub channels: u16,
    pub sample_rate: u32,
    pub sample_format: SampleFormat,
}

/// A range of output configurations of a device, as the audio host reports it.
#[derive(Debug, Clone, Copy, PartialEq, Eq, Structural)]
pub struct StreamConfigRange {
    pub channels: u16,
    pub min_sample_rate: u32,
    pub max_sample_rate: u32,
    pub sample_format: SampleFormat,
}

/// How many bits of an integer sample a format carries without loss. A binary
/// float carries as many as its significand has, the implicit leading bit
/// counted.
pub open spec fn significant_bits(fmt: SampleFormat) -> nat {
    match fmt {
        SampleFormat::I8 | SampleFormat::U8 => 8,
        SampleFormat::I16 | SampleFormat::U16 => 16,
        SampleFormat::I24 | SampleFormat::U24 => 24,
        SampleFormat::I32 | SampleFormat::U32 => 32,
        SampleFormat::I64 | SampleFormat::U64 => 64,
        SampleFormat::F32 => 24,
        SampleFormat::F64 => 53,
        SampleFormat::DsdU8 | SampleFormat::DsdU16 | SampleFormat::DsdU32 => 1,
        SampleFormat::Other => 0,
    }
}

/// The place of a sample rate on the ladder of common rates: each rate of the
/// 48 kHz family is followed by its sibling of the 44.1 kHz family. All other
/// rates share the last place.
pub open spec fn ladder_rank(rate: u32) -> u32 {
    if rate == 48_000 {
        1
    } else if rate == 44_100 {
        2
    } else if rate == 96_000 {
        3
    } else if rate == 88_200 {
        4
    } else if rate == 192_000 {
        5
    } else if rate == 176_400 {
        6
    } else if rate == 384_000 {
        7
    } else {
        8
    }
}

/// Whether a sample rate is one of the common ones.
pub open spec fn is_common_rate(rate: u32) -> bool {
    ladder_rank(rate) < 8
}

/// By what a format is ranked: the place of its rate, with the native rate
/// before all others; then its depth, 24 bits first at the native rate and 16
/// bits first elsewhere; then rate and depth themselves.
pub open spec fn format_key(f: SupportedPcmFormat, native_rate: Option<u32>) -> (
    u32,
    u32,
    u32,
    u16,
) {
    if Some(f.sample_rate) == native_rate {
        (0, if f.bit_depth == 16 { 1 } else { 0 }, f.sample_rate, f.bit_depth)
    } else {
        (
            ladder_rank(f.sample_rate),
            if f.bit_depth == 16 { 0 } else { 1 },
            f.sample_rate,
            f.bit_depth,
        )
    }
}

/// Whether `a` comes before `b` when compared component by component.
pub open spec fn key_lt(a: (u32, u32, u32, u16), b: (u32, u32, u32, u16)) -> bool {
    ||| a.0 < b.0
    ||| a.0 == b.0 && a.1 < b.1
    ||| a.0 == b.0 && a.1 == b.1 && a.2 < b.2
    ||| a.0 == b.0 && a.1 == b.1 && a.2 == b.2 && a.3 < b.3
}

/// Whether one format is preferred to another.
pub open spec fn preferred(native_rate: Option<u32>) -> spec_fn(
    SupportedPcmFormat,
    SupportedPcmFormat,
) -> bool {
    |a: SupportedPcmFormat, b: SupportedPcmFormat|
        key_lt(format_key(a, native_rate), format_key(b, native_rate))
}

/// Whether a format has one of the two depths that are offered.
pub open spec fn depth_offered(bit_depth: u16, supports_24bit: bool) -> bool {
    bit_depth == 16 || (bit_depth == 24 && supports_24bit)
}

/// Whether the native configuration has `f` offered. A mono configuration has
/// nothing offered: a stereo stream would not open on it.
pub open spec fn offered_by_native(native: Option<NativeFormat>, f: SupportedPcmFormat) -> bool {
    native matches Some(n) && n.channels >= 2 && f.channels == 2 && f.sample_rate == n.sample_rate
        && depth_offered(f.bit_depth, n.supports_24bit)
}

/// Whether one reported range has `f` offered.
pub open spec fn offered_by_range(range: ConfigRange, f: SupportedPcmFormat) -> bool {
    &&& range.channels >= 2
    &&& f.channels == 2
    &&& is_common_rate(f.sample_rate)
    &&& range.min_sample_rate <= f.sample_rate <= range.max_sample_rate
    &&& depth_offered(f.bit_depth, range.supports_24bit)
}

/// Whether `f` is offered for a device.
pub open spec fn offered(
    native: Option<NativeFormat>,
    ranges: Seq<ConfigRange>,
    f: SupportedPcmFormat,
) -> bool {
    ||| offered_by_native(native, f)
    ||| exists|i: int| 0 <= i < ranges.len() && offered_by_range(#[trigger] ranges[i], f)
}

/// The native rate, where the device reports a native configuration.
pub open spec fn native_rate_of(native: Option<NativeFormat>) -> Option<u32> {
    match native {
        Some(n) => Some(n.sample_rate),
        None => None,
    }
}

/// Whether `list` is the offer for a device: exactly the formats that are
/// offered for it, each once, the preferred ones first.
pub open spec fn is_offer(
    native: Option<NativeFormat>,
    ranges: Seq<ConfigRange>,
    list: Seq<SupportedPcmFormat>,
) -> bool {
    &&& forall|f: SupportedPcmFormat| #[trigger]
        list.contains(f) <==> offered(native, ranges, f)
    &&& order::increasing(list, preferred(native_rate_of(native)))
}

impl Default for DeviceCapabilities {
    /// A device that reports nothing.
    fn default() -> (r: Self)
        ensures
            r.native is None,
            r.ranges@ == Seq::<ConfigRange>::empty(),
    {
        DeviceCapabilities { native: None, ranges: Vec::new() }
    }
}

/// Whether a sample format can carry 24-bit PCM without loss of precision.
pub fn sample_format_supports_24bit(fmt: SampleFormat) -> (r: bool)
    ensures
        r <==> significant_bits(fmt) >= 24,
{
    match fmt {
        SampleFormat::I24
        | SampleFormat::U24
        | SampleFormat::I32
        | SampleFormat::U32
        | SampleFormat::I64
        | SampleFormat::U64
        | SampleFormat::F32
        | SampleFormat::F64 => true,
        _ => false,
    }
}

/// By what a format is ranked in the offer; the smallest key comes first.
pub fn sort_key(f: SupportedPcmFormat, native_rate: Option<u32>) -> (r: (u32, u32, u32, u16))
    ensures
        r == format_key(f, native_rate),
{
    let is_native = match native_rate {
        Some(rate) => rate == f.sample_rate,
        None => false,
    };
    let rate_rank: u32 = if is_native {
        0
    } else {
        match f.sample_rate {
            48_000 => 1,
            44_100 => 2,
            96_000 => 3,
            88_200 => 4,
            192_000 => 5,
            176_400 => 6,
            384_000 => 7,
            _ => 8,
        }
    };
    let depth_rank: u32 = if is_native == (f.bit_depth == 16) {
        1
    } else {
        0
    };
    (rate_rank, depth_rank, f.sample_rate, f.bit_depth)
}

/// Whether `a` comes before `b`.
fn key_before(a: (u32, u32, u32, u16), b: (u32, u32, u32, u16)) -> (r: bool)
    ensures
        r <==> key_lt(a, b),
{
    if a.0 != b.0 {
        a.0 < b.0
    } else if a.1 != b.1 {
        a.1 < b.1
    } else if a.2 != b.2 {
        a.2 < b.2
    } else {
        a.3 < b.3
    }
}

/// Whether every format in `s` is a stereo one.
pub open spec fn all_stereo(s: Seq<SupportedPcmFormat>) -> bool {
    forall|i: int| 0 <= i < s.len() ==> (#[trigger] s[i]).channels == 2
}

/// Puts `f` where it belongs in an ordered list, unless it is there already.
fn insert_format(list: &mut Vec<SupportedPcmFormat>, f: SupportedPcmFormat, native_rate: Option<u32>)
    requires
        order::increasing(old(list)@, preferred(native_rate)),
        all_stereo(old(list)@),
        f.channels == 2,
    ensures
        order::increasing(final(list)@, preferred(native_rate)),
        all_stereo(final(list)@),
        forall|g: SupportedPcmFormat| #[trigger]
            final(list)@.contains(g) <==> old(list)@.contains(g) || g == f,
{
    let ghost before = list@;
    let key = sort_key(f, native_rate);
    let mut at: usize = 0;
    while at < list.len() && key_before(sort_key(list[at], native_rate), key)
        invariant
            list@ == before,
            key == format_key(f, native_rate),
            at <= list@.len(),
            forall|i: int|
                0 <= i < at ==> key_lt(format_key(#[trigger] before[i], native_rate), key),
        decreases list@.len() - at,
    {
        at = at + 1;
    }
    if at < list.len() && !key_before(key, sort_key(list[at], native_rate)) {
        assert(before[at as int] == f);
        return ;
    }
    list.insert(at, f);
    let ghost after = list@;
    assert(after == before.insert(at as int, f));
    assert forall|g: SupportedPcmFormat| #[trigger]
        after.contains(g) <==> before.contains(g) || g == f by {
        if before.contains(g) {
            let i = choose|i: int| 0 <= i < before.len() && before[i] == g;
            if i < at {
                assert(after[i] == g);
            } else {
                assert(after[i + 1] == g);
            }
        }
        if after.contains(g) {
            let i = choose|i: int| 0 <= i < after.len() && after[i] == g;
            if i < at {
                assert(before[i] == g);
            } else if i > at {
                assert(before[i - 1] == g);
            }
        }
        assert(after[at as int] == f);
    }
    let ghost lt = preferred(native_rate);
    assert forall|i: int, j: int| 0 <= i < j < after.len() implies lt(
        #[trigger] after[i],
        #[trigger] after[j],
    ) by {
        let bi = if i < at { i } else { i - 1 };
        let bj = if j < at { j } else { j - 1 };
        if i != at && j != at {
            assert(lt(before[bi], before[bj]));
        } else if i == at {
            if bj > at {
                assert(lt(before[at as int], before[bj]));
            }
        }
    }
}

/// The offer for a device.
pub fn build_formats(caps: &DeviceCapabilities) -> (r: Vec<SupportedPcmFormat>)
    ensures
        is_offer(caps.native, caps.ranges@, r@),
{
    let native_rate: Option<u32> = match caps.native {
        Some(n) => Some(n.sample_rate),
        None => None,
    };
    let mut list: Vec<SupportedPcmFormat> = Vec::new();
    if let Some(n) = caps.native {
        if n.channels >= 2 {
            if n.supports_24bit {
                insert_format(
                    &mut list,
                    SupportedPcmFormat { channels: 2, sample_rate: n.sample_rate, bit_depth: 24 },
                    native_rate,
                );
            }
            insert_format(
                &mut list,
                SupportedPcmFormat { channels: 2, sample_rate: n.sample_rate, bit_depth: 16 },
                native_rate,
            );
        }
    }
    assert forall|f: SupportedPcmFormat| #[trigger]
        list@.contains(f) <==> offered_by_native(caps.native, f) by {
        if offered_by_native(caps.native, f) {
            assert(f == (SupportedPcmFormat {
                channels: 2,
                sample_rate: f.sample_rate,
                bit_depth: f.bit_depth,
            }));
        }
    }
    let mut k: usize = 0;
    while k < caps.ranges.len()
        invariant
            k <= caps.ranges@.len(),
            native_rate == native_rate_of(caps.native),
            order::increasing(list@, preferred(native_rate)),
            all_stereo(list@),
            forall|f: SupportedPcmFormat| #[trigger]
                list@.contains(f) <==> offered(caps.native, caps.ranges@.take(k as int), f),
        decreases caps.ranges@.len() - k,
    {
        let ghost sofar = list@;
        add_range(&mut list, caps.ranges[k], native_rate);
        let ghost (done, more) = (caps.ranges@.take(k as int), caps.ranges@.take(k + 1));
        assert forall|f: SupportedPcmFormat| #[trigger]
            list@.contains(f) <==> offered(caps.native, more, f) by {
            assert(list@.contains(f) <==> sofar.contains(f) || offered_by_range(
                caps.ranges@[k as int],
                f,
            ));
            if offered(caps.native, done, f) && !offered_by_native(caps.native, f) {
                let i = choose|i: int|
                    0 <= i < done.len() && offered_by_range(#[trigger] done[i], f);
                assert(offered_by_range(more[i], f));
            }
            if offered_by_range(caps.ranges@[k as int], f) {
                assert(offered_by_range(more[k as int], f));
            }
            if offered(caps.native, more, f) && !offered_by_native(caps.native, f) {
                let i = choose|i: int|
                    0 <= i < more.len() && offered_by_range(#[trigger] more[i], f);
                if i < k {
                    assert(offered_by_range(done[i], f));
                }
            }
        }
        k = k + 1;
    }
    assert(caps.ranges@.take(k as int) == caps.ranges@);
    list
}

/// Adds what one reported range has offered.
fn add_range(list: &mut Vec<SupportedPcmFormat>, range: ConfigRange, native_rate: Option<u32>)
    requires
        order::increasing(old(list)@, preferred(native_rate)),
        all_stereo(old(list)@),
    ensures
        order::increasing(final(list)@, preferred(native_rate)),
        all_stereo(final(list)@),
        forall|f: SupportedPcmFormat| #[trigger]
            final(list)@.contains(f) <==> old(list)@.contains(f) || offered_by_range(range, f),
{
    let ghost before = list@;
    if range.channels < 2 {
        return ;
    }
    let rates: [u32; 7] = [48_000, 44_100, 96_000, 88_200, 192_000, 176_400, 384_000];
    let mut k: usize = 0;
    while k < 7
        invariant
            k <= 7,
            rates@ == seq![48_000u32, 44_100, 96_000, 88_200, 192_000, 176_400, 384_000],
            range.channels >= 2,
            order::increasing(list@, preferred(native_rate)),
            all_stereo(list@),
            forall|f: SupportedPcmFormat| #[trigger]
                list@.contains(f) <==> before.contains(f) || (offered_by_range(range, f)
                    && ladder_rank(f.sample_rate) <= k),
        decreases 7 - k,
    {
        let ghost sofar = list@;
        let rate: u32 = rates[k];
        assert(ladder_rank(rate) == k + 1);
        let wide = SupportedPcmFormat { channels: 2, sample_rate: rate, bit_depth: 24 };
        let narrow = SupportedPcmFormat { channels: 2, sample_rate: rate, bit_depth: 16 };
        if rate >= range.min_sample_rate && rate <= range.max_sample_rate {
            insert_format(list, narrow, native_rate);
            if range.supports_24bit {
                insert_format(list, wide, native_rate);
            }
        }
        k = k + 1;
        assert forall|f: SupportedPcmFormat| #[trigger]
            list@.contains(f) <==> before.contains(f) || (offered_by_range(range, f)
                && ladder_rank(f.sample_rate) <= k) by {
            assert(sofar.contains(f) <==> before.contains(f) || (offered_by_range(range, f)
                && ladder_rank(f.sample_rate) <= k - 1));
            if ladder_rank(f.sample_rate) == k {
                assert(f.sample_rate == rate);
                if offered_by_range(range, f) {
                    assert(f == wide || f == narrow);
                }
            }
        }
    }
}

/// The offer for a device, where there is one.
pub fn derive_supported_pcm_formats(device: Option<&DeviceCapabilities>) -> (r: Vec<
    SupportedPcmFormat,
>)
    ensures
        match device {
            Some(caps) => is_offer(caps.native, caps.ranges@, r@),
            None => r@ == Seq::<SupportedPcmFormat>::empty(),
        },
{
    match device {
        Some(caps) => build_formats(caps),
        None => Vec::new(),
    }
}

/// What is kept of a default output configuration.
pub open spec fn native_of(config: StreamConfig) -> NativeFormat {
    NativeFormat {
        channels: config.channels,
        sample_rate: config.sample_rate,
        supports_24bit: significant_bits(config.sample_format) >= 24,
    }
}

/// What is kept of a reported range.
pub open spec fn range_of(config: StreamConfigRange) -> ConfigRange {
    ConfigRange {
        channels: config.channels,
        min_sample_rate: config.min_sample_rate,
        max_sample_rate: config.max_sample_rate,
        supports_24bit: significant_bits(config.sample_format) >= 24,
    }
}

/// What negotiation has to know of a device, from what the audio host reports:
/// its default output configuration and its supported ranges, each of them
/// missing where the host could not tell.
pub fn extract_capabilities(
    default_config: Option<StreamConfig>,
    supported: Option<Vec<StreamConfigRange>>,
) -> (r: DeviceCapabilities)
    ensures
        r.native == (match default_config {
            Some(config) => Some(native_of(config)),
            None => None,
        }),
        r.ranges@ == (match supported {
            Some(configs) => configs@.map_values(|c: StreamConfigRange| range_of(c)),
            None => Seq::empty(),
        }),
{
    let native: Option<NativeFormat> = match default_config {
        Some(c) => Some(
            NativeFormat {
                channels: c.channels,
                sample_rate: c.sample_rate,
                supports_24bit: sample_format_supports_24bit(c.sample_format),
            },
        ),
        None => None,
    };
    let mut ranges: Vec<ConfigRange> = Vec::new();
    if let Some(configs) = supported {
        let mut k: usize = 0;
        while k < configs.len()
            invariant
                k <= configs@.len(),
                ranges@.len() == k,
                forall|i: int| 0 <= i < k ==> #[trigger] ranges@[i] == range_of(configs@[i]),
            decreases configs@.len() - k,
        {
            let c = configs[k];
            ranges.push(
                ConfigRange {
                    channels: c.channels,
                    min_sample_rate: c.min_sample_rate,
                    max_sample_rate: c.max_sample_rate,
                    supports_24bit: sample_format_supports_24bit(c.sample_format),
                },
            );
            k = k + 1;
        }
        assert(ranges@ =~= configs@.map_values(|c: StreamConfigRange| range_of(c)));
    }
    DeviceCapabilities { native, ranges }
}

/// The stereo format of the given rate and depth.
pub open spec fn stereo(sample_rate: u32, bit_depth: u16) -> SupportedPcmFormat {
    SupportedPcmFormat { channels: 2, sample_rate, bit_depth }
}

/// The offer for a device depends on which ranges the device reports, not on
/// their order or on how often one is repeated; in particular there is only one.
pub proof fn offer_is_determined_by_the_ranges(
    native: Option<NativeFormat>,
    ranges: Seq<ConfigRange>,
    other_ranges: Seq<ConfigRange>,
    list: Seq<SupportedPcmFormat>,
    other_list: Seq<SupportedPcmFormat>,
)
    requires
        is_offer(native, ranges, list),
        is_offer(native, other_ranges, other_list),
        forall|range: ConfigRange| #[trigger]
            ranges.contains(range) <==> other_ranges.contains(range),
    ensures
        list == other_list,
{
    assert forall|f: SupportedPcmFormat| #[trigger]
        list.contains(f) <==> other_list.contains(f) by {
        if offered(native, ranges, f) && !offered_by_native(native, f) {
            let i = choose|i: int|
                0 <= i < ranges.len() && offered_by_range(#[trigger] ranges[i], f);
            assert(ranges.contains(ranges[i]));
            assert(other_ranges.contains(ranges[i]));
            let j = choose|j: int| 0 <= j < other_ranges.len() && other_ranges[j] == ranges[i];
            assert(offered_by_range(other_ranges[j], f));
        }
        if offered(native, other_ranges, f) && !offered_by_native(native, f) {
            let i = choose|i: int|
                0 <= i < other_ranges.len() && offered_by_range(#[trigger] other_ranges[i], f);
            assert(other_ranges.contains(other_ranges[i]));
            assert(ranges.contains(other_ranges[i]));
            let j = choose|j: int| 0 <= j < ranges.len() && ranges[j] == other_ranges[i];
            assert(offered_by_range(ranges[j], f));
        }
        assert(other_list.contains(f) <==> offered(native, other_ranges, f));
    }
    order::increasing_is_unique(list, other_list, preferred(native_rate_of(native)));
}

/// A format at the native rate is preferred to any format at another rate,
/// whatever the depths.
pub proof fn native_rate_is_preferred(
    native_rate: u32,
    at_native: SupportedPcmFormat,
    elsewhere: SupportedPcmFormat,
)
    requires
        at_native.sample_rate == native_rate,
        elsewhere.sample_rate != native_rate,
    ensures
        key_lt(
            format_key(at_native, Some(native_rate)),
            format_key(elsewhere, Some(native_rate)),
        ),
{
}

/// Of two formats at the same rate the one with 24 bits is preferred where the
/// rate is the native one, and the one with 16 bits everywhere else.
pub proof fn depth_preference_turns_on_the_native_rate(
    native_rate: Option<u32>,
    narrow: SupportedPcmFormat,
    wide: SupportedPcmFormat,
)
    requires
        narrow.sample_rate == wide.sample_rate,
        narrow.bit_depth == 16,
        wide.bit_depth == 24,
    ensures
        native_rate == Some(wide.sample_rate) ==> key_lt(
            format_key(wide, native_rate),
            format_key(narrow, native_rate),
        ),
        native_rate != Some(wide.sample_rate) ==> key_lt(
            format_key(narrow, native_rate),
            format_key(wide, native_rate),
        ),
{
}

/// Away from the native rate the ladder of common rates decides, whatever the
/// depths, and a common rate is preferred to one that is not.
pub proof fn ladder_decides_between_other_rates(
    native_rate: Option<u32>,
    a: SupportedPcmFormat,
    b: SupportedPcmFormat,
)
    requires
        native_rate != Some(a.sample_rate),
        native_rate != Some(b.sample_rate),
        ladder_rank(a.sample_rate) < ladder_rank(b.sample_rate),
    ensures
        key_lt(format_key(a, native_rate), format_key(b, native_rate)),
{
}

/// A stereo device always has its native rate offered, and offered first; where
/// the native configuration carries 24 bits, that is the very first format.
pub proof fn offer_leads_with_the_native_rate(
    native: NativeFormat,
    ranges: Seq<ConfigRange>,
    list: Seq<SupportedPcmFormat>,
)
    requires
        native.channels >= 2,
        is_offer(Some(native), ranges, list),
    ensures
        list.len() > 0,
        list[0].sample_rate == native.sample_rate,
        list.contains(stereo(native.sample_rate, 16)),
        native.supports_24bit ==> list[0] == stereo(native.sample_rate, 24),
        forall|i: int, j: int|
            0 <= i < list.len() && 0 <= j < list.len() && (#[trigger] list[i]).sample_rate
                == native.sample_rate && (#[trigger] list[j]).sample_rate != native.sample_rate
                ==> i < j,
{
    let narrow = stereo(native.sample_rate, 16);
    let wide = stereo(native.sample_rate, 24);
    let lt = preferred(Some(native.sample_rate));
    assert(offered(Some(native), ranges, narrow));
    assert(list.contains(narrow));
    let n = choose|n: int| 0 <= n < list.len() && list[n] == narrow;
    assert(list.contains(list[0]));
    assert(offered(Some(native), ranges, list[0]));
    if n > 0 {
        assert(lt(list[0], list[n]));
    }
    if native.supports_24bit {
        assert(offered(Some(native), ranges, wide));
        assert(list.contains(wide));
        let w = choose|w: int| 0 <= w < list.len() && list[w] == wide;
        if w > 0 {
            assert(lt(list[0], list[w]));
        }
    }
    assert forall|i: int, j: int|
        0 <= i < list.len() && 0 <= j < list.len() && (#[trigger] list[i]).sample_rate
            == native.sample_rate && (#[trigger] list[j]).sample_rate
            != native.sample_rate implies i < j by {
        if j < i {
            assert(lt(list[j], list[i]));
        }
    }
}

/// Whatever is offered is stereo with 16 or 24 bits, at the native rate or at a
/// common one; nothing is offered twice; and wherever 24 bits are offered, 16
/// bits are offered at the same rate.
pub proof fn offer_is_plain_stereo(
    native: Option<NativeFormat>,
    ranges: Seq<ConfigRange>,
    list: Seq<SupportedPcmFormat>,
)
    requires
        is_offer(native, ranges, list),
    ensures
        list.no_duplicates(),
        forall|i: int|
            0 <= i < list.len() ==> {
                &&& (#[trigger] list[i]).channels == 2
                &&& list[i].bit_depth == 16 || list[i].bit_depth == 24
                &&& native_rate_of(native) == Some(list[i].sample_rate) || is_common_rate(
                    list[i].sample_rate,
                )
                &&& list.contains(stereo(list[i].sample_rate, 16))
            },
{
    let lt = preferred(native_rate_of(native));
    assert forall|i: int, j: int| 0 <= i < j < list.len() implies list[i] != list[j] by {
        assert(lt(list[i], list[j]));
    }
    assert forall|i: int| 0 <= i < list.len() implies {
        &&& (#[trigger] list[i]).channels == 2
        &&& list[i].bit_depth == 16 || list[i].bit_depth == 24
        &&& native_rate_of(native) == Some(list[i].sample_rate) || is_common_rate(
            list[i].sample_rate,
        )
        &&& list.contains(stereo(list[i].sample_rate, 16))
    } by {
        let f = list[i];
        let narrow = stereo(f.sample_rate, 16);
        assert(list.contains(f));
        assert(offered(native, ranges, f));
        if !offered_by_native(native, f) {
            let k = choose|k: int|
                0 <= k < ranges.len() && offered_by_range(#[trigger] ranges[k], f);
            assert(offered_by_range(ranges[k], narrow));
        }
        assert(offered(native, ranges, narrow));
        assert(list.contains(narrow));
    }
}

/// A device that reports only mono configurations has nothing offered.
pub proof fn mono_device_has_no_offer(
    native: Option<NativeFormat>,
    ranges: Seq<ConfigRange>,
    list: Seq<SupportedPcmFormat>,
)
    requires
        is_offer(native, ranges, list),
        native matches Some(n) ==> n.channels < 2,
        forall|i: int| 0 <= i < ranges.len() ==> (#[trigger] ranges[i]).channels < 2,
    ensures
        list.len() == 0,
{
    if list.len() > 0 {
        assert(list.contains(list[0]));
        assert(offered(native, ranges, list[0]));
    }
}

/// Exactly these formats are offered for a device: stereo with 16 bits, or with 24
/// bits, at the native rate of a stereo device and at each common rate within a
/// reported stereo range; 24 bits only as far as the configuration or the range
/// that has the rate offered carries them.
pub proof fn offer_holds_what_the_device_supports(
    caps: DeviceCapabilities,
    list: Vec<SupportedPcmFormat>,
    f: SupportedPcmFormat,
)
    requires
        call_ensures(build_formats, (&caps,), list),
    ensures
        list@.contains(f) <==> f.channels == 2 && (f.bit_depth == 16 || f.bit_depth == 24) && ({
            ||| caps.native matches Some(n) && n.channels >= 2 && n.sample_rate == f.sample_rate && (
            f.bit_depth == 16 || n.supports_24bit)
            ||| ((f.sample_rate == 44_100 || f.sample_rate == 48_000 || f.sample_rate == 88_200
                || f.sample_rate == 96_000 || f.sample_rate == 176_400 || f.sample_rate == 192_000
                || f.sample_rate == 384_000) && exists|i: int|
                0 <= i < caps.ranges@.len() && (#[trigger] caps.ranges@[i]).channels >= 2
                    && caps.ranges@[i].min_sample_rate <= f.sample_rate
                    <= caps.ranges@[i].max_sample_rate && (f.bit_depth == 16
                    || caps.ranges@[i].supports_24bit))
        }),
{
    let ranges = caps.ranges@;
    assert(list@.contains(f) <==> offered(caps.native, ranges, f));
    if list@.contains(f) && !offered_by_native(caps.native, f) {
        let i = choose|i: int| 0 <= i < ranges.len() && offered_by_range(#[trigger] ranges[i], f);
        assert(ranges[i].channels >= 2);
    }
    if exists|i: int|
        0 <= i < ranges.len() && (#[trigger] ranges[i]).channels >= 2 && ranges[i].min_sample_rate
            <= f.sample_rate <= ranges[i].max_sample_rate && (f.bit_depth == 16
            || ranges[i].supports_24bit) {
        let i = choose|i: int|
            0 <= i < ranges.len() && (#[trigger] ranges[i]).channels >= 2
                && ranges[i].min_sample_rate <= f.sample_rate <= ranges[i].max_sample_rate && (
            f.bit_depth == 16 || ranges[i].supports_24bit);
        if f.channels == 2 && (f.bit_depth == 16 || f.bit_depth == 24) && is_common_rate(
            f.sample_rate,
        ) {
            assert(offered_by_range(ranges[i], f));
        }
    }
}

/// Where there is no device, nothing is offered. At each rate a device has 16 bits
/// offered where it supports the rate in stereo, and 24 bits where one and the same
/// configuration or range carries both; and it has nothing else offered.
pub proof fn only_a_device_has_an_offer(
    device: Option<&DeviceCapabilities>,
    list: Vec<SupportedPcmFormat>,
    f: SupportedPcmFormat,
)
    requires
        call_ensures(derive_supported_pcm_formats, (device,), list),
    ensures
        device is None ==> list@.len() == 0,
        device matches Some(caps) ==> (list@.contains(stereo(f.sample_rate, 24)) <==> ({
            ||| caps.native matches Some(n) && n.channels >= 2 && n.supports_24bit && n.sample_rate
                == f.sample_rate
            ||| ((f.sample_rate == 44_100 || f.sample_rate == 48_000 || f.sample_rate == 88_200
                || f.sample_rate == 96_000 || f.sample_rate == 176_400 || f.sample_rate == 192_000
                || f.sample_rate == 384_000) && exists|i: int|
                0 <= i < caps.ranges@.len() && (#[trigger] caps.ranges@[i]).channels >= 2
                    && caps.ranges@[i].supports_24bit && caps.ranges@[i].min_sample_rate
                    <= f.sample_rate <= caps.ranges@[i].max_sample_rate)
        })),
        device matches Some(caps) ==> (list@.contains(stereo(f.sample_rate, 16)) <==> ({
            ||| caps.native matches Some(n) && n.channels >= 2 && n.sample_rate == f.sample_rate
            ||| ((f.sample_rate == 44_100 || f.sample_rate == 48_000 || f.sample_rate == 88_200
                || f.sample_rate == 96_000 || f.sample_rate == 176_400 || f.sample_rate == 192_000
                || f.sample_rate == 384_000) && exists|i: int|
                0 <= i < caps.ranges@.len() && (#[trigger] caps.ranges@[i]).channels >= 2
                    && caps.ranges@[i].min_sample_rate <= f.sample_rate
                    <= caps.ranges@[i].max_sample_rate)
        })),
        list@.contains(f) ==> f == stereo(f.sample_rate, 16) || f == stereo(f.sample_rate, 24),
{
    if let Some(caps) = device {
        assert(is_offer(caps.native, caps.ranges@, list@));
        let (narrow, wide) = (stereo(f.sample_rate, 16), stereo(f.sample_rate, 24));
        assert(list@.contains(f) <==> offered(caps.native, caps.ranges@, f));
        assert(list@.contains(narrow) <==> offered(caps.native, caps.ranges@, narrow));
        assert(list@.contains(wide) <==> offered(caps.native, caps.ranges@, wide));
        assert forall|i: int| 0 <= i < caps.ranges@.len() implies {
            &&& offered_by_range(caps.ranges@[i], narrow) <==> (
            #[trigger] caps.ranges@[i]).channels >= 2 && is_common_rate(f.sample_rate)
                && caps.ranges@[i].min_sample_rate <= f.sample_rate
                <= caps.ranges@[i].max_sample_rate
            &&& offered_by_range(caps.ranges@[i], wide) <==> caps.ranges@[i].channels >= 2
                && is_common_rate(f.sample_rate) && caps.ranges@[i].supports_24bit
                && caps.ranges@[i].min_sample_rate <= f.sample_rate
                <= caps.ranges@[i].max_sample_rate
        } by {}
    }
}

/// The common rates, the most preferred one first.
pub open spec fn ladder() -> Seq<u32> {
    seq![48_000u32, 44_100, 96_000, 88_200, 192_000, 176_400, 384_000]
}

/// The order of an offer. What is at the native rate comes first, with 24 bits
/// before 16. The rest follows in the order 48, 44.1, 96, 88.2, 192, 176.4 and 384
/// kHz, each rate with 16 bits before 24. Nothing is offered twice.
pub proof fn offer_is_in_order(
    caps: DeviceCapabilities,
    list: Vec<SupportedPcmFormat>,
    i: int,
    j: int,
)
    requires
        call_ensures(build_formats, (&caps,), list),
        0 <= i < list@.len(),
        0 <= j < list@.len(),
        i != j,
    ensures
        ({
            let (a, b) = (list@[i], list@[j]);
            let a_native = caps.native matches Some(n) && n.sample_rate == a.sample_rate;
            let b_native = caps.native matches Some(n) && n.sample_rate == b.sample_rate;
            &&& a != b
            &&& a_native && !b_native ==> i < j
            &&& a_native && b_native && a.bit_depth == 24 && b.bit_depth == 16 ==> i < j
            &&& !a_native && a.sample_rate == b.sample_rate && a.bit_depth == 16 && b.bit_depth
                == 24 ==> i < j
            &&& forall|p: int, q: int|
                0 <= p < q < ladder().len() && a.sample_rate == #[trigger] ladder()[p]
                    && b.sample_rate == #[trigger] ladder()[q] && !a_native && !b_native ==> i < j
        }),
{
    let lt = preferred(native_rate_of(caps.native));
    let (a, b) = (list@[i], list@[j]);
    if i < j {
        assert(lt(a, b));
    } else {
        assert(lt(b, a));
    }
    assert(list@.contains(a) && list@.contains(b));
    assert(offered(caps.native, caps.ranges@, a) && offered(caps.native, caps.ranges@, b));
    assert forall|p: int, q: int|
        0 <= p < q < ladder().len() && a.sample_rate == #[trigger] ladder()[p] && b.sample_rate
            == #[trigger] ladder()[q] && native_rate_of(caps.native) != Some(a.sample_rate)
            && native_rate_of(caps.native) != Some(b.sample_rate) implies i < j by {
        assert(ladder_rank(ladder()[p]) == p + 1 && ladder_rank(ladder()[q]) == q + 1);
    }
}

/// The ranking of a format: its rate first, 0 for the native one, then the place
/// on the ladder, then 8 for all others; then its depth, 24 before 16 at the
/// native rate and 16 before 24 elsewhere; then rate and depth themselves.
pub proof fn key_ranks_rate_then_depth(
    f: SupportedPcmFormat,
    native_rate: Option<u32>,
    key: (u32, u32, u32, u16),
)
    requires
        call_ensures(sort_key, (f, native_rate), key),
    ensures
        key.2 == f.sample_rate && key.3 == f.bit_depth,
        key.0 == 0 <==> native_rate == Some(f.sample_rate),
        forall|p: int|
            0 <= p < ladder().len() && native_rate != Some(f.sample_rate) && f.sample_rate
                == #[trigger] ladder()[p] ==> key.0 == p + 1,
        native_rate != Some(f.sample_rate) && !ladder().contains(f.sample_rate) ==> key.0 == 8,
        native_rate == Some(f.sample_rate) ==> key.1 == (if f.bit_depth == 16 {
            1u32
        } else {
            0u32
        }),
        native_rate != Some(f.sample_rate) ==> key.1 == (if f.bit_depth == 16 {
            0u32
        } else {
            1u32
        }),
{
    let l = ladder();
    assert(l[0] == 48_000 && l[1] == 44_100 && l[2] == 96_000 && l[3] == 88_200 && l[4] == 192_000
        && l[5] == 176_400 && l[6] == 384_000);
    if native_rate != Some(f.sample_rate) && !l.contains(f.sample_rate) {
        assert(key.0 == ladder_rank(f.sample_rate));
    }
}

/// Whether samples are integers of 24 bits or more, or floats.
pub open spec fn is_wide(fmt: SampleFormat) -> bool {
    ||| fmt is I24 || fmt is I32 || fmt is I64
    ||| fmt is U24 || fmt is U32 || fmt is U64
    ||| fmt is F32 || fmt is F64
}

/// Integer samples of 24 bits or more and both kinds of floats carry 24 bits, and
/// nothing else does.
pub proof fn wide_samples_carry_24_bits(fmt: SampleFormat, r: bool)
    requires
        call_ensures(sample_format_supports_24bit, (fmt,), r),
    ensures
        r <==> fmt is I24 || fmt is U24 || fmt is I32 || fmt is U32 || fmt is I64 || fmt is U64
            || fmt is F32 || fmt is F64,
{
}

/// All that the host reports of a device is kept: its default configuration, and
/// each range, in order, with its channels, its rates and whether it carries 24
/// bits.
pub proof fn capabilities_keep_what_is_reported(
    default_config: Option<StreamConfig>,
    supported: Option<Vec<StreamConfigRange>>,
    caps: DeviceCapabilities,
    k: int,
)
    requires
        call_ensures(extract_capabilities, (default_config, supported), caps),
    ensures
        caps.native is Some <==> default_config is Some,
        default_config matches Some(c) ==> caps.native matches Some(n) && n.channels == c.channels
            && n.sample_rate == c.sample_rate && n.supports_24bit == is_wide(c.sample_format),
        supported is None ==> caps.ranges@.len() == 0,
        supported matches Some(configs) ==> caps.ranges@.len() == configs@.len() && (0 <= k
            < configs@.len() ==> caps.ranges@[k].channels == configs@[k].channels
            && caps.ranges@[k].min_sample_rate == configs@[k].min_sample_rate
            && caps.ranges@[k].max_sample_rate == configs@[k].max_sample_rate
            && caps.ranges@[k].supports_24bit == is_wide(configs@[k].sample_format)),
{
}

/// What is reported more of a device, a further range, only adds to its offer.
pub proof fn further_range_only_adds(
    caps: DeviceCapabilities,
    more: DeviceCapabilities,
    list: Vec<SupportedPcmFormat>,
    longer: Vec<SupportedPcmFormat>,
    f: SupportedPcmFormat,
)
    requires
        more.native == caps.native,
        caps.ranges@.is_prefix_of(more.ranges@),
        call_ensures(build_formats, (&caps,), list),
        call_ensures(build_formats, (&more,), longer),
    ensures
        list@.contains(f) ==> longer@.contains(f),
{
    assert(list@.contains(f) <==> offered(caps.native, caps.ranges@, f));
    assert(longer@.contains(f) <==> offered(more.native, more.ranges@, f));
    if list@.contains(f) && !offered_by_native(caps.native, f) {
        let i = choose|i: int|
            0 <= i < caps.ranges@.len() && offered_by_range(#[trigger] caps.ranges@[i], f);
        assert(more.ranges@.subrange(0, caps.ranges@.len() as int)[i] == more.ranges@[i]);
        assert(offered_by_range(more.ranges@[i], f));
    }
}

/// A device that reports nothing has nothing offered.
pub proof fn silent_device_has_no_offer(caps: DeviceCapabilities, list: Vec<SupportedPcmFormat>)
    requires
        call_ensures(DeviceCapabilities::default, (), caps),
        call_ensures(build_formats, (&caps,), list),
    ensures
        caps.native is None,
        caps.ranges@.len() == 0,
        list@.len() == 0,
{
    mono_device_has_no_offer(caps.native, caps.ranges@, list@);
}

} // verus!
