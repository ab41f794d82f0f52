//! The settings of the virtual display driver, and the checks on an EDID blob.

use crate::config::{entries_view, ConfigEntry, ConfigEntryView};
use crate::text::{append, copy_of, decimal, joined, push_decimal};
use vstd::prelude::*;
use vstd::string::StringSliceAdditionalSpecFns;

verus! {

#[derive(Clone, Copy, PartialEq, Eq, Structural, Debug)]
pub struct Monitors {
    pub count: u32,
}

#[derive(Debug)]
pub struct Gpu {
    pub friendlyname: Vec<u8>,
}

#[derive(Debug)]
pub struct Global {
    pub g_refresh_rate: Vec<u32>,
}

#[derive(Clone, Copy, PartialEq, Eq, Structural, Debug)]
pub struct Resolution {
    pub width: u32,
    pub height: u32,
}

#[derive(Debug)]
pub struct Resolutions {
    pub resolution: Vec<Resolution>,
}

#[derive(Debug)]
pub struct Colour {
    pub sdr10bit: bool,
    pub hdr_plus: bool,
    pub colour_format: Vec<u8>,
}

#[derive(Clone, Copy, PartialEq, Eq, Structural, Debug)]
pub struct Logging {
    pub logging: bool,
    pub debuglogging: bool,
}

#[derive(Clone, Copy, PartialEq, Eq, Structural, Debug)]
pub struct EdidConfig {
    pub custom_edid: bool,
    pub prevent_spoof: bool,
    pub edid_cea_override: bool,
}

#[derive(Debug)]
pub struct VddSettings {
    pub monitors: Monitors,
    pub gpu: Gpu,
    pub global: Global,
    pub resolutions: Resolutions,
    pub colour: Option<Colour>,
    pub logging: Option<Logging>,
    pub edid: Option<EdidConfig>,
}

pub struct ColourView {
    pub sdr10bit: bool,
    pub hdr_plus: bool,
    pub colour_format: Seq<u8>,
}

impl View for Colour {
    type V = ColourView;

    open spec fn view(&self) -> ColourView {
        ColourView {
            sdr10bit: self.sdr10bit,
            hdr_plus: self.hdr_plus,
            colour_format: self.colour_format@,
        }
    }
}

pub struct VddSettingsView {
    pub monitor_count: u32,
    pub gpu_name: Seq<u8>,
    pub refresh_rates: Seq<u32>,
    pub resolutions: Seq<Resolution>,
    pub colour: Option<ColourView>,
    pub logging: Option<Logging>,
    pub edid: Option<EdidConfig>,
}

impl View for VddSettings {
    type V = VddSettingsView;

    open spec fn view(&self) -> VddSettingsView {
        VddSettingsView {
            monitor_count: self.monitors.count,
            gpu_name: self.gpu.friendlyname@,
            refresh_rates: self.global.g_refresh_rate@,
            resolutions: self.resolutions.resolution@,
            colour: match self.colour {
                Some(colour) => Some(colour@),
                None => None,
            },
            logging: self.logging,
            edid: self.edid,
        }
    }
}

/// The settings that stand in for a settings file that does not exist.
pub open spec fn default_settings() -> VddSettingsView {
    VddSettingsView {
        monitor_count: 1,
        gpu_name: Seq::empty(),
        refresh_rates: seq![60u32, 120u32, 240u32],
        resolutions: Seq::empty(),
        colour: Some(
            ColourView { sdr10bit: false, hdr_plus: false, colour_format: "RGB".spec_bytes() },
        ),
        logging: Some(Logging { logging: false, debuglogging: false }),
        edid: Some(
            EdidConfig { custom_edid: false, prevent_spoof: false, edid_cea_override: false },
        ),
    }
}

pub fn get_default_settings() -> (settings: VddSettings)
    ensures
        settings@ == default_settings(),
{
    let mut rates: Vec<u32> = Vec::new();
    rates.push(60);
    rates.push(120);
    rates.push(240);
    let settings = VddSettings {
        monitors: Monitors { count: 1 },
        gpu: Gpu { friendlyname: Vec::new() },
        global: Global { g_refresh_rate: rates },
        resolutions: Resolutions { resolution: Vec::new() },
        colour: Some(
            Colour { sdr10bit: false, hdr_plus: false, colour_format: copy_of("RGB".as_bytes()) },
        ),
        logging: Some(Logging { logging: false, debuglogging: false }),
        edid: Some(
            EdidConfig { custom_edid: false, prevent_spoof: false, edid_cea_override: false },
        ),
    };
    assert(settings@.refresh_rates =~= seq![60u32, 120u32, 240u32]);
    assert(settings@.gpu_name =~= Seq::<u8>::empty());
    assert(settings@.resolutions =~= Seq::<Resolution>::empty());
    settings
}

/// `current` with the colour, logging and EDID sections of `incoming` in
/// place of its own, each only where `incoming` has that section.
pub open spec fn with_extra_fields(
    current: VddSettingsView,
    incoming: VddSettingsView,
) -> VddSettingsView {
    VddSettingsView {
        colour: if incoming.colour is Some {
            incoming.colour
        } else {
            current.colour
        },
        logging: if incoming.logging is Some {
            incoming.logging
        } else {
            current.logging
        },
        edid: if incoming.edid is Some {
            incoming.edid
        } else {
            current.edid
        },
        ..current
    }
}

/// Takes the colour, logging and EDID sections over from `incoming`.
pub fn merge_extra_fields(current: VddSettings, incoming: &VddSettings) -> (merged: VddSettings)
    ensures
        merged@ == with_extra_fields(current@, incoming@),
{
    let mut merged = current;
    match &incoming.colour {
        Some(colour) => {
            merged.colour = Some(
                Colour {
                    sdr10bit: colour.sdr10bit,
                    hdr_plus: colour.hdr_plus,
                    colour_format: copy_of(colour.colour_format.as_slice()),
                },
            );
        },
        None => {},
    }
    match incoming.logging {
        Some(logging) => {
            merged.logging = Some(logging);
        },
        None => {},
    }
    match incoming.edid {
        Some(edid) => {
            merged.edid = Some(edid);
        },
        None => {},
    }
    merged
}

/// A resolution as the streaming host's configuration writes it: `1920x1080`.
pub open spec fn resolution_text(resolution: Resolution) -> Seq<u8> {
    decimal(resolution.width as nat) + seq![120u8] + decimal(resolution.height as nat)
}

/// A list as the configuration writes it: the items between brackets, with commas.
pub open spec fn bracketed(items: Seq<Seq<u8>>) -> Seq<u8> {
    seq![91u8] + joined(items, 44) + seq![93u8]
}

/// The value of the `resolutions` setting: `[1920x1080,2560x1440]`.
pub open spec fn resolutions_value(resolutions: Seq<Resolution>) -> Seq<u8> {
    bracketed(resolutions.map_values(|r: Resolution| resolution_text(r)))
}

/// The value of the `fps` setting: `[60,120,240]`.
pub open spec fn refresh_rates_value(rates: Seq<u32>) -> Seq<u8> {
    bracketed(rates.map_values(|rate: u32| decimal(rate as nat)))
}

pub fn resolutions_setting(resolutions: &Vec<Resolution>) -> (value: Vec<u8>)
    ensures
        value@ == resolutions_value(resolutions@),
{
    let ghost texts = resolutions@.map_values(|r: Resolution| resolution_text(r));
    let mut value: Vec<u8> = Vec::new();
    value.push(91);
    let mut i: usize = 0;
    assert(texts.take(0) =~= Seq::<Seq<u8>>::empty());
    while i < resolutions.len()
        invariant
            i <= resolutions.len(),
            texts == resolutions@.map_values(|r: Resolution| resolution_text(r)),
            value@ == seq![91u8] + joined(texts.take(i as int), 44),
        decreases resolutions.len() - i,
    {
        let ghost before = value@;
        if i > 0 {
            value.push(44);
        }
        push_decimal(&mut value, resolutions[i].width as u64);
        value.push(120);
        push_decimal(&mut value, resolutions[i].height as u64);
        proof {
            let next = texts.take(i + 1);
            assert(next.drop_last() =~= texts.take(i as int));
            assert(next.last() == resolution_text(resolutions@[i as int]));
            assert(value@ =~= seq![91u8] + joined(next, 44));
        }
        i += 1;
    }
    assert(texts.take(resolutions@.len() as int) =~= texts);
    value.push(93);
    value
}

pub fn refresh_rates_setting(rates: &Vec<u32>) -> (value: Vec<u8>)
    ensures
        value@ == refresh_rates_value(rates@),
{
    let ghost texts = rates@.map_values(|rate: u32| decimal(rate as nat));
    let mut value: Vec<u8> = Vec::new();
    value.push(91);
    let mut i: usize = 0;
    assert(texts.take(0) =~= Seq::<Seq<u8>>::empty());
    while i < rates.len()
        invariant
            i <= rates.len(),
            texts == rates@.map_values(|rate: u32| decimal(rate as nat)),
            value@ == seq![91u8] + joined(texts.take(i as int), 44),
        decreases rates.len() - i,
    {
        if i > 0 {
            value.push(44);
        }
        push_decimal(&mut value, rates[i] as u64);
        proof {
            let next = texts.take(i + 1);
            assert(next.drop_last() =~= texts.take(i as int));
            assert(next.last() == decimal(rates@[i as int] as nat));
            assert(value@ =~= seq![91u8] + joined(next, 44));
        }
        i += 1;
    }
    assert(texts.take(rates@.len() as int) =~= texts);
    value.push(93);
    value
}

/// The settings of the host's configuration that follow from the driver's
/// settings: `resolutions`, `fps` and `adapter_name`, each only where the
/// driver's settings have something to say.
pub open spec fn host_updates(settings: VddSettingsView) -> Seq<ConfigEntryView> {
    (if settings.resolutions.len() > 0 {
        seq![
            ConfigEntryView {
                key: "resolutions".spec_bytes(),
                value: resolutions_value(settings.resolutions),
            },
        ]
    } else {
        Seq::empty()
    }) + (if settings.refresh_rates.len() > 0 {
        seq![
            ConfigEntryView {
                key: "fps".spec_bytes(),
                value: refresh_rates_value(settings.refresh_rates),
            },
        ]
    } else {
        Seq::empty()
    }) + (if settings.gpu_name.len() > 0 {
        seq![ConfigEntryView { key: "adapter_name".spec_bytes(), value: settings.gpu_name }]
    } else {
        Seq::empty()
    })
}

/// The settings of the host's configuration to overwrite when `settings` are saved.
pub fn host_config_updates(settings: &VddSettings) -> (entries: Vec<ConfigEntry>)
    ensures
        entries_view(entries@) == host_updates(settings@),
{
    let mut entries: Vec<ConfigEntry> = Vec::new();
    if settings.resolutions.resolution.len() > 0 {
        entries.push(
            ConfigEntry {
                key: copy_of("resolutions".as_bytes()),
                value: resolutions_setting(&settings.resolutions.resolution),
            },
        );
    }
    if settings.global.g_refresh_rate.len() > 0 {
        entries.push(
            ConfigEntry {
                key: copy_of("fps".as_bytes()),
                value: refresh_rates_setting(&settings.global.g_refresh_rate),
            },
        );
    }
    if settings.gpu.friendlyname.len() > 0 {
        entries.push(
            ConfigEntry {
                key: copy_of("adapter_name".as_bytes()),
                value: copy_of(settings.gpu.friendlyname.as_slice()),
            },
        );
    }
    assert(entries_view(entries@) =~= host_updates(settings@));
    entries
}

/// Why a blob is no EDID.
#[derive(Clone, Copy, PartialEq, Eq, Structural, Debug)]
pub enum EdidError {
    /// It is neither 128 nor 256 bytes long.
    InvalidSize { len: usize },
    /// It does not begin with the eight bytes of the EDID header.
    InvalidHeader,
    /// The checksum of its first block is not the byte at offset 127.
    InvalidChecksum { expected: u8, actual: u8 },
}

pub open spec fn edid_header() -> Seq<u8> {
    seq![0x00u8, 0xFFu8, 0xFFu8, 0xFFu8, 0xFFu8, 0xFFu8, 0xFFu8, 0x00u8]
}

/// The sum of the bytes of `s`.
pub open spec fn byte_sum(s: Seq<u8>) -> nat
    decreases s.len(),
{
    if s.len() == 0 {
        0
    } else {
        byte_sum(s.drop_last()) + s.last() as nat
    }
}

/// The byte that makes the first 128 bytes of an EDID sum to 0 modulo 256.
pub open spec fn edid_checksum(data: Seq<u8>) -> u8
    recommends
        data.len() >= 127,
{
    let sum = byte_sum(data.subrange(0, 127)) % 256;
    if sum != 0 {
        (256 - sum) as u8
    } else {
        0
    }
}

/// The verdict on a blob: the first of size, header and checksum that is wrong.
pub open spec fn edid_verdict(data: Seq<u8>) -> Result<(), EdidError> {
    if data.len() != 128 && data.len() != 256 {
        Err(EdidError::InvalidSize { len: data.len() as usize })
    } else if data.subrange(0, 8) != edid_header() {
        Err(EdidError::InvalidHeader)
    } else if data[127] != edid_checksum(data) {
        Err(EdidError::InvalidChecksum { expected: edid_checksum(data), actual: data[127] })
    } else {
        Ok(())
    }
}

/// Checks size, header and checksum of an EDID blob.
pub fn validate_edid(data: &[u8]) -> (verdict: Result<(), EdidError>)
    ensures
        verdict == edid_verdict(data@),
{
    if data.len() != 128 && data.len() != 256 {
        return Err(EdidError::InvalidSize { len: data.len() });
    }
    let header_ok = data[0] == 0x00 && data[1] == 0xFF && data[2] == 0xFF && data[3] == 0xFF
        && data[4] == 0xFF && data[5] == 0xFF && data[6] == 0xFF && data[7] == 0x00;
    if !header_ok {
        assert(data@.subrange(0, 8)[0] == data@[0]);
        assert(data@.subrange(0, 8)[1] == data@[1]);
        assert(data@.subrange(0, 8)[2] == data@[2]);
        assert(data@.subrange(0, 8)[3] == data@[3]);
        assert(data@.subrange(0, 8)[4] == data@[4]);
        assert(data@.subrange(0, 8)[5] == data@[5]);
        assert(data@.subrange(0, 8)[6] == data@[6]);
        assert(data@.subrange(0, 8)[7] == data@[7]);
        return Err(EdidError::InvalidHeader);
    }
    assert(data@.subrange(0, 8) =~= edid_header());
    let mut sum: u32 = 0;
    let mut i: usize = 0;
    assert(data@.subrange(0, 0) =~= Seq::<u8>::empty());
    while i < 127
        invariant
            i <= 127,
            data@.len() >= 128,
            sum == byte_sum(data@.subrange(0, i as int)),
            sum <= 255 * i,
        decreases 127 - i,
    {
        assert(data@.subrange(0, i + 1).drop_last() =~= data@.subrange(0, i as int));
        sum += data[i] as u32;
        i += 1;
    }
    sum %= 256;
    let expected: u8 = if sum != 0 {
        (256 - sum) as u8
    } else {
        0
    };
    if data[127] != expected {
        return Err(EdidError::InvalidChecksum { expected, actual: data[127] });
    }
    Ok(())
}

/// A digit of a number written in upper-case hexadecimal.
pub open spec fn hex_upper(nibble: nat) -> u8 {
    if nibble < 10 {
        (48 + nibble) as u8
    } else {
        (55 + nibble) as u8
    }
}

/// A byte written as `0x` and two upper-case hexadecimal digits.
pub open spec fn hex_byte(b: u8) -> Seq<u8> {
    seq![48u8, 120u8, hex_upper(b as nat / 16), hex_upper(b as nat % 16)]
}

/// The words in which an error is reported.
pub open spec fn edid_error_words(error: EdidError) -> Seq<u8> {
    match error {
        EdidError::InvalidSize { len } => "EDID 文件大小无效: ".spec_bytes() + decimal(len as nat)
            + " 字节（必须是 128 或 256 字节）".spec_bytes(),
        EdidError::InvalidHeader => "EDID 头部格式无效".spec_bytes(),
        EdidError::InvalidChecksum { expected, actual } => "EDID checksum 无效: 期望 ".spec_bytes()
            + hex_byte(expected) + "，实际 ".spec_bytes() + hex_byte(actual),
    }
}

fn push_hex_byte(out: &mut Vec<u8>, b: u8)
    ensures
        final(out)@ == old(out)@ + hex_byte(b),
{
    let high: u8 = b / 16;
    let low: u8 = b % 16;
    out.push(48);
    out.push(120);
    out.push(if high < 10 { 48 + high } else { 55 + high });
    out.push(if low < 10 { 48 + low } else { 55 + low });
    assert(out@ =~= old(out)@ + hex_byte(b));
}

impl EdidError {
    /// The words in which the error is reported.
    pub fn message(&self) -> (words: Vec<u8>)
        ensures
            words@ == edid_error_words(*self),
    {
        match self {
            EdidError::InvalidSize { len } => {
                let mut words = copy_of("EDID 文件大小无效: ".as_bytes());
                push_decimal(&mut words, *len as u64);
                append(&mut words, " 字节（必须是 128 或 256 字节）".as_bytes());
                words
            },
            EdidError::InvalidHeader => copy_of("EDID 头部格式无效".as_bytes()),
            EdidError::InvalidChecksum { expected, actual } => {
                let mut words = copy_of("EDID checksum 无效: 期望 ".as_bytes());
                push_hex_byte(&mut words, *expected);
                append(&mut words, "，实际 ".as_bytes());
                push_hex_byte(&mut words, *actual);
                words
            },
        }
    }
}

} // verus!
