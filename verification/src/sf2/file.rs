//! What a file holds: its presets and instruments, zone by zone, and where its samples lie.

use super::frame::{is_well_framed, well_framed};
use super::sample::{
    extra_fits, frames_of, read_frames, Sf2Frames, Sf2ParseError, Sf2SampleHeader,
};
use ::soundfont::raw::{Generator, GeneratorAmount, Modulator, ModulatorSource};
use ::soundfont::Zone;
use vstd::prelude::*;

verus! {

/// The amount of a generator.
#[derive(Debug, Clone, Copy, PartialEq, Eq, Structural)]
pub enum RawAmount {
    Number(i16),
    /// The index of an instrument or of a sample.
    Index(u16),
    /// The lowest and the highest value.
    Range(u8, u8),
}

/// A generator: the number of what it sets, and the amount.
#[derive(Debug, Clone, Copy, PartialEq, Eq, Structural)]
pub struct RawGenerator {
    pub code: u16,
    pub amount: RawAmount,
}

/// What drives a modulator. Its curve is the one of the last four that holds; none holds
/// where the number in the file stands for no curve.
#[derive(Debug, Clone, Copy, PartialEq, Eq, Structural)]
pub struct RawSource {
    /// The number of a MIDI controller or of a general one.
    pub index: u8,
    pub midi: bool,
    /// The output falls while the input rises.
    pub negative: bool,
    /// The output goes from -1 to 1, else from 0 to 1.
    pub bipolar: bool,
    pub linear: bool,
    pub concave: bool,
    pub convex: bool,
    pub switch: bool,
}

/// A modulator.
#[derive(Debug, Clone, Copy, PartialEq, Eq, Structural)]
pub struct RawModulator {
    pub source: RawSource,
    /// The number of the generator that it acts on.
    pub destination: u16,
    pub amount: i16,
    /// What drives the amount.
    pub amount_source: RawSource,
    /// 0 where the product of all is taken as it is, 1 where it loses its sign.
    pub transform: u8,
}

/// A zone of a preset or of an instrument.
#[verifier::ext_equal]
#[derive(Debug)]
pub struct RawZone<G = Vec<RawGenerator>, M = Vec<RawModulator>> {
    pub generators: G,
    pub modulators: M,
}

/// The model of a zone.
pub type RawZoneModel = RawZone<Seq<RawGenerator>, Seq<RawModulator>>;

/// A preset.
#[verifier::ext_equal]
#[derive(Debug)]
pub struct RawPreset<Z = Vec<RawZone>> {
    pub bank: u16,
    pub preset: u16,
    pub zones: Z,
}

/// The model of a preset.
pub type RawPresetModel = RawPreset<Seq<RawZoneModel>>;

/// An instrument.
#[verifier::ext_equal]
#[derive(Debug)]
pub struct RawInstrument<Z = Vec<RawZone>> {
    pub zones: Z,
}

/// The model of an instrument.
pub type RawInstrumentModel = RawInstrument<Seq<RawZoneModel>>;

/// Where the bytes of a chunk lie in the file.
#[derive(Debug, Clone, Copy, PartialEq, Eq, Structural)]
pub struct RawChunk {
    pub offset: u64,
    pub len: u32,
}

/// What a file holds.
#[verifier::ext_equal]
#[derive(Debug)]
pub struct RawFile<P = Vec<RawPreset>, I = Vec<RawInstrument>, S = Vec<Sf2SampleHeader>> {
    pub presets: P,
    pub instruments: I,
    pub sample_headers: S,
    /// The high bytes of the frames.
    pub smpl: Option<RawChunk>,
    /// The low bytes of the frames.
    pub sm24: Option<RawChunk>,
}

/// The model of a file.
pub type RawFileModel = RawFile<Seq<RawPresetModel>, Seq<RawInstrumentModel>, Seq<Sf2SampleHeader>>;

impl DeepView for RawGenerator {
    type V = RawGenerator;

    open spec fn deep_view(&self) -> RawGenerator {
        *self
    }
}

impl DeepView for RawModulator {
    type V = RawModulator;

    open spec fn deep_view(&self) -> RawModulator {
        *self
    }
}

impl DeepView for Sf2SampleHeader {
    type V = Sf2SampleHeader;

    open spec fn deep_view(&self) -> Sf2SampleHeader {
        *self
    }
}

impl DeepView for RawZone {
    type V = RawZoneModel;

    open spec fn deep_view(&self) -> RawZoneModel {
        RawZone { generators: self.generators@, modulators: self.modulators@ }
    }
}

impl DeepView for RawPreset {
    type V = RawPresetModel;

    open spec fn deep_view(&self) -> RawPresetModel {
        RawPreset { bank: self.bank, preset: self.preset, zones: self.zones.deep_view() }
    }
}

impl DeepView for RawInstrument {
    type V = RawInstrumentModel;

    open spec fn deep_view(&self) -> RawInstrumentModel {
        RawInstrument { zones: self.zones.deep_view() }
    }
}

impl DeepView for RawFile {
    type V = RawFileModel;

    open spec fn deep_view(&self) -> RawFileModel {
        RawFile {
            presets: self.presets.deep_view(),
            instruments: self.instruments.deep_view(),
            sample_headers: self.sample_headers@,
            smpl: self.smpl,
            sm24: self.sm24,
        }
    }
}

/// A file as the crate `soundfont` has read it.
#[verifier::external_type_specification]
#[verifier::external_body]
pub struct ExSoundFont2(::soundfont::SoundFont2);

/// What the presets, instruments, sample headers and sample chunks of a value of
/// `soundfont::SoundFont2` are.
pub uninterp spec fn contents(file: ::soundfont::SoundFont2) -> RawFileModel;

/// What `soundfont::SoundFont2::load` reads from the bytes of a file, if it reads anything.
pub uninterp spec fn parsed_file(bytes: Seq<u8>) -> Option<RawFileModel>;

/// Reads a file by `soundfont::SoundFont2::load`. What comes back depends on the bytes
/// alone. The function panics where a chunk has the wrong tag and where the index of a bag
/// leads past the last one; such files are left out. Nothing is said of the message that
/// comes with a failure.
#[verifier::external_body]
fn load(bytes: &[u8]) -> (r: Result<::soundfont::SoundFont2, String>)
    requires
        well_framed(bytes@),
    ensures
        r is Ok <==> parsed_file(bytes@) is Some,
        r matches Ok(file) ==> Some(contents(file)) == parsed_file(bytes@),
{
    match ::soundfont::SoundFont2::load(&mut std::io::Cursor::new(bytes)) {
        Ok(file) => Ok(file),
        Err(e) => Err(format!("{e:#?}")),
    }
}

/// The generators of each zone.
pub open spec fn zone_generators(zones: Seq<RawZoneModel>) -> Seq<Seq<RawGenerator>> {
    zones.map_values(|z: RawZoneModel| z.generators)
}

/// The modulators of each zone.
pub open spec fn zone_modulators(zones: Seq<RawZoneModel>) -> Seq<Seq<RawModulator>> {
    zones.map_values(|z: RawZoneModel| z.modulators)
}

/// The presets of a value of `soundfont::SoundFont2` in their order: their banks and numbers,
/// and the generators of their zones. A generator has the number of its type and its amount
/// as it is.
#[verifier::external_body]
fn presets_of(file: &::soundfont::SoundFont2) -> (r: Vec<RawPreset<Vec<Vec<RawGenerator>>>>)
    ensures
        r.len() == contents(*file).presets.len(),
        forall|i: int|
            0 <= i < r.len() ==> (#[trigger] r@[i]).bank == contents(*file).presets[i].bank
                && r@[i].preset == contents(*file).presets[i].preset && r@[i].zones.deep_view()
                == zone_generators(contents(*file).presets[i].zones),
{
    let generator = |g: &Generator| RawGenerator {
        code: g.ty.as_raw(),
        amount: match g.amount {
            GeneratorAmount::I16(v) => RawAmount::Number(v),
            GeneratorAmount::U16(v) => RawAmount::Index(v),
            GeneratorAmount::Range(v) => RawAmount::Range(v.low, v.high),
        },
    };
    let zone = |z: &Zone| z.gen_list.iter().map(generator).collect();
    file.presets.iter().map(
        |p| RawPreset { bank: p.header.bank, preset: p.header.preset, zones: p.zones.iter().map(zone).collect() },
    ).collect()
}

/// The instruments of a value of `soundfont::SoundFont2` in their order: the generators of
/// their zones, as in presets.
#[verifier::external_body]
fn instruments_of(file: &::soundfont::SoundFont2) -> (r: Vec<Vec<Vec<RawGenerator>>>)
    ensures
        r.len() == contents(*file).instruments.len(),
        forall|i: int|
            0 <= i < r.len() ==> (#[trigger] r@[i]).deep_view() == zone_generators(
                contents(*file).instruments[i].zones,
            ),
{
    let generator = |g: &Generator| RawGenerator {
        code: g.ty.as_raw(),
        amount: match g.amount {
            GeneratorAmount::I16(v) => RawAmount::Number(v),
            GeneratorAmount::U16(v) => RawAmount::Index(v),
            GeneratorAmount::Range(v) => RawAmount::Range(v.low, v.high),
        },
    };
    let zone = |z: &Zone| z.gen_list.iter().map(generator).collect();
    file.instruments.iter().map(|i| i.zones.iter().map(zone).collect()).collect()
}

/// The modulators of the zones of the presets of a value of `soundfont::SoundFont2`, field by
/// field and in their order. What a modulator acts on is the number of that generator, and
/// the transforms are numbered as they are declared: linear, then absolute.
#[verifier::external_body]
fn preset_modulators_of(file: &::soundfont::SoundFont2) -> (r: Vec<Vec<Vec<RawModulator>>>)
    ensures
        r.len() == contents(*file).presets.len(),
        forall|i: int|
            0 <= i < r.len() ==> (#[trigger] r@[i]).deep_view() == zone_modulators(
                contents(*file).presets[i].zones,
            ),
{
    let source = |s: &ModulatorSource| RawSource {
        index: s.index, midi: s.is_cc(), negative: s.is_negative(), bipolar: s.is_bipolar(),
        linear: s.is_linear(), concave: s.is_concave(), convex: s.is_convex(), switch: s.is_switch(),
    };
    let modulator = |m: &Modulator| RawModulator {
        source: source(&m.src),
        destination: m.dest as u16,
        amount: m.amount,
        amount_source: source(&m.amt_src),
        transform: m.transform as u8,
    };
    let zone = |z: &Zone| z.mod_list.iter().map(modulator).collect();
    file.presets.iter().map(|p| p.zones.iter().map(zone).collect()).collect()
}

/// The modulators of the zones of the instruments of a value of `soundfont::SoundFont2`, as
/// in presets.
#[verifier::external_body]
fn instrument_modulators_of(file: &::soundfont::SoundFont2) -> (r: Vec<Vec<Vec<RawModulator>>>)
    ensures
        r.len() == contents(*file).instruments.len(),
        forall|i: int|
            0 <= i < r.len() ==> (#[trigger] r@[i]).deep_view() == zone_modulators(
                contents(*file).instruments[i].zones,
            ),
{
    let source = |s: &ModulatorSource| RawSource {
        index: s.index, midi: s.is_cc(), negative: s.is_negative(), bipolar: s.is_bipolar(),
        linear: s.is_linear(), concave: s.is_concave(), convex: s.is_convex(), switch: s.is_switch(),
    };
    let modulator = |m: &Modulator| RawModulator {
        source: source(&m.src),
        destination: m.dest as u16,
        amount: m.amount,
        amount_source: source(&m.amt_src),
        transform: m.transform as u8,
    };
    let zone = |z: &Zone| z.mod_list.iter().map(modulator).collect();
    file.instruments.iter().map(|i| i.zones.iter().map(zone).collect()).collect()
}

/// The sample headers of a value of `soundfont::SoundFont2`, field by field and in their
/// order, with the number that stands for the sample type.
#[verifier::external_body]
fn sample_headers_of(file: &::soundfont::SoundFont2) -> (r: Vec<Sf2SampleHeader>)
    ensures
        r@ == contents(*file).sample_headers,
{
    file.sample_headers.iter().map(|h| Sf2SampleHeader {
        start: h.start,
        end: h.end,
        loop_start: h.loop_start,
        loop_end: h.loop_end,
        sample_rate: h.sample_rate,
        origpitch: h.origpitch,
        pitchadj: h.pitchadj,
        sample_link: h.sample_link,
        sample_type: h.sample_type as u16,
    }).collect()
}

/// The sample chunks of a value of `soundfont::SoundFont2`: `smpl` and `sm24`.
#[verifier::external_body]
fn sample_chunks_of(file: &::soundfont::SoundFont2) -> (r: (Option<RawChunk>, Option<RawChunk>))
    ensures
        r.0 == contents(*file).smpl,
        r.1 == contents(*file).sm24,
{
    let data = &file.sample_data;
    (
        data.smpl.map(|c| RawChunk { offset: c.offset, len: c.len }),
        data.sm24.map(|c| RawChunk { offset: c.offset, len: c.len }),
    )
}

/// Zones that have the same generators and the same modulators are the same.
proof fn zones_are_their_parts(a: Seq<RawZoneModel>, b: Seq<RawZoneModel>)
    requires
        zone_generators(a) == zone_generators(b),
        zone_modulators(a) == zone_modulators(b),
    ensures
        a == b,
{
    assert(a.len() == zone_generators(b).len());
    assert forall|i: int| 0 <= i < a.len() implies (#[trigger] a[i]) == b[i] by {
        assert(zone_generators(a)[i] == zone_generators(b)[i]);
        assert(zone_modulators(a)[i] == zone_modulators(b)[i]);
    }
    assert(a =~= b);
}

fn join_zones(generators: Vec<Vec<RawGenerator>>, modulators: Vec<Vec<RawModulator>>) -> (r: Vec<
    RawZone,
>)
    requires
        generators.len() == modulators.len(),
    ensures
        zone_generators(r.deep_view()) == generators.deep_view(),
        zone_modulators(r.deep_view()) == modulators.deep_view(),
{
    let mut left = generators;
    let mut right = modulators;
    let mut out: Vec<RawZone> = Vec::new();
    let mut i: usize = 0;
    while i < left.len()
        invariant
            i == out.len(),
            i <= left.len(),
            left.len() == generators.len(),
            right.len() == modulators.len(),
            left.len() == right.len(),
            forall|j: int| i <= j < left.len() ==> (#[trigger] left@[j]) == generators@[j],
            forall|j: int| i <= j < left.len() ==> (#[trigger] right@[j]) == modulators@[j],
            forall|j: int|
                0 <= j < i ==> (#[trigger] out@[j]).generators == generators@[j]
                    && out@[j].modulators == modulators@[j],
        decreases left.len() - i,
    {
        let mut g: Vec<RawGenerator> = Vec::new();
        let mut m: Vec<RawModulator> = Vec::new();
        std::mem::swap(&mut g, &mut left[i]);
        std::mem::swap(&mut m, &mut right[i]);
        out.push(RawZone { generators: g, modulators: m });
        i = i + 1;
    }
    assert forall|j: int| 0 <= j < out.len() implies (#[trigger] generators@[j]).deep_view()
        =~= out@[j].generators@ && (#[trigger] modulators@[j]).deep_view()
        =~= out@[j].modulators@ by {
        assert(out@[j].generators == generators@[j]);
    }
    assert(zone_generators(out.deep_view()) =~= generators.deep_view());
    assert(zone_modulators(out.deep_view()) =~= modulators.deep_view());
    out
}

fn read_presets(file: &::soundfont::SoundFont2) -> (r: Vec<RawPreset>)
    ensures
        r.deep_view() == contents(*file).presets,
{
    let ghost all = contents(*file).presets;
    let mut presets = presets_of(file);
    let mut modulators = preset_modulators_of(file);
    let ghost bare = presets@;
    let ghost lists = modulators@;
    let mut out: Vec<RawPreset> = Vec::new();
    let mut i: usize = 0;
    while i < presets.len()
        invariant
            i == out.len(),
            i <= presets.len(),
            presets.len() == all.len(),
            modulators.len() == all.len(),
            bare.len() == all.len(),
            lists.len() == all.len(),
            forall|j: int| i <= j < all.len() ==> (#[trigger] presets@[j]) == bare[j],
            forall|j: int| i <= j < all.len() ==> (#[trigger] modulators@[j]) == lists[j],
            forall|j: int|
                0 <= j < all.len() ==> (#[trigger] bare[j]).bank == all[j].bank && bare[j].preset
                    == all[j].preset && bare[j].zones.deep_view() == zone_generators(all[j].zones),
            forall|j: int|
                0 <= j < all.len() ==> (#[trigger] lists[j]).deep_view() == zone_modulators(
                    all[j].zones,
                ),
            out.deep_view() == all.take(i as int),
        decreases presets.len() - i,
    {
        let mut zones: Vec<Vec<RawGenerator>> = Vec::new();
        let mut list: Vec<Vec<RawModulator>> = Vec::new();
        let bank = presets[i].bank;
        let preset = presets[i].preset;
        std::mem::swap(&mut zones, &mut presets[i].zones);
        std::mem::swap(&mut list, &mut modulators[i]);
        let ghost zone = all[i as int].zones;
        assert(zones == bare[i as int].zones);
        assert(zones.deep_view().len() == zone.len());
        assert(list.deep_view().len() == zone.len());
        let joined = join_zones(zones, list);
        proof {
            zones_are_their_parts(joined.deep_view(), zone);
        }
        let ghost before = out.deep_view();
        out.push(RawPreset { bank, preset, zones: joined });
        i = i + 1;
        assert(out.deep_view() =~= before.push(all[i - 1]));
        assert(out.deep_view() =~= all.take(i as int));
    }
    assert(all.take(i as int) =~= all);
    out
}

fn read_instruments(file: &::soundfont::SoundFont2) -> (r: Vec<RawInstrument>)
    ensures
        r.deep_view() == contents(*file).instruments,
{
    let ghost all = contents(*file).instruments;
    let mut instruments = instruments_of(file);
    let mut modulators = instrument_modulators_of(file);
    let ghost bare = instruments@;
    let ghost lists = modulators@;
    let mut out: Vec<RawInstrument> = Vec::new();
    let mut i: usize = 0;
    while i < instruments.len()
        invariant
            i == out.len(),
            i <= instruments.len(),
            instruments.len() == all.len(),
            modulators.len() == all.len(),
            bare.len() == all.len(),
            lists.len() == all.len(),
            forall|j: int| i <= j < all.len() ==> (#[trigger] instruments@[j]) == bare[j],
            forall|j: int| i <= j < all.len() ==> (#[trigger] modulators@[j]) == lists[j],
            forall|j: int|
                0 <= j < all.len() ==> (#[trigger] bare[j]).deep_view() == zone_generators(
                    all[j].zones,
                ),
            forall|j: int|
                0 <= j < all.len() ==> (#[trigger] lists[j]).deep_view() == zone_modulators(
                    all[j].zones,
                ),
            out.deep_view() == all.take(i as int),
        decreases instruments.len() - i,
    {
        let mut zones: Vec<Vec<RawGenerator>> = Vec::new();
        let mut list: Vec<Vec<RawModulator>> = Vec::new();
        std::mem::swap(&mut zones, &mut instruments[i]);
        std::mem::swap(&mut list, &mut modulators[i]);
        let ghost zone = all[i as int].zones;
        assert(zones.deep_view().len() == zone.len());
        assert(list.deep_view().len() == zone.len());
        let joined = join_zones(zones, list);
        proof {
            zones_are_their_parts(joined.deep_view(), zone);
        }
        let ghost before = out.deep_view();
        out.push(RawInstrument { zones: joined });
        i = i + 1;
        assert(out.deep_view() =~= before.push(all[i - 1]));
        assert(out.deep_view() =~= all.take(i as int));
    }
    assert(all.take(i as int) =~= all);
    out
}

fn parse_file(bytes: &[u8]) -> (r: Result<RawFile, String>)
    requires
        well_framed(bytes@),
    ensures
        r is Ok <==> parsed_file(bytes@) is Some,
        r matches Ok(file) ==> Some(file.deep_view()) == parsed_file(bytes@),
{
    match load(bytes) {
        Ok(file) => {
            let (smpl, sm24) = sample_chunks_of(&file);
            Ok(
                RawFile {
                    presets: read_presets(&file),
                    instruments: read_instruments(&file),
                    sample_headers: sample_headers_of(&file),
                    smpl,
                    sm24,
                },
            )
        },
        Err(message) => Err(message),
    }
}

/// By what presets are sorted: their bank, whose upper half comes first, then their number.
pub open spec fn preset_key<Z>(p: RawPreset<Z>) -> int {
    let bank = if p.bank >= 0x8000 {
        p.bank - 0x1_0000
    } else {
        p.bank as int
    };
    bank * 65536 + p.preset
}

fn key_of(p: &RawPreset) -> (r: i32)
    ensures
        r == preset_key(*p),
{
    let bank: i32 = if p.bank >= 0x8000 {
        p.bank as i32 - 0x1_0000
    } else {
        p.bank as i32
    };
    bank * 65536 + p.preset as i32
}

/// A preset put before the first one that does not come before it.
pub open spec fn put_in(p: RawPresetModel, rest: Seq<RawPresetModel>) -> Seq<RawPresetModel>
    decreases rest.len(),
{
    if rest.len() > 0 && preset_key(rest[0]) < preset_key(p) {
        seq![rest[0]] + put_in(p, rest.skip(1))
    } else {
        seq![p] + rest
    }
}

/// The presets in order. Those of the same bank and number stay as they are.
pub open spec fn in_order(presets: Seq<RawPresetModel>) -> Seq<RawPresetModel>
    decreases presets.len(),
{
    if presets.len() == 0 {
        presets
    } else {
        put_in(presets[0], in_order(presets.skip(1)))
    }
}

proof fn put_at(p: RawPresetModel, rest: Seq<RawPresetModel>, at: int)
    requires
        0 <= at <= rest.len(),
        forall|j: int| 0 <= j < at ==> preset_key(#[trigger] rest[j]) < preset_key(p),
        at < rest.len() ==> preset_key(rest[at]) >= preset_key(p),
    ensures
        put_in(p, rest) == rest.insert(at, p),
    decreases at,
{
    if at == 0 {
        assert(rest.insert(0, p) =~= seq![p] + rest);
    } else {
        assert(preset_key(rest[0]) < preset_key(p));
        let less = rest.skip(1);
        assert forall|j: int| 0 <= j < at - 1 implies preset_key(#[trigger] less[j]) < preset_key(
            p,
        ) by {
            assert(less[j] == rest[j + 1]);
        }
        put_at(p, less, at - 1);
        assert(rest.insert(at, p) =~= seq![rest[0]] + less.insert(at - 1, p));
    }
}

fn sort_presets(presets: Vec<RawPreset>) -> (r: Vec<RawPreset>)
    ensures
        r.deep_view() == in_order(presets.deep_view()),
{
    let ghost all = presets.deep_view();
    let mut left = presets;
    let mut out: Vec<RawPreset> = Vec::new();
    assert(left.deep_view() =~= all.take(left.len() as int));
    assert(all.skip(left.len() as int) =~= out.deep_view());
    while left.len() > 0
        invariant
            left.len() <= all.len(),
            left.deep_view() == all.take(left.len() as int),
            out.deep_view() == in_order(all.skip(left.len() as int)),
        decreases left.len(),
    {
        let ghost n = left.len() as int;
        let ghost before = left.deep_view();
        if let Some(p) = left.pop() {
            assert(before[n - 1] == p.deep_view());
            assert(all[n - 1] == p.deep_view());
            assert(left.deep_view() =~= all.take(n - 1));
            let key: i32 = key_of(&p);
            let mut at: usize = 0;
            while at < out.len() && key_of(&out[at]) < key
                invariant
                    at <= out.len(),
                    key == preset_key(p),
                    forall|j: int| 0 <= j < at ==> preset_key(#[trigger] out@[j]) < key,
                decreases out.len() - at,
            {
                at = at + 1;
            }
            let ghost model = p.deep_view();
            let ghost rest = out.deep_view();
            proof {
                assert forall|j: int| 0 <= j < at implies preset_key(#[trigger] rest[j])
                    < preset_key(model) by {
                    assert(rest[j] == out@[j].deep_view());
                }
                if at < out.len() {
                    assert(rest[at as int] == out@[at as int].deep_view());
                }
                put_at(model, rest, at as int);
                assert(all.skip(n - 1).skip(1) =~= all.skip(n));
            }
            out.insert(at, p);
            assert(out.deep_view() =~= rest.insert(at as int, model));
        }
    }
    assert(all.skip(0) =~= all);
    out
}

/// Reads what a file holds. Its presets come in the order of their banks and numbers.
pub fn load_soundfont(bytes: &Vec<u8>) -> (r: Result<RawFile, Sf2ParseError>)
    ensures
        r is Ok <==> well_framed(bytes@) && parsed_file(bytes@) is Some,
        r matches Ok(file) ==> file.deep_view() == (RawFile {
            presets: in_order(parsed_file(bytes@)->0.presets),
            ..parsed_file(bytes@)->0
        }),
        r matches Err(e) ==> e is FailedToParseFile,
{
    if !is_well_framed(bytes.as_slice()) {
        return Err(
            Sf2ParseError::FailedToParseFile("The chunks of the file are out of place".to_string()),
        );
    }
    match parse_file(bytes.as_slice()) {
        Ok(file) => Ok(RawFile { presets: sort_presets(file.presets), ..file }),
        Err(message) => Err(Sf2ParseError::FailedToParseFile(message)),
    }
}

/// The bytes of a chunk lie in the file.
pub open spec fn chunk_lies_in(bytes: Seq<u8>, chunk: RawChunk) -> bool {
    chunk.offset + chunk.len <= bytes.len()
}

/// The bytes of a chunk.
pub open spec fn chunk_bytes(bytes: Seq<u8>, chunk: RawChunk) -> Seq<u8> {
    bytes.subrange(chunk.offset as int, chunk.offset + chunk.len)
}

fn read_chunk(bytes: &Vec<u8>, chunk: RawChunk) -> (r: Option<Vec<u8>>)
    ensures
        r is Some <==> chunk_lies_in(bytes@, chunk),
        r matches Some(part) ==> part@ == chunk_bytes(bytes@, chunk),
{
    if chunk.offset as u128 + chunk.len as u128 > bytes.len() as u128 {
        return None;
    }
    let from: usize = chunk.offset as usize;
    let to: usize = from + chunk.len as usize;
    let mut out: Vec<u8> = Vec::new();
    let mut i: usize = from;
    while i < to
        invariant
            from <= i <= to <= bytes.len(),
            out@ == bytes@.subrange(from as int, i as int),
        decreases to - i,
    {
        out.push(bytes[i]);
        i = i + 1;
        assert(out@ =~= bytes@.subrange(from as int, i as int));
    }
    Some(out)
}

/// Why the frames of a file cannot be read.
pub open spec fn sample_fault(bytes: Seq<u8>, file: RawFileModel) -> Option<Seq<char>> {
    match (file.smpl, file.sm24) {
        (None, _) => Some("Soundfont does not contain samples"@),
        (Some(smpl), sm24) => if !chunk_lies_in(bytes, smpl) {
            Some("Error reading sample contents"@)
        } else if sm24 is Some && !chunk_lies_in(bytes, sm24->0) {
            Some("Error reading extra sample contents"@)
        } else if sm24 is Some && !extra_fits(
            chunk_bytes(bytes, smpl),
            chunk_bytes(bytes, sm24->0),
        ) {
            Some("Invalid sample length"@)
        } else {
            None
        },
    }
}

/// Reads the frames of a file.
pub fn read_samples(bytes: &Vec<u8>, file: &RawFile) -> (r: Result<Sf2Frames, Sf2ParseError>)
    requires
        file.smpl is Some && file.sm24 is None ==> file.smpl->0.len % 2 == 0,
    ensures
        r is Ok <==> sample_fault(bytes@, file.deep_view()) is None,
        r matches Ok(frames) ==> frames@ == frames_of(
            chunk_bytes(bytes@, file.smpl->0),
            match file.sm24 {
                Some(chunk) => Some(chunk_bytes(bytes@, chunk)),
                None => None,
            },
        ),
        r matches Err(e) ==> (e matches Sf2ParseError::FailedToParseFile(m) && Some(m@)
            == sample_fault(bytes@, file.deep_view())),
{
    let smpl = match file.smpl {
        None => {
            return read_frames(None, None);
        },
        Some(chunk) => match read_chunk(bytes, chunk) {
            Some(part) => part,
            None => {
                return Err(
                    Sf2ParseError::FailedToParseFile("Error reading sample contents".to_string()),
                );
            },
        },
    };
    let sm24 = match file.sm24 {
        None => None,
        Some(chunk) => match read_chunk(bytes, chunk) {
            Some(part) => Some(part),
            None => {
                return Err(
                    Sf2ParseError::FailedToParseFile(
                        "Error reading extra sample contents".to_string(),
                    ),
                );
            },
        },
    };
    read_frames(Some(smpl), sm24)
}

/// Presets come in the order of their banks and numbers, and none is lost or added.
pub proof fn presets_come_in_order(presets: Seq<RawPresetModel>)
    ensures
        forall|i: int, j: int|
            0 <= i <= j < in_order(presets).len() ==> preset_key(#[trigger] in_order(presets)[i])
                <= preset_key(#[trigger] in_order(presets)[j]),
        in_order(presets).to_multiset() == presets.to_multiset(),
    decreases presets.len(),
{
    if presets.len() > 0 {
        let rest = in_order(presets.skip(1));
        presets_come_in_order(presets.skip(1));
        put_in_keeps_order(presets[0], rest);
        assert(presets =~= seq![presets[0]] + presets.skip(1));
        vstd::seq_lib::lemma_multiset_commutative(seq![presets[0]], presets.skip(1));
        vstd::seq_lib::lemma_multiset_commutative(seq![presets[0]], rest);
    }
}

proof fn put_in_keeps_order(p: RawPresetModel, rest: Seq<RawPresetModel>)
    requires
        forall|i: int, j: int|
            0 <= i <= j < rest.len() ==> preset_key(#[trigger] rest[i]) <= preset_key(
                #[trigger] rest[j],
            ),
    ensures
        forall|i: int, j: int|
            0 <= i <= j < put_in(p, rest).len() ==> preset_key(#[trigger] put_in(p, rest)[i])
                <= preset_key(#[trigger] put_in(p, rest)[j]),
        put_in(p, rest).to_multiset() == (seq![p] + rest).to_multiset(),
        put_in(p, rest).len() == rest.len() + 1,
        forall|k: int|
            0 <= k < put_in(p, rest).len() ==> (#[trigger] put_in(p, rest)[k]) == p
                || rest.contains(put_in(p, rest)[k]),
    decreases rest.len(),
{
    if rest.len() > 0 && preset_key(rest[0]) < preset_key(p) {
        let less = rest.skip(1);
        let now = put_in(p, less);
        put_in_keeps_order(p, less);
        assert forall|k: int| 0 <= k < put_in(p, rest).len() implies (#[trigger] put_in(p, rest)[k])
            == p || rest.contains(put_in(p, rest)[k]) by {
            if k > 0 && now[k - 1] != p {
                let m = choose|m: int| 0 <= m < less.len() && less[m] == now[k - 1];
                assert(rest[m + 1] == now[k - 1]);
            } else if k == 0 {
                assert(rest[0] == put_in(p, rest)[0]);
            }
        }
        assert forall|i: int, j: int| 0 <= i <= j < put_in(p, rest).len() implies preset_key(
            #[trigger] put_in(p, rest)[i],
        ) <= preset_key(#[trigger] put_in(p, rest)[j]) by {
            if i > 0 {
                assert(preset_key(now[i - 1]) <= preset_key(now[j - 1]));
            } else if j > 0 && now[j - 1] != p {
                let m = choose|m: int| 0 <= m < less.len() && less[m] == now[j - 1];
                assert(rest[m + 1] == now[j - 1]);
                assert(preset_key(rest[0]) <= preset_key(rest[m + 1]));
            }
        }
        vstd::seq_lib::lemma_multiset_commutative(seq![rest[0]], now);
        vstd::seq_lib::lemma_multiset_commutative(seq![p], less);
        vstd::seq_lib::lemma_multiset_commutative(seq![rest[0]], less);
        vstd::seq_lib::lemma_multiset_commutative(seq![p], rest);
        assert(rest =~= seq![rest[0]] + less);
        assert(put_in(p, rest).to_multiset() =~= (seq![p] + rest).to_multiset());
    } else {
        let now = seq![p] + rest;
        assert forall|k: int| 0 <= k < now.len() implies (#[trigger] now[k]) == p || rest.contains(
            now[k],
        ) by {
            if k > 0 {
                assert(rest[k - 1] == now[k]);
            }
        }
        assert forall|i: int, j: int| 0 <= i <= j < now.len() implies preset_key(#[trigger] now[i])
            <= preset_key(#[trigger] now[j]) by {
            if i > 0 {
                assert(preset_key(rest[i - 1]) <= preset_key(rest[j - 1]));
            } else if j > 0 {
                assert(preset_key(rest[0]) <= preset_key(rest[j - 1]));
            }
        }
    }
}

/// Presets are sorted by bank, of which the upper half counts as negative, and within a bank by
/// number.
pub proof fn banks_go_before_numbers(p: RawPresetModel, q: RawPresetModel)
    requires
        p.bank < 0x8000,
        q.bank < 0x8000,
    ensures
        p.bank < q.bank ==> preset_key(p) < preset_key(q),
        p.bank == q.bank && p.preset < q.preset ==> preset_key(p) < preset_key(q),
        p.bank == q.bank && p.preset == q.preset ==> preset_key(p) == preset_key(q),
        preset_key(RawPreset { bank: (p.bank + 0x8000) as u16, ..p }) < preset_key(q),
{
}

/// Presets of the same bank and number stay in the order of the file.
pub proof fn equal_presets_stay_in_order(presets: Seq<RawPresetModel>, key: int)
    ensures
        in_order(presets).filter(|p: RawPresetModel| preset_key(p) == key) == presets.filter(
            |p: RawPresetModel| preset_key(p) == key,
        ),
    decreases presets.len(),
{
    let same = |p: RawPresetModel| preset_key(p) == key;
    if presets.len() > 0 {
        let rest = in_order(presets.skip(1));
        presets_come_in_order(presets.skip(1));
        equal_presets_stay_in_order(presets.skip(1), key);
        put_in_keeps_equals(presets[0], rest, key);
        assert(presets =~= seq![presets[0]] + presets.skip(1));
        Seq::filter_distributes_over_add(seq![presets[0]], presets.skip(1), same);
        Seq::filter_distributes_over_add(seq![presets[0]], rest, same);
    }
}

proof fn put_in_keeps_equals(p: RawPresetModel, rest: Seq<RawPresetModel>, key: int)
    ensures
        put_in(p, rest).filter(|p: RawPresetModel| preset_key(p) == key) == (seq![p]
            + rest).filter(|p: RawPresetModel| preset_key(p) == key),
    decreases rest.len(),
{
    let same = |p: RawPresetModel| preset_key(p) == key;
    if rest.len() > 0 && preset_key(rest[0]) < preset_key(p) {
        let less = rest.skip(1);
        put_in_keeps_equals(p, less, key);
        let first = seq![rest[0]];
        let own = seq![p];
        Seq::filter_distributes_over_add(first, put_in(p, less), same);
        Seq::filter_distributes_over_add(own, less, same);
        Seq::filter_distributes_over_add(own, rest, same);
        Seq::filter_distributes_over_add(first, less, same);
        assert(rest =~= first + less);
        assert(first.filter(same).len() == 0 || own.filter(same).len() == 0) by {
            reveal(Seq::filter);
            assert(first.drop_last() =~= Seq::empty());
            assert(own.drop_last() =~= Seq::empty());
            reveal_with_fuel(Seq::filter, 2);
        }
        assert(first.filter(same) + (own.filter(same) + less.filter(same)) =~= own.filter(same) + (
        first.filter(same) + less.filter(same)));
    }
}

/// The frames of a file can be read where its chunks lie in it and the low bytes, if there are
/// any, belong to the others; else the first of these faults is reported.
pub proof fn faults_are_reported(bytes: Seq<u8>, file: RawFileModel)
    ensures
        file.smpl is None ==> sample_fault(bytes, file) == Some(
            "Soundfont does not contain samples"@,
        ),
        file.smpl matches Some(smpl) ==> ({
            let lies = smpl.offset + smpl.len <= bytes.len();
            &&& !lies ==> sample_fault(bytes, file) == Some("Error reading sample contents"@)
            &&& lies && file.sm24 is None ==> sample_fault(bytes, file) is None
            &&& file.sm24 matches Some(low) ==> {
                let also = low.offset + low.len <= bytes.len();
                let frames = smpl.len / 2;
                let fits = low.len == frames + frames % 2;
                &&& lies && !also ==> sample_fault(bytes, file) == Some(
                    "Error reading extra sample contents"@,
                )
                &&& lies && also && !fits ==> sample_fault(bytes, file) == Some(
                    "Invalid sample length"@,
                )
                &&& lies && also && fits ==> sample_fault(bytes, file) is None
            }
        }),
{
}

} // verus!
