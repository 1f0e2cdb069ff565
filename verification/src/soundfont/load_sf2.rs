//! What has to be prepared before the presets of a SoundFont 2 file can play.

use super::instrument::{
    instrument_of, region_fits, soundfont_wf, InstrumentModel, SampleSoundfont, SlotRegion,
    SoundfontInstrument,
};
use super::load::LoopParams;
use crate::sf2::preset::{
    all_whole, Sf2Positions, Sf2Preset, Sf2PresetModel, Sf2Region, Sf2RegionModel,
};
use crate::sfz::region::TriggerType;
use crate::{ChannelCount, LoopMode};
use vstd::prelude::*;

verus! {

/// What of a region decides for which notes it sounds. Regions sound when a key goes
/// down, and none take turns.
pub open spec fn sf2_slots(r: Sf2RegionModel) -> SlotRegion {
    SlotRegion {
        lokey: r.keyrange.0 as i16,
        hikey: r.keyrange.1 as i16,
        lovel: r.velrange.0,
        hivel: r.velrange.1,
        trigger: TriggerType::Attack,
        seq_length: 0,
        seq_position: 0,
        exclusive_class: r.exclusive_class,
    }
}

/// What of a region decides for which notes it sounds.
pub fn sf2_slot_region(r: &Sf2Region) -> (s: SlotRegion)
    requires
        r.ranges_are_whole(),
    ensures
        s == sf2_slots(r@),
{
    SlotRegion {
        lokey: *r.keyrange.start() as i16,
        hikey: *r.keyrange.end() as i16,
        lovel: *r.velrange.start(),
        hivel: *r.velrange.end(),
        trigger: TriggerType::Attack,
        seq_length: 0,
        seq_position: 0,
        exclusive_class: r.exclusive_class,
    }
}

/// The loop of a region whose positions are in the rate of the output. A loop without
/// frames is none, and nothing fades across the loop point.
pub open spec fn sf2_loop(mode: LoopMode, at: Sf2Positions) -> LoopParams {
    LoopParams {
        mode: if at.loop_start == at.loop_end {
            LoopMode::NoLoop
        } else {
            mode
        },
        offset: at.offset,
        start: at.loop_start,
        end: at.loop_end,
        stop: Some(at.sample_end),
        crossfade: 0,
    }
}

/// The loop of a region whose positions are in the rate of the output. A loop without
/// frames is none, and nothing fades across the loop point.
pub fn sf2_loop_params(r: &Sf2Region) -> (p: LoopParams)
    ensures
        p == sf2_loop(r.loop_mode, r.positions),
{
    LoopParams {
        mode: if r.positions.loop_start == r.positions.loop_end {
            LoopMode::NoLoop
        } else {
            r.loop_mode
        },
        offset: r.positions.offset,
        start: r.positions.loop_start,
        end: r.positions.loop_end,
        stop: Some(r.positions.sample_end),
        crossfade: 0,
    }
}

/// The places of the channels that a voice plays: each one of the sample, and the only
/// one twice where the output has two sides.
pub open spec fn channels_played(sides: nat, channels: ChannelCount) -> Seq<usize> {
    if channels == ChannelCount::Stereo && sides == 1 {
        seq![0usize, 0usize]
    } else {
        Seq::new(sides, |c: int| c as usize)
    }
}

/// The places of the channels that a voice plays.
pub fn played_channels(r: &Sf2Region, channels: ChannelCount) -> (v: Vec<usize>)
    ensures
        v@ == channels_played(r@.sample.len(), channels),
{
    let mut out: Vec<usize> = Vec::new();
    if channels == ChannelCount::Stereo && r.sample.len() == 1 {
        out.push(0);
        out.push(0);
        assert(out@ =~= seq![0usize, 0usize]);
        return out;
    }
    let mut c: usize = 0;
    while c < r.sample.len()
        invariant
            c <= r.sample.len(),
            out@ == Seq::new(c as nat, |i: int| i as usize),
        decreases r.sample.len() - c,
    {
        out.push(c);
        c = c + 1;
        assert(out@ =~= Seq::new(c as nat, |i: int| i as usize));
    }
    out
}

/// A program number held against the low byte of that of a preset.
pub open spec fn asked_for(wanted: Option<u8>, number: u16) -> bool {
    wanted matches Some(w) ==> w == number as u8
}

/// The preset is among those that are asked for.
pub open spec fn is_selected(p: Sf2PresetModel, bank: Option<u8>, preset: Option<u8>) -> bool {
    asked_for(bank, p.bank) && asked_for(preset, p.preset)
}

/// The slots that the regions of a preset fill.
pub open spec fn preset_slots(p: Sf2PresetModel) -> Seq<SlotRegion> {
    p.regions.map_values(|r: Sf2RegionModel| sf2_slots(r))
}

/// The instruments of those of the first `n` presets that are asked for.
pub open spec fn instruments_of(
    presets: Seq<Sf2Preset>,
    bank: Option<u8>,
    preset: Option<u8>,
    n: int,
) -> Seq<InstrumentModel>
    decreases n,
{
    if n <= 0 {
        Seq::empty()
    } else {
        let before = instruments_of(presets, bank, preset, n - 1);
        let p = presets[n - 1]@;
        if is_selected(p, bank, preset) {
            before.push(instrument_of(preset_slots(p), p.bank as u8, p.preset as u8))
        } else {
            before
        }
    }
}

/// Whether a program number is the one that is asked for, or none is.
pub fn is_asked_for(wanted: Option<u8>, number: u16) -> (b: bool)
    ensures
        b == asked_for(wanted, number),
{
    match wanted {
        Some(w) => w == #[verifier::truncate] (number as u8),
        None => true,
    }
}

/// Every key and velocity of a preset's regions has its slot.
pub open spec fn preset_in_slots(p: Sf2PresetModel) -> bool {
    forall|i: int|
        0 <= i < p.regions.len() ==> region_fits(sf2_slots(#[trigger] p.regions[i]))
}

fn slots_of_preset(p: &Sf2Preset) -> (r: Vec<SlotRegion>)
    requires
        all_whole(p.regions@),
    ensures
        r@ == preset_slots(p@),
{
    let mut out: Vec<SlotRegion> = Vec::new();
    let mut i: usize = 0;
    while i < p.regions.len()
        invariant
            i <= p.regions.len(),
            all_whole(p.regions@),
            out@ == preset_slots(p@).take(i as int),
        decreases p.regions.len() - i,
    {
        out.push(sf2_slot_region(&p.regions[i]));
        i = i + 1;
        assert(out@ =~= preset_slots(p@).take(i as int));
    }
    assert(out@ =~= preset_slots(p@));
    out
}

impl SampleSoundfont {
    /// The instruments of the presets that are asked for, in the order of the presets.
    pub fn new_sf2(
        id: u64,
        presets: &Vec<Sf2Preset>,
        bank: Option<u8>,
        preset: Option<u8>,
    ) -> (r: SampleSoundfont)
        requires
            forall|i: int|
                0 <= i < presets.len() && is_selected((#[trigger] presets@[i])@, bank, preset)
                    ==> preset_in_slots(presets@[i]@) && all_whole(presets@[i].regions@),
        ensures
            soundfont_wf(r@),
            r.id == id,
            r@ == instruments_of(presets@, bank, preset, presets.len() as int),
    {
        let mut r = SampleSoundfont { id, instruments: Vec::new() };
        let mut n: usize = 0;
        assert(r@ =~= Seq::empty());
        while n < presets.len()
            invariant
                n <= presets.len(),
                forall|i: int|
                    0 <= i < presets.len() && is_selected((#[trigger] presets@[i])@, bank, preset)
                        ==> preset_in_slots(presets@[i]@) && all_whole(presets@[i].regions@),
                soundfont_wf(r@),
                r.id == id,
                r@ == instruments_of(presets@, bank, preset, n as int),
            decreases presets.len() - n,
        {
            let p = &presets[n];
            if is_asked_for(bank, p.bank) && is_asked_for(preset, p.preset) {
                let slots = slots_of_preset(p);
                assert forall|i: int| 0 <= i < slots.len() implies region_fits(
                    #[trigger] slots@[i],
                ) by {
                    assert(region_fits(sf2_slots(p@.regions[i])));
                }
                let instrument = SoundfontInstrument::new(
                    &slots,
                    #[verifier::truncate] (p.bank as u8),
                    #[verifier::truncate] (p.preset as u8),
                );
                let ghost before = r@;
                r.instruments.push(instrument);
                assert(r@ =~= before.push(instrument@));
            }
            n = n + 1;
        }
        r
    }
}

/// A region sounds for the keys and velocities of its ranges, in its class, each time that a key
/// goes down.
pub proof fn sf2_regions_fill_their_slots(r: Sf2RegionModel)
    ensures
        sf2_slots(r).lokey == r.keyrange.0,
        sf2_slots(r).hikey == r.keyrange.1,
        sf2_slots(r).lovel == r.velrange.0,
        sf2_slots(r).hivel == r.velrange.1,
        sf2_slots(r).trigger is Attack,
        sf2_slots(r).seq_length == 0,
        sf2_slots(r).seq_position == 0,
        sf2_slots(r).exclusive_class == r.exclusive_class,
{
}

/// A voice of a region repeats as the region says, unless its loop has no frames; it begins and
/// ends where the region does, and nothing blends.
pub proof fn sf2_loops_are_kept(mode: LoopMode, at: Sf2Positions)
    ensures
        ({
            let l = sf2_loop(mode, at);
            &&& at.loop_start != at.loop_end ==> l.mode == mode
            &&& at.loop_start == at.loop_end ==> l.mode is NoLoop
            &&& l.offset == at.offset
            &&& l.start == at.loop_start
            &&& l.end == at.loop_end
            &&& l.stop == Some(at.sample_end)
            &&& l.crossfade == 0
        }),
{
}

/// A voice plays each channel of its sample in its place; only where a sound with one side has to
/// fill two it is played on both.
pub proof fn channels_are_played_in_place(sides: nat, channels: ChannelCount, c: int)
    requires
        0 <= c < sides <= usize::MAX,
    ensures
        channels is Stereo && sides == 1 ==> channels_played(sides, channels).len() == 2
            && channels_played(sides, channels)[0] == 0 && channels_played(sides, channels)[1]
            == 0,
        channels is Mono || sides != 1 ==> channels_played(sides, channels).len() == sides
            && channels_played(sides, channels)[c] == c,
{
}

/// The presets that are asked for make an instrument each, in the order of the file, with their
/// own bank and number; where neither bank nor number is asked for, all of them do.
pub proof fn presets_make_instruments(
    presets: Seq<Sf2Preset>,
    bank: Option<u8>,
    preset: Option<u8>,
    n: int,
)
    requires
        0 < n <= presets.len(),
        presets[n - 1].bank <= 255,
        presets[n - 1].preset <= 255,
    ensures
        ({
            let before = instruments_of(presets, bank, preset, n - 1);
            let now = instruments_of(presets, bank, preset, n);
            let p = presets[n - 1];
            let wanted = (bank is None || bank->0 == p.bank) && (preset is None || preset->0
                == p.preset);
            &&& instruments_of(presets, bank, preset, 0).len() == 0
            &&& !wanted ==> now == before
            &&& wanted ==> now.len() == before.len() + 1
            &&& wanted ==> now.take(before.len() as int) == before
            &&& wanted ==> now.last().bank == p.bank && now.last().preset == p.preset
            &&& wanted ==> now.last() == instrument_of(
                Seq::new(p@.regions.len(), |i: int| sf2_slots(p@.regions[i])),
                p.bank as u8,
                p.preset as u8,
            )
        }),
{
    let before = instruments_of(presets, bank, preset, n - 1);
    let now = instruments_of(presets, bank, preset, n);
    let p = presets[n - 1];
    assert(preset_slots(p@) =~= Seq::new(p@.regions.len(), |i: int| sf2_slots(p@.regions[i])));
    if now.len() > before.len() {
        assert(now.take(before.len() as int) =~= before);
    }
}


/// The bank and the number of a preset count without what is above a byte: the instrument has
/// what is left of them, and it is made where that is what is wanted.
pub proof fn numbers_count_within_a_byte(
    presets: Seq<Sf2Preset>,
    bank: Option<u8>,
    preset: Option<u8>,
    n: int,
)
    requires
        0 < n <= presets.len(),
    ensures
        ({
            let before = instruments_of(presets, bank, preset, n - 1);
            let now = instruments_of(presets, bank, preset, n);
            let p = presets[n - 1];
            let wanted = (bank is None || bank->0 == p.bank as int % 256) && (preset is None
                || preset->0 == p.preset as int % 256);
            &&& now.len() == before.len() + if wanted {
                1int
            } else {
                0
            }
            &&& wanted ==> now.last().bank == p.bank as int % 256 && now.last().preset
                == p.preset as int % 256
        }),
{
    let a = presets[n - 1].bank;
    let b = presets[n - 1].preset;
    assert(a as u8 == a % 256) by (bit_vector);
    assert(b as u8 == b % 256) by (bit_vector);
}

} // verus!
