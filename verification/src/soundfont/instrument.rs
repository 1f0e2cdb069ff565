//! What a soundfont plays for each key and velocity.

use crate::sfz::region::TriggerType;
use vstd::prelude::*;

verus! {

/// How many slots an instrument has: one for each key and velocity.
pub const SLOTS: usize = 16384;

/// The slot of a key and a velocity.
pub fn key_vel_to_index(key: u8, vel: u8) -> (r: usize)
    ensures
        r == key * 128 + vel,
{
    key as usize * 128 + vel as usize
}

/// What of a region decides for which notes it sounds.
#[derive(Debug, Clone, Copy, PartialEq, Eq, Structural)]
pub struct SlotRegion {
    pub lokey: i16,
    pub hikey: i16,
    pub lovel: u8,
    pub hivel: u8,
    pub trigger: TriggerType,
    /// How many regions take turns; 0 where none do.
    pub seq_length: u32,
    /// The turn of the region, from 1; 0 where it sounds every time.
    pub seq_position: u32,
    pub exclusive_class: Option<u8>,
}

/// A region at a key and a velocity.
#[derive(Debug, Clone, Copy, PartialEq, Eq, Structural)]
pub struct Spawner {
    /// The place of the region in the list of regions.
    pub region: usize,
    pub key: u8,
    pub vel: u8,
    pub seq_position: u8,
    pub exclusive_class: Option<u8>,
}

/// A number held to what a byte has room for.
pub open spec fn byte_sized(v: u32) -> u8 {
    if v > 255 {
        255
    } else {
        v as u8
    }
}

fn to_byte(v: u32) -> (r: u8)
    ensures
        r == byte_sized(v),
{
    if v > 255 {
        255
    } else {
        v as u8
    }
}

/// The region sounds for a key and a velocity. Key -1 marks regions that sound for
/// controllers only; those sound for no key at all.
pub open spec fn covers(r: SlotRegion, key: int, vel: int) -> bool {
    &&& r.lokey <= key <= r.hikey
    &&& r.lovel <= vel <= r.hivel
    &&& !(r.lokey <= -1 <= r.hikey)
}

/// Every key and velocity of the region has its slot.
pub open spec fn region_fits(r: SlotRegion) -> bool {
    r.lokey <= r.hikey && r.lovel <= r.hivel && !(r.lokey <= -1 <= r.hikey) ==> 0 <= r.lokey
        && r.hikey * 128 + r.hivel < SLOTS
}

/// A region at a key and a velocity.
pub open spec fn spawner_of(r: SlotRegion, region: int, key: int, vel: int) -> Spawner {
    Spawner {
        region: region as usize,
        key: key as u8,
        vel: vel as u8,
        seq_position: byte_sized(r.seq_position),
        exclusive_class: r.exclusive_class,
    }
}

/// What a region adds to a slot. A velocity of 128 or more counts on into the slots of
/// the next key.
pub open spec fn entries(r: SlotRegion, region: int, slot: int) -> Seq<Spawner> {
    let key = slot / 128;
    let vel = slot % 128;
    (if covers(r, key - 1, vel + 128) {
        seq![spawner_of(r, region, key - 1, vel + 128)]
    } else {
        Seq::empty()
    }) + (if covers(r, key, vel) {
        seq![spawner_of(r, region, key, vel)]
    } else {
        Seq::empty()
    })
}

/// What the first `n` regions add to a slot of those that sound for `trigger`, in the
/// order of the regions.
pub open spec fn slot_list(
    regions: Seq<SlotRegion>,
    n: int,
    slot: int,
    trigger: TriggerType,
) -> Seq<Spawner>
    decreases n,
{
    if n <= 0 {
        Seq::empty()
    } else {
        let before = slot_list(regions, n - 1, slot, trigger);
        if regions[n - 1].trigger == trigger {
            before + entries(regions[n - 1], n - 1, slot)
        } else {
            before
        }
    }
}

/// How many regions take turns in a slot: the greatest number that any of the first
/// `n` regions in it names.
pub open spec fn turns(regions: Seq<SlotRegion>, n: int, slot: int) -> u8
    decreases n,
{
    if n <= 0 {
        0
    } else {
        let before = turns(regions, n - 1, slot);
        let r = regions[n - 1];
        if entries(r, n - 1, slot).len() > 0 && before < byte_sized(r.seq_length) {
            byte_sized(r.seq_length)
        } else {
            before
        }
    }
}

/// The turns of a slot.
#[derive(Debug, Clone, Copy, PartialEq, Eq, Structural)]
pub struct RrState {
    pub seq_length: u8,
    /// How many notes have been struck.
    pub counter: u32,
}

/// An instrument of a soundfont.
#[derive(Debug)]
pub struct SoundfontInstrument {
    pub bank: u8,
    pub preset: u8,
    /// What sounds when a key goes down, slot by slot.
    pub spawner_params_list: Vec<Vec<Spawner>>,
    /// What sounds when a key comes up, slot by slot.
    pub release_spawner_params_list: Vec<Vec<Spawner>>,
    pub rr_state: Vec<Option<RrState>>,
}

/// The model of an instrument.
#[verifier::ext_equal]
pub struct InstrumentModel {
    pub bank: u8,
    pub preset: u8,
    pub attack: Seq<Seq<Spawner>>,
    pub release: Seq<Seq<Spawner>>,
    pub rr: Seq<Option<RrState>>,
}

/// Lists of lists.
pub open spec fn lists(v: Seq<Vec<Spawner>>) -> Seq<Seq<Spawner>> {
    v.map_values(|l: Vec<Spawner>| l@)
}

impl View for SoundfontInstrument {
    type V = InstrumentModel;

    open spec fn view(&self) -> InstrumentModel {
        InstrumentModel {
            bank: self.bank,
            preset: self.preset,
            attack: lists(self.spawner_params_list@),
            release: lists(self.release_spawner_params_list@),
            rr: self.rr_state@,
        }
    }
}

/// An instrument has all its slots, and where regions take turns there is at least
/// one.
pub open spec fn instrument_wf(m: InstrumentModel) -> bool {
    &&& m.attack.len() == SLOTS
    &&& m.release.len() == SLOTS
    &&& m.rr.len() == SLOTS
    &&& forall|i: int|
        0 <= i < SLOTS ==> ((#[trigger] m.rr[i]) matches Some(rr) ==> rr.seq_length > 0)
}

/// The instrument that regions make up.
pub open spec fn instrument_of(regions: Seq<SlotRegion>, bank: u8, preset: u8) -> InstrumentModel {
    let n = regions.len() as int;
    InstrumentModel {
        bank,
        preset,
        attack: Seq::new(
            SLOTS as nat,
            |slot: int| slot_list(regions, n, slot, TriggerType::Attack),
        ),
        release: Seq::new(
            SLOTS as nat,
            |slot: int| slot_list(regions, n, slot, TriggerType::Release),
        ),
        rr: Seq::new(
            SLOTS as nat,
            |slot: int|
                if turns(regions, n, slot) == 0 {
                    None
                } else {
                    Some(RrState { seq_length: turns(regions, n, slot), counter: 0 })
                },
        ),
    }
}

/// The region at `i` is among the spawners.
pub open spec fn sounds_in(list: Seq<Spawner>, i: int) -> bool {
    exists|k: int| 0 <= k < list.len() && (#[trigger] list[k]).region == i
}

/// A region sounds for a key and a velocity exactly where it covers them, when the key
/// goes down or when it comes up, as its trigger says.
pub proof fn regions_sound_where_they_cover(
    regions: Seq<SlotRegion>,
    n: int,
    i: int,
    key: int,
    vel: int,
    trigger: TriggerType,
)
    requires
        0 <= i < n <= regions.len() <= usize::MAX,
        0 <= key < 128,
        0 <= vel < 128,
        forall|j: int| 0 <= j < n ==> (#[trigger] regions[j]).hivel < 128,
    ensures
        sounds_in(slot_list(regions, n, key * 128 + vel, trigger), i) <==> regions[i].trigger
            == trigger && covers(regions[i], key, vel),
    decreases n,
{
    let slot = key * 128 + vel;
    assert(slot / 128 == key && slot % 128 == vel);
    let before = slot_list(regions, n - 1, slot, trigger);
    let now = slot_list(regions, n, slot, trigger);
    let r = regions[n - 1];
    assert(regions[n - 1].hivel < 128);
    assert(!covers(r, key - 1, vel + 128));
    if i == n - 1 {
        none_sounds_before_its_turn(regions, n - 1, i, slot, trigger);
        if r.trigger == trigger && covers(r, key, vel) {
            assert(now[before.len() as int].region == i);
        } else {
            assert(now =~= before);
        }
    } else {
        regions_sound_where_they_cover(regions, n - 1, i, key, vel, trigger);
        if sounds_in(before, i) {
            let k = choose|k: int| 0 <= k < before.len() && (#[trigger] before[k]).region == i;
            assert(now[k].region == i);
        }
        if sounds_in(now, i) {
            let k = choose|k: int| 0 <= k < now.len() && (#[trigger] now[k]).region == i;
            assert(k < before.len());
            assert(before[k].region == i);
        }
    }
}

proof fn none_sounds_before_its_turn(
    regions: Seq<SlotRegion>,
    n: int,
    i: int,
    slot: int,
    trigger: TriggerType,
)
    requires
        0 <= n <= i,
        n <= regions.len() <= usize::MAX,
    ensures
        !sounds_in(slot_list(regions, n, slot, trigger), i),
    decreases n,
{
    if n > 0 {
        none_sounds_before_its_turn(regions, n - 1, i, slot, trigger);
        let before = slot_list(regions, n - 1, slot, trigger);
        let now = slot_list(regions, n, slot, trigger);
        assert forall|k: int| 0 <= k < now.len() implies (#[trigger] now[k]).region != i by {
            if k < before.len() {
                assert(now[k] == before[k]);
            }
        }
    }
}

fn is_covered(r: &SlotRegion, key: i16, vel: i16) -> (b: bool)
    ensures
        b == covers(*r, key as int, vel as int),
{
    r.lokey <= key && key <= r.hikey && r.lovel as i16 <= vel && vel <= r.hivel as i16 && !(r.lokey
        <= -1 && -1 <= r.hikey)
}

fn spawner(r: &SlotRegion, region: usize, key: i16, vel: i16) -> (s: Spawner)
    requires
        0 <= key <= 255,
        0 <= vel <= 255,
    ensures
        s == spawner_of(*r, region as int, key as int, vel as int),
{
    Spawner {
        region,
        key: key as u8,
        vel: vel as u8,
        seq_position: to_byte(r.seq_position),
        exclusive_class: r.exclusive_class,
    }
}

/// Adds what a region has for a slot. Says whether it has anything.
fn add_entries(list: &mut Vec<Spawner>, r: &SlotRegion, region: usize, slot: usize) -> (b: bool)
    requires
        slot < SLOTS,
        region_fits(*r),
    ensures
        final(list)@ == old(list)@ + entries(*r, region as int, slot as int),
        b == (entries(*r, region as int, slot as int).len() > 0),
{
    let key: i16 = (slot / 128) as i16;
    let vel: i16 = (slot % 128) as i16;
    let ghost before = list@;
    let mut found = false;
    if is_covered(r, key - 1, vel + 128) {
        list.push(spawner(r, region, key - 1, vel + 128));
        found = true;
    }
    if is_covered(r, key, vel) {
        list.push(spawner(r, region, key, vel));
        found = true;
    }
    assert(list@ =~= before + entries(*r, region as int, slot as int));
    found
}

/// What regions make of one slot: what sounds when a key goes down, what sounds when it
/// comes up, and how many of them take turns.
fn fill_slot(regions: &Vec<SlotRegion>, slot: usize) -> (r: (Vec<Spawner>, Vec<Spawner>, u8))
    requires
        slot < SLOTS,
        forall|i: int| 0 <= i < regions.len() ==> region_fits(#[trigger] regions@[i]),
    ensures
        r.0@ == slot_list(regions@, regions.len() as int, slot as int, TriggerType::Attack),
        r.1@ == slot_list(regions@, regions.len() as int, slot as int, TriggerType::Release),
        r.2 == turns(regions@, regions.len() as int, slot as int),
{
    let mut attack: Vec<Spawner> = Vec::new();
    let mut release: Vec<Spawner> = Vec::new();
    let mut length: u8 = 0;
    let mut n: usize = 0;
    while n < regions.len()
        invariant
            slot < SLOTS,
            forall|i: int| 0 <= i < regions.len() ==> region_fits(#[trigger] regions@[i]),
            n <= regions.len(),
            attack@ == slot_list(regions@, n as int, slot as int, TriggerType::Attack),
            release@ == slot_list(regions@, n as int, slot as int, TriggerType::Release),
            length == turns(regions@, n as int, slot as int),
        decreases regions.len() - n,
    {
        let region = regions[n];
        let found = match region.trigger {
            TriggerType::Attack => add_entries(&mut attack, &region, n, slot),
            TriggerType::Release => add_entries(&mut release, &region, n, slot),
        };
        let named = to_byte(region.seq_length);
        if found && length < named {
            length = named;
        }
        n = n + 1;
    }
    (attack, release, length)
}

impl SoundfontInstrument {
    /// The instrument that regions make up.
    pub fn new(regions: &Vec<SlotRegion>, bank: u8, preset: u8) -> (r: SoundfontInstrument)
        requires
            forall|i: int| 0 <= i < regions.len() ==> region_fits(#[trigger] regions@[i]),
        ensures
            r@ == instrument_of(regions@, bank, preset),
            instrument_wf(r@),
    {
        let ghost n = regions.len() as int;
        let mut attack: Vec<Vec<Spawner>> = Vec::new();
        let mut release: Vec<Vec<Spawner>> = Vec::new();
        let mut rr: Vec<Option<RrState>> = Vec::new();
        let mut slot: usize = 0;
        let ghost goal = instrument_of(regions@, bank, preset);
        while slot < SLOTS
            invariant
                slot <= SLOTS,
                n == regions.len(),
                goal == instrument_of(regions@, bank, preset),
                forall|i: int| 0 <= i < regions.len() ==> region_fits(#[trigger] regions@[i]),
                lists(attack@) == goal.attack.take(slot as int),
                lists(release@) == goal.release.take(slot as int),
                rr@ == goal.rr.take(slot as int),
                attack.len() == slot,
                release.len() == slot,
                forall|i: int|
                    0 <= i < slot ==> ((#[trigger] rr@[i]) matches Some(s) ==> s.seq_length > 0),
            decreases SLOTS - slot,
        {
            let (down, up, length) = fill_slot(regions, slot);
            attack.push(down);
            release.push(up);
            rr.push(
                if length == 0 {
                    None
                } else {
                    Some(RrState { seq_length: length, counter: 0 })
                },
            );
            slot = slot + 1;
            assert(lists(attack@) =~= goal.attack.take(slot as int));
            assert(lists(release@) =~= goal.release.take(slot as int));
            assert(rr@ =~= goal.rr.take(slot as int));
        }
        let r = SoundfontInstrument {
            bank,
            preset,
            spawner_params_list: attack,
            release_spawner_params_list: release,
            rr_state: rr,
        };
        assert(r@ =~= goal);
        r
    }
}

/// The turn that comes after `counter` notes, from 1.
pub open spec fn turn_of(rr: RrState) -> int {
    rr.counter as int % rr.seq_length as int + 1
}

/// The spawner sounds in turn `turn`, or where nobody takes turns.
pub open spec fn has_turn(s: Spawner, turn: Option<int>) -> bool {
    turn matches Some(t) ==> s.seq_position == 0 || s.seq_position == t
}

/// The spawners of a list that have the turn.
pub open spec fn with_turn(list: Seq<Spawner>, turn: Option<int>) -> Seq<Spawner>
    decreases list.len(),
{
    if list.len() == 0 {
        Seq::empty()
    } else {
        let before = with_turn(list.drop_last(), turn);
        if has_turn(list.last(), turn) {
            before.push(list.last())
        } else {
            before
        }
    }
}

/// The turns of a slot after one more note.
pub open spec fn turn_passed(rr: RrState) -> RrState {
    RrState {
        counter: if rr.counter == u32::MAX {
            0
        } else {
            (rr.counter + 1) as u32
        },
        ..rr
    }
}

/// What sounds when a key goes down, and the instrument after it: where regions take
/// turns, the next one has the turn.
pub open spec fn struck(m: InstrumentModel, slot: int) -> (InstrumentModel, Seq<Spawner>) {
    match m.rr[slot] {
        None => (m, m.attack[slot]),
        Some(rr) => (
            InstrumentModel { rr: m.rr.update(slot, Some(turn_passed(rr))), ..m },
            with_turn(m.attack[slot], Some(turn_of(rr))),
        ),
    }
}

/// Where nobody takes turns every spawner sounds.
pub proof fn all_sound_without_turns(list: Seq<Spawner>)
    ensures
        with_turn(list, None) == list,
    decreases list.len(),
{
    if list.len() > 0 {
        all_sound_without_turns(list.drop_last());
        assert(list.drop_last().push(list.last()) =~= list);
    }
}

/// The turn of the `i`th note after `counter` notes.
pub open spec fn turn_after(counter: int, i: int, length: int) -> int {
    (counter + i) % length + 1
}

/// In as many notes as there are turns, each turn comes once.
pub proof fn every_turn_comes_once(counter: int, length: int, turn: int)
    requires
        0 <= counter,
        0 < length,
        1 <= turn <= length,
    ensures
        exists|i: int| 0 <= i < length && #[trigger] turn_after(counter, i, length) == turn,
        forall|i: int, j: int|
            0 <= i < j < length ==> #[trigger] turn_after(counter, i, length)
                != #[trigger] turn_after(counter, j, length),
{
    let now = counter % length;
    let i = if turn - 1 >= now {
        turn - 1 - now
    } else {
        turn - 1 - now + length
    };
    vstd::arithmetic::div_mod::lemma_fundamental_div_mod(counter, length);
    let q = counter / length;
    let q2 = if turn - 1 >= now {
        q
    } else {
        q + 1
    };
    assert(counter + i == length * q2 + (turn - 1)) by (nonlinear_arith)
        requires
            counter == length * q + now,
            (turn - 1 >= now && q2 == q && i == turn - 1 - now) || (turn - 1 < now && q2 == q + 1
                && i == turn - 1 - now + length),
    ;
    vstd::arithmetic::div_mod::lemma_fundamental_div_mod_converse(
        counter + i,
        length,
        q2,
        turn - 1,
    );
    assert(turn_after(counter, i, length) == turn);
    assert forall|a: int, b: int| 0 <= a < b < length implies #[trigger] turn_after(
        counter,
        a,
        length,
    ) != #[trigger] turn_after(counter, b, length) by {
        if (counter + a) % length == (counter + b) % length {
            vstd::arithmetic::div_mod::lemma_fundamental_div_mod(counter + a, length);
            vstd::arithmetic::div_mod::lemma_fundamental_div_mod(counter + b, length);
            let qa = (counter + a) / length;
            let qb = (counter + b) / length;
            assert(b - a == length * (qb - qa)) by (nonlinear_arith)
                requires
                    counter + a == length * qa + (counter + a) % length,
                    counter + b == length * qb + (counter + b) % length,
                    (counter + a) % length == (counter + b) % length,
            ;
            assert(false) by (nonlinear_arith)
                requires
                    b - a == length * (qb - qa),
                    0 < b - a < length,
            ;
        }
    }
}

fn copy_spawners(list: &Vec<Spawner>) -> (r: Vec<Spawner>)
    ensures
        r@ == list@,
{
    let mut out: Vec<Spawner> = Vec::new();
    let mut i: usize = 0;
    while i < list.len()
        invariant
            i <= list.len(),
            out@ == list@.take(i as int),
        decreases list.len() - i,
    {
        out.push(list[i]);
        i = i + 1;
        assert(list@.take(i as int) =~= list@.take(i - 1).push(list@[i - 1]));
    }
    assert(out@ =~= list@);
    out
}

impl SoundfontInstrument {
    /// What sounds when a key goes down.
    pub fn strike(&mut self, key: u8, vel: u8) -> (r: Vec<Spawner>)
        requires
            instrument_wf(old(self)@),
            key < 128,
            vel < 128,
        ensures
            (final(self)@, r@) == struck(old(self)@, key * 128 + vel),
            instrument_wf(final(self)@),
    {
        let slot = key_vel_to_index(key, vel);
        let ghost m = self@;
        assert(m.rr[slot as int] == self.rr_state@[slot as int]);
        assert(m.attack[slot as int] == self.spawner_params_list@[slot as int]@);
        match self.rr_state[slot] {
            None => copy_spawners(&self.spawner_params_list[slot]),
            Some(rr) => {
                let turn: u32 = rr.counter % rr.seq_length as u32 + 1;
                self.rr_state.set(
                    slot,
                    Some(
                        RrState {
                            seq_length: rr.seq_length,
                            counter: rr.counter.wrapping_add(1),
                        },
                    ),
                );
                assert(self@ =~= struck(m, slot as int).0);
                let list = &self.spawner_params_list[slot];
                let mut out: Vec<Spawner> = Vec::new();
                let mut i: usize = 0;
                while i < list.len()
                    invariant
                        i <= list.len(),
                        out@ == with_turn(list@.take(i as int), Some(turn as int)),
                    decreases list.len() - i,
                {
                    let s = list[i];
                    assert(list@.take(i + 1).drop_last() =~= list@.take(i as int));
                    if s.seq_position == 0 || s.seq_position as u32 == turn {
                        out.push(s);
                    }
                    i = i + 1;
                }
                assert(list@.take(i as int) =~= list@);
                out
            },
        }
    }

    /// What sounds when a key comes up.
    pub fn lift(&self, key: u8, vel: u8) -> (r: Vec<Spawner>)
        requires
            instrument_wf(self@),
            key < 128,
            vel < 128,
        ensures
            r@ == self@.release[key * 128 + vel],
    {
        let slot = key_vel_to_index(key, vel);
        assert(self@.release[slot as int] == self.release_spawner_params_list@[slot as int]@);
        copy_spawners(&self.release_spawner_params_list[slot])
    }
}

/// A soundfont: its instruments.
#[derive(Debug)]
pub struct SampleSoundfont {
    /// Which soundfont it is. Lists hold the same soundfonts where these numbers agree.
    pub id: u64,
    pub instruments: Vec<SoundfontInstrument>,
}

/// The models of instruments.
pub open spec fn instrument_models(v: Seq<SoundfontInstrument>) -> Seq<InstrumentModel> {
    v.map_values(|i: SoundfontInstrument| i@)
}

impl View for SampleSoundfont {
    type V = Seq<InstrumentModel>;

    open spec fn view(&self) -> Seq<InstrumentModel> {
        instrument_models(self.instruments@)
    }
}

/// All instruments have their slots.
pub open spec fn soundfont_wf(sf: Seq<InstrumentModel>) -> bool {
    forall|i: int| 0 <= i < sf.len() ==> instrument_wf(#[trigger] sf[i])
}

/// The place of the first instrument of a bank and a preset; the number of instruments
/// where there is none.
pub open spec fn instrument_at(sf: Seq<InstrumentModel>, bank: u8, preset: u8, at: int) -> int
    decreases sf.len() - at,
{
    if 0 <= at < sf.len() && !(sf[at].bank == bank && sf[at].preset == preset) {
        instrument_at(sf, bank, preset, at + 1)
    } else {
        at
    }
}

/// What a soundfont plays when a key goes down, and the soundfont after it. A program
/// that it does not have is silent.
pub open spec fn attack_spawners(
    sf: Seq<InstrumentModel>,
    bank: u8,
    preset: u8,
    slot: int,
) -> (Seq<InstrumentModel>, Seq<Spawner>) {
    let at = instrument_at(sf, bank, preset, 0);
    if at < sf.len() {
        let (next, list) = struck(sf[at], slot);
        (sf.update(at, next), list)
    } else {
        (sf, Seq::empty())
    }
}

/// What a soundfont plays when a key comes up.
pub open spec fn release_spawners(
    sf: Seq<InstrumentModel>,
    bank: u8,
    preset: u8,
    slot: int,
) -> Seq<Spawner> {
    let at = instrument_at(sf, bank, preset, 0);
    if at < sf.len() {
        sf[at].release[slot]
    } else {
        Seq::empty()
    }
}

impl SampleSoundfont {
    /// The place of the first instrument of a bank and a preset; the number of instruments
    /// where there is none.
    pub fn find(&self, bank: u8, preset: u8) -> (r: usize)
        ensures
            r == instrument_at(self@, bank, preset, 0),
            r <= self.instruments.len(),
    {
        let mut i: usize = 0;
        while i < self.instruments.len() && !(self.instruments[i].bank == bank
            && self.instruments[i].preset == preset)
            invariant
                i <= self.instruments.len(),
                instrument_at(self@, bank, preset, 0) == instrument_at(
                    self@,
                    bank,
                    preset,
                    i as int,
                ),
            decreases self.instruments.len() - i,
        {
            assert(self@[i as int] == self.instruments@[i as int]@);
            i = i + 1;
        }
        if i < self.instruments.len() {
            assert(self@[i as int] == self.instruments@[i as int]@);
        }
        i
    }

    /// What the soundfont plays when a key goes down.
    pub fn get_attack_voice_spawners_at(
        &mut self,
        bank: u8,
        preset: u8,
        key: u8,
        vel: u8,
    ) -> (r: Vec<Spawner>)
        requires
            soundfont_wf(old(self)@),
            key < 128,
            vel < 128,
        ensures
            (final(self)@, r@) == attack_spawners(old(self)@, bank, preset, key * 128 + vel),
            soundfont_wf(final(self)@),
            final(self).id == old(self).id,
    {
        let at = self.find(bank, preset);
        let ghost sf = self@;
        if at < self.instruments.len() {
            assert(sf[at as int] == self.instruments@[at as int]@);
            let list = self.instruments[at].strike(key, vel);
            assert(self@ =~= attack_spawners(sf, bank, preset, key * 128 + vel).0);
            list
        } else {
            let list: Vec<Spawner> = Vec::new();
            assert(list@ =~= Seq::empty());
            list
        }
    }

    /// What the soundfont plays when a key comes up.
    pub fn get_release_voice_spawners_at(
        &self,
        bank: u8,
        preset: u8,
        key: u8,
        vel: u8,
    ) -> (r: Vec<Spawner>)
        requires
            soundfont_wf(self@),
            key < 128,
            vel < 128,
        ensures
            r@ == release_spawners(self@, bank, preset, key * 128 + vel),
    {
        let at = self.find(bank, preset);
        if at < self.instruments.len() {
            assert(self@[at as int] == self.instruments@[at as int]@);
            self.instruments[at].lift(key, vel)
        } else {
            let list: Vec<Spawner> = Vec::new();
            assert(list@ =~= Seq::empty());
            list
        }
    }
}

/// A soundfont after the same key has gone down `n` times.
pub open spec fn struck_in_a_row(
    sf: Seq<InstrumentModel>,
    bank: u8,
    preset: u8,
    slot: int,
    n: nat,
) -> Seq<InstrumentModel>
    decreases n,
{
    if n == 0 {
        sf
    } else {
        attack_spawners(
            struck_in_a_row(sf, bank, preset, slot, (n - 1) as nat),
            bank,
            preset,
            slot,
        ).0
    }
}

/// What a soundfont plays when the same key goes down once more after `n` times.
pub open spec fn sounds_after(
    sf: Seq<InstrumentModel>,
    bank: u8,
    preset: u8,
    slot: int,
    n: nat,
) -> Seq<Spawner> {
    attack_spawners(struck_in_a_row(sf, bank, preset, slot, n), bank, preset, slot).1
}

/// The turns of a slot of a program.
pub open spec fn turns_at(sf: Seq<InstrumentModel>, bank: u8, preset: u8, slot: int) -> Option<
    RrState,
> {
    let at = instrument_at(sf, bank, preset, 0);
    if at < sf.len() {
        sf[at].rr[slot]
    } else {
        None
    }
}

proof fn place_is_within(sf: Seq<InstrumentModel>, bank: u8, preset: u8, from: int)
    requires
        0 <= from <= sf.len(),
    ensures
        from <= instrument_at(sf, bank, preset, from) <= sf.len(),
    decreases sf.len() - from,
{
    if from < sf.len() && !(sf[from].bank == bank && sf[from].preset == preset) {
        place_is_within(sf, bank, preset, from + 1);
    }
}

proof fn place_stays(
    sf: Seq<InstrumentModel>,
    bank: u8,
    preset: u8,
    from: int,
    at: int,
    m: InstrumentModel,
)
    requires
        0 <= from <= sf.len(),
        0 <= at < sf.len(),
        m.bank == sf[at].bank,
        m.preset == sf[at].preset,
    ensures
        instrument_at(sf.update(at, m), bank, preset, from) == instrument_at(
            sf,
            bank,
            preset,
            from,
        ),
    decreases sf.len() - from,
{
    if from < sf.len() && !(sf[from].bank == bank && sf[from].preset == preset) {
        place_stays(sf, bank, preset, from + 1, at, m);
    }
}

proof fn only_the_turn_moves(
    sf: Seq<InstrumentModel>,
    bank: u8,
    preset: u8,
    slot: int,
    n: nat,
)
    requires
        soundfont_wf(sf),
        0 <= slot < SLOTS,
        turns_at(sf, bank, preset, slot) is Some,
        turns_at(sf, bank, preset, slot)->0.counter + n <= u32::MAX,
    ensures
        ({
            let at = instrument_at(sf, bank, preset, 0);
            let rr = turns_at(sf, bank, preset, slot)->0;
            let now = struck_in_a_row(sf, bank, preset, slot, n);
            &&& instrument_at(now, bank, preset, 0) == at
            &&& now == sf.update(
                at,
                (InstrumentModel {
                    rr: sf[at].rr.update(
                        slot,
                        Some(RrState { counter: (rr.counter + n) as u32, ..rr }),
                    ),
                    ..sf[at]
                }),
            )
        }),
    decreases n,
{
    let at = instrument_at(sf, bank, preset, 0);
    let rr = turns_at(sf, bank, preset, slot)->0;
    place_is_within(sf, bank, preset, 0);
    assert(instrument_wf(sf[at]));
    if n == 0 {
        assert(sf[at].rr.update(slot, Some(rr)) =~= sf[at].rr);
        assert(sf.update(at, sf[at]) =~= sf);
    } else {
        only_the_turn_moves(sf, bank, preset, slot, (n - 1) as nat);
        let before = struck_in_a_row(sf, bank, preset, slot, (n - 1) as nat);
        let next = struck(before[at], slot).0;
        place_stays(before, bank, preset, 0, at, next);
        assert(before.update(at, next) =~= sf.update(at, next));
        assert(next.rr =~= sf[at].rr.update(
            slot,
            Some(RrState { counter: (rr.counter + n) as u32, ..rr }),
        ));
    }
}

/// Where regions take turns, a row of notes on one key gives each turn its time: the note
/// after `n` others plays the regions whose turn it is, and those that always sound. The
/// count of notes has room for so many.
pub proof fn notes_take_turns(
    sf: Seq<InstrumentModel>,
    bank: u8,
    preset: u8,
    slot: int,
    n: nat,
)
    requires
        soundfont_wf(sf),
        0 <= slot < SLOTS,
        turns_at(sf, bank, preset, slot) is Some,
        turns_at(sf, bank, preset, slot)->0.counter + n <= u32::MAX,
    ensures
        ({
            let rr = turns_at(sf, bank, preset, slot)->0;
            let list = sf[instrument_at(sf, bank, preset, 0)].attack[slot];
            sounds_after(sf, bank, preset, slot, n) == with_turn(
                list,
                Some(turn_after(rr.counter as int, n as int, rr.seq_length as int)),
            )
        }),
{
    place_is_within(sf, bank, preset, 0);
    only_the_turn_moves(sf, bank, preset, slot, n);
}

/// On an instrument that nobody has played, the note after `n` others on one key plays the
/// regions whose turn is `n` modulo the number of turns, from 1, and those that always sound,
/// in the order of the file.
pub proof fn first_notes_take_turns(
    regions: Seq<SlotRegion>,
    bank: u8,
    preset: u8,
    slot: int,
    n: nat,
)
    requires
        0 <= slot < SLOTS,
        turns(regions, regions.len() as int, slot) > 0,
        n <= u32::MAX,
    ensures
        sounds_after(seq![instrument_of(regions, bank, preset)], bank, preset, slot, n)
            == with_turn(
            slot_list(regions, regions.len() as int, slot, TriggerType::Attack),
            Some(n as int % turns(regions, regions.len() as int, slot) as int + 1),
        ),
{
    let sf = seq![instrument_of(regions, bank, preset)];
    assert(sf[0].bank == bank && sf[0].preset == preset);
    assert(instrument_at(sf, bank, preset, 0) == 0);
    assert(soundfont_wf(sf));
    notes_take_turns(sf, bank, preset, slot, n);
}

proof fn turn_picks(list: Seq<Spawner>, turn: Option<int>, s: Spawner)
    ensures
        with_turn(list, turn).contains(s) <==> list.contains(s) && has_turn(s, turn),
    decreases list.len(),
{
    if list.len() > 0 {
        let rest = list.drop_last();
        let before = with_turn(rest, turn);
        let now = with_turn(list, turn);
        turn_picks(rest, turn, s);
        if before.contains(s) {
            let i = choose|i: int| 0 <= i < before.len() && before[i] == s;
            assert(now[i] == s);
        }
        if list.contains(s) && has_turn(s, turn) {
            let i = choose|i: int| 0 <= i < list.len() && list[i] == s;
            if i < rest.len() {
                assert(rest[i] == s);
            } else {
                assert(now[now.len() - 1] == s);
            }
        }
        if now.contains(s) {
            let i = choose|i: int| 0 <= i < now.len() && now[i] == s;
            if i < before.len() {
                assert(before[i] == s);
                let j = choose|j: int| 0 <= j < rest.len() && rest[j] == s;
                assert(list[j] == s);
            } else {
                assert(list[list.len() - 1] == s);
            }
        }
    }
}

/// Over as many notes in a row as there are turns, a region that has a turn sounds once,
/// and one without a turn sounds each time.
pub proof fn each_region_has_its_turn(
    sf: Seq<InstrumentModel>,
    bank: u8,
    preset: u8,
    slot: int,
    s: Spawner,
)
    requires
        soundfont_wf(sf),
        0 <= slot < SLOTS,
        turns_at(sf, bank, preset, slot) is Some,
        turns_at(sf, bank, preset, slot)->0.counter + turns_at(
            sf,
            bank,
            preset,
            slot,
        )->0.seq_length <= 0x1_0000_0000,
        sf[instrument_at(sf, bank, preset, 0)].attack[slot].contains(s),
        s.seq_position <= turns_at(sf, bank, preset, slot)->0.seq_length,
    ensures
        ({
            let length = turns_at(sf, bank, preset, slot)->0.seq_length;
            &&& s.seq_position == 0 ==> forall|n: nat|
                n < length ==> (#[trigger] sounds_after(sf, bank, preset, slot, n)).contains(s)
            &&& s.seq_position > 0 ==> exists|n: nat|
                n < length && (#[trigger] sounds_after(sf, bank, preset, slot, n)).contains(s)
            &&& s.seq_position > 0 ==> forall|n: nat, m: nat|
                n < m < length && (#[trigger] sounds_after(sf, bank, preset, slot, n)).contains(s)
                    ==> !(#[trigger] sounds_after(sf, bank, preset, slot, m)).contains(s)
        }),
{
    let rr = turns_at(sf, bank, preset, slot)->0;
    let length = rr.seq_length;
    let counter = rr.counter as int;
    let at = instrument_at(sf, bank, preset, 0);
    let list = sf[at].attack[slot];
    place_is_within(sf, bank, preset, 0);
    assert(instrument_wf(sf[at]));
    assert forall|n: nat| n < length implies (#[trigger] sounds_after(
        sf,
        bank,
        preset,
        slot,
        n,
    )).contains(s) == has_turn(s, Some(turn_after(counter, n as int, length as int))) by {
        notes_take_turns(sf, bank, preset, slot, n);
        turn_picks(list, Some(turn_after(counter, n as int, length as int)), s);
    }
    if s.seq_position > 0 {
        every_turn_comes_once(counter, length as int, s.seq_position as int);
        let i = choose|i: int|
            0 <= i < length && #[trigger] turn_after(counter, i, length as int) == s.seq_position;
        assert(sounds_after(sf, bank, preset, slot, i as nat).contains(s));
        assert forall|n: nat, m: nat|
            n < m < length && (#[trigger] sounds_after(sf, bank, preset, slot, n)).contains(
                s,
            ) implies !(#[trigger] sounds_after(sf, bank, preset, slot, m)).contains(s) by {
            assert(turn_after(counter, n as int, length as int) != turn_after(
                counter,
                m as int,
                length as int,
            ));
        }
    }
}

/// What stands in a slot is what sounds for its key and velocity: every spawner belongs to a
/// region with the trigger that is asked for, whose keys and velocities hold its own, and
/// carries what the region says of turns and classes. The regions come in the order of the
/// file.
pub proof fn spawners_lie_in_their_regions(
    regions: Seq<SlotRegion>,
    n: int,
    slot: int,
    trigger: TriggerType,
    k: int,
)
    requires
        0 <= n <= regions.len() <= usize::MAX,
        0 <= slot < SLOTS,
        0 <= k < slot_list(regions, n, slot, trigger).len(),
    ensures
        ({
            let list = slot_list(regions, n, slot, trigger);
            let s = list[k];
            let r = regions[s.region as int];
            &&& s.region < n
            &&& r.trigger == trigger
            &&& r.lokey <= s.key <= r.hikey
            &&& r.lovel <= s.vel <= r.hivel
            &&& r.lokey > -1
            &&& s.key * 128 + s.vel == slot
            &&& s.seq_position == r.seq_position || s.seq_position == 255 && r.seq_position > 255
            &&& s.exclusive_class == r.exclusive_class
            &&& k + 1 < list.len() ==> s.region <= list[k + 1].region
        }),
    decreases n,
{
    if n > 0 {
        let before = slot_list(regions, n - 1, slot, trigger);
        let list = slot_list(regions, n, slot, trigger);
        if k < before.len() {
            spawners_lie_in_their_regions(regions, n - 1, slot, trigger, k);
            assert(list[k] == before[k]);
        }
    }
}

/// Every key and every velocity of a region makes it sound: the region stands in their slot,
/// once.
pub proof fn regions_sound_on_all_their_keys(
    regions: Seq<SlotRegion>,
    n: int,
    i: int,
    key: u8,
    vel: u8,
)
    requires
        0 <= i < n <= regions.len() <= usize::MAX,
        regions[i].lokey <= key <= regions[i].hikey,
        regions[i].lovel <= vel <= regions[i].hivel,
        regions[i].lokey > -1,
        key * 128 + vel < SLOTS,
    ensures
        ({
            let list = slot_list(regions, n, key * 128 + vel, regions[i].trigger);
            let s = Spawner {
                region: i as usize,
                key,
                vel,
                seq_position: if regions[i].seq_position > 255 {
                    255
                } else {
                    regions[i].seq_position as u8
                },
                exclusive_class: regions[i].exclusive_class,
            };
            &&& exists|k: int| 0 <= k < list.len() && #[trigger] list[k] == s
            &&& forall|j: int, k: int|
                0 <= j < k < list.len() && #[trigger] list[j] == s ==> #[trigger] list[k] != s
        }),
    decreases n,
{
    let slot = key * 128 + vel;
    let r = regions[i];
    let s = spawner_of(r, i, key as int, vel as int);
    let before = slot_list(regions, n - 1, slot, r.trigger);
    let list = slot_list(regions, n, slot, r.trigger);
    if i < n - 1 {
        regions_sound_on_all_their_keys(regions, n - 1, i, key, vel);
        let k = choose|k: int| 0 <= k < before.len() && #[trigger] before[k] == s;
        assert(list[k] == s);
        assert forall|j: int, k: int|
            0 <= j < k < list.len() && #[trigger] list[j] == s implies #[trigger] list[k] != s by {
            if j < before.len() {
                assert(before[j] == s);
            }
            if k < before.len() {
                assert(before[k] == list[k]);
            } else {
                spawner_is_of(regions[n - 1], n - 1, slot, k - before.len());
            }
        }
    } else {
        let own = entries(r, i, slot);
        assert(own.len() > 0);
        if vel < 128 {
            assert(slot / 128 == key && slot % 128 == vel);
            assert(own[own.len() - 1] == s);
            assert(list[list.len() - 1] == s);
        } else {
            assert(slot / 128 == key + 1 && slot % 128 == vel - 128);
            assert(own[0] == s);
            assert(list[before.len() as int] == s);
        }
        assert forall|j: int, k: int|
            0 <= j < k < list.len() && #[trigger] list[j] == s implies #[trigger] list[k] != s by {
            if j < before.len() {
                spawners_lie_in_their_regions(regions, n - 1, slot, r.trigger, j);
                assert(before[j] == s);
            } else {
                assert(list[j] == own[j - before.len()]);
                assert(list[k] == own[k - before.len()]);
            }
        }
    }
}

proof fn spawner_is_of(r: SlotRegion, region: int, slot: int, k: int)
    requires
        0 <= region <= usize::MAX,
        0 <= k < entries(r, region, slot).len(),
    ensures
        entries(r, region, slot)[k].region == region,
{
}

/// The turns of a slot are as many as the region with the most of them says, of those that
/// sound there; none where no region takes turns.
pub proof fn most_turns_count(regions: Seq<SlotRegion>, n: int, i: int, key: u8, vel: u8)
    requires
        0 <= i < n <= regions.len() <= usize::MAX,
        regions[i].lokey <= key <= regions[i].hikey,
        regions[i].lovel <= vel <= regions[i].hivel,
        regions[i].lokey > -1,
        key * 128 + vel < SLOTS,
    ensures
        ({
            let most = turns(regions, n, key * 128 + vel);
            &&& most >= regions[i].seq_length || most == 255
            &&& most > 0 ==> exists|j: int|
                0 <= j < n && (#[trigger] regions[j]).lokey > -1 && (regions[j].seq_length == most
                    || most == 255 && regions[j].seq_length > 255)
        }),
    decreases n,
{
    let slot = key * 128 + vel;
    if vel < 128 {
        assert(slot / 128 == key && slot % 128 == vel);
    } else {
        assert(slot / 128 == key + 1 && slot % 128 == vel - 128);
    }
    if i < n - 1 {
        most_turns_count(regions, n - 1, i, key, vel);
    } else {
        turns_are_named(regions, n - 1, slot);
    }
    turns_are_named(regions, n, slot);
}

proof fn turns_are_named(regions: Seq<SlotRegion>, n: int, slot: int)
    requires
        0 <= n <= regions.len(),
        0 <= slot,
    ensures
        turns(regions, n, slot) > 0 ==> exists|j: int|
            0 <= j < n && (#[trigger] regions[j]).lokey > -1 && (regions[j].seq_length == turns(
                regions,
                n,
                slot,
            ) || turns(regions, n, slot) == 255 && regions[j].seq_length > 255),
    decreases n,
{
    if n > 0 {
        turns_are_named(regions, n - 1, slot);
        let r = regions[n - 1];
        if entries(r, n - 1, slot).len() > 0 && turns(regions, n - 1, slot) < byte_sized(
            r.seq_length,
        ) {
            assert(r.lokey > -1);
        }
    }
}

/// In a turn those spawners of a list sound, in its order, that have it, and those that have
/// none of their own.
pub proof fn turns_pick_in_order(list: Seq<Spawner>, turn: int)
    ensures
        with_turn(list, Some(turn)) == list.filter(
            |s: Spawner| s.seq_position == 0 || s.seq_position == turn,
        ),
    decreases list.len(),
{
    reveal(Seq::filter);
    if list.len() > 0 {
        turns_pick_in_order(list.drop_last(), turn);
    }
}

/// A soundfont plays the first of its instruments with the bank and the preset that are
/// asked for, and nothing where it has none.
pub proof fn programs_are_found(
    sf: Seq<InstrumentModel>,
    bank: u8,
    preset: u8,
    slot: int,
    at: int,
)
    requires
        0 <= at <= sf.len(),
        at < sf.len() ==> sf[at].bank == bank && sf[at].preset == preset,
        forall|i: int| 0 <= i < at ==> (#[trigger] sf[i]).bank != bank || sf[i].preset != preset,
    ensures
        instrument_at(sf, bank, preset, 0) == at,
        at < sf.len() ==> release_spawners(sf, bank, preset, slot) == sf[at].release[slot],
        at < sf.len() && sf[at].rr[slot] is None ==> attack_spawners(sf, bank, preset, slot) == (
            sf,
            sf[at].attack[slot],
        ),
        at == sf.len() ==> release_spawners(sf, bank, preset, slot).len() == 0,
        at == sf.len() ==> attack_spawners(sf, bank, preset, slot) == (
            sf,
            Seq::<Spawner>::empty(),
        ),
{
    place_is_found(sf, bank, preset, 0, at);
    if at < sf.len() {
        assert(sf.update(at, sf[at]) =~= sf);
    }
}

proof fn place_is_found(sf: Seq<InstrumentModel>, bank: u8, preset: u8, from: int, at: int)
    requires
        0 <= from <= at <= sf.len(),
        at < sf.len() ==> sf[at].bank == bank && sf[at].preset == preset,
        forall|i: int|
            from <= i < at ==> (#[trigger] sf[i]).bank != bank || sf[i].preset != preset,
    ensures
        instrument_at(sf, bank, preset, from) == at,
    decreases at - from,
{
    if from < at {
        assert(sf[from].bank != bank || sf[from].preset != preset);
        place_is_found(sf, bank, preset, from + 1, at);
    }
}

/// A key that goes down moves the turns of its own slot of its own program, and nothing else:
/// all other slots, and what sounds when keys come up, stay as they are.
pub proof fn striking_moves_one_turn(
    sf: Seq<InstrumentModel>,
    bank: u8,
    preset: u8,
    slot: int,
    i: int,
    other: int,
)
    requires
        soundfont_wf(sf),
        0 <= slot < SLOTS,
        0 <= other < SLOTS,
        0 <= i < sf.len(),
    ensures
        ({
            let now = attack_spawners(sf, bank, preset, slot).0;
            &&& now.len() == sf.len()
            &&& soundfont_wf(now)
            &&& now[i].bank == sf[i].bank
            &&& now[i].preset == sf[i].preset
            &&& now[i].attack == sf[i].attack
            &&& now[i].release == sf[i].release
            &&& other != slot ==> now[i].rr[other] == sf[i].rr[other]
        }),
{
    place_is_within(sf, bank, preset, 0);
    let at = instrument_at(sf, bank, preset, 0);
    if at < sf.len() {
        assert(instrument_wf(sf[at]));
        let next = struck(sf[at], slot).0;
        assert(instrument_wf(next));
        let now = attack_spawners(sf, bank, preset, slot).0;
        assert forall|j: int| 0 <= j < now.len() implies instrument_wf(#[trigger] now[j]) by {
            if j != at {
                assert(now[j] == sf[j]);
            }
        }
    }
}


/// A note passes the turn on to the next one: the count of notes goes up by one, and begins
/// again behind the last 32-bit number. The length of the turns stays.
pub proof fn turns_are_passed_on(rr: RrState)
    requires
        rr.seq_length > 0,
    ensures
        turn_passed(rr).counter == (rr.counter + 1) % 0x1_0000_0000,
        turn_passed(rr).seq_length == rr.seq_length,
        1 <= turn_of(rr) <= rr.seq_length,
        rr.counter < u32::MAX && turn_of(rr) < rr.seq_length ==> turn_of(turn_passed(rr))
            == turn_of(rr) + 1,
        rr.counter < u32::MAX && turn_of(rr) == rr.seq_length ==> turn_of(turn_passed(rr)) == 1,
{
    let c = rr.counter as int;
    let n = rr.seq_length as int;
    if c % n + 1 < n {
        vstd::arithmetic::div_mod::lemma_fundamental_div_mod(c, n);
        vstd::arithmetic::div_mod::lemma_fundamental_div_mod_converse(c + 1, n, c / n, c % n + 1);
    } else {
        vstd::arithmetic::div_mod::lemma_fundamental_div_mod(c, n);
        assert(n * (c / n + 1) == n * (c / n) + n) by (nonlinear_arith);
        assert((c / n + 1) * n == n * (c / n + 1)) by (nonlinear_arith);
        vstd::arithmetic::div_mod::lemma_fundamental_div_mod_converse(c + 1, n, c / n + 1, 0);
    }
}

/// A region has its place in the slots where its keys and velocities are some that there are,
/// where it has none at all, or where its keys reach down to the one that no key can be.
pub proof fn regions_fit_in_the_slots(r: SlotRegion)
    ensures
        0 <= r.lokey <= r.hikey <= 127 && r.lovel <= r.hivel <= 127 ==> region_fits(r),
        r.hikey < r.lokey || r.hivel < r.lovel ==> region_fits(r),
        r.lokey <= -1 <= r.hikey ==> region_fits(r),
        r.lokey <= r.hikey < -1 && r.lovel <= r.hivel ==> !region_fits(r),
{
}

} // verus!
