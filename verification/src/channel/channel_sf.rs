//! What the program of a channel plays for each key and velocity.

use super::params::{ProgramDescriptor, PERCUSSION_BANK};
use crate::soundfont::instrument::{
    attack_spawners, instrument_at, release_spawners, soundfont_wf, striking_moves_one_turn,
    struck, InstrumentModel, SampleSoundfont, Spawner, SLOTS,
};
use vstd::prelude::*;

verus! {

/// A spawner of one of several soundfonts.
#[derive(Debug, Clone, Copy, PartialEq, Eq, Structural)]
pub struct VoiceRef {
    /// The place of the soundfont.
    pub soundfont: usize,
    /// The place of the instrument among those of the soundfont.
    pub instrument: usize,
    pub spawner: Spawner,
}

/// The spawners of an instrument of the soundfont at place `at`.
pub open spec fn refs(at: int, instrument: int, list: Seq<Spawner>) -> Seq<VoiceRef> {
    list.map_values(
        |s: Spawner|
            VoiceRef { soundfont: at as usize, instrument: instrument as usize, spawner: s },
    )
}

/// The models of soundfonts.
pub open spec fn soundfont_models(v: Seq<SampleSoundfont>) -> Seq<Seq<InstrumentModel>> {
    v.map_values(|sf: SampleSoundfont| sf@)
}

/// Which soundfonts they are.
pub open spec fn soundfont_ids(v: Seq<SampleSoundfont>) -> Seq<u64> {
    v.map_values(|sf: SampleSoundfont| sf.id)
}

/// All soundfonts are in order.
pub open spec fn soundfonts_wf(sfs: Seq<Seq<InstrumentModel>>) -> bool {
    forall|i: int| 0 <= i < sfs.len() ==> soundfont_wf(#[trigger] sfs[i])
}

/// What sounds when a key goes down, of the first soundfont from `at` on that has
/// anything for it, and the soundfonts after it.
pub open spec fn first_attack(
    sfs: Seq<Seq<InstrumentModel>>,
    bank: u8,
    preset: u8,
    slot: int,
    at: int,
) -> (Seq<Seq<InstrumentModel>>, Seq<VoiceRef>)
    decreases sfs.len() - at,
{
    if 0 <= at < sfs.len() {
        let (sf, list) = attack_spawners(sfs[at], bank, preset, slot);
        let next = sfs.update(at, sf);
        if list.len() > 0 {
            (next, refs(at, instrument_at(sfs[at], bank, preset, 0), list))
        } else {
            first_attack(next, bank, preset, slot, at + 1)
        }
    } else {
        (sfs, Seq::empty())
    }
}

/// What sounds when a key comes up, of the first soundfont from `at` on that has
/// anything for it.
pub open spec fn first_release(
    sfs: Seq<Seq<InstrumentModel>>,
    bank: u8,
    preset: u8,
    slot: int,
    at: int,
) -> Seq<VoiceRef>
    decreases sfs.len() - at,
{
    if 0 <= at < sfs.len() {
        let list = release_spawners(sfs[at], bank, preset, slot);
        if list.len() > 0 {
            refs(at, instrument_at(sfs[at], bank, preset, 0), list)
        } else {
            first_release(sfs, bank, preset, slot, at + 1)
        }
    } else {
        Seq::empty()
    }
}

/// The program that stands in for one that no soundfont has: the first percussion
/// preset, or the same preset of the first bank.
pub open spec fn replacement(p: ProgramDescriptor) -> ProgramDescriptor {
    if p.bank == PERCUSSION_BANK {
        ProgramDescriptor { bank: p.bank, preset: 0 }
    } else {
        ProgramDescriptor { bank: 0, preset: p.preset }
    }
}

/// What a program plays when a key goes down, and the soundfonts after it.
pub open spec fn attack_cell(
    sfs: Seq<Seq<InstrumentModel>>,
    p: ProgramDescriptor,
    slot: int,
) -> (Seq<Seq<InstrumentModel>>, Seq<VoiceRef>) {
    let (next, list) = first_attack(sfs, p.bank, p.preset, slot, 0);
    if list.len() > 0 {
        (next, list)
    } else {
        first_attack(next, replacement(p).bank, replacement(p).preset, slot, 0)
    }
}

/// What a program plays when a key comes up.
pub open spec fn release_cell(
    sfs: Seq<Seq<InstrumentModel>>,
    p: ProgramDescriptor,
    slot: int,
) -> Seq<VoiceRef> {
    let list = first_release(sfs, p.bank, p.preset, slot, 0);
    if list.len() > 0 {
        list
    } else {
        first_release(sfs, replacement(p).bank, replacement(p).preset, slot, 0)
    }
}

/// What a program plays in the first `n` slots, and the soundfonts after it.
pub open spec fn rebuilt(
    sfs: Seq<Seq<InstrumentModel>>,
    p: ProgramDescriptor,
    n: int,
) -> (Seq<Seq<InstrumentModel>>, Seq<Seq<VoiceRef>>, Seq<Seq<VoiceRef>>)
    decreases n,
{
    if n <= 0 {
        (sfs, Seq::empty(), Seq::empty())
    } else {
        let (before, attack, release) = rebuilt(sfs, p, n - 1);
        let (after, list) = attack_cell(before, p, n - 1);
        (after, attack.push(list), release.push(release_cell(after, p, n - 1)))
    }
}

/// A soundfont that comes first wins: where the first soundfont has anything for a
/// program, that is what sounds.
pub proof fn first_soundfont_wins(
    sfs: Seq<Seq<InstrumentModel>>,
    p: ProgramDescriptor,
    slot: int,
)
    requires
        sfs.len() > 0,
        attack_spawners(sfs[0], p.bank, p.preset, slot).1.len() > 0,
    ensures
        attack_cell(sfs, p, slot).1 == refs(
            0,
            instrument_at(sfs[0], p.bank, p.preset, 0),
            attack_spawners(sfs[0], p.bank, p.preset, slot).1,
        ),
{
    let list = attack_spawners(sfs[0], p.bank, p.preset, slot).1;
    assert(refs(0, instrument_at(sfs[0], p.bank, p.preset, 0), list).len() == list.len());
}

/// Setting the same soundfonts once more changes nothing: regions that take turns go on
/// from where they are.
pub proof fn setting_again_changes_nothing(
    x: MatrixModel,
    held: (Seq<u64>, Seq<Seq<InstrumentModel>>),
    others: (Seq<u64>, Seq<Seq<InstrumentModel>>),
    again: (Seq<u64>, Seq<Seq<InstrumentModel>>),
)
    requires
        again.0 == others.0,
    ensures
        ({
            let (y, now) = soundfonts_set(x, held, others);
            soundfonts_set(y, (others.0, now), again) == (y, now)
        }),
{
}

/// The spawners of a channel: what its program plays for each key and velocity.
#[derive(Debug)]
pub struct ChannelSoundfont {
    pub attack: Vec<Vec<VoiceRef>>,
    pub release: Vec<Vec<VoiceRef>>,
    pub curr_program: ProgramDescriptor,
}

/// The model of the spawners of a channel.
#[verifier::ext_equal]
pub struct MatrixModel {
    pub attack: Seq<Seq<VoiceRef>>,
    pub release: Seq<Seq<VoiceRef>>,
    pub program: ProgramDescriptor,
}

impl View for ChannelSoundfont {
    type V = MatrixModel;

    open spec fn view(&self) -> MatrixModel {
        MatrixModel {
            attack: ref_lists(self.attack@),
            release: ref_lists(self.release@),
            program: self.curr_program,
        }
    }
}

/// The spawners after the program has been worked out, and the soundfonts after it.
pub open spec fn matrix_rebuilt(sfs: Seq<Seq<InstrumentModel>>, p: ProgramDescriptor) -> (
    MatrixModel,
    Seq<Seq<InstrumentModel>>,
) {
    let (after, attack, release) = rebuilt(sfs, p, SLOTS as int);
    (MatrixModel { attack, release, program: p }, after)
}

/// The spawners after a change of program, and the soundfonts after it. Changing to the
/// program that is set changes nothing.
pub open spec fn program_changed(
    x: MatrixModel,
    sfs: Seq<Seq<InstrumentModel>>,
    p: ProgramDescriptor,
) -> (MatrixModel, Seq<Seq<InstrumentModel>>) {
    if x.program == p {
        (x, sfs)
    } else {
        matrix_rebuilt(sfs, p)
    }
}

/// The spawners after soundfonts have been set, and the soundfonts after it; both lists of
/// soundfonts go with the numbers that say which they are. Setting the soundfonts that are
/// set changes nothing.
pub open spec fn soundfonts_set(
    x: MatrixModel,
    held: (Seq<u64>, Seq<Seq<InstrumentModel>>),
    others: (Seq<u64>, Seq<Seq<InstrumentModel>>),
) -> (MatrixModel, Seq<Seq<InstrumentModel>>) {
    if held.0 == others.0 {
        (x, held.1)
    } else {
        matrix_rebuilt(others.1, x.program)
    }
}

/// What sounds when a key goes down.
pub open spec fn attack_at(x: MatrixModel, key: u8, vel: u8) -> Seq<VoiceRef> {
    let slot = key * 128 + vel;
    if key < 128 && vel < 128 && slot < x.attack.len() {
        x.attack[slot]
    } else {
        Seq::empty()
    }
}

/// What sounds when a key comes up.
pub open spec fn release_at(x: MatrixModel, key: u8, vel: u8) -> Seq<VoiceRef> {
    let slot = key * 128 + vel;
    if key < 128 && vel < 128 && slot < x.release.len() {
        x.release[slot]
    } else {
        Seq::empty()
    }
}

/// The classes of what sounds when a key goes down, in order.
pub open spec fn classes_at(x: MatrixModel, key: u8, vel: u8) -> Seq<u8> {
    classes(attack_at(x, key, vel), attack_at(x, key, vel).len() as int)
}

/// Lists of lists.
pub open spec fn ref_lists(v: Seq<Vec<VoiceRef>>) -> Seq<Seq<VoiceRef>> {
    v.map_values(|l: Vec<VoiceRef>| l@)
}

fn make_refs(at: usize, instrument: usize, list: &Vec<Spawner>) -> (r: Vec<VoiceRef>)
    ensures
        r@ == refs(at as int, instrument as int, list@),
{
    let ghost all = refs(at as int, instrument as int, list@);
    let mut out: Vec<VoiceRef> = Vec::new();
    let mut i: usize = 0;
    while i < list.len()
        invariant
            i <= list.len(),
            all == refs(at as int, instrument as int, list@),
            out@ == all.take(i as int),
        decreases list.len() - i,
    {
        out.push(VoiceRef { soundfont: at, instrument, spawner: list[i] });
        i = i + 1;
        assert(out@ =~= all.take(i as int));
    }
    assert(out@ =~= all);
    out
}

/// What a matrix holds for a key and a velocity.
fn refs_at(matrix: &Vec<Vec<VoiceRef>>, key: u8, vel: u8) -> (r: Vec<VoiceRef>)
    ensures
        r@ == (if key < 128 && vel < 128 && key * 128 + vel < matrix@.len() {
            matrix@[key * 128 + vel]@
        } else {
            Seq::empty()
        }),
{
    let slot: usize = key as usize * 128 + vel as usize;
    let mut out: Vec<VoiceRef> = Vec::new();
    if key >= 128 || vel >= 128 || slot >= matrix.len() {
        return out;
    }
    let list = &matrix[slot];
    let mut i: usize = 0;
    while i < list.len()
        invariant
            i <= list.len(),
            out@ == list@.take(i as int),
        decreases list.len() - i,
    {
        out.push(list[i]);
        i = i + 1;
        assert(out@ =~= list@.take(i as int));
    }
    assert(out@ =~= list@);
    out
}

fn are_same(a: &Vec<SampleSoundfont>, b: &Vec<SampleSoundfont>) -> (r: bool)
    ensures
        r == (soundfont_ids(a@) == soundfont_ids(b@)),
{
    let ghost left = soundfont_ids(a@);
    let ghost right = soundfont_ids(b@);
    if a.len() != b.len() {
        assert(left.len() != right.len());
        return false;
    }
    let mut i: usize = 0;
    while i < a.len()
        invariant
            i <= a.len(),
            a.len() == b.len(),
            left == soundfont_ids(a@),
            right == soundfont_ids(b@),
            forall|j: int| 0 <= j < i ==> (#[trigger] left[j]) == right[j],
        decreases a.len() - i,
    {
        if a[i].id != b[i].id {
            assert(left[i as int] != right[i as int]);
            return false;
        }
        i = i + 1;
    }
    assert(left =~= right);
    true
}

fn find_attack(
    soundfonts: &mut Vec<SampleSoundfont>,
    bank: u8,
    preset: u8,
    key: u8,
    vel: u8,
) -> (r: Vec<VoiceRef>)
    requires
        soundfonts_wf(soundfont_models(old(soundfonts)@)),
        key < 128,
        vel < 128,
    ensures
        soundfonts_wf(soundfont_models(final(soundfonts)@)),
        soundfont_ids(final(soundfonts)@) == soundfont_ids(old(soundfonts)@),
        (soundfont_models(final(soundfonts)@), r@) == first_attack(
            soundfont_models(old(soundfonts)@),
            bank,
            preset,
            key * 128 + vel,
            0,
        ),
{
    let ghost goal = first_attack(soundfont_models(soundfonts@), bank, preset, key * 128 + vel, 0);
    let mut at: usize = 0;
    while at < soundfonts.len()
        invariant
            key < 128,
            vel < 128,
            at <= soundfonts.len(),
            soundfonts_wf(soundfont_models(soundfonts@)),
            soundfont_ids(soundfonts@) == soundfont_ids(old(soundfonts)@),
            goal == first_attack(
                soundfont_models(old(soundfonts)@),
                bank,
                preset,
                key * 128 + vel,
                0,
            ),
            goal == first_attack(
                soundfont_models(soundfonts@),
                bank,
                preset,
                key * 128 + vel,
                at as int,
            ),
        decreases soundfonts.len() - at,
    {
        let ghost sfs = soundfont_models(soundfonts@);
        let ghost ids = soundfont_ids(soundfonts@);
        assert(sfs[at as int] == soundfonts@[at as int]@);
        assert(soundfont_wf(sfs[at as int]));
        let instrument = soundfonts[at].find(bank, preset);
        let list = soundfonts[at].get_attack_voice_spawners_at(bank, preset, key, vel);
        let ghost next = soundfont_models(soundfonts@);
        assert(soundfont_ids(soundfonts@) =~= ids);
        assert(next =~= sfs.update(
            at as int,
            attack_spawners(sfs[at as int], bank, preset, key * 128 + vel).0,
        ));
        assert forall|i: int| 0 <= i < next.len() implies soundfont_wf(#[trigger] next[i]) by {
            if i != at {
                assert(soundfont_wf(sfs[i]));
            }
        }
        if list.len() > 0 {
            return make_refs(at, instrument, &list);
        }
        at = at + 1;
    }
    let none: Vec<VoiceRef> = Vec::new();
    assert(none@ =~= Seq::empty());
    none
}

fn find_release(
    soundfonts: &Vec<SampleSoundfont>,
    bank: u8,
    preset: u8,
    key: u8,
    vel: u8,
) -> (r: Vec<VoiceRef>)
    requires
        soundfonts_wf(soundfont_models(soundfonts@)),
        key < 128,
        vel < 128,
    ensures
        r@ == first_release(soundfont_models(soundfonts@), bank, preset, key * 128 + vel, 0),
{
    let ghost sfs = soundfont_models(soundfonts@);
    let mut at: usize = 0;
    while at < soundfonts.len()
        invariant
            key < 128,
            vel < 128,
            at <= soundfonts.len(),
            sfs == soundfont_models(soundfonts@),
            soundfonts_wf(sfs),
            first_release(sfs, bank, preset, key * 128 + vel, 0) == first_release(
                sfs,
                bank,
                preset,
                key * 128 + vel,
                at as int,
            ),
        decreases soundfonts.len() - at,
    {
        assert(sfs[at as int] == soundfonts@[at as int]@);
        assert(soundfont_wf(sfs[at as int]));
        let instrument = soundfonts[at].find(bank, preset);
        let list = soundfonts[at].get_release_voice_spawners_at(bank, preset, key, vel);
        if list.len() > 0 {
            return make_refs(at, instrument, &list);
        }
        at = at + 1;
    }
    let none: Vec<VoiceRef> = Vec::new();
    assert(none@ =~= Seq::empty());
    none
}

fn attack_of(soundfonts: &mut Vec<SampleSoundfont>, p: ProgramDescriptor, key: u8, vel: u8) -> (r:
    Vec<VoiceRef>)
    requires
        soundfonts_wf(soundfont_models(old(soundfonts)@)),
        key < 128,
        vel < 128,
    ensures
        soundfonts_wf(soundfont_models(final(soundfonts)@)),
        soundfont_ids(final(soundfonts)@) == soundfont_ids(old(soundfonts)@),
        (soundfont_models(final(soundfonts)@), r@) == attack_cell(
            soundfont_models(old(soundfonts)@),
            p,
            key * 128 + vel,
        ),
{
    let list = find_attack(soundfonts, p.bank, p.preset, key, vel);
    if list.len() > 0 {
        list
    } else if p.bank == PERCUSSION_BANK {
        find_attack(soundfonts, p.bank, 0, key, vel)
    } else {
        find_attack(soundfonts, 0, p.preset, key, vel)
    }
}

fn release_of(soundfonts: &Vec<SampleSoundfont>, p: ProgramDescriptor, key: u8, vel: u8) -> (r: Vec<
    VoiceRef,
>)
    requires
        soundfonts_wf(soundfont_models(soundfonts@)),
        key < 128,
        vel < 128,
    ensures
        r@ == release_cell(soundfont_models(soundfonts@), p, key * 128 + vel),
{
    let list = find_release(soundfonts, p.bank, p.preset, key, vel);
    if list.len() > 0 {
        list
    } else if p.bank == PERCUSSION_BANK {
        find_release(soundfonts, p.bank, 0, key, vel)
    } else {
        find_release(soundfonts, 0, p.preset, key, vel)
    }
}

impl ChannelSoundfont {
    /// A channel without soundfonts, on program 0 of bank 0.
    pub fn new() -> (r: ChannelSoundfont)
        ensures
            r@ == (MatrixModel {
                attack: Seq::empty(),
                release: Seq::empty(),
                program: ProgramDescriptor { bank: 0, preset: 0 },
            }),
    {
        let r = ChannelSoundfont {
            attack: Vec::new(),
            release: Vec::new(),
            curr_program: ProgramDescriptor::default(),
        };
        assert(r@.attack =~= Seq::empty());
        assert(r@.release =~= Seq::empty());
        r
    }

    /// Works out what the program plays. Where regions take turns, each look into a
    /// soundfont passes the turn on.
    pub fn rebuild_matrix(&mut self, soundfonts: &mut Vec<SampleSoundfont>)
        requires
            soundfonts_wf(soundfont_models(old(soundfonts)@)),
        ensures
            soundfonts_wf(soundfont_models(final(soundfonts)@)),
            soundfont_ids(final(soundfonts)@) == soundfont_ids(old(soundfonts)@),
            (final(self)@, soundfont_models(final(soundfonts)@)) == matrix_rebuilt(
                soundfont_models(old(soundfonts)@),
                old(self).curr_program,
            ),
    {
        let p = self.curr_program;
        let mut attack: Vec<Vec<VoiceRef>> = Vec::new();
        let mut release: Vec<Vec<VoiceRef>> = Vec::new();
        let mut slot: usize = 0;
        assert(ref_lists(attack@) =~= Seq::empty());
        assert(ref_lists(release@) =~= Seq::empty());
        while slot < SLOTS
            invariant
                slot <= SLOTS,
                soundfonts_wf(soundfont_models(soundfonts@)),
                soundfont_ids(soundfonts@) == soundfont_ids(old(soundfonts)@),
                (soundfont_models(soundfonts@), ref_lists(attack@), ref_lists(release@)) == rebuilt(
                    soundfont_models(old(soundfonts)@),
                    p,
                    slot as int,
                ),
            decreases SLOTS - slot,
        {
            let key: u8 = (slot / 128) as u8;
            let vel: u8 = (slot % 128) as u8;
            let ghost before = (ref_lists(attack@), ref_lists(release@));
            let down = attack_of(soundfonts, p, key, vel);
            let up = release_of(soundfonts, p, key, vel);
            let ghost added = (down@, up@);
            attack.push(down);
            release.push(up);
            assert(ref_lists(attack@) =~= before.0.push(added.0));
            assert(ref_lists(release@) =~= before.1.push(added.1));
            slot = slot + 1;
        }
        self.attack = attack;
        self.release = release;
    }

    /// Puts other soundfonts in the place of those that a channel plays. Gives the old ones
    /// back, so that they can be let go of where that may take its time. Where the others are
    /// the ones that the channel has, nothing changes, and they are given back themselves.
    pub fn set_soundfonts(
        &mut self,
        soundfonts: &mut Vec<SampleSoundfont>,
        others: Vec<SampleSoundfont>,
    ) -> (r: Vec<SampleSoundfont>)
        requires
            soundfonts_wf(soundfont_models(others@)),
        ensures
            soundfont_ids(final(soundfonts)@) == soundfont_ids(others@),
            (final(self)@, soundfont_models(final(soundfonts)@)) == soundfonts_set(
                old(self)@,
                (soundfont_ids(old(soundfonts)@), soundfont_models(old(soundfonts)@)),
                (soundfont_ids(others@), soundfont_models(others@)),
            ),
            soundfont_ids(old(soundfonts)@) == soundfont_ids(others@) ==> *final(self) == *old(self)
                && final(soundfonts)@ == old(soundfonts)@ && r@ == others@,
            soundfont_ids(old(soundfonts)@) != soundfont_ids(others@) ==> r@ == old(soundfonts)@
                && soundfonts_wf(soundfont_models(final(soundfonts)@)),
    {
        if are_same(soundfonts, &others) {
            return others;
        }
        let mut held = others;
        std::mem::swap(&mut held, soundfonts);
        self.rebuild_matrix(soundfonts);
        held
    }

    /// Changes the program. Changing it to the one that is set does nothing.
    pub fn change_program(
        &mut self,
        program: ProgramDescriptor,
        soundfonts: &mut Vec<SampleSoundfont>,
    )
        requires
            soundfonts_wf(soundfont_models(old(soundfonts)@)),
        ensures
            soundfonts_wf(soundfont_models(final(soundfonts)@)),
            soundfont_ids(final(soundfonts)@) == soundfont_ids(old(soundfonts)@),
            (final(self)@, soundfont_models(final(soundfonts)@)) == program_changed(
                old(self)@,
                soundfont_models(old(soundfonts)@),
                program,
            ),
    {
        if self.curr_program != program {
            self.curr_program = program;
            self.rebuild_matrix(soundfonts);
        }
    }

    /// The spawners of the voices that begin when a key goes down, in order.
    pub fn spawn_voices_attack(&self, key: u8, vel: u8) -> (r: Vec<VoiceRef>)
        ensures
            r@ == attack_at(self@, key, vel),
    {
        refs_at(&self.attack, key, vel)
    }

    /// The spawners of the voices that begin when a key comes up, in order.
    pub fn spawn_voices_release(&self, key: u8, vel: u8) -> (r: Vec<VoiceRef>)
        ensures
            r@ == release_at(self@, key, vel),
    {
        refs_at(&self.release, key, vel)
    }

    /// The classes of what sounds when a key goes down, in order.
    pub fn exclusive_classes_attack(&self, key: u8, vel: u8) -> (r: Vec<u8>)
        ensures
            r@ == classes_at(self@, key, vel),
    {
        let slot: usize = key as usize * 128 + vel as usize;
        let mut out: Vec<u8> = Vec::new();
        if key >= 128 || vel >= 128 || slot >= self.attack.len() {
            return out;
        }
        assert(attack_at(self@, key, vel) == self.attack@[slot as int]@);
        let list = &self.attack[slot];
        let mut i: usize = 0;
        while i < list.len()
            invariant
                i <= list.len(),
                out@ == classes(list@, i as int),
            decreases list.len() - i,
        {
            if let Some(class) = list[i].spawner.exclusive_class {
                out.push(class);
            }
            i = i + 1;
        }
        out
    }
}

/// The classes of the first `n` spawners of a list, in order.
pub open spec fn classes(list: Seq<VoiceRef>, n: int) -> Seq<u8>
    decreases n,
{
    if n <= 0 {
        Seq::empty()
    } else {
        let before = classes(list, n - 1);
        match list[n - 1].spawner.exclusive_class {
            Some(class) => before.push(class),
            None => before,
        }
    }
}

/// The spawners of the `k`th soundfont for a bank and a preset.
pub open spec fn stands_for(
    list: Seq<VoiceRef>,
    k: int,
    sf: Seq<InstrumentModel>,
    bank: u8,
    preset: u8,
    spawners: Seq<Spawner>,
) -> bool {
    &&& list.len() == spawners.len()
    &&& forall|i: int|
        0 <= i < list.len() ==> #[trigger] list[i] == (VoiceRef {
            soundfont: k as usize,
            instrument: instrument_at(sf, bank, preset, 0) as usize,
            spawner: spawners[i],
        })
}

proof fn first_release_is_found(
    sfs: Seq<Seq<InstrumentModel>>,
    bank: u8,
    preset: u8,
    slot: int,
    from: int,
    k: int,
)
    requires
        0 <= from <= k <= sfs.len(),
        forall|j: int|
            from <= j < k ==> release_spawners(#[trigger] sfs[j], bank, preset, slot).len() == 0,
        k < sfs.len() ==> release_spawners(sfs[k], bank, preset, slot).len() > 0,
    ensures
        k == sfs.len() ==> first_release(sfs, bank, preset, slot, from).len() == 0,
        k < sfs.len() ==> stands_for(
            first_release(sfs, bank, preset, slot, from),
            k,
            sfs[k],
            bank,
            preset,
            release_spawners(sfs[k], bank, preset, slot),
        ),
    decreases k - from,
{
    if from < k {
        assert(release_spawners(sfs[from], bank, preset, slot).len() == 0);
        first_release_is_found(sfs, bank, preset, slot, from + 1, k);
    }
}

/// A key that comes up plays what the first soundfont has for it that has anything: the
/// spawners of that soundfont for the program and the slot, all of them and in their order.
pub proof fn first_soundfont_wins_on_key_up(
    sfs: Seq<Seq<InstrumentModel>>,
    p: ProgramDescriptor,
    slot: int,
    k: int,
)
    requires
        0 <= k < sfs.len(),
        release_spawners(sfs[k], p.bank, p.preset, slot).len() > 0,
        forall|j: int|
            0 <= j < k ==> release_spawners(#[trigger] sfs[j], p.bank, p.preset, slot).len() == 0,
    ensures
        stands_for(
            release_cell(sfs, p, slot),
            k,
            sfs[k],
            p.bank,
            p.preset,
            release_spawners(sfs[k], p.bank, p.preset, slot),
        ),
        release_cell(sfs, p, slot) == refs(
            k,
            instrument_at(sfs[k], p.bank, p.preset, 0),
            release_spawners(sfs[k], p.bank, p.preset, slot),
        ),
{
    first_release_is_found(sfs, p.bank, p.preset, slot, 0, k);
    assert(release_cell(sfs, p, slot) =~= refs(
        k,
        instrument_at(sfs[k], p.bank, p.preset, 0),
        release_spawners(sfs[k], p.bank, p.preset, slot),
    ));
}

/// Where no soundfont has anything for the program when a key comes up, the first one counts
/// that has something for the program that stands in: the first percussion preset on a
/// percussion channel, otherwise the same preset of the first bank.
pub proof fn missing_programs_are_replaced_on_key_up(
    sfs: Seq<Seq<InstrumentModel>>,
    p: ProgramDescriptor,
    slot: int,
    k: int,
)
    requires
        0 <= k < sfs.len(),
        forall|j: int|
            0 <= j < sfs.len() ==> release_spawners(
                #[trigger] sfs[j],
                p.bank,
                p.preset,
                slot,
            ).len() == 0,
        ({
            let bank = if p.bank == 128 {
                128u8
            } else {
                0u8
            };
            let preset = if p.bank == 128 {
                0u8
            } else {
                p.preset
            };
            &&& release_spawners(sfs[k], bank, preset, slot).len() > 0
            &&& forall|j: int|
                0 <= j < k ==> release_spawners(#[trigger] sfs[j], bank, preset, slot).len() == 0
        }),
    ensures
        p.bank == 128 ==> stands_for(
            release_cell(sfs, p, slot),
            k,
            sfs[k],
            128,
            0,
            release_spawners(sfs[k], 128, 0, slot),
        ),
        p.bank != 128 ==> stands_for(
            release_cell(sfs, p, slot),
            k,
            sfs[k],
            0,
            p.preset,
            release_spawners(sfs[k], 0, p.preset, slot),
        ),
{
    first_release_is_found(sfs, p.bank, p.preset, slot, 0, sfs.len() as int);
    first_release_is_found(
        sfs,
        replacement(p).bank,
        replacement(p).preset,
        slot,
        0,
        k,
    );
}

/// A key that comes up is silent only where no soundfont has anything for it, neither for the
/// program nor for the one that stands in.
pub proof fn key_up_is_silent_for_a_reason(
    sfs: Seq<Seq<InstrumentModel>>,
    p: ProgramDescriptor,
    slot: int,
)
    ensures
        release_cell(sfs, p, slot).len() == 0 <==> forall|j: int|
            0 <= j < sfs.len() ==> {
                &&& release_spawners(#[trigger] sfs[j], p.bank, p.preset, slot).len() == 0
                &&& p.bank == 128 ==> release_spawners(sfs[j], 128, 0, slot).len() == 0
                &&& p.bank != 128 ==> release_spawners(sfs[j], 0, p.preset, slot).len() == 0
            },
{
    let silent = |q: ProgramDescriptor|
        forall|j: int|
            0 <= j < sfs.len() ==> release_spawners(
                #[trigger] sfs[j],
                q.bank,
                q.preset,
                slot,
            ).len() == 0;
    let other = replacement(p);
    if silent(p) {
        first_release_is_found(sfs, p.bank, p.preset, slot, 0, sfs.len() as int);
    } else {
        release_is_somewhere(sfs, p, slot, 0);
    }
    if silent(other) {
        first_release_is_found(sfs, other.bank, other.preset, slot, 0, sfs.len() as int);
    } else {
        release_is_somewhere(sfs, other, slot, 0);
    }
    if release_cell(sfs, p, slot).len() == 0 {
        assert(silent(p) && silent(other));
        assert forall|j: int| 0 <= j < sfs.len() implies {
            &&& release_spawners(#[trigger] sfs[j], p.bank, p.preset, slot).len() == 0
            &&& p.bank == 128 ==> release_spawners(sfs[j], 128, 0, slot).len() == 0
            &&& p.bank != 128 ==> release_spawners(sfs[j], 0, p.preset, slot).len() == 0
        } by {
            assert(release_spawners(sfs[j], other.bank, other.preset, slot).len() == 0);
        }
    }
}

proof fn release_is_somewhere(
    sfs: Seq<Seq<InstrumentModel>>,
    p: ProgramDescriptor,
    slot: int,
    from: int,
)
    requires
        0 <= from <= sfs.len(),
        exists|j: int|
            from <= j < sfs.len() && release_spawners(
                #[trigger] sfs[j],
                p.bank,
                p.preset,
                slot,
            ).len() > 0,
    ensures
        first_release(sfs, p.bank, p.preset, slot, from).len() > 0,
    decreases sfs.len() - from,
{
    if release_spawners(sfs[from], p.bank, p.preset, slot).len() == 0 {
        release_is_somewhere(sfs, p, slot, from + 1);
    }
}

proof fn first_attack_is_found(
    sfs: Seq<Seq<InstrumentModel>>,
    bank: u8,
    preset: u8,
    slot: int,
    from: int,
    k: int,
)
    requires
        0 <= from <= k <= sfs.len(),
        forall|j: int|
            from <= j < k ==> attack_spawners(#[trigger] sfs[j], bank, preset, slot).1.len() == 0,
        k < sfs.len() ==> attack_spawners(sfs[k], bank, preset, slot).1.len() > 0,
    ensures
        k == sfs.len() ==> first_attack(sfs, bank, preset, slot, from).1.len() == 0,
        k < sfs.len() ==> stands_for(
            first_attack(sfs, bank, preset, slot, from).1,
            k,
            sfs[k],
            bank,
            preset,
            attack_spawners(sfs[k], bank, preset, slot).1,
        ),
        first_attack(sfs, bank, preset, slot, from).0.len() == sfs.len(),
        forall|j: int|
            0 <= j < sfs.len() ==> #[trigger] first_attack(sfs, bank, preset, slot, from).0[j] == (
            if from <= j <= k {
                attack_spawners(sfs[j], bank, preset, slot).0
            } else {
                sfs[j]
            }),
    decreases k - from,
{
    if from < k {
        assert(attack_spawners(sfs[from], bank, preset, slot).1.len() == 0);
        let next = sfs.update(from, attack_spawners(sfs[from], bank, preset, slot).0);
        first_attack_is_found(next, bank, preset, slot, from + 1, k);
    }
}

/// A key that goes down plays what the first soundfont has for it that has anything: the
/// spawners of that soundfont for the program and the slot, all of them and in their order.
pub proof fn first_soundfont_wins_on_key_down(
    sfs: Seq<Seq<InstrumentModel>>,
    p: ProgramDescriptor,
    slot: int,
    k: int,
)
    requires
        0 <= k < sfs.len(),
        attack_spawners(sfs[k], p.bank, p.preset, slot).1.len() > 0,
        forall|j: int|
            0 <= j < k ==> attack_spawners(#[trigger] sfs[j], p.bank, p.preset, slot).1.len() == 0,
    ensures
        stands_for(
            attack_cell(sfs, p, slot).1,
            k,
            sfs[k],
            p.bank,
            p.preset,
            attack_spawners(sfs[k], p.bank, p.preset, slot).1,
        ),
        attack_cell(sfs, p, slot).0.len() == sfs.len(),
        forall|j: int|
            0 <= j < sfs.len() ==> #[trigger] attack_cell(sfs, p, slot).0[j] == (if j <= k {
                attack_spawners(sfs[j], p.bank, p.preset, slot).0
            } else {
                sfs[j]
            }),
{
    first_attack_is_found(sfs, p.bank, p.preset, slot, 0, k);
}

/// Where no soundfont has the program at all, a key that goes down plays what the first one
/// has that has something for the program that stands in: the first percussion preset on a
/// percussion channel, otherwise the same preset of the first bank.
pub proof fn missing_programs_are_replaced_on_key_down(
    sfs: Seq<Seq<InstrumentModel>>,
    p: ProgramDescriptor,
    slot: int,
    k: int,
)
    requires
        0 <= k < sfs.len(),
        forall|j: int, i: int|
            0 <= j < sfs.len() && 0 <= i < sfs[j].len() ==> (#[trigger] sfs[j][i]).bank != p.bank
                || sfs[j][i].preset != p.preset,
        ({
            let bank = if p.bank == 128 {
                128u8
            } else {
                0u8
            };
            let preset = if p.bank == 128 {
                0u8
            } else {
                p.preset
            };
            &&& attack_spawners(sfs[k], bank, preset, slot).1.len() > 0
            &&& forall|j: int|
                0 <= j < k ==> attack_spawners(#[trigger] sfs[j], bank, preset, slot).1.len() == 0
        }),
    ensures
        p.bank == 128 ==> stands_for(
            attack_cell(sfs, p, slot).1,
            k,
            sfs[k],
            128,
            0,
            attack_spawners(sfs[k], 128, 0, slot).1,
        ),
        p.bank != 128 ==> stands_for(
            attack_cell(sfs, p, slot).1,
            k,
            sfs[k],
            0,
            p.preset,
            attack_spawners(sfs[k], 0, p.preset, slot).1,
        ),
{
    assert forall|j: int| 0 <= j < sfs.len() implies attack_spawners(
        #[trigger] sfs[j],
        p.bank,
        p.preset,
        slot,
    ) == (sfs[j], Seq::<Spawner>::empty()) by {
        let sf = sfs[j];
        assert forall|i: int| 0 <= i < sf.len() implies (#[trigger] sf[i]).bank != p.bank
            || sf[i].preset != p.preset by {
            assert(sfs[j][i] == sf[i]);
        }
        crate::soundfont::instrument::programs_are_found(
            sf,
            p.bank,
            p.preset,
            slot,
            sf.len() as int,
        );
    }
    first_attack_is_found(sfs, p.bank, p.preset, slot, 0, sfs.len() as int);
    assert(first_attack(sfs, p.bank, p.preset, slot, 0).0 =~= sfs);
    first_attack_is_found(sfs, replacement(p).bank, replacement(p).preset, slot, 0, k);
}

/// Two states of the same soundfonts that agree on a slot.
spec fn agree_on(
    a: Seq<Seq<InstrumentModel>>,
    b: Seq<Seq<InstrumentModel>>,
    slot: int,
) -> bool {
    &&& a.len() == b.len()
    &&& soundfonts_wf(a)
    &&& soundfonts_wf(b)
    &&& forall|j: int| 0 <= j < a.len() ==> fonts_agree_on(#[trigger] a[j], b[j], slot)
}

spec fn fonts_agree_on(a: Seq<InstrumentModel>, b: Seq<InstrumentModel>, slot: int) -> bool {
    &&& a.len() == b.len()
    &&& forall|i: int|
        0 <= i < a.len() ==> {
            &&& (#[trigger] a[i]).bank == b[i].bank
            &&& a[i].preset == b[i].preset
            &&& a[i].attack == b[i].attack
            &&& a[i].release == b[i].release
            &&& a[i].rr[slot] == b[i].rr[slot]
        }
}

proof fn places_agree(
    a: Seq<InstrumentModel>,
    b: Seq<InstrumentModel>,
    bank: u8,
    preset: u8,
    slot: int,
    from: int,
)
    requires
        fonts_agree_on(a, b, slot),
        0 <= from <= a.len(),
    ensures
        instrument_at(a, bank, preset, from) == instrument_at(b, bank, preset, from),
        from <= instrument_at(a, bank, preset, from) <= a.len(),
    decreases a.len() - from,
{
    if from < a.len() {
        assert(a[from].bank == b[from].bank);
        if !(a[from].bank == bank && a[from].preset == preset) {
            places_agree(a, b, bank, preset, slot, from + 1);
        }
    }
}

proof fn attacks_agree(
    a: Seq<InstrumentModel>,
    b: Seq<InstrumentModel>,
    bank: u8,
    preset: u8,
    slot: int,
)
    requires
        soundfont_wf(a),
        soundfont_wf(b),
        fonts_agree_on(a, b, slot),
        0 <= slot < SLOTS,
    ensures
        attack_spawners(a, bank, preset, slot).1 == attack_spawners(b, bank, preset, slot).1,
        release_spawners(a, bank, preset, slot) == release_spawners(b, bank, preset, slot),
        fonts_agree_on(
            attack_spawners(a, bank, preset, slot).0,
            attack_spawners(b, bank, preset, slot).0,
            slot,
        ),
        soundfont_wf(attack_spawners(a, bank, preset, slot).0),
        soundfont_wf(attack_spawners(b, bank, preset, slot).0),
{
    places_agree(a, b, bank, preset, slot, 0);
    let at = instrument_at(a, bank, preset, 0);
    if at < a.len() {
        assert(a[at].bank == b[at].bank);
        striking_moves_one_turn(a, bank, preset, slot, at, slot);
        striking_moves_one_turn(b, bank, preset, slot, at, slot);
        let x = struck(a[at], slot);
        let y = struck(b[at], slot);
        assert(x.0.rr[slot] == y.0.rr[slot]);
    }
}

proof fn first_attacks_agree(
    a: Seq<Seq<InstrumentModel>>,
    b: Seq<Seq<InstrumentModel>>,
    bank: u8,
    preset: u8,
    slot: int,
    from: int,
)
    requires
        agree_on(a, b, slot),
        0 <= slot < SLOTS,
        0 <= from <= a.len(),
    ensures
        first_attack(a, bank, preset, slot, from).1 == first_attack(b, bank, preset, slot, from).1,
        first_release(a, bank, preset, slot, from) == first_release(b, bank, preset, slot, from),
        agree_on(
            first_attack(a, bank, preset, slot, from).0,
            first_attack(b, bank, preset, slot, from).0,
            slot,
        ),
    decreases a.len() - from,
{
    if from < a.len() {
        assert(fonts_agree_on(a[from], b[from], slot));
        assert(soundfont_wf(a[from]) && soundfont_wf(b[from]));
        places_agree(a[from], b[from], bank, preset, slot, 0);
        attacks_agree(a[from], b[from], bank, preset, slot);
        let x = a.update(from, attack_spawners(a[from], bank, preset, slot).0);
        let y = b.update(from, attack_spawners(b[from], bank, preset, slot).0);
        assert(agree_on(x, y, slot)) by {
            assert forall|j: int| 0 <= j < x.len() implies fonts_agree_on(
                #[trigger] x[j],
                y[j],
                slot,
            ) by {
                assert(j != from ==> fonts_agree_on(a[j], b[j], slot));
            }
        }
        first_attacks_agree(x, y, bank, preset, slot, from + 1);
        first_attacks_agree(a, b, bank, preset, slot, from + 1);
    }
}

proof fn other_slots_stay(
    a: Seq<Seq<InstrumentModel>>,
    bank: u8,
    preset: u8,
    slot: int,
    other: int,
    from: int,
)
    requires
        soundfonts_wf(a),
        0 <= slot < SLOTS,
        0 <= other < SLOTS,
        other != slot,
        0 <= from <= a.len(),
    ensures
        agree_on(first_attack(a, bank, preset, slot, from).0, a, other),
    decreases a.len() - from,
{
    if from < a.len() {
        assert(soundfont_wf(a[from]));
        let sf = attack_spawners(a[from], bank, preset, slot).0;
        let next = a.update(from, sf);
        assert(agree_on(next, a, other)) by {
            if a[from].len() > 0 {
                striking_moves_one_turn(a[from], bank, preset, slot, 0, other);
            } else {
                assert(sf =~= a[from]);
            }
            assert forall|i: int| 0 <= i < sf.len() implies {
                &&& (#[trigger] sf[i]).bank == a[from][i].bank
                &&& sf[i].preset == a[from][i].preset
                &&& sf[i].attack == a[from][i].attack
                &&& sf[i].release == a[from][i].release
                &&& sf[i].rr[other] == a[from][i].rr[other]
            } by {
                striking_moves_one_turn(a[from], bank, preset, slot, i, other);
            }
            assert(fonts_agree_on(sf, a[from], other));
        }
        other_slots_stay(next, bank, preset, slot, other, from + 1);
        let end = first_attack(next, bank, preset, slot, from + 1).0;
        assert(agree_on(end, a, other)) by {
            assert forall|j: int| 0 <= j < end.len() implies fonts_agree_on(
                #[trigger] end[j],
                a[j],
                other,
            ) by {
                assert(fonts_agree_on(end[j], next[j], other));
                assert(fonts_agree_on(next[j], a[j], other));
                let (x, y, z) = (end[j], next[j], a[j]);
                assert forall|i: int| 0 <= i < x.len() implies {
                    &&& (#[trigger] x[i]).bank == z[i].bank
                    &&& x[i].preset == z[i].preset
                    &&& x[i].attack == z[i].attack
                    &&& x[i].release == z[i].release
                    &&& x[i].rr[other] == z[i].rr[other]
                } by {
                    assert(y[i].bank == z[i].bank);
                }
            }
        }
    }
}

proof fn agreement_goes_on(
    a: Seq<Seq<InstrumentModel>>,
    b: Seq<Seq<InstrumentModel>>,
    c: Seq<Seq<InstrumentModel>>,
    slot: int,
)
    requires
        agree_on(a, b, slot),
        agree_on(b, c, slot),
    ensures
        agree_on(a, c, slot),
{
    assert forall|j: int| 0 <= j < a.len() implies fonts_agree_on(#[trigger] a[j], c[j], slot) by {
        assert(fonts_agree_on(b[j], c[j], slot));
        let (x, y, z) = (a[j], b[j], c[j]);
        assert forall|i: int| 0 <= i < x.len() implies {
            &&& (#[trigger] x[i]).bank == z[i].bank
            &&& x[i].preset == z[i].preset
            &&& x[i].attack == z[i].attack
            &&& x[i].release == z[i].release
            &&& x[i].rr[slot] == z[i].rr[slot]
        } by {
            assert(y[i].bank == z[i].bank);
        }
    }
}

proof fn releases_agree(
    a: Seq<Seq<InstrumentModel>>,
    b: Seq<Seq<InstrumentModel>>,
    bank: u8,
    preset: u8,
    slot: int,
    other: int,
    from: int,
)
    requires
        agree_on(a, b, other),
        0 <= from <= a.len(),
    ensures
        first_release(a, bank, preset, slot, from) == first_release(b, bank, preset, slot, from),
    decreases a.len() - from,
{
    if from < a.len() {
        assert(fonts_agree_on(a[from], b[from], other));
        places_agree(a[from], b[from], bank, preset, other, 0);
        let at = instrument_at(a[from], bank, preset, 0);
        if at < a[from].len() {
            assert(a[from][at].bank == b[from][at].bank);
        }
        releases_agree(a, b, bank, preset, slot, other, from + 1);
    }
}

proof fn cells_are_worked_out(
    sfs: Seq<Seq<InstrumentModel>>,
    p: ProgramDescriptor,
    n: int,
    slot: int,
)
    requires
        soundfonts_wf(sfs),
        0 <= n <= SLOTS,
        0 <= slot < SLOTS,
    ensures
        ({
            let (after, attack, release) = rebuilt(sfs, p, n);
            &&& soundfonts_wf(after)
            &&& attack.len() == n
            &&& release.len() == n
            &&& slot >= n ==> agree_on(after, sfs, slot)
            &&& slot < n ==> attack[slot] == attack_cell(sfs, p, slot).1
            &&& slot < n ==> release[slot] == release_cell(sfs, p, slot)
        }),
    decreases n,
{
    let q = replacement(p);
    if n > 0 {
        cells_are_worked_out(sfs, p, n - 1, slot);
        let (before, _, _) = rebuilt(sfs, p, n - 1);
        let middle = first_attack(before, p.bank, p.preset, n - 1, 0).0;
        let after = attack_cell(before, p, n - 1).0;
        let other = if slot == n - 1 {
            if slot == 0 {
                1
            } else {
                0
            }
        } else {
            slot
        };
        other_slots_stay(before, p.bank, p.preset, n - 1, other, 0);
        other_slots_stay(middle, q.bank, q.preset, n - 1, other, 0);
        agreement_goes_on(
            first_attack(middle, q.bank, q.preset, n - 1, 0).0,
            middle,
            before,
            other,
        );
        assert(agree_on(after, before, other));
        if slot >= n {
            agreement_goes_on(after, before, sfs, slot);
        } else if slot == n - 1 {
            first_attacks_agree(before, sfs, p.bank, p.preset, slot, 0);
            first_attacks_agree(
                middle,
                first_attack(sfs, p.bank, p.preset, slot, 0).0,
                q.bank,
                q.preset,
                slot,
                0,
            );
            releases_agree(after, before, p.bank, p.preset, slot, other, 0);
            releases_agree(after, before, q.bank, q.preset, slot, other, 0);
            releases_agree(before, sfs, p.bank, p.preset, slot, slot, 0);
            releases_agree(before, sfs, q.bank, q.preset, slot, slot, 0);
        }
    } else {
        assert(agree_on(sfs, sfs, slot));
    }
}

/// Whichever program a channel changes to, its spawners are those of that program: for each
/// key and velocity what the soundfonts have for it when the key goes down and when it comes
/// up, as if it were the only one that is worked out. A channel that has the program already
/// keeps what it has.
pub proof fn changed_programs_are_played(
    x: MatrixModel,
    sfs: Seq<Seq<InstrumentModel>>,
    p: ProgramDescriptor,
    key: u8,
    vel: u8,
)
    requires
        soundfonts_wf(sfs),
        key < 128,
        vel < 128,
    ensures
        ({
            let (y, after) = program_changed(x, sfs, p);
            &&& y.program == p
            &&& x.program == p ==> y == x && after == sfs
            &&& x.program != p ==> attack_at(y, key, vel) == attack_cell(
                sfs,
                p,
                key * 128 + vel,
            ).1
            &&& x.program != p ==> release_at(y, key, vel) == release_cell(
                sfs,
                p,
                key * 128 + vel,
            )
        }),
{
    cells_are_worked_out(sfs, p, SLOTS as int, key * 128 + vel);
}

/// Setting other soundfonts keeps the program of a channel, and its spawners are those that
/// the new soundfonts have for it.
pub proof fn new_soundfonts_are_played(
    x: MatrixModel,
    held: (Seq<u64>, Seq<Seq<InstrumentModel>>),
    others: (Seq<u64>, Seq<Seq<InstrumentModel>>),
    key: u8,
    vel: u8,
)
    requires
        soundfonts_wf(others.1),
        held.0 != others.0,
        key < 128,
        vel < 128,
    ensures
        ({
            let (y, _) = soundfonts_set(x, held, others);
            &&& y.program == x.program
            &&& attack_at(y, key, vel) == attack_cell(
                others.1,
                x.program,
                key * 128 + vel,
            ).1
            &&& release_at(y, key, vel) == release_cell(others.1, x.program, key * 128 + vel)
        }),
{
    cells_are_worked_out(others.1, x.program, SLOTS as int, key * 128 + vel);
}

/// The classes of what a key makes sound are those of its spawners, and no others.
pub proof fn classes_are_those_of_spawners(x: MatrixModel, key: u8, vel: u8, class: u8)
    ensures
        classes_at(x, key, vel).contains(class) <==> exists|i: int|
            0 <= i < attack_at(x, key, vel).len() && (#[trigger] attack_at(
                x,
                key,
                vel,
            )[i]).spawner.exclusive_class == Some(class),
{
    let list = attack_at(x, key, vel);
    classes_are_collected(list, list.len() as int, class);
}

proof fn classes_are_collected(list: Seq<VoiceRef>, n: int, class: u8)
    requires
        0 <= n <= list.len(),
    ensures
        classes(list, n).contains(class) <==> exists|i: int|
            0 <= i < n && (#[trigger] list[i]).spawner.exclusive_class == Some(class),
    decreases n,
{
    if n > 0 {
        classes_are_collected(list, n - 1, class);
        let before = classes(list, n - 1);
        let now = classes(list, n);
        if before.contains(class) {
            let j = choose|j: int| 0 <= j < before.len() && before[j] == class;
            assert(now[j] == class);
        }
        if list[n - 1].spawner.exclusive_class == Some(class) {
            assert(now[now.len() - 1] == class);
        }
        if now.contains(class) && !before.contains(class) {
            let j = choose|j: int| 0 <= j < now.len() && now[j] == class;
            if j < before.len() {
                assert(before[j] == class);
            }
        }
    }
}


/// There are 128 keys and 128 velocities; any other note has no voices and silences no class.
pub proof fn notes_out_of_range_are_silent(x: MatrixModel, key: u8, vel: u8)
    requires
        key >= 128 || vel >= 128,
    ensures
        attack_at(x, key, vel).len() == 0,
        release_at(x, key, vel).len() == 0,
        classes_at(x, key, vel).len() == 0,
{
}

} // verus!
