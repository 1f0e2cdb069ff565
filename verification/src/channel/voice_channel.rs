//! A MIDI channel: its keys, its settings and the notes that wait to be played.

use super::channel_sf::{
    attack_at, attack_cell, changed_programs_are_played, classes_are_those_of_spawners, classes_at,
    program_changed, release_at, release_cell, soundfont_ids, soundfont_models, soundfonts_set,
    soundfonts_wf, ChannelSoundfont, MatrixModel,
};
use super::event::{ChannelAudioEvent, ChannelConfigEvent, ChannelEvent, ControlEvent, KeyNoteEvent};
use super::key::{event_sent, still_sounding, wrapped, KeyAction, KeyData};
use super::params::{
    configured, program_wf, seven_bits, ProgramDescriptor, VoiceChannelParams,
};
use super::voice_buffer::{
    damper_set, dropped_note_is_gone, group_dropped, groups, limit_is_kept, load, members_of,
    models, pushed, signalled_where, BufferModel, ChannelInitOptions, Member,
};
use crate::soundfont::instrument::{InstrumentModel, SampleSoundfont};
use crate::voice::{new_cc_state, CcState, ReleaseType, Voice, VoiceModel};
use crate::AudioStreamParams;
use vstd::prelude::*;

verus! {

/// How many keys a channel has.
pub const KEYS: usize = 128;

/// A key with the events that wait for it.
#[derive(Debug)]
pub struct Key<V> {
    pub data: KeyData<V>,
    pub event_cache: Vec<KeyNoteEvent>,
}

/// The model of a key.
#[verifier::ext_equal]
pub struct KeyModel {
    pub voices: BufferModel,
    pub last: int,
    pub events: Seq<KeyNoteEvent>,
}

impl<V: Voice> View for Key<V> {
    type V = KeyModel;

    open spec fn view(&self) -> KeyModel {
        KeyModel {
            voices: self.data.voices@,
            last: self.data.last_voice_count as int,
            events: self.event_cache@,
        }
    }
}

/// A MIDI channel.
#[derive(Debug)]
pub struct VoiceChannel<V> {
    pub key_voices: Vec<Key<V>>,
    pub params: VoiceChannelParams,
    pub channel_sf: ChannelSoundfont,
    pub cc_state: CcState,
    pub options: ChannelInitOptions,
    /// The number of the next note.
    pub group_id: u64,
}

/// The model of a channel.
#[verifier::ext_equal]
pub struct ChannelModel {
    pub keys: Seq<KeyModel>,
    pub params: VoiceChannelParams,
    pub cc: Seq<u8>,
    pub fade: bool,
    pub group_id: u64,
}

/// The models of keys.
pub open spec fn key_models<V: Voice>(keys: Seq<Key<V>>) -> Seq<KeyModel> {
    keys.map_values(|k: Key<V>| k@)
}

impl<V: Voice> View for VoiceChannel<V> {
    type V = ChannelModel;

    open spec fn view(&self) -> ChannelModel {
        ChannelModel {
            keys: key_models(self.key_voices@),
            params: self.params,
            cc: self.cc_state@,
            fade: self.options.fade_out_killing,
            group_id: self.group_id,
        }
    }
}

/// The voices of a new note. Those that a release made sound do not wait for their key to
/// come up any more.
pub open spec fn triggered(voices: Seq<VoiceModel>, release_triggered: bool) -> Seq<VoiceModel> {
    if release_triggered {
        voices.map_values(|v: VoiceModel| VoiceModel { releasing: true, ..v })
    } else {
        voices
    }
}

/// A channel after a key has got the voices of a new note.
pub open spec fn voices_added(
    m: ChannelModel,
    key: int,
    voices: Seq<VoiceModel>,
    release_triggered: bool,
) -> ChannelModel {
    ChannelModel {
        keys: m.keys.update(
            key,
            KeyModel {
                voices: pushed(
                    m.keys[key].voices,
                    m.group_id,
                    triggered(voices, release_triggered),
                    m.params.layers,
                    m.fade,
                ),
                ..m.keys[key]
            },
        ),
        group_id: if m.group_id == u64::MAX {
            0
        } else {
            (m.group_id + 1) as u64
        },
        ..m
    }
}

/// The numbers of voices that keys had when they were last rendered, together.
pub open spec fn voices_rendered(keys: Seq<KeyModel>) -> int
    decreases keys.len(),
{
    if keys.len() == 0 {
        0
    } else {
        voices_rendered(keys.drop_last()) + keys.last().last
    }
}

impl<V: Voice> VoiceChannel<V> {
    /// The channel has all its keys, each with its number, which all kill voices in the same
    /// way.
    pub open spec fn wf(&self) -> bool {
        &&& self.key_voices.len() == KEYS
        &&& program_wf(self.params.program)
        &&& forall|k: int|
            0 <= k < KEYS ==> (#[trigger] self.key_voices@[k]).data.voices.options == self.options
                && self.key_voices@[k].data.key == k
    }
}

/// A key with one more event.
pub open spec fn event_waits(k: KeyModel, event: KeyNoteEvent) -> KeyModel {
    KeyModel { events: k.events.push(event), ..k }
}

/// A key without the voices of classes.
pub open spec fn classes_killed(k: KeyModel, list: Seq<u8>) -> KeyModel {
    KeyModel {
        voices: BufferModel {
            members: signalled_where(
                k.voices.members,
                |i: int|
                    k.voices.members[i].voice.exclusive_class is Some && list.contains(
                        k.voices.members[i].voice.exclusive_class->0,
                    ),
                ReleaseType::Kill,
            ),
            ..k.voices
        },
        ..k
    }
}

/// What the caller has to do about an event that is not about notes.
#[derive(Debug, Clone, Copy, PartialEq, Eq, Structural)]
pub enum ChannelEffect {
    Nothing,
    /// Set everything that controllers move to its default.
    ResetControl,
    /// Act on a controller.
    Control(ControlEvent),
    /// Set everything that controllers move, and the program, to its default.
    SystemReset,
}

/// The controllers after one has moved.
pub open spec fn controller_moved(cc: Seq<u8>, event: ControlEvent) -> Seq<u8> {
    match event {
        ControlEvent::Raw(n, v) => if n < 128 {
            cc.update(n as int, v)
        } else {
            cc
        },
    }
}

/// The channel after an event about notes or controllers, and what is left to do about
/// it. `struck` are the classes of what a struck key makes sound: all other voices of
/// those classes have to fall silent.
pub open spec fn audio_event_taken(
    m: ChannelModel,
    event: ChannelAudioEvent,
    struck: Seq<u8>,
) -> (ChannelModel, ChannelEffect) {
    match event {
        ChannelAudioEvent::NoteOn { key, vel } => {
            let silenced = m.keys.map_values(|k: KeyModel| classes_killed(k, struck));
            (
                ChannelModel {
                    keys: if key < silenced.len() {
                        silenced.update(
                            key as int,
                            event_waits(silenced[key as int], KeyNoteEvent::On(vel)),
                        )
                    } else {
                        silenced
                    },
                    ..m
                },
                ChannelEffect::Nothing,
            )
        },
        ChannelAudioEvent::NoteOff { key } => (
            ChannelModel {
                keys: if key < m.keys.len() {
                    m.keys.update(
                        key as int,
                        event_waits(m.keys[key as int], KeyNoteEvent::Off),
                    )
                } else {
                    m.keys
                },
                ..m
            },
            ChannelEffect::Nothing,
        ),
        ChannelAudioEvent::AllNotesOff => (
            ChannelModel {
                keys: m.keys.map_values(|k: KeyModel| event_waits(k, KeyNoteEvent::AllOff)),
                ..m
            },
            ChannelEffect::Nothing,
        ),
        ChannelAudioEvent::AllNotesKilled => (
            ChannelModel {
                keys: m.keys.map_values(|k: KeyModel| event_waits(k, KeyNoteEvent::AllKilled)),
                ..m
            },
            ChannelEffect::Nothing,
        ),
        ChannelAudioEvent::ResetControl => (
            ChannelModel { cc: Seq::new(128, |i: int| 0u8), ..m },
            ChannelEffect::ResetControl,
        ),
        ChannelAudioEvent::Control(control) => (
            ChannelModel { cc: controller_moved(m.cc, control), ..m },
            ChannelEffect::Control(control),
        ),
        ChannelAudioEvent::ProgramChange(preset) => (
            ChannelModel {
                params: VoiceChannelParams {
                    program: ProgramDescriptor {
                        preset: seven_bits(preset),
                        ..m.params.program
                    },
                    ..m.params
                },
                ..m
            },
            ChannelEffect::Nothing,
        ),
        ChannelAudioEvent::SystemReset => (
            ChannelModel {
                keys: m.keys.map_values(
                    |k: KeyModel| KeyModel { events: seq![KeyNoteEvent::AllKilled], ..k },
                ),
                cc: Seq::new(128, |i: int| 0u8),
                ..m
            },
            ChannelEffect::SystemReset,
        ),
    }
}

/// The classes of what a struck key makes sound; none for other events.
pub open spec fn classes_struck(x: MatrixModel, event: ChannelAudioEvent) -> Seq<u8> {
    match event {
        ChannelAudioEvent::NoteOn { key, vel } => classes_at(x, key, vel),
        _ => Seq::empty(),
    }
}

/// A channel, its spawners and its soundfonts.
pub type WholeChannel = (ChannelModel, MatrixModel, Seq<Seq<InstrumentModel>>);

/// A channel, its spawners and its soundfonts after an event, and what is left to do
/// about it. Only a change between percussion and other patches works the spawners out
/// at once; other changes of program wait until the channel is rendered.
pub open spec fn event_taken(
    w: WholeChannel,
    event: ChannelEvent,
) -> (WholeChannel, ChannelEffect) {
    let (m, x, sfs) = w;
    match event {
        ChannelEvent::Audio(audio) => {
            let (next, effect) = audio_event_taken(m, audio, classes_struck(x, audio));
            ((next, x, sfs), effect)
        },
        ChannelEvent::Config(config) => {
            let params = configured(m.params, config);
            let next = ChannelModel { params, ..m };
            if config is SetPercussionMode {
                let (y, after) = program_changed(x, sfs, params.program);
                ((next, y, after), ChannelEffect::Nothing)
            } else {
                ((next, x, sfs), ChannelEffect::Nothing)
            }
        },
    }
}

/// A channel, its spawners and its soundfonts after the first `n` events of a row, and
/// what is left to do about each of them.
pub open spec fn events_taken(w: WholeChannel, events: Seq<ChannelEvent>, n: int) -> (
    WholeChannel,
    Seq<ChannelEffect>,
)
    decreases n,
{
    if n <= 0 {
        (w, Seq::empty())
    } else {
        let (before, effects) = events_taken(w, events, n - 1);
        let (after, effect) = event_taken(before, events[n - 1]);
        (after, effects.push(effect))
    }
}

/// How many of the first events of a key are played while `budget` more notes may
/// start, and what is left of the budget. The events after the first note that must
/// wait, wait too.
pub open spec fn drained(events: Seq<KeyNoteEvent>, budget: int, at: int) -> (int, int)
    decreases events.len() - at,
{
    if !(0 <= at < events.len()) {
        (at, budget)
    } else if events[at] is On {
        if budget <= 0 {
            (at, budget)
        } else {
            drained(events, budget - 1, at + 1)
        }
    } else {
        drained(events, budget, at + 1)
    }
}

/// How many notes are among events.
pub open spec fn note_ons(events: Seq<KeyNoteEvent>) -> int
    decreases events.len(),
{
    if events.len() == 0 {
        0
    } else {
        note_ons(events.drop_last()) + if events.last() is On {
            1int
        } else {
            0
        }
    }
}

/// Of the events that are played, no more start notes than the budget allows, each of
/// them takes one from the budget, and all events are played while the budget lasts.
pub proof fn budget_is_kept(events: Seq<KeyNoteEvent>, budget: int, at: int)
    requires
        0 <= at <= events.len(),
        0 <= budget,
    ensures
        ({
            let (n, left) = drained(events, budget, at);
            &&& at <= n <= events.len()
            &&& 0 <= left <= budget
            &&& note_ons(events.take(n)) - note_ons(events.take(at)) == budget - left
            &&& left > 0 ==> n == events.len()
            &&& n < events.len() ==> events[n] is On && left == 0
        }),
    decreases events.len() - at,
{
    if at < events.len() {
        assert(events.take(at + 1).drop_last() =~= events.take(at));
        if events[at] is On {
            if budget > 0 {
                budget_is_kept(events, budget - 1, at + 1);
            }
        } else {
            budget_is_kept(events, budget, at + 1);
        }
    }
}

/// The keys after the first `n` of them have handed over the events that they play in a
/// block, the events of each, and how many more notes may start.
pub open spec fn keys_planned(keys: Seq<KeyModel>, budget: Option<int>, n: int) -> (
    Seq<KeyModel>,
    Seq<Seq<KeyNoteEvent>>,
    Option<int>,
)
    decreases n,
{
    if n <= 0 {
        (keys, Seq::empty(), budget)
    } else {
        let (before, lists, left) = keys_planned(keys, budget, n - 1);
        let events = before[n - 1].events;
        let (played, rest) = match left {
            Some(b) => drained(events, b, 0),
            None => (events.len() as int, 0),
        };
        (
            before.update(n - 1, KeyModel { events: events.skip(played), ..before[n - 1] }),
            lists.push(events.take(played)),
            match left {
                Some(_) => Some(rest),
                None => None,
            },
        )
    }
}

/// How many notes are among the events of several keys.
pub open spec fn notes_in(lists: Seq<Seq<KeyNoteEvent>>) -> int
    decreases lists.len(),
{
    if lists.len() == 0 {
        0
    } else {
        notes_in(lists.drop_last()) + note_ons(lists.last())
    }
}

/// How many notes may start in a block.
pub open spec fn burst_budget(params: VoiceChannelParams) -> Option<int> {
    match params.spawn_burst_limit {
        Some(n) => Some(n as int),
        None => None,
    }
}

/// The events of several keys.
pub open spec fn event_lists(v: Seq<Vec<KeyNoteEvent>>) -> Seq<Seq<KeyNoteEvent>> {
    v.map_values(|l: Vec<KeyNoteEvent>| l@)
}

/// No more notes start in a block than may start, over all keys together. What a key does
/// not play in a block waits in its order, so that nothing is lost and nothing overtakes;
/// and without a limit everything is played.
pub proof fn bursts_are_bounded(keys: Seq<KeyModel>, budget: Option<int>, n: int)
    requires
        0 <= n <= keys.len(),
        budget matches Some(b) ==> 0 <= b,
    ensures
        ({
            let (after, lists, left) = keys_planned(keys, budget, n);
            &&& after.len() == keys.len()
            &&& lists.len() == n
            &&& left is Some <==> budget is Some
            &&& left matches Some(l) ==> 0 <= l && notes_in(lists) + l == budget->0
            &&& forall|k: int|
                0 <= k < n ==> (#[trigger] lists[k]) + after[k].events == keys[k].events
            &&& forall|k: int|
                0 <= k < keys.len() ==> (#[trigger] after[k]).voices == keys[k].voices
                    && after[k].last == keys[k].last
            &&& forall|k: int| n <= k < keys.len() ==> #[trigger] after[k] == keys[k]
            &&& budget is None ==> forall|k: int|
                0 <= k < n ==> (#[trigger] lists[k]) == keys[k].events
        }),
    decreases n,
{
    if n > 0 {
        bursts_are_bounded(keys, budget, n - 1);
        let (before, lists, left) = keys_planned(keys, budget, n - 1);
        let (after, more, rest) = keys_planned(keys, budget, n);
        let events = before[n - 1].events;
        if let Some(l) = left {
            budget_is_kept(events, l, 0);
            assert(events.take(0) =~= Seq::empty());
        }
        assert(more.drop_last() =~= lists);
        assert forall|k: int| 0 <= k < n implies (#[trigger] more[k]) + after[k].events
            == keys[k].events by {
            if k < n - 1 {
                assert(more[k] == lists[k]);
                assert(after[k] == before[k]);
            } else {
                assert(more[k] + after[k].events =~= events);
            }
        }
        if budget is None {
            assert forall|k: int| 0 <= k < n implies (#[trigger] more[k]) == keys[k].events by {
                if k < n - 1 {
                    assert(more[k] == lists[k]);
                } else {
                    assert(more[k] =~= events);
                }
            }
        }
    }
}

/// How many notes wait on the first `n` keys.
pub open spec fn notes_waiting(keys: Seq<KeyModel>, n: int) -> int
    decreases n,
{
    if n <= 0 {
        0
    } else {
        notes_waiting(keys, n - 1) + note_ons(keys[n - 1].events)
    }
}

/// How many of the notes that wait are expected to start in the next block, where at
/// most `limit` may.
pub open spec fn notes_expected(keys: Seq<KeyModel>, limit: int) -> int {
    if notes_waiting(keys, keys.len() as int) < limit {
        notes_waiting(keys, keys.len() as int)
    } else {
        limit
    }
}

/// A note of a channel: its key, its number, and whether all its voices are on their
/// way out.
#[derive(Debug, Clone, Copy, PartialEq, Eq, Structural)]
pub struct NoteGroup {
    pub key: usize,
    pub id: u64,
    pub releasing: bool,
}

/// The notes of a key.
pub open spec fn notes_of_key(k: KeyModel, key: int) -> Seq<NoteGroup> {
    groups(k.voices.members, k.voices.members.len() as int).map_values(
        |g: (u64, bool)| NoteGroup { key: key as usize, id: g.0, releasing: g.1 },
    )
}

/// The notes of the first `n` keys.
pub open spec fn notes_of(keys: Seq<KeyModel>, n: int) -> Seq<NoteGroup>
    decreases n,
{
    if n <= 0 {
        Seq::empty()
    } else {
        notes_of(keys, n - 1) + notes_of_key(keys[n - 1], n - 1)
    }
}

/// Note `a` is dropped no later than note `b`: notes on their way out go first, and
/// among equals the older one does.
pub open spec fn goes_first(a: NoteGroup, b: NoteGroup) -> bool {
    if a.releasing != b.releasing {
        a.releasing
    } else {
        a.id <= b.id
    }
}

/// Notes in the order in which they are dropped, with one more put in its place, behind
/// all that go no later.
pub open spec fn queued(list: Seq<NoteGroup>, note: NoteGroup) -> Seq<NoteGroup>
    decreases list.len(),
{
    if list.len() == 0 || goes_first(list.last(), note) {
        list.push(note)
    } else {
        queued(list.drop_last(), note).push(list.last())
    }
}

/// The first `n` notes in the order in which they are dropped.
pub open spec fn drop_order(list: Seq<NoteGroup>, n: int) -> Seq<NoteGroup>
    decreases n,
{
    if n <= 0 {
        Seq::empty()
    } else {
        queued(drop_order(list, n - 1), list[n - 1])
    }
}

/// How many notes have to go so that `sounding` notes and `expected` more stay within
/// `cap`.
pub open spec fn notes_over(sounding: int, expected: int, cap: int) -> int {
    if sounding + expected <= cap {
        0
    } else if sounding + expected - cap < sounding {
        sounding + expected - cap
    } else {
        sounding
    }
}

/// The keys after the first `n` notes of a list have been dropped.
pub open spec fn notes_dropped(keys: Seq<KeyModel>, list: Seq<NoteGroup>, n: int) -> Seq<KeyModel>
    decreases n,
{
    if n <= 0 {
        keys
    } else {
        let before = notes_dropped(keys, list, n - 1);
        let note = list[n - 1];
        if note.key < before.len() {
            before.update(
                note.key as int,
                KeyModel {
                    voices: group_dropped(before[note.key as int].voices, note.id),
                    ..before[note.key as int]
                },
            )
        } else {
            before
        }
    }
}

/// The channel after notes have been dropped to make room for those that are expected.
pub open spec fn cap_enforced(m: ChannelModel) -> ChannelModel {
    match m.params.polyphony_cap {
        None => m,
        Some(cap) => {
            let notes = notes_of(m.keys, m.keys.len() as int);
            let limit = match m.params.spawn_burst_limit {
                Some(n) => n,
                None => usize::MAX,
            };
            let over = notes_over(
                notes.len() as int,
                notes_expected(m.keys, limit as int),
                cap as int,
            );
            ChannelModel {
                keys: notes_dropped(m.keys, drop_order(notes, notes.len() as int), over),
                ..m
            }
        },
    }
}

/// The notes stand in the order in which they are dropped.
pub open spec fn in_drop_order(list: Seq<NoteGroup>) -> bool {
    forall|i: int, j: int|
        0 <= i < j < list.len() ==> goes_first(#[trigger] list[i], #[trigger] list[j])
}

proof fn queued_keeps_order(list: Seq<NoteGroup>, note: NoteGroup)
    requires
        in_drop_order(list),
    ensures
        in_drop_order(queued(list, note)),
        queued(list, note).len() == list.len() + 1,
        queued(list, note).to_multiset() == list.to_multiset().insert(note),
        forall|x: NoteGroup|
            goes_first(note, x) && (forall|i: int|
                0 <= i < list.len() ==> goes_first(#[trigger] list[i], x)) ==> forall|i: int|
                0 <= i < queued(list, note).len() ==> goes_first(
                    #[trigger] queued(list, note)[i],
                    x,
                ),
    decreases list.len(),
{
    broadcast use vstd::seq_lib::group_to_multiset_ensures;

    if list.len() == 0 || goes_first(list.last(), note) {
        let next = list.push(note);
        assert forall|i: int, j: int| 0 <= i < j < next.len() implies goes_first(
            #[trigger] next[i],
            #[trigger] next[j],
        ) by {
            if j == list.len() && i < list.len() - 1 {
                assert(goes_first(list[i], list[list.len() - 1]));
            }
        }
    } else {
        let rest = list.drop_last();
        let last = list.last();
        assert forall|i: int, j: int| 0 <= i < j < rest.len() implies goes_first(
            #[trigger] rest[i],
            #[trigger] rest[j],
        ) by {
            assert(goes_first(list[i], list[j]));
        }
        queued_keeps_order(rest, note);
        let inner = queued(rest, note);
        assert(goes_first(note, last));
        assert forall|i: int| 0 <= i < rest.len() implies goes_first(#[trigger] rest[i], last) by {
            assert(goes_first(list[i], list[list.len() - 1]));
        }
        let next = inner.push(last);
        assert forall|i: int, j: int| 0 <= i < j < next.len() implies goes_first(
            #[trigger] next[i],
            #[trigger] next[j],
        ) by {
            if j == inner.len() {
                assert(goes_first(inner[i], last));
            }
        }
        assert(rest.push(last) =~= list);
        assert(list.to_multiset() =~= rest.to_multiset().insert(last));
        assert(next.to_multiset() =~= inner.to_multiset().insert(last));
        assert(next.to_multiset() =~= list.to_multiset().insert(note));
        assert forall|x: NoteGroup|
            goes_first(note, x) && (forall|i: int|
                0 <= i < list.len() ==> goes_first(#[trigger] list[i], x)) implies forall|i: int|
            0 <= i < next.len() ==> goes_first(#[trigger] next[i], x) by {
            assert forall|i: int| 0 <= i < rest.len() implies goes_first(#[trigger] rest[i], x) by {
                assert(goes_first(list[i], x));
            }
            assert(goes_first(list[list.len() - 1], x));
        }
    }
}

/// The order in which notes are dropped holds the same notes, those on their way out
/// before the others, and the older before the younger.
pub proof fn drop_order_is_right(list: Seq<NoteGroup>, n: int)
    requires
        0 <= n <= list.len(),
    ensures
        in_drop_order(drop_order(list, n)),
        drop_order(list, n).len() == n,
        drop_order(list, n).to_multiset() == list.take(n).to_multiset(),
    decreases n,
{
    broadcast use vstd::seq_lib::group_to_multiset_ensures;

    if n > 0 {
        drop_order_is_right(list, n - 1);
        queued_keeps_order(drop_order(list, n - 1), list[n - 1]);
        assert(list.take(n) =~= list.take(n - 1).push(list[n - 1]));
    } else {
        assert(drop_order(list, n) =~= list.take(n));
    }
}

/// The note is in the list.
pub open spec fn lists_note(list: Seq<NoteGroup>, key: int, id: u64) -> bool {
    exists|i: int| 0 <= i < list.len() && (#[trigger] list[i]).key == key && list[i].id == id
}

/// How many notes go when the cap of a channel is enforced.
pub open spec fn notes_to_drop(m: ChannelModel) -> int {
    match m.params.polyphony_cap {
        None => 0,
        Some(cap) => notes_over(
            notes_of(m.keys, m.keys.len() as int).len() as int,
            notes_expected(
                m.keys,
                match m.params.spawn_burst_limit {
                    Some(n) => n as int,
                    None => usize::MAX as int,
                },
            ),
            cap as int,
        ),
    }
}

/// The cap of a channel is kept: once it has been enforced, every voice that is not being
/// killed belongs to one of the notes that stay, and these are so few that with the notes
/// expected in the next block there are no more than the cap allows. (Where more notes
/// are expected than the cap allows, none stays.) The notes that stay are the last ones in
/// the order in which notes go.
pub proof fn cap_is_kept(m: ChannelModel, cap: usize)
    requires
        m.params.polyphony_cap == Some(cap),
        m.keys.len() == KEYS,
    ensures
        ({
            let notes = notes_of(m.keys, m.keys.len() as int);
            let order = drop_order(notes, notes.len() as int);
            let stay = order.skip(notes_to_drop(m));
            let expected = notes_expected(
                m.keys,
                match m.params.spawn_burst_limit {
                    Some(n) => n as int,
                    None => usize::MAX as int,
                },
            );
            let after = cap_enforced(m);
            &&& 0 <= notes_to_drop(m) <= notes.len()
            &&& in_drop_order(order)
            &&& order.to_multiset() == notes.to_multiset()
            &&& expected <= cap ==> stay.len() + expected <= cap
            &&& expected > cap ==> stay.len() == 0
            &&& forall|k: int, j: int|
                0 <= k < KEYS && 0 <= j < after.keys[k].voices.members.len()
                    && !(#[trigger] after.keys[k].voices.members[j]).voice.killed ==> lists_note(
                    stay,
                    k,
                    after.keys[k].voices.members[j].id,
                )
        }),
{
    let notes = notes_of(m.keys, m.keys.len() as int);
    let n = notes.len() as int;
    let order = drop_order(notes, n);
    let over = notes_to_drop(m);
    waiting_is_counted(m.keys, m.keys.len() as int);
    drop_order_is_right(notes, n);
    assert(notes.take(n) =~= notes);
    let after = cap_enforced(m);
    dropped_notes_are_killed(m.keys, order, over);
    assert forall|k: int, j: int|
        0 <= k < KEYS && 0 <= j < after.keys[k].voices.members.len() && !(
        #[trigger] after.keys[k].voices.members[j]).voice.killed implies lists_note(
        order.skip(over),
        k,
        after.keys[k].voices.members[j].id,
    ) by {
        let id = after.keys[k].voices.members[j].id;
        assert(m.keys[k].voices.members[j].id == id);
        voices_belong_to_notes(m.keys, m.keys.len() as int, k, j);
        let at = choose|i: int| 0 <= i < n && (#[trigger] notes[i]).key == k && notes[i].id == id;
        let note = notes[at];
        broadcast use vstd::seq_lib::group_to_multiset_ensures;

        assert(notes.contains(note));
        assert(notes.to_multiset().count(note) > 0);
        assert(order.contains(note));
        let i = choose|i: int| 0 <= i < order.len() && order[i] == note;
        if i < over {
            assert(after.keys[k].voices.members[j].voice.killed);
        }
        let stay = order.skip(over);
        assert(stay[i - over].key == k && stay[i - over].id == id);
    }
}

proof fn waiting_is_counted(keys: Seq<KeyModel>, n: int)
    ensures
        0 <= notes_waiting(keys, n),
    decreases n,
{
    if n > 0 {
        waiting_is_counted(keys, n - 1);
        note_ons_are_counted(keys[n - 1].events);
    }
}

proof fn note_ons_are_counted(events: Seq<KeyNoteEvent>)
    ensures
        0 <= note_ons(events),
    decreases events.len(),
{
    if events.len() > 0 {
        note_ons_are_counted(events.drop_last());
    }
}

proof fn dropped_notes_are_killed(keys: Seq<KeyModel>, list: Seq<NoteGroup>, n: int)
    requires
        0 <= n <= list.len(),
    ensures
        ({
            let after = notes_dropped(keys, list, n);
            &&& after.len() == keys.len()
            &&& forall|k: int|
                0 <= k < keys.len() ==> (#[trigger] after[k]).voices.members.len()
                    == keys[k].voices.members.len()
            &&& forall|k: int, j: int|
                0 <= k < keys.len() && 0 <= j < keys[k].voices.members.len() ==> (
                #[trigger] after[k].voices.members[j]).id == keys[k].voices.members[j].id
            &&& forall|k: int, j: int, i: int|
                0 <= k < keys.len() && 0 <= j < keys[k].voices.members.len() && 0 <= i < n
                    && list[i].key == k && list[i].id == keys[k].voices.members[j].id ==> (
                #[trigger] after[k].voices.members[j]).voice.killed && #[trigger] list[i] == list[i]
        }),
    decreases n,
{
    if n > 0 {
        dropped_notes_are_killed(keys, list, n - 1);
        let before = notes_dropped(keys, list, n - 1);
        let after = notes_dropped(keys, list, n);
        let note = list[n - 1];
        if note.key < before.len() {
            dropped_note_is_gone(before[note.key as int].voices, note.id);
        }
        assert forall|k: int, j: int, i: int|
            0 <= k < keys.len() && 0 <= j < keys[k].voices.members.len() && 0 <= i < n
                && list[i].key == k && list[i].id == keys[k].voices.members[j].id implies (
        #[trigger] after[k].voices.members[j]).voice.killed && #[trigger] list[i] == list[i] by {
            assert(before[k].voices.members[j].id == keys[k].voices.members[j].id);
            if i < n - 1 {
                assert(list[i] == list[i]);
                assert(before[k].voices.members[j].voice.killed);
            }
        }
    }
}

proof fn voices_belong_to_groups(members: Seq<Member>, n: int, j: int)
    requires
        0 <= j < n <= members.len(),
    ensures
        exists|i: int|
            0 <= i < groups(members, n).len() && (#[trigger] groups(members, n)[i]).0
                == members[j].id,
    decreases n,
{
    let before = groups(members, n - 1);
    let now = groups(members, n);
    if j == n - 1 {
        assert(now[now.len() - 1].0 == members[j].id);
    } else {
        voices_belong_to_groups(members, n - 1, j);
        let i = choose|i: int| 0 <= i < before.len() && (#[trigger] before[i]).0 == members[j].id;
        assert(now[i].0 == members[j].id);
    }
}

proof fn voices_belong_to_notes(keys: Seq<KeyModel>, n: int, k: int, j: int)
    requires
        0 <= k < n <= keys.len() <= usize::MAX,
        0 <= j < keys[k].voices.members.len(),
    ensures
        exists|i: int|
            0 <= i < notes_of(keys, n).len() && (#[trigger] notes_of(keys, n)[i]).key == k
                && notes_of(keys, n)[i].id == keys[k].voices.members[j].id,
    decreases n,
{
    let before = notes_of(keys, n - 1);
    let now = notes_of(keys, n);
    let id = keys[k].voices.members[j].id;
    if k == n - 1 {
        let members = keys[k].voices.members;
        let all = groups(members, members.len() as int);
        voices_belong_to_groups(members, members.len() as int, j);
        let i = choose|i: int| 0 <= i < all.len() && (#[trigger] all[i]).0 == id;
        assert(notes_of_key(keys[k], k)[i].id == id);
        assert(now[before.len() + i].key == k && now[before.len() + i].id == id);
    } else {
        voices_belong_to_notes(keys, n - 1, k, j);
        let i = choose|i: int|
            0 <= i < before.len() && (#[trigger] before[i]).key == k && before[i].id == id;
        assert(now[i].key == k && now[i].id == id);
    }
}

/// A struck note silences the voices of its classes on all keys, and no other voice.
pub proof fn struck_classes_fall_silent(
    m: ChannelModel,
    key: u8,
    vel: u8,
    struck: Seq<u8>,
    k: int,
    j: int,
)
    requires
        0 <= k < m.keys.len(),
        0 <= j < m.keys[k].voices.members.len(),
    ensures
        ({
            let before = m.keys[k].voices.members[j];
            let event = ChannelAudioEvent::NoteOn { key, vel };
            let after = audio_event_taken(m, event, struck).0.keys[k].voices.members[j];
            let chosen = before.voice.exclusive_class matches Some(c) && struck.contains(c);
            &&& after.id == before.id
            &&& chosen ==> after.voice.killed
            &&& !chosen ==> after == before
        }),
{
}

impl<V: Voice> Key<V> {
    /// Kills the voices of classes.
    fn kill_classes(&mut self, list: &Vec<u8>)
        ensures
            final(self)@ == classes_killed(old(self)@, list@),
            final(self).data.voices.options == old(self).data.voices.options,
            final(self).data.key == old(self).data.key,
    {
        let ghost k = self@;
        let ghost members = k.voices.members;
        let mut n: usize = 0;
        assert(self@ =~= classes_killed(k, list@.take(0)));
        while n < list.len()
            invariant
                n <= list.len(),
                k == old(self)@,
                members == k.voices.members,
                self@ == classes_killed(k, list@.take(n as int)),
                self.data.voices.options == old(self).data.voices.options,
                self.data.key == old(self).data.key,
            decreases list.len() - n,
        {
            let ghost now = self@.voices.members;
            let class = list[n];
            self.data.voices.kill_by_exclusive_class(class);
            let ghost more = list@.take(n + 1);
            assert(more =~= list@.take(n as int).push(class));
            assert forall|i: int| 0 <= i < members.len() implies self@.voices.members[i]
                == classes_killed(k, more).voices.members[i] by {
                let own = members[i].voice.exclusive_class;
                assert(now[i].voice.exclusive_class == own);
                if own is Some {
                    assert(more.contains(own->0) == (list@.take(n as int).contains(own->0) || own->0
                        == class)) by {
                        if list@.take(n as int).contains(own->0) {
                            let j = choose|j: int|
                                0 <= j < n && list@.take(n as int)[j] == own->0;
                            assert(more[j] == own->0);
                        }
                        if own->0 == class {
                            assert(more[n as int] == class);
                        }
                        if more.contains(own->0) {
                            let j = choose|j: int| 0 <= j < more.len() && more[j] == own->0;
                            if j < n {
                                assert(list@.take(n as int)[j] == own->0);
                            }
                        }
                    }
                }
            }
            n = n + 1;
            assert(self@ =~= classes_killed(k, list@.take(n as int)));
        }
        assert(list@.take(n as int) =~= list@);
    }
}

impl<V: Voice> VoiceChannel<V> {
    /// A channel without voices.
    pub fn new(
        options: ChannelInitOptions,
        stream_params: AudioStreamParams,
    ) -> (r: VoiceChannel<V>)
        ensures
            r.wf(),
            r@.keys == Seq::new(
                KEYS as nat,
                |k: int|
                    KeyModel {
                        voices: BufferModel {
                            members: Seq::empty(),
                            damper_held: false,
                            held: Seq::empty(),
                        },
                        last: 0,
                        events: Seq::empty(),
                    },
            ),
            r@.cc == Seq::new(128, |i: int| 0u8),
            r.options == options,
            r.group_id == 0,
            r.params.constant.stream_params == stream_params,
            r.params.layers == Some(4usize),
            r.params.polyphony_cap is None,
            r.params.spawn_burst_limit is None,
            r.params.stats.voice_counter == 0,
            r.params.program == (ProgramDescriptor { bank: 0, preset: 0 }),
    {
        let mut key_voices: Vec<Key<V>> = Vec::new();
        let mut k: usize = 0;
        while k < KEYS
            invariant
                k <= KEYS,
                key_voices.len() == k,
                forall|i: int|
                    0 <= i < k ==> (#[trigger] key_voices@[i])@ == (KeyModel {
                        voices: BufferModel {
                            members: Seq::empty(),
                            damper_held: false,
                            held: Seq::empty(),
                        },
                        last: 0,
                        events: Seq::empty(),
                    }) && key_voices@[i].data.voices.options == options && key_voices@[i].data.key
                        == i,
            decreases KEYS - k,
        {
            key_voices.push(
                Key { data: KeyData::new(k as u8, options), event_cache: Vec::new() },
            );
            k = k + 1;
        }
        let r = VoiceChannel {
            key_voices,
            params: VoiceChannelParams::new(stream_params),
            channel_sf: ChannelSoundfont::new(),
            cc_state: new_cc_state(),
            options,
            group_id: 0,
        };
        assert(r@.cc =~= Seq::new(128, |i: int| 0u8));
        r
    }

    /// Kills the voices of classes on all keys.
    fn kill_voices_in_exclusive_classes(&mut self, list: &Vec<u8>)
        requires
            old(self).wf(),
        ensures
            final(self).wf(),
            final(self)@ == (ChannelModel {
                keys: old(self)@.keys.map_values(|k: KeyModel| classes_killed(k, list@)),
                ..old(self)@
            }),
            final(self).channel_sf == old(self).channel_sf,
            final(self).options == old(self).options,
    {
        let ghost m = self@;
        let ghost goal = m.keys.map_values(|k: KeyModel| classes_killed(k, list@));
        let mut k: usize = 0;
        while k < self.key_voices.len()
            invariant
                k <= self.key_voices.len(),
                self.wf(),
                m == old(self)@,
                goal == m.keys.map_values(|k: KeyModel| classes_killed(k, list@)),
                self@.keys.len() == m.keys.len(),
                forall|i: int| 0 <= i < k ==> (#[trigger] self@.keys[i]) == goal[i],
                forall|i: int| k <= i < m.keys.len() ==> (#[trigger] self@.keys[i]) == m.keys[i],
                self@ == (ChannelModel { keys: self@.keys, ..m }),
                self.channel_sf == old(self).channel_sf,
                self.options == old(self).options,
            decreases self.key_voices.len() - k,
        {
            let ghost before = self.key_voices@;
            let ghost keys = self@.keys;
            assert(keys[k as int] == before[k as int]@);
            self.key_voices[k].kill_classes(list);
            assert forall|i: int|
                0 <= i < m.keys.len() && i != k implies #[trigger] self@.keys[i] == keys[i] by {
                assert(keys[i] == before[i]@);
            }
            k = k + 1;
        }
        assert(self@.keys =~= goal);
    }

    /// Adds an event to those that wait for a key. Keys that there are not are passed
    /// over.
    fn cache_event(&mut self, key: u8, event: KeyNoteEvent)
        requires
            old(self).wf(),
        ensures
            final(self).wf(),
            final(self)@ == (ChannelModel {
                keys: if key < old(self)@.keys.len() {
                    old(self)@.keys.update(
                        key as int,
                        event_waits(old(self)@.keys[key as int], event),
                    )
                } else {
                    old(self)@.keys
                },
                ..old(self)@
            }),
            final(self).channel_sf == old(self).channel_sf,
            final(self).options == old(self).options,
    {
        let ghost m = self@;
        if (key as usize) < self.key_voices.len() {
            assert(m.keys[key as int] == self.key_voices@[key as int]@);
            self.key_voices[key as usize].event_cache.push(event);
            assert(self@.keys =~= m.keys.update(
                key as int,
                event_waits(m.keys[key as int], event),
            ));
        }
    }

    /// Adds an event to those that wait for each key, or lets it take their place.
    fn cache_for_all(&mut self, event: KeyNoteEvent, replace: bool)
        requires
            old(self).wf(),
        ensures
            final(self).wf(),
            final(self)@ == (ChannelModel {
                keys: if replace {
                    old(self)@.keys.map_values(
                        |k: KeyModel| KeyModel { events: seq![event], ..k },
                    )
                } else {
                    old(self)@.keys.map_values(|k: KeyModel| event_waits(k, event))
                },
                ..old(self)@
            }),
            final(self).channel_sf == old(self).channel_sf,
            final(self).options == old(self).options,
    {
        let ghost m = self@;
        let mut k: usize = 0;
        while k < self.key_voices.len()
            invariant
                k <= self.key_voices.len(),
                self.wf(),
                m == old(self)@,
                self@.keys.len() == m.keys.len(),
                forall|i: int|
                    0 <= i < k ==> (#[trigger] self@.keys[i]) == (if replace {
                        KeyModel { events: seq![event], ..m.keys[i] }
                    } else {
                        event_waits(m.keys[i], event)
                    }),
                forall|i: int| k <= i < m.keys.len() ==> (#[trigger] self@.keys[i]) == m.keys[i],
                self@ == (ChannelModel { keys: self@.keys, ..m }),
                self.channel_sf == old(self).channel_sf,
                self.options == old(self).options,
            decreases self.key_voices.len() - k,
        {
            let ghost before = self.key_voices@;
            let ghost keys = self@.keys;
            assert(keys[k as int] == before[k as int]@);
            if replace {
                self.key_voices[k].event_cache.clear();
            }
            self.key_voices[k].event_cache.push(event);
            assert(self.key_voices@[k as int].event_cache@ =~= if replace {
                seq![event]
            } else {
                before[k as int].event_cache@.push(event)
            });
            assert forall|i: int|
                0 <= i < m.keys.len() && i != k implies #[trigger] self@.keys[i] == keys[i] by {
                assert(keys[i] == before[i]@);
            }
            k = k + 1;
        }
        if replace {
            assert(self@.keys =~= m.keys.map_values(
                |k: KeyModel| KeyModel { events: seq![event], ..k },
            ));
        } else {
            assert(self@.keys =~= m.keys.map_values(|k: KeyModel| event_waits(k, event)));
        }
    }

    /// Takes an event about notes or controllers.
    fn process_audio_event(&mut self, event: ChannelAudioEvent) -> (r: ChannelEffect)
        requires
            old(self).wf(),
        ensures
            final(self).wf(),
            (final(self)@, r) == audio_event_taken(
                old(self)@,
                event,
                classes_struck(old(self).channel_sf@, event),
            ),
            final(self).channel_sf == old(self).channel_sf,
            final(self).options == old(self).options,
    {
        match event {
            ChannelAudioEvent::NoteOn { key, vel } => {
                let list = self.channel_sf.exclusive_classes_attack(key, vel);
                self.kill_voices_in_exclusive_classes(&list);
                self.cache_event(key, KeyNoteEvent::On(vel));
                ChannelEffect::Nothing
            },
            ChannelAudioEvent::NoteOff { key } => {
                self.cache_event(key, KeyNoteEvent::Off);
                ChannelEffect::Nothing
            },
            ChannelAudioEvent::AllNotesOff => {
                self.cache_for_all(KeyNoteEvent::AllOff, false);
                ChannelEffect::Nothing
            },
            ChannelAudioEvent::AllNotesKilled => {
                self.cache_for_all(KeyNoteEvent::AllKilled, false);
                ChannelEffect::Nothing
            },
            ChannelAudioEvent::ResetControl => {
                self.cc_state = new_cc_state();
                assert(self@.cc =~= Seq::new(128, |i: int| 0u8));
                ChannelEffect::ResetControl
            },
            ChannelAudioEvent::Control(control) => {
                match control {
                    ControlEvent::Raw(n, v) => {
                        if n < 128 {
                            self.cc_state[n as usize] = v;
                        }
                    },
                }
                ChannelEffect::Control(control)
            },
            ChannelAudioEvent::ProgramChange(preset) => {
                self.params.set_preset(preset);
                ChannelEffect::Nothing
            },
            ChannelAudioEvent::SystemReset => {
                self.cache_for_all(KeyNoteEvent::AllKilled, true);
                self.cc_state = new_cc_state();
                assert(self@.cc =~= Seq::new(128, |i: int| 0u8));
                ChannelEffect::SystemReset
            },
        }
    }

    /// Takes an event. Says what is left for the caller to do about it.
    pub fn process_event(
        &mut self,
        event: ChannelEvent,
        soundfonts: &mut Vec<SampleSoundfont>,
    ) -> (r: ChannelEffect)
        requires
            old(self).wf(),
            soundfonts_wf(soundfont_models(old(soundfonts)@)),
        ensures
            final(self).wf(),
            soundfonts_wf(soundfont_models(final(soundfonts)@)),
            soundfont_ids(final(soundfonts)@) == soundfont_ids(old(soundfonts)@),
            (
                (final(self)@, final(self).channel_sf@, soundfont_models(final(soundfonts)@)),
                r,
            ) == event_taken(
                (old(self)@, old(self).channel_sf@, soundfont_models(old(soundfonts)@)),
                event,
            ),
            final(self).options == old(self).options,
    {
        match event {
            ChannelEvent::Audio(audio) => self.process_audio_event(audio),
            ChannelEvent::Config(config) => {
                self.params.process_config_event(config);
                if let ChannelConfigEvent::SetPercussionMode(_) = config {
                    self.channel_sf.change_program(self.params.program, soundfonts);
                }
                ChannelEffect::Nothing
            },
        }
    }

    /// Makes the channel play other soundfonts. Gives the old ones back; where the others
    /// are the ones that it has, nothing changes, and they are given back themselves.
    pub fn set_soundfonts(
        &mut self,
        soundfonts: &mut Vec<SampleSoundfont>,
        others: Vec<SampleSoundfont>,
    ) -> (r: Vec<SampleSoundfont>)
        requires
            old(self).wf(),
            soundfonts_wf(soundfont_models(others@)),
        ensures
            final(self).wf(),
            final(self)@ == old(self)@,
            final(self).options == old(self).options,
            soundfont_ids(final(soundfonts)@) == soundfont_ids(others@),
            (final(self).channel_sf@, soundfont_models(final(soundfonts)@)) == soundfonts_set(
                old(self).channel_sf@,
                (soundfont_ids(old(soundfonts)@), soundfont_models(old(soundfonts)@)),
                (soundfont_ids(others@), soundfont_models(others@)),
            ),
            r@ == (if soundfont_ids(old(soundfonts)@) == soundfont_ids(others@) {
                others@
            } else {
                old(soundfonts)@
            }),
    {
        self.channel_sf.set_soundfonts(soundfonts, others)
    }

    /// Makes the channel play the program that is set.
    pub fn load_program(&mut self, soundfonts: &mut Vec<SampleSoundfont>)
        requires
            old(self).wf(),
            soundfonts_wf(soundfont_models(old(soundfonts)@)),
        ensures
            final(self).wf(),
            soundfonts_wf(soundfont_models(final(soundfonts)@)),
            soundfont_ids(final(soundfonts)@) == soundfont_ids(old(soundfonts)@),
            final(self)@ == old(self)@,
            final(self).options == old(self).options,
            (final(self).channel_sf@, soundfont_models(final(soundfonts)@)) == program_changed(
                old(self).channel_sf@,
                soundfont_models(old(soundfonts)@),
                old(self).params.program,
            ),
    {
        self.channel_sf.change_program(self.params.program, soundfonts);
    }

    /// Moves the damper of all keys.
    pub fn set_damper(&mut self, damper: bool)
        requires
            old(self).wf(),
        ensures
            final(self).wf(),
            final(self)@ == (ChannelModel {
                keys: old(self)@.keys.map_values(
                    |k: KeyModel| KeyModel { voices: damper_set(k.voices, damper), ..k },
                ),
                ..old(self)@
            }),
            final(self).channel_sf == old(self).channel_sf,
            final(self).options == old(self).options,
    {
        let ghost m = self@;
        let mut k: usize = 0;
        while k < self.key_voices.len()
            invariant
                k <= self.key_voices.len(),
                self.wf(),
                m == old(self)@,
                self@.keys.len() == m.keys.len(),
                forall|i: int|
                    0 <= i < k ==> (#[trigger] self@.keys[i]) == (KeyModel {
                        voices: damper_set(m.keys[i].voices, damper),
                        ..m.keys[i]
                    }),
                forall|i: int| k <= i < m.keys.len() ==> (#[trigger] self@.keys[i]) == m.keys[i],
                self@ == (ChannelModel { keys: self@.keys, ..m }),
                self.channel_sf == old(self).channel_sf,
                self.options == old(self).options,
            decreases self.key_voices.len() - k,
        {
            let ghost before = self.key_voices@;
            let ghost keys = self@.keys;
            assert(keys[k as int] == before[k as int]@);
            self.key_voices[k].data.voices.set_damper(damper);
            assert forall|i: int|
                0 <= i < m.keys.len() && i != k implies #[trigger] self@.keys[i] == keys[i] by {
                assert(keys[i] == before[i]@);
            }
            k = k + 1;
        }
        assert(self@.keys =~= m.keys.map_values(
            |k: KeyModel| KeyModel { voices: damper_set(k.voices, damper), ..k },
        ));
    }
}

/// Counts the notes among events.
fn count_notes(events: &Vec<KeyNoteEvent>) -> (r: usize)
    ensures
        r == note_ons(events@),
{
    let mut n: usize = 0;
    let mut i: usize = 0;
    while i < events.len()
        invariant
            i <= events.len(),
            n <= i,
            n == note_ons(events@.take(i as int)),
        decreases events.len() - i,
    {
        assert(events@.take(i + 1).drop_last() =~= events@.take(i as int));
        if let KeyNoteEvent::On(_) = events[i] {
            n = n + 1;
        }
        i = i + 1;
    }
    assert(events@.take(i as int) =~= events@);
    n
}

proof fn notes_waiting_grow(keys: Seq<KeyModel>, n: int)
    requires
        0 <= n <= keys.len(),
    ensures
        0 <= notes_waiting(keys, n) <= notes_waiting(keys, keys.len() as int),
    decreases keys.len() - n,
{
    notes_waiting_nonnegative(keys, n);
    if n < keys.len() {
        notes_waiting_grow(keys, n + 1);
        note_ons_nonnegative(keys[n].events);
    }
}

proof fn notes_waiting_nonnegative(keys: Seq<KeyModel>, n: int)
    requires
        0 <= n <= keys.len(),
    ensures
        0 <= notes_waiting(keys, n),
    decreases n,
{
    if n > 0 {
        notes_waiting_nonnegative(keys, n - 1);
        note_ons_nonnegative(keys[n - 1].events);
    }
}

proof fn note_ons_nonnegative(events: Seq<KeyNoteEvent>)
    ensures
        0 <= note_ons(events) <= events.len(),
    decreases events.len(),
{
    if events.len() > 0 {
        note_ons_nonnegative(events.drop_last());
    }
}

/// Puts a note into its place among notes in the order in which they are dropped.
fn queue_note(list: &mut Vec<NoteGroup>, note: NoteGroup)
    ensures
        final(list)@ == queued(old(list)@, note),
{
    let ghost all = list@;
    let mut at: usize = list.len();
    assert(all.take(at as int) =~= all);
    assert(queued(all.take(at as int), note) + all.skip(at as int) =~= queued(all, note));
    while at > 0 && !drops_first(&list[at - 1], &note)
        invariant
            at <= list.len(),
            list@ == all,
            all == old(list)@,
            queued(all, note) == queued(all.take(at as int), note) + all.skip(at as int),
        decreases at,
    {
        assert(all.take(at as int).drop_last() =~= all.take(at - 1));
        assert(queued(all.take(at as int), note) + all.skip(at as int) =~= queued(
            all.take(at - 1),
            note,
        ) + all.skip(at - 1));
        at = at - 1;
    }
    list.insert(at, note);
    assert(list@ =~= all.take(at as int).push(note) + all.skip(at as int));
}

/// Whether note `a` is dropped no later than note `b`.
fn drops_first(a: &NoteGroup, b: &NoteGroup) -> (r: bool)
    ensures
        r == goes_first(*a, *b),
{
    if a.releasing != b.releasing {
        a.releasing
    } else {
        a.id <= b.id
    }
}

impl<V: Voice> VoiceChannel<V> {
    /// Takes a row of events. Says what is left for the caller to do about each of them.
    pub fn push_events_iter(
        &mut self,
        events: &Vec<ChannelEvent>,
        soundfonts: &mut Vec<SampleSoundfont>,
    ) -> (r: Vec<ChannelEffect>)
        requires
            old(self).wf(),
            soundfonts_wf(soundfont_models(old(soundfonts)@)),
        ensures
            final(self).wf(),
            soundfonts_wf(soundfont_models(final(soundfonts)@)),
            soundfont_ids(final(soundfonts)@) == soundfont_ids(old(soundfonts)@),
            (
                (final(self)@, final(self).channel_sf@, soundfont_models(final(soundfonts)@)),
                r@,
            ) == events_taken(
                (old(self)@, old(self).channel_sf@, soundfont_models(old(soundfonts)@)),
                events@,
                events.len() as int,
            ),
            final(self).options == old(self).options,
    {
        let mut effects: Vec<ChannelEffect> = Vec::new();
        let mut n: usize = 0;
        while n < events.len()
            invariant
                n <= events.len(),
                self.wf(),
                soundfonts_wf(soundfont_models(soundfonts@)),
                soundfont_ids(soundfonts@) == soundfont_ids(old(soundfonts)@),
                self.options == old(self).options,
                (
                    (self@, self.channel_sf@, soundfont_models(soundfonts@)),
                    effects@,
                ) == events_taken(
                    (old(self)@, old(self).channel_sf@, soundfont_models(old(soundfonts)@)),
                    events@,
                    n as int,
                ),
            decreases events.len() - n,
        {
            let effect = self.process_event(events[n], soundfonts);
            effects.push(effect);
            n = n + 1;
        }
        effects
    }

    /// How many of the notes that wait are expected to start in the next block.
    fn expected_notes(&self, limit: usize) -> (r: usize)
        requires
            self.wf(),
        ensures
            r == notes_expected(self@.keys, limit as int),
    {
        let ghost keys = self@.keys;
        if limit == 0 {
            proof {
                notes_waiting_nonnegative(keys, keys.len() as int);
            }
            return 0;
        }
        let mut pending: usize = 0;
        let mut k: usize = 0;
        while k < self.key_voices.len()
            invariant
                k <= self.key_voices.len(),
                keys == self@.keys,
                limit > 0,
                pending < limit,
                pending == notes_waiting(keys, k as int),
            decreases self.key_voices.len() - k,
        {
            assert(keys[k as int].events == self.key_voices@[k as int].event_cache@);
            let more = count_notes(&self.key_voices[k].event_cache);
            proof {
                notes_waiting_grow(keys, k + 1);
            }
            if more >= limit - pending {
                return limit;
            }
            pending = pending + more;
            k = k + 1;
        }
        pending
    }

    /// The notes of all keys.
    fn collect_notes(&self) -> (r: Vec<NoteGroup>)
        ensures
            r@ == notes_of(self@.keys, self@.keys.len() as int),
    {
        let ghost keys = self@.keys;
        let mut out: Vec<NoteGroup> = Vec::new();
        let mut k: usize = 0;
        while k < self.key_voices.len()
            invariant
                k <= self.key_voices.len(),
                keys == self@.keys,
                out@ == notes_of(keys, k as int),
            decreases self.key_voices.len() - k,
        {
            assert(keys[k as int].voices == self.key_voices@[k as int].data.voices@);
            let mut found: Vec<(u64, bool)> = Vec::new();
            let ghost before = out@;
            self.key_voices[k].data.voices.collect_groups(&mut found);
            let ghost notes = notes_of_key(keys[k as int], k as int);
            assert(found@ =~= groups(
                keys[k as int].voices.members,
                keys[k as int].voices.members.len() as int,
            ));
            let mut i: usize = 0;
            assert(before + notes.take(0) =~= before);
            while i < found.len()
                invariant
                    i <= found.len(),
                    notes.len() == found.len(),
                    forall|j: int|
                        0 <= j < notes.len() ==> (#[trigger] notes[j]) == (NoteGroup {
                            key: k,
                            id: found@[j].0,
                            releasing: found@[j].1,
                        }),
                    out@ == before + notes.take(i as int),
                decreases found.len() - i,
            {
                out.push(NoteGroup { key: k, id: found[i].0, releasing: found[i].1 });
                i = i + 1;
                assert(out@ =~= before + notes.take(i as int));
            }
            assert(notes.take(i as int) =~= notes);
            k = k + 1;
        }
        out
    }

    /// Drops notes to make room for those that are expected in the next block.
    pub fn enforce_polyphony_cap(&mut self)
        requires
            old(self).wf(),
        ensures
            final(self).wf(),
            final(self)@ == cap_enforced(old(self)@),
            final(self).channel_sf == old(self).channel_sf,
            final(self).options == old(self).options,
    {
        let ghost m = self@;
        let cap: usize = match self.params.polyphony_cap {
            None => {
                return;
            },
            Some(cap) => cap,
        };
        let limit: usize = match self.params.spawn_burst_limit {
            Some(n) => n,
            None => usize::MAX,
        };
        let expected = self.expected_notes(limit);
        let notes = self.collect_notes();
        let mut order: Vec<NoteGroup> = Vec::new();
        let mut i: usize = 0;
        while i < notes.len()
            invariant
                i <= notes.len(),
                order@ == drop_order(notes@, i as int),
            decreases notes.len() - i,
        {
            queue_note(&mut order, notes[i]);
            i = i + 1;
        }
        proof {
            drop_order_is_right(notes@, notes.len() as int);
        }
        let sounding = notes.len();
        let over: usize = if sounding > cap {
            let most: usize = sounding - cap;
            if expected >= cap {
                sounding
            } else {
                most + expected
            }
        } else if expected > cap - sounding {
            let most: usize = expected - (cap - sounding);
            if most < sounding {
                most
            } else {
                sounding
            }
        } else {
            0
        };
        assert(over == notes_over(sounding as int, expected as int, cap as int));
        let mut n: usize = 0;
        while n < over
            invariant
                n <= over <= order.len(),
                self.wf(),
                self@ == (ChannelModel { keys: notes_dropped(m.keys, order@, n as int), ..m }),
                self.channel_sf == old(self).channel_sf,
                self.options == old(self).options,
            decreases over - n,
        {
            let note = order[n];
            let ghost before = self.key_voices@;
            let ghost keys = self@.keys;
            if note.key < self.key_voices.len() {
                assert(keys[note.key as int] == before[note.key as int]@);
                let _ = self.key_voices[note.key].data.voices.drop_group(note.id);
                assert(self@.keys =~= notes_dropped(m.keys, order@, n + 1)) by {
                    assert forall|i: int| 0 <= i < keys.len() && i != note.key implies (
                    #[trigger] self@.keys[i]) == keys[i] by {
                        assert(keys[i] == before[i]@);
                    }
                }
            }
            n = n + 1;
        }
    }

    /// Takes the events out that a key plays in this block. `budget` is how many more
    /// notes may start in it; there may be no limit.
    pub fn drain_events_with_budget(&mut self, key: usize, budget: &mut Option<usize>) -> (r: Vec<
        KeyNoteEvent,
    >)
        requires
            old(self).wf(),
            key < KEYS,
        ensures
            final(self).wf(),
            ({
                let events = old(self)@.keys[key as int].events;
                let (n, left) = match *old(budget) {
                    Some(b) => drained(events, b as int, 0),
                    None => (events.len() as int, 0),
                };
                &&& r@ == events.take(n)
                &&& final(self)@ == (ChannelModel {
                    keys: old(self)@.keys.update(
                        key as int,
                        KeyModel { events: events.skip(n), ..old(self)@.keys[key as int] },
                    ),
                    ..old(self)@
                })
                &&& *final(budget) == (match *old(budget) {
                    Some(_) => Some(left as usize),
                    None => None,
                })
            }),
            final(self).channel_sf == old(self).channel_sf,
            final(self).options == old(self).options,
    {
        let ghost m = self@;
        let ghost all = self.key_voices@[key as int].event_cache@;
        assert(m.keys[key as int].events == all);
        let mut n: usize = 0;
        match *budget {
            None => {
                n = self.key_voices[key].event_cache.len();
            },
            Some(most) => {
                proof {
                    budget_is_kept(all, most as int, 0);
                }
                let events = &self.key_voices[key].event_cache;
                let mut left: usize = most;
                while n < events.len()
                    invariant
                        n <= events.len(),
                        events@ == all,
                        drained(all, most as int, 0) == drained(all, left as int, n as int),
                    ensures
                        drained(all, most as int, 0) == (n as int, left as int),
                        n <= events.len(),
                    decreases events.len() - n,
                {
                    if let KeyNoteEvent::On(_) = events[n] {
                        if left == 0 {
                            break;
                        }
                        left = left - 1;
                    }
                    n = n + 1;
                }
                *budget = Some(left);
            },
        }
        let ghost before = self.key_voices@;
        let mut rest = self.key_voices[key].event_cache.split_off(n);
        std::mem::swap(&mut rest, &mut self.key_voices[key].event_cache);
        assert(rest@ =~= all.take(n as int));
        assert(self.key_voices@[key as int].event_cache@ =~= all.skip(n as int));
        assert(self@.keys =~= m.keys.update(
            key as int,
            KeyModel { events: all.skip(n as int), ..m.keys[key as int] },
        )) by {
            assert forall|i: int| 0 <= i < m.keys.len() && i != key implies (
            #[trigger] self@.keys[i]) == m.keys[i] by {
                assert(m.keys[i] == before[i]@);
            }
        }
        rest
    }

    /// Begins a block: makes the channel play the program that is set, drops notes to make
    /// room for those that are expected, and takes the events out that each key plays in
    /// the block, from the lowest key on.
    pub fn plan_block(&mut self, soundfonts: &mut Vec<SampleSoundfont>) -> (r: Vec<
        Vec<KeyNoteEvent>,
    >)
        requires
            old(self).wf(),
            soundfonts_wf(soundfont_models(old(soundfonts)@)),
        ensures
            final(self).wf(),
            soundfonts_wf(soundfont_models(final(soundfonts)@)),
            soundfont_ids(final(soundfonts)@) == soundfont_ids(old(soundfonts)@),
            final(self).options == old(self).options,
            (final(self).channel_sf@, soundfont_models(final(soundfonts)@)) == program_changed(
                old(self).channel_sf@,
                soundfont_models(old(soundfonts)@),
                old(self).params.program,
            ),
            ({
                let capped = cap_enforced(old(self)@);
                let (keys, lists, _) = keys_planned(
                    capped.keys,
                    burst_budget(old(self).params),
                    KEYS as int,
                );
                &&& final(self)@ == (ChannelModel { keys, ..capped })
                &&& event_lists(r@) == lists
            }),
    {
        self.load_program(soundfonts);
        self.enforce_polyphony_cap();
        let ghost capped = self@;
        let ghost limit = burst_budget(self.params);
        let ghost matrix = self.channel_sf;
        let mut budget: Option<usize> = self.params.spawn_burst_limit;
        let mut out: Vec<Vec<KeyNoteEvent>> = Vec::new();
        let mut key: usize = 0;
        assert(event_lists(out@) =~= Seq::empty());
        while key < KEYS
            invariant
                key <= KEYS,
                self.wf(),
                capped.keys.len() == KEYS,
                limit matches Some(b) ==> 0 <= b,
                self.channel_sf == matrix,
                self.options == old(self).options,
                ({
                    let (keys, lists, left) = keys_planned(capped.keys, limit, key as int);
                    &&& self@ == (ChannelModel { keys, ..capped })
                    &&& event_lists(out@) == lists
                    &&& left == (match budget {
                        Some(b) => Some(b as int),
                        None => None,
                    })
                }),
            decreases KEYS - key,
        {
            let ghost before = event_lists(out@);
            let ghost keys = self@.keys;
            proof {
                bursts_are_bounded(capped.keys, limit, key as int);
                if let Some(b) = budget {
                    budget_is_kept(keys[key as int].events, b as int, 0);
                }
            }
            let events = self.drain_events_with_budget(key, &mut budget);
            out.push(events);
            key = key + 1;
            assert(event_lists(out@) =~= before.push(events@));
        }
        out
    }

    /// Lets a key take an event. Says what has to be made to sound.
    pub fn send_event(&mut self, key: usize, event: KeyNoteEvent) -> (r: KeyAction)
        requires
            old(self).wf(),
            key < KEYS,
        ensures
            final(self).wf(),
            ({
                let k = old(self)@.keys[key as int];
                let (voices, action) = event_sent(k.voices, old(self)@.fade, event);
                &&& r@ == action
                &&& final(self)@ == (ChannelModel {
                    keys: old(self)@.keys.update(key as int, KeyModel { voices, ..k }),
                    ..old(self)@
                })
            }),
            final(self).channel_sf == old(self).channel_sf,
            final(self).options == old(self).options,
    {
        let ghost m = self@;
        let ghost before = self.key_voices@;
        assert(m.keys[key as int] == before[key as int]@);
        let r = self.key_voices[key].data.send_event(event);
        let ghost k = m.keys[key as int];
        assert(self@.keys =~= m.keys.update(
            key as int,
            KeyModel { voices: event_sent(k.voices, m.fade, event).0, ..k },
        )) by {
            assert forall|i: int| 0 <= i < m.keys.len() && i != key implies (
            #[trigger] self@.keys[i]) == m.keys[i] by {
                assert(m.keys[i] == before[i]@);
            }
        }
        r
    }

    /// Gives a key the voices that an event makes sound. Each time it is a new note.
    pub fn add_voices(&mut self, key: usize, voices: Vec<V>, release_triggered: bool)
        requires
            old(self).wf(),
            key < KEYS,
        ensures
            final(self).wf(),
            final(self)@ == voices_added(
                old(self)@,
                key as int,
                models(voices@),
                release_triggered,
            ),
            final(self).channel_sf == old(self).channel_sf,
            final(self).options == old(self).options,
    {
        let ghost m = self@;
        let ghost before = self.key_voices@;
        assert(m.keys[key as int] == before[key as int]@);
        let id = self.group_id;
        self.group_id = id.wrapping_add(1);
        let layers = self.params.layers;
        let ghost new = if release_triggered {
            models(voices@).map_values(|v: VoiceModel| VoiceModel { releasing: true, ..v })
        } else {
            models(voices@)
        };
        if release_triggered {
            self.key_voices[key].data.voices.push_release_trigger_voices(id, voices, layers);
        } else {
            self.key_voices[key].data.voices.push_voices(id, voices, layers);
        }
        let ghost k = m.keys[key as int];
        assert(self@.keys =~= m.keys.update(
            key as int,
            KeyModel { voices: pushed(k.voices, id, new, layers, m.fade), ..k },
        )) by {
            assert forall|i: int| 0 <= i < m.keys.len() && i != key implies (
            #[trigger] self@.keys[i]) == m.keys[i] by {
                assert(m.keys[i] == before[i]@);
            }
        }
    }

    /// Settles a key after its voices have been rendered: those that have fallen silent
    /// go, and the number of voices of the channel is put right.
    pub fn settle_key(&mut self, key: usize)
        requires
            old(self).wf(),
            key < KEYS,
        ensures
            final(self).wf(),
            ({
                let k = old(self)@.keys[key as int];
                let kept = old(self).key_voices@[key as int].data.voices.buffer@.filter(
                    still_sounding::<V>(),
                );
                let next = KeyModel {
                    voices: BufferModel { members: members_of(kept), ..k.voices },
                    last: kept.len() as int,
                    ..k
                };
                &&& final(self)@.keys == old(self)@.keys.update(key as int, next)
                &&& final(self).params.stats.voice_counter == wrapped(
                    old(self).params.stats.voice_counter - k.last + next.last,
                )
                &&& final(self).params == (VoiceChannelParams {
                    stats: final(self).params.stats,
                    ..old(self).params
                })
            }),
            final(self)@.cc == old(self)@.cc,
            final(self).group_id == old(self).group_id,
            final(self).channel_sf == old(self).channel_sf,
            final(self).options == old(self).options,
    {
        let ghost m = self@;
        let ghost before = self.key_voices@;
        assert(m.keys[key as int] == before[key as int]@);
        let mut counter: u64 = self.params.stats.voice_counter;
        self.key_voices[key].data.settle(&mut counter);
        self.params.stats.voice_counter = counter;
        let ghost next = self.key_voices@[key as int]@;
        assert(self@.keys =~= m.keys.update(key as int, next)) by {
            assert forall|i: int| 0 <= i < m.keys.len() && i != key implies (
            #[trigger] self@.keys[i]) == m.keys[i] by {
                assert(m.keys[i] == before[i]@);
            }
        }
    }

    /// A reader of the statistics of the channel.
    pub fn get_channel_stats(&self) -> (r: VoiceChannelStatsReader)
        ensures
            r == (VoiceChannelStatsReader {  }),
    {
        VoiceChannelStatsReader {  }
    }

    /// Whether the channel has anything to render: voices, events that wait, or the tail
    /// of an effect.
    pub fn has_work(&self, reverb_rings: bool, delay_rings: bool) -> (r: bool)
        ensures
            r == (self.params.stats.voice_counter > 0 || (exists|k: int|
                0 <= k < self@.keys.len() && (#[trigger] self@.keys[k]).events.len() > 0)
                || reverb_rings || delay_rings),
    {
        if self.params.stats.voice_counter > 0 {
            return true;
        }
        let mut k: usize = 0;
        while k < self.key_voices.len()
            invariant
                k <= self.key_voices.len(),
                forall|i: int| 0 <= i < k ==> (#[trigger] self@.keys[i]).events.len() == 0,
            decreases self.key_voices.len() - k,
        {
            assert(self@.keys[k as int] == self.key_voices@[k as int]@);
            if self.key_voices[k].event_cache.len() > 0 {
                return true;
            }
            k = k + 1;
        }
        reverb_rings || delay_rings
    }
}

/// Reads the statistics of a channel. The channel keeps them, so that a reader always tells
/// what they are when it is asked, however old it is.
#[derive(Debug, Clone, Copy, PartialEq, Eq, Structural)]
pub struct VoiceChannelStatsReader {}

impl VoiceChannelStatsReader {
    /// The active voice count of a channel: how many voices its keys had when each of them
    /// was last settled.
    pub fn voice_count<V: Voice>(&self, channel: &VoiceChannel<V>) -> (r: u64)
        ensures
            r == channel.params.stats.voice_counter,
    {
        channel.params.stats.voice_counter
    }
}

/// How many voices keys have together.
pub open spec fn voices_on(keys: Seq<KeyModel>) -> int
    decreases keys.len(),
{
    if keys.len() == 0 {
        0
    } else {
        voices_on(keys.drop_last()) + keys.last().voices.members.len()
    }
}

/// Once every key has been settled after its voices last changed, the count of a channel is
/// the number of voices on all its keys.
pub proof fn settled_keys_are_counted(keys: Seq<KeyModel>)
    requires
        forall|k: int|
            0 <= k < keys.len() ==> (#[trigger] keys[k]).last == keys[k].voices.members.len(),
    ensures
        voices_rendered(keys) == voices_on(keys),
    decreases keys.len(),
{
    if keys.len() > 0 {
        let rest = keys.drop_last();
        assert forall|k: int| 0 <= k < rest.len() implies (#[trigger] rest[k]).last
            == rest[k].voices.members.len() by {
            assert(rest[k] == keys[k]);
        }
        settled_keys_are_counted(rest);
        assert(keys[keys.len() - 1].last == keys.last().voices.members.len());
    }
}

/// A channel without voices counts none.
pub proof fn new_channels_count_nothing(keys: Seq<KeyModel>)
    requires
        forall|k: int| 0 <= k < keys.len() ==> (#[trigger] keys[k]).last == 0,
    ensures
        voices_rendered(keys) == 0,
    decreases keys.len(),
{
    if keys.len() > 0 {
        let rest = keys.drop_last();
        assert forall|k: int| 0 <= k < rest.len() implies (#[trigger] rest[k]).last == 0 by {
            assert(rest[k] == keys[k]);
        }
        new_channels_count_nothing(rest);
        assert(keys[keys.len() - 1].last == 0);
    }
}

/// The number of voices of a channel stays the sum over its keys whichever key is
/// settled.
pub proof fn settling_keeps_the_count(keys: Seq<KeyModel>, key: int, next: KeyModel, counter: int)
    requires
        0 <= key < keys.len(),
        counter == voices_rendered(keys),
        0 <= counter - keys[key].last + next.last < 0x1_0000_0000_0000_0000,
    ensures
        wrapped(counter - keys[key].last + next.last) == voices_rendered(keys.update(key, next)),
{
    count_after_update(keys, key, next);
}

proof fn count_after_update(keys: Seq<KeyModel>, key: int, next: KeyModel)
    requires
        0 <= key < keys.len(),
    ensures
        voices_rendered(keys.update(key, next)) == voices_rendered(keys) - keys[key].last
            + next.last,
    decreases keys.len(),
{
    let updated = keys.update(key, next);
    if key < keys.len() - 1 {
        count_after_update(keys.drop_last(), key, next);
        assert(updated.drop_last() =~= keys.drop_last().update(key, next));
    } else {
        assert(updated.drop_last() =~= keys.drop_last());
    }
}

/// A program change selects a preset, or the last one where there is none with so high a
/// number. The bank stays, and so does everything else: the spawners wait until the channel
/// is rendered.
pub proof fn program_changes_select_the_preset(w: WholeChannel, n: u8)
    ensures
        ({
            let (now, effect) = event_taken(
                w,
                ChannelEvent::Audio(ChannelAudioEvent::ProgramChange(n)),
            );
            &&& n <= 127 ==> now.0.params.program == (ProgramDescriptor {
                preset: n,
                ..w.0.params.program
            })
            &&& n > 127 ==> now.0.params.program == (ProgramDescriptor {
                preset: 127,
                ..w.0.params.program
            })
            &&& now.0.params == (VoiceChannelParams {
                program: now.0.params.program,
                ..w.0.params
            })
            &&& now.0 == (ChannelModel { params: now.0.params, ..w.0 })
            &&& now.1 == w.1
            &&& now.2 == w.2
            &&& effect == ChannelEffect::Nothing
        }),
{
}

/// The next block after a program change plays the preset that was selected, of the bank that
/// the channel has: what the soundfonts have for that program.
pub proof fn program_changes_are_heard(w: WholeChannel, n: u8, key: u8, vel: u8)
    requires
        soundfonts_wf(w.2),
        n <= 127,
        key < 128,
        vel < 128,
    ensures
        ({
            let now = event_taken(
                w,
                ChannelEvent::Audio(ChannelAudioEvent::ProgramChange(n)),
            ).0;
            let p = ProgramDescriptor { bank: w.0.params.program.bank, preset: n };
            let x = program_changed(now.1, now.2, now.0.params.program).0;
            &&& x.program == p
            &&& w.1.program != p ==> attack_at(x, key, vel) == attack_cell(
                w.2,
                p,
                key * 128 + vel,
            ).1
            &&& w.1.program != p ==> release_at(x, key, vel) == release_cell(
                w.2,
                p,
                key * 128 + vel,
            )
        }),
{
    let now = event_taken(w, ChannelEvent::Audio(ChannelAudioEvent::ProgramChange(n))).0;
    changed_programs_are_played(now.1, now.2, now.0.params.program, key, vel);
}

/// Percussion mode selects the percussion bank, and leaving it the first bank. The preset
/// stays, and what the soundfonts have for the program is worked out at once.
pub proof fn percussion_mode_is_heard(w: WholeChannel, set: bool, key: u8, vel: u8)
    requires
        soundfonts_wf(w.2),
        key < 128,
        vel < 128,
    ensures
        ({
            let (now, effect) = event_taken(
                w,
                ChannelEvent::Config(ChannelConfigEvent::SetPercussionMode(set)),
            );
            let p = ProgramDescriptor {
                bank: if set {
                    128
                } else {
                    0
                },
                preset: w.0.params.program.preset,
            };
            &&& now.0 == (ChannelModel {
                params: VoiceChannelParams { program: p, ..w.0.params },
                ..w.0
            })
            &&& now.1.program == p
            &&& w.1.program == p ==> now.1 == w.1 && now.2 == w.2
            &&& w.1.program != p ==> attack_at(now.1, key, vel) == attack_cell(
                w.2,
                p,
                key * 128 + vel,
            ).1
            &&& w.1.program != p ==> release_at(now.1, key, vel) == release_cell(
                w.2,
                p,
                key * 128 + vel,
            )
            &&& effect == ChannelEffect::Nothing
        }),
{
    let p = ProgramDescriptor {
        bank: if set {
            128
        } else {
            0
        },
        preset: w.0.params.program.preset,
    };
    changed_programs_are_played(w.1, w.2, p, key, vel);
}

/// Each other setting is set to what its event says, and nothing else changes.
pub proof fn settings_are_set(w: WholeChannel, v: Option<usize>)
    ensures
        event_taken(w, ChannelEvent::Config(ChannelConfigEvent::SetLayerCount(v))) == ((
            (ChannelModel { params: VoiceChannelParams { layers: v, ..w.0.params }, ..w.0 }),
            w.1,
            w.2,
        ), ChannelEffect::Nothing),
        event_taken(w, ChannelEvent::Config(ChannelConfigEvent::SetPolyphonyCap(v))) == ((
            (ChannelModel { params: VoiceChannelParams { polyphony_cap: v, ..w.0.params }, ..w.0 }),
            w.1,
            w.2,
        ), ChannelEffect::Nothing),
        event_taken(w, ChannelEvent::Config(ChannelConfigEvent::SetSpawnBurstLimit(v))) == ((
            (ChannelModel {
                params: VoiceChannelParams { spawn_burst_limit: v, ..w.0.params },
                ..w.0
            }),
            w.1,
            w.2,
        ), ChannelEffect::Nothing),
{
}

/// An event about a key waits behind the others of that key, and no other key takes notice.
/// Keys that a channel does not have are passed over. Nothing but the keys changes.
pub proof fn note_events_wait_on_their_key(w: WholeChannel, key: u8, vel: u8, k: int)
    requires
        0 <= k < w.0.keys.len(),
    ensures
        ({
            let on = event_taken(
                w,
                ChannelEvent::Audio(ChannelAudioEvent::NoteOn { key, vel }),
            );
            let off = event_taken(w, ChannelEvent::Audio(ChannelAudioEvent::NoteOff { key }));
            let before = w.0.keys[k];
            &&& on.0.0.keys.len() == w.0.keys.len()
            &&& on.0.0.keys[k].events == (if k == key {
                before.events.push(KeyNoteEvent::On(vel))
            } else {
                before.events
            })
            &&& on.0.0.keys[k].last == before.last
            &&& on.0.0.keys[k].voices.members.len() == before.voices.members.len()
            &&& on.0.0.keys[k].voices.held == before.voices.held
            &&& on.0.0.keys[k].voices.damper_held == before.voices.damper_held
            &&& on.0.0 == (ChannelModel { keys: on.0.0.keys, ..w.0 })
            &&& on.0.1 == w.1 && on.0.2 == w.2
            &&& on.1 == ChannelEffect::Nothing
            &&& off.0.0.keys.len() == w.0.keys.len()
            &&& off.0.0.keys[k] == (KeyModel {
                events: if k == key {
                    before.events.push(KeyNoteEvent::Off)
                } else {
                    before.events
                },
                ..before
            })
            &&& off.0.0 == (ChannelModel { keys: off.0.0.keys, ..w.0 })
            &&& off.0.1 == w.1 && off.0.2 == w.2
            &&& off.1 == ChannelEffect::Nothing
        }),
{
}

/// A struck key silences the voices that have a class of one of its spawners, on all keys,
/// and no other voice.
pub proof fn struck_keys_silence_their_classes(
    w: WholeChannel,
    key: u8,
    vel: u8,
    k: int,
    j: int,
)
    requires
        0 <= k < w.0.keys.len(),
        0 <= j < w.0.keys[k].voices.members.len(),
    ensures
        ({
            let before = w.0.keys[k].voices.members[j];
            let event = ChannelEvent::Audio(ChannelAudioEvent::NoteOn { key, vel });
            let after = event_taken(w, event).0.0.keys[k].voices.members[j];
            let list = attack_at(w.1, key, vel);
            let chosen = before.voice.exclusive_class is Some && exists|i: int|
                0 <= i < list.len() && (#[trigger] list[i]).spawner.exclusive_class
                    == before.voice.exclusive_class;
            &&& after.id == before.id
            &&& chosen ==> after.voice == (VoiceModel { killed: true, ..before.voice })
            &&& !chosen ==> after.voice == before.voice
        }),
{
    let before = w.0.keys[k].voices.members[j];
    if let Some(class) = before.voice.exclusive_class {
        classes_are_those_of_spawners(w.1, key, vel, class);
    }
}

/// Events about all notes reach every key, behind the events that wait there. A reset of the
/// system throws away what waits.
pub proof fn channel_events_reach_all_keys(w: WholeChannel, k: int)
    requires
        0 <= k < w.0.keys.len(),
    ensures
        ({
            let off = event_taken(w, ChannelEvent::Audio(ChannelAudioEvent::AllNotesOff));
            let killed = event_taken(w, ChannelEvent::Audio(ChannelAudioEvent::AllNotesKilled));
            let reset = event_taken(w, ChannelEvent::Audio(ChannelAudioEvent::SystemReset));
            let before = w.0.keys[k];
            &&& off.0.0.keys.len() == w.0.keys.len()
            &&& off.0.0.keys[k] == (KeyModel {
                events: before.events.push(KeyNoteEvent::AllOff),
                ..before
            })
            &&& off.0.0 == (ChannelModel { keys: off.0.0.keys, ..w.0 })
            &&& off.1 == ChannelEffect::Nothing
            &&& killed.0.0.keys.len() == w.0.keys.len()
            &&& killed.0.0.keys[k] == (KeyModel {
                events: before.events.push(KeyNoteEvent::AllKilled),
                ..before
            })
            &&& killed.0.0 == (ChannelModel { keys: killed.0.0.keys, ..w.0 })
            &&& killed.1 == ChannelEffect::Nothing
            &&& reset.0.0.keys.len() == w.0.keys.len()
            &&& reset.0.0.keys[k].events.len() == 1
            &&& reset.0.0.keys[k].events[0] == KeyNoteEvent::AllKilled
            &&& reset.0.0.keys[k] == (KeyModel { events: reset.0.0.keys[k].events, ..before })
            &&& reset.0.0.params == w.0.params
            &&& reset.1 == ChannelEffect::SystemReset
            &&& off.0.1 == w.1 && killed.0.1 == w.1 && reset.0.1 == w.1
            &&& off.0.2 == w.2 && killed.0.2 == w.2 && reset.0.2 == w.2
        }),
{
}

/// A controller stands where its event says, and no other one moves. A reset takes all of them
/// to 0, and so does a reset of the system. The keys and the program take no notice of the
/// controllers.
pub proof fn controllers_stand_where_they_are_put(w: WholeChannel, n: u8, v: u8, cc: int)
    requires
        w.0.cc.len() == 128,
        0 <= cc < 128,
    ensures
        ({
            let control = ControlEvent::Raw(n, v);
            let moved = event_taken(
                w,
                ChannelEvent::Audio(ChannelAudioEvent::Control(control)),
            );
            let reset = event_taken(w, ChannelEvent::Audio(ChannelAudioEvent::ResetControl));
            let all = event_taken(w, ChannelEvent::Audio(ChannelAudioEvent::SystemReset));
            &&& moved.0.0.cc.len() == 128
            &&& moved.0.0.cc[cc] == (if cc == n {
                v
            } else {
                w.0.cc[cc]
            })
            &&& moved.0.0 == (ChannelModel { cc: moved.0.0.cc, ..w.0 })
            &&& moved.1 == ChannelEffect::Control(control)
            &&& reset.0.0.cc.len() == 128
            &&& reset.0.0.cc[cc] == 0
            &&& reset.0.0 == (ChannelModel { cc: reset.0.0.cc, ..w.0 })
            &&& reset.1 == ChannelEffect::ResetControl
            &&& all.0.0.cc.len() == 128
            &&& all.0.0.cc[cc] == 0
            &&& moved.0.1 == w.1 && moved.0.2 == w.2
            &&& reset.0.1 == w.1 && reset.0.2 == w.2
        }),
{
}

/// A row of events is taken one by one: the first of them, and then the others as if they had
/// come later.
pub proof fn events_come_one_by_one(w: WholeChannel, events: Seq<ChannelEvent>, n: int)
    requires
        0 <= n <= events.len(),
    ensures
        events_taken(w, events, 0).0 == w,
        events_taken(w, events, n).1.len() == n,
        n < events.len() ==> events_taken(w, events, n + 1) == (
            event_taken(events_taken(w, events, n).0, events[n]).0,
            events_taken(w, events, n).1.push(
                event_taken(events_taken(w, events, n).0, events[n]).1,
            ),
        ),
    decreases n,
{
    if n > 0 {
        events_come_one_by_one(w, events, n - 1);
    }
}

/// A block starts as many notes as the limit of the channel says, and all of them where there
/// is none.
pub proof fn bursts_follow_the_setting(params: VoiceChannelParams)
    ensures
        params.spawn_burst_limit is None <==> burst_budget(params) is None,
        params.spawn_burst_limit matches Some(n) ==> burst_budget(params) == Some(n as int),
{
}

/// The notes that wait are counted one by one: one more where a key gets one more note, and
/// no more where it gets another event. Of those that wait, no more are expected than may
/// start.
pub proof fn waiting_notes_are_counted(keys: Seq<KeyModel>, k: int, event: KeyNoteEvent, limit: int)
    requires
        0 <= k < keys.len(),
        0 <= limit,
    ensures
        ({
            let n = keys.len() as int;
            let more = keys.update(
                k,
                KeyModel { events: keys[k].events.push(event), ..keys[k] },
            );
            let now = notes_waiting(keys, n);
            &&& notes_waiting(more, n) == (if event is On {
                now + 1
            } else {
                now
            })
            &&& now <= limit ==> notes_expected(keys, limit) == now
            &&& now > limit ==> notes_expected(keys, limit) == limit
            &&& (forall|j: int| 0 <= j < n ==> (#[trigger] keys[j]).events.len() == 0) ==> now
                == 0
        }),
{
    waiting_after_one_more(keys, keys.len() as int, k, event);
    if forall|j: int| 0 <= j < keys.len() ==> (#[trigger] keys[j]).events.len() == 0 {
        nothing_waits(keys, keys.len() as int);
    }
}

proof fn waiting_after_one_more(keys: Seq<KeyModel>, n: int, k: int, event: KeyNoteEvent)
    requires
        0 <= n <= keys.len(),
        0 <= k < keys.len(),
    ensures
        notes_waiting(
            keys.update(k, KeyModel { events: keys[k].events.push(event), ..keys[k] }),
            n,
        ) == notes_waiting(keys, n) + (if event is On && k < n {
            1int
        } else {
            0
        }),
    decreases n,
{
    if n > 0 {
        waiting_after_one_more(keys, n - 1, k, event);
        assert(keys[k].events.push(event).drop_last() =~= keys[k].events);
    }
}

proof fn nothing_waits(keys: Seq<KeyModel>, n: int)
    requires
        0 <= n <= keys.len(),
        forall|j: int| 0 <= j < n ==> (#[trigger] keys[j]).events.len() == 0,
    ensures
        notes_waiting(keys, n) == 0,
    decreases n,
{
    if n > 0 {
        nothing_waits(keys, n - 1);
        assert(keys[n - 1].events.len() == 0);
    }
}

/// The notes of a channel are those that its voices belong to: every note that is listed has
/// a voice on its key, and one that is not on its way out has a voice there that waits for
/// the key to come up.
pub proof fn listed_notes_have_voices(keys: Seq<KeyModel>, n: int, i: int)
    requires
        0 <= n <= keys.len() <= usize::MAX,
        0 <= i < notes_of(keys, n).len(),
    ensures
        ({
            let note = notes_of(keys, n)[i];
            let members = keys[note.key as int].voices.members;
            &&& note.key < n
            &&& exists|j: int| 0 <= j < members.len() && (#[trigger] members[j]).id == note.id
            &&& !note.releasing ==> exists|j: int|
                0 <= j < members.len() && (#[trigger] members[j]).id == note.id
                    && !members[j].voice.releasing && !members[j].voice.killed
        }),
    decreases n,
{
    if n > 0 {
        let before = notes_of(keys, n - 1);
        if i < before.len() {
            listed_notes_have_voices(keys, n - 1, i);
            assert(notes_of(keys, n)[i] == before[i]);
        } else {
            let members = keys[n - 1].voices.members;
            groups_have_voices(members, members.len() as int, i - before.len());
        }
    }
}

proof fn groups_have_voices(members: Seq<Member>, n: int, i: int)
    requires
        0 <= n <= members.len(),
        0 <= i < groups(members, n).len(),
    ensures
        ({
            let group = groups(members, n)[i];
            &&& exists|j: int| 0 <= j < n && (#[trigger] members[j]).id == group.0
            &&& !group.1 ==> exists|j: int|
                0 <= j < n && (#[trigger] members[j]).id == group.0
                    && !members[j].voice.releasing && !members[j].voice.killed
        }),
    decreases n,
{
    if n > 0 {
        let before = groups(members, n - 1);
        let m = members[n - 1];
        if i < before.len() {
            groups_have_voices(members, n - 1, i);
        }
        assert(m.id == members[n - 1].id);
    }
}

/// Every voice of a channel belongs to a note that is listed, and one that waits for its key
/// to come up to a note that is not on its way out.
pub proof fn voices_have_listed_notes(keys: Seq<KeyModel>, n: int, k: int, j: int)
    requires
        0 <= k < n <= keys.len() <= usize::MAX,
        0 <= j < keys[k].voices.members.len(),
    ensures
        ({
            let notes = notes_of(keys, n);
            let m = keys[k].voices.members[j];
            &&& exists|i: int|
                0 <= i < notes.len() && (#[trigger] notes[i]).key == k && notes[i].id == m.id
            &&& !m.voice.releasing && !m.voice.killed ==> exists|i: int|
                0 <= i < notes.len() && (#[trigger] notes[i]).key == k && notes[i].id == m.id
                    && !notes[i].releasing
        }),
    decreases n,
{
    voices_belong_to_notes(keys, n, k, j);
    let m = keys[k].voices.members[j];
    let before = notes_of(keys, n - 1);
    let now = notes_of(keys, n);
    if !m.voice.releasing && !m.voice.killed {
        if k == n - 1 {
            let members = keys[k].voices.members;
            let all = groups(members, members.len() as int);
            waiting_voices_have_groups(members, members.len() as int, j);
            let i = choose|i: int|
                0 <= i < all.len() && (#[trigger] all[i]).0 == m.id && !all[i].1;
            assert(notes_of_key(keys[k], k)[i].id == m.id);
            let at = before.len() + i;
            assert(now[at].key == k && now[at].id == m.id && !now[at].releasing);
        } else {
            voices_have_listed_notes(keys, n - 1, k, j);
            let i = choose|i: int|
                0 <= i < before.len() && (#[trigger] before[i]).key == k && before[i].id == m.id
                    && !before[i].releasing;
            assert(now[i].key == k && now[i].id == m.id && !now[i].releasing);
        }
    }
}

proof fn waiting_voices_have_groups(members: Seq<Member>, n: int, j: int)
    requires
        0 <= j < n <= members.len(),
        !members[j].voice.releasing,
        !members[j].voice.killed,
    ensures
        exists|i: int|
            0 <= i < groups(members, n).len() && (#[trigger] groups(members, n)[i]).0
                == members[j].id && !groups(members, n)[i].1,
    decreases n,
{
    let before = groups(members, n - 1);
    let now = groups(members, n);
    if j == n - 1 {
        let i = now.len() - 1;
        assert(now[i].0 == members[j].id && !now[i].1);
    } else {
        waiting_voices_have_groups(members, n - 1, j);
        let i = choose|i: int|
            0 <= i < before.len() && (#[trigger] before[i]).0 == members[j].id && !before[i].1;
        assert(now[i].0 == members[j].id && !now[i].1);
    }
}

/// Enforcing the cap of a channel only kills voices, and only those of notes that go: the keys
/// keep the rest of what they have, and without a cap nothing happens at all.
pub proof fn capping_only_kills(m: ChannelModel, k: int, j: int)
    requires
        m.keys.len() == KEYS,
        0 <= k < m.keys.len(),
        0 <= j < m.keys[k].voices.members.len(),
    ensures
        ({
            let after = cap_enforced(m);
            let before = m.keys[k].voices.members[j];
            let now = after.keys[k].voices.members[j];
            let notes = notes_of(m.keys, m.keys.len() as int);
            let gone = drop_order(notes, notes.len() as int).take(notes_to_drop(m));
            &&& m.params.polyphony_cap is None ==> after == m
            &&& after.keys.len() == m.keys.len()
            &&& after.keys[k].events == m.keys[k].events
            &&& after.keys[k].last == m.keys[k].last
            &&& after.keys[k].voices.members.len() == m.keys[k].voices.members.len()
            &&& after == (ChannelModel { keys: after.keys, ..m })
            &&& now.id == before.id
            &&& now.voice == before.voice || now.voice == (VoiceModel {
                killed: true,
                ..before.voice
            })
            &&& now.voice != before.voice ==> lists_note(gone, k, before.id)
        }),
{
    if m.params.polyphony_cap is Some {
        let notes = notes_of(m.keys, m.keys.len() as int);
        let order = drop_order(notes, notes.len() as int);
        waiting_is_counted(m.keys, m.keys.len() as int);
        drop_order_is_right(notes, notes.len() as int);
        dropping_only_kills(m.keys, order, notes_to_drop(m), k, j);
    }
}

proof fn dropping_only_kills(
    keys: Seq<KeyModel>,
    list: Seq<NoteGroup>,
    n: int,
    k: int,
    j: int,
)
    requires
        0 <= n <= list.len(),
        0 <= k < keys.len(),
        0 <= j < keys[k].voices.members.len(),
    ensures
        ({
            let after = notes_dropped(keys, list, n);
            let before = keys[k].voices.members[j];
            let now = after[k].voices.members[j];
            &&& after.len() == keys.len()
            &&& after[k].events == keys[k].events
            &&& after[k].last == keys[k].last
            &&& after[k].voices.members.len() == keys[k].voices.members.len()
            &&& now.id == before.id
            &&& now.voice == before.voice || now.voice == (VoiceModel {
                killed: true,
                ..before.voice
            })
            &&& now.voice != before.voice ==> lists_note(list.take(n), k, before.id)
        }),
    decreases n,
{
    if n > 0 {
        dropping_only_kills(keys, list, n - 1, k, j);
        let note = list[n - 1];
        let shorter = list.take(n - 1);
        let before = keys[k].voices.members[j];
        let after = notes_dropped(keys, list, n);
        if after[k].voices.members[j].voice != before.voice {
            if lists_note(shorter, k, before.id) {
                let i = choose|i: int|
                    0 <= i < shorter.len() && (#[trigger] shorter[i]).key == k && shorter[i].id
                        == before.id;
                assert(list.take(n)[i].key == k);
            } else {
                assert(list.take(n)[n - 1].key == k);
            }
        }
    }
}


/// Notes on their way out are dropped before those that still wait for their key to come up,
/// and among either the older before the younger.
pub proof fn notes_are_dropped_by_age(list: Seq<NoteGroup>, i: int, j: int)
    requires
        0 <= i < j < list.len(),
    ensures
        ({
            let order = drop_order(list, list.len() as int);
            &&& order[j].releasing ==> order[i].releasing
            &&& order[i].releasing == order[j].releasing ==> order[i].id <= order[j].id
        }),
{
    drop_order_is_right(list, list.len() as int);
    let order = drop_order(list, list.len() as int);
    assert(goes_first(order[i], order[j]));
}


/// The voices that an event makes sound become a note of their own on its key, behind those
/// that are there. Voices that a release made sound do not wait for the key to come up any
/// more; of the others nothing changes. The next note gets the next number, and no other key
/// takes notice.
pub proof fn new_voices_are_a_new_note(
    m: ChannelModel,
    key: int,
    voices: Seq<VoiceModel>,
    release_triggered: bool,
    i: int,
)
    requires
        0 <= key < m.keys.len(),
        m.params.layers is None,
        0 <= i < voices.len(),
    ensures
        ({
            let after = voices_added(m, key, voices, release_triggered);
            let before = m.keys[key].voices.members;
            let now = after.keys[key].voices.members;
            let new = now[before.len() + i];
            &&& now.len() == before.len() + voices.len()
            &&& now.take(before.len() as int) == before
            &&& new.id == m.group_id
            &&& new.voice.velocity == voices[i].velocity
            &&& new.voice.exclusive_class == voices[i].exclusive_class
            &&& new.voice.killed == voices[i].killed
            &&& new.voice.releasing == (release_triggered || voices[i].releasing)
            &&& after.group_id == (m.group_id + 1) % 0x1_0000_0000_0000_0000
            &&& after.keys[key].events == m.keys[key].events
            &&& after.params == m.params && after.cc == m.cc
            &&& forall|k: int| 0 <= k < m.keys.len() && k != key ==> #[trigger] after.keys[k]
                == m.keys[k]
        }),
{
    let after = voices_added(m, key, voices, release_triggered);
    let before = m.keys[key].voices.members;
    assert(after.keys[key].voices.members.take(before.len() as int) =~= before);
}

/// A new note keeps to the layers of its channel: where it has no more voices than they
/// allow, its key has no more than that afterwards. Where killed voices fade out they do not
/// count; where they stop at once, none of the older voices may be killed already.
pub proof fn new_voices_keep_to_their_layers(
    m: ChannelModel,
    key: int,
    voices: Seq<VoiceModel>,
    release_triggered: bool,
    max: usize,
)
    requires
        0 <= key < m.keys.len(),
        m.params.layers == Some(max),
        voices.len() <= max,
        forall|i: int|
            0 <= i < m.keys[key].voices.members.len() ==> (
            #[trigger] m.keys[key].voices.members[i]).id != m.group_id,
        forall|i: int|
            0 <= i < m.keys[key].voices.members.len() ==> m.fade || !(
            #[trigger] m.keys[key].voices.members[i]).voice.killed,
    ensures
        load(voices_added(m, key, voices, release_triggered).keys[key].voices, m.fade) <= max,
{
    limit_is_kept(
        m.keys[key].voices,
        m.group_id,
        triggered(voices, release_triggered),
        max,
        m.fade,
    );
}

} // verus!
