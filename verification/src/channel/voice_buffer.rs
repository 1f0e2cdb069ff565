//! The voices of one key.
//!
//! Each note struck on the key makes a group of voices. Groups stand in the order in
//! which they were struck.

use crate::voice::{released, ReleaseType, Voice, VoiceModel};
use vstd::prelude::*;

verus! {

/// Options for initializing a new channel.
#[derive(Debug, Clone, Copy, PartialEq, Eq, Structural)]
pub struct ChannelInitOptions {
    /// Voices that have to give way fade out; else they stop at once.
    pub fade_out_killing: bool,
}

impl Default for ChannelInitOptions {
    fn default() -> (r: Self)
        ensures
            r == (ChannelInitOptions { fade_out_killing: false }),
    {
        ChannelInitOptions { fade_out_killing: false }
    }
}

/// A voice and the note that it belongs to.
#[derive(Debug)]
pub struct GroupVoice<V> {
    /// Lower numbers are older notes.
    pub id: u64,
    pub voice: V,
}

/// The model of a voice in a buffer.
pub struct Member {
    pub id: u64,
    pub voice: VoiceModel,
}

/// The voices of one key.
#[derive(Debug)]
pub struct VoiceBuffer<V> {
    pub options: ChannelInitOptions,
    pub buffer: Vec<GroupVoice<V>>,
    pub damper_held: bool,
    /// The notes whose keys have come up while the damper was held.
    pub held_by_damper: Vec<u64>,
}

/// The model of the voices of one key.
#[verifier::ext_equal]
pub struct BufferModel {
    pub members: Seq<Member>,
    pub damper_held: bool,
    pub held: Seq<u64>,
}

/// The models of the voices in a row.
pub open spec fn members_of<V: Voice>(voices: Seq<GroupVoice<V>>) -> Seq<Member> {
    voices.map_values(|g: GroupVoice<V>| Member { id: g.id, voice: g.voice.model() })
}

impl<V: Voice> View for VoiceBuffer<V> {
    type V = BufferModel;

    open spec fn view(&self) -> BufferModel {
        BufferModel {
            members: members_of(self.buffer@),
            damper_held: self.damper_held,
            held: self.held_by_damper@,
        }
    }
}

/// A voice that waits for its key to come up.
pub open spec fn waits(m: Member) -> bool {
    !m.voice.releasing && !m.voice.killed
}

/// A voice with `rel_type` signalled.
pub open spec fn signalled(m: Member, rel_type: ReleaseType) -> Member {
    Member { id: m.id, voice: released(m.voice, rel_type) }
}

/// The voices with `rel_type` signalled to those that `which` picks.
pub open spec fn signalled_where(
    members: Seq<Member>,
    which: spec_fn(int) -> bool,
    rel_type: ReleaseType,
) -> Seq<Member> {
    Seq::new(
        members.len(),
        |i: int|
            if which(i) {
                signalled(members[i], rel_type)
            } else {
                members[i]
            },
    )
}

/// A voice whose note can be made to give way to note `id`: one of another note that is
/// not killed.
pub open spec fn can_give_way(m: Member, id: u64) -> bool {
    m.id != id && !m.voice.killed
}

/// The softest of the first `n` voices whose notes can give way to note `ignored`; among
/// equals the first.
pub open spec fn softest(members: Seq<Member>, ignored: u64, n: int) -> Option<int>
    decreases n,
{
    if n <= 0 {
        None
    } else {
        let before = softest(members, ignored, n - 1);
        if can_give_way(members[n - 1], ignored) && (before matches Some(i) ==> members[n
            - 1].voice.velocity < members[i].voice.velocity) {
            Some(n - 1)
        } else {
            before
        }
    }
}

/// The voices with those of note `id` killed.
pub open spec fn note_killed(members: Seq<Member>, id: u64) -> Seq<Member> {
    members.map_values(
        |m: Member|
            if m.id == id {
                signalled(m, ReleaseType::Kill)
            } else {
                m
            },
    )
}

/// The voices of other notes than `id`.
pub open spec fn of_other_notes(members: Seq<Member>, id: u64) -> Seq<Member> {
    members.filter(|m: Member| m.id != id)
}

/// A row without the first `x` in it.
pub open spec fn without_first(s: Seq<u64>, x: u64) -> Seq<u64>
    decreases s.len(),
{
    if s.len() == 0 {
        s
    } else if s[0] == x {
        s.drop_first()
    } else {
        seq![s[0]] + without_first(s.drop_first(), x)
    }
}

/// The voices after the quietest note has given way: all its voices are killed, or taken
/// out where they do not fade.
pub open spec fn quietest_popped(b: BufferModel, ignored: u64, fade: bool) -> BufferModel {
    match softest(b.members, ignored, b.members.len() as int) {
        Some(i) => BufferModel {
            members: if fade {
                note_killed(b.members, b.members[i].id)
            } else {
                of_other_notes(b.members, b.members[i].id)
            },
            held: without_first(b.held, b.members[i].id),
            ..b
        },
        None => b,
    }
}

/// How many voices are not killed.
pub open spec fn active_count(members: Seq<Member>) -> int
    decreases members.len(),
{
    if members.len() == 0 {
        0
    } else {
        active_count(members.drop_last()) + if members.last().voice.killed {
            0int
        } else {
            1
        }
    }
}

/// How many of some voices count against the limit of a key: killed voices that fade out do
/// not.
pub open spec fn whole_load(members: Seq<Member>, fade: bool) -> int {
    if fade {
        active_count(members)
    } else {
        members.len() as int
    }
}

/// How many voices count against the limit of a key.
pub open spec fn load(b: BufferModel, fade: bool) -> int {
    whole_load(b.members, fade)
}

/// The voices after the quietest have given way, again and again, until the rest are
/// within `limit` or none is left that could give way.
pub open spec fn trimmed(b: BufferModel, ignored: u64, limit: int, fade: bool) -> BufferModel
    decreases load(b, fade),
{
    let next = quietest_popped(b, ignored, fade);
    if load(b, fade) <= limit {
        b
    } else if 0 <= load(next, fade) < load(b, fade) {
        trimmed(next, ignored, limit, fade)
    } else {
        next
    }
}

/// The voices of a new note, in order.
pub open spec fn group_of(id: u64, voices: Seq<VoiceModel>) -> Seq<Member> {
    voices.map_values(|v: VoiceModel| Member { id, voice: v })
}

/// The voices after a new note with as many voices as `len`, within `limit`. A note
/// that exceeds the limit all by itself makes the quietest other note give way.
pub open spec fn pushed(
    b: BufferModel,
    id: u64,
    voices: Seq<VoiceModel>,
    limit: Option<usize>,
    fade: bool,
) -> BufferModel {
    let grown = BufferModel { members: b.members + group_of(id, voices), ..b };
    match limit {
        None => grown,
        Some(max) => if voices.len() > max {
            quietest_popped(grown, id, fade)
        } else {
            trimmed(grown, id, max as int, fade)
        },
    }
}

/// The models of voices.
pub open spec fn models<V: Voice>(voices: Seq<V>) -> Seq<VoiceModel> {
    voices.map_values(|v: V| v.model())
}

/// The first voice from `at` on that waits for its key and, where `other` is given,
/// belongs to another note than that.
pub open spec fn next_waiting(members: Seq<Member>, at: int, other: Option<u64>) -> int
    decreases members.len() - at,
{
    if 0 <= at < members.len() && (!waits(members[at]) || other == Some(members[at].id)) {
        next_waiting(members, at + 1, other)
    } else {
        at
    }
}

/// The first voice from `at` on that neither is releasing nor belongs to a note in
/// `held`.
pub open spec fn next_unheld(members: Seq<Member>, held: Seq<u64>, at: int) -> int
    decreases members.len() - at,
{
    if 0 <= at < members.len() && (members[at].voice.releasing || held.contains(members[at].id)) {
        next_unheld(members, held, at + 1)
    } else {
        at
    }
}

/// The voices after one key-up, and how hard the note was struck that it releases:
/// the oldest note that waits. While the damper is held, the note is only noted.
pub open spec fn next_released(b: BufferModel) -> (BufferModel, Option<u8>) {
    if b.damper_held {
        let at = next_unheld(b.members, b.held, 0);
        (
            if at < b.members.len() {
                BufferModel { held: b.held.push(b.members[at].id), ..b }
            } else {
                b
            },
            None,
        )
    } else {
        let at = next_waiting(b.members, 0, None);
        if at < b.members.len() {
            let stop = next_waiting(b.members, at, Some(b.members[at].id));
            (
                BufferModel {
                    members: signalled_where(
                        b.members,
                        |i: int| at <= i < stop && waits(b.members[i]),
                        ReleaseType::Standard,
                    ),
                    ..b
                },
                Some(b.members[at].voice.velocity),
            )
        } else {
            (b, None)
        }
    }
}

/// The notes that wait among the first `n` voices, added to those in `held`.
pub open spec fn all_held(members: Seq<Member>, held: Seq<u64>, n: int) -> Seq<u64>
    decreases n,
{
    if n <= 0 {
        held
    } else {
        let before = all_held(members, held, n - 1);
        if waits(members[n - 1]) && !before.contains(members[n - 1].id) {
            before.push(members[n - 1].id)
        } else {
            before
        }
    }
}

/// The last note that waits among the first `n` voices.
pub open spec fn last_waiting(members: Seq<Member>, n: int) -> Option<u64>
    decreases n,
{
    if n <= 0 {
        None
    } else if waits(members[n - 1]) {
        Some(members[n - 1].id)
    } else {
        last_waiting(members, n - 1)
    }
}

/// How hard the notes were struck that wait among the first `n` voices, one velocity
/// for each note.
pub open spec fn waiting_velocities(members: Seq<Member>, n: int) -> Seq<u8>
    decreases n,
{
    if n <= 0 {
        Seq::empty()
    } else {
        let before = waiting_velocities(members, n - 1);
        if waits(members[n - 1]) && last_waiting(members, n - 1) != Some(members[n - 1].id) {
            before.push(members[n - 1].voice.velocity)
        } else {
            before
        }
    }
}

/// The voices after all their keys have come up, and how hard the notes were struck
/// that this releases.
pub open spec fn all_released(b: BufferModel) -> (BufferModel, Seq<u8>) {
    if b.damper_held {
        (
            BufferModel { held: all_held(b.members, b.held, b.members.len() as int), ..b },
            Seq::empty(),
        )
    } else {
        (
            BufferModel {
                members: signalled_where(
                    b.members,
                    |i: int| waits(b.members[i]),
                    ReleaseType::Standard,
                ),
                ..b
            },
            waiting_velocities(b.members, b.members.len() as int),
        )
    }
}

/// The voices after the damper has moved. Lifting it releases the notes whose keys
/// came up while it was held.
pub open spec fn damper_set(b: BufferModel, damper: bool) -> BufferModel {
    if b.damper_held && !damper {
        BufferModel {
            members: signalled_where(
                b.members,
                |i: int| b.held.contains(b.members[i].id),
                ReleaseType::Standard,
            ),
            held: Seq::empty(),
            damper_held: false,
        }
    } else {
        BufferModel { damper_held: damper, ..b }
    }
}

/// The notes among the first `n` voices, each with whether all its voices are on
/// their way out. Voices of one note that stand together count as one.
pub open spec fn groups(members: Seq<Member>, n: int) -> Seq<(u64, bool)>
    decreases n,
{
    if n <= 0 {
        Seq::empty()
    } else {
        let before = groups(members, n - 1);
        let m = members[n - 1];
        if before.len() > 0 && before.last().0 == m.id {
            before.drop_last().push((m.id, before.last().1 && !waits(m)))
        } else {
            before.push((m.id, !waits(m)))
        }
    }
}

/// The notes other than one.
pub open spec fn other_than(id: u64) -> spec_fn(u64) -> bool {
    |x: u64| x != id
}

/// The voices after a note has been dropped.
pub open spec fn group_dropped(b: BufferModel, id: u64) -> BufferModel {
    BufferModel {
        members: signalled_where(
            b.members,
            |i: int| b.members[i].id == id && !b.members[i].voice.killed,
            ReleaseType::Kill,
        ),
        held: b.held.filter(other_than(id)),
        ..b
    }
}

/// How many voices of a note are not killed.
pub open spec fn group_size(members: Seq<Member>, id: u64, n: int) -> int
    decreases n,
{
    if n <= 0 {
        0
    } else {
        group_size(members, id, n - 1) + if members[n - 1].id == id && !members[n
            - 1].voice.killed {
            1int
        } else {
            0
        }
    }
}

proof fn next_waiting_bounds(members: Seq<Member>, at: int, other: Option<u64>)
    requires
        0 <= at <= members.len(),
    ensures
        ({
            let next = next_waiting(members, at, other);
            &&& at <= next <= members.len()
            &&& next < members.len() ==> waits(members[next]) && other != Some(members[next].id)
            &&& forall|i: int|
                at <= i < next ==> !waits(#[trigger] members[i]) || other == Some(members[i].id)
        }),
    decreases members.len() - at,
{
    if at < members.len() && (!waits(members[at]) || other == Some(members[at].id)) {
        next_waiting_bounds(members, at + 1, other);
    }
}

/// A key-up with the damper up releases one note: the oldest that waits. It touches
/// no other voice, and in particular none that is releasing or killed already. It
/// finds a note as long as one waits.
pub proof fn key_up_releases_the_oldest_waiting_note(b: BufferModel)
    requires
        !b.damper_held,
    ensures
        ({
            let (next, velocity) = next_released(b);
            let at = next_waiting(b.members, 0, None);
            &&& velocity is Some <==> exists|i: int| 0 <= i < b.members.len() && waits(b.members[i])
            &&& forall|i: int| 0 <= i < at && at <= b.members.len() ==> !waits(b.members[i])
            &&& velocity is Some ==> 0 <= at < b.members.len() && waits(b.members[at])
                && velocity == Some(b.members[at].voice.velocity) && !waits(next.members[at])
            &&& next.members.len() == b.members.len()
            &&& forall|i: int|
                0 <= i < b.members.len() && #[trigger] next.members[i] != b.members[i] ==> waits(
                    b.members[i],
                ) && b.members[i].id == b.members[at].id && next.members[i].voice.releasing
        }),
{
    let at = next_waiting(b.members, 0, None);
    next_waiting_bounds(b.members, 0, None);
    if at < b.members.len() {
        assert(waits(b.members[at]));
        next_waiting_bounds(b.members, at, Some(b.members[at].id));
    }
}

/// While the damper is held a key-up releases nothing, and when the damper is lifted
/// the voices of the notes whose keys came up are released, and no others.
pub proof fn damper_defers_releases(b: BufferModel)
    requires
        b.damper_held,
    ensures
        next_released(b).0.members == b.members,
        next_released(b).1 is None,
        all_released(b).0.members == b.members,
        all_released(b).1.len() == 0,
        forall|i: int|
            0 <= i < b.members.len() ==> (#[trigger] damper_set(b, false).members[i]) == (
            if b.held.contains(b.members[i].id) {
                signalled(b.members[i], ReleaseType::Standard)
            } else {
                b.members[i]
            }),
        damper_set(b, false).held.len() == 0,
{
}

/// The voices after `n` key-ups.
pub open spec fn keyed_up(b: BufferModel, n: nat) -> BufferModel
    decreases n,
{
    if n == 0 {
        b
    } else {
        next_released(keyed_up(b, (n - 1) as nat)).0
    }
}

/// The notes among the first `n` voices whose keys are still down: those that are neither
/// releasing nor in `held`, each once, the oldest first.
pub open spec fn still_down(members: Seq<Member>, held: Seq<u64>, n: int) -> Seq<u64>
    decreases n,
{
    if n <= 0 {
        Seq::empty()
    } else {
        let before = still_down(members, held, n - 1);
        let m = members[n - 1];
        if !m.voice.releasing && !held.contains(m.id) && !before.contains(m.id) {
            before.push(m.id)
        } else {
            before
        }
    }
}

proof fn next_unheld_is_first(members: Seq<Member>, held: Seq<u64>, from: int, at: int)
    requires
        0 <= from <= at <= members.len(),
        forall|j: int|
            from <= j < at ==> (#[trigger] members[j]).voice.releasing || held.contains(
                members[j].id,
            ),
        at < members.len() ==> !members[at].voice.releasing && !held.contains(members[at].id),
    ensures
        next_unheld(members, held, from) == at,
    decreases at - from,
{
    if from < at {
        assert(members[from].voice.releasing || held.contains(members[from].id));
        next_unheld_is_first(members, held, from + 1, at);
    }
}

/// The first voice whose note is not among the `k` oldest of those whose keys are down.
proof fn next_note_down(members: Seq<Member>, held: Seq<u64>, n: int, k: int) -> (at: int)
    requires
        0 <= n <= members.len(),
        0 <= k <= still_down(members, held, n).len(),
    ensures
        0 <= at <= n,
        forall|j: int|
            0 <= j < at ==> (#[trigger] members[j]).voice.releasing || (held + still_down(
                members,
                held,
                n,
            ).take(k)).contains(members[j].id),
        k == still_down(members, held, n).len() ==> at == n,
        k < still_down(members, held, n).len() ==> at < n && !members[at].voice.releasing && !(held
            + still_down(members, held, n).take(k)).contains(members[at].id) && members[at].id
            == still_down(members, held, n)[k],
    decreases n,
{
    if n == 0 {
        0
    } else {
        let before = still_down(members, held, n - 1);
        let now = still_down(members, held, n);
        let m = members[n - 1];
        if k <= before.len() {
            let at = next_note_down(members, held, n - 1, k);
            assert(now.take(k) =~= before.take(k));
            let h = held + now.take(k);
            if k < before.len() {
                at
            } else {
                assert(before.take(k) =~= before);
                if now.len() == before.len() {
                    if !m.voice.releasing {
                        if held.contains(m.id) {
                            let i = choose|i: int| 0 <= i < held.len() && held[i] == m.id;
                            assert(h[i] == m.id);
                        } else {
                            let i = choose|i: int| 0 <= i < before.len() && before[i] == m.id;
                            assert(h[held.len() + i] == m.id);
                        }
                    }
                    n
                } else {
                    if h.contains(m.id) {
                        let i = choose|i: int| 0 <= i < h.len() && h[i] == m.id;
                        if i < held.len() {
                            assert(held[i] == m.id);
                        } else {
                            assert(before[i - held.len()] == m.id);
                        }
                    }
                    n - 1
                }
            }
        } else {
            let at = next_note_down(members, held, n - 1, before.len() as int);
            assert(before.take(before.len() as int) =~= before);
            assert(now.take(k) =~= before.push(m.id));
            let h = held + now.take(k);
            assert forall|j: int| 0 <= j < n implies (#[trigger] members[j]).voice.releasing
                || h.contains(members[j].id) by {
                if j == n - 1 {
                    assert(h[h.len() - 1] == m.id);
                } else if !members[j].voice.releasing {
                    let g = held + before;
                    let i = choose|i: int| 0 <= i < g.len() && g[i] == members[j].id;
                    assert(h[i] == g[i]);
                }
            }
            n
        }
    }
}

/// While the damper is held, a row of key-ups notes one note after the other, the oldest
/// first, until all are noted. When the damper is lifted, the voices of those notes are
/// released, and no others.
pub proof fn damper_holds_a_row_of_notes(b: BufferModel, n: nat)
    requires
        b.damper_held,
    ensures
        ({
            let down = still_down(b.members, b.held, b.members.len() as int);
            let noted = down.take(
                if n < down.len() {
                    n as int
                } else {
                    down.len() as int
                },
            );
            &&& keyed_up(b, n) == (BufferModel { held: b.held + noted, ..b })
            &&& forall|i: int|
                0 <= i < b.members.len() ==> (#[trigger] damper_set(
                    keyed_up(b, n),
                    false,
                ).members[i]) == (if (b.held + noted).contains(b.members[i].id) {
                    signalled(b.members[i], ReleaseType::Standard)
                } else {
                    b.members[i]
                })
        }),
    decreases n,
{
    let len = b.members.len() as int;
    let down = still_down(b.members, b.held, len);
    if n == 0 {
        assert(b.held + down.take(0) =~= b.held);
    } else {
        damper_holds_a_row_of_notes(b, (n - 1) as nat);
        let before = keyed_up(b, (n - 1) as nat);
        let k = if n - 1 < down.len() {
            n - 1
        } else {
            down.len() as int
        };
        let at = next_note_down(b.members, b.held, len, k);
        next_unheld_is_first(before.members, before.held, 0, at);
        if k < down.len() {
            assert(b.held + down.take(k + 1) =~= (b.held + down.take(k)).push(down[k]));
        }
    }
}

proof fn no_velocities_without_waiting(members: Seq<Member>, n: int)
    requires
        0 <= n <= members.len(),
        forall|i: int| 0 <= i < members.len() ==> !waits(#[trigger] members[i]),
    ensures
        waiting_velocities(members, n) == Seq::<u8>::empty(),
    decreases n,
{
    if n > 0 {
        no_velocities_without_waiting(members, n - 1);
        assert(!waits(members[n - 1]));
    }
}

/// After all keys have come up with the damper up no voice waits any more, so that
/// doing it again releases nothing.
pub proof fn all_keys_up_happens_once(b: BufferModel)
    requires
        !b.damper_held,
    ensures
        ({
            let next = all_released(b).0;
            &&& forall|i: int| 0 <= i < next.members.len() ==> !waits(#[trigger] next.members[i])
            &&& all_released(next).1.len() == 0
            &&& next_released(next).1 is None
        }),
{
    let next = all_released(b).0;
    assert forall|i: int| 0 <= i < next.members.len() implies !waits(#[trigger] next.members[i]) by {
        assert(b.members[i] == b.members[i]);
    }
    no_velocities_without_waiting(next.members, next.members.len() as int);
    next_waiting_bounds(next.members, 0, None);
}

/// The voices that a key-up makes sound are passed over by the key-ups after it.
pub proof fn release_triggered_voices_do_not_wait(
    b: BufferModel,
    id: u64,
    voices: Seq<VoiceModel>,
    fade: bool,
    i: int,
)
    requires
        b.members.len() <= i < b.members.len() + voices.len(),
    ensures
        !waits(
            pushed(
                b,
                id,
                voices.map_values(|v: VoiceModel| VoiceModel { releasing: true, ..v }),
                None,
                fade,
            ).members[i],
        ),
{
}

proof fn filtered_lacks(s: Seq<u64>, id: u64)
    ensures
        !s.filter(other_than(id)).contains(id),
    decreases s.len(),
{
    reveal(Seq::filter);
    if s.len() > 0 {
        filtered_lacks(s.drop_last(), id);
        let rest = s.drop_last().filter(other_than(id));
        if s.last() != id {
            assert forall|i: int| 0 <= i < rest.push(s.last()).len() implies rest.push(s.last())[i]
                != id by {
                if i < rest.len() {
                    assert(rest.contains(rest[i]));
                }
            }
        }
    }
}

/// Dropping a note kills all its voices, keeps the damper from holding it, and leaves
/// the voices of other notes alone.
pub proof fn dropped_note_is_gone(b: BufferModel, id: u64)
    ensures
        ({
            let next = group_dropped(b, id);
            &&& next.members.len() == b.members.len()
            &&& forall|i: int|
                0 <= i < b.members.len() && b.members[i].id == id ==> (
                #[trigger] next.members[i]).voice.killed
            &&& forall|i: int|
                0 <= i < b.members.len() && b.members[i].id != id ==> #[trigger] next.members[i]
                    == b.members[i]
            &&& !next.held.contains(id)
        }),
{
    filtered_lacks(b.held, id);
}

/// How many voices of note `id` count against the limit of a key.
pub open spec fn own_load(members: Seq<Member>, id: u64, fade: bool) -> int
    decreases members.len(),
{
    if members.len() == 0 {
        0
    } else {
        let m = members.last();
        own_load(members.drop_last(), id, fade) + if m.id == id && !(fade && m.voice.killed) {
            1int
        } else {
            0
        }
    }
}

proof fn loads_of_a_new_note(members: Seq<Member>, id: u64, voices: Seq<VoiceModel>, fade: bool)
    requires
        forall|i: int| 0 <= i < members.len() ==> (#[trigger] members[i]).id != id,
    ensures
        0 <= own_load(members + group_of(id, voices), id, fade) <= voices.len(),
    decreases members.len() + voices.len(),
{
    let all = members + group_of(id, voices);
    if voices.len() > 0 {
        assert(all.drop_last() =~= members + group_of(id, voices.drop_last()));
        loads_of_a_new_note(members, id, voices.drop_last(), fade);
    } else if members.len() > 0 {
        assert(all =~= members);
        assert(members.drop_last() + group_of(id, voices) =~= members.drop_last());
        assert(members[members.len() - 1].id != id);
        assert forall|i: int| 0 <= i < members.drop_last().len() implies (
        #[trigger] members.drop_last()[i]).id != id by {
            assert(members.drop_last()[i] == members[i]);
        }
        loads_of_a_new_note(members.drop_last(), id, voices, fade);
    }
}

proof fn some_voice_gives_way(members: Seq<Member>, id: u64, fade: bool)
    requires
        forall|i: int|
            0 <= i < members.len() ==> fade || (#[trigger] members[i]).id == id
                || !members[i].voice.killed,
        own_load(members, id, fade) < whole_load(members, fade),
    ensures
        exists|i: int| 0 <= i < members.len() && can_give_way(members[i], id),
    decreases members.len(),
{
    let last = members.len() - 1;
    if !can_give_way(members[last], id) {
        let rest = members.drop_last();
        assert forall|i: int| 0 <= i < rest.len() implies fade || (#[trigger] rest[i]).id == id
            || !rest[i].voice.killed by {
            assert(rest[i] == members[i]);
        }
        some_voice_gives_way(rest, id, fade);
        let i = choose|i: int| 0 <= i < rest.len() && can_give_way(rest[i], id);
        assert(can_give_way(members[i], id));
    }
}

proof fn softest_is_found(members: Seq<Member>, ignored: u64, n: int)
    requires
        0 <= n <= members.len(),
    ensures
        match softest(members, ignored, n) {
            Some(i) => {
                &&& 0 <= i < n
                &&& can_give_way(members[i], ignored)
                &&& forall|j: int|
                    0 <= j < n && can_give_way(#[trigger] members[j], ignored)
                        ==> members[i].voice.velocity <= members[j].voice.velocity
                &&& forall|j: int|
                    0 <= j < i && can_give_way(#[trigger] members[j], ignored)
                        ==> members[i].voice.velocity < members[j].voice.velocity
            },
            None => forall|j: int| 0 <= j < n ==> !can_give_way(#[trigger] members[j], ignored),
        },
    decreases n,
{
    if n > 0 {
        softest_is_found(members, ignored, n - 1);
    }
}

proof fn killing_a_note(members: Seq<Member>, id: u64, other: u64)
    requires
        id != other,
    ensures
        own_load(note_killed(members, id), other, true) == own_load(members, other, true),
        0 <= active_count(note_killed(members, id)) <= active_count(members),
        (exists|i: int| 0 <= i < members.len() && members[i].id == id && !members[i].voice.killed)
            ==> active_count(note_killed(members, id)) < active_count(members),
    decreases members.len(),
{
    if members.len() > 0 {
        let rest = members.drop_last();
        killing_a_note(rest, id, other);
        assert(note_killed(members, id).drop_last() =~= note_killed(rest, id));
        if exists|i: int| 0 <= i < members.len() && members[i].id == id && !members[i].voice.killed {
            let i = choose|i: int|
                0 <= i < members.len() && members[i].id == id && !members[i].voice.killed;
            if i < rest.len() {
                assert(rest[i].id == id && !rest[i].voice.killed);
            }
        }
    }
}

proof fn removing_a_note(members: Seq<Member>, id: u64, other: u64)
    requires
        id != other,
    ensures
        own_load(of_other_notes(members, id), other, false) == own_load(members, other, false),
        of_other_notes(members, id).len() <= members.len(),
        (exists|i: int| 0 <= i < members.len() && members[i].id == id) ==> of_other_notes(
            members,
            id,
        ).len() < members.len(),
        forall|j: int|
            0 <= j < of_other_notes(members, id).len() ==> members.contains(
                #[trigger] of_other_notes(members, id)[j],
            ) && of_other_notes(members, id)[j].id != id,
    decreases members.len(),
{
    reveal(Seq::filter);
    if members.len() > 0 {
        let rest = members.drop_last();
        removing_a_note(rest, id, other);
        let kept = of_other_notes(rest, id);
        let all = of_other_notes(members, id);
        if members.last().id != id {
            assert(all.drop_last() =~= kept);
        }
        if exists|i: int| 0 <= i < members.len() && members[i].id == id {
            let i = choose|i: int| 0 <= i < members.len() && members[i].id == id;
            if i < rest.len() {
                assert(rest[i].id == id);
            }
        }
        assert forall|j: int| 0 <= j < all.len() implies members.contains(#[trigger] all[j])
            && all[j].id != id by {
            if j < kept.len() {
                assert(all[j] == kept[j]);
                assert(rest.contains(kept[j]));
                let k = choose|k: int| 0 <= k < rest.len() && rest[k] == kept[j];
                assert(members[k] == all[j]);
            } else {
                assert(all[j] == members[members.len() - 1]);
            }
        }
    }
}

proof fn trimming_reaches_the_limit(b: BufferModel, id: u64, limit: int, fade: bool)
    requires
        forall|i: int|
            0 <= i < b.members.len() ==> fade || (#[trigger] b.members[i]).id == id
                || !b.members[i].voice.killed,
        own_load(b.members, id, fade) <= limit,
    ensures
        load(trimmed(b, id, limit, fade), fade) <= limit,
    decreases load(b, fade),
{
    if load(b, fade) > limit {
        some_voice_gives_way(b.members, id, fade);
        softest_is_found(b.members, id, b.members.len() as int);
        let i = softest(b.members, id, b.members.len() as int)->0;
        let victim = b.members[i].id;
        let next = quietest_popped(b, id, fade);
        if fade {
            killing_a_note(b.members, victim, id);
        } else {
            removing_a_note(b.members, victim, id);
            assert forall|j: int| 0 <= j < next.members.len() implies (
            #[trigger] next.members[j]).id == id || !next.members[j].voice.killed by {
                assert(b.members.contains(next.members[j]));
                let k = choose|k: int| 0 <= k < b.members.len() && b.members[k] == next.members[j];
                assert(b.members[k].id == id || !b.members[k].voice.killed);
            }
        }
        trimming_reaches_the_limit(next, id, limit, fade);
    }
}

/// A key never has more voices than its limit where a new note fits into the limit: as many
/// older notes give way as it takes. Where killed voices fade out they do not count; where
/// voices that give way stop at once, none of the older voices may be killed already.
pub proof fn limit_is_kept(
    b: BufferModel,
    id: u64,
    voices: Seq<VoiceModel>,
    max: usize,
    fade: bool,
)
    requires
        voices.len() <= max,
        forall|i: int| 0 <= i < b.members.len() ==> (#[trigger] b.members[i]).id != id,
        forall|i: int|
            0 <= i < b.members.len() ==> fade || !(#[trigger] b.members[i]).voice.killed,
    ensures
        load(pushed(b, id, voices, Some(max), fade), fade) <= max,
{
    let grown = BufferModel { members: b.members + group_of(id, voices), ..b };
    loads_of_a_new_note(b.members, id, voices, fade);
    trimming_reaches_the_limit(grown, id, max as int, fade);
}

proof fn first_is_taken_out(s: Seq<u64>, x: u64)
    requires
        s.no_duplicates(),
    ensures
        !without_first(s, x).contains(x),
        forall|y: u64| #[trigger] without_first(s, x).contains(y) ==> s.contains(y),
    decreases s.len(),
{
    if s.len() > 0 {
        let rest = s.drop_first();
        assert forall|y: u64| #[trigger] rest.contains(y) implies s.contains(y) by {
            let k = choose|k: int| 0 <= k < rest.len() && rest[k] == y;
            assert(s[k + 1] == y);
        }
        if s[0] == x {
            if rest.contains(x) {
                let k = choose|k: int| 0 <= k < rest.len() && rest[k] == x;
                assert(s[k + 1] == x);
            }
        } else {
            assert(rest.no_duplicates());
            first_is_taken_out(rest, x);
            let next = without_first(s, x);
            assert forall|y: u64| #[trigger] next.contains(y) implies s.contains(y) && y != x by {
                let k = choose|k: int| 0 <= k < next.len() && next[k] == y;
                if k > 0 {
                    assert(without_first(rest, x)[k - 1] == y);
                    assert(without_first(rest, x).contains(y));
                } else {
                    assert(s[0] == y);
                }
            }
        }
    }
}

/// As long as a note can give way, exactly one does: one whose softest voice is as soft as
/// any other that could, and the earliest of those. All its voices are killed where voices
/// fade out, else they are taken out; all other voices keep their order and state, and the
/// damper does not hold the note any more.
pub proof fn softest_note_gives_way(b: BufferModel, ignored: u64, fade: bool)
    requires
        exists|i: int| 0 <= i < b.members.len() && can_give_way(b.members[i], ignored),
    ensures
        ({
            let found = softest(b.members, ignored, b.members.len() as int);
            let i = found->0;
            let id = b.members[i].id;
            let next = quietest_popped(b, ignored, fade);
            &&& found is Some
            &&& 0 <= i < b.members.len()
            &&& can_give_way(b.members[i], ignored)
            &&& forall|j: int|
                0 <= j < b.members.len() && can_give_way(#[trigger] b.members[j], ignored)
                    ==> b.members[i].voice.velocity <= b.members[j].voice.velocity
            &&& forall|j: int|
                0 <= j < i && can_give_way(#[trigger] b.members[j], ignored)
                    ==> b.members[i].voice.velocity < b.members[j].voice.velocity
            &&& fade ==> next.members.len() == b.members.len()
            &&& forall|j: int|
                fade && 0 <= j < b.members.len() ==> (#[trigger] next.members[j]) == (
                if b.members[j].id == id {
                    signalled(b.members[j], ReleaseType::Kill)
                } else {
                    b.members[j]
                })
            &&& !fade ==> next.members == b.members.filter(|m: Member| m.id != id)
            &&& b.held.no_duplicates() ==> !next.held.contains(id)
            &&& next.damper_held == b.damper_held
        }),
{
    softest_is_found(b.members, ignored, b.members.len() as int);
    let i = softest(b.members, ignored, b.members.len() as int)->0;
    if b.held.no_duplicates() {
        first_is_taken_out(b.held, b.members[i].id);
    }
}

proof fn without_first_at(s: Seq<u64>, x: u64, at: int)
    requires
        0 <= at <= s.len(),
        forall|j: int| 0 <= j < at ==> s[j] != x,
        at < s.len() ==> s[at] == x,
    ensures
        without_first(s, x) == (if at < s.len() {
            s.remove(at)
        } else {
            s
        }),
    decreases s.len(),
{
    if at > 0 {
        let rest = s.drop_first();
        assert forall|j: int| 0 <= j < at - 1 implies rest[j] != x by {
            assert(rest[j] == s[j + 1]);
        }
        without_first_at(rest, x, at - 1);
        assert(s[0] != x);
        if at < s.len() {
            assert(seq![s[0]] + rest.remove(at - 1) =~= s.remove(at));
        } else {
            assert(seq![s[0]] + rest =~= s);
        }
    } else if s.len() > 0 {
        assert(s.drop_first() =~= s.remove(0));
    }
}

/// Whether a note is among those in a list.
fn holds(list: &Vec<u64>, id: u64) -> (r: bool)
    ensures
        r == list@.contains(id),
{
    let mut i: usize = 0;
    while i < list.len()
        invariant
            i <= list.len(),
            forall|j: int| 0 <= j < i ==> list@[j] != id,
        decreases list.len() - i,
    {
        if list[i] == id {
            return true;
        }
        i = i + 1;
    }
    false
}

/// The notes in a list but one.
fn without_all(list: &Vec<u64>, id: u64) -> (r: Vec<u64>)
    ensures
        r@ == list@.filter(other_than(id)),
{
    let ghost other = other_than(id);
    let mut kept: Vec<u64> = Vec::new();
    let mut k: usize = 0;
    assert(list@.take(0).filter(other) =~= Seq::empty()) by {
        reveal(Seq::filter);
    }
    while k < list.len()
        invariant
            other == other_than(id),
            k <= list.len(),
            kept@ == list@.take(k as int).filter(other),
        decreases list.len() - k,
    {
        assert(list@.take(k + 1).drop_last() =~= list@.take(k as int));
        proof {
            reveal(Seq::filter);
        }
        if list[k] != id {
            kept.push(list[k]);
        }
        k = k + 1;
    }
    assert(list@.take(k as int) =~= list@);
    kept
}

impl<V: Voice> VoiceBuffer<V> {
    /// A key without voices.
    pub fn new(options: ChannelInitOptions) -> (r: VoiceBuffer<V>)
        ensures
            r@ == (BufferModel { members: Seq::empty(), damper_held: false, held: Seq::empty() }),
            r.options == options,
    {
        let r = VoiceBuffer {
            options,
            buffer: Vec::new(),
            damper_held: false,
            held_by_damper: Vec::new(),
        };
        assert(r@.members =~= Seq::empty());
        r
    }

    /// Signals a release to one voice.
    fn signal(&mut self, i: usize, rel_type: ReleaseType)
        requires
            i < old(self).buffer.len(),
        ensures
            final(self)@ == (BufferModel {
                members: old(self)@.members.update(
                    i as int,
                    signalled(old(self)@.members[i as int], rel_type),
                ),
                ..old(self)@
            }),
            final(self).options == old(self).options,
            final(self).buffer.len() == old(self).buffer.len(),
    {
        let ghost before = self@;
        self.buffer[i].voice.signal_release(rel_type);
        assert(self@.members =~= before.members.update(
            i as int,
            signalled(before.members[i as int], rel_type),
        ));
    }

    /// Kills the voices of a note.
    fn kill_note(&mut self, id: u64)
        ensures
            final(self)@ == (BufferModel {
                members: note_killed(old(self)@.members, id),
                ..old(self)@
            }),
            final(self).options == old(self).options,
    {
        let ghost b = self@;
        let ghost goal = note_killed(b.members, id);
        let mut i: usize = 0;
        while i < self.buffer.len()
            invariant
                i <= self.buffer.len(),
                b == old(self)@,
                goal == note_killed(b.members, id),
                self.buffer.len() == b.members.len(),
                self.options == old(self).options,
                self@.damper_held == b.damper_held,
                self@.held == b.held,
                forall|j: int| 0 <= j < i ==> (#[trigger] self@.members[j]) == goal[j],
                forall|j: int|
                    i <= j < b.members.len() ==> (#[trigger] self@.members[j]) == b.members[j],
            decreases self.buffer.len() - i,
        {
            assert(self@.members[i as int] == b.members[i as int]);
            assert(self@.members[i as int].id == self.buffer@[i as int].id);
            if self.buffer[i].id == id {
                self.signal(i, ReleaseType::Kill);
            }
            i = i + 1;
        }
        assert(self@.members =~= goal);
    }

    /// Takes out the voices of a note.
    fn remove_note(&mut self, id: u64)
        ensures
            final(self)@ == (BufferModel {
                members: of_other_notes(old(self)@.members, id),
                ..old(self)@
            }),
            final(self).options == old(self).options,
    {
        let ghost all = self@.members;
        let ghost mut seen: int = 0;
        let mut i: usize = 0;
        assert(of_other_notes(all.take(0), id) =~= Seq::empty()) by {
            reveal(Seq::filter);
        }
        assert(all.skip(0) =~= all);
        while i < self.buffer.len()
            invariant
                0 <= seen <= all.len(),
                i <= self.buffer.len(),
                i == of_other_notes(all.take(seen), id).len(),
                self@.members == of_other_notes(all.take(seen), id) + all.skip(seen),
                self.options == old(self).options,
                self.damper_held == old(self).damper_held,
                self.held_by_damper == old(self).held_by_damper,
            decreases self.buffer.len() - i,
        {
            let ghost kept = of_other_notes(all.take(seen), id);
            let ghost had = self@.members;
            assert(had[i as int] == all[seen]);
            assert(all.take(seen + 1).drop_last() =~= all.take(seen));
            assert(of_other_notes(all.take(seen + 1), id) == (if all[seen].id != id {
                kept.push(all[seen])
            } else {
                kept
            })) by {
                reveal(Seq::filter);
            }
            assert(had[i as int].id == self.buffer@[i as int].id);
            if self.buffer[i].id == id {
                let _ = self.buffer.remove(i);
                assert(self@.members =~= had.remove(i as int));
                assert(self@.members =~= kept + all.skip(seen + 1));
            } else {
                i = i + 1;
                assert(self@.members =~= kept.push(all[seen]) + all.skip(seen + 1));
            }
            proof {
                seen = seen + 1;
            }
        }
        assert(all.skip(seen).len() == 0);
        assert(all.take(seen) =~= all);
        assert(self@.members =~= of_other_notes(all, id));
    }

    /// Makes the quietest note give way, but not note `ignored_id`.
    fn pop_quietest_voice_group(&mut self, ignored_id: u64)
        ensures
            final(self)@ == quietest_popped(
                old(self)@,
                ignored_id,
                old(self).options.fade_out_killing,
            ),
            final(self).options == old(self).options,
    {
        let ghost members = self@.members;
        let mut found: Option<usize> = None;
        let mut i: usize = 0;
        while i < self.buffer.len()
            invariant
                self@ == old(self)@,
                members == self@.members,
                self.options == old(self).options,
                i <= self.buffer.len(),
                found matches Some(f) ==> f < i,
                softest(members, ignored_id, i as int) == (match found {
                    Some(f) => Some(f as int),
                    None => None,
                }),
            decreases self.buffer.len() - i,
        {
            let group = &self.buffer[i];
            assert(members[i as int] == (Member { id: group.id, voice: group.voice.model() }));
            if !(group.id == ignored_id || group.voice.is_killed()) {
                let softer = match found {
                    Some(f) => {
                        let other = &self.buffer[f];
                        assert(members[f as int] == (Member {
                            id: other.id,
                            voice: other.voice.model(),
                        }));
                        group.voice.velocity() < other.voice.velocity()
                    },
                    None => true,
                };
                if softer {
                    found = Some(i);
                }
            }
            i = i + 1;
        }
        let id = match found {
            Some(f) => {
                assert(members[f as int].id == self.buffer@[f as int].id);
                self.buffer[f].id
            },
            None => {
                return;
            },
        };
        if self.options.fade_out_killing {
            self.kill_note(id);
        } else {
            self.remove_note(id);
        }
        let mut at: usize = 0;
        while at < self.held_by_damper.len() && self.held_by_damper[at] != id
            invariant
                at <= self.held_by_damper.len(),
                forall|j: int| 0 <= j < at ==> self.held_by_damper@[j] != id,
            decreases self.held_by_damper.len() - at,
        {
            at = at + 1;
        }
        proof {
            without_first_at(self.held_by_damper@, id, at as int);
        }
        if at < self.held_by_damper.len() {
            let _ = self.held_by_damper.remove(at);
        }
    }

    /// Kills all voices.
    pub fn kill_all_voices(&mut self)
        ensures
            final(self)@ == (BufferModel {
                members: if old(self).options.fade_out_killing {
                    signalled_where(old(self)@.members, |i: int| true, ReleaseType::Kill)
                } else {
                    Seq::empty()
                },
                ..old(self)@
            }),
            final(self).options == old(self).options,
    {
        let ghost b = self@;
        if self.options.fade_out_killing {
            let mut i: usize = 0;
            while i < self.buffer.len()
                invariant
                    i <= self.buffer.len(),
                    self.buffer.len() == b.members.len(),
                    self.options == old(self).options,
                    self@.damper_held == b.damper_held,
                    self@.held == b.held,
                    self@.members == signalled_where(
                        b.members,
                        |j: int| j < i,
                        ReleaseType::Kill,
                    ),
                decreases self.buffer.len() - i,
            {
                let ghost now = self@.members;
                self.signal(i, ReleaseType::Kill);
                assert(now[i as int] == b.members[i as int]);
                i = i + 1;
                assert(self@.members =~= signalled_where(
                    b.members,
                    |j: int| j < i,
                    ReleaseType::Kill,
                ));
            }
            assert(self@.members =~= signalled_where(b.members, |j: int| true, ReleaseType::Kill));
        } else {
            self.buffer.clear();
            assert(self@.members =~= Seq::empty());
        }
    }

    /// Kills the voices of a class.
    pub fn kill_by_exclusive_class(&mut self, class: u8)
        ensures
            final(self)@ == (BufferModel {
                members: signalled_where(
                    old(self)@.members,
                    |i: int| old(self)@.members[i].voice.exclusive_class == Some(class),
                    ReleaseType::Kill,
                ),
                ..old(self)@
            }),
            final(self).options == old(self).options,
    {
        let ghost b = self@;
        let mut i: usize = 0;
        while i < self.buffer.len()
            invariant
                i <= self.buffer.len(),
                self.buffer.len() == b.members.len(),
                self.options == old(self).options,
                self@.damper_held == b.damper_held,
                self@.held == b.held,
                self@.members == signalled_where(
                    b.members,
                    |j: int| j < i && b.members[j].voice.exclusive_class == Some(class),
                    ReleaseType::Kill,
                ),
            decreases self.buffer.len() - i,
        {
            let ghost now = self@.members;
            assert(now[i as int] == b.members[i as int]);
            assert(now[i as int].voice == self.buffer@[i as int].voice.model());
            if self.buffer[i].voice.exclusive_class() == Some(class) {
                self.signal(i, ReleaseType::Kill);
            }
            i = i + 1;
            assert(self@.members =~= signalled_where(
                b.members,
                |j: int| j < i && b.members[j].voice.exclusive_class == Some(class),
                ReleaseType::Kill,
            ));
        }
        assert(self@.members =~= signalled_where(
            b.members,
            |j: int| b.members[j].voice.exclusive_class == Some(class),
            ReleaseType::Kill,
        ));
    }

    /// How many voices are not killed.
    fn get_active_count(&self) -> (r: usize)
        ensures
            r == active_count(self@.members),
    {
        let ghost members = self@.members;
        let mut active: usize = 0;
        let mut i: usize = 0;
        while i < self.buffer.len()
            invariant
                i <= self.buffer.len(),
                members == self@.members,
                active <= i,
                active == active_count(members.take(i as int)),
            decreases self.buffer.len() - i,
        {
            assert(members.take(i + 1).drop_last() =~= members.take(i as int));
            assert(members.take(i + 1).last().voice == self.buffer@[i as int].voice.model());
            if !self.buffer[i].voice.is_killed() {
                active = active + 1;
            }
            i = i + 1;
        }
        assert(members.take(i as int) =~= members);
        active
    }

    /// How many voices count against the limit of the key.
    fn load(&self) -> (r: usize)
        ensures
            r == load(self@, self.options.fade_out_killing),
    {
        if self.options.fade_out_killing {
            self.get_active_count()
        } else {
            self.buffer.len()
        }
    }

    /// Makes voices give way after a new note of `len` voices.
    fn make_room(&mut self, id: u64, len: usize, max_voices: Option<usize>)
        ensures
            final(self)@ == (match max_voices {
                None => old(self)@,
                Some(max) => if len > max {
                    quietest_popped(old(self)@, id, old(self).options.fade_out_killing)
                } else {
                    trimmed(old(self)@, id, max as int, old(self).options.fade_out_killing)
                },
            }),
            final(self).options == old(self).options,
    {
        if let Some(max) = max_voices {
            if len > max {
                self.pop_quietest_voice_group(id);
            } else {
                let fade = self.options.fade_out_killing;
                let ghost goal = trimmed(self@, id, max as int, fade);
                let mut now = self.load();
                while now > max
                    invariant_except_break
                        now == load(self@, fade),
                        goal == trimmed(self@, id, max as int, fade),
                    invariant
                        fade == old(self).options.fade_out_killing,
                        self.options == old(self).options,
                    ensures
                        goal == self@,
                    decreases now,
                {
                    self.pop_quietest_voice_group(id);
                    let left = self.load();
                    if left >= now {
                        break;
                    }
                    now = left;
                }
            }
        }
    }

    /// Adds the voices of a new note to the others.
    fn append_group(&mut self, id: u64, voices: Vec<V>)
        ensures
            final(self)@ == (BufferModel {
                members: old(self)@.members + group_of(id, models(voices@)),
                ..old(self)@
            }),
            final(self).options == old(self).options,
    {
        let ghost b = self@;
        let ghost all = voices@;
        let ghost group = group_of(id, models(all));
        assert(b.members + group.take(0) =~= b.members);
        for voice in it: voices
            invariant
                it.seq() == all,
                group == group_of(id, models(all)),
                self@ == (BufferModel { members: b.members + group.take(it.index()), ..b }),
                self.options == old(self).options,
        {
            let ghost had = self@.members;
            self.buffer.push(GroupVoice { id, voice });
            assert(self@.members =~= had.push(group[it.index()]));
            assert(b.members + group.take(it.index() + 1) =~= had.push(group[it.index()]));
        }
        assert(group.take(group.len() as int) =~= group);
    }

    /// Adds the voices of a new note, within the limit of the key.
    pub fn push_voices(&mut self, id: u64, voices: Vec<V>, max_voices: Option<usize>)
        ensures
            final(self)@ == pushed(
                old(self)@,
                id,
                models(voices@),
                max_voices,
                old(self).options.fade_out_killing,
            ),
            final(self).options == old(self).options,
    {
        let len = voices.len();
        self.append_group(id, voices);
        self.make_room(id, len, max_voices);
    }

    /// Adds the voices that a key-up makes sound, within the limit of the key. They do
    /// not wait for a key to come up.
    pub fn push_release_trigger_voices(
        &mut self,
        id: u64,
        mut voices: Vec<V>,
        max_voices: Option<usize>,
    )
        ensures
            final(self)@ == pushed(
                old(self)@,
                id,
                models(voices@).map_values(
                    |v: VoiceModel| VoiceModel { releasing: true, ..v },
                ),
                max_voices,
                old(self).options.fade_out_killing,
            ),
            final(self).options == old(self).options,
    {
        let len = voices.len();
        let ghost before = models(voices@);
        let mut i: usize = 0;
        while i < voices.len()
            invariant
                i <= voices.len(),
                voices.len() == len,
                before.len() == len,
                forall|j: int|
                    0 <= j < i ==> (#[trigger] voices@[j]).model() == (VoiceModel {
                        releasing: true,
                        ..before[j]
                    }),
                forall|j: int| i <= j < len ==> (#[trigger] voices@[j]).model() == before[j],
            decreases voices.len() - i,
        {
            assert(voices@[i as int].model() == before[i as int]);
            voices[i].mark_as_release_trigger();
            i = i + 1;
        }
        assert(models(voices@) =~= before.map_values(
            |v: VoiceModel| VoiceModel { releasing: true, ..v },
        ));
        self.append_group(id, voices);
        self.make_room(id, len, max_voices);
    }

    /// Releases all notes that wait. Returns how hard each of them was struck.
    pub fn release_all_groups_snapshot(&mut self) -> (r: Vec<u8>)
        ensures
            (final(self)@, r@) == all_released(old(self)@),
            final(self).options == old(self).options,
    {
        let ghost b = self@;
        let ghost members = b.members;
        let mut velocities: Vec<u8> = Vec::new();
        let mut i: usize = 0;
        if self.damper_held {
            while i < self.buffer.len()
                invariant
                    i <= self.buffer.len(),
                    members == b.members,
                    self@ == (BufferModel { held: all_held(members, b.held, i as int), ..b }),
                    self.options == old(self).options,
                decreases self.buffer.len() - i,
            {
                let group = &self.buffer[i];
                assert(members[i as int] == (Member { id: group.id, voice: group.voice.model() }));
                let id = group.id;
                if !(group.voice.is_releasing() || group.voice.is_killed()) && !holds(
                    &self.held_by_damper,
                    id,
                ) {
                    self.held_by_damper.push(id);
                }
                i = i + 1;
            }
            return velocities;
        }
        let mut last_id: Option<u64> = None;
        while i < self.buffer.len()
            invariant
                i <= self.buffer.len(),
                members == b.members,
                self.buffer.len() == members.len(),
                self@.damper_held == b.damper_held,
                self@.held == b.held,
                self.options == old(self).options,
                last_id == last_waiting(members, i as int),
                velocities@ == waiting_velocities(members, i as int),
                self@.members == signalled_where(
                    members,
                    |j: int| j < i && waits(members[j]),
                    ReleaseType::Standard,
                ),
            decreases self.buffer.len() - i,
        {
            let ghost now = self@.members;
            assert(now[i as int] == members[i as int]);
            let group = &self.buffer[i];
            assert(now[i as int] == (Member { id: group.id, voice: group.voice.model() }));
            if !(group.voice.is_releasing() || group.voice.is_killed()) {
                let id = group.id;
                if last_id != Some(id) {
                    velocities.push(group.voice.velocity());
                    last_id = Some(id);
                }
                self.signal(i, ReleaseType::Standard);
            }
            i = i + 1;
            assert(self@.members =~= signalled_where(
                members,
                |j: int| j < i && waits(members[j]),
                ReleaseType::Standard,
            ));
        }
        assert(self@.members =~= signalled_where(
            members,
            |j: int| waits(members[j]),
            ReleaseType::Standard,
        ));
        velocities
    }

    /// Releases the oldest note that waits. Returns how hard it was struck.
    pub fn release_next_voice(&mut self) -> (r: Option<u8>)
        ensures
            (final(self)@, r) == next_released(old(self)@),
            final(self).options == old(self).options,
    {
        let ghost b = self@;
        let ghost members = b.members;
        let mut i: usize = 0;
        if self.damper_held {
            while i < self.buffer.len()
                invariant
                    i <= self.buffer.len(),
                    members == b.members,
                    self@ == b,
                    self.options == old(self).options,
                    next_unheld(members, b.held, 0) == next_unheld(members, b.held, i as int),
                    b == old(self)@,
                    self.damper_held,
                decreases self.buffer.len() - i,
            {
                let group = &self.buffer[i];
                assert(members[i as int] == (Member { id: group.id, voice: group.voice.model() }));
                let id = group.id;
                if !group.voice.is_releasing() && !holds(&self.held_by_damper, id) {
                    self.held_by_damper.push(id);
                    return None;
                }
                i = i + 1;
            }
            return None;
        }
        while i < self.buffer.len() && (self.buffer[i].voice.is_releasing()
            || self.buffer[i].voice.is_killed())
            invariant
                i <= self.buffer.len(),
                members == b.members,
                self@ == b,
                self.options == old(self).options,
                next_waiting(members, 0, None) == next_waiting(members, i as int, None),
            decreases self.buffer.len() - i,
        {
            assert(members[i as int].voice == self.buffer@[i as int].voice.model());
            i = i + 1;
        }
        if i == self.buffer.len() {
            return None;
        }
        let first = i;
        assert(members[i as int] == (Member {
            id: self.buffer@[i as int].id,
            voice: self.buffer@[i as int].voice.model(),
        }));
        let id = self.buffer[first].id;
        let vel = self.buffer[first].voice.velocity();
        let ghost stop = next_waiting(members, first as int, Some(id));
        while i < self.buffer.len()
            invariant
                first <= i <= self.buffer.len(),
                members == b.members,
                self.buffer.len() == members.len(),
                self@.damper_held == b.damper_held,
                self@.held == b.held,
                self.options == old(self).options,
                stop == next_waiting(members, i as int, Some(id)),
                self@.members == signalled_where(
                    members,
                    |j: int| first <= j < i && waits(members[j]),
                    ReleaseType::Standard,
                ),
            ensures
                i == stop,
                self@.members == signalled_where(
                    members,
                    |j: int| first <= j < i && waits(members[j]),
                    ReleaseType::Standard,
                ),
                self@.damper_held == b.damper_held,
                self@.held == b.held,
                self.options == old(self).options,
            decreases self.buffer.len() - i,
        {
            let ghost now = self@.members;
            assert(now[i as int] == members[i as int]);
            let group = &self.buffer[i];
            assert(now[i as int] == (Member { id: group.id, voice: group.voice.model() }));
            if !(group.voice.is_releasing() || group.voice.is_killed()) {
                if group.id != id {
                    break;
                }
                self.signal(i, ReleaseType::Standard);
            }
            i = i + 1;
            assert(self@.members =~= signalled_where(
                members,
                |j: int| first <= j < i && waits(members[j]),
                ReleaseType::Standard,
            ));
        }
        assert(self@.members =~= signalled_where(
            members,
            |j: int| first <= j < stop && waits(members[j]),
            ReleaseType::Standard,
        ));
        Some(vel)
    }

    /// Takes out the voices that have fallen silent.
    pub fn remove_ended_voices(&mut self)
        ensures
            final(self)@ == (BufferModel {
                members: members_of(
                    old(self).buffer@.filter(|g: GroupVoice<V>| !g.voice.has_ended()),
                ),
                ..old(self)@
            }),
            final(self).buffer@ == old(self).buffer@.filter(
                |g: GroupVoice<V>| !g.voice.has_ended(),
            ),
            final(self).options == old(self).options,
    {
        let ghost all = self.buffer@;
        let ghost sounds = |g: GroupVoice<V>| !g.voice.has_ended();
        let ghost mut seen: int = 0;
        let mut i: usize = 0;
        assert(all.take(0).filter(sounds) =~= Seq::empty()) by {
            reveal(Seq::filter);
        }
        assert(all.skip(0) =~= all);
        while i < self.buffer.len()
            invariant
                sounds == (|g: GroupVoice<V>| !g.voice.has_ended()),
                0 <= seen <= all.len(),
                i <= self.buffer.len(),
                i == all.take(seen).filter(sounds).len(),
                self.buffer@ == all.take(seen).filter(sounds) + all.skip(seen),
                self.options == old(self).options,
                self.damper_held == old(self).damper_held,
                self.held_by_damper == old(self).held_by_damper,
            decreases self.buffer.len() - i,
        {
            let ghost kept = all.take(seen).filter(sounds);
            assert(self.buffer@[i as int] == all[seen]);
            assert(all.take(seen + 1).drop_last() =~= all.take(seen));
            assert(all.take(seen + 1).filter(sounds) == (if sounds(all[seen]) {
                kept.push(all[seen])
            } else {
                kept
            })) by {
                reveal(Seq::filter);
            }
            if self.buffer[i].voice.ended() {
                let _ = self.buffer.remove(i);
                assert(self.buffer@ =~= kept + all.skip(seen + 1));
            } else {
                i = i + 1;
                assert(self.buffer@ =~= kept.push(all[seen]) + all.skip(seen + 1));
            }
            proof {
                seen = seen + 1;
            }
        }
        assert(all.skip(seen).len() == 0);
        assert(seen == all.len());
        assert(all.take(seen) =~= all);
        assert(self.buffer@ =~= all.filter(sounds));
    }

    /// Whether there are voices.
    pub fn has_voices(&self) -> (r: bool)
        ensures
            r == (self@.members.len() > 0),
    {
        self.buffer.len() > 0
    }

    /// How many voices there are.
    pub fn voice_count(&self) -> (r: usize)
        ensures
            r == self@.members.len(),
    {
        self.buffer.len()
    }

    /// Moves the damper.
    pub fn set_damper(&mut self, damper: bool)
        ensures
            final(self)@ == damper_set(old(self)@, damper),
            final(self).options == old(self).options,
    {
        let ghost b = self@;
        let ghost members = b.members;
        if self.damper_held && !damper {
            let mut i: usize = 0;
            while i < self.buffer.len()
                invariant
                    i <= self.buffer.len(),
                    members == b.members,
                    self.buffer.len() == members.len(),
                    self@.held == b.held,
                    self.options == old(self).options,
                    self@.members == signalled_where(
                        members,
                        |j: int| j < i && b.held.contains(members[j].id),
                        ReleaseType::Standard,
                    ),
                decreases self.buffer.len() - i,
            {
                let ghost now = self@.members;
                assert(now[i as int] == members[i as int]);
                assert(now[i as int].id == self.buffer@[i as int].id);
                if holds(&self.held_by_damper, self.buffer[i].id) {
                    self.signal(i, ReleaseType::Standard);
                }
                i = i + 1;
                assert(self@.members =~= signalled_where(
                    members,
                    |j: int| j < i && b.held.contains(members[j].id),
                    ReleaseType::Standard,
                ));
            }
            assert(self@.members =~= signalled_where(
                members,
                |j: int| b.held.contains(members[j].id),
                ReleaseType::Standard,
            ));
            self.held_by_damper.clear();
        }
        self.damper_held = damper;
    }

    /// Lists the notes, each with whether all its voices are on their way out.
    pub fn collect_groups(&self, out: &mut Vec<(u64, bool)>)
        ensures
            final(out)@ == old(out)@ + groups(self@.members, self@.members.len() as int),
    {
        let ghost members = self@.members;
        let ghost before = out@;
        let mut current: Option<(u64, bool)> = None;
        let mut i: usize = 0;
        assert(before + Seq::<(u64, bool)>::empty() =~= before);
        while i < self.buffer.len()
            invariant
                i <= self.buffer.len(),
                members == self@.members,
                before == old(out)@,
                current matches Some(c) ==> {
                    let g = groups(members, i as int);
                    g.len() > 0 && g.last() == c && out@ == before + g.drop_last()
                },
                current is None ==> i == 0 && out@ == before,
            decreases self.buffer.len() - i,
        {
            let ghost g = groups(members, i as int);
            let group = &self.buffer[i];
            assert(members[i as int] == (Member { id: group.id, voice: group.voice.model() }));
            let releasing = group.voice.is_releasing() || group.voice.is_killed();
            match current {
                Some((id, all)) => {
                    if id == group.id {
                        current = Some((id, all && releasing));
                        assert(g.drop_last().push((id, all && releasing)).drop_last()
                            =~= g.drop_last());
                    } else {
                        out.push((id, all));
                        current = Some((group.id, releasing));
                        assert(g.push((group.id, releasing)).drop_last() =~= g);
                        assert(out@ =~= before + g);
                    }
                },
                None => {
                    current = Some((group.id, releasing));
                    assert(groups(members, 1).drop_last() =~= Seq::empty());
                },
            }
            i = i + 1;
        }
        if let Some(last) = current {
            out.push(last);
            assert(out@ =~= before + groups(members, members.len() as int));
        }
    }

    /// Kills the voices of a note. Returns how many of them were not killed before.
    pub fn drop_group(&mut self, group_id: u64) -> (r: usize)
        ensures
            final(self)@ == group_dropped(old(self)@, group_id),
            r == group_size(old(self)@.members, group_id, old(self)@.members.len() as int),
            final(self).options == old(self).options,
    {
        let ghost b = self@;
        let ghost members = b.members;
        let mut count: usize = 0;
        let mut i: usize = 0;
        while i < self.buffer.len()
            invariant
                i <= self.buffer.len(),
                members == b.members,
                self.buffer.len() == members.len(),
                self@.damper_held == b.damper_held,
                self@.held == b.held,
                self.options == old(self).options,
                count <= i,
                count == group_size(members, group_id, i as int),
                self@.members == signalled_where(
                    members,
                    |j: int| j < i && members[j].id == group_id && !members[j].voice.killed,
                    ReleaseType::Kill,
                ),
            decreases self.buffer.len() - i,
        {
            let ghost now = self@.members;
            assert(now[i as int] == members[i as int]);
            let group = &self.buffer[i];
            assert(now[i as int] == (Member { id: group.id, voice: group.voice.model() }));
            if group.id == group_id && !group.voice.is_killed() {
                self.signal(i, ReleaseType::Kill);
                count = count + 1;
            }
            i = i + 1;
            assert(self@.members =~= signalled_where(
                members,
                |j: int| j < i && members[j].id == group_id && !members[j].voice.killed,
                ReleaseType::Kill,
            ));
        }
        assert(self@.members =~= signalled_where(
            members,
            |j: int| members[j].id == group_id && !members[j].voice.killed,
            ReleaseType::Kill,
        ));
        self.held_by_damper = without_all(&self.held_by_damper, group_id);
        count
    }
}

/// With the damper up, a key-up lets go the oldest note that still waits: the voice at `at` is
/// the first that neither is releasing nor killed. Its note is released up to where another
/// note that waits begins; all other voices stay as they are. Says how hard the note was
/// struck.
pub proof fn key_up_lets_one_note_go(b: BufferModel, at: int, i: int)
    requires
        !b.damper_held,
        0 <= at < b.members.len(),
        !b.members[at].voice.releasing,
        !b.members[at].voice.killed,
        forall|j: int|
            0 <= j < at ==> (#[trigger] b.members[j]).voice.releasing || b.members[j].voice.killed,
        0 <= i < b.members.len(),
    ensures
        ({
            let (next, velocity) = next_released(b);
            let m = b.members[i];
            let own = m.id == b.members[at].id && !m.voice.releasing && !m.voice.killed && forall|
                j: int,
            |
                at <= j < i ==> (#[trigger] b.members[j]).voice.releasing
                    || b.members[j].voice.killed || b.members[j].id == b.members[at].id;
            &&& velocity == Some(b.members[at].voice.velocity)
            &&& next.members.len() == b.members.len()
            &&& own ==> next.members[i] == (Member {
                id: m.id,
                voice: VoiceModel { releasing: true, ..m.voice },
            })
            &&& !own ==> next.members[i] == m
            &&& next.held == b.held
            &&& next.damper_held == b.damper_held
        }),
{
    next_waiting_bounds(b.members, 0, None);
    let found = next_waiting(b.members, 0, None);
    assert(found == at) by {
        if found < at {
            assert(waits(b.members[found]));
        }
        if at < found {
            assert(!waits(b.members[at]));
        }
    }
    next_waiting_bounds(b.members, at, Some(b.members[at].id));
    let stop = next_waiting(b.members, at, Some(b.members[at].id));
    let m = b.members[i];
    if i >= stop && stop < b.members.len() {
        assert(waits(b.members[stop]));
    }
    if at <= i < stop {
        assert forall|j: int| at <= j < i implies (#[trigger] b.members[j]).voice.releasing
            || b.members[j].voice.killed || b.members[j].id == b.members[at].id by {
            assert(!waits(b.members[j]) || b.members[j].id == b.members[at].id);
        }
        assert(!waits(m) || m.id == b.members[at].id);
    }
}

/// A key-up that finds no note that waits does nothing.
pub proof fn key_up_without_notes_does_nothing(b: BufferModel)
    requires
        !b.damper_held,
        forall|j: int|
            0 <= j < b.members.len() ==> (#[trigger] b.members[j]).voice.releasing
                || b.members[j].voice.killed,
    ensures
        next_released(b) == (b, None::<u8>),
{
    next_waiting_bounds(b.members, 0, None);
}

/// While the damper is held, a key-up notes the oldest note that neither is releasing nor
/// noted already, behind those that are; where there is none it does nothing.
pub proof fn held_key_up_notes_one_note(b: BufferModel, at: int)
    requires
        b.damper_held,
        0 <= at <= b.members.len(),
        forall|j: int|
            0 <= j < at ==> (#[trigger] b.members[j]).voice.releasing || b.held.contains(
                b.members[j].id,
            ),
        at < b.members.len() ==> !b.members[at].voice.releasing && !b.held.contains(
            b.members[at].id,
        ),
    ensures
        at < b.members.len() ==> next_released(b) == (
            (BufferModel { held: b.held.push(b.members[at].id), ..b }),
            None::<u8>,
        ),
        at == b.members.len() ==> next_released(b) == (b, None::<u8>),
{
    next_unheld_is_first(b.members, b.held, 0, at);
}

/// When all keys come up with the damper up, every voice that waits is released, and no other
/// voice is touched.
pub proof fn all_keys_up_releases_what_waits(b: BufferModel, i: int)
    requires
        !b.damper_held,
        0 <= i < b.members.len(),
    ensures
        ({
            let next = all_released(b).0;
            let m = b.members[i];
            &&& next.members.len() == b.members.len()
            &&& !m.voice.releasing && !m.voice.killed ==> next.members[i] == (Member {
                id: m.id,
                voice: VoiceModel { releasing: true, ..m.voice },
            })
            &&& m.voice.releasing || m.voice.killed ==> next.members[i] == m
            &&& next.held == b.held
            &&& next.damper_held == b.damper_held
        }),
{
}

/// When all keys come up, each note that waits counts once, with how hard its first voice was
/// struck: one more voice adds nothing where it does not wait or belongs to the last note
/// that does, and else its velocity.
pub proof fn all_keys_up_counts_each_note(b: BufferModel, m: Member)
    requires
        !b.damper_held,
    ensures
        ({
            let more = BufferModel { members: b.members.push(m), ..b };
            let before = all_released(b).1;
            let now = all_released(more).1;
            let follows = exists|j: int|
                0 <= j < b.members.len() && (#[trigger] b.members[j]).id == m.id
                    && !b.members[j].voice.releasing && !b.members[j].voice.killed && forall|
                    k: int,
                |
                    j < k < b.members.len() ==> (#[trigger] b.members[k]).voice.releasing
                        || b.members[k].voice.killed;
            &&& b.members.len() == 0 ==> before.len() == 0
            &&& m.voice.releasing || m.voice.killed || follows ==> now == before
            &&& !m.voice.releasing && !m.voice.killed && !follows ==> now == before.push(
                m.voice.velocity,
            )
        }),
{
    let n = b.members.len() as int;
    let more = b.members.push(m);
    velocities_of_a_prefix(b.members, more, n);
    last_to_wait(b.members, n);
    if let Some(id) = last_waiting(b.members, n) {
        let j = choose|j: int|
            0 <= j < n && (#[trigger] b.members[j]).id == id && waits(b.members[j]) && forall|
                k: int,
            | j < k < n ==> !waits(#[trigger] b.members[k]);
        assert forall|i: int|
            0 <= i < n && (#[trigger] b.members[i]).id == m.id && waits(b.members[i]) && (forall|
                k: int,
            |
                i < k < n ==> (#[trigger] b.members[k]).voice.releasing
                    || b.members[k].voice.killed) implies i == j by {
            if i < j {
                assert(b.members[j].voice.releasing || b.members[j].voice.killed);
            }
            if j < i {
                assert(!waits(b.members[i]));
            }
        }
        if id == m.id {
            assert forall|k: int| j < k < n implies (#[trigger] b.members[k]).voice.releasing
                || b.members[k].voice.killed by {
                assert(!waits(b.members[k]));
            }
            assert(b.members[j].id == m.id);
        }
    }
}

proof fn velocities_of_a_prefix(a: Seq<Member>, b: Seq<Member>, n: int)
    requires
        0 <= n <= a.len() <= b.len(),
        forall|i: int| 0 <= i < n ==> #[trigger] a[i] == b[i],
    ensures
        waiting_velocities(a, n) == waiting_velocities(b, n),
        last_waiting(a, n) == last_waiting(b, n),
    decreases n,
{
    if n > 0 {
        velocities_of_a_prefix(a, b, n - 1);
        assert(a[n - 1] == b[n - 1]);
    }
}

proof fn last_to_wait(members: Seq<Member>, n: int)
    requires
        0 <= n <= members.len(),
    ensures
        last_waiting(members, n) is None ==> forall|j: int|
            0 <= j < n ==> !waits(#[trigger] members[j]),
        last_waiting(members, n) matches Some(id) ==> exists|j: int|
            0 <= j < n && (#[trigger] members[j]).id == id && waits(members[j]) && forall|k: int|
                j < k < n ==> !waits(#[trigger] members[k]),
    decreases n,
{
    if n > 0 {
        last_to_wait(members, n - 1);
        if !waits(members[n - 1]) {
            if let Some(id) = last_waiting(members, n - 1) {
                let j = choose|j: int|
                    0 <= j < n - 1 && (#[trigger] members[j]).id == id && waits(members[j])
                        && forall|k: int| j < k < n - 1 ==> !waits(#[trigger] members[k]);
                assert(members[j].id == id && forall|k: int|
                    j < k < n ==> !waits(#[trigger] members[k]));
            }
        } else {
            assert(members[n - 1].id == last_waiting(members, n)->0);
        }
    }
}

/// When all keys come up while the damper is held, every note that waits is noted, behind those
/// that are, and no voice is touched.
pub proof fn held_keys_up_note_all_notes(b: BufferModel, id: u64)
    requires
        b.damper_held,
    ensures
        ({
            let next = all_released(b).0;
            &&& next.members == b.members
            &&& next.damper_held
            &&& next.held.len() >= b.held.len()
            &&& next.held.take(b.held.len() as int) == b.held
            &&& next.held.contains(id) <==> b.held.contains(id) || exists|j: int|
                0 <= j < b.members.len() && (#[trigger] b.members[j]).id == id
                    && !b.members[j].voice.releasing && !b.members[j].voice.killed
        }),
{
    notes_are_held(b.members, b.held, b.members.len() as int, id);
}

proof fn notes_are_held(members: Seq<Member>, held: Seq<u64>, n: int, id: u64)
    requires
        0 <= n <= members.len(),
    ensures
        ({
            let all = all_held(members, held, n);
            &&& all.len() >= held.len()
            &&& all.take(held.len() as int) == held
            &&& all.contains(id) <==> held.contains(id) || exists|j: int|
                0 <= j < n && (#[trigger] members[j]).id == id && !members[j].voice.releasing
                    && !members[j].voice.killed
        }),
    decreases n,
{
    if n > 0 {
        notes_are_held(members, held, n - 1, id);
        let before = all_held(members, held, n - 1);
        let all = all_held(members, held, n);
        let m = members[n - 1];
        assert(all.take(held.len() as int) =~= before.take(held.len() as int));
        if all.len() > before.len() {
            if before.contains(id) {
                let i = choose|i: int| 0 <= i < before.len() && before[i] == id;
                assert(all[i] == id);
            }
            assert(all[all.len() - 1] == m.id);
            if all.contains(id) && !before.contains(id) {
                let i = choose|i: int| 0 <= i < all.len() && all[i] == id;
                if i < before.len() {
                    assert(before[i] == id);
                }
                assert(members[n - 1].id == id);
            }
        } else if waits(m) && m.id == id {
            assert(before.contains(id));
        }
    } else {
        assert(held.take(held.len() as int) =~= held);
    }
}

/// Lifting the damper releases the voices of the notes that were noted, and no others, and
/// forgets those notes; holding it, and lifting it when it is up, leaves all voices and notes
/// alone.
pub proof fn damper_moves(b: BufferModel, i: int)
    requires
        0 <= i < b.members.len(),
    ensures
        ({
            let m = b.members[i];
            let up = damper_set(b, false);
            let down = damper_set(b, true);
            &&& down == (BufferModel { damper_held: true, ..b })
            &&& !b.damper_held ==> up == b
            &&& b.damper_held ==> up.held.len() == 0
            &&& !up.damper_held
            &&& up.members.len() == b.members.len()
            &&& b.damper_held && b.held.contains(m.id) ==> up.members[i] == (Member {
                id: m.id,
                voice: VoiceModel { releasing: true, ..m.voice },
            })
            &&& !(b.damper_held && b.held.contains(m.id)) ==> up.members[i] == m
        }),
{
}

/// Without a limit a new note stands behind the others: its voices in their order, each with
/// the number of the note. The older voices stay as they are.
pub proof fn new_notes_come_last(
    b: BufferModel,
    id: u64,
    voices: Seq<VoiceModel>,
    fade: bool,
    i: int,
)
    requires
        0 <= i < b.members.len() + voices.len(),
    ensures
        ({
            let next = pushed(b, id, voices, None, fade);
            &&& next.members.len() == b.members.len() + voices.len()
            &&& i < b.members.len() ==> next.members[i] == b.members[i]
            &&& i >= b.members.len() ==> next.members[i] == (Member {
                id,
                voice: voices[i - b.members.len()],
            })
            &&& next.held == b.held
            &&& next.damper_held == b.damper_held
        }),
{
}

/// A limit takes nothing away that fits: where the voices that count are no more than it
/// allows, a new note is added as if there were none. Killed voices that fade out do not
/// count.
pub proof fn limits_leave_what_fits(
    b: BufferModel,
    id: u64,
    voices: Seq<VoiceModel>,
    max: usize,
    fade: bool,
)
    requires
        ({
            let all = pushed(b, id, voices, None, fade).members;
            let counted = if fade {
                all.filter(|m: Member| !m.voice.killed).len()
            } else {
                all.len()
            };
            counted <= max
        }),
        voices.len() <= max,
    ensures
        pushed(b, id, voices, Some(max), fade) == pushed(b, id, voices, None, fade),
{
    active_voices_are_counted(pushed(b, id, voices, None, fade).members);
}

/// The voices that count against a limit are those that are not killed where killed ones fade
/// out, and else all of them.
pub proof fn loads_are_counted(b: BufferModel)
    ensures
        load(b, false) == b.members.len(),
        load(b, true) == b.members.filter(|m: Member| !m.voice.killed).len(),
{
    active_voices_are_counted(b.members);
}

proof fn active_voices_are_counted(members: Seq<Member>)
    ensures
        active_count(members) == members.filter(|m: Member| !m.voice.killed).len(),
    decreases members.len(),
{
    reveal(Seq::filter);
    if members.len() > 0 {
        active_voices_are_counted(members.drop_last());
    }
}

/// A note that exceeds the limit all by itself is added in full, and one other note gives way.
/// Where too many voices would count, notes give way one after the other, no more of them than
/// it takes.
pub proof fn limits_drop_no_more_than_needed(
    b: BufferModel,
    id: u64,
    voices: Seq<VoiceModel>,
    max: usize,
    fade: bool,
)
    ensures
        voices.len() > max ==> pushed(b, id, voices, Some(max), fade) == quietest_popped(
            pushed(b, id, voices, None, fade),
            id,
            fade,
        ),
        voices.len() <= max ==> pushed(b, id, voices, Some(max), fade) == trimmed(
            pushed(b, id, voices, None, fade),
            id,
            max as int,
            fade,
        ),
        load(b, fade) <= max ==> trimmed(b, id, max as int, fade) == b,
        load(b, fade) > max && load(quietest_popped(b, id, fade), fade) <= max ==> trimmed(
            b,
            id,
            max as int,
            fade,
        ) == quietest_popped(b, id, fade),
        load(b, fade) > load(quietest_popped(b, id, fade), fade) > max ==> trimmed(
            b,
            id,
            max as int,
            fade,
        ) == trimmed(quietest_popped(b, id, fade), id, max as int, fade),
{
    assert(load(quietest_popped(b, id, fade), fade) >= 0) by {
        loads_are_counted(quietest_popped(b, id, fade));
    }
    reveal_with_fuel(trimmed, 2);
}

/// The note that gives way is the one with the softest voice of all other notes that are not
/// killed, the earliest among equals: where that is the voice at `i`, all voices of its note
/// are killed, or taken out where they do not fade, and no others.
pub proof fn softest_other_note_gives_way(b: BufferModel, id: u64, fade: bool, i: int, j: int)
    requires
        0 <= i < b.members.len(),
        0 <= j < b.members.len(),
        b.members[i].id != id,
        !b.members[i].voice.killed,
        forall|k: int|
            0 <= k < b.members.len() && (#[trigger] b.members[k]).id != id
                && !b.members[k].voice.killed ==> b.members[i].voice.velocity
                <= b.members[k].voice.velocity && (k < i ==> b.members[i].voice.velocity
                < b.members[k].voice.velocity),
    ensures
        ({
            let next = quietest_popped(b, id, fade);
            let m = b.members[j];
            &&& fade ==> next.members.len() == b.members.len()
            &&& fade && m.id == b.members[i].id ==> next.members[j] == (Member {
                id: m.id,
                voice: VoiceModel { killed: true, ..m.voice },
            })
            &&& fade && m.id != b.members[i].id ==> next.members[j] == m
            &&& !fade ==> next.members == b.members.filter(|m: Member| m.id != b.members[i].id)
        }),
{
    assert(can_give_way(b.members[i], id));
    softest_note_gives_way(b, id, fade);
    let found = softest(b.members, id, b.members.len() as int)->0;
    assert(b.members[found].id != id && !b.members[found].voice.killed);
    if found < i {
        assert(b.members[i].voice.velocity < b.members[found].voice.velocity);
    }
    assert(found == i);
}

/// Where no other note sounds, none gives way.
pub proof fn lone_notes_stay(b: BufferModel, id: u64, fade: bool)
    requires
        forall|i: int|
            0 <= i < b.members.len() ==> (#[trigger] b.members[i]).id == id
                || b.members[i].voice.killed,
    ensures
        quietest_popped(b, id, fade) == b,
{
    lone_notes_are_not_found(b.members, id, b.members.len() as int);
}

proof fn lone_notes_are_not_found(members: Seq<Member>, id: u64, n: int)
    requires
        0 <= n <= members.len(),
        forall|i: int|
            0 <= i < n ==> (#[trigger] members[i]).id == id || members[i].voice.killed,
    ensures
        softest(members, id, n) is None,
    decreases n,
{
    if n > 0 {
        lone_notes_are_not_found(members, id, n - 1);
        assert(members[n - 1].id == id || members[n - 1].voice.killed);
    }
}

} // verus!
