//! A delay line of two channels that feeds back into itself.

use vstd::prelude::*;

verus! {

/// How long a delay may be, in seconds.
pub const MAX_DELAY_SECS: usize = 2;

/// The frames that a delay holds back.
#[derive(Debug)]
pub struct StereoFeedbackDelay<T> {
    buf_l: Vec<T>,
    buf_r: Vec<T>,
    delay_samples: usize,
    write_head: usize,
}

/// The model of a delay: a ring of frames of which the next one replaces that at `head`.
#[verifier::ext_equal]
pub struct DelayModel<T> {
    pub frames: Seq<(T, T)>,
    pub delay: int,
    pub head: int,
}

impl<T> View for StereoFeedbackDelay<T> {
    type V = DelayModel<T>;

    closed spec fn view(&self) -> DelayModel<T> {
        DelayModel {
            frames: Seq::new(self.buf_l@.len(), |i: int| (self.buf_l@[i], self.buf_r@[i])),
            delay: self.delay_samples as int,
            head: self.write_head as int,
        }
    }
}

/// The ring has room, and no frame is held back longer than it is kept.
pub open spec fn delay_wf<T>(m: DelayModel<T>) -> bool {
    &&& 0 <= m.head < m.frames.len()
    &&& 0 <= m.delay < m.frames.len()
}

/// Where the frame that comes out lies.
pub open spec fn read_head<T>(m: DelayModel<T>) -> int {
    if m.head >= m.delay {
        m.head - m.delay
    } else {
        m.frames.len() - (m.delay - m.head)
    }
}

/// The delay after a frame has gone in.
pub open spec fn frame_in<T>(m: DelayModel<T>, frame: (T, T)) -> DelayModel<T> {
    DelayModel {
        frames: m.frames.update(m.head, frame),
        delay: m.delay,
        head: (m.head + 1) % (m.frames.len() as int),
    }
}

/// The delay after some frames have gone in, one after the other.
pub open spec fn frames_in<T>(m: DelayModel<T>, frames: Seq<(T, T)>) -> DelayModel<T>
    decreases frames.len(),
{
    if frames.len() == 0 {
        m
    } else {
        frame_in(frames_in(m, frames.drop_last()), frames.last())
    }
}

/// A number of frames held to what a ring of `cap` frames can hold back, at least 1 where
/// there is room for it.
pub open spec fn held_delay(samples: int, cap: int) -> int {
    let at_least = if samples < 1 {
        1
    } else {
        samples
    };
    if at_least < cap - 1 {
        at_least
    } else {
        cap - 1
    }
}

impl<T: Copy> StereoFeedbackDelay<T> {
    pub closed spec fn wf(&self) -> bool {
        self.buf_l@.len() == self.buf_r@.len() && delay_wf(self@)
    }

    /// A silent delay with room for `cap` frames, of a quarter of a second.
    pub fn new(cap: usize, sample_rate: usize, silence: T) -> (r: Self)
        requires
            sample_rate / 4 < cap,
        ensures
            r.wf(),
            r@ == (DelayModel {
                frames: Seq::new(cap as nat, |i: int| (silence, silence)),
                delay: sample_rate as int / 4,
                head: 0,
            }),
    {
        let mut buf_l: Vec<T> = Vec::new();
        let mut buf_r: Vec<T> = Vec::new();
        let mut i: usize = 0;
        while i < cap
            invariant
                i <= cap,
                buf_l.len() == i,
                buf_r.len() == i,
                forall|j: int| 0 <= j < i ==> buf_l@[j] == silence,
                forall|j: int| 0 <= j < i ==> buf_r@[j] == silence,
            decreases cap - i,
        {
            buf_l.push(silence);
            buf_r.push(silence);
            i = i + 1;
        }
        let r = StereoFeedbackDelay {
            buf_l,
            buf_r,
            delay_samples: sample_rate / 4,
            write_head: 0,
        };
        assert(r@.frames =~= Seq::new(cap as nat, |i: int| (silence, silence)));
        r
    }

    /// Holds frames back for a number of frames.
    pub fn set_time(&mut self, samples: usize)
        requires
            old(self).wf(),
        ensures
            final(self).wf(),
            final(self)@ == (DelayModel {
                delay: held_delay(samples as int, old(self)@.frames.len() as int),
                ..old(self)@
            }),
    {
        let cap: usize = self.buf_l.len();
        let at_least: usize = if samples < 1 {
            1
        } else {
            samples
        };
        self.delay_samples = if at_least < cap - 1 {
            at_least
        } else {
            cap - 1
        };
        assert(self@.frames =~= old(self)@.frames);
    }

    /// The frame that comes out.
    pub fn wet(&self) -> (r: (T, T))
        requires
            self.wf(),
        ensures
            r == self@.frames[read_head(self@)],
    {
        let cap: usize = self.buf_l.len();
        let at: usize = if self.write_head >= self.delay_samples {
            self.write_head - self.delay_samples
        } else {
            cap - (self.delay_samples - self.write_head)
        };
        (self.buf_l[at], self.buf_r[at])
    }

    /// Lets a frame in: the sound with what has come out fed back.
    pub fn write(&mut self, left: T, right: T)
        requires
            old(self).wf(),
        ensures
            final(self).wf(),
            final(self)@ == frame_in(old(self)@, (left, right)),
    {
        let cap: usize = self.buf_l.len();
        let head: usize = self.write_head;
        self.buf_l.set(head, left);
        self.buf_r.set(head, right);
        self.write_head = (head + 1) % cap;
        assert(self@.frames =~= old(self)@.frames.update(head as int, (left, right)));
    }

    /// Silences all that is held back.
    pub fn clear(&mut self, silence: T)
        requires
            old(self).wf(),
        ensures
            final(self).wf(),
            final(self)@ == (DelayModel {
                frames: Seq::new(old(self)@.frames.len(), |i: int| (silence, silence)),
                delay: old(self)@.delay,
                head: 0,
            }),
    {
        let cap: usize = self.buf_l.len();
        let ghost delay = self.delay_samples;
        let mut i: usize = 0;
        while i < cap
            invariant
                i <= cap,
                self.buf_l.len() == cap,
                self.buf_r.len() == cap,
                self.delay_samples == delay,
                forall|j: int| 0 <= j < i ==> self.buf_l@[j] == silence,
                forall|j: int| 0 <= j < i ==> self.buf_r@[j] == silence,
            decreases cap - i,
        {
            self.buf_l.set(i, silence);
            self.buf_r.set(i, silence);
            i = i + 1;
        }
        self.write_head = 0;
        assert(self@.frames =~= Seq::new(old(self)@.frames.len(), |i: int| (silence, silence)));
    }
}

/// Where the head of a ring of `cap` frames is `n` frames later.
proof fn head_moves_on<T>(m: DelayModel<T>, frames: Seq<(T, T)>)
    requires
        delay_wf(m),
    ensures
        frames_in(m, frames).head == (m.head + frames.len()) % (m.frames.len() as int),
        frames_in(m, frames).frames.len() == m.frames.len(),
        frames_in(m, frames).delay == m.delay,
        delay_wf(frames_in(m, frames)),
    decreases frames.len(),
{
    let cap = m.frames.len() as int;
    if frames.len() == 0 {
        vstd::arithmetic::div_mod::lemma_small_mod(m.head as nat, cap as nat);
    } else {
        let n = frames.len() as int;
        head_moves_on(m, frames.drop_last());
        vstd::arithmetic::div_mod::lemma_add_mod_noop(m.head + n - 1, 1, cap);
        vstd::arithmetic::div_mod::lemma_mod_twice(m.head + n - 1, cap);
        vstd::arithmetic::div_mod::lemma_add_mod_noop((m.head + n - 1) % cap, 1, cap);
        vstd::arithmetic::div_mod::lemma_mod_bound(m.head + n, cap);
    }
}

proof fn first_frame_stays<T>(m: DelayModel<T>, frames: Seq<(T, T)>)
    requires
        delay_wf(m),
        0 < frames.len() < m.frames.len() + 1,
    ensures
        frames_in(m, frames).frames[m.head] == frames[0],
    decreases frames.len(),
{
    let front = frames.drop_last();
    let cap = m.frames.len() as int;
    head_moves_on(m, front);
    if frames.len() == 1 {
        assert(front =~= Seq::empty());
    } else {
        first_frame_stays(m, front);
        assert(front[0] == frames[0]);
        let n = front.len() as int;
        let head = (m.head + n) % cap;
        assert(head != m.head) by {
            if m.head + n < cap {
                vstd::arithmetic::div_mod::lemma_small_mod((m.head + n) as nat, cap as nat);
            } else {
                vstd::arithmetic::div_mod::lemma_fundamental_div_mod_converse(
                    m.head + n,
                    cap,
                    1,
                    m.head + n - cap,
                );
            }
        }
    }
}

/// A frame comes out again after as many frames as the delay holds back.
pub proof fn frames_come_out_later<T>(m: DelayModel<T>, frames: Seq<(T, T)>)
    requires
        delay_wf(m),
        m.delay > 0,
        frames.len() == m.delay,
    ensures
        ({
            let later = frames_in(m, frames);
            later.frames[read_head(later)] == frames[0]
        }),
{
    let cap = m.frames.len() as int;
    head_moves_on(m, frames);
    first_frame_stays(m, frames);
    if m.head + m.delay < cap {
        vstd::arithmetic::div_mod::lemma_small_mod((m.head + m.delay) as nat, cap as nat);
    } else {
        vstd::arithmetic::div_mod::lemma_fundamental_div_mod_converse(
            m.head + m.delay,
            cap,
            1,
            m.head + m.delay - cap,
        );
    }
}

/// A delay is as long as it is set to, as far as there is room: at least one frame, and at
/// most all frames but one.
pub proof fn delays_are_set(samples: int, cap: int)
    requires
        0 <= samples,
        2 <= cap,
    ensures
        1 <= samples < cap ==> held_delay(samples, cap) == samples,
        samples == 0 ==> held_delay(samples, cap) == 1,
        samples >= cap ==> held_delay(samples, cap) == cap - 1,
{
}

} // verus!
