//! The headers of an SFZ file and the regions that they describe.

use super::params::SfzCurves;
use super::parse::{AriaOnccBase, CcInit, SfzGroupType, SfzNumber, SfzOpcode};
use super::region::{
    default_region, entry, envelope_added, place, region_updated, upsert, upserted, RegionModel,
    RegionParamsBuilder,
};
use vstd::prelude::*;

verus! {

/// A header or an opcode of an SFZ file.
#[derive(Debug)]
pub enum SfzToken<T = String> {
    Group(SfzGroupType),
    Opcode(SfzOpcode<T>),
}

impl DeepView for SfzToken {
    type V = SfzToken<Seq<char>>;

    open spec fn deep_view(&self) -> SfzToken<Seq<char>> {
        match *self {
            SfzToken::Group(group) => SfzToken::Group(group),
            SfzToken::Opcode(opcode) => SfzToken::Opcode(opcode.deep_view()),
        }
    }
}

impl Clone for SfzToken {
    fn clone(&self) -> (r: SfzToken)
        ensures
            r == *self,
    {
        match self {
            SfzToken::Group(group) => SfzToken::Group(*group),
            SfzToken::Opcode(opcode) => SfzToken::Opcode(opcode.clone()),
        }
    }
}

/// How deep a header stands: each one inherits the settings of the headers above
/// it. A curve block, or a header that is not known, stands outside.
pub open spec fn level_of_group(group: SfzGroupType) -> Option<int> {
    match group {
        SfzGroupType::Control => Some(1),
        SfzGroupType::Global => Some(2),
        SfzGroupType::Master => Some(3),
        SfzGroupType::Group => Some(4),
        SfzGroupType::Region => Some(5),
        SfzGroupType::Curve => None,
        SfzGroupType::Other => None,
    }
}

/// How deep a header stands.
pub fn get_group_level(group: SfzGroupType) -> (r: Option<usize>)
    ensures
        r is Some <==> level_of_group(group) is Some,
        r matches Some(n) ==> level_of_group(group) == Some(n as int) && 1 <= n <= 5,
{
    match group {
        SfzGroupType::Control => Some(1),
        SfzGroupType::Global => Some(2),
        SfzGroupType::Master => Some(3),
        SfzGroupType::Group => Some(4),
        SfzGroupType::Region => Some(5),
        SfzGroupType::Curve => None,
        SfzGroupType::Other => None,
    }
}

/// A region as the file describes it: its settings, and the controllers as they
/// were set when its last opcode had been read.
#[derive(Debug)]
pub struct RegionDraft {
    pub settings: RegionParamsBuilder,
    pub cc_state: Vec<(u8, CcInit)>,
}

/// The model of a described region.
#[verifier::ext_equal]
pub struct DraftModel {
    pub settings: RegionModel,
    pub cc_state: Seq<(u8, CcInit<Seq<char>>)>,
}

impl DeepView for RegionDraft {
    type V = DraftModel;

    open spec fn deep_view(&self) -> DraftModel {
        DraftModel { settings: self.settings.deep_view(), cc_state: self.cc_state.deep_view() }
    }
}

/// What the tokens read so far amount to.
#[derive(Debug)]
pub struct RootState {
    /// The header that is being read.
    pub group: Option<SfzGroupType>,
    /// The settings of the header that is being read and of those around it.
    pub stack: Vec<RegionParamsBuilder>,
    /// The controllers that have been set.
    pub cc_state: Vec<(u8, CcInit)>,
    /// The curve tables that are complete.
    pub curves: SfzCurves,
    /// The table that is being read.
    pub curve_id: Option<u8>,
    /// The points of the table that is being read.
    pub points: Vec<(u8, SfzNumber)>,
    /// The regions that are complete.
    pub drafts: Vec<RegionDraft>,
}

/// The model of what the tokens read so far amount to.
#[verifier::ext_equal]
pub struct RootModel {
    pub group: Option<SfzGroupType>,
    pub stack: Seq<RegionModel>,
    pub cc_state: Seq<(u8, CcInit<Seq<char>>)>,
    pub curves: Seq<(u8, Seq<(u8, SfzNumber<Seq<char>>)>)>,
    pub curve_id: Option<u8>,
    pub points: Seq<(u8, SfzNumber<Seq<char>>)>,
    pub drafts: Seq<DraftModel>,
}

impl DeepView for RootState {
    type V = RootModel;

    open spec fn deep_view(&self) -> RootModel {
        RootModel {
            group: self.group,
            stack: self.stack.deep_view(),
            cc_state: self.cc_state.deep_view(),
            curves: self.curves.deep_view(),
            curve_id: self.curve_id,
            points: self.points.deep_view(),
            drafts: self.drafts.deep_view(),
        }
    }
}

/// The state before the first token.
pub open spec fn fresh_root() -> RootModel {
    RootModel {
        group: None,
        stack: Seq::empty(),
        cc_state: Seq::empty(),
        curves: Seq::empty(),
        curve_id: None,
        points: Seq::empty(),
        drafts: Seq::empty(),
    }
}

/// The settings from which a header inside all of `stack` starts.
pub open spec fn innermost(stack: Seq<RegionModel>) -> RegionModel {
    if stack.len() > 0 {
        stack.last()
    } else {
        default_region()
    }
}

/// The first `n` entries of a stack, or all of them.
pub open spec fn at_most(stack: Seq<RegionModel>, n: int) -> Seq<RegionModel> {
    if stack.len() > n {
        stack.take(n)
    } else {
        stack
    }
}

/// The stack after a header of depth `n`: what stands above it stays, and it
/// starts from the settings of the nearest header above it.
pub open spec fn stack_entered(stack: Seq<RegionModel>, n: int) -> Seq<RegionModel> {
    let above = at_most(stack, n - 1);
    above + Seq::new((n - above.len()) as nat, |i: int| innermost(above))
}

/// The state with the curve table that was being read put among the complete
/// ones.
pub open spec fn curve_closed(s: RootModel) -> RootModel {
    RootModel {
        curves: match s.curve_id {
            Some(id) => upserted(s.curves, id, s.points),
            None => s.curves,
        },
        curve_id: None,
        points: Seq::empty(),
        ..s
    }
}

/// The state with the region that was being read put among the complete ones.
pub open spec fn region_closed(s: RootModel) -> RootModel {
    RootModel {
        stack: s.stack.drop_last(),
        drafts: s.drafts.push(
            DraftModel { settings: innermost(s.stack), cc_state: s.cc_state },
        ),
        ..s
    }
}

/// The state when the header that was being read ends.
pub open spec fn left(s: RootModel) -> RootModel {
    if s.group == Some(SfzGroupType::Curve) {
        curve_closed(s)
    } else if s.group == Some(SfzGroupType::Region) {
        region_closed(s)
    } else {
        s
    }
}

/// The state when a header begins.
pub open spec fn entered(s: RootModel, group: SfzGroupType) -> RootModel {
    match level_of_group(group) {
        Some(n) => RootModel { group: Some(group), stack: stack_entered(s.stack, n), ..s },
        None => RootModel {
            group: if group == SfzGroupType::Curve {
                Some(group)
            } else {
                None
            },
            ..s
        },
    }
}

/// Opcodes are settings of the header that is being read.
pub open spec fn takes_settings(s: RootModel) -> bool {
    s.group is Some && s.group != Some(SfzGroupType::Curve) && s.stack.len() > 0
}

/// The state with the settings of the header that is being read replaced.
pub open spec fn with_innermost(s: RootModel, b: RegionModel) -> RootModel {
    RootModel { stack: s.stack.drop_last().push(b), ..s }
}

/// The fraction that controller `cc` holds at load; 0 where nothing sets it.
pub open spec fn init_of(cc_state: Seq<(u8, CcInit<Seq<char>>)>, cc: u8) -> CcInit<Seq<char>> {
    match entry(cc_state, cc) {
        Some(init) => init,
        None => CcInit::Midi(0),
    }
}

/// Settings whose envelope a controller moves: its contribution at load goes into
/// the envelope, and where the controller can move while the instrument plays, a
/// binding is kept for the stages that follow it.
pub open spec fn region_bound(
    b: RegionModel,
    base: AriaOnccBase,
    cc: u8,
    value: SfzNumber<Seq<char>>,
    init: CcInit<Seq<char>>,
) -> RegionModel {
    let added = RegionModel {
        ampeg_envelope: envelope_added(b.ampeg_envelope, base, value, init),
        ..b
    };
    if cc >= 128 {
        added
    } else {
        match base {
            AriaOnccBase::AmpegAttack => RegionModel {
                ampeg_attack_oncc: upserted(b.ampeg_attack_oncc, cc, (value, init)),
                ..added
            },
            AriaOnccBase::AmpegDecay => RegionModel {
                ampeg_decay_oncc: upserted(b.ampeg_decay_oncc, cc, (value, init)),
                ..added
            },
            AriaOnccBase::AmpegSustain => RegionModel {
                ampeg_sustain_oncc: upserted(b.ampeg_sustain_oncc, cc, (value, init)),
                ..added
            },
            AriaOnccBase::AmpegRelease => RegionModel {
                ampeg_release_oncc: upserted(b.ampeg_release_oncc, cc, (value, init)),
                ..added
            },
            _ => added,
        }
    }
}

/// The state after an opcode.
pub open spec fn opcode_read(s: RootModel, opcode: SfzOpcode<Seq<char>>) -> RootModel {
    let in_curve = s.group == Some(SfzGroupType::Curve);
    match opcode {
        SfzOpcode::AriaCcInit(cc, init) => RootModel {
            cc_state: upserted(s.cc_state, cc, init),
            ..s
        },
        SfzOpcode::AriaOncc { base, cc, value } => if takes_settings(s) {
            with_innermost(
                s,
                region_bound(innermost(s.stack), base, cc, value, init_of(s.cc_state, cc)),
            )
        } else {
            s
        },
        SfzOpcode::CurveIndex(id) => if in_curve {
            RootModel {
                curves: match s.curve_id {
                    Some(previous) => upserted(s.curves, previous, s.points),
                    None => s.curves,
                },
                points: if s.curve_id is Some {
                    Seq::empty()
                } else {
                    s.points
                },
                curve_id: Some(id),
                ..s
            }
        } else {
            s
        },
        SfzOpcode::CurvePoint(n, v) => if in_curve && n < 128 {
            RootModel { points: upserted(s.points, n, v), ..s }
        } else {
            s
        },
        _ => if takes_settings(s) {
            with_innermost(s, region_updated(innermost(s.stack), opcode))
        } else {
            s
        },
    }
}

/// The state after a token.
pub open spec fn token_read(s: RootModel, token: SfzToken<Seq<char>>) -> RootModel {
    match token {
        SfzToken::Group(group) => entered(left(s), group),
        SfzToken::Opcode(opcode) => opcode_read(s, opcode),
    }
}

/// The state after a row of tokens.
pub open spec fn tokens_read(s: RootModel, tokens: Seq<SfzToken<Seq<char>>>) -> RootModel
    decreases tokens.len(),
{
    if tokens.len() == 0 {
        s
    } else {
        token_read(tokens_read(s, tokens.drop_last()), tokens.last())
    }
}

/// What a whole file amounts to.
pub open spec fn root_of(tokens: Seq<SfzToken<Seq<char>>>) -> RootModel {
    left(tokens_read(fresh_root(), tokens))
}

/// The header that is being read stands on the stack at its depth, and nothing
/// stands deeper.
pub open spec fn root_wf(s: RootModel) -> bool {
    &&& s.stack.len() <= 5
    &&& s.group matches Some(g) ==> (level_of_group(g) matches Some(n) ==> s.stack.len() == n)
}

/// Reading a token keeps the stack in order.
pub proof fn token_read_keeps_order(s: RootModel, token: SfzToken<Seq<char>>)
    requires
        root_wf(s),
    ensures
        root_wf(token_read(s, token)),
{
}

/// Reading any row of tokens keeps the stack in order.
pub proof fn tokens_read_keep_order(s: RootModel, tokens: Seq<SfzToken<Seq<char>>>)
    requires
        root_wf(s),
    ensures
        root_wf(tokens_read(s, tokens)),
    decreases tokens.len(),
{
    if tokens.len() > 0 {
        tokens_read_keep_order(s, tokens.drop_last());
        token_read_keeps_order(tokens_read(s, tokens.drop_last()), tokens.last());
    }
}

/// No headers.
pub open spec fn only_opcodes(tokens: Seq<SfzToken<Seq<char>>>) -> bool {
    forall|i: int| 0 <= i < tokens.len() ==> tokens[i] is Opcode
}

/// Opcodes set nothing but the header that they stand under: the headers around
/// it keep their settings, and no region is completed.
pub proof fn opcodes_stay_in_their_header(s: RootModel, tokens: Seq<SfzToken<Seq<char>>>)
    requires
        only_opcodes(tokens),
    ensures
        tokens_read(s, tokens).group == s.group,
        tokens_read(s, tokens).drafts == s.drafts,
        tokens_read(s, tokens).stack.len() == s.stack.len(),
        forall|i: int|
            0 <= i < s.stack.len() - 1 ==> tokens_read(s, tokens).stack[i] == s.stack[i],
    decreases tokens.len(),
{
    if tokens.len() > 0 {
        opcodes_stay_in_their_header(s, tokens.drop_last());
        assert(tokens.last() is Opcode);
    }
}

/// A header starts from the settings of the nearest header above it.
pub proof fn header_inherits(s: RootModel, group: SfzGroupType)
    requires
        level_of_group(group) is Some,
    ensures
        token_read(s, SfzToken::Group(group)).stack.len() == level_of_group(group)->0,
        token_read(s, SfzToken::Group(group)).stack.last() == innermost(
            at_most(left(s).stack, level_of_group(group)->0 - 1),
        ),
        forall|i: int|
            0 <= i < left(s).stack.len() && i < level_of_group(group)->0 - 1 ==> token_read(
                s,
                SfzToken::Group(group),
            ).stack[i] == left(s).stack[i],
{
}

/// What a header sets does not reach the headers after it at its own depth or
/// above: they start as though it had not been there.
pub proof fn siblings_do_not_leak(
    s: RootModel,
    group: SfzGroupType,
    opcodes: Seq<SfzToken<Seq<char>>>,
    next: SfzGroupType,
)
    requires
        level_of_group(group) is Some,
        level_of_group(next) is Some,
        level_of_group(next)->0 <= level_of_group(group)->0,
        only_opcodes(opcodes),
    ensures
        token_read(
            tokens_read(token_read(s, SfzToken::Group(group)), opcodes),
            SfzToken::Group(next),
        ).stack == token_read(s, SfzToken::Group(next)).stack,
{
    let n = level_of_group(group)->0;
    let m = level_of_group(next)->0;
    let first = token_read(s, SfzToken::Group(group));
    opcodes_stay_in_their_header(first, opcodes);
    let second = left(tokens_read(first, opcodes));
    let outer = left(s).stack;
    assert(first.stack == stack_entered(outer, n));
    assert forall|i: int| 0 <= i < m - 1 implies second.stack[i] == (if i < outer.len() {
        outer[i]
    } else {
        innermost(outer)
    }) by {
        assert(second.stack[i] == first.stack[i]);
        if i >= outer.len() {
            assert(at_most(outer, n - 1) == outer);
        }
    }
    assert(second.stack.len() >= m - 1);
    assert(stack_entered(second.stack, m) =~= stack_entered(outer, m));
}

/// How many regions a row of tokens begins.
pub open spec fn region_headers(tokens: Seq<SfzToken<Seq<char>>>) -> int
    decreases tokens.len(),
{
    if tokens.len() == 0 {
        0
    } else {
        region_headers(tokens.drop_last()) + if tokens.last() == SfzToken::<Seq<char>>::Group(
            SfzGroupType::Region,
        ) {
            1int
        } else {
            0
        }
    }
}

pub(crate) proof fn drafts_follow_headers(tokens: Seq<SfzToken<Seq<char>>>)
    ensures
        ({
            let s = tokens_read(fresh_root(), tokens);
            s.drafts.len() + (if s.group == Some(SfzGroupType::Region) {
                1int
            } else {
                0
            }) == region_headers(tokens)
        }),
    decreases tokens.len(),
{
    if tokens.len() > 0 {
        drafts_follow_headers(tokens.drop_last());
    }
}

/// A file describes one region for each of its region headers.
pub proof fn one_region_for_each_header(tokens: Seq<SfzToken<Seq<char>>>)
    ensures
        root_of(tokens).drafts.len() == region_headers(tokens),
{
    drafts_follow_headers(tokens);
}

/// The state with other regions before those that are complete.
pub open spec fn behind(drafts: Seq<DraftModel>, s: RootModel) -> RootModel {
    RootModel { drafts: drafts + s.drafts, ..s }
}

proof fn earlier_regions_stay(drafts: Seq<DraftModel>, s: RootModel, tokens: Seq<SfzToken<Seq<char>>>)
    ensures
        tokens_read(behind(drafts, s), tokens) == behind(drafts, tokens_read(s, tokens)),
        left(behind(drafts, s)) == behind(drafts, left(s)),
    decreases tokens.len(),
{
    if s.group == Some(SfzGroupType::Region) {
        assert(left(behind(drafts, s)).drafts =~= behind(drafts, left(s)).drafts);
    }
    if tokens.len() > 0 {
        let before = tokens_read(s, tokens.drop_last());
        earlier_regions_stay(drafts, s, tokens.drop_last());
        earlier_regions_stay(drafts, before, Seq::empty());
    }
}

pub(crate) proof fn rows_join(s: RootModel, a: Seq<SfzToken<Seq<char>>>, b: Seq<SfzToken<Seq<char>>>)
    ensures
        tokens_read(s, a + b) == tokens_read(tokens_read(s, a), b),
    decreases b.len(),
{
    if b.len() == 0 {
        assert(a + b =~= a);
    } else {
        assert((a + b).drop_last() =~= a + b.drop_last());
        assert((a + b).last() == b.last());
        rows_join(s, a, b.drop_last());
    }
}

/// The token is a group or region header, or an opcode that does not set a controller.
pub open spec fn stays_in_groups(token: SfzToken<Seq<char>>) -> bool {
    match token {
        SfzToken::Group(group) => group == SfzGroupType::Group || group == SfzGroupType::Region,
        SfzToken::Opcode(opcode) => !(opcode is AriaCcInit),
    }
}

/// The row begins with a group header.
pub open spec fn begins_group(tokens: Seq<SfzToken<Seq<char>>>) -> bool {
    tokens.len() > 0 && tokens[0] == SfzToken::<Seq<char>>::Group(SfzGroupType::Group)
}

proof fn groups_leave_the_rest(s: RootModel, tokens: Seq<SfzToken<Seq<char>>>)
    requires
        s.group == Some(SfzGroupType::Group),
        s.stack.len() == 4,
        forall|i: int| 0 <= i < tokens.len() ==> stays_in_groups(#[trigger] tokens[i]),
    ensures
        ({
            let t = tokens_read(s, tokens);
            &&& t.group == Some(SfzGroupType::Group) && t.stack.len() == 4 || t.group == Some(
                SfzGroupType::Region,
            ) && t.stack.len() == 5
            &&& forall|i: int| 0 <= i < 3 ==> t.stack[i] == s.stack[i]
            &&& t.cc_state == s.cc_state
            &&& t.curves == s.curves
            &&& t.curve_id == s.curve_id
            &&& t.points == s.points
        }),
    decreases tokens.len(),
{
    if tokens.len() > 0 {
        groups_leave_the_rest(s, tokens.drop_last());
        assert(stays_in_groups(tokens.last()));
    }
}

proof fn header_is_read_first(s: RootModel, tokens: Seq<SfzToken<Seq<char>>>)
    requires
        begins_group(tokens),
    ensures
        tokens_read(s, tokens) == tokens_read(
            entered(left(s), SfzGroupType::Group),
            tokens.skip(1),
        ),
{
    let header = seq![tokens[0]];
    assert(tokens =~= header + tokens.skip(1));
    rows_join(s, header, tokens.skip(1));
    assert(header.drop_last() =~= Seq::empty());
    assert(tokens_read(s, Seq::empty()) == s);
    assert(tokens_read(s, header) == token_read(s, tokens[0]));
}

proof fn next_group_starts_anew(l: RootModel, tokens: Seq<SfzToken<Seq<char>>>)
    requires
        forall|i: int| 0 <= i < tokens.len() ==> stays_in_groups(#[trigger] tokens[i]),
    ensures
        ({
            let e = entered(l, SfzGroupType::Group);
            let t = left(tokens_read(e, tokens));
            entered(t, SfzGroupType::Group) == (RootModel { drafts: t.drafts, ..e })
        }),
{
    let e = entered(l, SfzGroupType::Group);
    assert(e.stack == stack_entered(l.stack, 4));
    assert(e.stack.len() == 4);
    groups_leave_the_rest(e, tokens);
    let t = left(tokens_read(e, tokens));
    assert(t.stack.len() == 4);
    assert(at_most(t.stack, 3) =~= e.stack.take(3));
    assert(e.stack[3] == e.stack[2]);
    assert(stack_entered(t.stack, 4) =~= e.stack);
}

proof fn regions_follow(drafts: Seq<DraftModel>, e: RootModel, tokens: Seq<SfzToken<Seq<char>>>)
    ensures
        left(tokens_read((RootModel { drafts, ..e }), tokens)).drafts == drafts + left(
            tokens_read((RootModel { drafts: Seq::empty(), ..e }), tokens),
        ).drafts,
{
    let none = RootModel { drafts: Seq::empty(), ..e };
    assert(drafts + Seq::<DraftModel>::empty() =~= drafts);
    assert((RootModel { drafts, ..e }) == behind(drafts, none));
    earlier_regions_stay(drafts, none, tokens);
    earlier_regions_stay(drafts, tokens_read(none, tokens), Seq::empty());
}

/// Two groups after a common beginning describe the regions of each in turn, as though the
/// other one were not there. The first one holds groups and regions alone, and sets no
/// controllers.
pub proof fn groups_stand_alone(
    common: Seq<SfzToken<Seq<char>>>,
    first: Seq<SfzToken<Seq<char>>>,
    second: Seq<SfzToken<Seq<char>>>,
)
    requires
        begins_group(first),
        begins_group(second),
        forall|i: int| 0 <= i < first.len() ==> stays_in_groups(#[trigger] first[i]),
    ensures
        root_of(common + first + second).drafts == root_of(common + first).drafts + root_of(
            common + second,
        ).drafts.skip(root_of(common).drafts.len() as int),
        root_of(common + first).drafts.take(root_of(common).drafts.len() as int) == root_of(
            common,
        ).drafts,
        root_of(common + second).drafts.take(root_of(common).drafts.len() as int) == root_of(
            common,
        ).drafts,
{
    let s = tokens_read(fresh_root(), common);
    let l = left(s);
    let e = entered(l, SfzGroupType::Group);
    let t = tokens_read(e, first.skip(1));
    let d = l.drafts.len() as int;
    rows_join(fresh_root(), common, first);
    rows_join(fresh_root(), common, second);
    rows_join(fresh_root(), common + first, second);
    header_is_read_first(s, first);
    header_is_read_first(s, second);
    header_is_read_first(t, second);
    assert forall|i: int| 0 <= i < first.skip(1).len() implies stays_in_groups(
        #[trigger] first.skip(1)[i],
    ) by {
        assert(first.skip(1)[i] == first[i + 1]);
    }
    next_group_starts_anew(l, first.skip(1));
    assert(e == (RootModel { drafts: l.drafts, ..e }));
    regions_follow(l.drafts, e, first.skip(1));
    regions_follow(l.drafts, e, second.skip(1));
    regions_follow(left(t).drafts, e, second.skip(1));
    let f = left(tokens_read((RootModel { drafts: Seq::empty(), ..e }), second.skip(1))).drafts;
    let g = left(tokens_read((RootModel { drafts: Seq::empty(), ..e }), first.skip(1))).drafts;
    assert((l.drafts + f).skip(d) =~= f);
    assert((l.drafts + f).take(d) =~= l.drafts);
    assert((l.drafts + g).take(d) =~= l.drafts);
}

fn copy_cc_state(list: &Vec<(u8, CcInit)>) -> (r: Vec<(u8, CcInit)>)
    ensures
        r.deep_view() == list.deep_view(),
{
    let mut out: Vec<(u8, CcInit)> = Vec::new();
    let mut i: usize = 0;
    while i < list.len()
        invariant
            i <= list.len(),
            out@ == list@.take(i as int),
        decreases list.len() - i,
    {
        out.push((list[i].0, list[i].1.clone()));
        i = i + 1;
        assert(list@.take(i as int) =~= list@.take(i - 1).push(list@[i - 1]));
    }
    assert(out@ =~= list@);
    assert(out.deep_view() =~= list.deep_view());
    out
}

impl RegionParamsBuilder {
    /// Binds a stage of the envelope to a controller.
    pub fn bind(&mut self, base: AriaOnccBase, cc: u8, value: SfzNumber, init: CcInit)
        ensures
            final(self).deep_view() == region_bound(
                old(self).deep_view(),
                base,
                cc,
                value.deep_view(),
                init.deep_view(),
            ),
    {
        self.ampeg_envelope.contribute(base, value.clone(), init.clone());
        if cc < 128 {
            match base {
                AriaOnccBase::AmpegAttack => upsert(
                    &mut self.ampeg_attack_oncc,
                    cc,
                    (value, init),
                ),
                AriaOnccBase::AmpegDecay => upsert(&mut self.ampeg_decay_oncc, cc, (value, init)),
                AriaOnccBase::AmpegSustain => upsert(
                    &mut self.ampeg_sustain_oncc,
                    cc,
                    (value, init),
                ),
                AriaOnccBase::AmpegRelease => upsert(
                    &mut self.ampeg_release_oncc,
                    cc,
                    (value, init),
                ),
                _ => {},
            }
        }
    }
}

impl RootState {
    /// The state before the first token.
    pub fn new() -> (r: RootState)
        ensures
            r.deep_view() == fresh_root(),
    {
        let r = RootState {
            group: None,
            stack: Vec::new(),
            cc_state: Vec::new(),
            curves: Vec::new(),
            curve_id: None,
            points: Vec::new(),
            drafts: Vec::new(),
        };
        assert(r.deep_view() =~= fresh_root());
        r
    }

    /// Ends the header that is being read.
    fn leave(&mut self)
        requires
            root_wf(old(self).deep_view()),
        ensures
            final(self).deep_view() == left(old(self).deep_view()),
    {
        let ghost before = self.deep_view();
        if self.group == Some(SfzGroupType::Curve) {
            let mut points: Vec<(u8, SfzNumber)> = Vec::new();
            std::mem::swap(&mut points, &mut self.points);
            assert(self.points.deep_view() =~= Seq::empty());
            if let Some(id) = self.curve_id {
                self.curve_id = None;
                upsert(&mut self.curves, id, points);
            }
            assert(self.deep_view() =~= curve_closed(before));
        } else if self.group == Some(SfzGroupType::Region) {
            assert(self.stack.deep_view().len() == self.stack.len());
            if let Some(settings) = self.stack.pop() {
                assert(self.stack.deep_view() =~= before.stack.drop_last());
                let cc_state = copy_cc_state(&self.cc_state);
                let draft = RegionDraft { settings, cc_state };
                self.drafts.push(draft);
                assert(self.drafts.deep_view() =~= before.drafts.push(draft.deep_view()));
            }
        }
    }

    /// Begins a header.
    fn enter(&mut self, group: SfzGroupType)
        ensures
            final(self).deep_view() == entered(old(self).deep_view(), group),
    {
        let ghost before = self.deep_view();
        match get_group_level(group) {
            Some(n) => {
                self.group = Some(group);
                while self.stack.len() >= n
                    invariant
                        1 <= n,
                        self.deep_view() == (RootModel {
                            group: Some(group),
                            stack: self.stack.deep_view(),
                            ..before
                        }),
                        self.stack.len() <= before.stack.len(),
                        self.stack.len() >= n - 1 || self.stack.deep_view() == before.stack,
                        self.stack.deep_view() == before.stack.take(self.stack.len() as int),
                    decreases self.stack.len(),
                {
                    let ghost full = self.stack.deep_view();
                    let _ = self.stack.pop();
                    assert(self.stack.deep_view() =~= full.drop_last());
                    assert(full.drop_last() =~= before.stack.take(full.len() - 1));
                }
                let ghost above = at_most(before.stack, n - 1);
                assert(self.stack.deep_view() =~= above);
                let ghost top = innermost(above);
                while self.stack.len() < n
                    invariant
                        above.len() <= self.stack.len() <= n,
                        above.len() <= n - 1,
                        top == innermost(above),
                        self.deep_view() == (RootModel {
                            group: Some(group),
                            stack: self.stack.deep_view(),
                            ..before
                        }),
                        self.stack.deep_view() == above + Seq::new(
                            (self.stack.len() - above.len()) as nat,
                            |i: int| top,
                        ),
                    decreases n - self.stack.len(),
                {
                    let ghost filled = self.stack.deep_view();
                    let next = if self.stack.len() > 0 {
                        assert(filled.last() == self.stack@.last().deep_view());
                        self.stack[self.stack.len() - 1].clone()
                    } else {
                        RegionParamsBuilder::default()
                    };
                    assert(next.deep_view() == top);
                    self.stack.push(next);
                    assert(self.stack.deep_view() =~= filled.push(top));
                }
                assert(self.deep_view() =~= entered(before, group));
            },
            None => {
                self.group = if group == SfzGroupType::Curve {
                    Some(group)
                } else {
                    None
                };
            },
        }
    }

    /// Binds a stage of the innermost envelope to a controller.
    fn bind_innermost(&mut self, base: AriaOnccBase, cc: u8, value: SfzNumber)
        requires
            old(self).stack.len() > 0,
        ensures
            final(self).deep_view() == with_innermost(
                old(self).deep_view(),
                region_bound(
                    innermost(old(self).deep_view().stack),
                    base,
                    cc,
                    value.deep_view(),
                    init_of(old(self).deep_view().cc_state, cc),
                ),
            ),
    {
        let ghost before = self.deep_view();
        let at = place(&self.cc_state, cc);
        let init = if at < self.cc_state.len() {
            assert(before.cc_state[at as int].1 == self.cc_state@[at as int].1.deep_view());
            self.cc_state[at].1.clone()
        } else {
            CcInit::Midi(0)
        };
        assert(before.stack.last() == self.stack@.last().deep_view());
        if let Some(mut settings) = self.stack.pop() {
            settings.bind(base, cc, value, init);
            self.stack.push(settings);
            assert(self.stack.deep_view() =~= before.stack.drop_last().push(settings.deep_view()));
        }
    }

    /// Gives the innermost header one more opcode.
    fn update_innermost(&mut self, opcode: SfzOpcode)
        requires
            old(self).stack.len() > 0,
        ensures
            final(self).deep_view() == with_innermost(
                old(self).deep_view(),
                region_updated(innermost(old(self).deep_view().stack), opcode.deep_view()),
            ),
    {
        let ghost before = self.deep_view();
        assert(before.stack.last() == self.stack@.last().deep_view());
        if let Some(mut settings) = self.stack.pop() {
            settings.update_from_flag(opcode);
            self.stack.push(settings);
            assert(self.stack.deep_view() =~= before.stack.drop_last().push(settings.deep_view()));
        }
    }

    /// Reads an opcode.
    #[verifier::rlimit(50)]
    fn read_opcode(&mut self, opcode: SfzOpcode)
        ensures
            final(self).deep_view() == opcode_read(old(self).deep_view(), opcode.deep_view()),
    {
        let in_curve = self.group == Some(SfzGroupType::Curve);
        let takes = self.group.is_some() && !in_curve && self.stack.len() > 0;
        assert(takes == takes_settings(self.deep_view()));
        match opcode {
            SfzOpcode::AriaCcInit(cc, init) => upsert(&mut self.cc_state, cc, init),
            SfzOpcode::AriaOncc { base, cc, value } => {
                if takes {
                    self.bind_innermost(base, cc, value);
                }
            },
            SfzOpcode::CurveIndex(id) => {
                if in_curve {
                    if let Some(previous) = self.curve_id {
                        let mut points: Vec<(u8, SfzNumber)> = Vec::new();
                        std::mem::swap(&mut points, &mut self.points);
                        assert(self.points.deep_view() =~= Seq::empty());
                        upsert(&mut self.curves, previous, points);
                    }
                    self.curve_id = Some(id);
                }
            },
            SfzOpcode::CurvePoint(n, v) => {
                if in_curve && n < 128 {
                    upsert(&mut self.points, n, v);
                }
            },
            flag => {
                if takes {
                    self.update_innermost(flag);
                }
            },
        }
    }

    /// Reads a token.
    pub fn read(&mut self, token: SfzToken)
        requires
            root_wf(old(self).deep_view()),
        ensures
            final(self).deep_view() == token_read(old(self).deep_view(), token.deep_view()),
            root_wf(final(self).deep_view()),
    {
        proof {
            token_read_keeps_order(self.deep_view(), token.deep_view());
        }
        match token {
            SfzToken::Group(group) => {
                self.leave();
                self.enter(group);
            },
            SfzToken::Opcode(opcode) => self.read_opcode(opcode),
        }
    }
}

/// What a file describes: its regions in order, and the curve tables that they
/// all share.
#[derive(Debug)]
pub struct SfzRoot {
    pub regions: Vec<RegionDraft>,
    pub curves: SfzCurves,
}

/// Reads the tokens of a whole file.
pub fn parse_sf_root(tokens: &Vec<SfzToken>) -> (r: SfzRoot)
    ensures
        r.regions.deep_view() == root_of(tokens.deep_view()).drafts,
        r.curves.deep_view() == root_of(tokens.deep_view()).curves,
{
    let ghost all = tokens.deep_view();
    let mut state = RootState::new();
    let mut i: usize = 0;
    while i < tokens.len()
        invariant
            i <= tokens.len(),
            all == tokens.deep_view(),
            root_wf(state.deep_view()),
            state.deep_view() == tokens_read(fresh_root(), all.take(i as int)),
        decreases tokens.len() - i,
    {
        state.read(tokens[i].clone());
        assert(all.take(i + 1).drop_last() =~= all.take(i as int));
        assert(all.take(i + 1).last() == tokens@[i as int].deep_view());
        i = i + 1;
    }
    assert(all.take(i as int) =~= all);
    state.leave();
    SfzRoot { regions: state.drafts, curves: state.curves }
}

} // verus!
