//! How the settings of an SFZ file are spelled.

use super::bindings::{CurveTable, OnccTable};
use super::parse::{
    curvecc_binding, filter_kind, group_named, integer_opcode, key_number, key_opcode,
    loop_mode_named, named_opcode, numbered_opcode, octave_char, oncc_binding, opcode_of,
    semitone_of, trigger_named, xf_curve_named, AriaOnccBase, CcInit, SfzGroupType, SfzNumber,
    SfzOpcode, XfCurve,
};
use super::region::TriggerType;
use super::settings::{sets, EnvelopeSetting, NumberSetting, Setting, Value, WholeSetting};
use crate::text::{
    after_prefix, all_digits, first_at, first_position_is_unique, integer_within, is_digit,
    is_fraction, lowered, numbers_are_read_as_written, other_texts_have_no_prefix,
    prefixes_are_taken_off, replaced, stands_at, written, written_is_read,
};
use crate::{FilterType, LoopMode};
use vstd::prelude::*;

verus! {

/// The opcode sets one setting to a value, and no other setting.
pub open spec fn sets_only(op: Option<SfzOpcode<Seq<char>>>, s: Setting, v: Value) -> bool {
    &&& op matches Some(op) && sets(op, s) == Some(v)
    &&& op matches Some(op) && forall|t: Setting| t != s ==> #[trigger] sets(op, t) is None
}

/// The name of the opcode that sets a setting to a key.
pub open spec fn key_name(s: WholeSetting) -> Option<Seq<char>> {
    match s {
        WholeSetting::Lokey => Some("lokey"@),
        WholeSetting::Hikey => Some("hikey"@),
        WholeSetting::PitchKeycenter => Some("pitch_keycenter"@),
        WholeSetting::SwDefault => Some("sw_default"@),
        WholeSetting::SwLast => Some("sw_last"@),
        WholeSetting::SwLokey => Some("sw_lokey"@),
        WholeSetting::SwHikey => Some("sw_hikey"@),
        WholeSetting::AmpKeycenter => Some("amp_keycenter"@),
        WholeSetting::PanKeycenter => Some("pan_keycenter"@),
        WholeSetting::FilKeycenter => Some("fil_keycenter"@),
        _ => None,
    }
}

/// The names of the opcode that sets a setting to a whole number.
pub open spec fn whole_name(s: WholeSetting, name: Seq<char>) -> bool {
    match s {
        WholeSetting::Lovel => name == "lovel"@,
        WholeSetting::Hivel => name == "hivel"@,
        WholeSetting::Volume => name == "volume"@,
        WholeSetting::Pan => name == "pan"@,
        WholeSetting::FilVeltrack => name == "fil_veltrack"@,
        WholeSetting::FilKeytrack => name == "fil_keytrack"@,
        WholeSetting::LoopStart => name == "loop_start"@ || name == "loopstart"@,
        WholeSetting::LoopEnd => name == "loop_end"@ || name == "loopend"@,
        WholeSetting::Offset => name == "offset"@,
        WholeSetting::Tune => name == "tune"@,
        WholeSetting::Polyphony => name == "polyphony"@,
        WholeSetting::SeqLength => name == "seq_length"@ || name == "seqlength"@,
        WholeSetting::SeqPosition => name == "seq_position"@ || name == "seqposition"@,
        WholeSetting::FilegCurve => name == "fileg_curve"@,
        _ => false,
    }
}

/// The numbers that can be written for a setting.
pub open spec fn writable(s: WholeSetting) -> (int, int) {
    match s {
        WholeSetting::Lovel => (0, 255),
        WholeSetting::Hivel => (0, 255),
        WholeSetting::Volume => (-32768, 32767),
        WholeSetting::Pan => (-128, 127),
        WholeSetting::FilVeltrack => (-32768, 32767),
        WholeSetting::FilKeytrack => (-32768, 32767),
        WholeSetting::Tune => (-32768, 32767),
        WholeSetting::FilegCurve => (0, 255),
        _ => (0, 0xffff_ffff),
    }
}

/// The numbers to which a setting is held.
pub open spec fn range_of(s: WholeSetting) -> (int, int) {
    match s {
        WholeSetting::Lovel => (0, 128),
        WholeSetting::Hivel => (0, 128),
        WholeSetting::Volume => (-144, 6),
        WholeSetting::Pan => (-100, 100),
        WholeSetting::FilVeltrack => (-9600, 9600),
        WholeSetting::FilKeytrack => (0, 1200),
        WholeSetting::Tune => (-2400, 2400),
        WholeSetting::Polyphony => (1, 128),
        WholeSetting::SeqLength => (0, 255),
        WholeSetting::SeqPosition => (0, 255),
        WholeSetting::FilegCurve => (0, 255),
        _ => (0, 0xffff_ffff),
    }
}

/// The names of the opcode that sets a setting to a decimal number.
pub open spec fn number_name(s: NumberSetting, name: Seq<char>) -> bool {
    match s {
        NumberSetting::Cutoff => name == "cutoff"@,
        NumberSetting::Resonance => name == "resonance"@,
        NumberSetting::AmpKeytrack => name == "amp_keytrack"@,
        NumberSetting::AmpVeltrack => name == "amp_veltrack"@,
        NumberSetting::PanKeytrack => name == "pan_keytrack"@,
        NumberSetting::PanVeltrack => name == "pan_veltrack"@,
        NumberSetting::LoopCrossfade => name == "loop_crossfade"@ || name == "loopcrossfade"@,
        NumberSetting::AmpLfoFreq => name == "amplfo_freq"@,
        NumberSetting::AmpLfoDepth => name == "amplfo_depth"@,
        NumberSetting::FilLfoFreq => name == "fillfo_freq"@,
        NumberSetting::FilLfoDepth => name == "fillfo_depth"@,
        NumberSetting::PanLfoFreq => name == "panlfo_freq"@,
        NumberSetting::PanLfoDepth => name == "panlfo_depth"@,
        NumberSetting::FilegAttack => name == "fileg_attack"@,
        NumberSetting::FilegDecay => name == "fileg_decay"@,
        NumberSetting::FilegSustain => name == "fileg_sustain"@,
        NumberSetting::FilegRelease => name == "fileg_release"@,
        NumberSetting::FilegDepth => name == "fileg_depth"@,
        NumberSetting::PitchLfoFreq => name == "pitchlfo_freq"@,
        NumberSetting::PitchLfoDepth => name == "pitchlfo_depth"@,
        _ => false,
    }
}

/// The range to which a decimal number is held, if it is.
pub open spec fn number_range(s: NumberSetting) -> Option<(i32, i32)> {
    match s {
        NumberSetting::Cutoff => Some((1i32, 100000i32)),
        NumberSetting::Resonance => Some((0i32, 40i32)),
        NumberSetting::AmpKeytrack => Some((-96i32, 12i32)),
        NumberSetting::AmpVeltrack => Some((-100i32, 100i32)),
        NumberSetting::PanKeytrack => Some((-100i32, 100i32)),
        NumberSetting::PanVeltrack => Some((-100i32, 100i32)),
        _ => None,
    }
}

/// The name of the opcode that sets a stage of the amplitude envelope.
pub open spec fn stage_name(s: EnvelopeSetting) -> Seq<char> {
    match s {
        EnvelopeSetting::Delay => "ampeg_delay"@,
        EnvelopeSetting::Start => "ampeg_start"@,
        EnvelopeSetting::Attack => "ampeg_attack"@,
        EnvelopeSetting::Hold => "ampeg_hold"@,
        EnvelopeSetting::Decay => "ampeg_decay"@,
        EnvelopeSetting::Sustain => "ampeg_sustain"@,
        EnvelopeSetting::Release => "ampeg_release"@,
        EnvelopeSetting::Vel2Release => "ampeg_vel2release"@,
    }
}

/// The first letters of a name, and how long it is.
spec fn seen(c: Seq<char>, len: nat) -> bool {
    true
}

proof fn look(name: Seq<char>)
    ensures
        seen(
            seq![
                name[0], name[1], name[2], name[3], name[4], name[5],
                name[6], name[7], name[8], name[9], name[10], name[11],
                name[12], name[13], name[14], name[15], name[16], name[17],
            ],
            name.len(),
        ),
{
}

/// An opcode that is named after a key setting sets it to the key that its value names, and sets
/// nothing else; without such a key it sets nothing.
#[verifier::rlimit(50)]
#[verifier::spinoff_prover]
pub proof fn key_settings_are_spelled(s: WholeSetting, val: Seq<char>)
    requires
        key_name(s) is Some,
    ensures
        key_number(val) matches Some(k) ==> sets_only(
            named_opcode(key_name(s)->0, val),
            Setting::Whole(s),
            Value::Whole(k),
        ),
        key_number(val) is None ==> named_opcode(key_name(s)->0, val) is None,
{
    look(key_name(s)->0);
    reveal_strlit("lokey");
    reveal_strlit("hikey");
    reveal_strlit("pitch_keycenter");
    reveal_strlit("sw_default");
    reveal_strlit("sw_last");
    reveal_strlit("sw_lokey");
    reveal_strlit("sw_hikey");
    reveal_strlit("amp_keycenter");
    reveal_strlit("pan_keycenter");
    reveal_strlit("fil_keycenter");
    reveal_strlit("key");
    keys_are_in_range(val);
}

proof fn keys_are_in_range(val: Seq<char>)
    ensures
        key_number(val) matches Some(k) ==> -1 <= k <= 127,
{
}

/// `key` sets the lowest key, the highest key and the centre, all to the same key.
pub proof fn one_key_is_spelled(val: Seq<char>)
    ensures
        key_number(val) matches Some(k) ==> named_opcode("key"@, val) == Some(
            SfzOpcode::<Seq<char>>::Key(k as i8),
        ),
        key_number(val) is None ==> named_opcode("key"@, val) is None,
{
    look("key"@);
    reveal_strlit("lokey");
    reveal_strlit("hikey");
    reveal_strlit("pitch_keycenter");
    reveal_strlit("sw_default");
    reveal_strlit("sw_last");
    reveal_strlit("sw_lokey");
    reveal_strlit("sw_hikey");
    reveal_strlit("amp_keycenter");
    reveal_strlit("pan_keycenter");
    reveal_strlit("fil_keycenter");
    reveal_strlit("key");
}

/// An opcode that is named after a setting that is a whole number sets it to the number that its
/// value writes, held to the range of the setting, and sets nothing else.
#[verifier::rlimit(100)]
#[verifier::spinoff_prover]
pub proof fn whole_settings_are_spelled(s: WholeSetting, name: Seq<char>, val: Seq<char>)
    requires
        whole_name(s, name),
    ensures
        ({
            let (least, greatest) = writable(s);
            let (lo, hi) = range_of(s);
            let written = integer_within(val, least, greatest);
            &&& written matches Some(v) ==> sets_only(
                named_opcode(name, val),
                Setting::Whole(s),
                Value::Whole(
                    if v < lo {
                        lo
                    } else if v > hi {
                        hi
                    } else {
                        v
                    },
                ),
            )
            &&& written is None ==> named_opcode(name, val) is None
        }),
{
    look(name);
    reveal_strlit("lokey");
    reveal_strlit("hikey");
    reveal_strlit("pitch_keycenter");
    reveal_strlit("sw_default");
    reveal_strlit("sw_last");
    reveal_strlit("sw_lokey");
    reveal_strlit("sw_hikey");
    reveal_strlit("amp_keycenter");
    reveal_strlit("pan_keycenter");
    reveal_strlit("fil_keycenter");
    reveal_strlit("key");
    reveal_strlit("lovel");
    reveal_strlit("hivel");
    reveal_strlit("volume");
    reveal_strlit("pan");
    reveal_strlit("fil_veltrack");
    reveal_strlit("fil_keytrack");
    reveal_strlit("loop_start");
    reveal_strlit("loopstart");
    reveal_strlit("loop_end");
    reveal_strlit("loopend");
    reveal_strlit("offset");
    reveal_strlit("tune");
    reveal_strlit("polyphony");
    reveal_strlit("seq_length");
    reveal_strlit("seqlength");
    reveal_strlit("seq_position");
    reveal_strlit("seqposition");
    reveal_strlit("fileg_curve");
    reveal_strlit("group");
    reveal_strlit("off_by");
    reveal_strlit("offBy");
    let (least, greatest) = writable(s);
    integers_lie_within(val, least, greatest);
    no_key_is_meant(s, name, val);
}

proof fn integers_lie_within(val: Seq<char>, least: int, greatest: int)
    ensures
        integer_within(val, least, greatest) matches Some(v) ==> least <= v <= greatest,
{
}

#[verifier::rlimit(50)]
proof fn no_key_is_meant(s: WholeSetting, name: Seq<char>, val: Seq<char>)
    requires
        whole_name(s, name),
    ensures
        key_opcode(name, val) is None,
{
    look(name);
    reveal_strlit("lokey");
    reveal_strlit("hikey");
    reveal_strlit("pitch_keycenter");
    reveal_strlit("sw_default");
    reveal_strlit("sw_last");
    reveal_strlit("sw_lokey");
    reveal_strlit("sw_hikey");
    reveal_strlit("amp_keycenter");
    reveal_strlit("pan_keycenter");
    reveal_strlit("fil_keycenter");
    reveal_strlit("key");
    reveal_strlit("lovel");
    reveal_strlit("hivel");
    reveal_strlit("volume");
    reveal_strlit("pan");
    reveal_strlit("fil_veltrack");
    reveal_strlit("fil_keytrack");
    reveal_strlit("loop_start");
    reveal_strlit("loopstart");
    reveal_strlit("loop_end");
    reveal_strlit("loopend");
    reveal_strlit("offset");
    reveal_strlit("tune");
    reveal_strlit("polyphony");
    reveal_strlit("seq_length");
    reveal_strlit("seqlength");
    reveal_strlit("seq_position");
    reveal_strlit("seqposition");
    reveal_strlit("fileg_curve");
    reveal_strlit("group");
    reveal_strlit("off_by");
    reveal_strlit("offBy");
}

/// An opcode that is named after a setting that is a decimal number sets it to the number that
/// its value writes, to be held to the range of the setting, and sets nothing else.
#[verifier::rlimit(100)]
#[verifier::spinoff_prover]
pub proof fn number_settings_are_spelled(s: NumberSetting, name: Seq<char>, val: Seq<char>)
    requires
        number_name(s, name),
    ensures
        is_fraction(val) ==> sets_only(
            named_opcode(name, val),
            Setting::Number(s),
            Value::Number(SfzNumber { text: val, clamp: number_range(s) }),
        ),
        !is_fraction(val) ==> named_opcode(name, val) is None,
{
    no_whole_number_is_meant(name, val);
    look(name);
    reveal_strlit("cutoff");
    reveal_strlit("resonance");
    reveal_strlit("amp_keytrack");
    reveal_strlit("amp_veltrack");
    reveal_strlit("pan_keytrack");
    reveal_strlit("pan_veltrack");
    reveal_strlit("ampeg_delay");
    reveal_strlit("ampeg_start");
    reveal_strlit("ampeg_attack");
    reveal_strlit("ampeg_hold");
    reveal_strlit("ampeg_decay");
    reveal_strlit("ampeg_sustain");
    reveal_strlit("ampeg_release");
    reveal_strlit("ampeg_vel2release");
    reveal_strlit("loop_crossfade");
    reveal_strlit("loopcrossfade");
    reveal_strlit("amplfo_freq");
    reveal_strlit("amplfo_depth");
    reveal_strlit("fillfo_freq");
    reveal_strlit("fillfo_depth");
    reveal_strlit("panlfo_freq");
    reveal_strlit("panlfo_depth");
    reveal_strlit("fileg_attack");
    reveal_strlit("fileg_decay");
    reveal_strlit("fileg_sustain");
    reveal_strlit("fileg_release");
    reveal_strlit("fileg_depth");
    reveal_strlit("pitchlfo_freq");
    reveal_strlit("pitchlfo_depth");
}

/// An opcode that is named after a stage of the amplitude envelope sets it to the number that its
/// value writes, in seconds or percent from 0 to 100, and sets nothing else. Only what the
/// velocity adds may be negative.
#[verifier::rlimit(50)]
#[verifier::spinoff_prover]
pub proof fn stages_are_spelled(s: EnvelopeSetting, val: Seq<char>)
    ensures
        is_fraction(val) ==> sets_only(
            named_opcode(stage_name(s), val),
            Setting::Envelope(s),
            Value::Number(
                SfzNumber {
                    text: val,
                    clamp: if s is Vel2Release {
                        Some((-100i32, 100i32))
                    } else {
                        Some((0i32, 100i32))
                    },
                },
            ),
        ),
        !is_fraction(val) ==> named_opcode(stage_name(s), val) is None,
{
    no_whole_number_is_meant(stage_name(s), val);
    look(stage_name(s));
    reveal_strlit("cutoff");
    reveal_strlit("resonance");
    reveal_strlit("amp_keytrack");
    reveal_strlit("amp_veltrack");
    reveal_strlit("pan_keytrack");
    reveal_strlit("pan_veltrack");
    reveal_strlit("ampeg_delay");
    reveal_strlit("ampeg_start");
    reveal_strlit("ampeg_attack");
    reveal_strlit("ampeg_hold");
    reveal_strlit("ampeg_decay");
    reveal_strlit("ampeg_sustain");
    reveal_strlit("ampeg_release");
    reveal_strlit("ampeg_vel2release");
}

/// The name of an opcode whose value is a decimal number.
spec fn is_number_name(name: Seq<char>) -> bool {
    ||| exists|s: NumberSetting| number_name(s, name)
    ||| exists|s: EnvelopeSetting| name == stage_name(s)
}

#[verifier::rlimit(100)]
#[verifier::spinoff_prover]
proof fn no_whole_number_is_meant(name: Seq<char>, val: Seq<char>)
    requires
        is_number_name(name),
    ensures
        key_opcode(name, val) is None,
        integer_opcode(name, val) is None,
{
    look(name);
    reveal_strlit("lokey");
    reveal_strlit("hikey");
    reveal_strlit("pitch_keycenter");
    reveal_strlit("sw_default");
    reveal_strlit("sw_last");
    reveal_strlit("sw_lokey");
    reveal_strlit("sw_hikey");
    reveal_strlit("amp_keycenter");
    reveal_strlit("pan_keycenter");
    reveal_strlit("fil_keycenter");
    reveal_strlit("key");
    reveal_strlit("lovel");
    reveal_strlit("hivel");
    reveal_strlit("volume");
    reveal_strlit("pan");
    reveal_strlit("fil_veltrack");
    reveal_strlit("fil_keytrack");
    reveal_strlit("loop_start");
    reveal_strlit("loopstart");
    reveal_strlit("loop_end");
    reveal_strlit("loopend");
    reveal_strlit("offset");
    reveal_strlit("tune");
    reveal_strlit("polyphony");
    reveal_strlit("seq_length");
    reveal_strlit("seqlength");
    reveal_strlit("seq_position");
    reveal_strlit("seqposition");
    reveal_strlit("fileg_curve");
    reveal_strlit("group");
    reveal_strlit("off_by");
    reveal_strlit("offBy");
    reveal_strlit("cutoff");
    reveal_strlit("resonance");
    reveal_strlit("amp_keytrack");
    reveal_strlit("amp_veltrack");
    reveal_strlit("pan_keytrack");
    reveal_strlit("pan_veltrack");
    reveal_strlit("ampeg_delay");
    reveal_strlit("ampeg_start");
    reveal_strlit("ampeg_attack");
    reveal_strlit("ampeg_hold");
    reveal_strlit("ampeg_decay");
    reveal_strlit("ampeg_sustain");
    reveal_strlit("ampeg_release");
    reveal_strlit("ampeg_vel2release");
    reveal_strlit("loop_crossfade");
    reveal_strlit("loopcrossfade");
    reveal_strlit("amplfo_freq");
    reveal_strlit("amplfo_depth");
    reveal_strlit("fillfo_freq");
    reveal_strlit("fillfo_depth");
    reveal_strlit("panlfo_freq");
    reveal_strlit("panlfo_depth");
    reveal_strlit("fileg_attack");
    reveal_strlit("fileg_decay");
    reveal_strlit("fileg_sustain");
    reveal_strlit("fileg_release");
    reveal_strlit("fileg_depth");
    reveal_strlit("pitchlfo_freq");
    reveal_strlit("pitchlfo_depth");
}

/// Samples are named by their paths, and so are the folders in front of them. Paths are written
/// with either slash. A loop mode or a trigger is written as a word, and an unknown word sets
/// nothing.
#[verifier::rlimit(100)]
#[verifier::spinoff_prover]
pub proof fn words_are_spelled(val: Seq<char>)
    ensures
        sets_only(
            named_opcode("sample"@, val),
            Setting::Sample,
            Value::Text(replaced(val, '\\', '/')),
        ),
        sets_only(
            named_opcode("default_path"@, val),
            Setting::DefaultPath,
            Value::Text(replaced(val, '\\', '/')),
        ),
        loop_mode_named(val) matches Some(mode) ==> sets_only(
            named_opcode("loop_mode"@, val),
            Setting::LoopMode,
            Value::LoopMode(mode),
        ),
        loop_mode_named(val) is None ==> named_opcode("loop_mode"@, val) is None,
        trigger_named(val) matches Some(trigger) ==> sets_only(
            named_opcode("trigger"@, val),
            Setting::Trigger,
            Value::Trigger(trigger),
        ),
        trigger_named(val) is None ==> named_opcode("trigger"@, val) is None,
{
    look("sample"@);
    look("default_path"@);
    look("loop_mode"@);
    look("trigger"@);
    reveal_strlit("lokey");
    reveal_strlit("hikey");
    reveal_strlit("pitch_keycenter");
    reveal_strlit("sw_default");
    reveal_strlit("sw_last");
    reveal_strlit("sw_lokey");
    reveal_strlit("sw_hikey");
    reveal_strlit("amp_keycenter");
    reveal_strlit("pan_keycenter");
    reveal_strlit("fil_keycenter");
    reveal_strlit("key");
    reveal_strlit("lovel");
    reveal_strlit("hivel");
    reveal_strlit("volume");
    reveal_strlit("pan");
    reveal_strlit("fil_veltrack");
    reveal_strlit("fil_keytrack");
    reveal_strlit("loop_start");
    reveal_strlit("loopstart");
    reveal_strlit("loop_end");
    reveal_strlit("loopend");
    reveal_strlit("offset");
    reveal_strlit("tune");
    reveal_strlit("polyphony");
    reveal_strlit("seq_length");
    reveal_strlit("seqlength");
    reveal_strlit("seq_position");
    reveal_strlit("seqposition");
    reveal_strlit("fileg_curve");
    reveal_strlit("group");
    reveal_strlit("off_by");
    reveal_strlit("offBy");
    reveal_strlit("cutoff");
    reveal_strlit("resonance");
    reveal_strlit("amp_keytrack");
    reveal_strlit("amp_veltrack");
    reveal_strlit("pan_keytrack");
    reveal_strlit("pan_veltrack");
    reveal_strlit("ampeg_delay");
    reveal_strlit("ampeg_start");
    reveal_strlit("ampeg_attack");
    reveal_strlit("ampeg_hold");
    reveal_strlit("ampeg_decay");
    reveal_strlit("ampeg_sustain");
    reveal_strlit("ampeg_release");
    reveal_strlit("ampeg_vel2release");
    reveal_strlit("loop_crossfade");
    reveal_strlit("loopcrossfade");
    reveal_strlit("amplfo_freq");
    reveal_strlit("amplfo_depth");
    reveal_strlit("fillfo_freq");
    reveal_strlit("fillfo_depth");
    reveal_strlit("panlfo_freq");
    reveal_strlit("panlfo_depth");
    reveal_strlit("fileg_attack");
    reveal_strlit("fileg_decay");
    reveal_strlit("fileg_sustain");
    reveal_strlit("fileg_release");
    reveal_strlit("fileg_depth");
    reveal_strlit("pitchlfo_freq");
    reveal_strlit("pitchlfo_depth");
    reveal_strlit("fil_type");
    reveal_strlit("loop_mode");
    reveal_strlit("loopmode");
    reveal_strlit("trigger");
    reveal_strlit("xf_cccurve");
    reveal_strlit("default_path");
    reveal_strlit("prefix_sfz_path");
    reveal_strlit("sample");
}

/// A sharp is one semitone above its note and a flat one below, and the notes of an octave lie
/// two semitones apart but for E and F.
#[verifier::rlimit(50)]
pub proof fn notes_lie_in_order()
    ensures
        ({
            let note = |name: Seq<char>| semitone_of(name)->0;
            &&& note("c"@) == 0
            &&& note("d"@) == note("c"@) + 2
            &&& note("e"@) == note("d"@) + 2
            &&& note("f"@) == note("e"@) + 1
            &&& note("g"@) == note("f"@) + 2
            &&& note("a"@) == note("g"@) + 2
            &&& note("b"@) == note("a"@) + 2
            &&& note("c#"@) == note("c"@) + 1 && note("db"@) == note("d"@) - 1
            &&& note("d#"@) == note("d"@) + 1 && note("eb"@) == note("e"@) - 1
            &&& note("f#"@) == note("f"@) + 1 && note("gb"@) == note("g"@) - 1
            &&& note("g#"@) == note("g"@) + 1 && note("ab"@) == note("a"@) - 1
            &&& note("a#"@) == note("a"@) + 1 && note("bb"@) == note("b"@) - 1
        }),
{
    look("c"@);
    look("c#"@);
    look("db"@);
    look("d"@);
    look("d#"@);
    look("eb"@);
    look("e"@);
    look("f"@);
    look("f#"@);
    look("gb"@);
    look("g"@);
    look("g#"@);
    look("ab"@);
    look("a"@);
    look("a#"@);
    look("bb"@);
    look("b"@);
    reveal_strlit("c");
    reveal_strlit("c#");
    reveal_strlit("db");
    reveal_strlit("d");
    reveal_strlit("d#");
    reveal_strlit("eb");
    reveal_strlit("e");
    reveal_strlit("f");
    reveal_strlit("f#");
    reveal_strlit("gb");
    reveal_strlit("g");
    reveal_strlit("g#");
    reveal_strlit("ab");
    reveal_strlit("a");
    reveal_strlit("a#");
    reveal_strlit("bb");
    reveal_strlit("b");
}

/// A number is the key itself, held to the keys that there are; a note name is the key of the
/// note in its octave, of which the fourth begins at key 60.
pub proof fn keys_are_numbers_or_notes(val: Seq<char>)
    ensures
        integer_within(val, -128, 127) matches Some(v) ==> key_number(val) == Some(
            if v < -1 {
                -1
            } else {
                v
            },
        ),
        integer_within(val, -128, 127) is None ==> ({
            let letters = lowered(val.filter(|c: char| !octave_char(c)));
            let octave = integer_within(
                val.filter(|c: char| octave_char(c)),
                -32768,
                32767,
            );
            &&& key_number(val) is Some <==> semitone_of(letters) is Some
                && octave is Some && octave->0 >= -1
            &&& key_number(val) matches Some(k) ==> {
                let key = 60 + semitone_of(letters)->0 + 12 * (octave->0 - 4);
                &&& key <= 127 ==> k == key
                &&& key > 127 ==> k == 127
            }
        }),
{
    integers_lie_within(val, -128, 127);
    let octave = val.filter(|c: char| octave_char(c));
    integers_lie_within(octave, -32768, 32767);
}

/// The name of a setting that controllers move.
pub open spec fn oncc_name(table: OnccTable) -> Seq<char> {
    match table {
        OnccTable::AmpLfoFreq => "amplfo_freq"@,
        OnccTable::AmpLfoDepth => "amplfo_depth"@,
        OnccTable::FilLfoFreq => "fillfo_freq"@,
        OnccTable::FilLfoDepth => "fillfo_depth"@,
        OnccTable::PanLfoFreq => "panlfo_freq"@,
        OnccTable::PanLfoDepth => "panlfo_depth"@,
        OnccTable::PitchLfoFreq => "pitchlfo_freq"@,
        OnccTable::PitchLfoDepth => "pitchlfo_depth"@,
        OnccTable::Volume => "volume"@,
        OnccTable::Cutoff => "cutoff"@,
        OnccTable::Resonance => "resonance"@,
        OnccTable::Pan => "pan"@,
        OnccTable::Tune => "tune"@,
    }
}

/// The name of a stage of the amplitude envelope that controllers move.
pub open spec fn moved_stage_name(base: AriaOnccBase) -> Seq<char> {
    match base {
        AriaOnccBase::AmpegAttack => "ampeg_attack"@,
        AriaOnccBase::AmpegHold => "ampeg_hold"@,
        AriaOnccBase::AmpegDecay => "ampeg_decay"@,
        AriaOnccBase::AmpegSustain => "ampeg_sustain"@,
        AriaOnccBase::AmpegRelease => "ampeg_release"@,
        AriaOnccBase::AmpegDelay => "ampeg_delay"@,
        AriaOnccBase::AmpegStart => "ampeg_start"@,
    }
}

/// The name of a setting that controllers move along curves.
pub open spec fn curve_name(table: CurveTable) -> Seq<char> {
    match table {
        CurveTable::Volume => "volume"@,
        CurveTable::Cutoff => "cutoff"@,
        CurveTable::Resonance => "resonance"@,
        CurveTable::Pan => "pan"@,
    }
}

/// A controller of MIDI that is bound to a setting moves that setting, by the number that is
/// written, and no other one.
#[verifier::rlimit(50)]
#[verifier::spinoff_prover]
pub proof fn bindings_are_spelled(table: OnccTable, cc: u8, v: SfzNumber<Seq<char>>)
    ensures
        cc < 128 ==> sets_only(
            oncc_binding(oncc_name(table), cc, v),
            Setting::Number(NumberSetting::Oncc(table, cc)),
            Value::Number(v),
        ),
        cc >= 128 ==> oncc_binding(oncc_name(table), cc, v) is None,
{
    look(oncc_name(table));
    reveal_strlit("amplfo_freq");
    reveal_strlit("amplfo_depth");
    reveal_strlit("fillfo_freq");
    reveal_strlit("fillfo_depth");
    reveal_strlit("panlfo_freq");
    reveal_strlit("panlfo_depth");
    reveal_strlit("pitchlfo_freq");
    reveal_strlit("pitchlfo_depth");
    reveal_strlit("volume");
    reveal_strlit("cutoff");
    reveal_strlit("resonance");
    reveal_strlit("pan");
    reveal_strlit("tune");
    reveal_strlit("ampeg_attack");
    reveal_strlit("ampeg_hold");
    reveal_strlit("ampeg_decay");
    reveal_strlit("ampeg_sustain");
    reveal_strlit("ampeg_release");
    reveal_strlit("ampeg_delay");
    reveal_strlit("ampeg_start");
    reveal_strlit("ampeg_releasecc");
}

/// A controller that is bound to a stage of the amplitude envelope moves that stage, whatever its
/// number is.
#[verifier::rlimit(50)]
pub proof fn stage_bindings_are_spelled(base: AriaOnccBase, cc: u8, v: SfzNumber<Seq<char>>)
    ensures
        oncc_binding(moved_stage_name(base), cc, v) == Some(
            SfzOpcode::AriaOncc { base, cc, value: v },
        ),
{
    look(moved_stage_name(base));
    reveal_strlit("amplfo_freq");
    reveal_strlit("amplfo_depth");
    reveal_strlit("fillfo_freq");
    reveal_strlit("fillfo_depth");
    reveal_strlit("panlfo_freq");
    reveal_strlit("panlfo_depth");
    reveal_strlit("pitchlfo_freq");
    reveal_strlit("pitchlfo_depth");
    reveal_strlit("volume");
    reveal_strlit("cutoff");
    reveal_strlit("resonance");
    reveal_strlit("pan");
    reveal_strlit("tune");
    reveal_strlit("ampeg_attack");
    reveal_strlit("ampeg_hold");
    reveal_strlit("ampeg_decay");
    reveal_strlit("ampeg_sustain");
    reveal_strlit("ampeg_release");
    reveal_strlit("ampeg_delay");
    reveal_strlit("ampeg_start");
    reveal_strlit("ampeg_releasecc");
}

/// A controller of MIDI that is given a curve for a setting follows it for that setting, and for
/// no other one.
#[verifier::rlimit(50)]
#[verifier::spinoff_prover]
pub proof fn curves_are_spelled(table: CurveTable, cc: u8, id: u8)
    ensures
        cc < 128 ==> sets_only(
            curvecc_binding(curve_name(table), cc, id),
            Setting::Whole(WholeSetting::Curve(table, cc)),
            Value::Whole(id as int),
        ),
        cc >= 128 ==> curvecc_binding(curve_name(table), cc, id) is None,
{
    look(curve_name(table));
    reveal_strlit("volume");
    reveal_strlit("cutoff");
    reveal_strlit("resonance");
    reveal_strlit("pan");
}

/// The word in front of the number of a controller that bounds a region or a fade.
pub open spec fn bound_name(s: WholeSetting) -> Option<Seq<char>> {
    match s {
        WholeSetting::LoCc(_) => Some("locc"@),
        WholeSetting::HiCc(_) => Some("hicc"@),
        WholeSetting::XfInLo(_) => Some("xfin_locc"@),
        WholeSetting::XfInHi(_) => Some("xfin_hicc"@),
        WholeSetting::XfOutLo(_) => Some("xfout_locc"@),
        WholeSetting::XfOutHi(_) => Some("xfout_hicc"@),
        _ => None,
    }
}

/// The controller that bounds a region or a fade.
pub open spec fn bound_controller(s: WholeSetting) -> u8 {
    match s {
        WholeSetting::LoCc(cc) => cc,
        WholeSetting::HiCc(cc) => cc,
        WholeSetting::XfInLo(cc) => cc,
        WholeSetting::XfInHi(cc) => cc,
        WholeSetting::XfOutLo(cc) => cc,
        WholeSetting::XfOutHi(cc) => cc,
        _ => 0,
    }
}

/// Such a word with the number of a controller sets that bound of it to the value that is
/// written, at most 127, and no other setting.
#[verifier::rlimit(100)]
#[verifier::spinoff_prover]
pub proof fn bounds_are_spelled(s: WholeSetting, number: Seq<char>, val: Seq<char>)
    requires
        bound_name(s) is Some,
        integer_within(number, 0, 255) == Some(bound_controller(s) as int),
    ensures
        integer_within(val, 0, 255) matches Some(v) ==> numbered_opcode(
            bound_name(s)->0 + number,
            val,
        ) is Some && sets_only(
            numbered_opcode(bound_name(s)->0 + number, val)->0,
            Setting::Whole(s),
            Value::Whole(
                if v > 127 {
                    127
                } else {
                    v
                },
            ),
        ),
        integer_within(val, 0, 255) is None ==> numbered_opcode(
            bound_name(s)->0 + number,
            val,
        ) == Some(None::<SfzOpcode<Seq<char>>>),
{
    let word = bound_name(s)->0;
    let name = word + number;
    look(word);
    look(name);
    reveal_strlit("set_hdcc");
    reveal_strlit("set_cc");
    reveal_strlit("locc");
    reveal_strlit("hicc");
    reveal_strlit("xfin_locc");
    reveal_strlit("xfin_hicc");
    reveal_strlit("xfout_locc");
    reveal_strlit("xfout_hicc");
    look("set_hdcc"@);
    look("set_cc"@);
    look("locc"@);
    look("hicc"@);
    look("xfin_locc"@);
    look("xfin_hicc"@);
    look("xfout_locc"@);
    look("xfout_hicc"@);
    prefixes_are_taken_off(word, number);
    assert(forall|i: int| 0 <= i < word.len() ==> name[i] == word[i]);
    if word != "set_hdcc"@ && after_prefix(name, "set_hdcc"@) is Some {
        words_begin_alike(name, word, "set_hdcc"@);
    }
    if word != "set_cc"@ && after_prefix(name, "set_cc"@) is Some {
        words_begin_alike(name, word, "set_cc"@);
    }
    if word != "locc"@ && after_prefix(name, "locc"@) is Some {
        words_begin_alike(name, word, "locc"@);
    }
    if word != "hicc"@ && after_prefix(name, "hicc"@) is Some {
        words_begin_alike(name, word, "hicc"@);
    }
    if word != "xfin_locc"@ && after_prefix(name, "xfin_locc"@) is Some {
        words_begin_alike(name, word, "xfin_locc"@);
    }
    if word != "xfin_hicc"@ && after_prefix(name, "xfin_hicc"@) is Some {
        words_begin_alike(name, word, "xfin_hicc"@);
    }
    if word != "xfout_locc"@ && after_prefix(name, "xfout_locc"@) is Some {
        words_begin_alike(name, word, "xfout_locc"@);
    }
    if word != "xfout_hicc"@ && after_prefix(name, "xfout_hicc"@) is Some {
        words_begin_alike(name, word, "xfout_hicc"@);
    }
}

proof fn words_begin_alike(name: Seq<char>, word: Seq<char>, other: Seq<char>)
    requires
        word.len() <= name.len(),
        name.take(word.len() as int) == word,
        after_prefix(name, other) is Some,
    ensures
        forall|i: int| 0 <= i < word.len() && i < other.len() ==> word[i] == other[i],
{
    assert forall|i: int| 0 <= i < word.len() && i < other.len() implies word[i] == other[i] by {
        assert(name.take(word.len() as int)[i] == name[i]);
        assert(name.subrange(0, other.len() as int)[i] == name[i]);
    }
}

/// `set_cc` and a number set the controller of that number to a value, `set_hdcc` to a
/// fraction.
#[verifier::rlimit(50)]
pub proof fn controllers_are_spelled(number: Seq<char>, val: Seq<char>)
    ensures
        integer_within(number, 0, 255) matches Some(n) ==> (integer_within(val, 0, 255) matches
            Some(v) ==> numbered_opcode("set_cc"@ + number, val) == Some(
            Some(SfzOpcode::<Seq<char>>::AriaCcInit(n as u8, CcInit::Midi(v as u8))),
        )),
        integer_within(number, 0, 255) matches Some(n) ==> (is_fraction(val) ==> numbered_opcode(
            "set_hdcc"@ + number,
            val,
        ) == Some(
            Some(
                SfzOpcode::AriaCcInit(
                    n as u8,
                    CcInit::Unit(SfzNumber { text: val, clamp: Some((0i32, 1i32)) }),
                ),
            ),
        )),
{
    reveal_strlit("set_cc");
    reveal_strlit("set_hdcc");
    look("set_cc"@);
    look("set_hdcc"@);
    prefixes_are_taken_off("set_cc"@, number);
    prefixes_are_taken_off("set_hdcc"@, number);
    let name = "set_cc"@ + number;
    assert(name[4] == 'c');
    other_texts_have_no_prefix(name, "set_hdcc"@, 4);
}

/// A name that goes on with `_oncc` and a number binds what stands in front of it to the
/// controller of that number, by the number that is its value.
pub proof fn oncc_names_are_taken_apart(base: Seq<char>, number: Seq<char>, val: Seq<char>)
    requires
        numbered_opcode(base + "_oncc"@ + number, val) is None,
        forall|j: int|
            0 <= j < base.len() ==> !#[trigger] stands_at(
                base + "_oncc"@ + number,
                "_oncc"@,
                j,
            ),
    ensures
        ({
            let name = base + "_oncc"@ + number;
            &&& integer_within(number, 0, 255) matches Some(cc) ==> (is_fraction(val) ==> opcode_of(
                name,
                val,
            ) == oncc_binding(base, cc as u8, SfzNumber { text: val, clamp: None }))
            &&& integer_within(number, 0, 255) is None || !is_fraction(val) ==> opcode_of(name, val)
                is None
        }),
{
    reveal_strlit("_oncc");
    let word = "_oncc"@;
    let name = base + word + number;
    let at = base.len() as int;
    assert(name.subrange(at, at + word.len()) =~= word);
    assert(first_at(name, word, at));
    first_position_is_unique(name, word, at);
    assert(name.take(at) =~= base);
    assert(name.skip(at + word.len()) =~= number);
}

/// A name that goes on with `_curvecc` and a number gives the controller of that number the
/// curve that is its value, for what stands in front of it.
pub proof fn curvecc_names_are_taken_apart(base: Seq<char>, number: Seq<char>, val: Seq<char>)
    requires
        numbered_opcode(base + "_curvecc"@ + number, val) is None,
        forall|j: int| !#[trigger] stands_at(base + "_curvecc"@ + number, "_oncc"@, j),
        forall|j: int|
            0 <= j < base.len() ==> !#[trigger] stands_at(
                base + "_curvecc"@ + number,
                "_curvecc"@,
                j,
            ),
    ensures
        ({
            let name = base + "_curvecc"@ + number;
            let cc = integer_within(number, 0, 255);
            let id = integer_within(val, 0, 255);
            &&& cc is Some && id is Some ==> opcode_of(name, val) == curvecc_binding(
                base,
                cc->0 as u8,
                id->0 as u8,
            )
            &&& cc is None || id is None ==> opcode_of(name, val) is None
        }),
{
    reveal_strlit("_curvecc");
    let word = "_curvecc"@;
    let name = base + word + number;
    let at = base.len() as int;
    assert(name.subrange(at, at + word.len()) =~= word);
    assert(first_at(name, word, at));
    first_position_is_unique(name, word, at);
    assert(name.take(at) =~= base);
    assert(name.skip(at + word.len()) =~= number);
}

/// Any other name is looked up as it is.
pub proof fn plain_names_are_looked_up(name: Seq<char>, val: Seq<char>)
    requires
        numbered_opcode(name, val) is None,
        forall|j: int| !#[trigger] stands_at(name, "_oncc"@, j),
        forall|j: int| !#[trigger] stands_at(name, "_curvecc"@, j),
        name != "index"@,
        name.len() < 2 || name[0] != 'v' || !('0' <= name[1] && name[1] <= '9'),
    ensures
        opcode_of(name, val) == named_opcode(name, val),
{
    if name.len() >= 2 && all_digits(name.skip(1)) {
        assert(is_digit(name.skip(1)[0]));
    }
}

/// `v` and a number of at most three digits is a point of a curve: its value is the number that
/// is written.
pub proof fn curve_points_are_spelled(n: nat, val: Seq<char>)
    requires
        n <= 127,
        is_fraction(val),
    ensures
        opcode_of(seq!['v'] + written(n), val) == Some(
            SfzOpcode::CurvePoint(n as u8, SfzNumber { text: val, clamp: None }),
        ),
{
    let name = seq!['v'] + written(n);
    assert(name.skip(1) =~= written(n));
    numbers_are_read_as_written(n, false);
    written_is_read(n);
    assert(name[0] == 'v');
    reveal_strlit("index");
    reveal_strlit("_oncc");
    reveal_strlit("_curvecc");
    look("index"@);
    look("_oncc"@);
    look("_curvecc"@);
    reveal_strlit("set_hdcc");
    other_texts_have_no_prefix(name, "set_hdcc"@, 0);
    reveal_strlit("set_cc");
    other_texts_have_no_prefix(name, "set_cc"@, 0);
    reveal_strlit("xfin_locc");
    other_texts_have_no_prefix(name, "xfin_locc"@, 0);
    reveal_strlit("xfin_hicc");
    other_texts_have_no_prefix(name, "xfin_hicc"@, 0);
    reveal_strlit("xfout_locc");
    other_texts_have_no_prefix(name, "xfout_locc"@, 0);
    reveal_strlit("xfout_hicc");
    other_texts_have_no_prefix(name, "xfout_hicc"@, 0);
    reveal_strlit("locc");
    other_texts_have_no_prefix(name, "locc"@, 0);
    reveal_strlit("hicc");
    other_texts_have_no_prefix(name, "hicc"@, 0);
    assert forall|j: int| !#[trigger] stands_at(name, "_oncc"@, j) by {
        if stands_at(name, "_oncc"@, j) {
            assert(name.subrange(j, j + "_oncc"@.len())[0] == name[j]);
            assert(j > 0 ==> is_digit(written(n)[j - 1]));
        }
    }
    assert forall|j: int| !#[trigger] stands_at(name, "_curvecc"@, j) by {
        if stands_at(name, "_curvecc"@, j) {
            assert(name.subrange(j, j + "_curvecc"@.len())[0] == name[j]);
            assert(j > 0 ==> is_digit(written(n)[j - 1]));
        }
    }
}


/// The opcodes with other words are spelled so, and so are the second names of opcodes with
/// words.
#[verifier::rlimit(50)]
pub proof fn other_words_are_spelled(val: Seq<char>)
    ensures
        filter_kind(val) matches Some(kind) ==> sets_only(
            named_opcode("fil_type"@, val),
            Setting::FilterType,
            Value::FilterType(kind),
        ),
        filter_kind(val) is None ==> named_opcode("fil_type"@, val) is None,
        xf_curve_named(val) matches Some(curve) ==> sets_only(
            named_opcode("xf_cccurve"@, val),
            Setting::XfCcCurve,
            Value::XfCcCurve(curve),
        ),
        xf_curve_named(val) is None ==> named_opcode("xf_cccurve"@, val) is None,
        named_opcode("loopmode"@, val) == named_opcode("loop_mode"@, val),
        named_opcode("prefix_sfz_path"@, val) == named_opcode("default_path"@, val),
{
    look("fil_type"@);
    look("xf_cccurve"@);
    look("loopmode"@);
    look("loop_mode"@);
    look("prefix_sfz_path"@);
    look("default_path"@);
    reveal_strlit("lokey");
    reveal_strlit("hikey");
    reveal_strlit("pitch_keycenter");
    reveal_strlit("sw_default");
    reveal_strlit("sw_last");
    reveal_strlit("sw_lokey");
    reveal_strlit("sw_hikey");
    reveal_strlit("amp_keycenter");
    reveal_strlit("pan_keycenter");
    reveal_strlit("fil_keycenter");
    reveal_strlit("key");
    reveal_strlit("lovel");
    reveal_strlit("hivel");
    reveal_strlit("volume");
    reveal_strlit("pan");
    reveal_strlit("fil_veltrack");
    reveal_strlit("fil_keytrack");
    reveal_strlit("loop_start");
    reveal_strlit("loopstart");
    reveal_strlit("loop_end");
    reveal_strlit("loopend");
    reveal_strlit("offset");
    reveal_strlit("tune");
    reveal_strlit("polyphony");
    reveal_strlit("seq_length");
    reveal_strlit("seqlength");
    reveal_strlit("seq_position");
    reveal_strlit("seqposition");
    reveal_strlit("fileg_curve");
    reveal_strlit("group");
    reveal_strlit("off_by");
    reveal_strlit("offBy");
    reveal_strlit("cutoff");
    reveal_strlit("resonance");
    reveal_strlit("amp_keytrack");
    reveal_strlit("amp_veltrack");
    reveal_strlit("pan_keytrack");
    reveal_strlit("pan_veltrack");
    reveal_strlit("ampeg_delay");
    reveal_strlit("ampeg_start");
    reveal_strlit("ampeg_attack");
    reveal_strlit("ampeg_hold");
    reveal_strlit("ampeg_decay");
    reveal_strlit("ampeg_sustain");
    reveal_strlit("ampeg_release");
    reveal_strlit("ampeg_vel2release");
    reveal_strlit("loop_crossfade");
    reveal_strlit("loopcrossfade");
    reveal_strlit("amplfo_freq");
    reveal_strlit("amplfo_depth");
    reveal_strlit("fillfo_freq");
    reveal_strlit("fillfo_depth");
    reveal_strlit("panlfo_freq");
    reveal_strlit("panlfo_depth");
    reveal_strlit("fileg_attack");
    reveal_strlit("fileg_decay");
    reveal_strlit("fileg_sustain");
    reveal_strlit("fileg_release");
    reveal_strlit("fileg_depth");
    reveal_strlit("pitchlfo_freq");
    reveal_strlit("pitchlfo_depth");
    reveal_strlit("fil_type");
    reveal_strlit("loop_mode");
    reveal_strlit("loopmode");
    reveal_strlit("trigger");
    reveal_strlit("xf_cccurve");
    reveal_strlit("default_path");
    reveal_strlit("prefix_sfz_path");
    reveal_strlit("sample");
}

/// The opcodes for the group of voices that a region belongs to, and for the group that
/// silences it, are spelled so. Their value is the number that is written.
#[verifier::rlimit(50)]
pub proof fn choke_groups_are_spelled(val: Seq<char>)
    ensures
        ({
            let written = integer_within(val, 0, 0xffff_ffff);
            &&& written matches Some(v) ==> {
                &&& named_opcode("group"@, val) matches Some(SfzOpcode::SfzGroup(n)) && n == v
                &&& named_opcode("off_by"@, val) matches Some(SfzOpcode::SfzOffBy(n)) && n == v
                &&& named_opcode("offBy"@, val) matches Some(SfzOpcode::SfzOffBy(n)) && n == v
            }
            &&& written is None ==> {
                &&& named_opcode("group"@, val) is None
                &&& named_opcode("off_by"@, val) is None
                &&& named_opcode("offBy"@, val) is None
            }
        }),
{
    look("group"@);
    look("off_by"@);
    look("offBy"@);
    integers_lie_within(val, 0, 0xffff_ffff);
    reveal_strlit("lokey");
    reveal_strlit("hikey");
    reveal_strlit("pitch_keycenter");
    reveal_strlit("sw_default");
    reveal_strlit("sw_last");
    reveal_strlit("sw_lokey");
    reveal_strlit("sw_hikey");
    reveal_strlit("amp_keycenter");
    reveal_strlit("pan_keycenter");
    reveal_strlit("fil_keycenter");
    reveal_strlit("key");
    reveal_strlit("lovel");
    reveal_strlit("hivel");
    reveal_strlit("volume");
    reveal_strlit("pan");
    reveal_strlit("fil_veltrack");
    reveal_strlit("fil_keytrack");
    reveal_strlit("loop_start");
    reveal_strlit("loopstart");
    reveal_strlit("loop_end");
    reveal_strlit("loopend");
    reveal_strlit("offset");
    reveal_strlit("tune");
    reveal_strlit("polyphony");
    reveal_strlit("seq_length");
    reveal_strlit("seqlength");
    reveal_strlit("seq_position");
    reveal_strlit("seqposition");
    reveal_strlit("fileg_curve");
    reveal_strlit("group");
    reveal_strlit("off_by");
    reveal_strlit("offBy");
    reveal_strlit("cutoff");
    reveal_strlit("resonance");
    reveal_strlit("amp_keytrack");
    reveal_strlit("amp_veltrack");
    reveal_strlit("pan_keytrack");
    reveal_strlit("pan_veltrack");
    reveal_strlit("ampeg_delay");
    reveal_strlit("ampeg_start");
    reveal_strlit("ampeg_attack");
    reveal_strlit("ampeg_hold");
    reveal_strlit("ampeg_decay");
    reveal_strlit("ampeg_sustain");
    reveal_strlit("ampeg_release");
    reveal_strlit("ampeg_vel2release");
    reveal_strlit("loop_crossfade");
    reveal_strlit("loopcrossfade");
    reveal_strlit("amplfo_freq");
    reveal_strlit("amplfo_depth");
    reveal_strlit("fillfo_freq");
    reveal_strlit("fillfo_depth");
    reveal_strlit("panlfo_freq");
    reveal_strlit("panlfo_depth");
    reveal_strlit("fileg_attack");
    reveal_strlit("fileg_decay");
    reveal_strlit("fileg_sustain");
    reveal_strlit("fileg_release");
    reveal_strlit("fileg_depth");
    reveal_strlit("pitchlfo_freq");
    reveal_strlit("pitchlfo_depth");
    reveal_strlit("fil_type");
    reveal_strlit("loop_mode");
    reveal_strlit("loopmode");
    reveal_strlit("trigger");
    reveal_strlit("xf_cccurve");
    reveal_strlit("default_path");
    reveal_strlit("prefix_sfz_path");
    reveal_strlit("sample");
}

/// What the words of an SFZ file mean: its filters, its triggers, its loop modes and its
/// crossfade curves. No other word means anything.
pub proof fn words_have_their_meaning(val: Seq<char>)
    ensures
        filter_kind(val) == Some(FilterType::LowPassPole) <==> val == "lpf_1p"@,
        filter_kind(val) == Some(FilterType::LowPass) <==> val == "lpf_2p"@ || val == "lpf_4p"@
            || val == "lpf_6p"@,
        filter_kind(val) == Some(FilterType::HighPass) <==> val == "hpf_1p"@ || val == "hpf_2p"@
            || val == "hpf_4p"@ || val == "hpf_6p"@,
        filter_kind(val) == Some(FilterType::BandPass) <==> val == "bpf_1p"@ || val == "bpf_2p"@,
        filter_kind(val) == Some(FilterType::Notch) <==> val == "brf_1p"@ || val == "brf_2p"@,
        trigger_named(val) == Some(TriggerType::Attack) <==> val == "attack"@ || val == "first"@
            || val == "legato"@,
        trigger_named(val) == Some(TriggerType::Release) <==> val == "release"@,
        loop_mode_named(val) == Some(LoopMode::NoLoop) <==> val == "no_loop"@,
        loop_mode_named(val) == Some(LoopMode::OneShot) <==> val == "one_shot"@,
        loop_mode_named(val) == Some(LoopMode::LoopContinuous) <==> val == "loop_continuous"@,
        loop_mode_named(val) == Some(LoopMode::LoopSustain) <==> val == "loop_sustain"@,
        xf_curve_named(val) == Some(XfCurve::Gain) <==> val == "gain"@,
        xf_curve_named(val) == Some(XfCurve::Power) <==> val == "power"@,
{
    look(val);
    reveal_strlit("lpf_1p");
    reveal_strlit("lpf_2p");
    reveal_strlit("lpf_4p");
    reveal_strlit("lpf_6p");
    reveal_strlit("hpf_1p");
    reveal_strlit("hpf_2p");
    reveal_strlit("hpf_4p");
    reveal_strlit("hpf_6p");
    reveal_strlit("bpf_1p");
    reveal_strlit("bpf_2p");
    reveal_strlit("brf_1p");
    reveal_strlit("brf_2p");
    reveal_strlit("attack");
    reveal_strlit("first");
    reveal_strlit("legato");
    reveal_strlit("release");
    reveal_strlit("no_loop");
    reveal_strlit("one_shot");
    reveal_strlit("loop_continuous");
    reveal_strlit("loop_sustain");
    reveal_strlit("gain");
    reveal_strlit("power");
}

/// What the headers of an SFZ file are called. Any other header begins a part of the file
/// that is passed over.
pub proof fn headers_are_named(name: Seq<char>)
    ensures
        group_named(name) == SfzGroupType::Region <==> name == "region"@,
        group_named(name) == SfzGroupType::Group <==> name == "group"@,
        group_named(name) == SfzGroupType::Master <==> name == "master"@,
        group_named(name) == SfzGroupType::Global <==> name == "global"@,
        group_named(name) == SfzGroupType::Control <==> name == "control"@,
        group_named(name) == SfzGroupType::Curve <==> name == "curve"@,
{
    look(name);
    reveal_strlit("region");
    reveal_strlit("group");
    reveal_strlit("master");
    reveal_strlit("global");
    reveal_strlit("control");
    reveal_strlit("curve");
}

} // verus!
