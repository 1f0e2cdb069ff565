//! Rows of opcodes that bind settings to controllers.

use super::parse::{SfzNumber, SfzOpcode};
use super::region::{
    default_region, entry, last_assignment_wins, one_entry_each, position, position_bounds,
    region_updated, upserted, RegionModel,
};
use vstd::prelude::*;

verus! {

/// A setting that controllers move.
#[derive(Debug, Clone, Copy, PartialEq, Eq, Structural)]
pub enum OnccTable {
    AmpLfoFreq,
    AmpLfoDepth,
    FilLfoFreq,
    FilLfoDepth,
    PanLfoFreq,
    PanLfoDepth,
    PitchLfoFreq,
    PitchLfoDepth,
    Volume,
    Cutoff,
    Resonance,
    Pan,
    Tune,
}

/// A setting that controllers move along curves.
#[derive(Debug, Clone, Copy, PartialEq, Eq, Structural)]
pub enum CurveTable {
    Volume,
    Cutoff,
    Resonance,
    Pan,
}

/// The opcode that binds a setting to a controller.
pub open spec fn oncc_opcode(
    table: OnccTable,
    binding: (u8, SfzNumber<Seq<char>>),
) -> SfzOpcode<Seq<char>> {
    match table {
        OnccTable::AmpLfoFreq => SfzOpcode::AmpLfoFreqOncc(binding.0, binding.1),
        OnccTable::AmpLfoDepth => SfzOpcode::AmpLfoDepthOncc(binding.0, binding.1),
        OnccTable::FilLfoFreq => SfzOpcode::FilLfoFreqOncc(binding.0, binding.1),
        OnccTable::FilLfoDepth => SfzOpcode::FilLfoDepthOncc(binding.0, binding.1),
        OnccTable::PanLfoFreq => SfzOpcode::PanLfoFreqOncc(binding.0, binding.1),
        OnccTable::PanLfoDepth => SfzOpcode::PanLfoDepthOncc(binding.0, binding.1),
        OnccTable::PitchLfoFreq => SfzOpcode::PitchLfoFreqOncc(binding.0, binding.1),
        OnccTable::PitchLfoDepth => SfzOpcode::PitchLfoDepthOncc(binding.0, binding.1),
        OnccTable::Volume => SfzOpcode::VolumeOncc(binding.0, binding.1),
        OnccTable::Cutoff => SfzOpcode::CutoffOncc(binding.0, binding.1),
        OnccTable::Resonance => SfzOpcode::ResonanceOncc(binding.0, binding.1),
        OnccTable::Pan => SfzOpcode::PanOncc(binding.0, binding.1),
        OnccTable::Tune => SfzOpcode::TuneOncc(binding.0, binding.1),
    }
}

/// The opcode that gives a controller its curve.
pub open spec fn curvecc_opcode(table: CurveTable, binding: (u8, u8)) -> SfzOpcode<Seq<char>> {
    match table {
        CurveTable::Volume => SfzOpcode::VolumeCurvecc(binding.0, binding.1),
        CurveTable::Cutoff => SfzOpcode::CutoffCurvecc(binding.0, binding.1),
        CurveTable::Resonance => SfzOpcode::ResonanceCurvecc(binding.0, binding.1),
        CurveTable::Pan => SfzOpcode::PanCurvecc(binding.0, binding.1),
    }
}

/// Settings with other bindings of one of them.
pub open spec fn with_oncc(
    b: RegionModel,
    table: OnccTable,
    list: Seq<(u8, SfzNumber<Seq<char>>)>,
) -> RegionModel {
    match table {
        OnccTable::AmpLfoFreq => RegionModel { amp_lfo_freq_oncc: list, ..b },
        OnccTable::AmpLfoDepth => RegionModel { amp_lfo_depth_oncc: list, ..b },
        OnccTable::FilLfoFreq => RegionModel { fil_lfo_freq_oncc: list, ..b },
        OnccTable::FilLfoDepth => RegionModel { fil_lfo_depth_oncc: list, ..b },
        OnccTable::PanLfoFreq => RegionModel { pan_lfo_freq_oncc: list, ..b },
        OnccTable::PanLfoDepth => RegionModel { pan_lfo_depth_oncc: list, ..b },
        OnccTable::PitchLfoFreq => RegionModel { pitch_lfo_freq_oncc: list, ..b },
        OnccTable::PitchLfoDepth => RegionModel { pitch_lfo_depth_oncc: list, ..b },
        OnccTable::Volume => RegionModel { volume_oncc: list, ..b },
        OnccTable::Cutoff => RegionModel { cutoff_oncc: list, ..b },
        OnccTable::Resonance => RegionModel { resonance_oncc: list, ..b },
        OnccTable::Pan => RegionModel { pan_oncc: list, ..b },
        OnccTable::Tune => RegionModel { tune_oncc: list, ..b },
    }
}

/// Settings with other curves of one of them.
pub open spec fn with_curvecc(
    b: RegionModel,
    table: CurveTable,
    list: Seq<(u8, u8)>,
) -> RegionModel {
    match table {
        CurveTable::Volume => RegionModel { volume_curvecc: list, ..b },
        CurveTable::Cutoff => RegionModel { cutoff_curvecc: list, ..b },
        CurveTable::Resonance => RegionModel { resonance_curvecc: list, ..b },
        CurveTable::Pan => RegionModel { pan_curvecc: list, ..b },
    }
}

/// Settings after a row of opcodes.
pub open spec fn all_taken(b: RegionModel, flags: Seq<SfzOpcode<Seq<char>>>) -> RegionModel
    decreases flags.len(),
{
    if flags.len() == 0 {
        b
    } else {
        region_updated(all_taken(b, flags.drop_last()), flags.last())
    }
}

/// What a row of bindings comes to.
pub open spec fn collected<V>(row: Seq<(u8, V)>) -> Seq<(u8, V)>
    decreases row.len(),
{
    if row.len() == 0 {
        row
    } else {
        upserted(collected(row.drop_last()), row.last().0, row.last().1)
    }
}

/// The controllers of a row, each once, in the order in which they first appear.
pub open spec fn first_seen<V>(row: Seq<(u8, V)>) -> Seq<u8>
    decreases row.len(),
{
    if row.len() == 0 {
        Seq::empty()
    } else {
        let before = first_seen(row.drop_last());
        if before.contains(row.last().0) {
            before
        } else {
            before.push(row.last().0)
        }
    }
}

/// The value that the last binding of a controller in a row has.
pub open spec fn last_value<V>(row: Seq<(u8, V)>, cc: u8) -> Option<V>
    decreases row.len(),
{
    if row.len() == 0 {
        None
    } else if row.last().0 == cc {
        Some(row.last().1)
    } else {
        last_value(row.drop_last(), cc)
    }
}

/// The controllers of a list of entries.
pub open spec fn controllers<V>(list: Seq<(u8, V)>) -> Seq<u8> {
    list.map_values(|e: (u8, V)| e.0)
}

/// A row of bindings leaves one entry for each of its controllers, in the order in which
/// they first appear, with the value that each was given last.
pub proof fn row_leaves_one_entry_each<V>(row: Seq<(u8, V)>)
    ensures
        one_entry_each(collected(row)),
        controllers(collected(row)) == first_seen(row),
        forall|cc: u8| #[trigger] entry(collected(row), cc) == last_value(row, cc),
    decreases row.len(),
{
    if row.len() == 0 {
        assert(controllers(collected(row)) =~= first_seen(row));
        assert forall|cc: u8| #[trigger] entry(collected(row), cc) == last_value(row, cc) by {
            position_bounds(row, cc);
        }
    } else {
        let before = collected(row.drop_last());
        let (cc, v) = row.last();
        row_leaves_one_entry_each(row.drop_last());
        last_assignment_wins(before, cc, v, cc);
        position_bounds(before, cc);
        let at = position(before, cc);
        if at < before.len() {
            assert(controllers(before)[at] == cc);
            assert(controllers(collected(row)) =~= controllers(before));
        } else {
            assert(!controllers(before).contains(cc));
            assert(controllers(collected(row)) =~= controllers(before).push(cc));
        }
        assert forall|other: u8| #[trigger] entry(collected(row), other) == last_value(
            row,
            other,
        ) by {
            last_assignment_wins(before, cc, v, other);
        }
    }
}

#[verifier::rlimit(50)]
proof fn oncc_sets_one_table(
    b: RegionModel,
    table: OnccTable,
    list: Seq<(u8, SfzNumber<Seq<char>>)>,
    binding: (u8, SfzNumber<Seq<char>>),
)
    ensures
        region_updated(with_oncc(b, table, list), oncc_opcode(table, binding)) == with_oncc(
            b,
            table,
            upserted(list, binding.0, binding.1),
        ),
{
    reveal(region_updated);
}

/// Any row of bindings of one setting sets nothing else.
pub proof fn oncc_rows_set_one_table(table: OnccTable, row: Seq<(u8, SfzNumber<Seq<char>>)>)
    ensures
        all_taken(
            default_region(),
            row.map_values(|b: (u8, SfzNumber<Seq<char>>)| oncc_opcode(table, b)),
        ) == with_oncc(default_region(), table, collected(row)),
    decreases row.len(),
{
    let f = |b: (u8, SfzNumber<Seq<char>>)| oncc_opcode(table, b);
    let flags = row.map_values(f);
    if row.len() == 0 {
        assert(collected(row) =~= Seq::empty());
    } else {
        oncc_rows_set_one_table(table, row.drop_last());
        assert(flags.drop_last() =~= row.drop_last().map_values(f));
        oncc_sets_one_table(default_region(), table, collected(row.drop_last()), row.last());
    }
}

/// Any row of curves of one setting sets nothing else.
pub proof fn curvecc_rows_set_one_table(table: CurveTable, row: Seq<(u8, u8)>)
    ensures
        all_taken(default_region(), row.map_values(|b: (u8, u8)| curvecc_opcode(table, b)))
            == with_curvecc(default_region(), table, collected(row)),
    decreases row.len(),
{
    let f = |b: (u8, u8)| curvecc_opcode(table, b);
    let flags = row.map_values(f);
    if row.len() == 0 {
        assert(collected(row) =~= Seq::empty());
    } else {
        curvecc_rows_set_one_table(table, row.drop_last());
        assert(flags.drop_last() =~= row.drop_last().map_values(f));
        reveal(region_updated);
    }
}

} // verus!
