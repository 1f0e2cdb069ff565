use std::collections::HashMap;
use std::sync::Arc;

use xsynth::path::parent_path;
use xsynth::sfz::defines::{apply_defines, define, Defines};
use xsynth::sfz::grammar::{tokenize, Token};
use xsynth::sfz::params::{
    level_of, settle, xfin_factor, xfout_factor, RegionParams, XfFactor, XfGain,
};
use xsynth::sfz::parse::{
    parse_filter_kind, parse_float_in_range, parse_i16_in_range, parse_i8_in_range,
    parse_key_number, parse_loop_mode, parse_sfz_group, parse_sfz_opcode, parse_trigger,
    parse_u32_in_range, parse_u8_in_range, CcInit, SfzGroupType, SfzNumber, SfzOpcode,
    XfCurve,
};
use xsynth::sfz::region::{RegionParamsBuilder, TriggerType};
use xsynth::sfz::resolver::{
    parse_tokens_raw, read_file, ResolverAction, SfzParseError, SfzTokenWithMeta, TokenResolver,
};
use xsynth::sfz::root::{get_group_level, parse_sf_root, SfzToken};
use xsynth::soundfont::audio::AudioLoadError;
use xsynth::soundfont::instrument::SampleSoundfont;
use xsynth::soundfont::load::{
    active_regions, declared_polyphony, effective_keyswitch, find_sample, fits, frames_needed,
    head_needs, sfz_loop_params, slot_region, unique_samples, HeadNeed, LoopParams, RegionFrames,
};
use xsynth::soundfont::load_sfz::{
    load_step, LoadSfzError, SfzAnswer, SfzLoad, SfzLoadAction, SfzLoadEvent, SfzStage,
};
use xsynth::soundfont::ring::HEAD_FRAMES;
use xsynth::{FilterType, LoopMode};

/// Files in memory.
struct Files(HashMap<String, Vec<u8>>);

impl Files {
    fn new(files: &[(&str, &str)]) -> Files {
        Files(
            files
                .iter()
                .map(|(path, text)| (path.to_string(), text.as_bytes().to_vec()))
                .collect(),
        )
    }

    fn resolve(&self, path: &str) -> Result<Vec<SfzToken>, SfzParseError> {
        let (mut resolver, mut action) = TokenResolver::new(path);
        loop {
            action = match action {
                ResolverAction::Locate(p) => {
                    let found = if self.0.contains_key(&p) { Some(p) } else { None };
                    resolver.located(found)
                }
                ResolverAction::Probe(p) => resolver.probed(self.0.contains_key(&p)),
                ResolverAction::Read(p) => resolver.read(self.0.get(&p).cloned()),
                ResolverAction::Done => return Ok(resolver.into_tokens()),
                ResolverAction::Failed(e) => return Err(e),
            };
        }
    }

    fn regions(&self, path: &str) -> Result<Vec<RegionParams>, SfzParseError> {
        let tokens = self.resolve(path)?;
        let base = parent_path(path);
        let root = parse_sf_root(&tokens);
        let curves = Arc::new(root.curves);
        let mut out = Vec::new();
        for draft in root.regions {
            let levels: Vec<(u8, u8)> = draft
                .cc_state
                .iter()
                .map(|(cc, init)| (*cc, init.midi_level().unwrap_or(0)))
                .collect();
            let factors = draft.settings.crossfades(&levels);
            let gain = settle(&factors).unwrap_or(XfGain::Unchanged);
            let file = draft
                .settings
                .sample_file(&base)
                .filter(|f| self.0.contains_key(f));
            if let Some(region) = draft.settings.build(&levels, gain, file, curves.clone()) {
                out.push(region);
            }
        }
        Ok(out)
    }
}

/// An import line.
fn import(file: &str) -> String {
    format!("#{}{} \"{}\"\n", "inc", "lude", file)
}

fn sample_of(token: &SfzToken) -> &str {
    match token {
        SfzToken::Opcode(SfzOpcode::Sample(path)) => path,
        other => panic!("{:?} is no sample", other),
    }
}

#[test]
fn parse_key_number_accepts_note_names() {
    assert_eq!(parse_key_number("c4"), Some(60));
    assert_eq!(parse_key_number("db3"), Some(49));
    assert_eq!(parse_key_number("-1"), Some(-1));
}

#[test]
fn parse_tokens_raw_resolves_defines_in_opcodes() {
    let defines: Defines = vec![("$VALUE".to_owned(), "snare.wav".to_owned())];
    let input = "<region>\nsample=$VALUE\n";

    let tokens = parse_tokens_raw(input, &defines);

    assert!(matches!(tokens[0], SfzTokenWithMeta::Group(_)));
    assert!(matches!(
        tokens[1],
        SfzTokenWithMeta::Opcode(SfzOpcode::Sample(ref path)) if path == "snare.wav"
    ));
}

#[test]
fn parse_tokens_resolved_includes_nested_files() {
    let root = import("nested.sfz");
    let files = Files::new(&[
        ("/dir/root.sfz", &root),
        ("/dir/nested.sfz", "<region>\nsample=test.wav\n"),
    ]);

    let tokens = files.resolve("/dir/root.sfz").unwrap();

    assert!(matches!(
        tokens.as_slice(),
        [SfzToken::Group(_), SfzToken::Opcode(_)]
    ));
}

#[test]
fn parse_tokens_resolved_reparses_include_after_define_changes() {
    let root = format!(
        "\n#define $NAME first.wav\n{}#define $NAME second.wav\n{}",
        import("nested.sfz"),
        import("nested.sfz")
    );
    let files = Files::new(&[
        ("/dir/root.sfz", &root),
        ("/dir/nested.sfz", "<region>\nsample=$NAME\n"),
    ]);

    let tokens = files.resolve("/dir/root.sfz").unwrap();

    assert!(matches!(
        tokens[1],
        SfzToken::Opcode(SfzOpcode::Sample(ref path)) if path == "first.wav"
    ));
    assert!(matches!(
        tokens[3],
        SfzToken::Opcode(SfzOpcode::Sample(ref path)) if path == "second.wav"
    ));
}

#[test]
fn parse_tokens_resolved_rejects_include_cycles() {
    let root = import("nested.sfz");
    let nested = import("root.sfz");
    let files = Files::new(&[("/dir/root.sfz", &root), ("/dir/nested.sfz", &nested)]);

    let result = files.resolve("/dir/root.sfz");

    assert!(matches!(
        result,
        Err(SfzParseError::IncludeCycle(path)) if path == "/dir/root.sfz"
    ));
}

#[test]
fn parse_soundfont_resolves_includes_and_defines() {
    let nested = "\n<group>\nlovel=1\nsample=$SAMPLE_NAME\n";
    let root = format!(
        "\n#define $SAMPLE_NAME snare.wav\n<control>\ndefault_path=samples/\n{}<region>\nhivel=80\n",
        import("nested.sfz")
    );
    let files = Files::new(&[
        ("/dir/instrument.sfz", &root),
        ("/dir/nested.sfz", nested),
        ("/dir/samples/snare.wav", ""),
    ]);

    let regions = files.regions("/dir/instrument.sfz").unwrap();

    assert_eq!(regions.len(), 1);
    assert_eq!(regions[0].velrange, 1..=80);
    assert_eq!(regions[0].sample_path, "/dir/samples/snare.wav");
}

#[test]
fn parse_soundfont_inherits_parent_group_values() {
    let files = Files::new(&[
        (
            "/dir/instrument.sfz",
            "\n<global>\nlokey=c3\n<group>\nhikey=d3\nvolume=-6\n<region>\nsample=samples/tone.wav\n",
        ),
        ("/dir/samples/tone.wav", ""),
    ]);

    let regions = files.regions("/dir/instrument.sfz").unwrap();

    assert_eq!(regions.len(), 1);
    assert_eq!(regions[0].keyrange, 48..=50);
    assert_eq!(regions[0].volume, -6);
}

#[test]
fn key_numbers_cover_the_keyboard() {
    assert_eq!(parse_key_number("0"), Some(0));
    assert_eq!(parse_key_number("127"), Some(127));
    assert_eq!(parse_key_number("-5"), Some(-1));
    assert_eq!(parse_key_number("a4"), Some(69));
    assert_eq!(parse_key_number("C#4"), Some(61));
    assert_eq!(parse_key_number("c-1"), Some(0));
    assert_eq!(parse_key_number("h4"), None);
    assert_eq!(parse_key_number(""), None);
}

#[test]
fn integers_are_held_to_their_range() {
    assert_eq!(parse_u8_in_range("64", 0, 127), Some(64));
    assert_eq!(parse_u8_in_range("200", 0, 127), Some(127));
    assert_eq!(parse_u8_in_range("300", 0, 127), None);
    assert_eq!(parse_u8_in_range("-1", 0, 127), None);
    assert_eq!(parse_i8_in_range("-120", -100, 100), Some(-100));
    assert_eq!(parse_i16_in_range("+12", -1200, 1200), Some(12));
    assert_eq!(parse_i16_in_range("x", -1200, 1200), None);
    assert_eq!(parse_u32_in_range("5000000000", 0, u32::MAX), None);
    assert_eq!(parse_u32_in_range("7", 1, 128), Some(7));
    assert_eq!(parse_u32_in_range("0", 1, 128), Some(1));
}

#[test]
fn number_texts_are_those_that_std_reads() {
    let words = [
        "1", "-1", "+1.5", ".5", "5.", ".", "", "-", "1e5", "1e", "1e+5", "1e-05", "e5", "inf",
        "-inf", "Infinity", "nan", "NaN", "-nan", "infin", "1.2.3", "1 ", " 1", "0x10", "1_0",
        "1E5", "+", "+.5e3", "1f32", "1e5.0",
    ];
    for word in words {
        assert_eq!(
            parse_float_in_range(word, -100, 100).is_some(),
            word.parse::<f32>().is_ok(),
            "{:?}",
            word
        );
    }
    let number = parse_float_in_range("2.5", -100, 100).unwrap();
    assert_eq!(number.text, "2.5");
    assert_eq!(number.clamp, Some((-100, 100)));
}

#[test]
fn words_name_filters_triggers_and_loops() {
    assert_eq!(parse_filter_kind("lpf_2p"), Some(FilterType::LowPass));
    assert_eq!(parse_filter_kind("hpf_2p"), Some(FilterType::HighPass));
    assert_eq!(parse_filter_kind("nothing"), None);
    assert_eq!(parse_trigger("release"), Some(TriggerType::Release));
    assert_eq!(parse_trigger("attack"), Some(TriggerType::Attack));
    assert_eq!(parse_trigger("never"), None);
    assert_eq!(parse_loop_mode("loop_sustain"), Some(LoopMode::LoopSustain));
    assert_eq!(parse_loop_mode("no_loop"), Some(LoopMode::NoLoop));
    assert_eq!(parse_loop_mode("round"), None);
    assert_eq!(parse_sfz_group("region"), SfzGroupType::Region);
    assert_eq!(parse_sfz_group("group"), SfzGroupType::Group);
}

#[test]
fn opcodes_are_read_by_name() {
    assert!(matches!(
        parse_sfz_opcode("lokey", "c4"),
        Some(SfzOpcode::Lokey(60))
    ));
    assert!(matches!(
        parse_sfz_opcode("hivel", "80"),
        Some(SfzOpcode::Hivel(80))
    ));
    assert!(matches!(
        parse_sfz_opcode("sample", "a\\b.wav"),
        Some(SfzOpcode::Sample(ref s)) if s == "a/b.wav"
    ));
    assert!(matches!(
        parse_sfz_opcode("polyphony", "500"),
        Some(SfzOpcode::Polyphony(128))
    ));
    assert!(parse_sfz_opcode("no_such_opcode", "1").is_none());
    assert!(parse_sfz_opcode("lovel", "loud").is_none());
}

#[test]
fn the_longest_define_is_taken() {
    let mut defines: Defines = Vec::new();
    define(&mut defines, "$A".to_string(), "one".to_string());
    define(&mut defines, "$AB".to_string(), "two".to_string());
    assert_eq!(apply_defines("$AB $A $B", &defines), "two one $B");
    define(&mut defines, "$A".to_string(), "new".to_string());
    assert_eq!(apply_defines("x$A", &defines), "xnew");
    assert_eq!(apply_defines("no dollars", &defines), "no dollars");
}

#[test]
fn texts_are_cut_into_tokens() {
    let text = format!(
        "// a remark\n<region> sample=my file.wav lokey=10\n{}#define $X 5\n",
        import("more.sfz")
    );
    let tokens = tokenize(&text);
    assert_eq!(tokens.len(), 5);
    assert!(matches!(&tokens[0], Token::Group(g) if g == "region"));
    assert!(
        matches!(&tokens[1], Token::Opcode { name, value } if name == "sample" && value == "my file.wav")
    );
    assert!(
        matches!(&tokens[2], Token::Opcode { name, value } if name == "lokey" && value == "10")
    );
    assert!(matches!(&tokens[3], Token::Import(p) if p == "more.sfz"));
    assert!(
        matches!(&tokens[4], Token::Define { variable, value } if variable == "$X" && value == "5")
    );
}

#[test]
fn files_are_decoded() {
    assert_eq!(read_file("größe".as_bytes(), "f").unwrap(), "größe");
    let mut marked = vec![0xef, 0xbb, 0xbf];
    marked.extend_from_slice("key".as_bytes());
    assert_eq!(read_file(&marked, "f").unwrap(), "key");
    let wide = [0xff, 0xfe, 0x61, 0x00, 0x62, 0x00];
    assert_eq!(read_file(&wide, "f").unwrap(), "\u{fffd}\u{fffd}a\0b\0");
    assert_eq!(read_file(&[0x61, 0xff, 0x62], "f").unwrap(), "a\u{fffd}b");
}

#[test]
fn missing_files_are_reported() {
    let files = Files::new(&[]);
    assert!(matches!(
        files.resolve("/dir/none.sfz"),
        Err(SfzParseError::FailedToReadFile(path)) if path == "/dir/none.sfz"
    ));
    let root = import("none.sfz");
    let files = Files::new(&[("/dir/root.sfz", &root)]);
    assert!(files.resolve("/dir/root.sfz").is_err());
}

#[test]
fn imports_keep_their_place() {
    let root = format!("<region>\nsample=a.wav\n{}<region>\nsample=c.wav\n", import("b.sfz"));
    let files = Files::new(&[
        ("/dir/root.sfz", &root),
        ("/dir/b.sfz", "<region>\nsample=b.wav\n"),
    ]);
    let tokens = files.resolve("/dir/root.sfz").unwrap();
    let samples: Vec<&str> = tokens
        .iter()
        .filter(|t| matches!(t, SfzToken::Opcode(_)))
        .map(sample_of)
        .collect();
    assert_eq!(samples, ["a.wav", "b.wav", "c.wav"]);
}

#[test]
fn siblings_do_not_share_settings() {
    let files = Files::new(&[
        (
            "/d/i.sfz",
            "<group>\nlovel=10\n<region>\nsample=x.wav\nhikey=40\n<region>\nsample=x.wav\n<group>\n<region>\nsample=x.wav\n",
        ),
        ("/d/x.wav", ""),
    ]);
    let regions = files.regions("/d/i.sfz").unwrap();
    assert_eq!(regions.len(), 3);
    assert_eq!(regions[0].velrange, 10..=127);
    assert_eq!(*regions[0].keyrange.end(), 40);
    assert_eq!(regions[1].velrange, 10..=127);
    assert_eq!(*regions[1].keyrange.end(), 127);
    assert_eq!(regions[2].velrange, 0..=127);
}

#[test]
fn headers_have_levels() {
    assert_eq!(get_group_level(SfzGroupType::Control), Some(1));
    assert_eq!(get_group_level(SfzGroupType::Region), Some(5));
    assert_eq!(get_group_level(SfzGroupType::Curve), None);
}

#[test]
fn fades_run_between_their_bounds() {
    assert_eq!(xfin_factor(9, 10, 20, XfCurve::Gain), XfFactor::Silent);
    assert_eq!(xfin_factor(20, 10, 20, XfCurve::Gain), XfFactor::Full);
    assert_eq!(xfin_factor(50, 0, 0, XfCurve::Gain), XfFactor::Full);
    assert_eq!(xfout_factor(10, 10, 20, XfCurve::Gain), XfFactor::Full);
    assert_eq!(xfout_factor(21, 10, 20, XfCurve::Gain), XfFactor::Silent);
    assert!(matches!(
        xfin_factor(15, 10, 20, XfCurve::Gain),
        XfFactor::Part { .. }
    ));
    assert_eq!(settle(&vec![XfFactor::Full, XfFactor::Full]), Some(XfGain::Unchanged));
    assert_eq!(settle(&vec![]), Some(XfGain::Unchanged));
    assert_eq!(level_of(&vec![(7, 100), (8, 3)], 8), 3);
    assert_eq!(level_of(&vec![(7, 100)], 9), 0);
}

#[test]
fn regions_wait_for_their_controllers() {
    let text = |cc: &str| {
        format!("<control>\nset_cc20={}\n<region>\nsample=x.wav\nlocc20=64\nhicc20=127\n", cc)
    };
    let open = Files::new(&[("/d/i.sfz", &text("100")), ("/d/x.wav", "")]);
    assert_eq!(open.regions("/d/i.sfz").unwrap().len(), 1);
    let shut = Files::new(&[("/d/i.sfz", &text("10")), ("/d/x.wav", "")]);
    assert_eq!(shut.regions("/d/i.sfz").unwrap().len(), 0);
}

#[test]
fn regions_need_a_sample() {
    let files = Files::new(&[("/d/i.sfz", "<region>\nlokey=1\n<region>\nsample=gone.wav\n")]);
    assert_eq!(files.regions("/d/i.sfz").unwrap().len(), 0);
}

#[test]
fn the_last_assignment_counts() {
    let mut region = RegionParamsBuilder::default();
    region.update_from_flag(SfzOpcode::Lovel(3));
    region.update_from_flag(SfzOpcode::Lovel(9));
    assert_eq!(region.lovel, 9);
    region.update_from_flag(SfzOpcode::Key(61));
    assert_eq!(region.lokey, 61);
    assert_eq!(region.hikey, 61);
    assert_eq!(region.pitch_keycenter, 61);
}

#[test]
fn controllers_start_where_they_are_set() {
    assert_eq!(CcInit::Midi(200).midi_level(), Some(127));
    assert_eq!(CcInit::Midi(5).midi_level(), Some(5));
}

fn loaded(text: &str) -> Vec<RegionParams> {
    let files = Files::new(&[("/d/i.sfz", text), ("/d/x.wav", ""), ("/d/y.wav", "")]);
    files.regions("/d/i.sfz").unwrap()
}

#[test]
fn keyswitches_choose_regions() {
    let regions = loaded(
        "<region>\nsample=x.wav\nsw_default=24\nsw_last=24\n<region>\nsample=y.wav\nsw_last=25\n<region>\nsample=y.wav\n",
    );
    assert_eq!(effective_keyswitch(&regions), Some(24));
    assert_eq!(active_regions(&regions), [0, 2]);
    let without = loaded("<region>\nsample=x.wav\nsw_last=24\n<region>\nsample=y.wav\n");
    assert_eq!(effective_keyswitch(&without), None);
    assert_eq!(active_regions(&without), [0, 1]);
    let font = SampleSoundfont::new_sfz(6, &regions, None, Some(3));
    assert_eq!(font.id, 6);
    assert_eq!(font.instruments.len(), 1);
    assert_eq!((font.instruments[0].bank, font.instruments[0].preset), (0, 3));
    assert_eq!(font.instruments[0].spawner_params_list[60 * 128 + 64].len(), 2);
}

#[test]
fn samples_are_loaded_once() {
    let regions = loaded(
        "<region>\nsample=x.wav\n<region>\nsample=y.wav\n<region>\nsample=x.wav\noffset=7\n",
    );
    let active = active_regions(&regions);
    let samples = unique_samples(&regions, &active);
    assert_eq!(samples, [0, 1]);
    assert_eq!(find_sample(&regions, &samples, &regions[2].sample_path), 0);
    assert_eq!(find_sample(&regions, &samples, "elsewhere"), 2);
    let frames: Vec<RegionFrames> = active
        .iter()
        .map(|&i| RegionFrames { offset: regions[i].offset, loop_end: regions[i].loop_end })
        .collect();
    assert_eq!(
        head_needs(&regions, &active, &samples, &frames),
        vec![
            HeadNeed { sample: 0, offset: 0, len: HEAD_FRAMES },
            HeadNeed { sample: 1, offset: 0, len: HEAD_FRAMES },
            HeadNeed { sample: 0, offset: 7, len: HEAD_FRAMES },
        ]
    );
}

#[test]
fn heads_hold_whole_loops() {
    let regions = loaded(
        "<region>\nsample=x.wav\nloop_mode=loop_continuous\nloop_start=10\nloop_end=90000\n<region>\nsample=x.wav\nloop_mode=no_loop\nloop_start=10\nloop_end=90000\n",
    );
    let frames = RegionFrames { offset: 100, loop_end: 90000 };
    assert_eq!(frames_needed(&regions[0], &frames), 90000 - 100 + 1);
    assert_eq!(frames_needed(&regions[1], &frames), HEAD_FRAMES);
    assert_eq!(
        sfz_loop_params(&regions[0], 1, 2, 3, 4),
        LoopParams {
            mode: LoopMode::LoopContinuous,
            offset: 1,
            start: 2,
            end: 3,
            stop: None,
            crossfade: 4,
        }
    );
}

#[test]
fn loops_without_frames_are_none() {
    let regions = loaded(
        "<region>\nsample=x.wav\nloop_mode=loop_continuous\nloop_start=10\nloop_end=10\n",
    );
    assert_eq!(sfz_loop_params(&regions[0], 0, 9, 9, 0).mode, LoopMode::NoLoop);
}

#[test]
fn the_fewest_voices_count() {
    let regions = loaded(
        "<region>\nsample=x.wav\npolyphony=8\n<region>\nsample=x.wav\n<region>\nsample=x.wav\npolyphony=3\n",
    );
    assert_eq!(declared_polyphony(&regions), Some(3));
    assert_eq!(declared_polyphony(&loaded("<region>\nsample=x.wav\n")), None);
}

#[test]
fn choke_groups_become_classes() {
    let regions = loaded(
        "<region>\nsample=x.wav\ngroup=1\noff_by=1\n<region>\nsample=x.wav\ngroup=1\noff_by=2\n",
    );
    assert_eq!(regions[0].exclusive_class, Some(1));
    assert_eq!(regions[1].exclusive_class, None);
    assert_eq!(slot_region(&regions[0]).exclusive_class, Some(1));
    assert!(fits(&slot_region(&regions[0])));
}

#[test]
fn groups_describe_their_regions_alone() {
    let common = "<global>\namp_veltrack=50\n<group>\nlovel=3\n<region>\nsample=x.wav\nkey=1\n";
    let first = "<group>\nlovel=10\n<region>\nsample=x.wav\nkey=2\n<region>\nsample=y.wav\nkey=3\n";
    let second = "<group>\nhivel=90\n<region>\nsample=y.wav\nkey=4\n";
    let keys = |text: &str| {
        loaded(text)
            .iter()
            .map(|r| (*r.keyrange.start(), r.velrange.clone(), r.amp_veltrack.text.clone()))
            .collect::<Vec<_>>()
    };
    let base = keys(common).len();
    let both = keys(&format!("{}{}{}", common, first, second));
    let mut apart = keys(&format!("{}{}", common, first));
    apart.extend_from_slice(&keys(&format!("{}{}", common, second))[base..]);
    assert_eq!(both, apart);
    let starts: Vec<i8> = both.iter().map(|r| r.0).collect();
    assert_eq!(starts, [1, 2, 3, 4]);
    assert_eq!(both[3], (4, 0..=90, "50".to_string()));
}

#[test]
fn a_row_of_bindings_leaves_one_for_each_controller() {
    let number = |text: &str| SfzNumber { text: text.to_string(), clamp: None };
    let mut region = RegionParamsBuilder::default();
    for (cc, text) in [(7, "1"), (3, "2"), (7, "3"), (9, "4"), (3, "5")] {
        region.update_from_flag(SfzOpcode::VolumeOncc(cc, number(text)));
    }
    let kept: Vec<(u8, &str)> =
        region.volume_oncc.iter().map(|(cc, n)| (*cc, n.text.as_str())).collect();
    assert_eq!(kept, [(7, "3"), (3, "5"), (9, "4")]);
    assert!(region.cutoff_oncc.is_empty());
    for (cc, curve) in [(1, 4), (2, 5), (1, 6)] {
        region.update_from_flag(SfzOpcode::PanCurvecc(cc, curve));
    }
    assert_eq!(region.pan_curvecc, [(1, 6), (2, 5)]);
    assert!(region.volume_curvecc.is_empty());
    assert_eq!(region.lovel, RegionParamsBuilder::default().lovel);
}

fn event(cancelled: bool, answer: SfzAnswer) -> SfzLoadEvent {
    SfzLoadEvent { cancelled, answer }
}

const THREE: &str =
    "<region>\nsample=x.wav\n<region>\nsample=y.wav\n<region>\nsample=x.wav\noffset=7\n";

fn positions(load: &SfzLoad) -> SfzAnswer {
    let frames = |&i: &usize| {
        let r = &load.regions[i];
        RegionFrames { offset: r.offset, loop_end: r.loop_end }
    };
    SfzAnswer::Frames(load.active.iter().map(frames).collect())
}

#[test]
fn instruments_are_loaded_step_by_step() {
    let mut load = SfzLoad::new();
    assert!(matches!(load_step(&mut load, event(false, SfzAnswer::Begin)), SfzLoadAction::Read));
    let regions = SfzAnswer::Regions(Ok(loaded(THREE)));
    assert!(matches!(load_step(&mut load, event(false, regions)), SfzLoadAction::Open(0)));
    assert_eq!(load.samples, [0, 1]);
    let opened = || event(false, SfzAnswer::Opened(None));
    assert!(matches!(load_step(&mut load, opened()), SfzLoadAction::Open(1)));
    assert!(matches!(load_step(&mut load, opened()), SfzLoadAction::Convert));
    let frames = positions(&load);
    let mut action = load_step(&mut load, event(false, frames));
    for (sample, offset) in [(0, 0), (1, 0), (0, 7)] {
        assert!(matches!(
            action,
            SfzLoadAction::Head(need) if need.sample == sample && need.offset == offset
        ));
        action = load_step(&mut load, event(false, SfzAnswer::Head));
    }
    assert!(matches!(action, SfzLoadAction::Done));
    assert_eq!(load.stage, SfzStage::Over);
}

#[test]
fn cancelled_loads_stop_before_they_read() {
    let cancelled =
        |action| matches!(action, SfzLoadAction::Failed(LoadSfzError::Cancelled));
    let mut load = SfzLoad::new();
    assert!(cancelled(load_step(&mut load, event(true, SfzAnswer::Begin))));
    let mut load = SfzLoad::new();
    load_step(&mut load, event(false, SfzAnswer::Begin));
    assert!(cancelled(load_step(
        &mut load,
        event(true, SfzAnswer::Regions(Ok(loaded(THREE))))
    )));
    let mut load = SfzLoad::new();
    load_step(&mut load, event(false, SfzAnswer::Begin));
    load_step(&mut load, event(false, SfzAnswer::Regions(Ok(loaded(THREE)))));
    assert!(cancelled(load_step(&mut load, event(true, SfzAnswer::Opened(None)))));
    let mut load = SfzLoad::new();
    load_step(&mut load, event(false, SfzAnswer::Begin));
    load_step(&mut load, event(false, SfzAnswer::Regions(Ok(loaded(THREE)))));
    load_step(&mut load, event(false, SfzAnswer::Opened(None)));
    // Nothing is read to find the positions.
    let action = load_step(&mut load, event(true, SfzAnswer::Opened(None)));
    assert!(matches!(action, SfzLoadAction::Convert));
    let frames = positions(&load);
    assert!(cancelled(load_step(&mut load, event(true, frames))));
    let mut load = SfzLoad::new();
    load_step(&mut load, event(false, SfzAnswer::Begin));
    let none = SfzAnswer::Regions(Ok(Vec::new()));
    assert!(matches!(load_step(&mut load, event(true, none)), SfzLoadAction::Convert));
    let none = SfzAnswer::Frames(Vec::new());
    assert!(matches!(load_step(&mut load, event(true, none)), SfzLoadAction::Done));
}

#[test]
fn faults_end_a_load() {
    let mut load = SfzLoad::new();
    load_step(&mut load, event(false, SfzAnswer::Begin));
    let fault = SfzParseError::FailedToReadFile("/d/i.sfz".to_string());
    assert!(matches!(
        load_step(&mut load, event(true, SfzAnswer::Regions(Err(fault)))),
        SfzLoadAction::Failed(LoadSfzError::SfzParseError(SfzParseError::FailedToReadFile(p)))
            if p == "/d/i.sfz"
    ));
    let mut load = SfzLoad::new();
    load_step(&mut load, event(false, SfzAnswer::Begin));
    load_step(&mut load, event(false, SfzAnswer::Regions(Ok(loaded(THREE)))));
    let fault = AudioLoadError::NoTracks("/d/x.wav".to_string());
    assert!(matches!(
        load_step(&mut load, event(false, SfzAnswer::Opened(Some(fault)))),
        SfzLoadAction::Failed(LoadSfzError::AudioLoadError(AudioLoadError::NoTracks(p)))
            if p == "/d/x.wav"
    ));
    assert_eq!(load.stage, SfzStage::Over);
}
