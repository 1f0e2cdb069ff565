use xsynth::sf2::file::{
    load_soundfont, read_samples, RawAmount, RawChunk, RawFile, RawGenerator, RawInstrument,
    RawModulator, RawPreset, RawSource, RawZone,
};
use xsynth::sf2::frame::is_well_framed;
use xsynth::sf2::modulator::{
    Sf2NoteCurve, Sf2NoteInput, Sf2NoteModDestination, Sf2NoteModulator, Sf2NoteSource,
};
use xsynth::sf2::sample::{Sf2Frames, Sf2ParseError, Sf2SampleHeader};
use xsynth::sf2::zone::{Sf2Instrument, Sf2ParsedPreset, Sf2Zone};
use xsynth::LoopMode;

fn chunk(tag: &str, contents: &[u8]) -> Vec<u8> {
    let mut out = tag.as_bytes().to_vec();
    out.extend((contents.len() as u32).to_le_bytes());
    out.extend(contents);
    if contents.len() % 2 == 1 {
        out.push(0);
    }
    out
}

fn list(kind: &str, members: &[Vec<u8>]) -> Vec<u8> {
    let mut contents = kind.as_bytes().to_vec();
    for member in members {
        contents.extend(member);
    }
    chunk("LIST", &contents)
}

fn words(values: &[u16]) -> Vec<u8> {
    values.iter().flat_map(|v| v.to_le_bytes()).collect()
}

fn name(text: &str) -> Vec<u8> {
    let mut out = text.as_bytes().to_vec();
    out.resize(20, 0);
    out
}

fn preset_header(text: &str, preset: u16, bank: u16, bag: u16) -> Vec<u8> {
    let mut out = name(text);
    out.extend(words(&[preset, bank, bag]));
    out.extend([0; 12]);
    out
}

fn instrument_header(text: &str, bag: u16) -> Vec<u8> {
    let mut out = name(text);
    out.extend(words(&[bag]));
    out
}

fn sample_header(text: &str, start: u32, end: u32, kind: u16) -> Vec<u8> {
    let mut out = name(text);
    for v in [start, end, start + 1, end - 1, 22_050] {
        out.extend(v.to_le_bytes());
    }
    out.extend([61, 0xfe]);
    out.extend(words(&[7, kind]));
    out
}

fn info() -> Vec<u8> {
    // Readers take more of the version than its four bytes.
    list("INFO", &[chunk("ifil", &[2, 0, 1, 0]), chunk("INAM", &name("a bank of sounds"))])
}

fn samples() -> Vec<u8> {
    list("sdta", &[chunk("smpl", &[1, 0, 2, 0, 3, 0, 0xff, 0xff])])
}

/// Two presets; the second bag of the first one names instrument 0.
fn hydra(first_bag_of_second: u16) -> Vec<u8> {
    list(
        "pdta",
        &[
            chunk(
                "phdr",
                &[
                    preset_header("late", 5, 1, 0),
                    preset_header("early", 9, 0, first_bag_of_second),
                    preset_header("EOP", 0, 0, 3),
                ]
                .concat(),
            ),
            chunk("pbag", &words(&[0, 0, 1, 1, 3, 1, 4, 1])),
            chunk("pmod", &words(&[0x0102, 8, 50, 0, 0, 0, 0, 0, 0, 0])),
            chunk("pgen", &words(&[17, 250, 43, 0x5010, 41, 0, 41, 0, 0, 0])),
            chunk("inst", &[instrument_header("one", 0), instrument_header("EOI", 1)].concat()),
            chunk("ibag", &words(&[0, 0, 3, 2])),
            chunk(
                "imod",
                &words(&[
                    0x0403, 17, 0xfff6, 0x0a87, 2, 0x0d0d, 56, 3, 0x1000, 0, 0, 0, 0, 0, 0,
                ]),
            ),
            chunk("igen", &words(&[54, 1, 8, 0x8000, 53, 0, 0, 0])),
            chunk(
                "shdr",
                &[sample_header("tone", 1, 3, 1), sample_header("EOS", 2, 4, 0)].concat(),
            ),
        ],
    )
}

fn file_of(lists: &[Vec<u8>]) -> Vec<u8> {
    let mut contents = b"sfbk".to_vec();
    for l in lists {
        contents.extend(l);
    }
    chunk("RIFF", &contents)
}

fn whole_file() -> Vec<u8> {
    file_of(&[info(), samples(), hydra(2)])
}

#[test]
fn files_are_read() {
    let bytes = whole_file();
    let file = load_soundfont(&bytes).unwrap();
    assert_eq!(file.presets.len(), 2);
    assert_eq!((file.presets[0].bank, file.presets[0].preset), (0, 9));
    assert_eq!((file.presets[1].bank, file.presets[1].preset), (1, 5));
    let zones = &file.presets[1].zones;
    assert_eq!(zones.len(), 2);
    assert_eq!(
        zones[0].generators,
        vec![RawGenerator { code: 17, amount: RawAmount::Number(250) }]
    );
    let velocity = RawSource { negative: true, ..source(2) };
    assert_eq!(
        zones[0].modulators,
        vec![RawModulator {
            source: velocity,
            destination: 8,
            amount: 50,
            amount_source: source(0),
            transform: 0,
        }]
    );
    assert!(zones[1].modulators.is_empty());
    assert_eq!(
        zones[1].generators,
        vec![
            RawGenerator { code: 43, amount: RawAmount::Range(0x10, 0x50) },
            RawGenerator { code: 41, amount: RawAmount::Index(0) },
        ]
    );
    assert_eq!(file.presets[0].zones.len(), 1);
    assert_eq!(
        file.instruments[0].zones[0].generators,
        vec![
            RawGenerator { code: 54, amount: RawAmount::Number(1) },
            RawGenerator { code: 8, amount: RawAmount::Number(-0x8000) },
            RawGenerator { code: 53, amount: RawAmount::Index(0) },
        ]
    );
    assert_eq!(
        file.instruments[0].zones[0].modulators,
        vec![
            RawModulator {
                source: RawSource { linear: false, concave: true, ..source(3) },
                destination: 17,
                amount: -10,
                amount_source: RawSource {
                    midi: true,
                    bipolar: true,
                    linear: false,
                    convex: true,
                    ..source(7)
                },
                transform: 1,
            },
            RawModulator {
                source: RawSource { negative: true, linear: false, switch: true, ..source(13) },
                destination: 56,
                amount: 3,
                amount_source: RawSource { linear: false, ..source(0) },
                transform: 0,
            },
        ]
    );
    assert_eq!(
        file.sample_headers,
        vec![Sf2SampleHeader {
            start: 1,
            end: 3,
            loop_start: 2,
            loop_end: 2,
            sample_rate: 22_050,
            origpitch: 61,
            pitchadj: -2,
            sample_link: 7,
            sample_type: 1,
        }]
    );
    let at = bytes.windows(4).position(|w| w == b"smpl").unwrap() as u64;
    assert_eq!(file.smpl, Some(RawChunk { offset: at + 8, len: 8 }));
    assert_eq!(file.sm24, None);
    assert!(matches!(
        read_samples(&bytes, &file),
        Ok(Sf2Frames::Bits16(v)) if v == [1, 2, 3, -1]
    ));
}

#[test]
fn presets_of_one_bank_and_number_keep_their_order() {
    let banks = |headers: &[Vec<u8>]| {
        let bytes = file_of(&[
            info(),
            samples(),
            list(
                "pdta",
                &[
                    chunk("phdr", &headers.concat()),
                    chunk("pbag", &words(&[0, 0, 1, 0, 2, 0, 3, 0])),
                    chunk("pmod", &words(&[0; 5])),
                    chunk("pgen", &words(&[51, 1, 51, 2, 51, 3, 0, 0])),
                    chunk("inst", &instrument_header("EOS", 0)),
                    chunk("ibag", &words(&[0, 0])),
                    chunk("imod", &words(&[0; 5])),
                    chunk("igen", &words(&[0, 0])),
                    chunk("shdr", &sample_header("EOS", 0, 1, 0)),
                ],
            ),
        ]);
        let file = load_soundfont(&bytes).unwrap();
        file.presets
            .iter()
            .map(|p| (p.bank, p.preset, p.zones[0].generators[0].amount))
            .collect::<Vec<_>>()
    };
    let sorted = banks(&[
        preset_header("b", 3, 128, 0),
        preset_header("a", 3, 0, 1),
        preset_header("c", 3, 128, 2),
        preset_header("EOP", 0, 0, 3),
    ]);
    assert_eq!(
        sorted,
        vec![
            (0, 3, RawAmount::Number(2)),
            (128, 3, RawAmount::Number(1)),
            (128, 3, RawAmount::Number(3)),
        ]
    );
}

fn parse_fault(bytes: Vec<u8>) -> String {
    match load_soundfont(&bytes) {
        Err(Sf2ParseError::FailedToParseFile(m)) => m,
        _ => String::new(),
    }
}

#[test]
fn files_out_of_place_are_refused() {
    let out_of_place = "The chunks of the file are out of place";
    assert!(is_well_framed(&whole_file()));
    assert_eq!(parse_fault(Vec::new()), out_of_place);
    assert_eq!(parse_fault(b"RIFX\x04\0\0\0sfbk".to_vec()), out_of_place);
    assert_eq!(parse_fault(b"RIFF\x04\0\0\0WAVE".to_vec()), out_of_place);
    assert_eq!(parse_fault(file_of(&[chunk("JUNK", &[0; 20])])), out_of_place);
    // The bags of the first preset would reach past the last one.
    assert!(!is_well_framed(&file_of(&[info(), samples(), hydra(5)])));
    assert_eq!(parse_fault(file_of(&[info(), samples(), hydra(5)])), out_of_place);
    let mut cut = whole_file();
    cut.truncate(cut.len() - 30);
    assert_eq!(parse_fault(cut), out_of_place);
}

#[test]
fn files_without_their_parts_are_refused() {
    // These stand where they should, and the reader says what is missing.
    assert!(is_well_framed(&file_of(&[info(), samples()])));
    assert_eq!(parse_fault(file_of(&[info(), samples()])), "MissingChunk(\n    Hydra,\n)");
    assert_eq!(parse_fault(file_of(&[samples(), hydra(2)])), "MissingChunk(\n    Info,\n)");
    let odd = list("pdta", &[chunk("phdr", &[0; 37])]);
    assert_eq!(
        parse_fault(file_of(&[info(), samples(), odd])),
        "InvalidPresetChunkSize(\n    37,\n)"
    );
}

fn empty_file(smpl: Option<RawChunk>, sm24: Option<RawChunk>) -> RawFile {
    RawFile { presets: vec![], instruments: vec![], sample_headers: vec![], smpl, sm24 }
}

#[test]
fn sample_chunks_are_found_in_the_file() {
    let bytes = vec![9, 9, 1, 0, 2, 0, 7, 8];
    let at = |offset, len| Some(RawChunk { offset, len });
    let fault = |file: RawFile| match read_samples(&bytes, &file) {
        Err(Sf2ParseError::FailedToParseFile(m)) => m,
        _ => String::new(),
    };
    assert!(matches!(
        read_samples(&bytes, &empty_file(at(2, 4), None)),
        Ok(Sf2Frames::Bits16(v)) if v == [1, 2]
    ));
    assert!(matches!(
        read_samples(&bytes, &empty_file(at(2, 4), at(6, 2))),
        Ok(Sf2Frames::Bits24(v)) if v == [0x107, 0x208]
    ));
    assert_eq!(fault(empty_file(None, at(90, 1))), "Soundfont does not contain samples");
    assert_eq!(fault(empty_file(at(6, 4), None)), "Error reading sample contents");
    assert_eq!(
        fault(empty_file(at(2, 4), at(u64::MAX, 2))),
        "Error reading extra sample contents"
    );
    assert_eq!(fault(empty_file(at(2, 4), at(6, 1))), "Invalid sample length");
}

fn number(code: u16, v: i16) -> RawGenerator {
    RawGenerator { code, amount: RawAmount::Number(v) }
}

fn index(code: u16, v: u16) -> RawGenerator {
    RawGenerator { code, amount: RawAmount::Index(v) }
}

fn source(index: u8) -> RawSource {
    RawSource {
        index,
        midi: false,
        negative: false,
        bipolar: false,
        linear: true,
        concave: false,
        convex: false,
        switch: false,
    }
}

fn driven(source: RawSource, destination: u16) -> RawModulator {
    RawModulator { source, destination, amount: 7, amount_source: self::source(0), transform: 0 }
}

/// A zone whose modulators the velocity drives.
fn raw(generators: Vec<RawGenerator>, destinations: Vec<u16>) -> RawZone {
    let modulators = destinations.into_iter().map(|d| driven(source(2), d)).collect();
    RawZone { generators, modulators }
}

fn parsed(zones: Vec<RawZone>) -> Vec<Sf2Zone> {
    let presets = Sf2ParsedPreset::parse_presets(&vec![RawPreset { bank: 3, preset: 4, zones }]);
    assert_eq!((presets[0].bank, presets[0].preset), (3, 4));
    presets.into_iter().next().unwrap().zones
}

#[test]
fn the_first_zone_speaks_for_all() {
    let zones = parsed(vec![
        raw(vec![number(17, 100), number(51, 2)], vec![48, 8]),
        raw(vec![number(17, -5), index(41, 6)], vec![8]),
        raw(vec![], vec![]),
    ]);
    assert_eq!(zones.len(), 2);
    assert_eq!((zones[0].pan, zones[0].coarse_tune, zones[0].index), (Some(-5), Some(2), Some(6)));
    assert_eq!((zones[1].pan, zones[1].coarse_tune, zones[1].index), (Some(100), Some(2), None));
    let destinations: Vec<_> =
        zones[0].note_modulators.iter().map(|m| m.destination).collect();
    assert_eq!(
        destinations,
        vec![
            Sf2NoteModDestination::InitialAttenuation,
            Sf2NoteModDestination::InitialFilterFc,
            Sf2NoteModDestination::InitialFilterFc,
        ]
    );
    assert_eq!(zones[1].note_modulators.len(), 2);
}

#[test]
fn a_first_zone_with_a_name_speaks_for_itself() {
    let zones = parsed(vec![
        raw(vec![number(17, 100), index(41, 0)], vec![8]),
        raw(vec![index(41, 1)], vec![]),
    ]);
    assert_eq!(zones.len(), 2);
    assert_eq!((zones[0].pan, zones[0].index), (Some(100), Some(0)));
    assert_eq!((zones[1].pan, zones[1].index), (None, Some(1)));
    assert!(zones[1].note_modulators.is_empty());
    assert!(parsed(vec![]).is_empty());
    assert!(parsed(vec![raw(vec![number(17, 1)], vec![])]).is_empty());
}

#[test]
fn notes_drive_their_modulators() {
    let key = RawSource { bipolar: true, linear: false, convex: true, ..source(3) };
    let velocity = RawSource { linear: false, switch: true, ..source(2) };
    let m = RawModulator {
        amount: -300,
        amount_source: velocity,
        transform: 1,
        ..driven(key, 34)
    };
    assert_eq!(
        Sf2NoteModulator::parse(&m),
        Some(Sf2NoteModulator {
            destination: Sf2NoteModDestination::AttackVolEnv,
            source: Sf2NoteSource {
                input: Sf2NoteInput::KeyNumber,
                curve: Sf2NoteCurve::Convex,
                negative: false,
                bipolar: true,
            },
            amount: -300,
            amount_source: Some(Sf2NoteSource {
                input: Sf2NoteInput::Velocity,
                curve: Sf2NoteCurve::Switch,
                negative: false,
                bipolar: false,
            }),
            absolute: true,
        })
    );
    let destinations: Vec<u16> = (0..60)
        .filter(|&code| Sf2NoteModulator::parse(&driven(source(2), code)).is_some())
        .collect();
    assert_eq!(destinations, [8, 17, 33, 34, 35, 36, 38, 48, 51, 52]);
    let concave = RawSource { linear: false, concave: true, ..source(2) };
    let parsed = Sf2NoteModulator::parse(&driven(concave, 48)).unwrap();
    assert_eq!(parsed.source.curve, Sf2NoteCurve::Concave);
    assert_eq!(parsed.amount_source, None);
}

#[test]
fn controllers_drive_no_note() {
    let wheel = RawSource { midi: true, ..source(2) };
    for s in [wheel, source(0), source(10), source(13), source(14), source(16), source(127)] {
        assert_eq!(Sf2NoteModulator::parse(&driven(s, 8)), None);
    }
    let nameless = RawSource { linear: false, ..source(2) };
    assert_eq!(Sf2NoteModulator::parse(&driven(nameless, 8)), None);
    for amount_source in [wheel, source(13), nameless] {
        let m = RawModulator { amount_source, ..driven(source(2), 8) };
        assert_eq!(Sf2NoteModulator::parse(&m), None);
    }
    let undriven = RawSource { linear: false, ..source(0) };
    let m = RawModulator { amount_source: undriven, ..driven(source(2), 8) };
    assert_eq!(Sf2NoteModulator::parse(&m).unwrap().amount_source, None);
    let zones = parsed(vec![RawZone {
        generators: vec![index(41, 6)],
        modulators: vec![driven(wheel, 8), driven(source(3), 17), driven(source(13), 8)],
    }]);
    let destinations: Vec<_> =
        zones[0].note_modulators.iter().map(|m| m.destination).collect();
    assert_eq!(destinations, [Sf2NoteModDestination::Pan]);
}

#[test]
fn generators_set_their_values() {
    let instruments = Sf2Instrument::parse_instruments(&vec![RawInstrument {
        zones: vec![raw(
            vec![
                number(0, 1),
                number(1, 2),
                number(2, 3),
                number(3, 4),
                number(4, 5),
                number(8, 6),
                number(9, 7),
                number(12, 8),
                number(33, 9),
                number(34, 10),
                number(35, 11),
                number(36, 12),
                number(37, 13),
                number(38, 14),
                number(39, 15),
                number(40, 16),
                RawGenerator { code: 44, amount: RawAmount::Range(1, 99) },
                number(45, 17),
                number(46, 60),
                number(47, 255),
                number(48, 18),
                number(50, 19),
                number(52, 20),
                number(54, 3),
                number(56, 50),
                number(57, 4),
                number(58, 69),
                index(53, 2),
                number(60, 1),
                number(999, 1),
            ],
            vec![],
        )],
    }]);
    let z = &instruments[0].regions[0];
    assert_eq!((z.offset, z.end_offset), (Some(1), Some(2)));
    assert_eq!((z.loop_start_offset, z.loop_end_offset), (Some(3), Some(4)));
    assert_eq!((z.offset_coarse, z.end_offset_coarse), (Some(5), Some(8)));
    assert_eq!((z.loop_start_offset_coarse, z.loop_end_offset_coarse), (Some(17), Some(19)));
    assert_eq!((z.cutoff, z.resonance), (Some(6), Some(7)));
    assert_eq!((z.env_delay, z.env_attack, z.env_hold), (Some(9), Some(10), Some(11)));
    assert_eq!((z.env_decay, z.env_sustain, z.env_release), (Some(12), Some(13), Some(14)));
    assert_eq!((z.keynum_to_vol_env_hold, z.keynum_to_vol_env_decay), (Some(15), Some(16)));
    assert_eq!((z.keyrange, z.velrange), (None, Some((1, 99))));
    assert_eq!((z.fixed_key, z.fixed_velocity), (Some(60), Some(255)));
    assert_eq!((z.attenuation, z.fine_tune, z.coarse_tune), (Some(18), Some(20), None));
    assert_eq!((z.loop_mode, z.scale_tuning), (Some(LoopMode::LoopSustain), Some(50)));
    assert_eq!((z.exclusive_class, z.root_override), (Some(4), Some(69)));
    assert_eq!((z.index, z.pan), (Some(2), None));
}

#[test]
fn amounts_that_stand_for_nothing_are_left_out() {
    let zones = parsed(vec![raw(
        vec![
            index(53, 0),
            number(46, -1),
            number(47, 256),
            number(54, 2),
            number(57, 0),
            number(58, -1),
            number(43, 7),
            index(17, 3),
        ],
        vec![],
    )]);
    let z = &zones[0];
    assert_eq!((z.fixed_key, z.fixed_velocity), (None, None));
    assert_eq!(z.loop_mode, Some(LoopMode::NoLoop));
    assert_eq!((z.exclusive_class, z.root_override), (None, None));
    assert_eq!((z.keyrange, z.pan), (None, None));
    let zones = parsed(vec![raw(vec![index(41, 1), number(54, 1), number(57, 300)], vec![])]);
    assert_eq!(zones[0].loop_mode, Some(LoopMode::LoopContinuous));
    assert_eq!(zones[0].exclusive_class, None);
}
