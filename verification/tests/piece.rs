use wav_maker::error::{MusicError, SyntaxErrorType};
use wav_maker::note::{Note, PitchClass};
use wav_maker::number::Number;
use wav_maker::piece::MusicalPiece;
use wav_maker::signal::{NoteDuration, NoteSignal, WaveType};
use wav_maker::synthesis::Synthesis;
use wav_maker::tempo::tick_of;
use wav_maker::utils::{
    clamp_sample, encode, header, push_sample, DEFAULT_AMPL, DEFAULT_BPM_BITS, SAMPLE_RATE,
};

const PI: f64 = 3.141592653589793;

fn number(x: f64) -> Number {
    Number::from_bits(x.to_bits())
}

fn value(x: Number) -> f64 {
    f64::from_bits(x.to_bits())
}

fn read(token: &str) -> Option<Number> {
    token.parse::<f64>().ok().map(number)
}

fn load(input: &str, bpm: Option<f64>, ampl: Option<u16>) -> Result<MusicalPiece, MusicError> {
    let readings: Vec<Option<Number>> =
        MusicalPiece::number_fields(input).iter().map(|t| read(t)).collect();
    MusicalPiece::new(input, &readings, bpm.map(number), ampl)
}

fn equal_tempered(note: &Note) -> f64 {
    let position = note.position();
    13.75 * 2.0f64.powf((position / 12) as f64 + (position % 12) as f64 / 12.0)
}

fn sign(x: f64) -> f64 {
    if x == 0.0 {
        0.0
    } else {
        f64::signum(x)
    }
}

fn wave(signal: &NoteSignal, n: u64, master: u16) -> f64 {
    let ampl = value(signal.ampl) * master as f64;
    let freq = equal_tempered(&signal.note);
    let phase = (n as f64 * freq) / SAMPLE_RATE as f64;
    match signal.wavetype {
        WaveType::Sine => ampl * f64::sin(2.0 * PI * freq * n as f64 / SAMPLE_RATE as f64),
        WaveType::Square => ampl * sign(f64::sin(2.0 * PI * freq * n as f64 / SAMPLE_RATE as f64)),
        WaveType::Triangle => ampl * (4.0 * (phase - (0.5 + phase).floor()).abs() - 1.0),
        WaveType::Sawtooth => 2.0 * ampl * (phase - (0.5 + phase).floor()),
    }
}

fn level(synthesis: &Synthesis, master: u16) -> f64 {
    let n = synthesis.sample_index();
    let mut acc = 0.0f64;
    for signal in synthesis.sounding().iter() {
        acc += wave(signal, n, master);
    }
    acc
}

fn render(piece: &MusicalPiece) -> Vec<u8> {
    let mut synthesis = piece.synthesize();
    loop {
        let acc = level(&synthesis, piece.ampl);
        if synthesis.advance(acc.round() as i64) {
            break;
        }
    }
    synthesis.into_data()
}

fn sample_at(data: &[u8], n: usize) -> i16 {
    i16::from_le_bytes([data[2 * n], data[2 * n + 1]])
}

fn float_tick(bpm: f64, n: u64) -> u32 {
    ((n as f64 / SAMPLE_RATE as f64) * 16.0 * bpm / 60.0).floor() as u32
}

#[test]
fn header_of_no_data() {
    let wanted: [u8; 44] = [
        0x52, 0x49, 0x46, 0x46, 36, 0, 0, 0, 0x57, 0x41, 0x56, 0x45, 0x66, 0x6D, 0x74, 0x20, 16, 0,
        0, 0, 1, 0, 1, 0, 0x44, 0xAC, 0, 0, 0x88, 0x58, 0x01, 0, 2, 0, 16, 0, 0x64, 0x61, 0x74,
        0x61, 0, 0, 0, 0,
    ];
    assert_eq!(header(0), wanted.to_vec());
}

#[test]
fn header_fields() {
    let h = header(0x0102_0304);
    assert_eq!(h.len(), 44);
    assert_eq!(&h[0..4], b"RIFF");
    assert_eq!(u32::from_le_bytes([h[4], h[5], h[6], h[7]]), 36 + 0x0102_0304);
    assert_eq!(&h[8..12], b"WAVE");
    assert_eq!(&h[12..16], b"fmt ");
    assert_eq!(u32::from_le_bytes([h[16], h[17], h[18], h[19]]), 16);
    assert_eq!(u16::from_le_bytes([h[20], h[21]]), 1);
    assert_eq!(u16::from_le_bytes([h[22], h[23]]), 1);
    assert_eq!(u32::from_le_bytes([h[24], h[25], h[26], h[27]]), 44100);
    assert_eq!(u32::from_le_bytes([h[28], h[29], h[30], h[31]]), 88200);
    assert_eq!(u16::from_le_bytes([h[32], h[33]]), 2);
    assert_eq!(u16::from_le_bytes([h[34], h[35]]), 16);
    assert_eq!(&h[36..40], b"data");
    assert_eq!(&h[40..44], &[0x04, 0x03, 0x02, 0x01]);
    let h = header(u32::MAX - 36);
    assert_eq!(&h[4..8], &[0xff, 0xff, 0xff, 0xff]);
    assert_eq!(&h[40..44], &[0xdb, 0xff, 0xff, 0xff]);
}

#[test]
fn encode_puts_the_header_before_the_data() {
    let data = vec![1u8, 2, 3, 4, 5, 6];
    let file = encode(&data).unwrap();
    assert_eq!(file.len(), 50);
    assert_eq!(&file[..44], &header(6)[..]);
    assert_eq!(&file[44..], &data[..]);
    assert_eq!(encode(&Vec::new()), Some(header(0)));
}

#[test]
fn levels_are_held_to_sixteen_bits() {
    assert_eq!(clamp_sample(40000), 32767);
    assert_eq!(clamp_sample(-40000), -32768);
    assert_eq!(clamp_sample(32767), 32767);
    assert_eq!(clamp_sample(32768), 32767);
    assert_eq!(clamp_sample(-32768), -32768);
    assert_eq!(clamp_sample(-32769), -32768);
    assert_eq!(clamp_sample(0), 0);
    assert_eq!(clamp_sample(-1), -1);
    assert_eq!(clamp_sample(12345), 12345);
    assert_eq!(clamp_sample(i64::MAX), 32767);
    assert_eq!(clamp_sample(i64::MIN), -32768);
}

#[test]
fn samples_are_little_endian() {
    let mut data = Vec::new();
    for sample in [0i16, 1, -1, 256, -256, 0x1234, i16::MAX, i16::MIN] {
        push_sample(&mut data, sample);
    }
    let mut wanted = Vec::new();
    for sample in [0i16, 1, -1, 256, -256, 0x1234, i16::MAX, i16::MIN] {
        wanted.extend_from_slice(&sample.to_le_bytes());
    }
    assert_eq!(data, wanted);
    let mut data = vec![9u8];
    push_sample(&mut data, clamp_sample(40000));
    push_sample(&mut data, clamp_sample(-40000));
    assert_eq!(data, vec![9, 0xff, 0x7f, 0x00, 0x80]);
}

#[test]
fn ticks_at_concrete_samples() {
    let bpm = number(120.0);
    assert_eq!(tick_of(bpm, 0), 0);
    assert_eq!(tick_of(bpm, 1378), 0);
    assert_eq!(tick_of(bpm, 1379), 1);
    assert_eq!(tick_of(bpm, 22050), 16);
    assert_eq!(tick_of(bpm, 23428), 16);
    assert_eq!(tick_of(bpm, 23429), 17);
    assert_eq!(tick_of(bpm, 44100), 32);
    assert_eq!(tick_of(number(60.0), 44100), 16);
    assert_eq!(tick_of(number(100.0), 6615), 4);
    assert_eq!(tick_of(number(100.0), 6614), 3);
    assert_eq!(tick_of(number(92.5), 1_000_000), 559);
    assert_eq!(tick_of(number(0.5), 44100 * 60), 8);
    assert_eq!(tick_of(number(1e-3), 44100 * 60 * 1000 - 1), 15);
    assert_eq!(tick_of(number(1e-3), 44100 * 60 * 1000), 16);
}

#[test]
fn ticks_at_the_ends_of_the_range() {
    assert_eq!(tick_of(number(0.0), 1_000_000), 0);
    assert_eq!(tick_of(number(-0.0), 1_000_000), 0);
    assert_eq!(tick_of(number(-120.0), 1_000_000), 0);
    assert_eq!(tick_of(number(f64::NAN), 1_000_000), 0);
    assert_eq!(tick_of(number(f64::NEG_INFINITY), 1_000_000), 0);
    assert_eq!(tick_of(number(f64::INFINITY), 0), 0);
    assert_eq!(tick_of(number(f64::INFINITY), 1), u32::MAX);
    assert_eq!(tick_of(number(f64::MAX), 0), 0);
    assert_eq!(tick_of(number(f64::MAX), 1), u32::MAX);
    assert_eq!(tick_of(number(1e300), 7), u32::MAX);
    assert_eq!(tick_of(number(4503599627370496.0), 1), u32::MAX);
    assert_eq!(tick_of(number(4503599627370495.5), 1), u32::MAX);
    assert_eq!(tick_of(number(f64::MIN_POSITIVE), u64::MAX), 0);
    assert_eq!(tick_of(number(5e-324), u64::MAX), 0);
    assert_eq!(tick_of(number(1e-30), u64::MAX), 0);
    assert_eq!(tick_of(number(120.0), u64::MAX), u32::MAX);
    assert_eq!(tick_of(number(1e9), 1), 6046);
    assert_eq!(tick_of(number(1e9), 709_000), 4_287_226_001);
    assert_eq!(tick_of(number(1e9), 711_000), u32::MAX);
}

#[test]
fn ticks_never_run_backwards() {
    for bpm in [1e-3, 0.5, 59.9, 60.0, 92.5, 100.0, 120.0, 333.333, 1e4, 1e9] {
        let bpm = number(bpm);
        let mut last = 0;
        for n in 0..60_000u64 {
            let tick = tick_of(bpm, n * 23);
            assert!(last <= tick);
            last = tick;
        }
    }
}

#[test]
fn ticks_follow_the_formula() {
    for bpm in [0.75, 59.9, 60.0, 92.5, 100.0, 120.0, 333.333, 441.0] {
        for n in 0..100_000u64 {
            let exact = (n as u128 * 16 * (bpm * 1000.0) as u128) / (44100 * 60 * 1000);
            assert_eq!(tick_of(number((bpm * 1000.0f64).round() / 1000.0), n) as u128, exact);
            let rounded = float_tick(bpm, n) as i64;
            assert!((tick_of(number(bpm), n) as i64 - rounded).abs() <= 1);
        }
    }
}

#[test]
fn default_values() {
    assert_eq!(f64::from_bits(DEFAULT_BPM_BITS), 100.0);
    assert_eq!(DEFAULT_AMPL, 2048);
    let piece = load("0 Q A4 1.0 S", None, None).unwrap();
    assert_eq!(value(piece.bpm), 100.0);
    assert_eq!(piece.ampl, 2048);
    assert_eq!(piece.signals.len(), 1);
    let piece = load("", None, None).unwrap();
    assert_eq!(value(piece.bpm), 100.0);
    assert_eq!(piece.ampl, 2048);
    assert!(piece.signals.is_empty());
}

#[test]
fn a_score_with_directives() {
    let piece = load("BPM 92.5\nAMPLITUDE 300\n0 Q A4 1.0 S\n16 H C#5 0.5 T\n", None, None).unwrap();
    assert_eq!(value(piece.bpm), 92.5);
    assert_eq!(piece.ampl, 300);
    assert_eq!(
        piece.signals,
        vec![
            NoteSignal {
                start: 0,
                duration: NoteDuration { ticks: 16 },
                note: Note { pitch_class: PitchClass::A, octave: 4 },
                ampl: number(1.0),
                wavetype: WaveType::Sine,
            },
            NoteSignal {
                start: 16,
                duration: NoteDuration { ticks: 32 },
                note: Note { pitch_class: PitchClass::DFlat, octave: 5 },
                ampl: number(0.5),
                wavetype: WaveType::Triangle,
            },
        ]
    );
}

#[test]
fn directives_stand_anywhere() {
    let piece = load("0 Q A4 1.0 S\r\nAMPL 7\r\n16 Q B4 1.0 Q\r\nBPM 240\r\n", None, None).unwrap();
    assert_eq!(value(piece.bpm), 240.0);
    assert_eq!(piece.ampl, 7);
    assert_eq!(piece.signals.len(), 2);
    assert_eq!(piece.signals[1].start, 16);
}

#[test]
fn the_first_directive_wins() {
    let piece = load("BPM 90\nBPM 180\nAMPL 5\nAMPLITUDE 6\nBPM nonsense\nAMPL nonsense", None, None)
        .unwrap();
    assert_eq!(value(piece.bpm), 90.0);
    assert_eq!(piece.ampl, 5);
}

#[test]
fn the_caller_overrules_the_score() {
    let piece = load("BPM 90\nAMPL 5\n0 Q A4 1.0 S", Some(144.0), Some(9)).unwrap();
    assert_eq!(value(piece.bpm), 144.0);
    assert_eq!(piece.ampl, 9);
    let piece = load("BPM nonsense\nAMPL nonsense", Some(144.0), Some(9)).unwrap();
    assert_eq!(value(piece.bpm), 144.0);
    assert_eq!(piece.ampl, 9);
    let piece = load("BPM 90\nAMPL 5", Some(144.0), None).unwrap();
    assert_eq!(value(piece.bpm), 144.0);
    assert_eq!(piece.ampl, 5);
    let piece = load("BPM 90\nAMPL 5", None, Some(9)).unwrap();
    assert_eq!(value(piece.bpm), 90.0);
    assert_eq!(piece.ampl, 9);
}

#[test]
fn bad_directives() {
    assert_eq!(
        load("BPM fast", None, None).unwrap_err(),
        MusicError::SyntaxError(1, SyntaxErrorType::BadBPM("fast".to_string()))
    );
    assert_eq!(
        load("0 Q A4 1.0 S\nBPM ", None, None).unwrap_err(),
        MusicError::SyntaxError(2, SyntaxErrorType::BadBPM(String::new()))
    );
    assert_eq!(
        load("BPM   12x   34", None, None).unwrap_err(),
        MusicError::SyntaxError(1, SyntaxErrorType::BadBPM("12x".to_string()))
    );
    assert_eq!(
        load("AMPL loud", None, None).unwrap_err(),
        MusicError::SyntaxError(1, SyntaxErrorType::BadAmplitude("loud".to_string()))
    );
    assert_eq!(
        load("\n\nAMPLITUDE 65536", None, None).unwrap_err(),
        MusicError::SyntaxError(3, SyntaxErrorType::BadAmplitude("65536".to_string()))
    );
    assert_eq!(
        load("AMPL 1.5", None, None).unwrap_err(),
        MusicError::SyntaxError(1, SyntaxErrorType::BadAmplitude("1.5".to_string()))
    );
    assert_eq!(
        load("AMPL -3", None, None).unwrap_err(),
        MusicError::SyntaxError(1, SyntaxErrorType::BadAmplitude("-3".to_string()))
    );
    assert_eq!(
        load("AMPL ", None, None).unwrap_err(),
        MusicError::SyntaxError(1, SyntaxErrorType::BadAmplitude(String::new()))
    );
    assert_eq!(load("AMPL 65535", None, None).unwrap().ampl, 65535);
}

#[test]
fn a_keyword_alone_is_no_directive() {
    assert_eq!(
        load("BPM", None, None).unwrap_err(),
        MusicError::SyntaxError(1, SyntaxErrorType::BadStartTime("BPM".to_string()))
    );
    assert_eq!(
        load(" BPM 120", None, None).unwrap_err(),
        MusicError::SyntaxError(1, SyntaxErrorType::BadStartTime("BPM".to_string()))
    );
    assert_eq!(
        load("AMPLITUDES 4", None, None).unwrap_err(),
        MusicError::SyntaxError(1, SyntaxErrorType::BadStartTime("AMPLITUDES".to_string()))
    );
    assert_eq!(
        load("bpm 120", None, None).unwrap_err(),
        MusicError::SyntaxError(1, SyntaxErrorType::BadStartTime("bpm".to_string()))
    );
}

#[test]
fn a_line_of_four_fields_misses_an_entry() {
    assert_eq!(
        load("0 Q A4 1.0", None, None).unwrap_err(),
        MusicError::SyntaxError(1, SyntaxErrorType::MissingEntry)
    );
    assert_eq!(
        load("BPM 120\n0 Q A4 1.0 S\n16 Q A4 1.0\n32 Q A4 1.0 S", None, None).unwrap_err(),
        MusicError::SyntaxError(3, SyntaxErrorType::MissingEntry)
    );
    assert_eq!(
        load("BPM 120\r\n\r\n0 Q A4 1.0 S\r\n16 Q A4 0.5\r\n", None, None).unwrap_err(),
        MusicError::SyntaxError(4, SyntaxErrorType::MissingEntry)
    );
}

#[test]
fn the_first_flaw_is_reported() {
    assert_eq!(
        load("0 Q A4 1.0 S\n0 Q A4 loud S\n0 Z A4 1.0 S", None, None).unwrap_err(),
        MusicError::SyntaxError(2, SyntaxErrorType::BadAmplitude("loud".to_string()))
    );
    assert_eq!(
        load("0 Q A4 1.0 S\n0 Q A4 loud X\nBPM x", None, None).unwrap_err(),
        MusicError::SyntaxError(2, SyntaxErrorType::BadAmplitude("loud".to_string()))
    );
    assert_eq!(
        load("0 Q H4 loud S", None, None).unwrap_err(),
        MusicError::SyntaxError(1, SyntaxErrorType::BadPitchClass("H".to_string()))
    );
    assert_eq!(
        load("0 Q A4 1.0 X", None, None).unwrap_err(),
        MusicError::SyntaxError(1, SyntaxErrorType::BadWaveform("X".to_string()))
    );
    assert_eq!(
        load("0 Q Ab S 1.0", None, None).unwrap_err(),
        MusicError::SyntaxError(1, SyntaxErrorType::BadOctave("b".to_string()))
    );
    assert_eq!(
        load("zero Q A4 1.0 S", None, None).unwrap_err(),
        MusicError::SyntaxError(1, SyntaxErrorType::BadStartTime("zero".to_string()))
    );
    assert_eq!(
        load("0 long A4 1.0 S", None, None).unwrap_err(),
        MusicError::SyntaxError(1, SyntaxErrorType::BadDuration("long".to_string()))
    );
}

#[test]
fn empty_lines_are_passed_over() {
    let piece = load("\nBPM 120\n\n0 Q A4 1.0 S\n\n\n16 Q A4 1.0 S\n\n", None, None).unwrap();
    assert_eq!(piece.signals.len(), 2);
    assert_eq!(
        load("\n\n \n", None, None).unwrap_err(),
        MusicError::SyntaxError(3, SyntaxErrorType::MissingEntry)
    );
}

#[test]
fn a_bare_tempo_line_is_no_score() {
    assert_eq!(
        load("120\n0 Q A4 1.0 S", None, None).unwrap_err(),
        MusicError::SyntaxError(1, SyntaxErrorType::MissingEntry)
    );
}

#[test]
fn number_fields_of_a_score() {
    assert_eq!(
        MusicalPiece::number_fields("BPM 92.5 x\nAMPL 300\n0 Q A4 1.0 S\n\n0 Q A4\nBPM \nBPM"),
        vec!["92.5", "", "1.0", "", "", "", ""]
    );
    assert_eq!(MusicalPiece::number_fields(""), Vec::<String>::new());
    assert_eq!(MusicalPiece::number_fields("a b c d e f\r\n"), vec!["d"]);
}

#[test]
fn readings_decide_the_numbers() {
    let input = "BPM 120\n0 Q A4 1.0 S";
    assert_eq!(
        MusicalPiece::new(input, &Vec::new(), None, None).unwrap_err(),
        MusicError::SyntaxError(1, SyntaxErrorType::BadBPM("120".to_string()))
    );
    assert_eq!(
        MusicalPiece::new(input, &vec![Some(number(120.0))], None, None).unwrap_err(),
        MusicError::SyntaxError(2, SyntaxErrorType::BadAmplitude("1.0".to_string()))
    );
    let piece =
        MusicalPiece::new(input, &vec![Some(number(90.0)), Some(number(0.5)), None], None, None)
            .unwrap();
    assert_eq!(value(piece.bpm), 90.0);
    assert_eq!(value(piece.signals[0].ampl), 0.5);
    let piece = MusicalPiece::new(input, &vec![None, Some(number(0.5))], Some(number(60.0)), None)
        .unwrap();
    assert_eq!(value(piece.bpm), 60.0);
}

#[test]
fn sample_to_tick_uses_the_tempo_of_the_piece() {
    let piece = load("BPM 120", None, None).unwrap();
    assert_eq!(piece.sample_to_tick(23428), 16);
    assert_eq!(piece.sample_to_tick(23429), 17);
    let piece = load("BPM 120", Some(60.0), None).unwrap();
    assert_eq!(piece.sample_to_tick(44100), 16);
}

#[test]
fn a_quarter_note_at_120() {
    let piece = load("BPM 120\n0 Q A4 1.0 S", None, None).unwrap();
    let data = render(&piece);
    assert_eq!(data.len(), 2 * 23430);
    assert_eq!(sample_at(&data, 0), 0);
    assert_eq!(sample_at(&data, 23429), 0);
    let n = 25usize;
    let wanted = (2048.0 * f64::sin(2.0 * PI * 440.0 * n as f64 / 44100.0)).round() as i16;
    assert!((sample_at(&data, n) - wanted).abs() <= 1);
    let peak = (0..23430).map(|n| sample_at(&data, n)).max().unwrap();
    assert!(peak <= 2048 && peak >= 2040);
    let file = encode(&data).unwrap();
    assert_eq!(file.len(), 44 + 46860);
    assert_eq!(&file[40..44], &46860u32.to_le_bytes());
    assert_eq!(&file[4..8], &46896u32.to_le_bytes());
}

#[test]
fn the_synthesis_ends_with_the_last_signal() {
    let piece = load("BPM 120\n0 Q A4 1.0 S\n8 H C4 1.0 Q", None, None).unwrap();
    let mut synthesis = piece.synthesize();
    assert_eq!(synthesis.sample_index(), 0);
    let mut steps = 0u64;
    loop {
        let n = synthesis.sample_index();
        assert_eq!(n, steps);
        let tick = piece.sample_to_tick(n);
        let wanted: Vec<NoteSignal> = piece
            .signals
            .iter()
            .filter(|s| s.start <= tick && tick as u64 <= s.end_tick())
            .cloned()
            .collect();
        assert_eq!(synthesis.sounding(), wanted);
        let done = synthesis.advance(0);
        steps += 1;
        let left: Vec<NoteSignal> =
            piece.signals.iter().filter(|s| tick as u64 <= s.end_tick()).cloned().collect();
        assert_eq!(synthesis.running, left);
        assert_eq!(done, left.is_empty());
        if done {
            assert_eq!(tick, 41);
            break;
        }
        assert!(tick <= 40);
    }
    // the first sample of tick 41 = 8 + 32 + 1 at 32 ticks a second
    assert_eq!(steps, 56_504 + 1);
    assert_eq!(synthesis.into_data().len() as u64, 2 * steps);
}

#[test]
fn overlapping_signals_sound_together() {
    let piece = load("BPM 120\nAMPL 1000\n0 Q A4 1.0 S\n8 Q A4 1.0 S\n", None, None).unwrap();
    let alone = load("BPM 120\nAMPL 1000\n0 Q A4 1.0 S\n", None, None).unwrap();
    let both = render(&piece);
    let one = render(&alone);
    // tick 8 begins at sample 11025
    for n in [0usize, 1000, 11024] {
        assert_eq!(sample_at(&both, n), sample_at(&one, n));
    }
    for n in [11025usize, 11026, 12000, 20000, 23428] {
        let single = 1000.0 * f64::sin(2.0 * PI * 440.0 * n as f64 / 44100.0);
        assert_eq!(sample_at(&both, n), (single + single).round() as i16);
    }
    let mut synthesis = piece.synthesize();
    for _ in 0..11025 {
        assert_eq!(synthesis.sounding().len(), 1);
        synthesis.advance(0);
    }
    assert_eq!(synthesis.sounding(), piece.signals);
}

#[test]
fn loud_pieces_are_clipped() {
    let piece = load("BPM 120\nAMPL 30000\n0 TS A4 1.0 Q\n0 TS A4 1.0 Q", None, None).unwrap();
    let data = render(&piece);
    let samples: Vec<i16> = (0..data.len() / 2).map(|n| sample_at(&data, n)).collect();
    assert!(samples.contains(&i16::MAX));
    assert!(samples.contains(&i16::MIN));
}

#[test]
fn a_piece_without_signals_is_one_silent_sample() {
    let piece = load("BPM 120", None, None).unwrap();
    assert_eq!(render(&piece), vec![0, 0]);
    let mut synthesis = piece.synthesize();
    assert!(synthesis.sounding().is_empty());
    assert!(synthesis.advance(5));
    assert!(synthesis.advance(-2));
    assert_eq!(synthesis.sample_index(), 2);
    assert_eq!(synthesis.into_data(), vec![5, 0, 0xfe, 0xff]);
}

#[test]
fn a_signal_that_starts_late() {
    let piece = load("BPM 60\n4 2 C4 1.0 A", None, None).unwrap();
    let mut synthesis = piece.synthesize();
    let mut first = None;
    let mut last = None;
    loop {
        let n = synthesis.sample_index();
        if !synthesis.sounding().is_empty() {
            if first.is_none() {
                first = Some(n);
            }
            last = Some(n);
        }
        if synthesis.advance(0) {
            break;
        }
    }
    // 16 ticks a second: tick 4 begins at sample 11025, tick 7 at sample 19294
    assert_eq!(first, Some(11025));
    assert_eq!(last, Some(19293));
    assert_eq!(synthesis.sample_index(), 19295);
}

#[test]
fn a_tempo_is_finite_and_above_zero() {
    for token in ["0", "0.0", "-0.0", "-5", "-1e-300", "inf", "+inf", "-inf", "infinity", "NaN", "nan", "1e999"] {
        assert_eq!(
            load(&format!("0 Q A4 1.0 S\nBPM {token}"), None, None).unwrap_err(),
            MusicError::SyntaxError(2, SyntaxErrorType::BadBPM(token.to_string())),
            "{token:?}"
        );
    }
    for token in ["5e-324", "1e-300", "0.001", "120", "+92.5", "1e300", "1.7976931348623157e308"] {
        let piece = load(&format!("BPM {token}"), None, None).unwrap();
        assert_eq!(value(piece.bpm), token.parse::<f64>().unwrap(), "{token:?}");
        assert!(value(piece.bpm) > 0.0 && value(piece.bpm).is_finite());
    }
}

#[test]
fn a_refused_tempo_is_passed_over_once_a_tempo_is_set() {
    assert_eq!(value(load("BPM 90\nBPM 0\nBPM -5", None, None).unwrap().bpm), 90.0);
    assert_eq!(value(load("BPM 0\nBPM inf", Some(72.0), None).unwrap().bpm), 72.0);
    assert_eq!(
        load("BPM 0\nBPM 90", None, None).unwrap_err(),
        MusicError::SyntaxError(1, SyntaxErrorType::BadBPM("0".to_string()))
    );
}

#[test]
fn the_tempo_of_the_caller_is_taken_as_it_is() {
    assert_eq!(value(load("BPM 90", Some(0.0), None).unwrap().bpm), 0.0);
    assert_eq!(value(load("BPM 90", Some(-5.0), None).unwrap().bpm), -5.0);
    assert!(value(load("", Some(f64::NAN), None).unwrap().bpm).is_nan());
}

#[test]
fn amplitudes_of_a_score_are_finite_and_not_below_zero() {
    assert_eq!(
        load("BPM 120\n0 Q A4 1.0 S\n16 Q A4 -1.0 S", None, None).unwrap_err(),
        MusicError::SyntaxError(3, SyntaxErrorType::BadAmplitude("-1.0".to_string()))
    );
    assert_eq!(
        load("0 Q A4 inf S", None, None).unwrap_err(),
        MusicError::SyntaxError(1, SyntaxErrorType::BadAmplitude("inf".to_string()))
    );
    let piece = load("0 Q A4 0 S\n0 Q A4 -0.0 S\n0 Q A4 2.5 S", None, None).unwrap();
    for signal in piece.signals.iter() {
        assert!(value(signal.ampl) >= 0.0 && value(signal.ampl).is_finite());
    }
}

#[test]
fn a_square_wave_is_silent_where_its_sine_is_zero() {
    let piece = load("BPM 120\nAMPL 1000\n0 TS A4 1.0 Q", None, None).unwrap();
    let data = render(&piece);
    assert_eq!(sample_at(&data, 0), 0);
    assert_eq!(sample_at(&data, 1), 1000);
    assert_eq!(sample_at(&data, 60), -1000);
}
