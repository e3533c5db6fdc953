use fry::synth::{
    letter_to_pcm, tts, PcmSample, SoundBank, BYTE_SIZE, LETTER_SAMPLES, MAX_BUFFER_SIZE,
    MAX_LETTERS, SOUNDS,
};

fn recording(slot: usize) -> Vec<PcmSample> {
    (0..LETTER_SAMPLES)
        .map(|i| ((slot * 1000 + i % 977) % 30000) as PcmSample + 1)
        .collect()
}

fn bank() -> SoundBank {
    SoundBank::new((0..SOUNDS).map(recording).collect()).unwrap()
}

fn silence() -> Box<[PcmSample; MAX_BUFFER_SIZE]> {
    vec![0; MAX_BUFFER_SIZE].into_boxed_slice().try_into().unwrap()
}

#[test]
fn check_one_letter_str() {
    let mut buf = silence();
    let conv = String::from("a");
    let bytes = tts(&conv, &bank(), &mut buf);
    assert_eq!(bytes.unwrap(), 1);
    let created_slice = &buf[0..LETTER_SAMPLES];
    assert_eq!(created_slice.len(), recording(0).len());
    assert_eq!(created_slice, recording(0));
}

#[test]
fn check_one_word_str() {
    let mut buf = silence();
    let conv = String::from("hello");
    let bytes = tts(&conv, &bank(), &mut buf);
    assert_eq!(bytes.unwrap(), 5);
}

#[test]
fn check_multi_word() {
    let mut buf = silence();
    let conv = String::from("hello world");
    let bytes = tts(&conv, &bank(), &mut buf);
    assert_eq!(bytes.unwrap(), 11);
}

#[test]
fn recordings_stand_one_behind_the_other() {
    let mut buf = silence();
    assert_eq!(tts("hi z", &bank(), &mut buf), Some(4));
    let slots = [7, 8, 26, 25];
    for (k, slot) in slots.iter().enumerate() {
        let from = k * LETTER_SAMPLES;
        assert_eq!(&buf[from..from + LETTER_SAMPLES], recording(*slot));
    }
    let spoken: Vec<PcmSample> = slots.iter().flat_map(|slot| recording(*slot)).collect();
    assert_eq!(&buf[..4 * LETTER_SAMPLES], spoken);
    assert!(buf[4 * LETTER_SAMPLES..].iter().all(|s| *s == 0));
}

#[test]
fn second_letter_follows_the_first_at_once() {
    let mut buf = silence();
    assert_eq!(tts("ab", &bank(), &mut buf), Some(2));
    assert_eq!(buf[LETTER_SAMPLES - 1], recording(0)[LETTER_SAMPLES - 1]);
    assert_eq!(buf[LETTER_SAMPLES], recording(1)[0]);
    assert_eq!(buf[2 * LETTER_SAMPLES - 1], recording(1)[LETTER_SAMPLES - 1]);
    assert_eq!(buf[2 * LETTER_SAMPLES], 0);
    assert_eq!(buf[BYTE_SIZE], 0);
}

#[test]
fn longest_string_fills_half_the_buffer() {
    let mut buf = silence();
    let longest = "z".repeat(MAX_LETTERS);
    assert_eq!(tts(&longest, &bank(), &mut buf), Some(MAX_LETTERS));
    let last = (MAX_LETTERS - 1) * LETTER_SAMPLES;
    assert_eq!(&buf[last..last + LETTER_SAMPLES], recording(25));
    assert!(buf[MAX_LETTERS * LETTER_SAMPLES..].iter().all(|s| *s == 0));
}

#[test]
fn what_is_not_written_stays() {
    let mut buf = silence();
    for sample in buf.iter_mut() {
        *sample = -7;
    }
    assert_eq!(tts("a", &bank(), &mut buf), Some(1));
    assert_eq!(&buf[0..LETTER_SAMPLES], recording(0));
    assert!(buf[LETTER_SAMPLES..].iter().all(|s| *s == -7));
}

#[test]
fn too_long_a_string_is_refused() {
    let mut buf = silence();
    let longest = "a".repeat(MAX_LETTERS);
    assert_eq!(tts(&longest, &bank(), &mut buf), Some(MAX_LETTERS));
    let mut untouched = silence();
    let too_long = "a".repeat(MAX_LETTERS + 1);
    assert_eq!(tts(&too_long, &bank(), &mut untouched), None);
    assert!(untouched.iter().all(|s| *s == 0));
}

#[test]
fn empty_string_speaks_nothing() {
    let mut buf = silence();
    assert_eq!(tts("", &bank(), &mut buf), Some(0));
    assert!(buf.iter().all(|s| *s == 0));
}

#[test]
fn letters_have_recordings() {
    let bank = bank();
    assert_eq!(letter_to_pcm(&bank, 'a'), Some(&recording(0)));
    assert_eq!(letter_to_pcm(&bank, 'z'), Some(&recording(25)));
    assert_eq!(letter_to_pcm(&bank, ' '), Some(&recording(26)));
    assert_eq!(letter_to_pcm(&bank, 'A'), None);
    assert_eq!(letter_to_pcm(&bank, '!'), None);
}

#[test]
fn a_bank_has_its_shape() {
    assert!(SoundBank::new(Vec::new()).is_none());
    assert!(SoundBank::new((0..SOUNDS - 1).map(recording).collect()).is_none());
    let mut short: Vec<Vec<PcmSample>> = (0..SOUNDS).map(recording).collect();
    short[3].pop();
    assert!(SoundBank::new(short).is_none());
    assert_eq!(BYTE_SIZE, 20810);
    assert_eq!(LETTER_SAMPLES, 10405);
    assert_eq!(MAX_BUFFER_SIZE, 665920);
}
