//! Letter-by-letter speech synthesis from pre-recorded waveforms.

use vstd::prelude::*;
use vstd::string::StringSliceAdditionalSpecFns;

use crate::text::chars_of;

verus! {

/// One sample of 16-bit PCM audio.
pub type PcmSample = i16;

/// Size in bytes of the recording of one letter.
pub const BYTE_SIZE: usize = 20810;

/// Size in bytes of one sample.
pub const SAMPLE_SIZE: usize = 2;

/// The most letters that one call of [`tts`] speaks.
pub const MAX_LETTERS: usize = 32;

/// Samples in the recording of one letter.
pub const LETTER_SAMPLES: usize = BYTE_SIZE / SAMPLE_SIZE;

/// Samples in the output buffer: twice what `MAX_LETTERS` recordings fill.
pub const MAX_BUFFER_SIZE: usize = BYTE_SIZE * MAX_LETTERS;

/// Recordings in a sound bank: the letters `a` to `z`, then the space.
pub const SOUNDS: usize = 27;

/// The place of the recording of `c` in a sound bank, for the characters
/// that have one.
pub open spec fn letter_slot(c: char) -> Option<int> {
    if 'a' <= c <= 'z' {
        Some(c as int - 'a' as int)
    } else if c == ' ' {
        Some(26)
    } else {
        None
    }
}

/// Whether every character of `text` has a recording.
pub open spec fn speakable(text: Seq<char>) -> bool {
    forall|k: int| 0 <= k < text.len() ==> (#[trigger] letter_slot(text[k])) is Some
}

/// The recordings of the letters `a` to `z` and of the space, each
/// `LETTER_SAMPLES` samples long.
pub struct SoundBank {
    waves: Vec<Vec<PcmSample>>,
}

impl View for SoundBank {
    type V = Seq<Seq<PcmSample>>;

    closed spec fn view(&self) -> Seq<Seq<PcmSample>> {
        Seq::new(self.waves@.len(), |k: int| self.waves@[k]@)
    }
}

/// Whether `waves` has the shape of a sound bank.
pub open spec fn bank_shaped(waves: Seq<Seq<PcmSample>>) -> bool {
    &&& waves.len() == SOUNDS
    &&& forall|k: int| 0 <= k < waves.len() ==> (#[trigger] waves[k]).len() == LETTER_SAMPLES
}

impl SoundBank {
    #[verifier::type_invariant]
    spec fn well_formed(&self) -> bool {
        bank_shaped(self@)
    }

    /// Takes `waves` as a sound bank if there are `SOUNDS` of them and each
    /// is `LETTER_SAMPLES` long.
    pub fn new(waves: Vec<Vec<PcmSample>>) -> (bank: Option<SoundBank>)
        ensures
            bank is Some <==> bank_shaped(waves.deep_view()),
            bank matches Some(b) ==> b@ == waves.deep_view(),
    {
        let ghost shape = waves.deep_view();
        assert(shape.len() == waves@.len());
        assert(forall|k: int| 0 <= k < waves@.len() ==> #[trigger] shape[k] == waves@[k]@);
        if waves.len() != SOUNDS {
            return None;
        }
        let mut k: usize = 0;
        while k < waves.len()
            invariant
                k <= waves.len(),
                shape == waves.deep_view(),
                shape.len() == waves@.len(),
                forall|j: int| 0 <= j < waves@.len() ==> #[trigger] shape[j] == waves@[j]@,
                forall|j: int| 0 <= j < k ==> (#[trigger] shape[j]).len() == LETTER_SAMPLES,
            decreases waves.len() - k,
        {
            if waves[k].len() != LETTER_SAMPLES {
                assert(shape[k as int].len() != LETTER_SAMPLES);
                return None;
            }
            k += 1;
        }
        assert(Seq::new(waves@.len(), |j: int| waves@[j]@) =~= shape);
        Some(SoundBank { waves })
    }

    /// The samples of the recording in place `slot`.
    fn wave(&self, slot: usize) -> (wave: &Vec<PcmSample>)
        requires
            slot < SOUNDS,
        ensures
            wave@ == self@[slot as int],
            wave@.len() == LETTER_SAMPLES,
    {
        proof {
            use_type_invariant(self);
            assert(self@[slot as int].len() == LETTER_SAMPLES);
        }
        &self.waves[slot]
    }
}

/// The recording of `c`, where `bank` has one for it.
pub fn letter_to_pcm(bank: &SoundBank, c: char) -> (wave: Option<&Vec<PcmSample>>)
    ensures
        wave is Some <==> letter_slot(c) is Some,
        wave matches Some(w) ==> w@ == bank@[letter_slot(c)->0] && w@.len() == LETTER_SAMPLES,
{
    let slot: Option<usize> = match c {
        'a' => Some(0),
        'b' => Some(1),
        'c' => Some(2),
        'd' => Some(3),
        'e' => Some(4),
        'f' => Some(5),
        'g' => Some(6),
        'h' => Some(7),
        'i' => Some(8),
        'j' => Some(9),
        'k' => Some(10),
        'l' => Some(11),
        'm' => Some(12),
        'n' => Some(13),
        'o' => Some(14),
        'p' => Some(15),
        'q' => Some(16),
        'r' => Some(17),
        's' => Some(18),
        't' => Some(19),
        'u' => Some(20),
        'v' => Some(21),
        'w' => Some(22),
        'x' => Some(23),
        'y' => Some(24),
        'z' => Some(25),
        ' ' => Some(26),
        _ => None,
    };
    match slot {
        Some(k) => Some(bank.wave(k)),
        None => None,
    }
}

/// The sample in place `j` of a buffer that held `before`, after `text` has
/// been spoken into it from `bank`. The recordings stand one behind the
/// other: that of the `k`-th character fills the `LETTER_SAMPLES` samples
/// from `k * LETTER_SAMPLES` on. Behind the last recording the buffer is as
/// it was.
pub open spec fn spoken_sample(
    text: Seq<char>,
    bank: Seq<Seq<PcmSample>>,
    before: Seq<PcmSample>,
    j: int,
) -> PcmSample {
    let k = j / (LETTER_SAMPLES as int);
    let i = j % (LETTER_SAMPLES as int);
    if k < text.len() {
        match letter_slot(text[k]) {
            Some(slot) => bank[slot][i],
            None => before[j],
        }
    } else {
        before[j]
    }
}

/// The buffer that held `before`, after `text` has been spoken into it from
/// `bank`.
pub open spec fn spoken(
    text: Seq<char>,
    bank: Seq<Seq<PcmSample>>,
    before: Seq<PcmSample>,
) -> Seq<PcmSample> {
    Seq::new(before.len(), |j: int| spoken_sample(text, bank, before, j))
}

/// The sample in place `j` while `text` is being spoken: the first `letters`
/// characters have been written, and the first `samples` samples of the next.
spec fn written_sample(
    text: Seq<char>,
    bank: Seq<Seq<PcmSample>>,
    before: Seq<PcmSample>,
    letters: int,
    samples: int,
    j: int,
) -> PcmSample {
    let k = j / (LETTER_SAMPLES as int);
    let i = j % (LETTER_SAMPLES as int);
    if k < letters || (k == letters && i < samples) {
        spoken_sample(text, bank, before, j)
    } else {
        before[j]
    }
}

/// Speaks `s` into `buf`: the recordings of its characters, taken from
/// `bank`, are written one behind the other from the start of the buffer, so
/// that the recording of the `k`-th character starts at sample
/// `k * LETTER_SAMPLES`. What lies behind the last recording is not touched.
///
/// Returns the number of letters written. A string of more than
/// `MAX_LETTERS` bytes is refused: `None` comes back and the buffer stays as
/// it was. A string that is short enough must hold nothing but characters
/// that have a recording.
pub fn tts(s: &str, bank: &SoundBank, buf: &mut [PcmSample; MAX_BUFFER_SIZE]) -> (count: Option<
    usize,
>)
    requires
        s.len() <= MAX_LETTERS ==> speakable(s@),
    ensures
        count is None <==> s.len() > MAX_LETTERS,
        count is None ==> final(buf)@ == old(buf)@,
        count matches Some(n) ==> n == s@.len() && final(buf)@ == spoken(s@, bank@, old(buf)@),
{
    if s.len() > MAX_LETTERS {
        return None;
    }
    let letters = chars_of(s);
    proof {
        assert(vstd::string::is_ascii(s)) by {
            assert forall|k: int| 0 <= k < s@.len() implies '\0' <= #[trigger] s@[k] <= '\u{7f}' by {
                assert(letter_slot(s@[k]) is Some);
            }
        }
        vstd::string::is_ascii_spec_bytes(s);
        assert(letters@.len() == s.spec_bytes().len());
    }
    let ghost before = buf@;
    let mut offset: usize = 0;
    while offset < letters.len()
        invariant
            offset <= letters.len() <= MAX_LETTERS,
            speakable(letters@),
            before.len() == MAX_BUFFER_SIZE,
            buf@.len() == MAX_BUFFER_SIZE,
            forall|j: int|
                0 <= j < MAX_BUFFER_SIZE ==> #[trigger] buf@[j] == written_sample(
                    letters@,
                    bank@,
                    before,
                    offset as int,
                    0,
                    j,
                ),
        decreases letters.len() - offset,
    {
        let c = letters[offset];
        assert(letter_slot(letters@[offset as int]) is Some);
        match letter_to_pcm(bank, c) {
            Some(wave) => {
                let mut i: usize = 0;
                while i < LETTER_SAMPLES
                    invariant
                        i <= LETTER_SAMPLES,
                        offset < letters.len() <= MAX_LETTERS,
                        c == letters@[offset as int],
                        letter_slot(c) is Some,
                        wave@ == bank@[letter_slot(c)->0],
                        wave@.len() == LETTER_SAMPLES,
                        before.len() == MAX_BUFFER_SIZE,
                        buf@.len() == MAX_BUFFER_SIZE,
                        forall|j: int|
                            0 <= j < MAX_BUFFER_SIZE ==> #[trigger] buf@[j] == written_sample(
                                letters@,
                                bank@,
                                before,
                                offset as int,
                                i as int,
                                j,
                            ),
                    decreases LETTER_SAMPLES - i,
                {
                    let place = offset * LETTER_SAMPLES + i;
                    assert(place / LETTER_SAMPLES == offset && place % LETTER_SAMPLES == i);
                    buf[place] = wave[i];
                    i += 1;
                }
            },
            None => {},
        }
        offset += 1;
    }
    assert(buf@ =~= spoken(s@, bank@, before));
    Some(offset)
}

} // verus!
