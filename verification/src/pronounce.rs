//! The pronunciation dictionary: words, and the phonemes they are said with.

use vstd::prelude::*;
use vstd::std_specs::convert::TryFromSpecImpl;

use crate::table::{lemma_mapping_empty, lemma_mapping_push, lookup, mapping};
use crate::text::{
    chars_of,
    find,
    find_first,
    lines,
    same_text,
    slice_of,
    split_lines,
    string_of,
};
use crate::tokenize::{tokenize, tokens};

verus! {

/// One phoneme of the dictionary's alphabet.
#[derive(Debug, Clone, Copy, PartialEq, Eq, Structural)]
pub enum Sound {
    AA,
    AE,
    AH,
    AO,
    AW,
    AY,
    B,
    CH,
    D,
    DH,
    EH,
    ER,
    EY,
    F,
    G,
    HH,
    IH,
    IY,
    JH,
    K,
    L,
    M,
    N,
    NG,
    OW,
    OY,
    P,
    R,
    S,
    SH,
    T,
    TH,
    UH,
    UM,
    UW,
    V,
    W,
    Y,
    Z,
    ZH,
}

/// Why a piece of dictionary text was refused.
#[derive(Debug)]
pub enum Error {
    /// The text names no phoneme of the alphabet.
    InvalidSound(String),
    /// The line has no space between the word and its phonemes.
    MalformedLine(String),
}

/// An [`Error`] as contracts see it.
pub ghost enum Fault {
    InvalidSound(Seq<char>),
    MalformedLine(Seq<char>),
}

impl View for Error {
    type V = Fault;

    open spec fn view(&self) -> Fault {
        match self {
            Error::InvalidSound(text) => Fault::InvalidSound(text@),
            Error::MalformedLine(line) => Fault::MalformedLine(line@),
        }
    }
}

impl Sound {
    /// The symbol that stands for this phoneme in dictionary text.
    pub open spec fn name(self) -> Seq<char> {
        match self {
            Sound::AA => seq!['A', 'A'],
            Sound::AE => seq!['A', 'E'],
            Sound::AH => seq!['A', 'H'],
            Sound::AO => seq!['A', 'O'],
            Sound::AW => seq!['A', 'W'],
            Sound::AY => seq!['A', 'Y'],
            Sound::B => seq!['B'],
            Sound::CH => seq!['C', 'H'],
            Sound::D => seq!['D'],
            Sound::DH => seq!['D', 'H'],
            Sound::EH => seq!['E', 'H'],
            Sound::ER => seq!['E', 'R'],
            Sound::EY => seq!['E', 'Y'],
            Sound::F => seq!['F'],
            Sound::G => seq!['G'],
            Sound::HH => seq!['H', 'H'],
            Sound::IH => seq!['I', 'H'],
            Sound::IY => seq!['I', 'Y'],
            Sound::JH => seq!['J', 'H'],
            Sound::K => seq!['K'],
            Sound::L => seq!['L'],
            Sound::M => seq!['M'],
            Sound::N => seq!['N'],
            Sound::NG => seq!['N', 'G'],
            Sound::OW => seq!['O', 'W'],
            Sound::OY => seq!['O', 'Y'],
            Sound::P => seq!['P'],
            Sound::R => seq!['R'],
            Sound::S => seq!['S'],
            Sound::SH => seq!['S', 'H'],
            Sound::T => seq!['T'],
            Sound::TH => seq!['T', 'H'],
            Sound::UH => seq!['U', 'H'],
            Sound::UM => seq!['U', 'M'],
            Sound::UW => seq!['U', 'W'],
            Sound::V => seq!['V'],
            Sound::W => seq!['W'],
            Sound::Y => seq!['Y'],
            Sound::Z => seq!['Z'],
            Sound::ZH => seq!['Z', 'H'],
        }
    }

    /// Whether `text` is the symbol of some phoneme.
    pub open spec fn is_name(text: Seq<char>) -> bool {
        exists|sound: Sound| #[trigger] sound.name() == text
    }

    /// The phoneme whose symbol is `text`, if it is the symbol of one.
    pub open spec fn named(text: Seq<char>) -> Option<Sound> {
        if Sound::is_name(text) {
            Some(choose|sound: Sound| #[trigger] sound.name() == text)
        } else {
            None
        }
    }

    /// No two phonemes share a symbol.
    pub proof fn lemma_names_differ(a: Sound, b: Sound)
        requires
            a.name() == b.name(),
        ensures
            a == b,
    {
        match a {
            Sound::AA => {
                assert(b.name().len() == 2 && b.name()[0] == 'A' && b.name()[1] == 'A');
            },
            Sound::AE => {
                assert(b.name().len() == 2 && b.name()[0] == 'A' && b.name()[1] == 'E');
            },
            Sound::AH => {
                assert(b.name().len() == 2 && b.name()[0] == 'A' && b.name()[1] == 'H');
            },
            Sound::AO => {
                assert(b.name().len() == 2 && b.name()[0] == 'A' && b.name()[1] == 'O');
            },
            Sound::AW => {
                assert(b.name().len() == 2 && b.name()[0] == 'A' && b.name()[1] == 'W');
            },
            Sound::AY => {
                assert(b.name().len() == 2 && b.name()[0] == 'A' && b.name()[1] == 'Y');
            },
            Sound::B => {
                assert(b.name().len() == 1 && b.name()[0] == 'B');
            },
            Sound::CH => {
                assert(b.name().len() == 2 && b.name()[0] == 'C' && b.name()[1] == 'H');
            },
            Sound::D => {
                assert(b.name().len() == 1 && b.name()[0] == 'D');
            },
            Sound::DH => {
                assert(b.name().len() == 2 && b.name()[0] == 'D' && b.name()[1] == 'H');
            },
            Sound::EH => {
                assert(b.name().len() == 2 && b.name()[0] == 'E' && b.name()[1] == 'H');
            },
            Sound::ER => {
                assert(b.name().len() == 2 && b.name()[0] == 'E' && b.name()[1] == 'R');
            },
            Sound::EY => {
                assert(b.name().len() == 2 && b.name()[0] == 'E' && b.name()[1] == 'Y');
            },
            Sound::F => {
                assert(b.name().len() == 1 && b.name()[0] == 'F');
            },
            Sound::G => {
                assert(b.name().len() == 1 && b.name()[0] == 'G');
            },
            Sound::HH => {
                assert(b.name().len() == 2 && b.name()[0] == 'H' && b.name()[1] == 'H');
            },
            Sound::IH => {
                assert(b.name().len() == 2 && b.name()[0] == 'I' && b.name()[1] == 'H');
            },
            Sound::IY => {
                assert(b.name().len() == 2 && b.name()[0] == 'I' && b.name()[1] == 'Y');
            },
            Sound::JH => {
                assert(b.name().len() == 2 && b.name()[0] == 'J' && b.name()[1] == 'H');
            },
            Sound::K => {
                assert(b.name().len() == 1 && b.name()[0] == 'K');
            },
            Sound::L => {
                assert(b.name().len() == 1 && b.name()[0] == 'L');
            },
            Sound::M => {
                assert(b.name().len() == 1 && b.name()[0] == 'M');
            },
            Sound::N => {
                assert(b.name().len() == 1 && b.name()[0] == 'N');
            },
            Sound::NG => {
                assert(b.name().len() == 2 && b.name()[0] == 'N' && b.name()[1] == 'G');
            },
            Sound::OW => {
                assert(b.name().len() == 2 && b.name()[0] == 'O' && b.name()[1] == 'W');
            },
            Sound::OY => {
                assert(b.name().len() == 2 && b.name()[0] == 'O' && b.name()[1] == 'Y');
            },
            Sound::P => {
                assert(b.name().len() == 1 && b.name()[0] == 'P');
            },
            Sound::R => {
                assert(b.name().len() == 1 && b.name()[0] == 'R');
            },
            Sound::S => {
                assert(b.name().len() == 1 && b.name()[0] == 'S');
            },
            Sound::SH => {
                assert(b.name().len() == 2 && b.name()[0] == 'S' && b.name()[1] == 'H');
            },
            Sound::T => {
                assert(b.name().len() == 1 && b.name()[0] == 'T');
            },
            Sound::TH => {
                assert(b.name().len() == 2 && b.name()[0] == 'T' && b.name()[1] == 'H');
            },
            Sound::UH => {
                assert(b.name().len() == 2 && b.name()[0] == 'U' && b.name()[1] == 'H');
            },
            Sound::UM => {
                assert(b.name().len() == 2 && b.name()[0] == 'U' && b.name()[1] == 'M');
            },
            Sound::UW => {
                assert(b.name().len() == 2 && b.name()[0] == 'U' && b.name()[1] == 'W');
            },
            Sound::V => {
                assert(b.name().len() == 1 && b.name()[0] == 'V');
            },
            Sound::W => {
                assert(b.name().len() == 1 && b.name()[0] == 'W');
            },
            Sound::Y => {
                assert(b.name().len() == 1 && b.name()[0] == 'Y');
            },
            Sound::Z => {
                assert(b.name().len() == 1 && b.name()[0] == 'Z');
            },
            Sound::ZH => {
                assert(b.name().len() == 2 && b.name()[0] == 'Z' && b.name()[1] == 'H');
            },
        }
    }

    /// Every phoneme is the one that its symbol names.
    pub proof fn lemma_named_by_its_name(sound: Sound)
        ensures
            Sound::named(sound.name()) == Some(sound),
    {
        Sound::lemma_names_differ(choose|other: Sound| #[trigger] other.name() == sound.name(), sound);
    }

    /// The phoneme whose symbol is `text`; `None` where there is none.
    pub fn from_chars(text: &Vec<char>) -> (found: Option<Sound>)
        ensures
            found == Sound::named(text@),
    {
        let found = if text.len() == 1 {
            Sound::from_one(text[0])
        } else if text.len() == 2 {
            Sound::from_two(text[0], text[1])
        } else {
            None
        };
        proof {
            if let Some(sound) = found {
                assert(sound.name() =~= text@);
                Sound::lemma_named_by_its_name(sound);
            } else {
                assert forall|sound: Sound| #[trigger] sound.name() != text@ by {
                    if sound.name() == text@ {
                        assert(sound.name().len() == text@.len());
                        assert(sound.name()[0] == text@[0]);
                        if text@.len() == 2 {
                            assert(sound.name()[1] == text@[1]);
                        }
                    }
                }
            }
        }
        found
    }

    fn from_one(c: char) -> (found: Option<Sound>)
        ensures
            found matches Some(sound) ==> sound.name() == seq![c],
            found is None ==> forall|sound: Sound|
                #![trigger sound.name()]
                sound.name().len() == 1 ==> sound.name()[0] != c,
    {
        match c {
            'B' => Some(Sound::B),
            'D' => Some(Sound::D),
            'F' => Some(Sound::F),
            'G' => Some(Sound::G),
            'K' => Some(Sound::K),
            'L' => Some(Sound::L),
            'M' => Some(Sound::M),
            'N' => Some(Sound::N),
            'P' => Some(Sound::P),
            'R' => Some(Sound::R),
            'S' => Some(Sound::S),
            'T' => Some(Sound::T),
            'V' => Some(Sound::V),
            'W' => Some(Sound::W),
            'Y' => Some(Sound::Y),
            'Z' => Some(Sound::Z),
            _ => None,
        }
    }

    fn from_two(a: char, b: char) -> (found: Option<Sound>)
        ensures
            found matches Some(sound) ==> sound.name() == seq![a, b],
            found is None ==> forall|sound: Sound|
                #![trigger sound.name()]
                sound.name().len() == 2 ==> sound.name()[0] != a || sound.name()[1] != b,
    {
        match (a, b) {
            ('A', 'A') => Some(Sound::AA),
            ('A', 'E') => Some(Sound::AE),
            ('A', 'H') => Some(Sound::AH),
            ('A', 'O') => Some(Sound::AO),
            ('A', 'W') => Some(Sound::AW),
            ('A', 'Y') => Some(Sound::AY),
            ('C', 'H') => Some(Sound::CH),
            ('D', 'H') => Some(Sound::DH),
            ('E', 'H') => Some(Sound::EH),
            ('E', 'R') => Some(Sound::ER),
            ('E', 'Y') => Some(Sound::EY),
            ('H', 'H') => Some(Sound::HH),
            ('I', 'H') => Some(Sound::IH),
            ('I', 'Y') => Some(Sound::IY),
            ('J', 'H') => Some(Sound::JH),
            ('N', 'G') => Some(Sound::NG),
            ('O', 'W') => Some(Sound::OW),
            ('O', 'Y') => Some(Sound::OY),
            ('S', 'H') => Some(Sound::SH),
            ('T', 'H') => Some(Sound::TH),
            ('U', 'H') => Some(Sound::UH),
            ('U', 'M') => Some(Sound::UM),
            ('U', 'W') => Some(Sound::UW),
            ('Z', 'H') => Some(Sound::ZH),
            _ => None,
        }
    }
}

impl TryFrom<&str> for Sound {
    type Error = Error;

    /// Reads one phoneme symbol. The text is accepted exactly when it is the
    /// symbol of a phoneme; otherwise it comes back inside the error.
    fn try_from(s: &str) -> (parsed: Result<Sound, Error>)
        ensures
            match Sound::named(s@) {
                Some(sound) => parsed == Ok::<Sound, Error>(sound),
                None => parsed matches Err(e) && e@ == Fault::InvalidSound(s@),
            },
    {
        let chars = chars_of(s);
        match Sound::from_chars(&chars) {
            Some(sound) => Ok(sound),
            None => Err(Error::InvalidSound(string_of(&chars))),
        }
    }
}

/// What `try_from` returns is stated on the method itself. The trait asks
/// for the whole result as one value, and no specification can build the
/// `String` that an error holds.
impl TryFromSpecImpl<&str> for Sound {
    open spec fn obeys_try_from_spec() -> bool {
        false
    }

    open spec fn try_from_spec(s: &str) -> Result<Sound, Error> {
        arbitrary()
    }
}

/// The phonemes that `names` name, in their order; where one names none, it
/// is the fault, the first such one.
pub open spec fn sounds_of(names: Seq<Seq<char>>) -> Result<Seq<Sound>, Fault>
    decreases names.len(),
{
    if names.len() == 0 {
        Ok(Seq::empty())
    } else {
        match sounds_of(names.drop_last()) {
            Err(fault) => Err(fault),
            Ok(sounds) => match Sound::named(names.last()) {
                Some(sound) => Ok(sounds.push(sound)),
                None => Err(Fault::InvalidSound(names.last())),
            },
        }
    }
}

/// The entry that a line of dictionary text writes: the word before the
/// first space, and behind it the phonemes, set apart by white space. A line
/// without a space is malformed.
pub open spec fn entry_of(line: Seq<char>) -> Result<(Seq<char>, Seq<Sound>), Fault> {
    match find(line, seq![' ']) {
        None => Err(Fault::MalformedLine(line)),
        Some(at) => match sounds_of(tokens(line.skip(at + 1))) {
            Ok(sounds) => Ok((line.take(at), sounds)),
            Err(fault) => Err(fault),
        },
    }
}

/// The entries that `lines` write, in their order, or the fault of the first
/// line that has one.
pub open spec fn entries_of(lines: Seq<Seq<char>>) -> Result<Seq<(Seq<char>, Seq<Sound>)>, Fault>
    decreases lines.len(),
{
    if lines.len() == 0 {
        Ok(Seq::empty())
    } else {
        match entries_of(lines.drop_last()) {
            Err(fault) => Err(fault),
            Ok(entries) => match entry_of(lines.last()) {
                Ok(entry) => Ok(entries.push(entry)),
                Err(fault) => Err(fault),
            },
        }
    }
}

/// The dictionary that `text` writes, one entry on each line, a later line
/// taking the place of an earlier one for the same word; or the fault of the
/// first line that has one.
pub open spec fn parsed(text: Seq<char>) -> Result<Map<Seq<char>, Seq<Sound>>, Fault> {
    match entries_of(lines(text)) {
        Ok(entries) => Ok(mapping(entries)),
        Err(fault) => Err(fault),
    }
}

/// A fault among the first names is the fault of them all.
proof fn lemma_sounds_of_prefix(names: Seq<Seq<char>>, n: int)
    requires
        0 <= n <= names.len(),
        sounds_of(names.take(n)) is Err,
    ensures
        sounds_of(names) == sounds_of(names.take(n)),
    decreases names.len() - n,
{
    if n < names.len() {
        assert(names.take(n + 1).drop_last() == names.take(n));
        lemma_sounds_of_prefix(names, n + 1);
    } else {
        assert(names.take(n) == names);
    }
}

/// A fault among the first lines is the fault of them all.
proof fn lemma_entries_of_prefix(lines: Seq<Seq<char>>, n: int)
    requires
        0 <= n <= lines.len(),
        entries_of(lines.take(n)) is Err,
    ensures
        entries_of(lines) == entries_of(lines.take(n)),
    decreases lines.len() - n,
{
    if n < lines.len() {
        assert(lines.take(n + 1).drop_last() == lines.take(n));
        lemma_entries_of_prefix(lines, n + 1);
    } else {
        assert(lines.take(n) == lines);
    }
}

/// Reads the phonemes that `names` name.
fn read_sounds(names: &Vec<String>) -> (read: Result<Vec<Sound>, Error>)
    ensures
        match sounds_of(names.deep_view()) {
            Ok(sounds) => read matches Ok(v) && v@ == sounds,
            Err(fault) => read matches Err(e) && e@ == fault,
        },
{
    let ghost all = names.deep_view();
    let mut sounds: Vec<Sound> = Vec::new();
    let mut i: usize = 0;
    assert(all.take(0) == Seq::<Seq<char>>::empty());
    while i < names.len()
        invariant
            i <= names.len(),
            all == names.deep_view(),
            sounds_of(all.take(i as int)) == Ok::<Seq<Sound>, Fault>(sounds@),
        decreases names.len() - i,
    {
        assert(all[i as int] == names@[i as int]@);
        assert(all.take(i + 1).drop_last() == all.take(i as int));
        assert(all.take(i + 1).last() == all[i as int]);
        let name = chars_of(names[i].as_str());
        match Sound::from_chars(&name) {
            Some(sound) => {
                sounds.push(sound);
            },
            None => {
                proof {
                    lemma_sounds_of_prefix(all, i + 1);
                }
                return Err(Error::InvalidSound(string_of(&name)));
            },
        }
        i += 1;
    }
    assert(all.take(names.len() as int) == all);
    Ok(sounds)
}

/// Reads the entry that `line` writes.
fn read_entry(line: &str) -> (read: Result<(String, Vec<Sound>), Error>)
    ensures
        match entry_of(line@) {
            Ok(entry) => read matches Ok(e) && e.0@ == entry.0 && e.1@ == entry.1,
            Err(fault) => read matches Err(e) && e@ == fault,
        },
{
    let chars = chars_of(line);
    let mut space: Vec<char> = Vec::new();
    space.push(' ');
    assert(space@ == seq![' ']);
    match find_first(&chars, &space) {
        None => Err(Error::MalformedLine(string_of(&chars))),
        Some(at) => {
            let word = string_of(&slice_of(&chars, 0, at));
            let rest = string_of(&slice_of(&chars, at + 1, chars.len()));
            let names = tokenize(rest.as_str());
            match read_sounds(&names) {
                Ok(sounds) => Ok((word, sounds)),
                Err(e) => Err(e),
            }
        },
    }
}

/// A read-only mapping from words to the phonemes they are said with. Words
/// are compared exactly.
pub struct Dictionary {
    entries: Vec<(String, Vec<Sound>)>,
}

impl View for Dictionary {
    type V = Map<Seq<char>, Seq<Sound>>;

    closed spec fn view(&self) -> Map<Seq<char>, Seq<Sound>> {
        mapping(self.entries())
    }
}

impl Dictionary {
    /// The entries in the order in which they were inserted.
    pub closed spec fn entries(&self) -> Seq<(Seq<char>, Seq<Sound>)> {
        Seq::new(self.entries@.len(), |i: int| (self.entries@[i].0@, self.entries@[i].1@))
    }

    /// A dictionary without entries.
    pub fn new() -> (dictionary: Dictionary)
        ensures
            dictionary@ == Map::<Seq<char>, Seq<Sound>>::empty(),
            dictionary.entries() == Seq::<(Seq<char>, Seq<Sound>)>::empty(),
    {
        let dictionary = Dictionary { entries: Vec::new() };
        proof {
            assert(dictionary.entries() == Seq::<(Seq<char>, Seq<Sound>)>::empty());
            lemma_mapping_empty::<Seq<Sound>>();
        }
        dictionary
    }

    /// Reads a dictionary from text with one entry on each line: the word, a
    /// space, and the symbols of its phonemes with white space between them.
    /// The first line that has no space, or a symbol that names no phoneme,
    /// makes the whole text unreadable, and says why.
    pub fn parse(text: &str) -> (dictionary: Result<Dictionary, Error>)
        ensures
            match parsed(text@) {
                Ok(written) => dictionary matches Ok(d) && d@ == written,
                Err(fault) => dictionary matches Err(e) && e@ == fault,
            },
    {
        let chars = chars_of(text);
        let found = split_lines(&chars);
        let ghost all = lines(text@);
        let mut dictionary = Dictionary::new();
        let mut i: usize = 0;
        assert(all.take(0) == Seq::<Seq<char>>::empty());
        while i < found.len()
            invariant
                i <= found.len(),
                found.deep_view() == all,
                all == lines(text@),
                entries_of(all.take(i as int)) == Ok::<Seq<(Seq<char>, Seq<Sound>)>, Fault>(
                    dictionary.entries(),
                ),
            decreases found.len() - i,
        {
            assert(all[i as int] == found@[i as int]@);
            assert(all.take(i + 1).drop_last() == all.take(i as int));
            assert(all.take(i + 1).last() == all[i as int]);
            match read_entry(found[i].as_str()) {
                Ok(entry) => {
                    dictionary.insert(entry.0, entry.1);
                },
                Err(e) => {
                    proof {
                        lemma_entries_of_prefix(all, i + 1);
                    }
                    return Err(e);
                },
            }
            i += 1;
        }
        assert(all.take(found.len() as int) == all);
        Ok(dictionary)
    }

    /// Makes `word` be said with `sounds`, in place of what it was said with
    /// before.
    pub fn insert(&mut self, word: String, sounds: Vec<Sound>)
        ensures
            final(self)@ == old(self)@.insert(word@, sounds@),
            final(self).entries() == old(self).entries().push((word@, sounds@)),
    {
        let ghost before = self.entries();
        self.entries.push((word, sounds));
        proof {
            assert(self.entries() == before.push((word@, sounds@)));
            lemma_mapping_push(before, word@, sounds@);
        }
    }

    /// The phonemes that `word` is said with, if the dictionary holds it.
    pub fn get(&self, word: &str) -> (found: Option<&Vec<Sound>>)
        ensures
            found is Some <==> self@.contains_key(word@),
            found matches Some(sounds) ==> sounds@ == self@[word@],
    {
        let mut i: usize = self.entries.len();
        assert(self.entries().take(i as int) == self.entries());
        while i > 0
            invariant
                i <= self.entries.len(),
                lookup(self.entries(), word@) == lookup(self.entries().take(i as int), word@),
            decreases i,
        {
            let ghost prefix = self.entries().take(i as int);
            assert(prefix.drop_last() == self.entries().take(i - 1));
            assert(prefix.last() == self.entries()[i - 1]);
            i -= 1;
            if same_text(self.entries[i].0.as_str(), word) {
                return Some(&self.entries[i].1);
            }
        }
        None
    }
}

} // verus!
