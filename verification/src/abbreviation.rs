//! The table of abbreviations and what they stand for.

use vstd::prelude::*;

use crate::table::{lemma_mapping_empty, lemma_mapping_push, lookup, mapping};
use crate::text::{chars_of, find, find_first, lines, same_text, slice_of, split_lines, string_of};

verus! {

/// What stands between an abbreviation and its expansion in a line of
/// table text: a space, an equals sign and a space.
pub open spec fn delimiter() -> Seq<char> {
    seq![' ', '=', ' ']
}

/// The entry that a line of table text writes: the abbreviation before the
/// first delimiter, and the expansion behind it. A line without a delimiter
/// writes none.
pub open spec fn entry_of(line: Seq<char>) -> Option<(Seq<char>, Seq<char>)> {
    match find(line, delimiter()) {
        Some(at) => Some((line.take(at), line.skip(at + delimiter().len()))),
        None => None,
    }
}

/// The entries that `lines` write, in their order; none where a line writes
/// no entry.
pub open spec fn entries_of(lines: Seq<Seq<char>>) -> Option<Seq<(Seq<char>, Seq<char>)>>
    decreases lines.len(),
{
    if lines.len() == 0 {
        Some(Seq::empty())
    } else {
        match (entries_of(lines.drop_last()), entry_of(lines.last())) {
            (Some(entries), Some(entry)) => Some(entries.push(entry)),
            _ => None,
        }
    }
}

/// The table that `text` writes, one entry on each line, a later line taking
/// the place of an earlier one with the same abbreviation; none where a line
/// writes no entry.
pub open spec fn parsed(text: Seq<char>) -> Option<Map<Seq<char>, Seq<char>>> {
    match entries_of(lines(text)) {
        Some(entries) => Some(mapping(entries)),
        None => None,
    }
}

/// Where the first lines write no entries, all the lines write none.
proof fn lemma_entries_of_prefix(lines: Seq<Seq<char>>, n: int)
    requires
        0 <= n <= lines.len(),
        entries_of(lines.take(n)) is None,
    ensures
        entries_of(lines) is None,
    decreases lines.len() - n,
{
    if n < lines.len() {
        assert(lines.take(n + 1).drop_last() == lines.take(n));
        lemma_entries_of_prefix(lines, n + 1);
    } else {
        assert(lines.take(n) == lines);
    }
}

/// The abbreviations that the library knows without being told, as table
/// text: one entry on each line.
pub const ABBREVIATIONS: &'static str =
    "Dr. = Doctor\nProf. = Professor\nMr. = Mister\nMrs. = Missus\nMs. = Miss\nJr. = Junior\nSr. = Senior\n";

/// The abbreviations that the library knows without being told, one title
/// each, with the word that is spoken in its place.
pub open spec fn builtin_abbreviations() -> Map<Seq<char>, Seq<char>> {
    Map::<Seq<char>, Seq<char>>::empty()
        .insert("Dr."@, "Doctor"@)
        .insert("Prof."@, "Professor"@)
        .insert("Mr."@, "Mister"@)
        .insert("Mrs."@, "Missus"@)
        .insert("Ms."@, "Miss"@)
        .insert("Jr."@, "Junior"@)
        .insert("Sr."@, "Senior"@)
}

/// A read-only mapping from abbreviations to the words they stand for.
/// Keys are compared exactly, letter case included.
pub struct AbbreviationTable {
    entries: Vec<(String, String)>,
}

impl AbbreviationTable {
    /// The entries in the order in which they were inserted.
    pub closed spec fn entries(&self) -> Seq<(Seq<char>, Seq<char>)> {
        Seq::new(self.entries@.len(), |i: int| (self.entries@[i].0@, self.entries@[i].1@))
    }

    /// A table without entries.
    pub fn new() -> (table: AbbreviationTable)
        ensures
            table@ == Map::<Seq<char>, Seq<char>>::empty(),
            table.entries() == Seq::<(Seq<char>, Seq<char>)>::empty(),
    {
        let table = AbbreviationTable { entries: Vec::new() };
        proof {
            assert(table.entries() == Seq::<(Seq<char>, Seq<char>)>::empty());
            lemma_mapping_empty::<Seq<char>>();
        }
        table
    }

    /// The table of the abbreviations that the library knows without being
    /// told.
    pub fn builtin() -> (table: AbbreviationTable)
        ensures
            table@ == builtin_abbreviations(),
    {
        let mut table = AbbreviationTable::new();
        table.insert("Dr.".to_owned(), "Doctor".to_owned());
        table.insert("Prof.".to_owned(), "Professor".to_owned());
        table.insert("Mr.".to_owned(), "Mister".to_owned());
        table.insert("Mrs.".to_owned(), "Missus".to_owned());
        table.insert("Ms.".to_owned(), "Miss".to_owned());
        table.insert("Jr.".to_owned(), "Junior".to_owned());
        table.insert("Sr.".to_owned(), "Senior".to_owned());
        table
    }

    /// Reads a table from text with one entry on each line: the
    /// abbreviation, then ` = `, then what it stands for. A line without
    /// ` = ` makes the whole text unreadable.
    pub fn parse(text: &str) -> (table: Option<AbbreviationTable>)
        ensures
            match parsed(text@) {
                Some(written) => table matches Some(t) && t@ == written,
                None => table is None,
            },
    {
        let chars = chars_of(text);
        let found = split_lines(&chars);
        let ghost all = lines(text@);
        let mut delim: Vec<char> = Vec::new();
        delim.push(' ');
        delim.push('=');
        delim.push(' ');
        assert(delim@ == delimiter());
        let mut table = AbbreviationTable::new();
        let mut i: usize = 0;
        assert(all.take(0) == Seq::<Seq<char>>::empty());
        while i < found.len()
            invariant
                i <= found.len(),
                found.deep_view() == all,
                all == lines(text@),
                delim@ == delimiter(),
                entries_of(all.take(i as int)) == Some(table.entries()),
            decreases found.len() - i,
        {
            assert(found.deep_view()[i as int] == found@[i as int]@);
            assert(all.take(i + 1).drop_last() == all.take(i as int));
            let line = chars_of(found[i].as_str());
            assert(all.take(i + 1).last() == line@);
            match find_first(&line, &delim) {
                Some(at) => {
                    let key = string_of(&slice_of(&line, 0, at));
                    let value = string_of(&slice_of(&line, at + 3, line.len()));
                    table.insert(key, value);
                },
                None => {
                    proof {
                        assert(entry_of(line@) is None);
                        lemma_entries_of_prefix(all, i + 1);
                    }
                    return None;
                },
            }
            i += 1;
        }
        assert(all.take(found.len() as int) == all);
        Some(table)
    }

    /// Makes `key` stand for `value`, in place of what it stood for before.
    pub fn insert(&mut self, key: String, value: String)
        ensures
            final(self)@ == old(self)@.insert(key@, value@),
            final(self).entries() == old(self).entries().push((key@, value@)),
    {
        let ghost before = self.entries();
        self.entries.push((key, value));
        proof {
            assert(self.entries() == before.push((key@, value@)));
            lemma_mapping_push(before, key@, value@);
        }
    }

    /// What `key` stands for, if the table holds it.
    pub fn get(&self, key: &str) -> (found: Option<&str>)
        ensures
            found is Some <==> self@.contains_key(key@),
            found matches Some(value) ==> value@ == self@[key@],
    {
        let mut i: usize = self.entries.len();
        assert(self.entries().take(i as int) == self.entries());
        while i > 0
            invariant
                i <= self.entries.len(),
                lookup(self.entries(), key@) == lookup(self.entries().take(i as int), key@),
            decreases i,
        {
            let ghost prefix = self.entries().take(i as int);
            assert(prefix.drop_last() == self.entries().take(i - 1));
            assert(prefix.last() == self.entries()[i - 1]);
            i -= 1;
            if same_text(self.entries[i].0.as_str(), key) {
                return Some(self.entries[i].1.as_str());
            }
        }
        None
    }

    /// Whether the table holds `key`.
    pub fn contains(&self, key: &str) -> (held: bool)
        ensures
            held == self@.contains_key(key@),
    {
        self.get(key).is_some()
    }
}

impl View for AbbreviationTable {
    type V = Map<Seq<char>, Seq<char>>;

    closed spec fn view(&self) -> Map<Seq<char>, Seq<char>> {
        mapping(self.entries())
    }
}

} // verus!
