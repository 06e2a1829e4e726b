//! Operator-supplied overrides for display names and locations.

use crate::text::{
    chars_of, contains_seq, find_from, occurs_at, position_from, slice_of, split, split_seq, views,
};
use vstd::prelude::*;

verus! {

/// A read-only lookup from a name to its override. Where a name was given
/// more than once, the override given last counts.
#[derive(Debug, Clone, Default)]
pub struct AliasMap {
    entries: Vec<(String, String)>,
}

/// The override that the entries hold for `name`: that of the last entry
/// with this name.
pub open spec fn lookup(entries: Seq<(String, String)>, name: Seq<char>) -> Option<Seq<char>>
    decreases entries.len(),
{
    if entries.len() == 0 {
        None
    } else if entries.last().0@ == name {
        Some(entries.last().1@)
    } else {
        lookup(entries.drop_last(), name)
    }
}

/// The overrides that the lines of an alias file give. A line holds a name,
/// a semicolon and the override; a line without a semicolon gives nothing.
pub open spec fn aliases_of_lines(lines: Seq<Seq<char>>) -> Map<Seq<char>, Seq<char>>
    decreases lines.len(),
{
    if lines.len() == 0 {
        Map::empty()
    } else {
        let rest = aliases_of_lines(lines.drop_last());
        let line = lines.last();
        if contains_seq(line, seq![';']) {
            let i = position_from(line, seq![';'], 0);
            rest.insert(line.take(i), line.skip(i + 1))
        } else {
            rest
        }
    }
}

/// The overrides that the text of an alias file gives, line by line.
pub open spec fn aliases_of_text(text: Seq<char>) -> Map<Seq<char>, Seq<char>> {
    aliases_of_lines(split_seq(text, seq!['\n']))
}

impl View for AliasMap {
    type V = Map<Seq<char>, Seq<char>>;

    closed spec fn view(&self) -> Map<Seq<char>, Seq<char>> {
        Map::new(
            |k: Seq<char>| lookup(self.entries@, k) is Some,
            |k: Seq<char>| lookup(self.entries@, k)->0,
        )
    }
}

impl AliasMap {
    /// A lookup without any override.
    pub fn new() -> (m: AliasMap)
        ensures
            m@ == Map::<Seq<char>, Seq<char>>::empty(),
    {
        let m = AliasMap { entries: Vec::new() };
        assert(m@ =~= Map::<Seq<char>, Seq<char>>::empty());
        m
    }

    /// Sets the override of `name`, in place of an earlier one.
    pub fn insert(&mut self, name: String, value: String)
        ensures
            final(self)@ == old(self)@.insert(name@, value@),
    {
        let ghost before = self.entries@;
        self.entries.push((name, value));
        proof {
            let after = self.entries@;
            assert(after.drop_last() =~= before);
            assert(self@ =~= old(self)@.insert(name@, value@));
        }
    }

    /// The override of `name`, where there is one.
    pub fn resolve(&self, name: &str) -> (res: Option<String>)
        ensures
            res is Some <==> self@.contains_key(name@),
            res matches Some(v) ==> v@ == self@[name@],
    {
        let key = name.to_owned();
        let mut i: usize = self.entries.len();
        assert(self.entries@.take(i as int) =~= self.entries@);
        while i > 0
            invariant
                i <= self.entries.len(),
                key@ == name@,
                lookup(self.entries@, name@) == lookup(self.entries@.take(i as int), name@),
            decreases i,
        {
            let ghost prefix = self.entries@.take(i as int);
            assert(prefix.drop_last() =~= self.entries@.take(i - 1));
            i = i - 1;
            if self.entries[i].0 == key {
                return Some(self.entries[i].1.clone());
            }
        }
        None
    }

    /// Reads the overrides from the text of an alias file.
    pub fn parse(text: &str) -> (m: AliasMap)
        ensures
            m@ == aliases_of_text(text@),
    {
        proof {
            reveal_strlit("\n");
            reveal_strlit(";");
            assert("\n"@ =~= seq!['\n']);
            assert(";"@ =~= seq![';']);
        }
        let lines = split(text, "\n");
        let semicolon = chars_of(";");
        let mut m = AliasMap::new();
        let mut n: usize = 0;
        while n < lines.len()
            invariant
                n <= lines.len(),
                semicolon@ == seq![';'],
                m@ == aliases_of_lines(views(lines@).take(n as int)),
            decreases lines.len() - n,
        {
            let ghost prefix = views(lines@).take(n + 1);
            assert(prefix.drop_last() =~= views(lines@).take(n as int));
            assert(prefix.last() == lines@[n as int]@);
            let line = lines[n].as_str();
            let cs = chars_of(line);
            match find_from(&cs, &semicolon, 0) {
                Some(i) => {
                    assert(semicolon@.len() == 1);
                    assert(occurs_at(cs@, semicolon@, i as int));
                    assert(i + 1 <= cs.len());
                    assert(line@.take(i as int) =~= line@.subrange(0, i as int));
                    assert(line@.skip(i + 1) =~= line@.subrange(i + 1, line@.len() as int));
                    let name = slice_of(line, 0, i);
                    let value = slice_of(line, i + 1, cs.len());
                    m.insert(name, value);
                },
                None => {},
            }
            n = n + 1;
        }
        assert(views(lines@).take(lines.len() as int) =~= views(lines@));
        m
    }
}

} // verus!
