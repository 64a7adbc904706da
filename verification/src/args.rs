//! The parsed argument set: the library's own record of what one run of the
//! token parser produced — for each option identifier, its raw textual
//! values and whether the value was given explicitly in the parsed token
//! sequence or filled in from a schema default.

use vstd::prelude::*;

verus! {

/// Where the token parser reports a value came from.
#[derive(Clone, Copy, PartialEq, Eq, Structural, Debug)]
pub enum ValueOrigin {
    /// The value was written in the parsed token sequence itself.
    Tokens,
    /// The value was filled in from the schema's default.
    SchemaDefault,
    /// The parser reported some other origin.
    Other,
}

/// One option identifier of a parsed argument set, with its raw textual
/// values (absent for synthetic identifiers that carry no value) and
/// whether it was explicitly present in the parsed tokens.
#[derive(Debug)]
pub struct ArgEntry {
    pub id: String,
    pub raw: Option<Vec<String>>,
    pub explicit: bool,
}

impl ArgEntry {
    /// The raw values as character sequences.
    pub open spec fn raw_spec(self) -> Option<Seq<Seq<char>>> {
        match self.raw {
            Some(vs) => Some(vs@.map_values(|v: String| v@)),
            None => None,
        }
    }
}

/// A parsed argument set: one entry per option identifier, in the order the
/// token parser listed them.
#[derive(Debug)]
pub struct ParsedSet {
    pub entries: Vec<ArgEntry>,
}

impl ParsedSet {
    /// The identifiers of the set, in listed order.
    pub open spec fn ids_spec(self) -> Seq<Seq<char>> {
        self.entries@.map_values(|e: ArgEntry| e.id@)
    }

    /// The first entry carrying the given identifier, if any.
    pub open spec fn lookup(self, id: Seq<char>) -> Option<ArgEntry> {
        Self::lookup_in(self.entries@, id)
    }

    pub open spec fn lookup_in(entries: Seq<ArgEntry>, id: Seq<char>) -> Option<ArgEntry>
        decreases entries.len(),
    {
        if entries.len() == 0 {
            None
        } else if entries.first().id@ == id {
            Some(entries.first())
        } else {
            Self::lookup_in(entries.drop_first(), id)
        }
    }

    /// The raw values recorded for an identifier, if the identifier is
    /// present and carries values.
    pub open spec fn raw_of(self, id: Seq<char>) -> Option<Seq<Seq<char>>> {
        match self.lookup(id) {
            Some(e) => e.raw_spec(),
            None => None,
        }
    }

    /// Whether the identifier's value was explicitly written in the parsed
    /// token sequence (rather than defaulted or absent).
    pub open spec fn explicit(self, id: Seq<char>) -> bool {
        match self.lookup(id) {
            Some(e) => e.explicit,
            None => false,
        }
    }

    /// A found entry stands at some index with the looked-up identifier;
    /// a miss means no entry carries it.
    pub proof fn lemma_lookup_in_character(entries: Seq<ArgEntry>, id: Seq<char>)
        ensures
            (match Self::lookup_in(entries, id) {
                Some(e) => exists|i: int|
                    0 <= i < entries.len() && entries[i] == e && (#[trigger] entries[i]).id@ == id,
                None => forall|i: int|
                    0 <= i < entries.len() ==> (#[trigger] entries[i]).id@ != id,
            }),
        decreases entries.len(),
    {
        if entries.len() > 0 {
            Self::lemma_lookup_in_character(entries.drop_first(), id);
            if entries.first().id@ == id {
                assert(entries[0] == entries.first());
            } else {
                match Self::lookup_in(entries.drop_first(), id) {
                    Some(e) => {
                        let i = choose|i: int|
                            0 <= i < entries.drop_first().len() && entries.drop_first()[i] == e
                                && entries.drop_first()[i].id@ == id;
                        assert(entries[i + 1] == e);
                        assert(entries[i + 1].id@ == id);
                    },
                    None => {
                        assert forall|i: int|
                            0 <= i < entries.len() implies (#[trigger] entries[i]).id@ != id by {
                            if i > 0 {
                                assert(entries.drop_first()[i - 1] == entries[i]);
                            }
                        }
                    },
                }
            }
        }
    }

    pub fn new() -> (r: ParsedSet)
        ensures
            r.entries@.len() == 0,
    {
        ParsedSet { entries: Vec::new() }
    }

    /// Append one entry.
    pub fn push(&mut self, e: ArgEntry)
        ensures
            final(self).entries@ == old(self).entries@.push(e),
    {
        self.entries.push(e);
    }

    /// Find the first entry with the given identifier.
    pub fn find(&self, id: &str) -> (r: Option<&ArgEntry>)
        ensures
            match r {
                Some(e) => self.lookup(id@) == Some(*e),
                None => self.lookup(id@) is None,
            },
    {
        let n: usize = self.entries.len();
        let mut i: usize = 0;
        proof {
            assert(self.entries@.skip(0) =~= self.entries@);
        }
        while i < n
            invariant
                i <= n == self.entries@.len(),
                Self::lookup_in(self.entries@, id@) == Self::lookup_in(
                    self.entries@.skip(i as int),
                    id@,
                ),
            decreases n - i,
        {
            proof {
                assert(self.entries@.skip(i as int).first() == self.entries@[i as int]);
            }
            if crate::text::str_lit_eq(&self.entries[i].id, id) {
                return Some(&self.entries[i]);
            }
            proof {
                assert(self.entries@.skip(i as int).drop_first() =~= self.entries@.skip(
                    i as int + 1,
                ));
            }
            i += 1;
        }
        None
    }
}

} // verus!
