//! The header fields of one protocol message.

use vstd::prelude::*;

verus! {

/// Header fields by name. A name occurs once; setting it again replaces the
/// value that it had.
#[derive(Debug)]
pub struct Headers {
    entries: Vec<(String, String)>,
}

spec fn entry_at(entries: Seq<(String, String)>, i: int, name: Seq<char>) -> bool {
    0 <= i < entries.len() && entries[i].0@ == name
}

spec fn has_name(entries: Seq<(String, String)>, name: Seq<char>) -> bool {
    exists|i: int| entry_at(entries, i, name)
}

/// True when `entries` are the fields of `map`, each once.
pub open spec fn lists(entries: Seq<(String, String)>, map: Map<Seq<char>, Seq<char>>) -> bool {
    &&& forall|i: int|
        0 <= i < entries.len() ==> {
            let (name, value) = #[trigger] entries[i];
            map.contains_key(name@) && map[name@] == value@
        }
    &&& forall|name: Seq<char>| #[trigger]
        map.contains_key(name) ==> exists|i: int|
            0 <= i < entries.len() && (#[trigger] entries[i]).0@ == name
    &&& forall|i: int, j: int|
        0 <= i < j < entries.len() ==> #[trigger] entries[i].0@ != #[trigger] entries[j].0@
}

/// A field is listed exactly where it is set, with the value that it is set to.
pub proof fn law_listed_fields(
    entries: Seq<(String, String)>,
    map: Map<Seq<char>, Seq<char>>,
    name: Seq<char>,
    value: Seq<char>,
)
    requires
        lists(entries, map),
    ensures
        map.contains_key(name) && map[name] == value <==> exists|i: int|
            0 <= i < entries.len() && (#[trigger] entries[i]).0@ == name && entries[i].1@ == value,
{
    if map.contains_key(name) && map[name] == value {
        let i = choose|i: int| 0 <= i < entries.len() && (#[trigger] entries[i]).0@ == name;
        assert(entries[i].1@ == map[name]);
    }
}

impl View for Headers {
    type V = Map<Seq<char>, Seq<char>>;

    /// The fields as a map from names to values.
    closed spec fn view(&self) -> Map<Seq<char>, Seq<char>> {
        Map::new(
            |name: Seq<char>| has_name(self.entries@, name),
            |name: Seq<char>| self.entries@[choose|i: int| entry_at(self.entries@, i, name)].1@,
        )
    }
}

impl Clone for Headers {
    fn clone(&self) -> (headers: Headers)
        ensures
            headers@ == self@,
    {
        proof {
            use_type_invariant(self);
        }
        let mut entries: Vec<(String, String)> = Vec::new();
        let mut i: usize = 0;
        while i < self.entries.len()
            invariant
                i <= self.entries@.len(),
                entries@ == self.entries@.take(i as int),
            decreases self.entries@.len() - i,
        {
            entries.push((self.entries[i].0.clone(), self.entries[i].1.clone()));
            i += 1;
        }
        assert(entries@ == self.entries@);
        Headers { entries }
    }
}

impl Headers {
    #[verifier::type_invariant]
    spec fn names_occur_once(&self) -> bool {
        forall|i: int, j: int|
            0 <= i < j < self.entries@.len() ==> #[trigger] self.entries@[i].0@
                != #[trigger] self.entries@[j].0@
    }

    pub fn new() -> (headers: Headers)
        ensures
            headers@ == Map::<Seq<char>, Seq<char>>::empty(),
    {
        let headers = Headers { entries: Vec::new() };
        assert(headers@ =~= Map::<Seq<char>, Seq<char>>::empty());
        headers
    }

    /// Where `name` stands among the entries, or their number.
    fn position(&self, name: &str) -> (i: usize)
        ensures
            i <= self.entries@.len(),
            i < self.entries@.len() ==> self.entries@[i as int].0@ == name@,
            i == self.entries@.len() ==> forall|j: int| !entry_at(self.entries@, j, name@),
    {
        let wanted = name.to_owned();
        let mut i: usize = 0;
        while i < self.entries.len()
            invariant
                i <= self.entries@.len(),
                wanted@ == name@,
                forall|j: int| 0 <= j < i ==> !entry_at(self.entries@, j, name@),
            decreases self.entries@.len() - i,
        {
            if self.entries[i].0 == wanted {
                return i;
            }
            i += 1;
        }
        i
    }

    pub fn insert(&mut self, name: String, value: String)
        ensures
            final(self)@ == old(self)@.insert(name@, value@),
    {
        proof {
            use_type_invariant(&*self);
        }
        let i = self.position(name.as_str());
        let ghost before = self.entries@;
        let ghost map = self@;
        let ghost key = name@;
        let mut entries: Vec<(String, String)> = Vec::new();
        core::mem::swap(&mut entries, &mut self.entries);
        if i < entries.len() {
            entries[i] = (name, value);
        } else {
            entries.push((name, value));
        }
        assert forall|k: Seq<char>| k != key implies #[trigger] has_name(entries@, k)
            == has_name(before, k) by {
            if has_name(before, k) {
                let j = choose|j: int| entry_at(before, j, k);
                assert(entry_at(entries@, j, k));
            }
            if has_name(entries@, k) {
                let j = choose|j: int| entry_at(entries@, j, k);
                assert(entry_at(before, j, k));
            }
        }
        assert(entry_at(entries@, i as int, key));
        assert forall|j: int, k: int| 0 <= j < k < entries@.len() implies #[trigger] entries@[j].0@
            != #[trigger] entries@[k].0@ by {
            if i == before.len() && k == i {
                assert(!entry_at(before, j, key));
            } else {
                assert(before[j].0@ != before[k].0@);
            }
        }
        self.entries = entries;
        assert(self@ =~= map.insert(key, value@)) by {
            assert forall|k: Seq<char>| #[trigger] self@.contains_key(k) implies self@[k]
                == map.insert(key, value@)[k] by {
                let j = choose|j: int| entry_at(self.entries@, j, k);
                assert(entry_at(self.entries@, j, k));
                if k == key {
                    assert(j == i);
                } else {
                    let j2 = choose|j: int| entry_at(before, j, k);
                    assert(entry_at(before, j2, k));
                    assert(entry_at(before, j, k));
                    assert(j == j2);
                }
            }
        }
    }

    pub fn get(&self, name: &str) -> (value: Option<&String>)
        ensures
            match value {
                Some(v) => self@.contains_key(name@) && v@ == self@[name@],
                None => !self@.contains_key(name@),
            },
    {
        proof {
            use_type_invariant(self);
        }
        let i = self.position(name);
        if i < self.entries.len() {
            proof {
                assert(entry_at(self.entries@, i as int, name@));
                let j = choose|j: int| entry_at(self.entries@, j, name@);
                assert(entry_at(self.entries@, j, name@));
                assert(j == i);
            }
            Some(&self.entries[i].1)
        } else {
            None
        }
    }

    /// The fields, each once. Their order says nothing.
    pub fn entries(&self) -> (entries: &[(String, String)])
        ensures
            lists(entries@, self@),
    {
        proof {
            use_type_invariant(self);
            assert forall|i: int| 0 <= i < self.entries@.len() implies {
                let (name, value) = #[trigger] self.entries@[i];
                self@.contains_key(name@) && self@[name@] == value@
            } by {
                let name = self.entries@[i].0@;
                assert(entry_at(self.entries@, i, name));
                let j = choose|j: int| entry_at(self.entries@, j, name);
                assert(entry_at(self.entries@, j, name));
                assert(j == i);
            }
            assert forall|name: Seq<char>| #[trigger] self@.contains_key(name) implies exists|i: int|
                0 <= i < self.entries@.len() && (#[trigger] self.entries@[i]).0@ == name by {
                let i = choose|i: int| entry_at(self.entries@, i, name);
                assert(entry_at(self.entries@, i, name));
                assert(self.entries@[i].0@ == name);
            }
        }
        self.entries.as_slice()
    }
}

} // verus!
