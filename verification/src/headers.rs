//! The header mapping carried by requests and responses.

use vstd::prelude::*;

verus! {

/// One header as the contracts see it: name and value, both as text.
pub type Entry = (Seq<char>, Seq<char>);

// The functions below speak of any sequence of named values, so that the
// properties of an object can be written and looked up by the same rule.

/// No name occurs twice.
pub open spec fn distinct_names<V>(entries: Seq<(Seq<char>, V)>) -> bool {
    forall|i: int, j: int|
        0 <= i < entries.len() && 0 <= j < entries.len() && #[trigger] entries[i].0
            == #[trigger] entries[j].0 ==> i == j
}

/// Whether some entry carries the name.
pub open spec fn has_name<V>(entries: Seq<(Seq<char>, V)>, name: Seq<char>) -> bool {
    exists|i: int| 0 <= i < entries.len() && #[trigger] entries[i].0 == name
}

/// The place of the first entry with the name, or the length if there is none.
pub open spec fn position_of<V>(entries: Seq<(Seq<char>, V)>, name: Seq<char>) -> int
    decreases entries.len(),
{
    if entries.len() == 0 {
        0
    } else if entries[0].0 == name {
        0
    } else {
        1 + position_of(entries.drop_first(), name)
    }
}

/// Writing a header: a name already present keeps its place and takes the new
/// value, a new name goes to the end.
pub open spec fn put<V>(entries: Seq<(Seq<char>, V)>, name: Seq<char>, value: V) -> Seq<(Seq<char>, V)> {
    let at = position_of(entries, name);
    if at < entries.len() {
        entries.update(at, (name, value))
    } else {
        entries.push((name, value))
    }
}

/// Writing the given headers one after the other, starting from none.
pub open spec fn collect<V>(written: Seq<(Seq<char>, V)>) -> Seq<(Seq<char>, V)>
    decreases written.len(),
{
    if written.len() == 0 {
        Seq::empty()
    } else {
        put(collect(written.drop_last()), written.last().0, written.last().1)
    }
}

/// The mapping that a sequence of writes amounts to: the last write of a name wins.
pub open spec fn mapping_of<V>(written: Seq<(Seq<char>, V)>) -> Map<Seq<char>, V>
    decreases written.len(),
{
    if written.len() == 0 {
        Map::empty()
    } else {
        mapping_of(written.drop_last()).insert(written.last().0, written.last().1)
    }
}

/// `position_of` stays within the sequence, finds the name where it points, and
/// passes over no entry with it.
pub proof fn lemma_position_of<V>(entries: Seq<(Seq<char>, V)>, name: Seq<char>)
    ensures
        0 <= position_of(entries, name) <= entries.len(),
        position_of(entries, name) < entries.len() ==> entries[position_of(entries, name)].0
            == name,
        forall|i: int| 0 <= i < position_of(entries, name) ==> (#[trigger] entries[i]).0 != name,
        position_of(entries, name) < entries.len() <==> has_name(entries, name),
    decreases entries.len(),
{
    if entries.len() == 0 {
    } else if entries[0].0 == name {
    } else {
        let rest = entries.drop_first();
        lemma_position_of(rest, name);
        let at = position_of(rest, name);
        assert forall|i: int| 0 <= i < 1 + at implies (#[trigger] entries[i]).0 != name by {
            if i > 0 {
                assert(entries[i] == rest[i - 1]);
            }
        }
        if at < rest.len() {
            assert(entries[1 + at] == rest[at]);
        } else {
            if has_name(entries, name) {
                let i = choose|i: int| 0 <= i < entries.len() && #[trigger] entries[i].0 == name;
                assert(entries[i] == rest[i - 1]);
                assert(has_name(rest, name));
            }
        }
    }
}

/// Writing a header keeps the names distinct.
pub proof fn lemma_put_distinct<V>(entries: Seq<(Seq<char>, V)>, name: Seq<char>, value: V)
    requires
        distinct_names(entries),
    ensures
        distinct_names(put(entries, name, value)),
{
    lemma_position_of(entries, name);
    let at = position_of(entries, name);
    let after = put(entries, name, value);
    assert forall|i: int, j: int|
        0 <= i < after.len() && 0 <= j < after.len() && #[trigger] after[i].0
            == #[trigger] after[j].0 implies i == j by {
        if at < entries.len() {
            assert(after[i].0 == entries[i].0);
            assert(after[j].0 == entries[j].0);
        } else {
            if i < entries.len() && j < entries.len() {
                assert(after[i] == entries[i]);
                assert(after[j] == entries[j]);
            } else if i < entries.len() {
                assert(after[i] == entries[i]);
                assert(has_name(entries, name));
            } else if j < entries.len() {
                assert(after[j] == entries[j]);
                assert(has_name(entries, name));
            }
        }
    }
}

/// What `collect` gives has distinct names.
pub proof fn lemma_collect_distinct<V>(written: Seq<(Seq<char>, V)>)
    ensures
        distinct_names(collect(written)),
    decreases written.len(),
{
    if written.len() > 0 {
        lemma_collect_distinct(written.drop_last());
        lemma_put_distinct(collect(written.drop_last()), written.last().0, written.last().1);
    }
}

/// Headers whose names are distinct are what collecting them gives: nothing is
/// merged and nothing moves.
pub proof fn lemma_collect_of_distinct<V>(written: Seq<(Seq<char>, V)>)
    requires
        distinct_names(written),
    ensures
        collect(written) == written,
    decreases written.len(),
{
    if written.len() > 0 {
        let front = written.drop_last();
        assert forall|i: int, j: int|
            0 <= i < front.len() && 0 <= j < front.len() && #[trigger] front[i].0
                == #[trigger] front[j].0 implies i == j by {
            assert(front[i] == written[i]);
            assert(front[j] == written[j]);
        }
        lemma_collect_of_distinct(front);
        lemma_position_of(front, written.last().0);
        if has_name(front, written.last().0) {
            let i = choose|i: int| 0 <= i < front.len() && #[trigger] front[i].0 == written.last().0;
            assert(front[i] == written[i]);
            assert(written[written.len() - 1].0 == written[i].0);
        }
        assert(put(front, written.last().0, written.last().1) =~= written);
    }
}

/// A write changes the mapping at the written name and nowhere else.
pub proof fn lemma_mapping_of_put<V>(entries: Seq<(Seq<char>, V)>, name: Seq<char>, value: V)
    requires
        distinct_names(entries),
    ensures
        mapping_of(put(entries, name, value)) == mapping_of(entries).insert(name, value),
    decreases entries.len(),
{
    lemma_position_of(entries, name);
    let at = position_of(entries, name);
    let after = put(entries, name, value);
    if at >= entries.len() {
        assert(after.drop_last() =~= entries);
    } else if at == entries.len() - 1 {
        assert(after.drop_last() =~= entries.drop_last());
        assert(mapping_of(entries.drop_last()).insert(entries.last().0, entries.last().1).insert(
            name,
            value,
        ) =~= mapping_of(entries.drop_last()).insert(name, value));
    } else {
        let front = entries.drop_last();
        assert forall|i: int, j: int|
            0 <= i < front.len() && 0 <= j < front.len() && #[trigger] front[i].0
                == #[trigger] front[j].0 implies i == j by {
            assert(front[i] == entries[i]);
            assert(front[j] == entries[j]);
        }
        lemma_mapping_of_put(front, name, value);
        lemma_position_of(front, name);
        assert(front[at] == entries[at]);
        assert(has_name(front, name));
        assert(position_of(front, name) == at) by {
            let p = position_of(front, name);
            assert(front[p] == entries[p]);
        }
        assert(after.drop_last() =~= put(front, name, value));
        assert(after.last() == entries.last());
        assert(entries.last().0 != name) by {
            assert(entries[entries.len() - 1].0 == entries.last().0);
        }
        assert(mapping_of(front).insert(name, value).insert(entries.last().0, entries.last().1)
            =~= mapping_of(front).insert(entries.last().0, entries.last().1).insert(name, value));
    }
}

/// Collecting writes does not change the mapping they amount to.
pub proof fn lemma_mapping_of_collect<V>(written: Seq<(Seq<char>, V)>)
    ensures
        mapping_of(collect(written)) == mapping_of(written),
    decreases written.len(),
{
    if written.len() > 0 {
        lemma_mapping_of_collect(written.drop_last());
        lemma_collect_distinct(written.drop_last());
        lemma_mapping_of_put(collect(written.drop_last()), written.last().0, written.last().1);
    }
}

/// With distinct names, the mapping holds exactly the entries.
pub proof fn lemma_mapping_of_distinct<V>(entries: Seq<(Seq<char>, V)>)
    requires
        distinct_names(entries),
    ensures
        forall|name: Seq<char>| #[trigger]
            mapping_of(entries).contains_key(name) <==> has_name(entries, name),
        forall|i: int|
            0 <= i < entries.len() ==> mapping_of(entries)[(#[trigger] entries[i]).0]
                == entries[i].1,
    decreases entries.len(),
{
    if entries.len() > 0 {
        let front = entries.drop_last();
        assert forall|i: int, j: int|
            0 <= i < front.len() && 0 <= j < front.len() && #[trigger] front[i].0
                == #[trigger] front[j].0 implies i == j by {
            assert(front[i] == entries[i]);
            assert(front[j] == entries[j]);
        }
        lemma_mapping_of_distinct(front);
        assert forall|name: Seq<char>| #[trigger]
            mapping_of(entries).contains_key(name) <==> has_name(entries, name) by {
            if has_name(entries, name) {
                let i = choose|i: int| 0 <= i < entries.len() && #[trigger] entries[i].0 == name;
                if i < front.len() {
                    assert(front[i] == entries[i]);
                    assert(has_name(front, name));
                }
            }
            if mapping_of(entries).contains_key(name) {
                if name == entries.last().0 {
                    assert(entries[entries.len() - 1].0 == name);
                } else {
                    assert(mapping_of(front).contains_key(name));
                    assert(has_name(front, name));
                    let i = choose|i: int| 0 <= i < front.len() && #[trigger] front[i].0 == name;
                    assert(front[i] == entries[i]);
                }
            }
        }
        assert forall|i: int| 0 <= i < entries.len() implies mapping_of(entries)[(
        #[trigger] entries[i]).0] == entries[i].1 by {
            if i < front.len() {
                assert(front[i] == entries[i]);
                assert(entries[entries.len() - 1].0 == entries.last().0);
            }
        }
    }
}


/// A string-keyed mapping of header names to values. Writing a name that is
/// already present replaces its value; names are told apart exactly, byte for byte.
#[derive(Debug)]
pub struct Headers {
    entries: Vec<(String, String)>,
}

impl View for Headers {
    type V = Map<Seq<char>, Seq<char>>;

    /// The mapping itself: which names are present, and the value of each.
    closed spec fn view(&self) -> Map<Seq<char>, Seq<char>> {
        mapping_of(self.entries())
    }
}

impl Headers {
    #[verifier::type_invariant]
    spec fn names_are_distinct(self) -> bool {
        distinct_names(self.entries())
    }

    /// The headers in the order in which their names were first written. This
    /// is the order in which they go onto the wire.
    pub closed spec fn entries(self) -> Seq<Entry> {
        self.entries@.map_values(|e: (String, String)| (e.0@, e.1@))
    }

    /// The view is the mapping of the entries.
    pub proof fn lemma_view(self)
        ensures
            self@ == mapping_of(self.entries()),
    {
    }

    /// No headers.
    pub fn new() -> (r: Headers)
        ensures
            r.entries() == Seq::<Entry>::empty(),
            r@ == Map::<Seq<char>, Seq<char>>::empty(),
    {
        let r = Headers { entries: Vec::new() };
        assert(r.entries() =~= Seq::<Entry>::empty());
        r
    }

    /// How many names are present.
    pub fn len(&self) -> (n: usize)
        ensures
            n == self.entries().len(),
            distinct_names(self.entries()),
    {
        proof {
            use_type_invariant(self);
        }
        self.entries.len()
    }

    /// The name of the header at a place.
    pub fn name_at(&self, i: usize) -> (r: &String)
        requires
            i < self.entries().len(),
        ensures
            r@ == self.entries()[i as int].0,
    {
        &self.entries[i].0
    }

    /// The value of the header at a place.
    pub fn value_at(&self, i: usize) -> (r: &String)
        requires
            i < self.entries().len(),
        ensures
            r@ == self.entries()[i as int].1,
    {
        &self.entries[i].1
    }

    fn find(&self, name: &String) -> (at: usize)
        ensures
            at == position_of(self.entries(), name@),
            at <= self.entries().len(),
            at < self.entries().len() <==> has_name(self.entries(), name@),
    {
        let mut i: usize = 0;
        proof {
            lemma_position_of(self.entries(), name@);
        }
        while i < self.entries.len()
            invariant
                i <= self.entries.len(),
                self.entries().len() == self.entries.len(),
                forall|j: int| 0 <= j < i ==> (#[trigger] self.entries()[j]).0 != name@,
                i <= position_of(self.entries(), name@),
            decreases self.entries.len() - i,
        {
            if self.entries[i].0 == *name {
                proof {
                    lemma_position_of(self.entries(), name@);
                    let at = position_of(self.entries(), name@);
                    assert(self.entries()[i as int].0 == name@);
                    if at > i {
                        assert(self.entries()[i as int].0 != name@);
                    }
                }
                return i;
            }
            proof {
                lemma_position_of(self.entries(), name@);
                let at = position_of(self.entries(), name@);
                assert(self.entries()[i as int].0 != name@);
                if at == i {
                    assert(self.entries()[at].0 == name@);
                }
            }
            i += 1;
        }
        proof {
            lemma_position_of(self.entries(), name@);
        }
        i
    }

    /// Whether the name is present.
    pub fn contains(&self, name: &str) -> (r: bool)
        ensures
            r == self@.contains_key(name@),
    {
        let key = name.to_owned();
        let at = self.find(&key);
        proof {
            use_type_invariant(self);
            lemma_mapping_of_distinct(self.entries());
        }
        at < self.entries.len()
    }

    /// The value written last under the name, if any.
    pub fn get(&self, name: &str) -> (r: Option<&String>)
        ensures
            r is Some <==> self@.contains_key(name@),
            r matches Some(v) ==> v@ == self@[name@],
    {
        let key = name.to_owned();
        let at = self.find(&key);
        proof {
            use_type_invariant(self);
            lemma_mapping_of_distinct(self.entries());
            lemma_position_of(self.entries(), name@);
        }
        if at < self.entries.len() {
            Some(&self.entries[at].1)
        } else {
            None
        }
    }

    /// Writes a header. Afterwards the name maps to the value, whatever it
    /// mapped to before, and every other name is as it was.
    pub fn insert(&mut self, name: String, value: String)
        ensures
            final(self)@ == old(self)@.insert(name@, value@),
            final(self).entries() == put(old(self).entries(), name@, value@),
            distinct_names(final(self).entries()),
    {
        proof {
            use_type_invariant(&*self);
            lemma_put_distinct(self.entries(), name@, value@);
            lemma_mapping_of_put(self.entries(), name@, value@);
        }
        let at = self.find(&name);
        let ghost before = self.entries();
        let ghost after = put(before, name@, value@);
        let mut taken = Headers::new();
        core::mem::swap(self, &mut taken);
        let mut entries = taken.entries;
        if at < entries.len() {
            entries[at] = (name, value);
        } else {
            entries.push((name, value));
        }
        assert(entries@.map_values(|e: (String, String)| (e.0@, e.1@)) =~= after);
        *self = Headers { entries };
        assert(self.entries() =~= after);
    }
}

} // verus!
