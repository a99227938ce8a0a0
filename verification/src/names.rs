//! A set of texts, kept in the order in which they first came, with an
//! index by hash that finds a text without looking at all the others.

use std::collections::HashMap;
use vstd::prelude::*;
use vstd::std_specs::hash::group_hash_axioms;

verus! {

/// The texts that `items` holds, as a set.
pub open spec fn held(items: Seq<String>) -> Set<Seq<char>> {
    Set::new(|t: Seq<char>| exists|i: int| 0 <= i < items.len() && #[trigger] items[i]@ == t)
}

/// Nothing occurs twice in `items`.
pub open spec fn distinct(items: Seq<String>) -> bool {
    forall|i: int, j: int|
        0 <= i < items.len() && 0 <= j < items.len() && #[trigger] items[i]@ == #[trigger] items[j]@
            ==> i == j
}

/// Where `key` stands in `items`, if it does.
pub fn position(items: &Vec<String>, key: &String) -> (r: Option<usize>)
    ensures
        r matches Some(i) ==> i < items.len() && items@[i as int]@ == key@,
        r is None ==> !held(items@).contains(key@),
{
    let mut i: usize = 0;
    while i < items.len()
        invariant
            i <= items.len(),
            forall|j: int| 0 <= j < i ==> items@[j]@ != key@,
        decreases items.len() - i,
    {
        if items[i] == *key {
            assert(held(items@).contains(key@));
            return Some(i);
        }
        i += 1;
    }
    None
}

/// The modulus of the hash: the largest prime below 2^32.
pub const HASH_MODULUS: u64 = 4294967291;

/// The hash of a text.
pub open spec fn hash_of(s: Seq<char>) -> u64
    decreases s.len(),
{
    if s.len() == 0 {
        0
    } else {
        ((hash_of(s.drop_last()) * 33 + s.last() as u32) % (HASH_MODULUS as int)) as u64
    }
}

/// The hash of `s`.
pub fn hash_text(s: &str) -> (h: u64)
    ensures
        h == hash_of(s@),
{
    let mut h: u64 = 0;
    for c in it: s.chars()
        invariant
            it.seq() == s@,
            h == hash_of(it.seq().take(it.index() as int)),
            h < HASH_MODULUS,
    {
        proof {
            let next = it.seq().take(it.index() + 1);
            assert(next.drop_last() =~= it.seq().take(it.index() as int));
            assert(next.last() == c);
        }
        h = (h * 33 + c as u32 as u64) % HASH_MODULUS;
    }
    assert(s@.take(s@.len() as int) =~= s@);
    h
}

/// The places that the index gives for the hash `h`.
pub open spec fn bucket(index: Map<u64, Vec<usize>>, h: u64) -> Seq<usize> {
    if index.contains_key(h) {
        index[h]@
    } else {
        Seq::empty()
    }
}

/// The place `i` is among `places`.
pub open spec fn located(places: Seq<usize>, i: int) -> bool {
    exists|k: int| 0 <= k < places.len() && #[trigger] places[k] == i
}

/// The index finds every item, and every place that it gives is a place of
/// `items`.
pub open spec fn indexed(items: Seq<String>, index: Map<u64, Vec<usize>>) -> bool {
    &&& forall|i: int|
        0 <= i < items.len() ==> located(bucket(index, hash_of(#[trigger] items[i]@)), i)
    &&& forall|h: u64, k: int|
        index.contains_key(h) && 0 <= k < index[h]@.len() ==> (#[trigger] index[h]@[k]) < items.len()
}

/// A set of texts. Each text is held once.
pub struct NameSet {
    items: Vec<String>,
    index: HashMap<u64, Vec<usize>>,
}

impl View for NameSet {
    type V = Set<Seq<char>>;

    closed spec fn view(&self) -> Set<Seq<char>> {
        held(self.items@)
    }
}

impl NameSet {
    /// The texts in the order in which they were first inserted.
    pub closed spec fn listed(&self) -> Seq<String> {
        self.items@
    }

    /// Every text is held once, and the index finds each of them.
    #[verifier::type_invariant]
    pub closed spec fn wf(&self) -> bool {
        &&& distinct(self.items@)
        &&& indexed(self.items@, self.index@)
    }

    /// The list holds what the set holds, each text once.
    pub proof fn lemma_listed(&self)
        requires
            self.wf(),
        ensures
            distinct(self.listed()),
            held(self.listed()) == self@,
    {
    }

    /// The empty set.
    pub fn new() -> (r: NameSet)
        ensures
            r.wf(),
            r@ == Set::<Seq<char>>::empty(),
            r.listed().len() == 0,
    {
        let r = NameSet { items: Vec::new(), index: HashMap::new() };
        assert(r@ =~= Set::<Seq<char>>::empty());
        r
    }

    /// Where `name` stands in the list, if it is in the set.
    fn place(&self, name: &String) -> (r: Option<usize>)
        ensures
            r matches Some(i) ==> i < self.items.len() && self.items@[i as int]@ == name@,
            r is None ==> !self@.contains(name@),
    {
        broadcast use group_hash_axioms;

        proof {
            use_type_invariant(self);
        }
        let h = hash_text(name.as_str());
        match self.index.get(&h) {
            Some(places) => {
                let mut k: usize = 0;
                while k < places.len()
                    invariant
                        k <= places.len(),
                        self.wf(),
                        self.index@.contains_key(h),
                        self.index@[h] == *places,
                        forall|j: int| 0 <= j < k ==> self.items@[places@[j] as int]@ != name@,
                    decreases places.len() - k,
                {
                    let i = places[k];
                    assert(self.index@[h]@[k as int] < self.items@.len());
                    if self.items[i] == *name {
                        return Some(i);
                    }
                    k += 1;
                }
                proof {
                    if self@.contains(name@) {
                        let i = choose|i: int|
                            0 <= i < self.items@.len() && self.items@[i]@ == name@;
                        assert(located(bucket(self.index@, hash_of(self.items@[i]@)), i));
                        let j = choose|j: int| 0 <= j < places@.len() && #[trigger] places@[j] == i;
                        assert(self.items@[places@[j] as int]@ != name@);
                    }
                }
                None
            },
            None => {
                proof {
                    if self@.contains(name@) {
                        let i = choose|i: int|
                            0 <= i < self.items@.len() && self.items@[i]@ == name@;
                        assert(located(bucket(self.index@, hash_of(self.items@[i]@)), i));
                    }
                }
                None
            },
        }
    }

    /// Adds `name`. The result says whether it was new.
    pub fn insert(&mut self, name: String) -> (added: bool)
        ensures
            final(self).wf(),
            final(self)@ == old(self)@.insert(name@),
            added == !old(self)@.contains(name@),
            added ==> final(self).listed() == old(self).listed().push(name),
            !added ==> final(self).listed() == old(self).listed(),
    {
        broadcast use group_hash_axioms;

        proof {
            use_type_invariant(&*self);
        }
        if self.place(&name).is_some() {
            assert(self@ =~= self@.insert(name@));
            return false;
        }
        let h = hash_text(name.as_str());
        let mut taken = NameSet::new();
        std::mem::swap(self, &mut taken);
        let mut items = taken.items;
        let mut index = taken.index;
        let i = items.len();
        let mut places = match index.remove(&h) {
            Some(places) => places,
            None => Vec::new(),
        };
        let ghost before = bucket(old(self).index@, h);
        assert(places@ == before);
        places.push(i);
        index.insert(h, places);
        items.push(name);
        proof {
            let items = items@;
            let index = index@;
            assert(index =~= old(self).index@.insert(h, places));
            assert forall|j: int| 0 <= j < items.len() implies located(
                bucket(index, hash_of(#[trigger] items[j]@)),
                j,
            ) by {
                if j < i {
                    let g = hash_of(old(self).items@[j]@);
                    let old_places = bucket(old(self).index@, g);
                    assert(items[j] == old(self).items@[j]);
                    assert(located(old_places, j));
                    let k = choose|k: int| 0 <= k < old_places.len() && #[trigger] old_places[k] == j;
                    if g == h {
                        assert(places@[k] == j);
                    } else {
                        assert(bucket(index, g)[k] == j);
                    }
                } else {
                    assert(places@[places@.len() - 1] == j);
                }
            }
            assert forall|g: u64, k: int|
                index.contains_key(g) && 0 <= k < index[g]@.len() implies (#[trigger] index[g]@[k])
                < items.len() by {
                if g == h {
                    if k < before.len() {
                        assert(old(self).index@.contains_key(h));
                        assert(old(self).index@[h]@[k] < old(self).items@.len());
                    }
                } else {
                    assert(old(self).index@[g]@[k] < old(self).items@.len());
                }
            }
            assert forall|t: Seq<char>| held(items).contains(t) <==> old(self)@.insert(
                name@,
            ).contains(t) by {
                if old(self)@.contains(t) {
                    let j = choose|j: int|
                        0 <= j < old(self).items@.len() && old(self).items@[j]@ == t;
                    assert(items[j]@ == t);
                }
                if t == name@ {
                    assert(items[items.len() - 1]@ == t);
                }
            }
            assert(held(items) =~= old(self)@.insert(name@));
        }
        *self = NameSet { items, index };
        true
    }

    /// Whether `name` is in the set.
    pub fn contains(&self, name: &String) -> (r: bool)
        ensures
            r == self@.contains(name@),
    {
        let r = self.place(name).is_some();
        proof {
            if r {
                assert(held(self.items@).contains(name@));
            }
        }
        r
    }

    /// The number of texts held.
    pub fn len(&self) -> (n: usize)
        ensures
            n == self.listed().len(),
    {
        self.items.len()
    }

    /// The `i`-th text, in the order of insertion.
    pub fn get(&self, i: usize) -> (r: &String)
        requires
            i < self.listed().len(),
        ensures
            *r == self.listed()[i as int],
    {
        &self.items[i]
    }
}

} // verus!
