//! Maps from texts.
use vstd::prelude::*;

use rustc_hash::FxHashMap;

verus! {

/// The hasher of `rustc_hash`.
#[verifier::external_type_specification]
#[verifier::external_body]
pub struct ExFxBuildHasher(rustc_hash::FxBuildHasher);

/// What a map of `rustc_hash` holds.
pub uninterp spec fn entries(map: FxHashMap<String, usize>) -> Map<Seq<char>, usize>;

/// The map without keys.
pub open spec fn nothing() -> Map<Seq<char>, usize> {
    Map::empty()
}

/// `FxHashMap::default` is empty.
#[verifier::external_body]
fn fx_default() -> (r: FxHashMap<String, usize>)
    ensures
        entries(r) == nothing(),
{
    FxHashMap::default()
}

/// `FxHashMap::insert` sets the value of a key and leaves the other keys alone.
#[verifier::external_body]
fn fx_insert(map: &mut FxHashMap<String, usize>, key: String, value: usize)
    ensures
        entries(*final(map)) == entries(*old(map)).insert(key@, value),
{
    map.insert(key, value);
}

/// `FxHashMap::get` gives the value of a key, if the map has the key.
#[verifier::external_body]
fn fx_get(map: &FxHashMap<String, usize>, key: &str) -> (r: Option<usize>)
    ensures
        r == if entries(*map).contains_key(key@) {
            Some(entries(*map)[key@])
        } else {
            None
        },
{
    map.get(key).copied()
}

/// `FxHashMap::clone` holds the same.
#[verifier::external_body]
fn fx_clone(map: &FxHashMap<String, usize>) -> (r: FxHashMap<String, usize>)
    ensures
        entries(r) == entries(*map),
{
    map.clone()
}

/// A value that can be copied as far as its deep view tells.
pub trait Duplicate: DeepView + Sized {
    fn duplicate(&self) -> (r: Self)
        ensures
            r.deep_view() == self.deep_view(),
    ;
}

impl Duplicate for String {
    fn duplicate(&self) -> (r: String) {
        self.clone()
    }
}

impl<T: Duplicate> Duplicate for Option<T> {
    fn duplicate(&self) -> (r: Option<T>) {
        match self {
            Some(t) => Some(t.duplicate()),
            None => None,
        }
    }
}

impl<T: Duplicate> Duplicate for Vec<T> {
    fn duplicate(&self) -> (r: Vec<T>) {
        let mut out: Vec<T> = Vec::new();
        let mut i: usize = 0;
        while i < self.len()
            invariant
                i <= self.len(),
                out.len() == i,
                forall|k: int| 0 <= k < i ==> #[trigger] out@[k].deep_view() == self@[k].deep_view(),
            decreases self.len() - i,
        {
            out.push(self[i].duplicate());
            i += 1;
        }
        assert(out.deep_view() =~= self.deep_view());
        out
    }
}

/// A map from texts to values.
#[derive(Debug)]
pub struct TextMap<V> {
    places: FxHashMap<String, usize>,
    values: Vec<V>,
}

impl<V> TextMap<V> {
    /// Every key has a place among the values.
    #[verifier::type_invariant]
    spec fn placed(self) -> bool {
        forall|k: Seq<char>| #[trigger]
            entries(self.places).contains_key(k) ==> entries(self.places)[k] < self.values@.len()
    }

    /// The values by their keys.
    pub closed spec fn map(self) -> Map<Seq<char>, V> {
        entries(self.places).map_values(|i: usize| self.values@[i as int])
    }

    pub fn new() -> (r: TextMap<V>)
        ensures
            r.map() == Map::<Seq<char>, V>::empty(),
    {
        let r = TextMap { places: fx_default(), values: Vec::new() };
        assert(r.map() =~= Map::<Seq<char>, V>::empty());
        r
    }

    /// Sets the value of a key.
    pub fn insert(&mut self, key: String, value: V)
        ensures
            final(self).map() == old(self).map().insert(key@, value),
    {
        proof {
            use_type_invariant(&*self);
        }
        let mut places = fx_default();
        let mut values: Vec<V> = Vec::new();
        std::mem::swap(&mut places, &mut self.places);
        std::mem::swap(&mut values, &mut self.values);
        let n: usize = values.len();
        values.push(value);
        fx_insert(&mut places, key, n);
        self.values = values;
        self.places = places;
        assert(self.map() =~= old(self).map().insert(key@, value));
    }

    /// The value of a key.
    pub fn get(&self, key: &str) -> (r: Option<&V>)
        ensures
            match r {
                Some(v) => self.map().contains_key(key@) && *v == self.map()[key@],
                None => !self.map().contains_key(key@),
            },
    {
        proof {
            use_type_invariant(self);
        }
        match fx_get(&self.places, key) {
            Some(i) => Some(&self.values[i]),
            None => None,
        }
    }
}

/// What a map gives for a key.
pub open spec fn at_key<V>(m: Map<Seq<char>, V>, key: Seq<char>) -> Option<V> {
    if m.contains_key(key) {
        Some(m[key])
    } else {
        None
    }
}

impl<V: DeepView> DeepView for TextMap<V> {
    type V = Map<Seq<char>, V::V>;

    open spec fn deep_view(&self) -> Map<Seq<char>, V::V> {
        self.map().map_values(|v: V| v.deep_view())
    }
}

impl<V: Duplicate> Duplicate for TextMap<V> {
    fn duplicate(&self) -> (r: TextMap<V>) {
        proof {
            use_type_invariant(self);
        }
        let values = self.values.duplicate();
        assert(values.deep_view().len() == self.values.deep_view().len());
        let r = TextMap { places: fx_clone(&self.places), values };
        assert forall|i: int| 0 <= i < self.values@.len() implies #[trigger] r.values@[i].deep_view()
            == self.values@[i].deep_view() by {
            assert(r.values.deep_view()[i] == self.values.deep_view()[i]);
        }
        assert(r.deep_view() =~= self.deep_view());
        r
    }
}

} // verus!
