//! Values and the flat variable store.
use vstd::prelude::*;
use crate::number::Num;

verus! {

/// What a variable holds.
#[derive(Debug, Clone, PartialEq, Eq)]
pub enum Value {
    Number(Num),
    Text(String),
    NumberArray(Vec<Num>),
    TextArray(Vec<String>),
}

/// The mathematical view of a [`Value`].
pub enum ValueModel {
    Number((u64, Seq<char>)),
    Text(Seq<char>),
    NumberArray(Seq<(u64, Seq<char>)>),
    TextArray(Seq<Seq<char>>),
}

impl View for Value {
    type V = ValueModel;

    open spec fn view(&self) -> ValueModel {
        match self {
            Value::Number(n) => ValueModel::Number(n@),
            Value::Text(s) => ValueModel::Text(s@),
            Value::NumberArray(v) => ValueModel::NumberArray(v@.map_values(|n: Num| n@)),
            Value::TextArray(v) => ValueModel::TextArray(v@.map_values(|s: String| s@)),
        }
    }
}

/// One name and the value bound to it.
pub struct Binding {
    pub name: String,
    pub value: Value,
}

/// The variables of a session: each name bound to at most one value.
pub struct Store {
    entries: Vec<Binding>,
    model: Ghost<Map<Seq<char>, ValueModel>>,
}

impl View for Store {
    type V = Map<Seq<char>, ValueModel>;

    closed spec fn view(&self) -> Map<Seq<char>, ValueModel> {
        self.model@
    }
}

impl Store {
    /// The entries name distinct variables and agree with the view.
    pub closed spec fn wf(&self) -> bool {
        &&& forall|i: int, j: int|
            0 <= i < j < self.entries@.len() ==> self.entries@[i].name@ != self.entries@[j].name@
        &&& forall|i: int|
            0 <= i < self.entries@.len() ==> #[trigger] self.model@.contains_key(self.entries@[i].name@)
                && self.model@[self.entries@[i].name@] == self.entries@[i].value@
        &&& forall|k: Seq<char>|
            #[trigger] self.model@.contains_key(k) ==> exists|i: int|
                0 <= i < self.entries@.len() && self.entries@[i].name@ == k
    }

    /// An empty store.
    pub fn new() -> (r: Store)
        ensures
            r.wf(),
            r@ == Map::<Seq<char>, ValueModel>::empty(),
    {
        Store { entries: Vec::new(), model: Ghost(Map::empty()) }
    }

    fn find(&self, name: &str) -> (r: Option<usize>)
        requires
            self.wf(),
        ensures
            match r {
                Some(i) => i < self.entries@.len() && self.entries@[i as int].name@ == name@,
                None => !self@.contains_key(name@),
            },
    {
        let mut i: usize = 0;
        while i < self.entries.len()
            invariant
                self.wf(),
                i <= self.entries@.len(),
                forall|j: int| 0 <= j < i ==> self.entries@[j].name@ != name@,
            decreases self.entries@.len() - i,
        {
            if crate::text::str_eq(self.entries[i].name.as_str(), name) {
                return Some(i);
            }
            i = i + 1;
        }
        None
    }

    /// The value bound to `name`, if any.
    pub fn get(&self, name: &str) -> (r: Option<&Value>)
        requires
            self.wf(),
        ensures
            match r {
                Some(v) => self@.contains_key(name@) && self@[name@] == v@,
                None => !self@.contains_key(name@),
            },
    {
        match self.find(name) {
            Some(i) => {
                assert(self.model@.contains_key(self.entries@[i as int].name@));
                Some(&self.entries[i].value)
            },
            None => None,
        }
    }

    /// Binds `name` to `value`, replacing any earlier binding and its type.
    pub fn insert(&mut self, name: String, value: Value)
        requires
            old(self).wf(),
        ensures
            final(self).wf(),
            final(self)@ == old(self)@.insert(name@, value@),
    {
        let ghost k = name@;
        let ghost v = value@;
        let ghost m = self.model@.insert(k, v);
        match self.find(name.as_str()) {
            Some(i) => {
                self.entries.set(i, Binding { name, value });
                self.model = Ghost(m);
                assert forall|key: Seq<char>| #[trigger] self.model@.contains_key(key) implies exists|j: int|
                    0 <= j < self.entries@.len() && self.entries@[j].name@ == key by {
                    if key != k {
                        assert(old(self).model@.contains_key(key));
                        let j = choose|j: int| 0 <= j < old(self).entries@.len() && old(self).entries@[j].name@ == key;
                        assert(j != i as int);
                        assert(self.entries@[j] == old(self).entries@[j]);
                    } else {
                        assert(self.entries@[i as int].name@ == key);
                    }
                }
                assert forall|j: int| 0 <= j < self.entries@.len() implies #[trigger] self.model@.contains_key(self.entries@[j].name@)
                    && self.model@[self.entries@[j].name@] == self.entries@[j].value@ by {
                    if j != i as int {
                        assert(self.entries@[j] == old(self).entries@[j]);
                        assert(old(self).model@.contains_key(old(self).entries@[j].name@));
                    }
                }
            },
            None => {
                self.entries.push(Binding { name, value });
                self.model = Ghost(m);
                assert forall|key: Seq<char>| #[trigger] self.model@.contains_key(key) implies exists|j: int|
                    0 <= j < self.entries@.len() && self.entries@[j].name@ == key by {
                    if key != k {
                        assert(old(self).model@.contains_key(key));
                        let j = choose|j: int| 0 <= j < old(self).entries@.len() && old(self).entries@[j].name@ == key;
                        assert(self.entries@[j] == old(self).entries@[j]);
                    } else {
                        assert(self.entries@[old(self).entries@.len() as int].name@ == key);
                    }
                }
                assert forall|j: int| 0 <= j < self.entries@.len() implies #[trigger] self.model@.contains_key(self.entries@[j].name@)
                    && self.model@[self.entries@[j].name@] == self.entries@[j].value@ by {
                    if j < old(self).entries@.len() {
                        assert(self.entries@[j] == old(self).entries@[j]);
                        assert(old(self).model@.contains_key(old(self).entries@[j].name@));
                    }
                }
                assert forall|a: int, b: int| 0 <= a < b < self.entries@.len() implies
                    self.entries@[a].name@ != self.entries@[b].name@ by {
                    if b == old(self).entries@.len() {
                        assert(old(self).model@.contains_key(old(self).entries@[a].name@));
                    }
                }
            },
        }
    }
}

} // verus!
