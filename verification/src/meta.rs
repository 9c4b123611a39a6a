//! Free-form metadata: values in the shape of JSON, and maps from text to them.
use vstd::prelude::*;

use crate::num::Num;
use crate::text::{same, Str};

verus! {

/// A metadata value.
#[derive(Debug)]
pub enum MetaValue {
    Null,
    Bool(bool),
    Number(Num),
    Text(String),
    List(Vec<MetaValue>),
    Object(MetaMap),
}

/// Values under keys, in the order in which the keys were first put.
#[derive(Debug)]
pub struct MetaMap {
    pub entries: Vec<MetaEntry>,
}

/// One key with its value.
#[derive(Debug)]
pub struct MetaEntry {
    pub key: String,
    pub value: MetaValue,
}

/// What a [`MetaValue`] holds.
#[verifier::ext_equal]
pub enum Meta {
    Null,
    Bool(bool),
    Number(Num),
    Text(Str),
    List(Seq<Meta>),
    Object(Seq<(Str, Meta)>),
}

/// What a [`MetaMap`] holds.
pub type Pairs = Seq<(Str, Meta)>;

/// What a value holds.
pub open spec fn meta(v: MetaValue) -> Meta
    decreases v,
{
    match v {
        MetaValue::Null => Meta::Null,
        MetaValue::Bool(b) => Meta::Bool(b),
        MetaValue::Number(n) => Meta::Number(n),
        MetaValue::Text(t) => Meta::Text(t@),
        MetaValue::List(l) => Meta::List(
            Seq::new(
                l@.len(),
                |i: int|
                    if 0 <= i < l@.len() {
                        meta(l@[i])
                    } else {
                        Meta::Null
                    },
            ),
        ),
        MetaValue::Object(m) => Meta::Object(pairs(m)),
    }
}

/// What a map holds.
pub open spec fn pairs(m: MetaMap) -> Pairs
    decreases m,
{
    Seq::new(
        m.entries@.len(),
        |i: int|
            if 0 <= i < m.entries@.len() {
                (m.entries@[i].key@, meta(m.entries@[i].value))
            } else {
                (Seq::empty(), Meta::Null)
            },
    )
}

impl View for MetaValue {
    type V = Meta;

    open spec fn view(&self) -> Meta {
        meta(*self)
    }
}

impl View for MetaMap {
    type V = Pairs;

    open spec fn view(&self) -> Pairs {
        pairs(*self)
    }
}

/// The first place of a key, from place `at` on.
pub open spec fn place_from(m: Pairs, key: Str, at: int) -> Option<int>
    decreases m.len() - at,
{
    if at < 0 || at >= m.len() {
        None
    } else if m[at].0 == key {
        Some(at)
    } else {
        place_from(m, key, at + 1)
    }
}

/// The first place of a key.
pub open spec fn place(m: Pairs, key: Str) -> Option<int> {
    place_from(m, key, 0)
}

/// The value under a key.
pub open spec fn lookup(m: Pairs, key: Str) -> Option<Meta> {
    match place(m, key) {
        Some(i) => Some(m[i].1),
        None => None,
    }
}

/// The text under a key, if a text stands there.
pub open spec fn lookup_text(m: Pairs, key: Str) -> Option<Str> {
    match lookup(m, key) {
        Some(Meta::Text(t)) => Some(t),
        _ => None,
    }
}

/// The map with `value` under `key`.
pub open spec fn put(m: Pairs, key: Str, value: Meta) -> Pairs {
    match place(m, key) {
        Some(i) => m.update(i, (key, value)),
        None => m.push((key, value)),
    }
}

/// The map without `key`.
pub open spec fn without(m: Pairs, key: Str) -> Pairs {
    m.filter(|e: (Str, Meta)| e.0 != key)
}

/// The map with the entries of `more` put one after the other.
pub open spec fn put_all(m: Pairs, more: Pairs) -> Pairs
    decreases more.len(),
{
    if more.len() == 0 {
        m
    } else {
        put(put_all(m, more.drop_last()), more.last().0, more.last().1)
    }
}

/// A number as JSON keeps it: one that is not finite becomes null.
pub open spec fn number_meta(x: Num) -> Meta {
    if x.is_finite() {
        Meta::Number(x)
    } else {
        Meta::Null
    }
}

proof fn lemma_place(m: Pairs, key: Str, at: int)
    requires
        0 <= at,
    ensures
        match place_from(m, key, at) {
            Some(i) => at <= i < m.len() && m[i].0 == key,
            None => true,
        },
    decreases m.len() - at,
{
    if at < m.len() && m[at].0 != key {
        lemma_place(m, key, at + 1);
    }
}

fn copy_values(l: &Vec<MetaValue>) -> (r: Vec<MetaValue>)
    ensures
        r@.len() == l@.len(),
        forall|j: int| 0 <= j < l@.len() ==> meta(#[trigger] r@[j]) == meta(l@[j]),
    decreases l,
{
    let mut out: Vec<MetaValue> = Vec::new();
    let mut i: usize = 0;
    while i < l.len()
        invariant
            i <= l@.len(),
            out@.len() == i,
            forall|j: int| 0 <= j < i ==> meta(#[trigger] out@[j]) == meta(l@[j]),
        decreases l@.len() - i,
    {
        out.push(l[i].copied());
        i = i + 1;
    }
    out
}

impl MetaValue {
    /// The same value again.
    pub fn copied(&self) -> (r: MetaValue)
        ensures
            r@ == self@,
        decreases self,
    {
        match self {
            MetaValue::Null => MetaValue::Null,
            MetaValue::Bool(b) => MetaValue::Bool(*b),
            MetaValue::Number(n) => MetaValue::Number(*n),
            MetaValue::Text(t) => MetaValue::Text(t.clone()),
            MetaValue::List(l) => {
                let r = MetaValue::List(copy_values(l));
                assert(meta(r)->List_0 =~= meta(*self)->List_0);
                r
            },
            MetaValue::Object(m) => MetaValue::Object(m.copied()),
        }
    }

    /// A number, or null for one that is not finite.
    pub fn number(x: Num) -> (r: MetaValue)
        ensures
            r@ == number_meta(x),
    {
        if x.is_finite() {
            MetaValue::Number(x)
        } else {
            MetaValue::Null
        }
    }

    /// A text.
    pub fn text(s: &str) -> (r: MetaValue)
        ensures
            r@ == Meta::Text(s@),
    {
        MetaValue::Text(s.to_owned())
    }

    /// The text, if the value is one.
    pub fn as_text(&self) -> (r: Option<String>)
        ensures
            match r {
                Some(t) => self@ == Meta::Text(t@),
                None => !(self@ is Text),
            },
    {
        match self {
            MetaValue::Text(t) => Some(t.clone()),
            _ => None,
        }
    }

    /// The number, if the value is one.
    pub fn as_number(&self) -> (r: Option<Num>)
        ensures
            match r {
                Some(n) => self@ == Meta::Number(n),
                None => !(self@ is Number),
            },
    {
        match self {
            MetaValue::Number(n) => Some(*n),
            _ => None,
        }
    }

    /// The truth value, if the value is one.
    pub fn as_bool(&self) -> (r: Option<bool>)
        ensures
            match r {
                Some(b) => self@ == Meta::Bool(b),
                None => !(self@ is Bool),
            },
    {
        match self {
            MetaValue::Bool(b) => Some(*b),
            _ => None,
        }
    }
}

impl MetaMap {
    /// The map that holds nothing.
    pub fn new() -> (r: MetaMap)
        ensures
            r@ == Seq::<(Str, Meta)>::empty(),
    {
        let r = MetaMap { entries: Vec::new() };
        assert(r@ =~= Seq::<(Str, Meta)>::empty());
        r
    }

    /// The same map again.
    pub fn copied(&self) -> (r: MetaMap)
        ensures
            r@ == self@,
        decreases self,
    {
        let mut out: Vec<MetaEntry> = Vec::new();
        let mut i: usize = 0;
        while i < self.entries.len()
            invariant
                i <= self.entries@.len(),
                out@.len() == i,
                forall|j: int|
                    0 <= j < i ==> (#[trigger] out@[j]).key@ == self.entries@[j].key@ && meta(
                        out@[j].value,
                    ) == meta(self.entries@[j].value),
            decreases self.entries@.len() - i,
        {
            let e = &self.entries[i];
            out.push(MetaEntry { key: e.key.clone(), value: e.value.copied() });
            i = i + 1;
        }
        let r = MetaMap { entries: out };
        assert(pairs(r) =~= pairs(*self));
        r
    }

    fn place_of(&self, key: &str) -> (r: Option<usize>)
        ensures
            match r {
                Some(i) => place(self@, key@) == Some(i as int) && i < self.entries@.len(),
                None => place(self@, key@) is None,
            },
    {
        let mut i: usize = 0;
        while i < self.entries.len()
            invariant
                i <= self.entries@.len(),
                place(self@, key@) == place_from(self@, key@, i as int),
            decreases self.entries@.len() - i,
        {
            assert(self@[i as int].0 == self.entries@[i as int].key@);
            if same(self.entries[i].key.as_str(), key) {
                return Some(i);
            }
            i = i + 1;
        }
        None
    }

    /// The value under a key.
    pub fn get(&self, key: &str) -> (r: Option<&MetaValue>)
        ensures
            match r {
                Some(v) => lookup(self@, key@) == Some(v@),
                None => lookup(self@, key@) is None,
            },
    {
        match self.place_of(key) {
            Some(i) => Some(&self.entries[i].value),
            None => None,
        }
    }

    /// The text under a key, if a text stands there.
    pub fn get_text(&self, key: &str) -> (r: Option<String>)
        ensures
            match r {
                Some(t) => lookup_text(self@, key@) == Some(t@),
                None => lookup_text(self@, key@) is None,
            },
    {
        match self.get(key) {
            Some(v) => v.as_text(),
            None => None,
        }
    }

    /// Puts `value` under `key`, in place of what stood there.
    pub fn insert(&mut self, key: &str, value: MetaValue)
        ensures
            final(self)@ == put(old(self)@, key@, value@),
    {
        let ghost before = self@;
        let ghost list = self.entries@;
        match self.place_of(key) {
            Some(i) => {
                self.entries.set(i, MetaEntry { key: key.to_owned(), value });
                assert(self@ =~= before.update(i as int, (key@, value@)));
            },
            None => {
                self.entries.push(MetaEntry { key: key.to_owned(), value });
                assert(self@ =~= before.push((key@, value@)));
            },
        }
    }

    /// The map with `value` under `key`.
    pub fn with(self, key: &str, value: MetaValue) -> (r: MetaMap)
        ensures
            r@ == put(self@, key@, value@),
    {
        let mut m = self;
        m.insert(key, value);
        m
    }

    /// Takes `key` out.
    pub fn remove(&mut self, key: &str)
        ensures
            final(self)@ == without(old(self)@, key@),
    {
        let mut out: MetaMap = MetaMap::new();
        let mut i: usize = 0;
        let ghost keep = |e: (Str, Meta)| e.0 != key@;
        let ghost all = self@;
        reveal(Seq::filter);
        assert(all.take(0) =~= Seq::empty());
        while i < self.entries.len()
            invariant
                i <= self.entries@.len(),
                self@ == all,
                keep == (|e: (Str, Meta)| e.0 != key@),
                out@ == all.take(i as int).filter(keep),
            decreases self.entries@.len() - i,
        {
            let e = &self.entries[i];
            let ghost before = out@;
            reveal(Seq::filter);
            assert(all.take(i + 1).drop_last() =~= all.take(i as int));
            assert(all[i as int] == (e.key@, e.value@));
            if !same(e.key.as_str(), key) {
                out.entries.push(MetaEntry { key: e.key.clone(), value: e.value.copied() });
                assert(out@ =~= before.push(all[i as int]));
            }
            i = i + 1;
        }
        assert(all.take(all.len() as int) =~= all);
        self.entries = out.entries;
        assert(self@ =~= out@);
    }

    /// Puts all entries of another map, one after the other.
    pub fn insert_all(&mut self, more: &MetaMap)
        ensures
            final(self)@ == put_all(old(self)@, more@),
    {
        let ghost start = self@;
        let mut i: usize = 0;
        while i < more.entries.len()
            invariant
                i <= more.entries@.len(),
                self@ == put_all(start, more@.take(i as int)),
            decreases more.entries@.len() - i,
        {
            let e = &more.entries[i];
            assert(more@.take(i + 1).drop_last() =~= more@.take(i as int));
            self.insert(e.key.as_str(), e.value.copied());
            i = i + 1;
        }
        assert(more@.take(more@.len() as int) =~= more@);
    }
}

} // verus!
