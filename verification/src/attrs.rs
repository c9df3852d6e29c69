//! Entity attributes: a record that maps attribute names to typed values.

use vstd::prelude::*;

verus! {

/// The value of one attribute.
#[derive(Debug)]
pub enum AttrValue {
    Text(String),
    Long(i64),
    Flag(bool),
    TextSet(Vec<String>),
}

/// What an attribute value stands for.
pub enum AttrModel {
    Text(Seq<char>),
    Long(int),
    Flag(bool),
    TextSet(Seq<Seq<char>>),
}

/// A record as contracts see it: its members in order, each a name and a value.
pub type RecordModel = Seq<(Seq<char>, AttrModel)>;

/// The texts that a list of strings holds.
pub open spec fn texts(v: Seq<String>) -> Seq<Seq<char>> {
    v.map_values(|s: String| s@)
}

impl View for AttrValue {
    type V = AttrModel;

    open spec fn view(&self) -> AttrModel {
        match self {
            AttrValue::Text(s) => AttrModel::Text(s@),
            AttrValue::Long(n) => AttrModel::Long(*n as int),
            AttrValue::Flag(b) => AttrModel::Flag(*b),
            AttrValue::TextSet(v) => AttrModel::TextSet(texts(v@)),
        }
    }
}

/// One member of a record.
#[derive(Debug)]
pub struct Attribute {
    pub name: String,
    pub value: AttrValue,
}

impl View for Attribute {
    type V = (Seq<char>, AttrModel);

    open spec fn view(&self) -> (Seq<char>, AttrModel) {
        (self.name@, self.value@)
    }
}

/// Whether some member of `m` is called `name`.
pub open spec fn has_name(m: RecordModel, name: Seq<char>) -> bool {
    exists|i: int| 0 <= i < m.len() && (#[trigger] m[i]).0 == name
}

/// No two members share a name.
pub open spec fn distinct_names(m: RecordModel) -> bool {
    forall|i: int, j: int| 0 <= i < j < m.len() ==> (#[trigger] m[i]).0 != (#[trigger] m[j]).0
}

/// The index of the member called `name`.
pub open spec fn index_of(m: RecordModel, name: Seq<char>) -> int {
    choose|i: int| 0 <= i < m.len() && (#[trigger] m[i]).0 == name
}

/// The record after `name` is set to `value`: the member of that name is
/// replaced in place, or a new member is added at the end.
pub open spec fn put(m: RecordModel, name: Seq<char>, value: AttrModel) -> RecordModel {
    if has_name(m, name) {
        m.update(index_of(m, name), (name, value))
    } else {
        m.push((name, value))
    }
}

/// The record after `name` is given `value` unless it already has one.
pub open spec fn put_if_absent(m: RecordModel, name: Seq<char>, value: AttrModel) -> RecordModel {
    if has_name(m, name) {
        m
    } else {
        m.push((name, value))
    }
}

/// Setting a member keeps the names distinct.
pub proof fn lemma_put_keeps_distinct(m: RecordModel, name: Seq<char>, value: AttrModel)
    requires
        distinct_names(m),
    ensures
        distinct_names(put(m, name, value)),
        has_name(put(m, name, value), name),
        put(m, name, value).len() == if has_name(m, name) {
            m.len()
        } else {
            m.len() + 1
        },
{
    let r = put(m, name, value);
    if has_name(m, name) {
        let k = index_of(m, name);
        assert(r[k].0 == name);
        assert forall|i: int, j: int| 0 <= i < j < r.len() implies (#[trigger] r[i]).0 != (
        #[trigger] r[j]).0 by {
            assert(m[i].0 != m[j].0);
            assert(m[k].0 == name);
        }
    } else {
        assert(r[m.len() as int].0 == name);
        assert forall|i: int, j: int| 0 <= i < j < r.len() implies (#[trigger] r[i]).0 != (
        #[trigger] r[j]).0 by {
            if j < m.len() {
                assert(m[i].0 != m[j].0);
            } else {
                assert(r[i] == m[i]);
            }
        }
    }
}

/// An attribute record: members in the order in which they were first set,
/// no name twice.
#[derive(Debug)]
pub struct AttributeRecord {
    entries: Vec<Attribute>,
}

impl View for AttributeRecord {
    type V = RecordModel;

    closed spec fn view(&self) -> RecordModel {
        self.entries@.map_values(|a: Attribute| a@)
    }
}

impl AttributeRecord {
    /// The record's invariant.
    pub open spec fn wf(&self) -> bool {
        distinct_names(self@)
    }

    /// The empty record.
    pub fn new() -> (r: AttributeRecord)
        ensures
            r@ == Seq::<(Seq<char>, AttrModel)>::empty(),
            r.wf(),
    {
        let r = AttributeRecord { entries: Vec::new() };
        assert(r@ =~= Seq::<(Seq<char>, AttrModel)>::empty());
        r
    }

    /// The number of members.
    pub fn len(&self) -> (n: usize)
        ensures
            n == self@.len(),
    {
        self.entries.len()
    }

    /// The member at index `i`.
    pub fn entry(&self, i: usize) -> (a: &Attribute)
        requires
            i < self@.len(),
        ensures
            a@ == self@[i as int],
    {
        &self.entries[i]
    }

    /// The index of the first member called `name`, if there is one.
    pub fn position(&self, name: &str) -> (r: Option<usize>)
        ensures
            r is Some <==> has_name(self@, name@),
            r matches Some(i) ==> i < self@.len() && self@[i as int].0 == name@ && forall|k: int|
                0 <= k < i ==> (#[trigger] self@[k]).0 != name@,
    {
        let key = String::from_str(name);
        let mut i: usize = 0;
        while i < self.entries.len()
            invariant
                i <= self.entries@.len(),
                key@ == name@,
                forall|k: int| 0 <= k < i ==> (#[trigger] self@[k]).0 != name@,
            decreases self.entries.len() - i,
        {
            if self.entries[i].name == key {
                assert(self@[i as int].0 == name@);
                return Some(i);
            }
            assert(self@[i as int].0 != name@);
            i = i + 1;
        }
        None
    }

    /// Whether the record has a member called `name`.
    pub fn contains(&self, name: &str) -> (b: bool)
        ensures
            b == has_name(self@, name@),
    {
        self.position(name).is_some()
    }

    /// The value of the member called `name`, if there is one.
    pub fn get(&self, name: &str) -> (r: Option<&AttrValue>)
        ensures
            r is Some <==> has_name(self@, name@),
            r matches Some(v) ==> exists|i: int|
                0 <= i < self@.len() && (#[trigger] self@[i]) == (name@, v@),
    {
        match self.position(name) {
            Some(i) => {
                assert(self@[i as int] == (name@, self.entries@[i as int].value@));
                Some(&self.entries[i].value)
            },
            None => None,
        }
    }

    /// Sets `name` to `value`.
    pub fn set(&mut self, name: &str, value: AttrValue)
        requires
            old(self).wf(),
        ensures
            final(self)@ == put(old(self)@, name@, value@),
            final(self).wf(),
    {
        let ghost before = self@;
        let ghost model = value@;
        proof {
            lemma_put_keeps_distinct(before, name@, model);
        }
        let member = Attribute { name: String::from_str(name), value };
        match self.position(name) {
            Some(i) => {
                assert(index_of(before, name@) == i) by {
                    let k = index_of(before, name@);
                    if k < i {
                        assert(before[k].0 != before[i as int].0);
                    } else if i < k {
                        assert(before[i as int].0 != before[k].0);
                    }
                }
                let _ = self.entries.remove(i);
                self.entries.insert(i, member);
                assert(self@ =~= put(before, name@, model));
            },
            None => {
                self.entries.push(member);
                assert(self@ =~= put(before, name@, model));
            },
        }
    }

    /// Sets `name` to `value` unless the record already has a member of that
    /// name. Returns whether the member was added.
    pub fn set_if_absent(&mut self, name: &str, value: AttrValue) -> (added: bool)
        requires
            old(self).wf(),
        ensures
            final(self)@ == put_if_absent(old(self)@, name@, value@),
            final(self).wf(),
            added == !has_name(old(self)@, name@),
    {
        if self.contains(name) {
            false
        } else {
            self.set(name, value);
            true
        }
    }
}

} // verus!
