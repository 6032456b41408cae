use vstd::prelude::*;
use crate::text::{lower_of, lowercase, strip_quotes, trim_quotes};

verus! {

/// A member value of a variables file, as the JSON parser gave it.
#[derive(Debug)]
pub enum StoreValue {
    /// A JSON string: its content.
    Text(String),
    /// Any other JSON value: its JSON text (`5`, `true`, `null`, ...).
    Literal(String),
}

/// What a member value substitutes as: a string's own content, or the JSON
/// text of any other value with its surrounding quotes stripped.
pub open spec fn value_text(v: StoreValue) -> Seq<char> {
    match v {
        StoreValue::Text(s) => s@,
        StoreValue::Literal(t) => strip_quotes(t@),
    }
}

/// A flat mapping from lower-cased variable names to replacement strings.
/// Where a name occurs more than once, the last entry wins.
#[derive(Debug)]
pub struct VariableStore {
    pub entries: Vec<(String, String)>,
}

/// The value of the last entry of `es` whose name is `key`.
pub open spec fn find(es: Seq<(String, String)>, key: Seq<char>) -> Option<Seq<char>>
    decreases es.len(),
{
    if es.len() == 0 {
        None
    } else if es.last().0@ == key {
        Some(es.last().1@)
    } else {
        find(es.drop_last(), key)
    }
}

impl VariableStore {
    /// The value that the store holds for `key`.
    pub open spec fn get_spec(&self, key: Seq<char>) -> Option<Seq<char>> {
        find(self.entries@, key)
    }

    /// Builds a store from the members of a JSON object, in document order:
    /// each name lower-cased, each value reduced to its text.
    pub fn from_members(members: &Vec<(String, StoreValue)>) -> (r: VariableStore)
        ensures
            r.entries@.len() == members@.len(),
            forall|i: int|
                0 <= i < members@.len() ==> {
                    &&& (#[trigger] r.entries@[i]).0@ == lower_of(members@[i].0@)
                    &&& r.entries@[i].1@ == value_text(members@[i].1)
                },
    {
        let mut entries: Vec<(String, String)> = Vec::new();
        let mut i: usize = 0;
        while i < members.len()
            invariant
                i <= members@.len(),
                entries@.len() == i,
                forall|k: int|
                    0 <= k < i ==> {
                        &&& (#[trigger] entries@[k]).0@ == lower_of(members@[k].0@)
                        &&& entries@[k].1@ == value_text(members@[k].1)
                    },
            decreases members@.len() - i,
        {
            let key = lowercase(members[i].0.as_str());
            let value = match &members[i].1 {
                StoreValue::Text(s) => s.clone(),
                StoreValue::Literal(t) => trim_quotes(t.as_str()),
            };
            entries.push((key, value));
            i = i + 1;
        }
        VariableStore { entries }
    }

    /// The value held for `key`; where several entries carry it, the last.
    pub fn get(&self, key: &String) -> (r: Option<String>)
        ensures
            r matches Some(v) ==> self.get_spec(key@) == Some(v@),
            r is None ==> self.get_spec(key@) is None,
    {
        let mut i = self.entries.len();
        assert(self.entries@.subrange(0, i as int) =~= self.entries@);
        while i > 0
            invariant
                i <= self.entries@.len(),
                find(self.entries@, key@) == find(self.entries@.subrange(0, i as int), key@),
            decreases i,
        {
            let ghost es = self.entries@.subrange(0, i as int);
            assert(es.drop_last() =~= self.entries@.subrange(0, i - 1));
            if self.entries[i - 1].0 == *key {
                return Some(self.entries[i - 1].1.clone());
            }
            i = i - 1;
        }
        assert(self.entries@.subrange(0, 0).len() == 0);
        None
    }
}

} // verus!
