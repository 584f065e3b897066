//! A JSON value as the library reads it: what the host's JSON parser produced,
//! converted into plain data.
use vstd::prelude::*;

verus! {

/// A JSON value. Object members keep their order; a number is kept as the
/// text its JSON parser displays for it.
#[derive(Debug)]
pub enum Json {
    Null,
    Bool(bool),
    Number(String),
    String(String),
    Array(Vec<Json>),
    Object(Vec<(String, Json)>),
}

/// The position of the first member named `key`.
pub open spec fn entry_index(es: Seq<(String, Json)>, key: Seq<char>) -> Option<int>
    decreases es.len(),
{
    if es.len() == 0 {
        None
    } else if es[0].0@ == key {
        Some(0)
    } else {
        match entry_index(es.drop_first(), key) {
            Some(i) => Some(i + 1),
            None => None,
        }
    }
}

proof fn lemma_entry_index(es: Seq<(String, Json)>, key: Seq<char>, i: int)
    requires
        0 <= i <= es.len(),
        forall|j: int| 0 <= j < i ==> (#[trigger] es[j]).0@ != key,
    ensures
        i < es.len() && es[i].0@ == key ==> entry_index(es, key) == Some(i),
        i == es.len() ==> entry_index(es, key) is None,
    decreases i,
{
    if i > 0 {
        let d = es.drop_first();
        assert forall|j: int| 0 <= j < i - 1 implies (#[trigger] d[j]).0@ != key by {
            assert(d[j] == es[j + 1]);
        }
        lemma_entry_index(d, key, i - 1);
        if i < es.len() {
            assert(d[i - 1] == es[i]);
        }
        assert(es[0].0@ != key);
    }
}

/// The member `key` of an object (`Value::get`); nothing for other values.
pub open spec fn json_get(j: Json, key: Seq<char>) -> Option<Json> {
    match j {
        Json::Object(es) => match entry_index(es@, key) {
            Some(i) => Some(es@[i].1),
            None => None,
        },
        _ => None,
    }
}

/// The text of a string value (`Value::as_str`).
pub open spec fn json_as_str(j: Json) -> Option<Seq<char>> {
    match j {
        Json::String(s) => Some(s@),
        _ => None,
    }
}

/// The text of the string member `key`.
pub open spec fn str_at(j: Json, key: Seq<char>) -> Option<Seq<char>> {
    match json_get(j, key) {
        Some(v) => json_as_str(v),
        None => None,
    }
}

/// The value of a number that is a non-negative integer fitting in `u64`
/// (`Value::as_u64`).
pub open spec fn json_as_u64(j: Json) -> Option<u64> {
    match j {
        Json::Number(t) => crate::text::parse_u64_digits(t@),
        _ => None,
    }
}

/// The items of an array value (`Value::as_array`).
pub open spec fn json_items(j: Json) -> Option<Seq<Json>> {
    match j {
        Json::Array(v) => Some(v@),
        _ => None,
    }
}

/// The member reached by following `path` from `j`.
pub open spec fn json_path(j: Json, path: Seq<Seq<char>>) -> Option<Json>
    decreases path.len(),
{
    if path.len() == 0 {
        Some(j)
    } else {
        match json_get(j, path[0]) {
            Some(v) => json_path(v, path.drop_first()),
            None => None,
        }
    }
}

impl Json {
    /// The member `key` of an object.
    pub fn get(&self, key: &str) -> (r: Option<&Json>)
        ensures
            match r {
                Some(v) => json_get(*self, key@) == Some(*v),
                None => json_get(*self, key@) is None,
            },
    {
        match self {
            Json::Object(es) => {
                let mut i: usize = 0;
                while i < es.len()
                    invariant
                        i <= es@.len(),
                        *self == Json::Object(*es),
                        forall|j: int| 0 <= j < i ==> (#[trigger] es@[j]).0@ != key@,
                    decreases es.len() - i,
                {
                    if crate::text::str_eq(es[i].0.as_str(), key) {
                        proof {
                            lemma_entry_index(es@, key@, i as int);
                            assert(entry_index(es@, key@) == Some(i as int));
                        }
                        let r = &es[i].1;
                        assert(*r == es@[i as int].1);

                        return Some(r);
                    }
                    i = i + 1;
                }
                proof {
                    lemma_entry_index(es@, key@, i as int);
                }
                None
            },
            _ => None,
        }
    }

    /// The text of a string value.
    pub fn as_str(&self) -> (r: Option<&str>)
        ensures
            match r {
                Some(s) => json_as_str(*self) == Some(s@),
                None => json_as_str(*self) is None,
            },
    {
        match self {
            Json::String(s) => Some(s.as_str()),
            _ => None,
        }
    }

    /// The items of an array value.
    pub fn as_array(&self) -> (r: Option<&Vec<Json>>)
        ensures
            match r {
                Some(v) => json_items(*self) == Some(v@),
                None => json_items(*self) is None,
            },
    {
        match self {
            Json::Array(v) => Some(v),
            _ => None,
        }
    }

    /// The value of a non-negative integer number.
    pub fn as_u64(&self) -> (r: Option<u64>)
        ensures
            r == json_as_u64(*self),
    {
        match self {
            Json::Number(t) => crate::text::parse_u64_digits_chars(crate::text::chars_of(t.as_str()).as_slice()),
            _ => None,
        }
    }

    /// Whether this is `null`.
    pub fn is_null(&self) -> (r: bool)
        ensures
            r == (*self is Null),
    {
        match self {
            Json::Null => true,
            _ => false,
        }
    }

    /// The text of the string member `key`.
    pub fn str_member(&self, key: &str) -> (r: Option<String>)
        ensures
            crate::process::opt_str(r) == str_at(*self, key@),
    {
        match self.get(key) {
            Some(v) => match v.as_str() {
                Some(s) => Some(crate::process::own(s)),
                None => None,
            },
            None => None,
        }
    }

    /// The member reached by following `path`.
    pub fn at_path(&self, path: &[&str]) -> (r: Option<&Json>)
        ensures
            match r {
                Some(v) => json_path(*self, path@.map_values(|s: &str| s@)) == Some(*v),
                None => json_path(*self, path@.map_values(|s: &str| s@)) is None,
            },
    {
        let ghost p = path@.map_values(|s: &str| s@);
        let mut cur: &Json = self;
        let mut i: usize = 0;
        assert(p.skip(0) =~= p);
        while i < path.len()
            invariant
                i <= path@.len(),
                p == path@.map_values(|s: &str| s@),
                json_path(*self, p) == json_path(*cur, p.skip(i as int)),
            decreases path.len() - i,
        {
            assert(p.skip(i as int)[0] == path@[i as int]@);
            assert(p.skip(i as int).drop_first() =~= p.skip(i + 1));
            match cur.get(path[i]) {
                Some(next) => {
                    cur = next;
                },
                None => {
                    return None;
                },
            }
            i = i + 1;
        }
        assert(p.skip(path@.len() as int) =~= Seq::<Seq<char>>::empty());
        Some(cur)
    }
}

} // verus!
