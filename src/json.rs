//! A JSON document model: rows, payloads and envelopes are values of `Json`.
use vstd::prelude::*;
use vstd::string::StringExecFns;

verus! {

broadcast use vstd::std_specs::vec::group_vec_axioms;

/// A JSON value. Numbers keep their textual form; objects keep their members in order.
#[derive(Debug, PartialEq)]
pub enum Json {
    Null,
    Bool(bool),
    Number(String),
    Str(String),
    Array(Vec<Json>),
    Object(Vec<(String, Json)>),
}

/// The mathematical form of a `Json` value.
pub enum JsonV {
    Null,
    Bool(bool),
    Number(Seq<char>),
    Str(Seq<char>),
    Array(Seq<JsonV>),
    Object(Seq<(Seq<char>, JsonV)>),
}

impl Json {
    /// The model of a value, member by member.
    pub open spec fn model(self) -> JsonV
        decreases self,
    {
        match self {
            Json::Null => JsonV::Null,
            Json::Bool(b) => JsonV::Bool(b),
            Json::Number(n) => JsonV::Number(n@),
            Json::Str(s) => JsonV::Str(s@),
            Json::Array(v) => JsonV::Array(
                Seq::new(v.len() as nat, |i: int| if 0 <= i < v.len() { v[i].model() } else { JsonV::Null }),
            ),
            Json::Object(v) => JsonV::Object(
                Seq::new(v.len() as nat, |i: int| if 0 <= i < v.len() { (v[i].0@, v[i].1.model()) } else { (Seq::empty(), JsonV::Null) }),
            ),
        }
    }
}

impl View for Json {
    type V = JsonV;

    open spec fn view(&self) -> JsonV {
        self.model()
    }
}

impl Json {
    /// A copy of this value with the same model.
    pub fn duplicate(&self) -> (r: Json)
        ensures
            r@ == self@,
    {
        copy_json(self)
    }
}

impl Clone for Json {
    fn clone(&self) -> (r: Json)
        ensures
            r@ == self@,
    {
        copy_json(self)
    }
}

fn copy_json(a: &Json) -> (r: Json)
    ensures
        r@ == a@,
    decreases a,
{
        match a {
            Json::Null => Json::Null,
            Json::Bool(b) => Json::Bool(*b),
            Json::Number(n) => Json::Number(n.clone()),
            Json::Str(t) => Json::Str(t.clone()),
            Json::Array(v) => {
                let mut out: Vec<Json> = Vec::new();
                let mut i: usize = 0;
                while i < v.len()
                    invariant
                        0 <= i <= v.len(),
                        a == Json::Array(*v),
                        out.len() == i,
                        forall|j: int| 0 <= j < i ==> out@[j]@ == v@[j]@,
                    decreases v.len() - i,
                {
                    proof {
                        assert(decreases_to!(*a => a->Array_0));
                        assert(decreases_to!(*a => v[i as int]));
                    }
                    out.push(copy_json(&v[i]));
                    i = i + 1;
                }
                let r = Json::Array(out);
                proof {
                    assert(r@->Array_0 =~= a@->Array_0);
                }
                r
            },
            Json::Object(v) => {
                let mut out: Vec<(String, Json)> = Vec::new();
                let mut i: usize = 0;
                while i < v.len()
                    invariant
                        0 <= i <= v.len(),
                        a == Json::Object(*v),
                        out.len() == i,
                        forall|j: int| 0 <= j < i ==> out@[j].0@ == v@[j].0@ && out@[j].1@ == v@[j].1@,
                    decreases v.len() - i,
                {
                    proof {
                        assert(decreases_to!(*a => a->Object_0));
                        assert(decreases_to!(*a => v[i as int].1));
                    }
                    out.push((v[i].0.clone(), copy_json(&v[i].1)));
                    i = i + 1;
                }
                let r = Json::Object(out);
                proof {
                    assert(r@->Object_0 =~= a@->Object_0);
                }
                r
            },
        }
}

/// The models of a list of members.
pub open spec fn members_view(ms: Seq<(String, Json)>) -> Seq<(Seq<char>, JsonV)> {
    ms.map_values(|e: (String, Json)| (e.0@, e.1@))
}

/// An object with the given members, in order.
pub fn object(ms: Vec<(String, Json)>) -> (r: Json)
    ensures
        r@ == JsonV::Object(members_view(ms@)),
{
    let r = Json::Object(ms);
    proof {
        assert(r@->Object_0 =~= members_view(ms@));
    }
    r
}

/// The value of the first member named `key`.
pub open spec fn member(ms: Seq<(Seq<char>, JsonV)>, key: Seq<char>) -> Option<JsonV>
    decreases ms.len(),
{
    if ms.len() == 0 {
        None
    } else if ms[0].0 == key {
        Some(ms[0].1)
    } else {
        member(ms.drop_first(), key)
    }
}

/// The member `key` of an object; nothing for any other value.
pub open spec fn get_member(v: JsonV, key: Seq<char>) -> Option<JsonV> {
    match v {
        JsonV::Object(ms) => member(ms, key),
        _ => None,
    }
}

impl Json {
    /// The member `key` of an object (the first one of that name).
    pub fn get(&self, key: &str) -> (r: Option<&Json>)
        ensures
            match r {
                Some(j) => get_member(self@, key@) == Some(j@),
                None => get_member(self@, key@) is None,
            },
    {
        match self {
            Json::Object(ms) => {
                let ghost all = self@->Object_0;
                let wanted = String::from_str(key);
                let mut i: usize = 0;
                proof {
                    assert(all.subrange(0, all.len() as int) =~= all);
                }
                while i < ms.len()
                    invariant
                        *self == Json::Object(*ms),
                        wanted@ == key@,
                        all == self@->Object_0,
                        all.len() == ms.len(),
                        0 <= i <= ms.len(),
                        member(all.subrange(i as int, all.len() as int), key@) == member(all, key@),
                    decreases ms.len() - i,
                {
                    let ghost rest = all.subrange(i as int, all.len() as int);
                    proof {
                        assert(rest[0] == all[i as int]);
                        assert(all[i as int] == (ms@[i as int].0@, ms@[i as int].1@));
                        assert(rest.drop_first() =~= all.subrange(i + 1, all.len() as int));
                    }
                    if ms[i].0 == wanted {
                        return Some(&ms[i].1);
                    }
                    i = i + 1;
                }
                None
            },
            _ => None,
        }
    }

    /// Whether this is an object.
    pub fn is_object(&self) -> (r: bool)
        ensures
            r == self@ is Object,
    {
        match self {
            Json::Object(_) => true,
            _ => false,
        }
    }

    /// The text of a string value.
    pub fn as_str(&self) -> (r: Option<&str>)
        ensures
            match r {
                Some(t) => self@ == JsonV::Str(t@),
                None => !(self@ is Str),
            },
    {
        match self {
            Json::Str(t) => Some(t.as_str()),
            _ => None,
        }
    }

    /// Whether this is `null`.
    pub fn is_null(&self) -> (r: bool)
        ensures
            r == self@ is Null,
    {
        match self {
            Json::Null => true,
            _ => false,
        }
    }
}

/// Structural equality of two JSON values.
pub fn json_equal(a: &Json, b: &Json) -> (r: bool)
    ensures
        r == (a@ == b@),
    decreases a,
{
    match (a, b) {
        (Json::Null, Json::Null) => true,
        (Json::Bool(x), Json::Bool(y)) => *x == *y,
        (Json::Number(x), Json::Number(y)) => *x == *y,
        (Json::Str(x), Json::Str(y)) => *x == *y,
        (Json::Array(x), Json::Array(y)) => {
            if x.len() != y.len() {
                proof {
                    assert(a@->Array_0.len() != b@->Array_0.len());
                }
                return false;
            }
            let mut i: usize = 0;
            while i < x.len()
                invariant
                    x.len() == y.len(),
                    0 <= i <= x.len(),
                    a == Json::Array(*x),
                    b == Json::Array(*y),
                    forall|j: int| 0 <= j < i ==> x@[j]@ == y@[j]@,
                decreases x.len() - i,
            {
                proof {
                    assert(decreases_to!(*a => x[i as int]));
                }
                if !json_equal(&x[i], &y[i]) {
                    proof {
                        assert(a@->Array_0[i as int] == x@[i as int]@);
                        assert(b@->Array_0[i as int] == y@[i as int]@);
                    }
                    return false;
                }
                i = i + 1;
            }
            proof {
                assert(a@->Array_0 =~= b@->Array_0);
            }
            true
        }
        (Json::Object(x), Json::Object(y)) => {
            if x.len() != y.len() {
                proof {
                    assert(a@->Object_0.len() != b@->Object_0.len());
                }
                return false;
            }
            let mut i: usize = 0;
            while i < x.len()
                invariant
                    x.len() == y.len(),
                    0 <= i <= x.len(),
                    a == Json::Object(*x),
                    b == Json::Object(*y),
                    forall|j: int| 0 <= j < i ==> x@[j].0@ == y@[j].0@ && x@[j].1@ == y@[j].1@,
                decreases x.len() - i,
            {
                if x[i].0 != y[i].0 {
                    proof {
                        assert(a@->Object_0[i as int].0 == x@[i as int].0@);
                        assert(b@->Object_0[i as int].0 == y@[i as int].0@);
                    }
                    return false;
                }
                proof {
                    assert(decreases_to!(*a => x[i as int].1));
                }
                if !json_equal(&x[i].1, &y[i].1) {
                    proof {
                        assert(a@->Object_0[i as int].1 == x@[i as int].1@);
                        assert(b@->Object_0[i as int].1 == y@[i as int].1@);
                    }
                    return false;
                }
                i = i + 1;
            }
            proof {
                assert(a@->Object_0 =~= b@->Object_0);
            }
            true
        }
        _ => false,
    }
}

} // verus!
