use vstd::prelude::*;

verus! {

/// A JSON document held as plain values. Numbers keep their textual form.
#[derive(Debug, PartialEq)]
pub enum JsonValue {
    Null,
    Bool(bool),
    Number(String),
    Str(String),
    Array(Vec<JsonValue>),
    Object(Vec<(String, JsonValue)>),
}

/// The mathematical model of a JSON document.
pub enum Json {
    Null,
    Bool(bool),
    Number(Seq<char>),
    Str(Seq<char>),
    Array(Seq<Json>),
    Object(Seq<(Seq<char>, Json)>),
}

pub open spec fn model(v: JsonValue) -> Json
    decreases v, 0nat,
{
    match v {
        JsonValue::Null => Json::Null,
        JsonValue::Bool(b) => Json::Bool(b),
        JsonValue::Number(n) => Json::Number(n@),
        JsonValue::Str(s) => Json::Str(s@),
        JsonValue::Array(a) => Json::Array(model_items(a, a.len() as nat)),
        JsonValue::Object(o) => Json::Object(model_entries(o, o.len() as nat)),
    }
}

/// The models of the first `n` items of `a`.
pub open spec fn model_items(a: Vec<JsonValue>, n: nat) -> Seq<Json>
    decreases a, n,
{
    if n == 0 || n > a.len() {
        Seq::empty()
    } else {
        model_items(a, (n - 1) as nat).push(model(a[n - 1]))
    }
}

/// The models of the first `n` entries of `o`.
pub open spec fn model_entries(o: Vec<(String, JsonValue)>, n: nat) -> Seq<(Seq<char>, Json)>
    decreases o, n,
{
    if n == 0 || n > o.len() {
        Seq::empty()
    } else {
        model_entries(o, (n - 1) as nat).push((o[n - 1].0@, model(o[n - 1].1)))
    }
}

pub proof fn lemma_model_items(a: Vec<JsonValue>, n: nat)
    requires
        n <= a.len(),
    ensures
        model_items(a, n).len() == n,
        forall|j: int| 0 <= j < n ==> #[trigger] model_items(a, n)[j] == model(a[j]),
    decreases n,
{
    if n > 0 {
        lemma_model_items(a, (n - 1) as nat);
    }
}

pub proof fn lemma_model_entries(o: Vec<(String, JsonValue)>, n: nat)
    requires
        n <= o.len(),
    ensures
        model_entries(o, n).len() == n,
        forall|j: int| 0 <= j < n ==> #[trigger] model_entries(o, n)[j] == (o[j].0@, model(o[j].1)),
    decreases n,
{
    if n > 0 {
        lemma_model_entries(o, (n - 1) as nat);
    }
}

/// The value under key `k` in the entries `o`, searching from index `i` on;
/// the first entry with that key wins.
pub open spec fn find_key(o: Seq<(Seq<char>, Json)>, k: Seq<char>, i: int) -> Option<Json>
    decreases o.len() - i,
{
    if i < 0 || i >= o.len() {
        None
    } else if o[i].0 == k {
        Some(o[i].1)
    } else {
        find_key(o, k, i + 1)
    }
}

pub open spec fn lookup(o: Seq<(Seq<char>, Json)>, k: Seq<char>) -> Option<Json> {
    find_key(o, k, 0)
}

impl JsonValue {
    /// A copy of the value, entry for entry.
    pub fn deep_copy(&self) -> (r: JsonValue)
        ensures
            model(r) == model(*self),
        decreases *self,
    {
        match self {
            JsonValue::Null => JsonValue::Null,
            JsonValue::Bool(b) => JsonValue::Bool(*b),
            JsonValue::Number(n) => JsonValue::Number(n.clone()),
            JsonValue::Str(s) => JsonValue::Str(s.clone()),
            JsonValue::Array(a) => {
                let mut out: Vec<JsonValue> = Vec::new();
                let mut i: usize = 0;
                proof {
                    assert(decreases_to!(*self => *a));
                }
                while i < a.len()
                    invariant
                        i <= a.len(),
                        out.len() == i,
                        forall|j: int| 0 <= j < i ==> model(#[trigger] out[j]) == model(a[j]),
                        decreases_to!(*self => *a),
                    decreases a.len() - i,
                {
                    proof {
                        vstd::std_specs::vec::axiom_vec_index_decreases(*a, i as int);
                        assert(decreases_to!(*a => a[i as int]));
                    }
                    let e = a[i].deep_copy();
                    out.push(e);
                    i = i + 1;
                }
                proof {
                    lemma_model_items(*a, a.len() as nat);
                    lemma_model_items(out, out.len() as nat);
                    assert(model_items(out, out.len() as nat) =~= model_items(*a, a.len() as nat));
                }
                JsonValue::Array(out)
            },
            JsonValue::Object(o) => {
                let mut out: Vec<(String, JsonValue)> = Vec::new();
                let mut i: usize = 0;
                proof {
                    assert(decreases_to!(*self => *o));
                }
                while i < o.len()
                    invariant
                        i <= o.len(),
                        out.len() == i,
                        forall|j: int|
                            0 <= j < i ==> (#[trigger] out[j]).0@ == o[j].0@ && model(out[j].1)
                                == model(o[j].1),
                        decreases_to!(*self => *o),
                    decreases o.len() - i,
                {
                    let k = o[i].0.clone();
                    proof {
                        vstd::std_specs::vec::axiom_vec_index_decreases(*o, i as int);
                        assert(decreases_to!(*o => o[i as int]));
                        assert(decreases_to!(o[i as int] => o[i as int].1));
                    }
                    let e = o[i].1.deep_copy();
                    out.push((k, e));
                    i = i + 1;
                }
                proof {
                    lemma_model_entries(*o, o.len() as nat);
                    lemma_model_entries(out, out.len() as nat);
                    assert(model_entries(out, out.len() as nat) =~= model_entries(*o, o.len() as nat));
                }
                JsonValue::Object(out)
            },
        }
    }
}

/// Looks up key `k` among the entries of an object; the first entry with that key wins.
pub fn object_get<'a>(o: &'a Vec<(String, JsonValue)>, k: &String) -> (r: Option<&'a JsonValue>)
    ensures
        match r {
            Some(v) => lookup(model_entries(*o, o.len() as nat), k@) == Some(model(*v)),
            None => lookup(model_entries(*o, o.len() as nat), k@) is None,
        },
{
    let ghost m = model_entries(*o, o.len() as nat);
    proof {
        lemma_model_entries(*o, o.len() as nat);
    }
    let mut i: usize = 0;
    while i < o.len()
        invariant
            i <= o.len(),
            m.len() == o.len(),
            m == model_entries(*o, o.len() as nat),
            forall|j: int| 0 <= j < o.len() ==> #[trigger] m[j] == (o[j].0@, model(o[j].1)),
            find_key(m, k@, 0) == find_key(m, k@, i as int),
        decreases o.len() - i,
    {
        if o[i].0 == *k {
            return Some(&o[i].1);
        }
        i = i + 1;
    }
    None
}

} // verus!
