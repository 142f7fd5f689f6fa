use vstd::prelude::*;
use crate::json::{
    JsonValue, Json, model, model_items, model_entries, lookup, find_key, object_get,
    lemma_model_items, lemma_model_entries,
};

verus! {

/// What a caller asks for under one output key.
#[derive(Debug, PartialEq)]
pub enum Field {
    /// The value of the named field of the source object.
    Column { column: String },
    /// A related collection; this connector supplies none.
    Relationship { relationship: String },
}

/// The source column of a field, if it is a column.
pub open spec fn field_column(f: Field) -> Option<Seq<char>> {
    match f {
        Field::Column { column } => Some(column@),
        Field::Relationship { .. } => None,
    }
}

/// The model of a projection: output key and source column (if any), in order.
pub open spec fn fields_model(fs: Vec<(String, Field)>) -> Seq<(Seq<char>, Option<Seq<char>>)> {
    Seq::new(fs.len() as nat, |i: int| (fs[i].0@, field_column(fs[i].1)))
}

pub open spec fn spec_model(s: Option<Vec<(String, Field)>>) -> Option<Seq<(Seq<char>, Option<Seq<char>>)>> {
    match s {
        None => None,
        Some(fs) => Some(fields_model(fs)),
    }
}

/// The entries built from object `o` for the first `n` requested fields:
/// each column field yields its output key with the column's value, or null
/// where the column is absent; other fields yield nothing.
pub open spec fn project_entries(
    o: Seq<(Seq<char>, Json)>,
    fs: Seq<(Seq<char>, Option<Seq<char>>)>,
    n: nat,
) -> Seq<(Seq<char>, Json)>
    decreases n,
{
    if n == 0 || n > fs.len() {
        Seq::empty()
    } else {
        let rest = project_entries(o, fs, (n - 1) as nat);
        match fs[n - 1].1 {
            Some(c) => rest.push(
                (
                    fs[n - 1].0,
                    match lookup(o, c) {
                        Some(v) => v,
                        None => Json::Null,
                    },
                ),
            ),
            None => rest,
        }
    }
}

/// The projections of the first `n` items of an array.
pub open spec fn project_items(
    a: Seq<Json>,
    fs: Seq<(Seq<char>, Option<Seq<char>>)>,
    n: nat,
) -> Seq<Json>
    decreases a, n,
{
    if n == 0 || n > a.len() {
        Seq::empty()
    } else {
        project_items(a, fs, (n - 1) as nat).push(project(a[n - 1], Some(fs)))
    }
}

/// A value restricted to the requested fields: objects are rebuilt from the
/// requested keys, arrays are projected item by item, scalars stay as they are.
pub open spec fn project(v: Json, s: Option<Seq<(Seq<char>, Option<Seq<char>>)>>) -> Json
    decreases v, 0nat,
{
    match s {
        None => v,
        Some(fs) => match v {
            Json::Object(o) => Json::Object(project_entries(o, fs, fs.len())),
            Json::Array(a) => Json::Array(project_items(a, fs, a.len())),
            _ => v,
        },
    }
}

proof fn lemma_project_items(a: Seq<Json>, fs: Seq<(Seq<char>, Option<Seq<char>>)>, n: nat)
    requires
        n <= a.len(),
    ensures
        project_items(a, fs, n).len() == n,
        forall|j: int|
            0 <= j < n ==> #[trigger] project_items(a, fs, n)[j] == project(a[j], Some(fs)),
    decreases n,
{
    if n > 0 {
        lemma_project_items(a, fs, (n - 1) as nat);
    }
}

/// Projecting an array projects each of its items with the same fields, in
/// order, and keeps its length.
pub proof fn lemma_project_distributes_over_arrays(
    a: Seq<Json>,
    s: Option<Seq<(Seq<char>, Option<Seq<char>>)>>,
)
    ensures
        project(Json::Array(a), s) is Array,
        project(Json::Array(a), s)->Array_0.len() == a.len(),
        forall|j: int|
            0 <= j < a.len() ==> #[trigger] project(Json::Array(a), s)->Array_0[j] == project(
                a[j],
                s,
            ),
{
    match s {
        None => {},
        Some(fs) => {
            lemma_project_items(a, fs, a.len());
        },
    }
}

/// Each column field of the projection reads the column named like its own
/// output key.
pub open spec fn keeps_names(fs: Seq<(Seq<char>, Option<Seq<char>>)>) -> bool {
    forall|j: int| 0 <= j < fs.len() && (#[trigger] fs[j]).1 is Some ==> fs[j].1 == Some(fs[j].0)
}

pub open spec fn value_or_null(o: Seq<(Seq<char>, Json)>, c: Seq<char>) -> Json {
    match lookup(o, c) {
        Some(v) => v,
        None => Json::Null,
    }
}

proof fn lemma_entries_shape(o: Seq<(Seq<char>, Json)>, fs: Seq<(Seq<char>, Option<Seq<char>>)>, n: nat)
    requires
        keeps_names(fs),
        n <= fs.len(),
    ensures
        forall|j: int|
            0 <= j < project_entries(o, fs, n).len() ==> (#[trigger] project_entries(o, fs, n)[j]).1
                == value_or_null(o, project_entries(o, fs, n)[j].0),
        forall|m: int|
            0 <= m < n && (#[trigger] fs[m]).1 is Some ==> exists|j: int|
                0 <= j < project_entries(o, fs, n).len() && (#[trigger] project_entries(o, fs, n)[j]).0
                    == fs[m].0,
    decreases n,
{
    if n > 0 {
        lemma_entries_shape(o, fs, (n - 1) as nat);
        let rest = project_entries(o, fs, (n - 1) as nat);
        let pe = project_entries(o, fs, n);
        assert(fs[n - 1].1 is Some ==> fs[n - 1].1 == Some(fs[n - 1].0));
        assert forall|m: int| 0 <= m < n && (#[trigger] fs[m]).1 is Some implies exists|j: int|
            0 <= j < pe.len() && (#[trigger] pe[j]).0 == fs[m].0 by {
            if m == n - 1 {
                assert(pe[pe.len() - 1].0 == fs[m].0);
            } else {
                let j = choose|j: int| 0 <= j < rest.len() && (#[trigger] rest[j]).0 == fs[m].0;
                assert(pe[j] == rest[j]);
            }
        }
    }
}

proof fn lemma_find_uniform(s: Seq<(Seq<char>, Json)>, k: Seq<char>, w: Json, i: int, j0: int)
    requires
        0 <= i <= j0 < s.len(),
        s[j0].0 == k,
        forall|j: int| 0 <= j < s.len() && (#[trigger] s[j]).0 == k ==> s[j].1 == w,
    ensures
        find_key(s, k, i) == Some(w),
    decreases j0 - i,
{
    if s[i].0 != k {
        lemma_find_uniform(s, k, w, i + 1, j0);
    }
}

proof fn lemma_entries_idempotent(
    o: Seq<(Seq<char>, Json)>,
    fs: Seq<(Seq<char>, Option<Seq<char>>)>,
    n: nat,
)
    requires
        keeps_names(fs),
        n <= fs.len(),
    ensures
        project_entries(project_entries(o, fs, fs.len()), fs, n) == project_entries(o, fs, n),
    decreases n,
{
    if n > 0 {
        lemma_entries_idempotent(o, fs, (n - 1) as nat);
        let pe = project_entries(o, fs, fs.len());
        lemma_entries_shape(o, fs, fs.len());
        match fs[n - 1].1 {
            Some(c) => {
                assert(fs[n - 1].1 == Some(fs[n - 1].0));
                let m = n - 1;
                assert(0 <= m < fs.len() && fs[m].1 is Some);
                let j0 = choose|j: int| 0 <= j < pe.len() && (#[trigger] pe[j]).0 == fs[m].0;
                lemma_find_uniform(pe, c, value_or_null(o, c), 0, j0);
            },
            None => {},
        }
    }
}

/// Projecting twice with the same fields gives what projecting once gives,
/// where every column field reads the column named like its own output key.
pub proof fn lemma_project_idempotent(v: Json, fs: Seq<(Seq<char>, Option<Seq<char>>)>)
    requires
        keeps_names(fs),
    ensures
        project(project(v, Some(fs)), Some(fs)) == project(v, Some(fs)),
    decreases v,
{
    match v {
        Json::Object(o) => {
            lemma_entries_idempotent(o, fs, fs.len());
        },
        Json::Array(a) => {
            let p = project_items(a, fs, a.len());
            lemma_project_items(a, fs, a.len());
            lemma_project_items(p, fs, p.len());
            assert forall|j: int| 0 <= j < a.len() implies #[trigger] project(p[j], Some(fs)) == p[j] by {
                assert(decreases_to!(v => a));
                lemma_project_idempotent(a[j], fs);
            }
            assert(project_items(p, fs, p.len()) =~= p);
        },
        _ => {},
    }
}

/// Restricts `response` to the requested fields.
pub fn process_fields(response: &JsonValue, fields: &Option<Vec<(String, Field)>>) -> (r: JsonValue)
    ensures
        model(r) == project(model(*response), spec_model(*fields)),
    decreases *response,
{
    match fields {
        None => response.deep_copy(),
        Some(fs) => match response {
            JsonValue::Object(o) => {
                let ghost om = model_entries(*o, o.len() as nat);
                let ghost fm = fields_model(*fs);
                let mut out: Vec<(String, JsonValue)> = Vec::new();
                let mut i: usize = 0;
                proof {
                    lemma_model_entries(out, 0);
                }
                while i < fs.len()
                    invariant
                        i <= fs.len(),
                        om == model_entries(*o, o.len() as nat),
                        fm == fields_model(*fs),
                        model_entries(out, out.len() as nat) == project_entries(om, fm, i as nat),
                    decreases fs.len() - i,
                {
                    let ghost before = out;
                    match &fs[i].1 {
                        Field::Column { column } => {
                            let v = match object_get(o, column) {
                                None => JsonValue::Null,
                                Some(v) => v.deep_copy(),
                            };
                            out.push((fs[i].0.clone(), v));
                            proof {
                                lemma_model_entries(before, before.len() as nat);
                                lemma_model_entries(out, out.len() as nat);
                                assert(model_entries(out, out.len() as nat) =~= model_entries(
                                    before,
                                    before.len() as nat,
                                ).push((fs[i as int].0@, model(v))));
                            }
                        },
                        Field::Relationship { .. } => {},
                    }
                    i = i + 1;
                }
                JsonValue::Object(out)
            },
            JsonValue::Array(a) => {
                let ghost am = model_items(*a, a.len() as nat);
                let mut out: Vec<JsonValue> = Vec::new();
                let mut i: usize = 0;
                proof {
                    assert(decreases_to!(*response => *a));
                    lemma_model_items(*a, a.len() as nat);
                }
                while i < a.len()
                    invariant
                        i <= a.len(),
                        out.len() == i,
                        am == model_items(*a, a.len() as nat),
                        am.len() == a.len(),
                        forall|j: int| 0 <= j < a.len() ==> #[trigger] am[j] == model(a[j]),
                        forall|j: int|
                            0 <= j < i ==> model(#[trigger] out[j]) == project(
                                model(a[j]),
                                spec_model(*fields),
                            ),
                        *fields == Some(*fs),
                        decreases_to!(*response => *a),
                    decreases a.len() - i,
                {
                    proof {
                        vstd::std_specs::vec::axiom_vec_index_decreases(*a, i as int);
                    }
                    let e = process_fields(&a[i], fields);
                    out.push(e);
                    i = i + 1;
                }
                proof {
                    lemma_model_items(out, out.len() as nat);
                    lemma_project_items(am, fields_model(*fs), am.len());
                    assert(model_items(out, out.len() as nat) =~= project_items(
                        am,
                        fields_model(*fs),
                        am.len(),
                    ));
                }
                JsonValue::Array(out)
            },
            _ => response.deep_copy(),
        },
    }
}

} // verus!
