use vstd::prelude::*;
use vstd::string::StringExecFns;
use crate::json::{JsonValue, Json, model};
use crate::projection::{Field, process_fields, project, spec_model};
use crate::positions::{FunctionArgumentPositions, index_lookup};
use crate::ordering::{
    stable_sort, insert_by_key, has_no_key, lemma_distinct_positions_ascend,
    lemma_absent_positions_keep_order,
};

verus! {

/// An argument as a caller gives it.
#[derive(Debug, PartialEq)]
pub enum Argument {
    /// A value given in the request.
    Literal { value: JsonValue },
    /// A value to be bound per row; not supported.
    Variable { name: String },
}

/// Why a query failed.
#[derive(Debug, PartialEq)]
pub enum QueryError {
    InvalidRequest(String),
    UnsupportedOperation(String),
    Other(String),
}

/// What is sent to the remote host: the function and its arguments in
/// positional order.
#[derive(Debug, PartialEq)]
pub struct FunctionInvocation {
    pub function_name: String,
    pub args: Vec<JsonValue>,
}

/// One row: field name to value.
pub type Row = Vec<(String, JsonValue)>;

/// A set of rows, with aggregates.
#[derive(Debug, PartialEq)]
pub struct RowSet {
    pub aggregates: Option<Row>,
    pub rows: Option<Vec<Row>>,
}

/// The answer to a query.
#[derive(Debug, PartialEq)]
pub struct QueryResponse(pub Vec<RowSet>);

/// What the remote host answered.
#[derive(Debug, PartialEq)]
pub enum RemoteReply {
    /// A success status, with the body read as JSON.
    Success(JsonValue),
    /// Another status, with the body as text.
    Failure(String),
}

pub open spec fn variables_unsupported() -> Seq<char> {
    "Variables in arguments not supported"@
}

/// The value of a literal argument.
pub open spec fn literal_value(a: Argument) -> JsonValue {
    match a {
        Argument::Literal { value } => value,
        Argument::Variable { .. } => JsonValue::Null,
    }
}

pub open spec fn has_variable(args: Seq<(String, Argument)>) -> bool {
    exists|i: int| 0 <= i < args.len() && (#[trigger] args[i]).1 is Variable
}

/// Each argument's value with its declared position for function `f`.
pub open spec fn keyed_args(
    idx: Map<Seq<char>, Map<Seq<char>, u32>>,
    f: Seq<char>,
    args: Seq<(String, Argument)>,
) -> Seq<(Option<u32>, JsonValue)> {
    Seq::new(args.len(), |i: int| (index_lookup(idx, f, args[i].0@), literal_value(args[i].1)))
}

/// The argument values in the order the remote host expects them.
pub open spec fn wire_args(
    idx: Map<Seq<char>, Map<Seq<char>, u32>>,
    f: Seq<char>,
    args: Seq<(String, Argument)>,
) -> Seq<JsonValue> {
    stable_sort(keyed_args(idx, f, args)).map_values(|p: (Option<u32>, JsonValue)| p.1)
}

/// The value of a literal argument, under its name.
pub fn eval_argument(arg_name: String, arg: Argument) -> (r: Result<(String, JsonValue), QueryError>)
    ensures
        match arg {
            Argument::Literal { value } => r == Ok::<(String, JsonValue), QueryError>((arg_name, value)),
            Argument::Variable { .. } => r is Err && r->Err_0 is UnsupportedOperation
                && r->Err_0->UnsupportedOperation_0@ == variables_unsupported(),
        },
{
    match arg {
        Argument::Literal { value } => Ok((arg_name, value)),
        Argument::Variable { .. } => Err(
            QueryError::UnsupportedOperation(String::from_str("Variables in arguments not supported")),
        ),
    }
}

/// The call to send for `collection` with `arguments`: the argument values
/// ordered by their declared positions, arguments without one first, ties
/// keeping the order given. Any variable argument refuses the whole call.
pub fn prepare_invocation(
    positions: &FunctionArgumentPositions,
    collection: String,
    arguments: Vec<(String, Argument)>,
) -> (r: Result<FunctionInvocation, QueryError>)
    ensures
        r is Err <==> has_variable(arguments@),
        r is Err ==> r->Err_0 is UnsupportedOperation && r->Err_0->UnsupportedOperation_0@
            == variables_unsupported(),
        r is Ok ==> r->Ok_0.function_name@ == collection@ && r->Ok_0.args@ == wire_args(
            positions@,
            collection@,
            arguments@,
        ),
{
    let ghost orig = arguments@;
    let ghost keyed = keyed_args(positions@, collection@, orig);
    let mut rest = arguments;
    let mut sorted: Vec<(Option<u32>, JsonValue)> = Vec::new();
    let ghost mut i: int = 0;
    proof {
        assert(keyed.take(0) =~= Seq::<(Option<u32>, JsonValue)>::empty());
    }
    while rest.len() > 0
        invariant
            0 <= i <= orig.len(),
            orig == arguments@,
            rest@ == orig.skip(i),
            keyed == keyed_args(positions@, collection@, orig),
            sorted@ == stable_sort(keyed.take(i)),
            forall|j: int| 0 <= j < i ==> (#[trigger] orig[j]).1 is Literal,
        decreases rest.len(),
    {
        let (name, arg) = rest.remove(0);
        assert(orig[i] == (name, arg));
        let ghost a = arg;
        match eval_argument(name, arg) {
            Err(e) => {
                assert(orig[i].1 is Variable);
                assert(has_variable(orig));
                return Err(e);
            },
            Ok((name, value)) => {
                let key = positions.get(collection.as_str(), name.as_str());
                proof {
                    assert(keyed.take(i + 1).drop_last() =~= keyed.take(i));
                    assert(keyed.take(i + 1).last() == (key, value));
                }
                insert_by_key(&mut sorted, (key, value));
                proof {
                    i = i + 1;
                    assert(rest@ =~= orig.skip(i));
                }
            },
        }
    }
    proof {
        assert(keyed.take(i) =~= keyed);
        assert(!has_variable(orig));
    }
    let ghost s = sorted@;
    let mut args: Vec<JsonValue> = Vec::new();
    let ghost mut k: int = 0;
    while sorted.len() > 0
        invariant
            0 <= k <= s.len(),
            sorted@ == s.skip(k),
            args@ == s.take(k).map_values(|p: (Option<u32>, JsonValue)| p.1),
        decreases sorted.len(),
    {
        let (_, v) = sorted.remove(0);
        args.push(v);
        proof {
            k = k + 1;
            assert(sorted@ =~= s.skip(k));
            assert(args@ =~= s.take(k).map_values(|p: (Option<u32>, JsonValue)| p.1));
        }
    }
    proof {
        assert(s.take(k) =~= s);
    }
    Ok(FunctionInvocation { function_name: collection, args })
}

/// True when `r` holds one row set, without aggregates, holding one row whose
/// one field `__value` has the value `value`.
pub open spec fn single_value_response(r: QueryResponse, value: Json) -> bool {
    &&& r.0.len() == 1
    &&& r.0[0].aggregates is None
    &&& r.0[0].rows is Some
    &&& r.0[0].rows->0.len() == 1
    &&& r.0[0].rows->0[0].len() == 1
    &&& r.0[0].rows->0[0][0].0@ == "__value"@
    &&& model(r.0[0].rows->0[0][0].1) == value
}

/// The answer to a query from what the remote host replied: a success
/// becomes one row holding the projected value, any other status an
/// invalid-request error carrying the body.
pub fn complete_query(reply: RemoteReply, fields: &Option<Vec<(String, Field)>>) -> (r: Result<
    QueryResponse,
    QueryError,
>)
    ensures
        match reply {
            RemoteReply::Success(v) => r is Ok && single_value_response(
                r->Ok_0,
                project(model(v), spec_model(*fields)),
            ),
            RemoteReply::Failure(body) => r is Err && r->Err_0 is InvalidRequest
                && r->Err_0->InvalidRequest_0 == body,
        },
{
    match reply {
        RemoteReply::Success(v) => {
            let processed = process_fields(&v, fields);
            let row: Row = vec![(String::from_str("__value"), processed)];
            let rows: Vec<Row> = vec![row];
            Ok(QueryResponse(vec![RowSet { aggregates: None, rows: Some(rows) }]))
        },
        RemoteReply::Failure(body) => Err(QueryError::InvalidRequest(body)),
    }
}

/// A scalar reply surfaces as it is, whatever fields were asked for.
pub proof fn lemma_scalar_reply_surfaces(v: Json, s: Option<Seq<(Seq<char>, Option<Seq<char>>)>>)
    requires
        !(v is Array),
        !(v is Object),
    ensures
        project(v, s) == v,
{
}

/// Where every argument has a declared position and no two share one, the
/// values sent are the arguments rearranged so that their positions
/// strictly ascend.
pub proof fn lemma_declared_positions_ascend(
    idx: Map<Seq<char>, Map<Seq<char>, u32>>,
    f: Seq<char>,
    args: Seq<(String, Argument)>,
)
    requires
        forall|i: int| 0 <= i < args.len() ==> (#[trigger] index_lookup(idx, f, args[i].0@)) is Some,
        forall|i: int, j: int|
            0 <= i < j < args.len() ==> index_lookup(idx, f, (#[trigger] args[i]).0@)
                != index_lookup(idx, f, (#[trigger] args[j]).0@),
    ensures
        ({
            let s = stable_sort(keyed_args(idx, f, args));
            &&& s.to_multiset() == keyed_args(idx, f, args).to_multiset()
            &&& forall|i: int, j: int|
                0 <= i < j < s.len() ==> (#[trigger] s[i]).0 is Some && (#[trigger] s[j]).0 is Some
                    && s[i].0->0 < s[j].0->0
            &&& wire_args(idx, f, args) == s.map_values(|p: (Option<u32>, JsonValue)| p.1)
        }),
{
    let k = keyed_args(idx, f, args);
    assert forall|i: int| 0 <= i < k.len() implies (#[trigger] k[i]).0 is Some by {
        assert(index_lookup(idx, f, args[i].0@) is Some);
    }
    assert forall|i: int, j: int| 0 <= i < j < k.len() implies (#[trigger] k[i]).0 != (
    #[trigger] k[j]).0 by {
        assert(index_lookup(idx, f, args[i].0@) != index_lookup(idx, f, args[j].0@));
    }
    lemma_distinct_positions_ascend(k);
}

/// Arguments without a declared position are sent in the order they were
/// given.
pub proof fn lemma_undeclared_keep_order(
    idx: Map<Seq<char>, Map<Seq<char>, u32>>,
    f: Seq<char>,
    args: Seq<(String, Argument)>,
)
    ensures
        stable_sort(keyed_args(idx, f, args)).filter(|p: (Option<u32>, JsonValue)| has_no_key(p))
            == keyed_args(idx, f, args).filter(|p: (Option<u32>, JsonValue)| has_no_key(p)),
{
    lemma_absent_positions_keep_order(keyed_args(idx, f, args));
}

} // verus!
