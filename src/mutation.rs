use vstd::prelude::*;
use crate::json::JsonValue;
use crate::projection::Field;
use crate::invocation::{Argument, QueryError, QueryResponse, Row};

verus! {

/// Why a mutation failed.
#[derive(Debug, PartialEq)]
pub enum MutationError {
    InvalidRequest(String),
    UnsupportedOperation(String),
    Other(String),
}

/// One operation of a mutation request.
#[derive(Debug, PartialEq)]
pub enum MutationOperation {
    /// A call of a procedure with named argument values and the fields to return.
    Procedure {
        name: String,
        arguments: Vec<(String, JsonValue)>,
        fields: Option<Vec<(String, Field)>>,
    },
    /// Any other kind of operation, named by its kind; not handled.
    Other { kind: String },
}

/// A procedure call to make for a mutation.
#[derive(Debug, PartialEq)]
pub struct ProcedureCall {
    pub name: String,
    pub arguments: Vec<(String, Argument)>,
    pub fields: Option<Vec<(String, Field)>>,
}

/// The result of one operation.
#[derive(Debug, PartialEq)]
pub struct MutationOperationResults {
    pub affected_rows: u32,
    pub returning: Option<Vec<Row>>,
}

/// The results of a mutation, one for each procedure operation.
#[derive(Debug, PartialEq)]
pub struct MutationResponse {
    pub operation_results: Vec<MutationOperationResults>,
}

pub open spec fn is_procedure(op: MutationOperation) -> bool {
    op is Procedure
}

/// True when `c` calls the procedure of `op` with its arguments as literals.
pub open spec fn calls_procedure(c: ProcedureCall, op: MutationOperation) -> bool {
    match op {
        MutationOperation::Procedure { name, arguments, fields } => {
            &&& c.name == name
            &&& c.fields == fields
            &&& c.arguments.len() == arguments.len()
            &&& forall|i: int|
                0 <= i < arguments.len() ==> #[trigger] c.arguments[i] == (
                    arguments[i].0,
                    Argument::Literal { value: arguments[i].1 },
                )
        },
        MutationOperation::Other { .. } => false,
    }
}

/// The named values as literal arguments, in the same order.
fn literal_arguments(arguments: Vec<(String, JsonValue)>) -> (r: Vec<(String, Argument)>)
    ensures
        r.len() == arguments.len(),
        forall|j: int|
            0 <= j < arguments.len() ==> #[trigger] r[j] == (
                arguments[j].0,
                Argument::Literal { value: arguments[j].1 },
            ),
{
    let ghost given = arguments;
    let mut literals: Vec<(String, Argument)> = Vec::new();
    let mut args = arguments;
    let ghost mut k: int = 0;
    while args.len() > 0
        invariant
            0 <= k <= given.len(),
            args@ == given@.skip(k),
            literals.len() == k,
            forall|j: int|
                0 <= j < k ==> #[trigger] literals[j] == (
                    given[j].0,
                    Argument::Literal { value: given[j].1 },
                ),
        decreases args.len(),
    {
        let (name, value) = args.remove(0);
        assert(given[k] == (name, value));
        literals.push((name, Argument::Literal { value }));
        proof {
            k = k + 1;
            assert(args@ =~= given@.skip(k));
        }
    }
    literals
}

/// The procedure calls a mutation makes: one for each procedure operation,
/// in order, its arguments taken as literals; other operations are skipped.
pub fn plan_mutation(operations: Vec<MutationOperation>) -> (r: Vec<ProcedureCall>)
    ensures
        r.len() == operations@.filter(|op: MutationOperation| is_procedure(op)).len(),
        forall|i: int|
            0 <= i < r.len() ==> calls_procedure(
                #[trigger] r[i],
                operations@.filter(|op: MutationOperation| is_procedure(op))[i],
            ),
{
    broadcast use Seq::lemma_filter_push;

    let ghost orig = operations@;
    let ghost pred = |op: MutationOperation| is_procedure(op);
    let mut rest = operations;
    let mut calls: Vec<ProcedureCall> = Vec::new();
    let ghost mut i: int = 0;
    proof {
        assert(orig.take(0) =~= Seq::<MutationOperation>::empty());
        reveal_with_fuel(Seq::filter, 1);
    }
    while rest.len() > 0
        invariant
            0 <= i <= orig.len(),
            orig == operations@,
            pred == (|op: MutationOperation| is_procedure(op)),
            rest@ == orig.skip(i),
            calls.len() == orig.take(i).filter(pred).len(),
            forall|j: int|
                0 <= j < calls.len() ==> calls_procedure(
                    #[trigger] calls[j],
                    orig.take(i).filter(pred)[j],
                ),
        decreases rest.len(),
    {
        let op = rest.remove(0);
        assert(orig[i] == op);
        assert(orig.take(i + 1) =~= orig.take(i).push(op));
        match op {
            MutationOperation::Procedure { name, arguments, fields } => {
                let literals = literal_arguments(arguments);
                let call = ProcedureCall { name, arguments: literals, fields };
                assert(calls_procedure(call, orig[i]));
                calls.push(call);
                proof {
                    assert(pred(orig[i]));
                    orig.take(i).lemma_filter_push(orig[i], pred);
                }
            },
            MutationOperation::Other { .. } => {
                proof {
                    assert(!pred(orig[i]));
                    orig.take(i).lemma_filter_push(orig[i], pred);
                }
            },
        }
        proof {
            i = i + 1;
            assert(rest@ =~= orig.skip(i));
        }
    }
    proof {
        assert(orig.take(i) =~= orig);
    }
    calls
}

/// The same error, as a mutation error.
pub fn query_error_to_mutation_error(query_error: QueryError) -> (r: MutationError)
    ensures
        match query_error {
            QueryError::InvalidRequest(m) => r == MutationError::InvalidRequest(m),
            QueryError::UnsupportedOperation(m) => r == MutationError::UnsupportedOperation(m),
            QueryError::Other(m) => r == MutationError::Other(m),
        },
{
    match query_error {
        QueryError::InvalidRequest(msg) => MutationError::InvalidRequest(msg),
        QueryError::UnsupportedOperation(msg) => MutationError::UnsupportedOperation(msg),
        QueryError::Other(err) => MutationError::Other(err),
    }
}

/// True when `r` is the result of a procedure call that answered `result`:
/// one affected row returning the rows of the first row set, or nothing when
/// there is no row set.
pub open spec fn is_result_of(r: MutationOperationResults, result: QueryResponse) -> bool {
    if result.0.len() > 0 {
        &&& r.affected_rows == 1
        &&& r.returning is Some
        &&& r.returning->0@ == match result.0[0].rows {
            Some(rows) => rows@,
            None => Seq::empty(),
        }
    } else {
        r.affected_rows == 0 && r.returning is None
    }
}

/// The result of one procedure call: one affected row returning the rows of
/// the first row set, or none when there is no row set.
pub fn result_to_mutation_operation_results(result: QueryResponse) -> (r: MutationOperationResults)
    ensures
        is_result_of(r, result),
{
    let mut sets = result.0;
    if sets.len() > 0 {
        let rs = sets.remove(0);
        let rows = match rs.rows {
            Some(rows) => rows,
            None => Vec::new(),
        };
        return MutationOperationResults { affected_rows: 1, returning: Some(rows) };
    }
    MutationOperationResults { affected_rows: 0, returning: None }
}

/// Records the outcome of one procedure call: a response adds its result,
/// an error ends the mutation with that error.
pub fn record_outcome(
    results: &mut Vec<MutationOperationResults>,
    outcome: Result<QueryResponse, QueryError>,
) -> (r: Result<(), MutationError>)
    ensures
        match outcome {
            Ok(resp) => r is Ok && final(results).len() == old(results).len() + 1
                && final(results)@.drop_last() == old(results)@ && is_result_of(
                final(results)@.last(),
                resp,
            ),
            Err(e) => r is Err && final(results)@ == old(results)@ && match e {
                QueryError::InvalidRequest(m) => r->Err_0 == MutationError::InvalidRequest(m),
                QueryError::UnsupportedOperation(m) => r->Err_0
                    == MutationError::UnsupportedOperation(m),
                QueryError::Other(m) => r->Err_0 == MutationError::Other(m),
            },
        },
{
    match outcome {
        Ok(resp) => {
            let one = result_to_mutation_operation_results(resp);
            results.push(one);
            assert(results@.drop_last() =~= old(results)@);
            Ok(())
        },
        Err(e) => Err(query_error_to_mutation_error(e)),
    }
}

} // verus!
