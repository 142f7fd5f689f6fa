use ndc_deno::config::{
    InvalidRange, KeyOrIndex, RawConfiguration, SchemaLoad, ValidateError, read_schema,
};
use ndc_deno::connector::TypescriptConnector;
use ndc_deno::invocation::{
    complete_query, eval_argument, prepare_invocation, Argument, QueryError, QueryResponse,
    RemoteReply, RowSet,
};
use ndc_deno::json::{object_get, JsonValue};
use ndc_deno::mutation::{
    plan_mutation, query_error_to_mutation_error, record_outcome,
    result_to_mutation_operation_results, MutationError, MutationOperation,
};
use ndc_deno::positions::{
    FunctionArgumentPositions, InputArugmentInfo, InputFunctionArgumentPositions,
    InputFunctionInfo,
};
use ndc_deno::projection::{process_fields, Field};

fn s(t: &str) -> String {
    t.to_string()
}

fn num(n: i64) -> JsonValue {
    JsonValue::Number(n.to_string())
}

fn obj(entries: Vec<(&str, JsonValue)>) -> JsonValue {
    JsonValue::Object(entries.into_iter().map(|(k, v)| (s(k), v)).collect())
}

fn info(name: &str, args: Vec<(&str, u32)>) -> InputFunctionInfo {
    InputFunctionInfo {
        name: s(name),
        arguments: args
            .into_iter()
            .map(|(k, p)| (s(k), InputArugmentInfo { position: p }))
            .collect(),
    }
}

fn index(functions: Vec<InputFunctionInfo>, procedures: Vec<InputFunctionInfo>) -> FunctionArgumentPositions {
    InputFunctionArgumentPositions { functions, procedures }.fix()
}

fn lit(name: &str, v: JsonValue) -> (String, Argument) {
    (s(name), Argument::Literal { value: v })
}

fn column(out: &str, from: &str) -> (String, Field) {
    (s(out), Field::Column { column: s(from) })
}

#[test]
fn add_arguments_follow_declared_positions() {
    let idx = index(vec![info("add", vec![("x", 1), ("y", 0)])], vec![]);
    let call = prepare_invocation(&idx, s("add"), vec![lit("x", num(5)), lit("y", num(3))]).unwrap();
    assert_eq!(call.function_name, "add");
    assert_eq!(call.args, vec![num(3), num(5)]);
}

#[test]
fn distinct_positions_ascend() {
    let idx = index(vec![info("f", vec![("a", 7), ("b", 2), ("c", 4)])], vec![]);
    let call = prepare_invocation(
        &idx,
        s("f"),
        vec![lit("a", num(1)), lit("b", num(2)), lit("c", num(3))],
    )
    .unwrap();
    assert_eq!(call.args, vec![num(2), num(3), num(1)]);
}

#[test]
fn undeclared_arguments_come_first_in_given_order() {
    let idx = index(vec![info("f", vec![("k", 0)])], vec![]);
    let call = prepare_invocation(
        &idx,
        s("f"),
        vec![lit("k", num(9)), lit("q", num(1)), lit("p", num(2))],
    )
    .unwrap();
    assert_eq!(call.args, vec![num(1), num(2), num(9)]);
}

#[test]
fn unknown_function_keeps_given_order() {
    let idx = index(vec![], vec![]);
    let call = prepare_invocation(&idx, s("g"), vec![lit("b", num(1)), lit("a", num(2))]).unwrap();
    assert_eq!(call.function_name, "g");
    assert_eq!(call.args, vec![num(1), num(2)]);
}

#[test]
fn variable_argument_is_refused() {
    let idx = index(vec![info("add", vec![("x", 0)])], vec![]);
    let r = prepare_invocation(
        &idx,
        s("add"),
        vec![lit("x", num(1)), (s("y"), Argument::Variable { name: s("v") })],
    );
    assert_eq!(
        r,
        Err(QueryError::UnsupportedOperation(s("Variables in arguments not supported")))
    );
}

#[test]
fn eval_argument_passes_literals_through() {
    assert_eq!(
        eval_argument(s("x"), Argument::Literal { value: JsonValue::Bool(true) }),
        Ok((s("x"), JsonValue::Bool(true)))
    );
    assert!(matches!(
        eval_argument(s("x"), Argument::Variable { name: s("x") }),
        Err(QueryError::UnsupportedOperation(_))
    ));
}

#[test]
fn positions_lookup_and_override() {
    let idx = index(
        vec![info("f", vec![("a", 1)]), info("h", vec![("z", 4)])],
        vec![info("f", vec![("b", 2)])],
    );
    assert_eq!(idx.get("f", "a"), None);
    assert_eq!(idx.get("f", "b"), Some(2));
    assert_eq!(idx.get("h", "z"), Some(4));
    assert_eq!(idx.get("h", "y"), None);
    assert_eq!(idx.get("nope", "z"), None);
}

#[test]
fn remote_failure_surfaces_body() {
    let r = complete_query(RemoteReply::Failure(s("boom")), &None);
    assert_eq!(r, Err(QueryError::InvalidRequest(s("boom"))));
}

#[test]
fn scalar_reply_surfaces_as_single_row() {
    let r = complete_query(RemoteReply::Success(num(42)), &None).unwrap();
    assert_eq!(
        r,
        QueryResponse(vec![RowSet { aggregates: None, rows: Some(vec![vec![(s("__value"), num(42))]]) }])
    );
    let fields = Some(vec![column("out", "in")]);
    let r = complete_query(RemoteReply::Success(JsonValue::Str(s("hi"))), &fields).unwrap();
    assert_eq!(r.0[0].rows, Some(vec![vec![(s("__value"), JsonValue::Str(s("hi")))]]));
}

#[test]
fn projection_renames_columns_in_arrays() {
    let v = JsonValue::Array(vec![obj(vec![("in", num(1))]), obj(vec![])]);
    let fields = Some(vec![column("out", "in")]);
    assert_eq!(
        process_fields(&v, &fields),
        JsonValue::Array(vec![obj(vec![("out", num(1))]), obj(vec![("out", JsonValue::Null)])])
    );
}

#[test]
fn projection_without_fields_is_identity() {
    let v = obj(vec![("a", num(1)), ("b", JsonValue::Array(vec![num(2)]))]);
    assert_eq!(process_fields(&v, &None), v);
}

#[test]
fn projection_drops_non_column_fields() {
    let v = obj(vec![("a", num(1)), ("b", num(2))]);
    let fields = Some(vec![
        column("b", "b"),
        (s("r"), Field::Relationship { relationship: s("rel") }),
    ]);
    assert_eq!(process_fields(&v, &fields), obj(vec![("b", num(2))]));
}

#[test]
fn projection_is_idempotent_when_names_kept() {
    let v = JsonValue::Array(vec![
        obj(vec![("a", num(1)), ("b", num(2))]),
        obj(vec![("c", num(3))]),
        JsonValue::Array(vec![obj(vec![("a", JsonValue::Str(s("x")))])]),
    ]);
    let fields = Some(vec![column("a", "a"), column("c", "c")]);
    let once = process_fields(&v, &fields);
    let twice = process_fields(&once, &fields);
    assert_eq!(once, twice);
}

#[test]
fn projection_distributes_over_arrays() {
    let a = obj(vec![("x", num(1)), ("y", num(2))]);
    let b = obj(vec![("y", num(3))]);
    let c = num(4);
    let fields = Some(vec![column("y", "y"), column("z", "x")]);
    let whole = process_fields(&JsonValue::Array(vec![a.deep_copy(), b.deep_copy(), c.deep_copy()]), &fields);
    let each = JsonValue::Array(vec![
        process_fields(&a, &fields),
        process_fields(&b, &fields),
        process_fields(&c, &fields),
    ]);
    assert_eq!(whole, each);
}

#[test]
fn object_lookup_takes_first_entry() {
    let o = vec![(s("a"), num(1)), (s("a"), num(2))];
    assert_eq!(object_get(&o, &s("a")), Some(&num(1)));
    assert_eq!(object_get(&o, &s("b")), None);
}

#[test]
fn read_schema_reports_each_failure() {
    assert_eq!(
        read_schema("/x.json", SchemaLoad::Unreadable(s("gone"))).err(),
        Some(s("Could not open /x.json: gone"))
    );
    assert_eq!(
        read_schema("/x.json", SchemaLoad::NotSchema(s("bad"))).err(),
        Some(s("functions.ts.schema.json should be valid SchemaResponse: bad"))
    );
    assert_eq!(
        read_schema("/x.json", SchemaLoad::NotPositions(s("bad"))).err(),
        Some(s("functions.ts.schema.json should be valid FunctionArgumentPositions: bad"))
    );
}

fn one_error(key: &str, message: &str) -> ValidateError {
    ValidateError::ValidateError(vec![InvalidRange {
        path: vec![KeyOrIndex::Key(s(key))],
        message: s(message),
    }])
}

#[test]
fn validation_reports_unreadable_schema() {
    let raw = TypescriptConnector::make_empty_configuration();
    let r = TypescriptConnector::validate_raw_configuration(&raw, SchemaLoad::Unreadable(s("gone")));
    assert_eq!(
        r.err(),
        Some(one_error(
            "/schema.json",
            "Couldn't read schema from /schema.json: Could not open /schema.json: gone"
        ))
    );
}

#[test]
fn validation_reports_bad_url() {
    let raw = RawConfiguration {
        typescript_source: None,
        schema_location: Some(s("/s.json")),
        deno_deployment_url: Some(s("not a url")),
    };
    let load = SchemaLoad::Parsed(obj(vec![]), InputFunctionArgumentPositions { functions: vec![], procedures: vec![] });
    let r = TypescriptConnector::validate_raw_configuration(&raw, load);
    assert_eq!(
        r.err(),
        Some(one_error("deno_deployment_url", "Couldn't parse deno deployment url."))
    );
}

#[test]
fn validation_builds_configuration() {
    let raw = RawConfiguration::default();
    let doc = obj(vec![("functions", JsonValue::Array(vec![]))]);
    let load = SchemaLoad::Parsed(
        doc.deep_copy(),
        InputFunctionArgumentPositions { functions: vec![info("f", vec![("a", 3)])], procedures: vec![] },
    );
    let c = TypescriptConnector::validate_raw_configuration(&raw, load).unwrap();
    assert_eq!(c.deno_deployment_url.as_str(), "http://localhost:8000/");
    assert_eq!(c.function_argument_positions.get("f", "a"), Some(3));
    assert_eq!(TypescriptConnector::get_schema(&c), Ok(doc));
}

#[test]
fn configuration_update_is_identity() {
    let raw = RawConfiguration {
        typescript_source: None,
        schema_location: Some(s("/a.json")),
        deno_deployment_url: None,
    };
    assert_eq!(TypescriptConnector::update_configuration(&raw), Ok(raw));
    assert_eq!(RawConfiguration::default().schema_location_or_default(), "/schema.json");
    assert_eq!(RawConfiguration::default().deployment_url_or_default(), "http://localhost:8000");
}

#[test]
fn capabilities_offer_nothing_optional() {
    let c = TypescriptConnector::get_capabilities();
    assert_eq!(c.versions, "^0.1.0");
    assert!(c.capabilities.query.is_none());
    assert!(c.capabilities.explain.is_none());
    assert!(c.capabilities.mutations.is_none());
    assert!(c.capabilities.relationships.is_none());
}

#[test]
fn mutation_plan_skips_other_operations() {
    let ops = vec![
        MutationOperation::Other { kind: s("insert") },
        MutationOperation::Procedure { name: s("p"), arguments: vec![(s("a"), num(1))], fields: None },
        MutationOperation::Procedure { name: s("q"), arguments: vec![], fields: None },
    ];
    let plan = plan_mutation(ops);
    assert_eq!(plan.len(), 2);
    assert_eq!(plan[0].name, "p");
    assert_eq!(plan[0].arguments, vec![lit("a", num(1))]);
    assert_eq!(plan[1].name, "q");
}

#[test]
fn mutation_results_follow_row_sets() {
    let r = result_to_mutation_operation_results(QueryResponse(vec![]));
    assert_eq!(r.affected_rows, 0);
    assert_eq!(r.returning, None);
    let rows = || vec![vec![(s("__value"), num(1))]];
    let r = result_to_mutation_operation_results(QueryResponse(vec![RowSet {
        aggregates: None,
        rows: Some(rows()),
    }]));
    assert_eq!(r.affected_rows, 1);
    assert_eq!(r.returning, Some(rows()));
    let r = result_to_mutation_operation_results(QueryResponse(vec![RowSet { aggregates: None, rows: None }]));
    assert_eq!(r.returning, Some(vec![]));
}

#[test]
fn mutation_outcomes_are_recorded() {
    let mut results = vec![];
    let ok = complete_query(RemoteReply::Success(num(1)), &None);
    assert_eq!(record_outcome(&mut results, ok), Ok(()));
    assert_eq!(results.len(), 1);
    assert_eq!(results[0].affected_rows, 1);
    let err = record_outcome(&mut results, Err(QueryError::Other(s("down"))));
    assert_eq!(err, Err(MutationError::Other(s("down"))));
    assert_eq!(results.len(), 1);
    assert_eq!(
        query_error_to_mutation_error(QueryError::InvalidRequest(s("m"))),
        MutationError::InvalidRequest(s("m"))
    );
}
