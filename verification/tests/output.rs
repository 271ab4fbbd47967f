//! Envelopes, the output pipeline, and the renderers.
use cli_engine::error::{CliCoreError, TransportError};
use cli_engine::json::{Float, Json, Number};
use cli_engine::json_bridge::{from_serde, to_serde};
use cli_engine::ordmap::StringMap;
use cli_engine::output::envelope::{
    build_detailed_error_envelope, build_error_envelope, format_duration, is_absent_or_null,
    Envelope, NextAction, NextActionParam, PaginationMeta,
};
use cli_engine::output::formats::{is_valid_output_format, parse_format_or_json, OutputFormat};
use cli_engine::output::human::{
    render_human, render_human_with_registry, render_human_with_registry_for_schema,
    render_human_with_registry_selected, render_human_with_view, HumanOutput, HumanViewDef,
    HumanViewRegistry, HumanViewRenderer, TableColumn,
};
use cli_engine::output::json_schema::{fields_from_json_schema_within, json_schema_info};
use cli_engine::output::json_text::{escape_html_sensitive_json_chars, render_json};
use cli_engine::output::pipeline::{
    apply_expr, apply_filter, apply_pagination, apply_pipeline, compile_query, search_query,
    slices_of, Found, PipelineOpts,
};
use cli_engine::output::schema::{
    fields_for, format_help_section, no_schema_response, FieldInfo, OutputField, OutputSchema,
    SchemaInfo, SchemaRegistry,
};

fn s(text: &str) -> String {
    text.to_owned()
}

fn json(text: &str) -> Json {
    from_serde(serde_json::from_str(text).expect("the text is JSON"))
}

fn same(value: &Json, text: &str) -> bool {
    let expected: serde_json::Value = serde_json::from_str(text).expect("the text is JSON");
    to_serde(value) == expected
}

fn text(outcome: &CliCoreError) -> String {
    outcome.to_text()
}

#[test]
fn private_pipeline_helpers_cover_boundary_paths_directly() {
    let mut object = json(r#"{"id": "p1"}"#);
    assert!(
        matches!(apply_pagination(&mut object, 10, 1), Ok(None)),
        "object pagination should no-op"
    );
    assert!(same(&object, r#"{"id": "p1"}"#));

    let mut items = json(r#"[{"id": "p1"}, {"id": "p2"}]"#);
    let err = apply_pagination(&mut items, -1, 1).expect_err("negative offset should be rejected");
    assert_eq!(text(&err), "pagination: offset must be non-negative");

    let Ok(expression) = compile_query("items[?enabled].id") else {
        panic!("query should compile");
    };
    let data =
        json(r#"{"items": [{"id": "p1", "enabled": true}, {"id": "p2", "enabled": false}]}"#);
    let Ok(Found { value: Ok(value), .. }) = search_query(&expression, &data) else {
        panic!("query should evaluate");
    };
    assert!(same(&value, r#"["p1"]"#));

    let mut data = json(r#"{"items": [{"id": "p1"}]}"#);
    assert!(apply_expr(&mut data, "items[0].id").is_ok(), "expr should replace data");
    assert!(same(&data, r#""p1""#));
}

#[test]
fn pages_are_slices_of_the_whole() {
    let whole = r#"[1, 2, 3, 4, 5]"#;
    let mut page = json(whole);
    let Ok(Some(meta)) = apply_pagination(&mut page, 1, 2) else {
        panic!("a list is paged");
    };
    assert!(same(&page, "[2, 3]"));
    assert!(meta == PaginationMeta { total: 5, offset: 1, limit: 2, count: 2 });
    let mut beyond = json(whole);
    let Ok(Some(meta)) = apply_pagination(&mut beyond, 9, 2) else {
        panic!("a list is paged");
    };
    assert!(same(&beyond, "[]"));
    assert_eq!((meta.total, meta.count), (5, 0));
}

#[test]
fn filters_keep_the_items_that_match() {
    let mut data = json(r#"[{"n": 1, "on": true}, {"n": 2, "on": false}, {"n": 3, "on": true}]"#);
    assert!(apply_filter(&mut data, "on").is_ok());
    let once = r#"[{"n": 1, "on": true}, {"n": 3, "on": true}]"#;
    assert!(same(&data, once));
    assert!(apply_filter(&mut data, "on").is_ok());
    assert!(same(&data, once));
    assert!(apply_filter(&mut data, "[").is_err());
    let opts = PipelineOpts { filter: s("n > `1`"), limit: 1, ..PipelineOpts::default() };
    let Ok(Some(meta)) = apply_pipeline(&mut data, &opts, |d, _| d.copy()) else {
        panic!("the data is a list");
    };
    assert_eq!((meta.total, meta.count), (1, 1));
    assert!(same(&data, r#"[{"n": 3, "on": true}]"#));
}

#[test]
fn numbers_survive_the_way_to_serde_and_back() {
    for literal in ["0", "18446744073709551615", "-5", "1.5", "1e300"] {
        let v = json(literal);
        assert!(same(&v, literal), "{literal}");
    }
    assert_eq!(Float::parse("2.50").expect("finite").text(), "2.5");
    assert!(Float::parse("inf").is_none());
    assert!(Float::parse("abc").is_none());
    assert_eq!(Number::Signed(-5).to_text(), "-5");
    let nested = r#"{"a": [null, true, {"b": "c"}], "d": {}}"#;
    assert!(same(&json(nested), nested));
    assert!(same(&json(nested).copy(), nested));
}

#[test]
fn json_text_is_safe_in_html() {
    assert_eq!(
        escape_html_sensitive_json_chars("<a>&\u{2028}\u{2029}x"),
        "\\u003ca\\u003e\\u0026\\u2028\\u2029x"
    );
    let envelope = Envelope::success(Json::Null, "sys");
    let Ok(rendered) = render_json(&envelope, Ok(s("{\"a\": \"<\"}"))) else {
        panic!("the envelope is rendered");
    };
    assert_eq!(rendered, "{\"a\": \"\\u003c\"}\n");
    let failed = Envelope::success_from(Err(s("boom")), "sys");
    assert!(render_json(&failed, Ok(s("{}"))).is_err());
    assert!(render_json(&envelope, Err(s("cyclic"))).is_err());
}

#[test]
fn people_see_tables_objects_and_values() {
    let show = |data: &str| render_human(&Envelope::success(json(data), "sys"));
    assert_eq!(
        show(r#"[{"id": "p1", "on": true}, {"id": "p22", "on": null}]"#),
        "ID   ON \n---  ---\np1   yes\np22     \n\n(2 rows)\n"
    );
    assert_eq!(show(r#"{"b": [1, 2], "a": false}"#), "a: no\nb: 1, 2\n");
    assert_eq!(show("[]"), "(no results)\n");
    assert_eq!(show("{}"), "(no data)\n");
    assert_eq!(show("null"), "<nil>\n");
    assert_eq!(show("[1, [2, null]]"), "1\n[2 <nil>]\n");
    let long = "x".repeat(50);
    let shown = show(&format!(r#"[{{"v": "{long}"}}]"#));
    let kept = "x".repeat(37);
    assert!(shown.contains(&format!("{kept}...\n")), "{shown}");
}

#[test]
fn views_choose_the_columns() {
    let columns = vec![TableColumn::new(s("id"), s("Id")), TableColumn::new(s("gone"), s("Gone"))];
    let data = r#"[{"id": "p1", "x": 1}]"#;
    let envelope = Envelope::success(json(data), "projects");
    let expected = "ID  GONE\n--  ----\np1      \n\n(1 rows)\n";
    assert_eq!(render_human_with_view(&envelope, Some(&columns)), expected);
    let mut registry = HumanViewRegistry::new();
    registry.register(HumanViewDef::new(s("projects"), columns));
    registry.register_func(s("custom"), HumanViewRenderer { id: 7 });
    assert!(matches!(
        render_human_with_registry(&envelope, &registry),
        HumanOutput::Rendered(t) if t == expected
    ));
    assert!(matches!(
        render_human_with_registry_for_schema(&envelope, &registry, "custom"),
        HumanOutput::Custom(7)
    ));
    let error = Envelope::error("ERROR", "boom", "sys");
    assert!(matches!(
        render_human_with_registry_for_schema(&error, &registry, "custom"),
        HumanOutput::Rendered(t) if t == "Error: boom\n"
    ));
    let HumanOutput::Rendered(selected) =
        render_human_with_registry_selected(&envelope, &registry, "projects", "id")
    else {
        panic!("the view has columns");
    };
    assert_eq!(selected, "ID\n--\np1\n\n(1 rows)\n");
}

#[test]
fn envelopes_hide_their_metadata_unless_asked() {
    let envelope = Envelope::success(Json::Bool(true), "sys")
        .with_next_actions(vec![NextAction::new(s("cli x"), s("Do x"))
            .with_param(s("id"), NextActionParam::required())]);
    assert!(envelope.prepare_for_render("").metadata.is_none());
    let full = envelope.prepare_for_render("all").metadata.expect("metadata");
    assert_eq!(full.system, "sys");
    let some = envelope.prepare_for_render("system").metadata.expect("metadata");
    assert_eq!(some.system, "sys");
    assert_eq!(some.timestamp, "");
    assert_eq!(envelope.next_actions.len(), 1);
    assert!(is_absent_or_null(&None));
    assert!(is_absent_or_null(&Some(Json::Null)));
    let mut warned = envelope;
    warned.add_warning(s("careful"));
    assert_eq!(warned.warnings, vec!["careful"]);
}

#[test]
fn error_envelopes_carry_the_details() {
    let transport = TransportError {
        message: s("bad gateway"),
        code: s("HTTP_502"),
        system: Some(s("api")),
        request_id: Some(s("r1")),
    };
    let direct = build_detailed_error_envelope(&transport, "cli").error.expect("an error");
    assert_eq!(direct.code, "HTTP_502");
    assert_eq!(direct.system, "api");
    assert_eq!(direct.request_id, "r1");
    let wrapped = CliCoreError::with_exit_code(7, CliCoreError::Transport(transport));
    let detail = build_error_envelope(&wrapped, "cli").error.expect("an error");
    assert_eq!(detail.code, "HTTP_502");
    assert_eq!(detail.message, "bad gateway");
    let plain = build_error_envelope(&CliCoreError::message(s("boom")), "cli").error.expect("one");
    assert_eq!((plain.code.as_str(), plain.system.as_str()), ("ERROR", "cli"));
}

#[test]
fn durations_are_rounded() {
    assert_eq!(format_duration(0, 0), "0s");
    assert_eq!(format_duration(2, 0), "2s");
    assert_eq!(format_duration(1, 500_000_000), "1.5s");
    assert_eq!(format_duration(0, 250_000_000), "250ms");
}

#[test]
fn formats_have_names() {
    assert!(is_valid_output_format("toon"));
    assert!(!is_valid_output_format("yaml"));
    assert_eq!(parse_format_or_json("human"), OutputFormat::Human);
    assert_eq!(parse_format_or_json("yaml"), OutputFormat::Json);
}

struct Project;

impl OutputSchema for Project {
    fn fields() -> &'static [OutputField] {
        const FIELDS: [OutputField; 2] = [
            OutputField { name: "id", field_type: "string", optional: false },
            OutputField { name: "tags", field_type: "string[]", optional: true },
        ];
        &FIELDS
    }
}

#[test]
fn schemas_are_registered_by_path() {
    let fields = fields_for::<Project>();
    assert_eq!(fields.len(), 2);
    assert_eq!(fields[1].name, "tags");
    assert!(fields[1].optional);
    let mut registry = SchemaRegistry::new();
    registry.register::<Project>(s("project:list"));
    let info = registry.get_by_path("project:list").expect("registered");
    assert_eq!(info.command, "project:list");
    assert_eq!(info.fields.len(), 2);
    assert!(registry.get_by_path("other").is_none());
    let mut other = SchemaRegistry::new();
    other.register_info(s("project:list"), SchemaInfo::new(s("x")));
    registry.merge(&other);
    assert!(registry.get_by_path("project:list").expect("merged").fields.is_empty());
    let help = format_help_section(&fields);
    assert!(help.contains("id") && help.contains("tags"), "{help}");
    assert_eq!(OutputField::integer("n").field_type, "int");
    assert_eq!(FieldInfo::new(s("a"), s("b")).optional().optional, true);
    let none = no_schema_response("x:y");
    assert!(none.is_object());
}

#[test]
fn json_schemas_become_fields() {
    let schema = json(
        r##"{
            "type": "object",
            "properties": {
                "id": {"type": "string"},
                "owner": {"$ref": "#/$defs/Owner"}
            },
            "required": ["id"],
            "$defs": {"Owner": {"type": "object", "properties": {"name": {"type": "string"}}}}
        }"##,
    );
    let fields = fields_from_json_schema_within(&schema, 64).expect("references resolve");
    let id = fields.iter().find(|f| f.name == "id").expect("id");
    assert_eq!(id.field_type, "string");
    assert!(!id.optional);
    let owner = fields.iter().find(|f| f.name == "owner").expect("owner");
    assert!(owner.optional);
    let info = json_schema_info(s("p:l"), schema);
    assert_eq!(info.fields.len(), fields.len());
    assert!(info.schema.is_some());
}

#[test]
fn maps_keep_their_keys_in_order() {
    let mut m: StringMap<u64> = StringMap::new();
    for (k, v) in [("b", 2), ("a", 1), ("c", 3), ("b", 4)] {
        m.insert(s(k), v);
    }
    assert_eq!(m.keys(), vec!["a", "b", "c"]);
    assert_eq!(m.get("b"), Some(&4));
    m.remove("a");
    assert_eq!(m.len(), 2);
    assert!(!m.contains_key("a"));
}

#[test]
fn field_constructors_name_their_types() {
    let fields = [
        (OutputField::string("a"), "string"),
        (OutputField::integer("a"), "int"),
        (OutputField::float("a"), "float"),
        (OutputField::string_list("a"), "[]string"),
        (OutputField::int_list("a"), "[]int"),
        (OutputField::float_list("a"), "[]float"),
        (OutputField::bool_list("a"), "[]bool"),
        (OutputField::object_list("a"), "[]object"),
    ];
    for (field, expected) in fields {
        assert_eq!(field.name, "a");
        assert_eq!(field.field_type, expected);
        assert!(!field.optional);
    }
}

#[test]
fn the_pipeline_ends_with_the_projection() {
    let mut data = json(r#"[{"n": 1}, {"n": 2}]"#);
    let opts = PipelineOpts { limit: 1, fields: s("m"), ..PipelineOpts::default() };
    let project = |d: &Json, names: &str| {
        assert!(same(d, r#"[{"n": 1}]"#));
        Json::from_text(names)
    };
    assert!(matches!(apply_pipeline(&mut data, &opts, project), Ok(Some(_))));
    assert!(same(&data, r#""m""#));
}

#[test]
fn steps_that_leave_the_range_of_places_are_refused() {
    let three = "[1, 2, 3]";
    let mut data = json(three);
    let Err(err) = apply_expr(&mut data, "[1::2147483647]") else {
        panic!("the step is too large");
    };
    assert_eq!(text(&err), "expr: JMESPath query failed: slice step exceeds supported range");
    assert!(same(&data, three));
    for refused in ["[-1::2147483647]", "[0].[1 : : 2147483646]", "a[] | [::1000000001]"] {
        assert!(apply_expr(&mut json(three), refused).is_err(), "{refused}");
    }
    for (query, expected) in [
        ("[::1000000000]", "[1]"),
        ("[1::1000000000]", "[2]"),
        ("[-1::2000000000]", "[3]"),
        ("[::2147483647]", "[1]"),
        ("[:2147483647]", three),
        ("[::-2147483647]", "[3]"),
        ("[::0000000002]", "[1, 3]"),
        ("'a[1::2147483647]'", "\"a[1::2147483647]\""),
        ("[] | [::999999999]", "[1]"),
    ] {
        let mut data = json(three);
        assert!(apply_expr(&mut data, query).is_ok(), "{query}");
        assert!(same(&data, expected), "{query}");
    }
}

#[test]
fn slices_are_found_in_a_query() {
    let found: Vec<(Option<i64>, i64)> =
        slices_of("a[1:2] | [?b=='[7:8:9]'][-3::4].{x: y}[:5:-6] | [0]")
            .iter()
            .map(|slice| (slice.start, slice.step))
            .collect();
    assert_eq!(found, vec![(Some(1), 1), (Some(-3), 4), (None, -6)]);
}

#[test]
fn results_count_as_true_by_their_value() {
    let items = r#"[{"v": null}, {"v": false}, {"v": 0}, {"v": ""}, {"v": []}, {"v": {}}, {"v": "x"}]"#;
    let mut data = json(items);
    assert!(apply_filter(&mut data, "v").is_ok());
    assert!(same(&data, r#"[{"v": 0}, {"v": "x"}]"#));
    let mut data = json(items);
    assert!(apply_filter(&mut data, "&v").is_ok());
    assert!(same(&data, "[]"));
}
