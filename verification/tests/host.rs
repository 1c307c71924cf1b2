//! The component as its host runs it.
use greentic_qa::host::{
    answers_payload, component_describe, component_info, config_schema, encode_cbor, finish_run,
    input_schema, output_schema, parse_payload, read_run,
};
use greentic_qa::json::{Json, Number};
use greentic_qa::json_text::{parse_json, render_json};
use greentic_qa::modes::{NormalizedMode, Operation};
use greentic_qa::text::encode_hex;
use greentic_types::cbor::canonical;
use greentic_types::schemas::common::schema_ir::SchemaIr;
use greentic_types::schemas::component::v0_6_0::{schema_hash, ComponentDescribe, ComponentInfo};

fn json(text: &str) -> Json {
    parse_json(text).unwrap()
}

#[test]
fn payloads_are_cbor_or_json_or_nothing() {
    assert_eq!(parse_payload(&vec![0xa1, 0x61, b'a', 0x01]), json(r#"{"a":1}"#));
    assert_eq!(parse_payload(&br#"{"a":"b"}"#.to_vec()), json(r#"{"a":"b"}"#));
    assert_eq!(parse_payload(&Vec::new()), json("{}"));
    assert_eq!(parse_payload(&b"{\"a\"".to_vec()), json("{}"));
}

#[test]
fn what_is_written_reads_back() {
    let value = json(r#"{"long":[1,-2,{"b":null}],"a":true,"s":"text"}"#);
    let bytes = encode_cbor(&value).unwrap();
    assert_eq!(parse_payload(&bytes), value);
    assert_eq!(encode_hex(&encode_cbor(&json(r#"{"bb":1,"a":true}"#)).unwrap()), "a26161f562626201");
    let double = Json::Number(Number::Float(1.5f64.to_bits()));
    assert_eq!(parse_payload(&encode_cbor(&double).unwrap()), double);
}

#[test]
fn long_keys_are_read_where_a_short_one_comes_first() {
    let long = "k".repeat(5000);
    let value = json(&format!(r#"{{"{long}":1,"a":2}}"#));
    assert_eq!(parse_payload(&encode_cbor(&value).unwrap()), value);
    let value = json(&format!(r#"{{"{long}":1}}"#));
    assert_eq!(parse_payload(&encode_cbor(&value).unwrap()), json("{}"));
}

#[test]
fn applications_of_answers_have_a_payload() {
    let config = encode_cbor(&json(r#"{"x":1}"#)).unwrap();
    let payload = answers_payload(NormalizedMode::Update, &config, &b"{\"a\":2}".to_vec());
    assert_eq!(
        render_json(&payload),
        r#"{"answers":{"a":2},"current_config":{"x":1},"mode":"update"}"#
    );
}

#[test]
fn runs_are_read_and_ended() {
    let run = read_run(&br#"{"operation":"i18n-keys"}"#.to_vec());
    assert_eq!(run.operation, Operation::I18nKeys);
    assert_eq!(run.payload, json(r#"{"operation":"i18n-keys"}"#));
    let result = finish_run(&json(r#"["k"]"#), vec![7]).unwrap();
    assert_eq!(parse_payload(&result.output), json(r#"["k"]"#));
    assert_eq!(result.new_state, vec![7]);
}

#[test]
fn the_component_describes_itself() {
    let info: ComponentInfo = canonical::from_cbor(&component_info().unwrap()).unwrap();
    assert_eq!(info.id, "ai.greentic.component-qa");
    assert_eq!(info.role, "tool");
    let described: ComponentDescribe =
        canonical::from_cbor(&component_describe().unwrap()).unwrap();
    assert_eq!(described.info, info);
    let read = |bytes: Vec<u8>| -> SchemaIr { canonical::from_cbor(&bytes).unwrap() };
    let input = read(input_schema().unwrap());
    let output = read(output_schema().unwrap());
    let config = read(config_schema().unwrap());
    assert_eq!(described.config_schema, config);
    assert_eq!(described.operations.len(), 1);
    let run = &described.operations[0];
    assert_eq!(run.id, "run");
    assert_eq!(run.input.schema, input);
    assert_eq!(run.output.schema, output);
    assert_eq!(run.schema_hash, schema_hash(&input, &output, &config).unwrap());
    assert_eq!(
        render_json(&parse_payload(&config_schema().unwrap())),
        r#"{"additional":{"type":"forbid"},"properties":{"qa_form_asset_path":{"format":null,"max_len":null,"min_len":1,"regex":null,"type":"string"}},"required":["qa_form_asset_path"],"type":"object"}"#
    );
    assert_eq!(
        render_json(&parse_payload(&component_info().unwrap())),
        r#"{"display_name":{"fallback":"component-qa","key":"component.display_name"},"id":"ai.greentic.component-qa","role":"tool","version":"0.1.0"}"#
    );
    let shown = |bytes: Vec<u8>| render_json(&parse_payload(&bytes));
    let operation = format!(
        r#"{{"constraints":{{}},"defaults":{{}},"display_name":{{"fallback":"Run","key":"operation.run"}},"id":"run","input":{{"schema":{}}},"output":{{"schema":{}}},"redactions":[],"schema_hash":"{}"}}"#,
        shown(input_schema().unwrap()),
        shown(output_schema().unwrap()),
        run.schema_hash
    );
    assert_eq!(
        shown(component_describe().unwrap()),
        format!(
            r#"{{"config_schema":{},"info":{},"metadata":{{}},"operations":[{operation}],"outcomes":[],"provided_capabilities":[],"required_capabilities":[]}}"#,
            shown(config_schema().unwrap()),
            shown(component_info().unwrap())
        )
    );
}
