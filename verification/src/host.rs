//! The component as its host runs it: payloads, schemas and its description.
use crate::json::{self, entry, Json, JsonView, Number};
use crate::json_text::{self, from_value, to_value};
use crate::modes::{self, run_operation, NormalizedMode, Operation};
use crate::text;
use greentic_types::cbor::canonical;
use greentic_types::i18n_text::I18nText;
use greentic_types::schemas::common::schema_ir::{AdditionalProperties, SchemaIr};
use greentic_types::schemas::component::v0_6_0::{
    ComponentDescribe, ComponentInfo, ComponentOperation, ComponentRunInput, ComponentRunOutput,
};
use vstd::prelude::*;

verus! {

/// What `greentic_types` reads from bytes as CBOR into a `serde_json::Value`.
pub uninterp spec fn value_of_cbor(bytes: Seq<u8>) -> Option<JsonView>;

/// What `serde_json` reads from bytes.
pub uninterp spec fn value_of_bytes(bytes: Seq<u8>) -> Option<JsonView>;

/// Whether a value that may be absent nests at most `limit` deep.
pub open spec fn opt_nests_within(value: Option<JsonView>, limit: nat) -> bool {
    value matches Some(value) ==> json_text::nests_within(value, limit)
}

/// `greentic_types::cbor::canonical::from_cbor` into a `serde_json::Value`. Its
/// reader gives up on arrays and maps that nest more than 256 deep.
#[verifier::external_body]
fn read_cbor(bytes: &Vec<u8>) -> (r: Option<serde_json::Value>)
    ensures
        json_text::opt_value(r) == value_of_cbor(bytes@),
        opt_nests_within(json_text::opt_value(r), 256),
{
    canonical::from_cbor(bytes).ok()
}

/// `serde_json::from_slice` into a `serde_json::Value`. Its reader gives up on
/// arrays and objects that nest too deep.
#[verifier::external_body]
fn read_bytes(bytes: &Vec<u8>) -> (r: Option<serde_json::Value>)
    ensures
        json_text::opt_value(r) == value_of_bytes(bytes@),
        opt_nests_within(json_text::opt_value(r), 128),
{
    serde_json::from_slice(bytes).ok()
}

/// The payload that bytes carry: CBOR, else JSON, else an empty object.
pub open spec fn payload_in(bytes: Seq<u8>) -> JsonView {
    match value_of_cbor(bytes) {
        Some(value) => value,
        None => match value_of_bytes(bytes) {
            Some(value) => value,
            None => json::empty_object(),
        },
    }
}

/// Reads the payload that bytes carry.
pub fn parse_payload(input: &Vec<u8>) -> (r: Json)
    ensures
        r@ == payload_in(input@),
{
    if let Some(value) = read_cbor(input) {
        return from_value(&value, 256);
    }
    match read_bytes(input) {
        Some(value) => from_value(&value, 128),
        None => Json::empty(),
    }
}

/// The canonical CBOR that `greentic_types` writes for a value, or what it
/// reports.
pub uninterp spec fn canonical_cbor(value: JsonView) -> Result<Seq<u8>, Seq<char>>;

/// What was written, viewed.
pub open spec fn written(r: Result<Vec<u8>, String>) -> Result<Seq<u8>, Seq<char>> {
    match r {
        Ok(bytes) => Ok(bytes@),
        Err(message) => Err(message@),
    }
}

/// Whether no key in a value has more than 1024 characters, which the reader's
/// buffer of 4096 bytes holds in any case.
pub open spec fn short_keys(value: JsonView) -> bool
    decreases value,
{
    match value {
        JsonView::Array(items) => forall|i: int|
            0 <= i < items.len() ==> short_keys(#[trigger] items[i]),
        JsonView::Object(members) => forall|i: int|
            0 <= i < members.len() ==> (#[trigger] members[i]).0.len() <= 1024 && short_keys(
                members[i].1,
            ),
        _ => true,
    }
}

/// Whether what was written for a value reads back as that value, where the value
/// holds no doubles and no long keys.
pub open spec fn cbor_reads_back(written: Result<Seq<u8>, Seq<char>>, value: JsonView) -> bool {
    written matches Ok(bytes) ==> json_text::without_doubles(value) && short_keys(value)
        ==> value_of_cbor(bytes) == Some(value)
}

/// `greentic_types::cbor::canonical::to_canonical_cbor_allow_floats` on a
/// `serde_json::Value`, and what `from_cbor` reads from the bytes: the value. Its
/// reader refuses the first key of a map where that is longer than its buffer, and
/// nothing is said of doubles.
#[verifier::external_body]
fn write_canonical(value: &serde_json::Value) -> (r: Result<Vec<u8>, String>)
    ensures
        written(r) == canonical_cbor(json_text::value_view(*value)),
        cbor_reads_back(written(r), json_text::value_view(*value)),
{
    canonical::to_canonical_cbor_allow_floats(value).map_err(|error| error.to_string())
}

/// Writes a value for the host. Without doubles and long keys in it, the host's
/// payload reads back as the value.
pub fn encode_cbor(value: &Json) -> (r: Result<Vec<u8>, String>)
    ensures
        written(r) == canonical_cbor(json_text::clean(value@)),
        r matches Ok(bytes) ==> json_text::without_doubles(json_text::clean(value@)) && short_keys(
            json_text::clean(value@),
        ) ==> payload_in(bytes@) == json_text::clean(value@),
{
    write_canonical(&to_value(value))
}

/// The payload for an application of answers.
pub open spec fn application_payload(mode: NormalizedMode, config: Seq<u8>, answers: Seq<u8>)
    -> JsonView {
    JsonView::Object(
        seq![
            ("answers"@, payload_in(answers)),
            ("current_config"@, payload_in(config)),
            ("mode"@, JsonView::String(modes::mode_label(mode))),
        ],
    )
}

/// Makes the payload for an application of answers.
pub fn answers_payload(mode: NormalizedMode, current_config: &Vec<u8>, answers: &Vec<u8>) -> (r:
    Json)
    ensures
        r@ == application_payload(mode, current_config@, answers@),
{
    let members = vec![
        entry("answers", parse_payload(answers)),
        entry("current_config", parse_payload(current_config)),
        entry("mode", Json::string(mode.as_str())),
    ];
    assert(json::entries_view(members@) =~= application_payload(
        mode,
        current_config@,
        answers@,
    )->Object_0);
    Json::object(members)
}

/// What a run of the component is asked to do: its payload and the operation.
#[derive(Debug, PartialEq)]
pub struct RunRequest {
    pub payload: Json,
    pub operation: Operation,
}

/// What a run of the component came to. The state is handed back as it came.
#[derive(Debug, PartialEq)]
pub struct RunResult {
    pub output: Vec<u8>,
    pub new_state: Vec<u8>,
}

/// Reads what a run of the component is asked to do.
pub fn read_run(input: &Vec<u8>) -> (r: RunRequest)
    ensures
        r.payload@ == payload_in(input@),
        r.operation@ == modes::operation_of(payload_in(input@)),
{
    let payload = parse_payload(input);
    let operation = run_operation(&payload);
    RunRequest { payload, operation }
}

/// Ends a run of the component with its reply.
pub fn finish_run(reply: &Json, state: Vec<u8>) -> (r: Result<RunResult, String>)
    ensures
        match r {
            Ok(result) => canonical_cbor(json_text::clean(reply@)) == Ok::<Seq<u8>, Seq<char>>(
                result.output@,
            ) && result.new_state == state,
            Err(message) => canonical_cbor(json_text::clean(reply@)) == Err::<Seq<u8>, Seq<char>>(
                message@,
            ),
        },
{
    match encode_cbor(reply) {
        Ok(output) => Ok(RunResult { output, new_state: state }),
        Err(message) => Err(message),
    }
}

/// The schemas of the `greentic_types` crate.
#[verifier::external_type_specification]
#[verifier::external_body]
pub struct ExSchema(greentic_types::schemas::common::schema_ir::SchemaIr);

/// What a schema of `greentic_types` is serialised as.
pub uninterp spec fn schema_value(
    schema: greentic_types::schemas::common::schema_ir::SchemaIr,
) -> JsonView;

/// A schema for texts of at least some length.
pub open spec fn text_schema_json(min_len: u64) -> JsonView {
    JsonView::Object(
        seq![
            ("format"@, JsonView::Null),
            ("max_len"@, JsonView::Null),
            ("min_len"@, JsonView::Number(Number::PosInt(min_len))),
            ("regex"@, JsonView::Null),
            ("type"@, JsonView::String("string"@)),
        ],
    )
}

/// A schema for objects with a text under one key. An open one lets other keys
/// in.
pub open spec fn object_schema_json(
    key: Seq<char>,
    min_len: u64,
    required: Seq<Seq<char>>,
    open_to_others: bool,
) -> JsonView {
    let others = if open_to_others {
        "allow"@
    } else {
        "forbid"@
    };
    JsonView::Object(
        seq![
            ("additional"@, JsonView::Object(seq![("type"@, JsonView::String(others))])),
            ("properties"@, JsonView::Object(seq![(key, text_schema_json(min_len))])),
            ("required"@, json::strings(required)),
            ("type"@, JsonView::String("object"@)),
        ],
    )
}

/// Makes a `SchemaIr` of `greentic_types` for objects with one string property,
/// which is serialised with a `type`, its limits and what it says of other
/// properties.
#[verifier::external_body]
fn make_schema(key: &str, min_len: u64, required: Vec<String>, open_to_others: bool) -> (r:
    greentic_types::schemas::common::schema_ir::SchemaIr)
    ensures
        schema_value(r) == object_schema_json(key@, min_len, text::texts(required@), open_to_others),
{
    let (max_len, regex, format) = (None, None, None);
    let text = SchemaIr::String { min_len: Some(min_len), max_len, regex, format };
    let additional = match open_to_others {
        true => AdditionalProperties::Allow,
        false => AdditionalProperties::Forbid,
    };
    let properties = [(key.to_string(), text)].into();
    SchemaIr::Object { properties, required, additional }
}

/// The schema of what a run is given.
pub open spec fn input_schema_json() -> JsonView {
    object_schema_json("operation"@, 0, Seq::empty(), true)
}

/// The schema of what a run gives.
pub open spec fn output_schema_json() -> JsonView {
    object_schema_json("message"@, 0, Seq::empty(), true)
}

/// The schema of the configuration.
pub open spec fn config_schema_json() -> JsonView {
    object_schema_json("qa_form_asset_path"@, 1, seq!["qa_form_asset_path"@], false)
}

fn input_ir() -> (r: greentic_types::schemas::common::schema_ir::SchemaIr)
    ensures
        schema_value(r) == input_schema_json(),
{
    let none: Vec<String> = Vec::new();
    assert(text::texts(none@) =~= Seq::empty());
    make_schema("operation", 0, none, true)
}

fn output_ir() -> (r: greentic_types::schemas::common::schema_ir::SchemaIr)
    ensures
        schema_value(r) == output_schema_json(),
{
    let none: Vec<String> = Vec::new();
    assert(text::texts(none@) =~= Seq::empty());
    make_schema("message", 0, none, true)
}

fn config_ir() -> (r: greentic_types::schemas::common::schema_ir::SchemaIr)
    ensures
        schema_value(r) == config_schema_json(),
{
    let required = vec!["qa_form_asset_path".to_owned()];
    assert(text::texts(required@) =~= seq!["qa_form_asset_path"@]);
    make_schema("qa_form_asset_path", 1, required, false)
}

/// `greentic_types::cbor::canonical::to_canonical_cbor_allow_floats` on a
/// `SchemaIr`, which writes what it is serialised as.
#[verifier::external_body]
fn write_schema(schema: &greentic_types::schemas::common::schema_ir::SchemaIr) -> (r: Result<
    Vec<u8>,
    String,
>)
    ensures
        written(r) == canonical_cbor(schema_value(*schema)),
{
    canonical::to_canonical_cbor_allow_floats(schema).map_err(|error| error.to_string())
}

/// The schema of what a run is given.
pub fn input_schema() -> (r: Result<Vec<u8>, String>)
    ensures
        written(r) == canonical_cbor(input_schema_json()),
{
    write_schema(&input_ir())
}

/// The schema of what a run gives.
pub fn output_schema() -> (r: Result<Vec<u8>, String>)
    ensures
        written(r) == canonical_cbor(output_schema_json()),
{
    write_schema(&output_ir())
}

/// The schema of the configuration.
pub fn config_schema() -> (r: Result<Vec<u8>, String>)
    ensures
        written(r) == canonical_cbor(config_schema_json()),
{
    write_schema(&config_ir())
}

/// The hash that `greentic_types` computes for the schemas of an operation.
pub uninterp spec fn schema_hash_of(input: JsonView, output: JsonView, config: JsonView) -> Option<
    Seq<char>,
>;

/// `greentic_types::schemas::component::v0_6_0::schema_hash`, which hashes what
/// the three schemas are serialised as.
#[verifier::external_body]
fn hash_schemas(
    input: &greentic_types::schemas::common::schema_ir::SchemaIr,
    output: &greentic_types::schemas::common::schema_ir::SchemaIr,
    config: &greentic_types::schemas::common::schema_ir::SchemaIr,
) -> (r: Option<String>)
    ensures
        text::opt_text(r) == schema_hash_of(
            schema_value(*input),
            schema_value(*output),
            schema_value(*config),
        ),
{
    greentic_types::schemas::component::v0_6_0::schema_hash(input, output, config).ok()
}

/// The component descriptions of the `greentic_types` crate.
#[verifier::external_type_specification]
#[verifier::external_body]
pub struct ExInfo(greentic_types::schemas::component::v0_6_0::ComponentInfo);

/// What a component's metadata is serialised as.
pub uninterp spec fn info_value(
    info: greentic_types::schemas::component::v0_6_0::ComponentInfo,
) -> JsonView;

/// A text under a key.
pub open spec fn labelled(key: Seq<char>, fallback: Seq<char>) -> JsonView {
    JsonView::Object(
        seq![("fallback"@, JsonView::String(fallback)), ("key"@, JsonView::String(key))],
    )
}

/// A component's metadata.
pub open spec fn info_json(
    id: Seq<char>,
    version: Seq<char>,
    role: Seq<char>,
    name_key: Seq<char>,
    name: Seq<char>,
) -> JsonView {
    JsonView::Object(
        seq![
            ("display_name"@, labelled(name_key, name)),
            ("id"@, JsonView::String(id)),
            ("role"@, JsonView::String(role)),
            ("version"@, JsonView::String(version)),
        ],
    )
}

/// Makes a `ComponentInfo` of `greentic_types`, which is serialised with all of
/// its fields.
#[verifier::external_body]
fn make_info(id: String, version: String, role: String, name_key: String, name: String) -> (r:
    greentic_types::schemas::component::v0_6_0::ComponentInfo)
    ensures
        info_value(r) == info_json(id@, version@, role@, name_key@, name@),
{
    let display_name = Some(I18nText::new(name_key, Some(name)));
    ComponentInfo { id, version, role, display_name }
}

/// The metadata of this component.
pub open spec fn own_info() -> JsonView {
    info_json(
        "ai.greentic.component-qa"@,
        "0.1.0"@,
        "tool"@,
        "component.display_name"@,
        "component-qa"@,
    )
}

fn own_info_made() -> (r: greentic_types::schemas::component::v0_6_0::ComponentInfo)
    ensures
        info_value(r) == own_info(),
{
    make_info(
        "ai.greentic.component-qa".to_owned(),
        "0.1.0".to_owned(),
        "tool".to_owned(),
        "component.display_name".to_owned(),
        "component-qa".to_owned(),
    )
}

/// `greentic_types::cbor::canonical::to_canonical_cbor_allow_floats` on a
/// `ComponentInfo`, which writes what it is serialised as.
#[verifier::external_body]
fn write_info(info: &greentic_types::schemas::component::v0_6_0::ComponentInfo) -> (r: Result<
    Vec<u8>,
    String,
>)
    ensures
        written(r) == canonical_cbor(info_value(*info)),
{
    canonical::to_canonical_cbor_allow_floats(info).map_err(|error| error.to_string())
}

/// The metadata of this component.
pub fn component_info() -> (r: Result<Vec<u8>, String>)
    ensures
        written(r) == canonical_cbor(own_info()),
{
    write_info(&own_info_made())
}

/// A description with one operation, without capabilities, metadata, defaults,
/// redactions, constraints and outcomes.
pub open spec fn description_json(
    info: JsonView,
    id: Seq<char>,
    name_key: Seq<char>,
    name: Seq<char>,
    input: JsonView,
    output: JsonView,
    config: JsonView,
    hash: Seq<char>,
) -> JsonView {
    let operation = JsonView::Object(
        seq![
            ("constraints"@, json::empty_object()),
            ("defaults"@, json::empty_object()),
            ("display_name"@, labelled(name_key, name)),
            ("id"@, JsonView::String(id)),
            ("input"@, JsonView::Object(seq![("schema"@, input)])),
            ("output"@, JsonView::Object(seq![("schema"@, output)])),
            ("redactions"@, JsonView::Array(Seq::empty())),
            ("schema_hash"@, JsonView::String(hash)),
        ],
    );
    JsonView::Object(
        seq![
            ("config_schema"@, config),
            ("info"@, info),
            ("metadata"@, json::empty_object()),
            ("operations"@, JsonView::Array(seq![operation])),
            ("outcomes"@, JsonView::Array(Seq::empty())),
            ("provided_capabilities"@, JsonView::Array(Seq::empty())),
            ("required_capabilities"@, JsonView::Array(Seq::empty())),
        ],
    )
}

/// `greentic_types::cbor::canonical::to_canonical_cbor_allow_floats` on a
/// `ComponentDescribe` with one operation, which writes what it is serialised as.
#[verifier::external_body]
fn write_description(
    info: greentic_types::schemas::component::v0_6_0::ComponentInfo,
    id: &str,
    name_key: &str,
    name: &str,
    input: greentic_types::schemas::common::schema_ir::SchemaIr,
    output: greentic_types::schemas::common::schema_ir::SchemaIr,
    config: greentic_types::schemas::common::schema_ir::SchemaIr,
    hash: String,
) -> (r: Result<Vec<u8>, String>)
    ensures
        written(r) == canonical_cbor(
            description_json(
                info_value(info),
                id@,
                name_key@,
                name@,
                schema_value(input),
                schema_value(output),
                schema_value(config),
                hash@,
            ),
        ),
{
    let operations = vec![ComponentOperation {
        id: id.to_string(), schema_hash: hash,
        display_name: Some(I18nText::new(name_key, Some(name.to_string()))),
        input: ComponentRunInput { schema: input }, output: ComponentRunOutput { schema: output },
        defaults: Default::default(), redactions: vec![], constraints: Default::default(),
    }];
    let description = ComponentDescribe {
        info, operations, config_schema: config, metadata: Default::default(),
        provided_capabilities: vec![], required_capabilities: vec![], outcomes: vec![],
    };
    canonical::to_canonical_cbor_allow_floats(&description).map_err(|error| error.to_string())
}

/// The description of this component.
pub open spec fn own_description() -> JsonView {
    description_json(
        own_info(),
        "run"@,
        "operation.run"@,
        "Run"@,
        input_schema_json(),
        output_schema_json(),
        config_schema_json(),
        match schema_hash_of(input_schema_json(), output_schema_json(), config_schema_json()) {
            Some(hash) => hash,
            None => Seq::empty(),
        },
    )
}

/// Describes this component.
pub fn component_describe() -> (r: Result<Vec<u8>, String>)
    ensures
        written(r) == canonical_cbor(own_description()),
{
    let input = input_ir();
    let output = output_ir();
    let config = config_ir();
    let hash = match hash_schemas(&input, &output, &config) {
        Some(hash) => hash,
        None => String::new(),
    };
    write_description(own_info_made(), "run", "operation.run", "Run", input, output, config, hash)
}

/// The bytes of a payload are read as CBOR, or else as JSON. Bytes that are neither
/// hold an empty object.
pub proof fn law_payload_bytes(bytes: Seq<u8>)
    ensures
        value_of_cbor(bytes) matches Some(value) ==> payload_in(bytes) == value,
        value_of_cbor(bytes) is None ==> (value_of_bytes(bytes) matches Some(value) ==> payload_in(
            bytes,
        ) == value),
        value_of_cbor(bytes) is None && value_of_bytes(bytes) is None ==> payload_in(bytes)
            == JsonView::Object(Seq::empty()),
{
}

/// What a host hands over is asked for in its mode, with its answers and its current
/// configuration each in its place.
pub proof fn law_application_payload(mode: NormalizedMode, config: Seq<u8>, answers: Seq<u8>)
    ensures
        ({
            let payload = application_payload(mode, config, answers);
            &&& json::member(payload, "answers"@) == Some(payload_in(answers))
            &&& json::member(payload, "current_config"@) == Some(payload_in(config))
            &&& modes::current_config_in(payload) == payload_in(config)
            &&& modes::mode_in(payload) == mode
        }),
{
    reveal_strlit("answers");
    reveal_strlit("current_config");
    reveal_strlit("mode");
    assert("answers"@[0] == 'a' && "current_config"@[0] == 'c' && "mode"@[0] == 'm');
    let members = application_payload(mode, config, answers)->Object_0;
    crate::entries::law_lookup_finds_the_first(members, 0);
    crate::entries::law_lookup_finds_the_first(members, 1);
    crate::entries::law_lookup_finds_the_first(members, 2);
    modes::law_mode_label_round_trip(mode);
}

/// An object's schema has the one key that it speaks of, a text of at least some
/// length, requires what it is told, and says whether it is open to other keys.
pub proof fn law_object_schema(
    key: Seq<char>,
    min_len: u64,
    required: Seq<Seq<char>>,
    open_to_others: bool,
)
    ensures
        ({
            let schema = object_schema_json(key, min_len, required, open_to_others);
            let properties = json::member(schema, "properties"@);
            let text = json::member(properties->0, key);
            let additional = json::member(schema, "additional"@);
            &&& json::member(schema, "type"@) == Some(JsonView::String("object"@))
            &&& json::member(schema, "required"@) == Some(json::strings(required))
            &&& properties is Some && text is Some
            &&& json::member(text->0, "type"@) == Some(JsonView::String("string"@))
            &&& json::member(text->0, "min_len"@) == Some(JsonView::Number(Number::PosInt(min_len)))
            &&& json::member(text->0, "max_len"@) == Some(JsonView::Null)
            &&& additional is Some
            &&& json::member(additional->0, "type"@) == Some(
                JsonView::String(
                    if open_to_others {
                        "allow"@
                    } else {
                        "forbid"@
                    },
                ),
            )
        }),
{
    reveal_strlit("additional");
    reveal_strlit("properties");
    reveal_strlit("required");
    reveal_strlit("type");
    reveal_strlit("format");
    reveal_strlit("max_len");
    reveal_strlit("min_len");
    reveal_strlit("regex");
    assert("additional"@[0] == 'a' && "properties"@[0] == 'p' && "required"@[0] == 'r');
    assert("type"@[0] == 't' && "format"@[0] == 'f' && "regex"@[0] == 'r');
    assert("max_len"@[0] == 'm' && "min_len"@[0] == 'm');
    assert("max_len"@[1] == 'a' && "min_len"@[1] == 'i');
    let schema = object_schema_json(key, min_len, required, open_to_others)->Object_0;
    crate::entries::law_lookup_finds_the_first(schema, 0);
    crate::entries::law_lookup_finds_the_first(schema, 1);
    crate::entries::law_lookup_finds_the_first(schema, 2);
    crate::entries::law_lookup_finds_the_first(schema, 3);
    crate::entries::law_lookup_finds_the_first(schema[1].1->Object_0, 0);
    crate::entries::law_lookup_finds_the_first(schema[0].1->Object_0, 0);
    let text = text_schema_json(min_len)->Object_0;
    crate::entries::law_lookup_finds_the_first(text, 1);
    crate::entries::law_lookup_finds_the_first(text, 2);
    crate::entries::law_lookup_finds_the_first(text, 4);
}

/// A component is told by its id, its version, its role and its name.
pub proof fn law_component_info(
    id: Seq<char>,
    version: Seq<char>,
    role: Seq<char>,
    name_key: Seq<char>,
    name: Seq<char>,
)
    ensures
        ({
            let info = info_json(id, version, role, name_key, name);
            let shown = json::member(info, "display_name"@);
            &&& json::member(info, "id"@) == Some(JsonView::String(id))
            &&& json::member(info, "version"@) == Some(JsonView::String(version))
            &&& json::member(info, "role"@) == Some(JsonView::String(role))
            &&& shown is Some
            &&& json::member(shown->0, "key"@) == Some(JsonView::String(name_key))
            &&& json::member(shown->0, "fallback"@) == Some(JsonView::String(name))
        }),
{
    reveal_strlit("display_name");
    reveal_strlit("id");
    reveal_strlit("role");
    reveal_strlit("version");
    reveal_strlit("fallback");
    reveal_strlit("key");
    assert("display_name"@[0] == 'd' && "id"@[0] == 'i' && "role"@[0] == 'r');
    assert("version"@[0] == 'v' && "fallback"@[0] == 'f' && "key"@[0] == 'k');
    let info = info_json(id, version, role, name_key, name)->Object_0;
    crate::entries::law_lookup_finds_the_first(info, 0);
    crate::entries::law_lookup_finds_the_first(info, 1);
    crate::entries::law_lookup_finds_the_first(info, 2);
    crate::entries::law_lookup_finds_the_first(info, 3);
    let shown = labelled(name_key, name)->Object_0;
    crate::entries::law_lookup_finds_the_first(shown, 0);
    crate::entries::law_lookup_finds_the_first(shown, 1);
}

/// A component's description holds what is told of it, its configuration's schema,
/// and its one operation with the schemas of its input and its output.
pub proof fn law_component_description(
    info: JsonView,
    id: Seq<char>,
    name_key: Seq<char>,
    name: Seq<char>,
    input: JsonView,
    output: JsonView,
    config: JsonView,
    hash: Seq<char>,
)
    ensures
        ({
            let told = description_json(info, id, name_key, name, input, output, config, hash);
            let operations = json::member_items(told, "operations"@);
            let takes = json::member(operations[0], "input"@);
            let gives = json::member(operations[0], "output"@);
            &&& json::member(told, "info"@) == Some(info)
            &&& json::member(told, "config_schema"@) == Some(config)
            &&& operations.len() == 1
            &&& json::member(operations[0], "id"@) == Some(JsonView::String(id))
            &&& json::member(operations[0], "schema_hash"@) == Some(JsonView::String(hash))
            &&& takes is Some && json::member(takes->0, "schema"@) == Some(input)
            &&& gives is Some && json::member(gives->0, "schema"@) == Some(output)
        }),
{
    reveal_strlit("config_schema");
    reveal_strlit("info");
    reveal_strlit("metadata");
    reveal_strlit("operations");
    reveal_strlit("constraints");
    reveal_strlit("defaults");
    reveal_strlit("display_name");
    reveal_strlit("id");
    reveal_strlit("input");
    reveal_strlit("output");
    reveal_strlit("redactions");
    reveal_strlit("schema_hash");
    assert("config_schema"@[0] == 'c' && "info"@[0] == 'i' && "metadata"@[0] == 'm');
    assert("operations"@[0] == 'o' && "constraints"@[0] == 'c' && "defaults"@[0] == 'd');
    assert("display_name"@[0] == 'd' && "id"@.len() == 2 && "input"@.len() == 5);
    assert("id"@[0] == 'i' && "input"@[0] == 'i' && "output"@[0] == 'o');
    assert("redactions"@[0] == 'r' && "schema_hash"@[0] == 's');
    let told = description_json(info, id, name_key, name, input, output, config, hash)->Object_0;
    crate::entries::law_lookup_finds_the_first(told, 0);
    crate::entries::law_lookup_finds_the_first(told, 1);
    crate::entries::law_lookup_finds_the_first(told, 3);
    let operation = told[3].1->Array_0[0]->Object_0;
    crate::entries::law_lookup_finds_the_first(operation, 3);
    crate::entries::law_lookup_finds_the_first(operation, 4);
    crate::entries::law_lookup_finds_the_first(operation, 5);
    crate::entries::law_lookup_finds_the_first(operation, 7);
    crate::entries::law_lookup_finds_the_first(operation[4].1->Object_0, 0);
    crate::entries::law_lookup_finds_the_first(operation[5].1->Object_0, 0);
}

} // verus!
