use tr064_bindgen::api_desc::Action;
use tr064_bindgen::api_desc::ActionList;
use tr064_bindgen::api_desc::AllowedValueList;
use tr064_bindgen::api_desc::ApiDesc;
use tr064_bindgen::api_desc::Argument;
use tr064_bindgen::api_desc::ArgumentList;
use tr064_bindgen::api_desc::ServiceStateTable;
use tr064_bindgen::api_desc::StateVariable;
use tr064_bindgen::api_desc_dir::SpecVersion;
use tr064_bindgen::error::GenError;
use tr064_bindgen::output::OutputFiles;

fn state_var(name: &str, data_type: &str) -> StateVariable {
    StateVariable {
        name: name.to_string(),
        data_type: data_type.to_string(),
        default_value: String::new(),
        allowed_value_list: AllowedValueList { allowed_value: vec![] },
    }
}

fn argument(name: &str, direction: &str, related: &str) -> Argument {
    Argument {
        name: name.to_string(),
        direction: direction.to_string(),
        related_state_variable: related.to_string(),
    }
}

fn schema(actions: Vec<Action>, vars: Vec<StateVariable>) -> ApiDesc {
    ApiDesc {
        spec_version: SpecVersion { major: 1, minor: 0 },
        action_list: ActionList { action: actions },
        service_state_table: ServiceStateTable { state_variable: vars },
    }
}

fn action(name: &str, args: Vec<Argument>) -> Action {
    Action {
        name: name.to_string(),
        argument_list: ArgumentList { argument: args },
    }
}

#[test]
fn rustify_plain_camel_case() {
    let api = schema(vec![], vec![]);
    assert_eq!(api.rustify_string("GetInfo"), "get_info");
}

#[test]
fn rustify_vendor_prefix() {
    let api = schema(vec![], vec![]);
    assert_eq!(
        api.rustify_string("NewX_AVM-DE_DisallowedClients"),
        "new_x_avm_de_disallowed_clients"
    );
}

#[test]
fn rustify_acronym_run() {
    let api = schema(vec![], vec![]);
    assert_eq!(api.rustify_string("WANIPConnection"), "wan_ip_connection");
}

#[test]
fn rustify_is_deterministic_and_lowercase() {
    let api = schema(vec![], vec![]);
    let one = api.rustify_string("NewExternalIPAddress");
    let two = api.rustify_string("NewExternalIPAddress");
    assert_eq!(one, two);
    assert!(!one.chars().any(|c| c.is_ascii_uppercase()));
    assert!(!one.starts_with(|c: char| c.is_ascii_digit()));
}

#[test]
fn rustify_unknown_acronym_degrades_per_letter() {
    let api = schema(vec![], vec![]);
    assert_eq!(api.rustify_string("QQVal"), "q_q_val");
}

#[test]
fn resolver_maps_boolean() {
    let api = schema(vec![], vec![state_var("Enabled", "boolean")]);
    assert_eq!(api.search_state_variable_type("Enabled").unwrap(), "bool");
}

#[test]
fn resolver_maps_integers_and_text() {
    let api = schema(
        vec![],
        vec![
            state_var("A", "ui1"),
            state_var("B", "ui2"),
            state_var("C", "ui4"),
            state_var("D", "i1"),
            state_var("E", "i2"),
            state_var("F", "i4"),
            state_var("G", "string"),
            state_var("H", "uuid"),
            state_var("I", "dateTime"),
        ],
    );
    assert_eq!(api.search_state_variable_type("A").unwrap(), "u32");
    assert_eq!(api.search_state_variable_type("B").unwrap(), "u32");
    assert_eq!(api.search_state_variable_type("C").unwrap(), "u32");
    assert_eq!(api.search_state_variable_type("D").unwrap(), "i32");
    assert_eq!(api.search_state_variable_type("E").unwrap(), "i32");
    assert_eq!(api.search_state_variable_type("F").unwrap(), "i32");
    assert_eq!(api.search_state_variable_type("G").unwrap(), "String");
    assert_eq!(api.search_state_variable_type("H").unwrap(), "String");
    assert_eq!(api.search_state_variable_type("I").unwrap(), "String");
}

#[test]
fn resolver_missing_name_is_schema_inconsistency() {
    let api = schema(vec![], vec![state_var("Enabled", "boolean")]);
    let err = api.search_state_variable_type("Missing").unwrap_err();
    assert!(matches!(err, GenError::SchemaInconsistency(ref n) if n == "Missing"));
}

#[test]
fn resolver_unmapped_type_surfaces_literal() {
    let api = schema(vec![], vec![state_var("Rate", "float")]);
    let err = api.search_state_variable_type("Rate").unwrap_err();
    assert!(matches!(err, GenError::UnmappedType(ref t) if t == "float"));
}

#[test]
fn resolver_first_match_wins() {
    let api = schema(
        vec![],
        vec![state_var("Two", "boolean"), state_var("Two", "ui4")],
    );
    assert_eq!(api.search_state_variable_type("Two").unwrap(), "bool");
}

#[test]
fn fill_synthesizes_boolean_field() {
    let api = schema(
        vec![action(
            "GetStatus",
            vec![argument("NewStatus", "out", "Status")],
        )],
        vec![state_var("Status", "boolean")],
    );
    let mut out = OutputFiles::new();
    api.fill_output_files(
        &mut out,
        "WANIPConnection",
        "/upnp/control/x",
        "urn:schemas-upnp-org:service:WANIPConnection:1",
    )
    .unwrap();
    let content = out.response_files[0].content.join("");
    assert!(content.contains("\tpub new_status: bool,\n"));
    assert!(content.contains("\t#[serde(rename = \"NewStatus\")]\n"));
}

#[test]
fn fill_unresolvable_reference_emits_nothing() {
    let api = schema(
        vec![action("Get", vec![argument("NewValue", "out", "Absent")])],
        vec![state_var("Present", "boolean")],
    );
    let mut out = OutputFiles::new();
    let err = out_err(&api, &mut out);
    assert!(matches!(err, GenError::SchemaInconsistency(ref n) if n == "Absent"));
    assert!(out.response_files.is_empty());
    assert!(out.request_files.is_empty());
    assert!(out.annotation_string.is_empty());
}

fn out_err(api: &ApiDesc, out: &mut OutputFiles) -> GenError {
    api.fill_output_files(
        out,
        "Name",
        "/ctl",
        "urn:schemas-upnp-org:service:Thing:1",
    )
    .unwrap_err()
}

#[test]
fn fill_three_segment_service_type_is_malformed() {
    let api = schema(vec![], vec![]);
    let mut out = OutputFiles::new();
    let err = api
        .fill_output_files(&mut out, "Name", "/ctl", "urn:service:Thing")
        .unwrap_err();
    assert!(matches!(err, GenError::MalformedServiceType(ref t) if t == "urn:service:Thing"));
    assert!(out.response_files.is_empty());
    assert!(out.request_files.is_empty());
}

#[test]
fn fill_response_tags_keep_out_argument_order() {
    let api = schema(
        vec![action(
            "GetPair",
            vec![
                argument("NewFirst", "out", "V"),
                argument("NewIgnored", "in", "V"),
                argument("NewSecond", "out", "V"),
            ],
        )],
        vec![state_var("V", "ui4")],
    );
    let mut out = OutputFiles::new();
    api.fill_output_files(
        &mut out,
        "Pair",
        "/ctl",
        "urn:schemas-upnp-org:service:Pair:1",
    )
    .unwrap();
    let content = out.response_files[0].content.join("");
    let first = content.find("\t#[serde(rename = \"NewFirst\")]").unwrap();
    let second = content.find("\t#[serde(rename = \"NewSecond\")]").unwrap();
    assert!(first < second);
    assert!(!content.contains("NewIgnored"));
}

#[test]
fn fill_zero_in_arguments_yields_id_only_request() {
    let api = schema(
        vec![action("GetInfo", vec![argument("NewInfo", "out", "V")])],
        vec![state_var("V", "string")],
    );
    let mut out = OutputFiles::new();
    api.fill_output_files(
        &mut out,
        "Info",
        "/ctl",
        "urn:schemas-upnp-org:service:Info:1",
    )
    .unwrap();
    let f = &out.request_files[0].request_functions[0];
    assert!(f.parameter.is_empty());
    assert_eq!(f.parameter_for_function(), "");
    let text = f.create_function();
    assert!(text.starts_with("pub fn generate_get_info_request( id: Option<&str>)"));
}

#[test]
fn fill_zero_out_arguments_yields_empty_response_struct() {
    let api = schema(
        vec![action("SetValue", vec![argument("NewValue", "in", "V")])],
        vec![state_var("V", "ui2")],
    );
    let mut out = OutputFiles::new();
    api.fill_output_files(
        &mut out,
        "Setter",
        "/ctl",
        "urn:schemas-upnp-org:service:Setter:1",
    )
    .unwrap();
    let content = out.response_files[0].content.join("");
    assert_eq!(
        content,
        "#[derive(Deserialize, Debug)]\npub struct SetValueResponse{\n}\n\n"
    );
}

#[test]
fn fill_registers_envelope_discriminant() {
    let api = schema(
        vec![action("GetInfo", vec![])],
        vec![state_var("V", "ui2")],
    );
    let mut out = OutputFiles::new();
    api.fill_output_files(
        &mut out,
        "Info",
        "/ctl",
        "urn:schemas-upnp-org:service:Info:1",
    )
    .unwrap();
    assert_eq!(
        out.annotation_string,
        vec!["\n\t#[serde(alias = \"GetInfoResponse\")]".to_string()]
    );
}

#[test]
fn create_function_renders_exact_text() {
    let api = schema(
        vec![action(
            "SetEnable",
            vec![argument("NewEnable", "in", "Enable")],
        )],
        vec![state_var("Enable", "boolean")],
    );
    let mut out = OutputFiles::new();
    api.fill_output_files(
        &mut out,
        "WANIPConnection",
        "/upnp/control/wanipconnection1",
        "urn:schemas-upnp-org:service:WANIPConnection:1",
    )
    .unwrap();
    let f = &out.request_files[0].request_functions[0];
    let expected = "pub fn generate_set_enable_request(new_enable: &bool, id: Option<&str>) -> (String, String, String){ \n\tlet id = id.unwrap_or(\"1\");\n\tlet uri = \"/upnp/control/wanipconnection1\";\n\tlet header = format!(\"urn:schemas-upnp-org:service:WANIPConnection:{}#SetEnable\", id);\n\tlet body = format!(\"<?xml version=\\\"1.0\\\"?><s:Envelope xmlns:s=\\\"http://schemas.xmlsoap.org/soap/envelope/\\\"s:encodingStyle=\\\"http://schemas.xmlsoap.org/soap/encoding/\\\"><s:Body><u:SetEnable xmlns:u=\\\"urn:schemas-upnp-org:service:WANIPConnection:{}\\\"><NewEnable>{}</NewEnable></u:SetEnable></s:Body></s:Envelope>\",id ,new_enable);\n\t(uri.to_string(), header, body) \n}\n";
    assert_eq!(f.create_function(), expected);
}

#[test]
fn string_parameters_pass_as_str_views() {
    let api = schema(
        vec![action(
            "SetBoth",
            vec![
                argument("NewName", "in", "NameVar"),
                argument("NewCount", "in", "CountVar"),
            ],
        )],
        vec![state_var("NameVar", "string"), state_var("CountVar", "ui4")],
    );
    let mut out = OutputFiles::new();
    api.fill_output_files(
        &mut out,
        "Both",
        "/ctl",
        "urn:schemas-upnp-org:service:Both:1",
    )
    .unwrap();
    let f = &out.request_files[0].request_functions[0];
    assert_eq!(f.parameter_for_function(), "new_name: &str,new_count: &u32,");
    assert_eq!(
        f.parameter_for_body(),
        "<NewName>{}</NewName><NewCount>{}</NewCount>"
    );
    assert_eq!(f.parameter_for_code(), ",new_name,new_count");
}
