use tr064_bindgen::api_desc::Action;
use tr064_bindgen::api_desc::ActionList;
use tr064_bindgen::api_desc::AllowedValueList;
use tr064_bindgen::api_desc::ApiDesc;
use tr064_bindgen::api_desc::Argument;
use tr064_bindgen::api_desc::ArgumentList;
use tr064_bindgen::api_desc::ServiceStateTable;
use tr064_bindgen::api_desc::StateVariable;
use tr064_bindgen::api_desc_dir::ApiDescDir;
use tr064_bindgen::api_desc_dir::Device;
use tr064_bindgen::api_desc_dir::DeviceList;
use tr064_bindgen::api_desc_dir::IconList;
use tr064_bindgen::api_desc_dir::Service;
use tr064_bindgen::api_desc_dir::ServiceList;
use tr064_bindgen::api_desc_dir::SpecVersion;
use tr064_bindgen::api_desc_dir::SystemVersion;
use tr064_bindgen::error::GenError;
use tr064_bindgen::text::sorted_dedup_strings;
use tr064_bindgen::text::split_colon;
use tr064_bindgen::text::str_eq;
use tr064_bindgen::text::str_lt;

fn service(service_type: &str, scpd: &str) -> Service {
    Service {
        service_type: service_type.to_string(),
        service_id: "id".to_string(),
        control_url: "/ctl".to_string(),
        event_sub_url: "/evt".to_string(),
        scpd_url: scpd.to_string(),
    }
}

fn device(services: Vec<Service>, children: Vec<Device>) -> Device {
    Device {
        device_type: "urn:dev".to_string(),
        friendly_name: "box".to_string(),
        manufacturer: "m".to_string(),
        manufacturer_url: "mu".to_string(),
        model_description: "md".to_string(),
        model_name: "mn".to_string(),
        model_number: "mnum".to_string(),
        model_url: "murl".to_string(),
        udn: "udn".to_string(),
        upc: "upc".to_string(),
        icon_list: IconList { icon: vec![] },
        service_list: ServiceList { service: services },
        device_list: DeviceList { device: children },
        presentation_url: "p".to_string(),
    }
}

fn desc_dir(root: Device) -> ApiDescDir {
    ApiDescDir {
        spec_version: SpecVersion { major: 1, minor: 0 },
        system_version: SystemVersion {
            hw: 1,
            major: 7,
            minor: 29,
            patch: 0,
            buildnumber: 0,
            display: "7.29".to_string(),
        },
        device: root,
    }
}

fn empty_schema() -> ApiDesc {
    ApiDesc {
        spec_version: SpecVersion { major: 1, minor: 0 },
        action_list: ActionList { action: vec![] },
        service_state_table: ServiceStateTable {
            state_variable: vec![],
        },
    }
}

fn one_action_schema() -> ApiDesc {
    ApiDesc {
        spec_version: SpecVersion { major: 1, minor: 0 },
        action_list: ActionList {
            action: vec![Action {
                name: "GetInfo".to_string(),
                argument_list: ArgumentList {
                    argument: vec![Argument {
                        name: "NewEnable".to_string(),
                        direction: "out".to_string(),
                        related_state_variable: "Enable".to_string(),
                    }],
                },
            }],
        },
        service_state_table: ServiceStateTable {
            state_variable: vec![StateVariable {
                name: "Enable".to_string(),
                data_type: "boolean".to_string(),
                default_value: "0".to_string(),
                allowed_value_list: AllowedValueList {
                    allowed_value: vec![],
                },
            }],
        },
    }
}

#[test]
fn service_type_splits_into_segments() {
    let parts = split_colon("urn:schemas-upnp-org:service:WANIPConnection:1");
    assert_eq!(
        parts,
        vec![
            "urn".to_string(),
            "schemas-upnp-org".to_string(),
            "service".to_string(),
            "WANIPConnection".to_string(),
            "1".to_string()
        ]
    );
}

#[test]
fn collect_services_walks_depth_first() {
    let grandchild = device(vec![service("urn:a:b:GC:1", "/gc.xml")], vec![]);
    let child_one = device(vec![service("urn:a:b:C1:1", "/c1.xml")], vec![grandchild]);
    let child_two = device(vec![service("urn:a:b:C2:1", "/c2.xml")], vec![]);
    let root = device(
        vec![
            service("urn:a:b:R1:1", "/r1.xml"),
            service("urn:a:b:R2:1", "/r2.xml"),
        ],
        vec![child_one, child_two],
    );
    let dir = desc_dir(root);
    let collected = dir.collect_services();
    let types: Vec<String> = collected.iter().map(|s| s.service_type.clone()).collect();
    assert_eq!(
        types,
        vec![
            "urn:a:b:R1:1".to_string(),
            "urn:a:b:R2:1".to_string(),
            "urn:a:b:C1:1".to_string(),
            "urn:a:b:GC:1".to_string(),
            "urn:a:b:C2:1".to_string()
        ]
    );
}

#[test]
fn generate_files_names_modules_from_fourth_segment() {
    let root = device(
        vec![service("urn:schemas-upnp-org:service:WANIPConnection:1", "/s.xml")],
        vec![],
    );
    let dir = desc_dir(root);
    let schemas = vec![one_action_schema()];
    let out = dir
        .generate_files(
            &schemas,
            "responses".to_string(),
            "requests".to_string(),
            Some("tr064".to_string()),
        )
        .unwrap();
    assert_eq!(out.prefix, "tr064_");
    assert_eq!(out.response_output_folder, "output/tr064_responses");
    assert_eq!(out.request_output_folder, "output/tr064_requests");
    assert_eq!(out.response_files[0].name, "wan_ip_connection");
    assert_eq!(out.request_files[0].name, "wan_ip_connection");
}

#[test]
fn generate_files_without_prefix_adds_no_underscore() {
    let root = device(vec![], vec![]);
    let dir = desc_dir(root);
    let schemas: Vec<ApiDesc> = vec![];
    let out = dir
        .generate_files(&schemas, "responses".to_string(), "requests".to_string(), None)
        .unwrap();
    assert_eq!(out.prefix, "");
    assert_eq!(out.response_output_folder, "output/responses");
}

#[test]
fn generate_files_rejects_three_segment_service_type() {
    let root = device(vec![service("urn:service:Thing", "/s.xml")], vec![]);
    let dir = desc_dir(root);
    let schemas = vec![empty_schema()];
    let err = dir
        .generate_files(
            &schemas,
            "responses".to_string(),
            "requests".to_string(),
            None,
        )
        .unwrap_err();
    assert!(matches!(err, GenError::MalformedServiceType(ref t) if t == "urn:service:Thing"));
}

#[test]
fn generation_twice_is_byte_identical() {
    let child = device(vec![service("urn:a:b:Child:1", "/c.xml")], vec![]);
    let root = device(
        vec![service("urn:schemas-upnp-org:service:WANIPConnection:1", "/s.xml")],
        vec![child],
    );
    let dir = desc_dir(root);
    let schemas = vec![one_action_schema(), empty_schema()];
    let run = |d: &ApiDescDir| {
        let out = d
            .generate_files(
                &schemas,
                "responses".to_string(),
                "requests".to_string(),
                Some("tr064".to_string()),
            )
            .unwrap();
        let rendered = out.create_files().unwrap();
        rendered
            .files
            .iter()
            .map(|f| (f.path.clone(), f.content.clone()))
            .collect::<Vec<(String, String)>>()
    };
    let first = run(&dir);
    let second = run(&dir);
    assert_eq!(first, second);
    assert!(!first.is_empty());
}

#[test]
fn module_index_is_sorted_and_deduplicated() {
    let root = device(
        vec![
            service("urn:a:b:Zeta:1", "/z.xml"),
            service("urn:a:b:Alpha:1", "/a.xml"),
            service("urn:a:b:Alpha:1", "/a.xml"),
        ],
        vec![],
    );
    let dir = desc_dir(root);
    let schemas = vec![empty_schema(), empty_schema(), empty_schema()];
    let out = dir
        .generate_files(
            &schemas,
            "responses".to_string(),
            "requests".to_string(),
            None,
        )
        .unwrap();
    let rendered = out.create_files().unwrap();
    let req_mod = rendered
        .files
        .iter()
        .find(|f| f.path == "output/requests/mod.rs")
        .unwrap();
    assert_eq!(req_mod.content, "pub mod alpha;\npub mod zeta;\n");
    let resp_mod = rendered
        .files
        .iter()
        .find(|f| f.path == "output/responses/mod.rs")
        .unwrap();
    assert_eq!(
        resp_mod.content,
        "pub mod alpha;\npub mod multi_use;\npub mod zeta;\n"
    );
}

#[test]
fn envelope_module_renders_exact_text() {
    let root = device(
        vec![service("urn:schemas-upnp-org:service:Info:1", "/s.xml")],
        vec![],
    );
    let dir = desc_dir(root);
    let schemas = vec![one_action_schema()];
    let out = dir
        .generate_files(
            &schemas,
            "responses".to_string(),
            "requests".to_string(),
            None,
        )
        .unwrap();
    let rendered = out.create_files().unwrap();
    let envelope = rendered
        .files
        .iter()
        .find(|f| f.path == "output/responses/multi_use.rs")
        .unwrap();
    let expected = "#[derive(Deserialize, Debug)]\npub struct Envelope<T> {\n\t#[serde(rename = \"Body\")]\n\tpub body: Body<T>,\n}\n\n#[derive(Deserialize, Debug)]\npub struct Body<T> { \n\t#[serde(alias = \"GetInfoResponse\")]\n\tpub response: T,\n}";
    assert_eq!(envelope.content, expected);
}

#[test]
fn rendering_fails_on_malformed_stored_function() {
    let mut out = tr064_bindgen::output::OutputFiles::new();
    let mut rf = tr064_bindgen::output::RequestFile::new();
    let mut f = tr064_bindgen::output::RequestFunction::new();
    f.service_type = "too:short".to_string();
    rf.request_functions.push(f);
    out.request_files.push(rf);
    let err = out.create_files().unwrap_err();
    assert!(matches!(err, GenError::MalformedServiceType(ref t) if t == "too:short"));
}

#[test]
fn sorted_dedup_orders_and_removes_duplicates() {
    let v = vec![
        "pear".to_string(),
        "apple".to_string(),
        "pear".to_string(),
        "fig".to_string(),
    ];
    let r = sorted_dedup_strings(v);
    assert_eq!(
        r,
        vec!["apple".to_string(), "fig".to_string(), "pear".to_string()]
    );
}

#[test]
fn string_order_and_equality_helpers() {
    assert!(str_lt("alpha", "beta"));
    assert!(!str_lt("beta", "alpha"));
    assert!(str_lt("alp", "alpha"));
    assert!(!str_lt("alpha", "alpha"));
    assert!(str_eq("same", "same"));
    assert!(!str_eq("same", "other"));
}
