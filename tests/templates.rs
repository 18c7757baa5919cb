use cliscrape::template::resolver::validate_template_name;
use cliscrape::cli::format_from_extension;
use cliscrape::template::convert::template_ir_to_modern_doc;
use cliscrape::macros::{expand_macros, get_builtin_macros};
use cliscrape::template::loader::TextFsmLoader;
use cliscrape::template::metadata::extract_metadata;
use cliscrape::template::modern::load_toml_str;
use cliscrape::template::modern::load_yaml_str;
use cliscrape::{Action, ErrorKind, FieldType, FieldValue, FsmParser, Scalar, Template, TemplateFormat};

#[test]
fn test_macro_expansion() {
    let expanded = expand_macros("Interface {{interface}} is {{word}}", &Vec::new()).unwrap();
    assert_eq!(expanded, r#"Interface \S+ is \w+"#);
}

#[test]
fn test_macro_shadowing() {
    let local = vec![("interface".to_string(), "Shadowed".to_string())];
    let expanded = expand_macros("Interface {{interface}} is {{word}}", &local).unwrap();
    assert_eq!(expanded, r#"Interface Shadowed is \w+"#);
}

#[test]
fn test_ipv4_expansion() {
    let expanded = expand_macros("IP {{ipv4}}", &Vec::new()).unwrap();
    assert_eq!(expanded, r#"IP \d{1,3}\.\d{1,3}\.\d{1,3}\.\d{1,3}"#);
}

#[test]
fn test_mac_address_expansion() {
    let expanded = expand_macros("MAC {{mac_address}}", &Vec::new()).unwrap();
    assert_eq!(
        expanded,
        r#"MAC (?:[0-9a-fA-F]{2}(?::[0-9a-fA-F]{2}){5}|[0-9a-fA-F]{4}\.[0-9a-fA-F]{4}\.[0-9a-fA-F]{4})"#
    );
}

#[test]
fn test_nested_macro_expansion() {
    let local = vec![
        ("inner".to_string(), "X".to_string()),
        ("outer".to_string(), "{{inner}}Y".to_string()),
    ];
    assert_eq!(expand_macros("Start {{outer}} End", &local).unwrap(), "Start XY End");
}

#[test]
fn test_macro_cycle_detection_errors() {
    let local = vec![("a".to_string(), "{{b}}".to_string()), ("b".to_string(), "{{a}}".to_string())];
    let err = expand_macros("{{a}}", &local).unwrap_err();
    let msg = err.message();
    assert_eq!(err.kind(), Some(ErrorKind::MacroCycle));
    assert!(msg.contains("cycle"), "{msg}");
    assert!(msg.contains("a"), "{msg}");
    assert!(msg.contains("b"), "{msg}");
}

#[test]
fn macro_errors_unknown_and_too_deep() {
    assert_eq!(expand_macros("{{nope}}", &Vec::new()).unwrap_err().kind(), Some(ErrorKind::MacroUnknown));
    let mut local = Vec::new();
    for i in 0..12 {
        local.push((format!("m{i}"), format!("{{{{m{}}}}}", i + 1)));
    }
    local.push(("m12".to_string(), "z".to_string()));
    assert_eq!(expand_macros("{{m0}}", &local).unwrap_err().kind(), Some(ErrorKind::MacroTooDeep));
    assert_eq!(expand_macros("{{{word}}}", &Vec::new()).unwrap(), r"{\w+}");
    assert_eq!(get_builtin_macros().len(), 5);
}

#[test]
fn test_parse_simple_template() {
    let input = r#"Value INTERFACE (\S+)
Value STATUS (up|down)

Start
  ^Interface ${INTERFACE} is ${STATUS} -> Record
"#;
    let ir = TextFsmLoader::parse_str(input).unwrap();
    assert_eq!(ir.values.len(), 2);
    assert!(ir.value("INTERFACE").is_some());
    assert!(ir.state("Start").is_some());
    let start_state = ir.state("Start").unwrap();
    assert_eq!(start_state.rules.len(), 1);
    assert_eq!(start_state.rules[0].record_action, Action::Record);
}

#[test]
fn test_complex_actions() {
    let input = r#"Start
  ^rule1 -> Continue.Record NextState
  ^rule2 -> Clear
  ^rule3 -> NextState
"#;
    let ir = TextFsmLoader::parse_str(input).unwrap();
    let rules = &ir.state("Start").unwrap().rules;
    assert_eq!(rules[0].line_action, Action::Continue);
    assert_eq!(rules[0].record_action, Action::Record);
    assert_eq!(rules[0].next_state, Some("NextState".to_string()));
    assert_eq!(rules[1].record_action, Action::Clear);
    assert_eq!(rules[2].next_state, Some("NextState".to_string()));
    assert_eq!(rules[2].line_action, Action::Next);
}

#[test]
fn warn_skip_constructs_returns_warnings_and_parses() {
    let input = "Value UnknownFlag DATA (\\S+)\n\nStart\n  ^Data ${DATA}\n  ^Bogus -> Next.UnknownAction\n  ^Trigger -> Record\n";
    let (ir, warnings) = TextFsmLoader::parse_str_with_warnings(input).unwrap();
    assert!(warnings.iter().any(|w| w.kind == "unknown_value_flag" && w.message.contains("UnknownFlag")));
    assert!(warnings.iter().any(|w| w.kind == "unknown_record_action" && w.message.contains("UnknownAction")));
    let t = Template::from_ir(ir).unwrap();
    let results = t.parse("Data value\nTrigger\n").unwrap();
    assert_eq!(results.len(), 1);
    assert_eq!(*results[0].get("DATA").unwrap(), FieldValue::One(Scalar::Str("value".to_string())));
}

#[test]
fn comment_lines_are_ignored() {
    let input = "# Description: demo\nValue INTERFACE (\\S+)\n# a comment\nValue STATUS (\\w+)\n\nStart\n  # inside\n  ^Interface ${INTERFACE} is ${STATUS} -> Record\n";
    let p = FsmParser::from_str_with_format(input, TemplateFormat::Textfsm).unwrap();
    let results = p.parse("Interface Eth0 is up").unwrap();
    assert_eq!(results.len(), 1);
    assert_eq!(*results[0].get("INTERFACE").unwrap(), FieldValue::One(Scalar::Str("Eth0".to_string())));
    assert_eq!(*results[0].get("STATUS").unwrap(), FieldValue::One(Scalar::Str("up".to_string())));
}

#[test]
fn legacy_loader_rejects_rule_outside_state() {
    let err = TextFsmLoader::parse_str("  ^x -> Record\n").unwrap_err();
    assert_eq!(err.kind(), Some(ErrorKind::TemplateSyntax));
}

#[test]
fn test_yaml_metadata_extraction() {
    let template = r#"
version: 1
metadata:
  description: "Parse Cisco IOS show version output"
  compatibility: "Cisco IOS 12.x - 15.x"
  version: "2.1.0"
  author: "Network Team"
  maintainer: "ops@example.com"
fields:
  version:
    type: string
patterns:
  - regex: '^Cisco IOS.*Version (?P<version>\S+)'
    record: true
"#;
    let metadata = extract_metadata(template, TemplateFormat::Yaml);
    assert_eq!(metadata.description, "Parse Cisco IOS show version output");
    assert_eq!(metadata.compatibility, "Cisco IOS 12.x - 15.x");
    assert_eq!(metadata.version, "2.1.0");
    assert_eq!(metadata.author, "Network Team");
    assert_eq!(metadata.maintainer, Some("ops@example.com".to_string()));
}

#[test]
fn test_toml_metadata_extraction() {
    let template = r#"
version = 1

[metadata]
description = "Parse interface statistics"
compatibility = "Juniper JunOS 18.x+"
version = "1.5.3"
author = "Juniper Admin"

[fields]
interface = { type = "string" }

[[patterns]]
regex = '^(?P<interface>\S+)'
record = true
"#;
    let metadata = extract_metadata(template, TemplateFormat::Toml);
    assert_eq!(metadata.description, "Parse interface statistics");
    assert_eq!(metadata.compatibility, "Juniper JunOS 18.x+");
    assert_eq!(metadata.version, "1.5.3");
    assert_eq!(metadata.author, "Juniper Admin");
    assert_eq!(metadata.maintainer, None);
}

#[test]
fn test_textfsm_comment_extraction() {
    let template = r#"# Description: Parse BGP neighbors
# Compatibility: Arista EOS 4.x
# Version: 3.0.1
# Author: BGP Team
# Maintainer: network-ops@example.com

Value Filldown NEIGHBOR (\S+)
Value STATE (\w+)

Start
  ^Neighbor ${NEIGHBOR}
  ^State: ${STATE} -> Record
"#;
    let metadata = extract_metadata(template, TemplateFormat::Textfsm);
    assert_eq!(metadata.description, "Parse BGP neighbors");
    assert_eq!(metadata.compatibility, "Arista EOS 4.x");
    assert_eq!(metadata.version, "3.0.1");
    assert_eq!(metadata.author, "BGP Team");
    assert_eq!(metadata.maintainer, Some("network-ops@example.com".to_string()));
}

#[test]
fn test_missing_metadata_returns_defaults() {
    let template = r#"
version: 1
fields:
  hostname:
    type: string
patterns:
  - regex: '^Host=(?P<hostname>\S+)$'
    record: true
"#;
    let metadata = extract_metadata(template, TemplateFormat::Yaml);
    assert_eq!(metadata.description, "No description available");
    assert_eq!(metadata.compatibility, "Unknown");
    assert_eq!(metadata.version, "1.0.0");
    assert_eq!(metadata.author, "Unknown");
    assert_eq!(metadata.maintainer, None);
}

#[test]
fn test_invalid_yaml_returns_defaults() {
    let template = r#"
this is not: valid [yaml at all
{broken syntax
"#;
    let metadata = extract_metadata(template, TemplateFormat::Yaml);
    assert_eq!(metadata.description, "No description available");
    assert_eq!(metadata.compatibility, "Unknown");
    assert_eq!(metadata.version, "1.0.0");
    assert_eq!(metadata.author, "Unknown");
}

#[test]
fn test_textfsm_no_comments_returns_defaults() {
    let template = r#"Value HOSTNAME (\S+)

Start
  ^Host: ${HOSTNAME} -> Record
"#;
    let metadata = extract_metadata(template, TemplateFormat::Textfsm);
    assert_eq!(metadata.description, "No description available");
    assert_eq!(metadata.compatibility, "Unknown");
    assert_eq!(metadata.version, "1.0.0");
    assert_eq!(metadata.author, "Unknown");
}

#[test]
fn test_empty_content_returns_defaults() {
    let metadata = extract_metadata("", TemplateFormat::Yaml);
    assert_eq!(metadata.description, "No description available");
    assert_eq!(metadata.compatibility, "Unknown");
    assert_eq!(metadata.version, "1.0.0");
    assert_eq!(metadata.author, "Unknown");
}

#[test]
fn test_auto_format_returns_defaults() {
    let metadata = extract_metadata("version: 1", TemplateFormat::Auto);
    assert_eq!(metadata.description, "No description available");
    assert_eq!(metadata.compatibility, "Unknown");
}

#[test]
fn test_textfsm_case_insensitive_keys() {
    let template = r#"# DESCRIPTION: Test template
# VERSION: 1.0.0
# Compatibility: All devices
# AUTHOR: Test User

Value X (\S+)
Start
  ^X ${X} -> Record
"#;
    let metadata = extract_metadata(template, TemplateFormat::Textfsm);
    assert_eq!(metadata.description, "Test template");
    assert_eq!(metadata.version, "1.0.0");
    assert_eq!(metadata.compatibility, "All devices");
    assert_eq!(metadata.author, "Test User");
}

#[test]
fn test_partial_metadata_merges_with_defaults() {
    let template = r#"
version: 1
metadata:
  description: "Only has description"
fields:
  x:
    type: string
patterns:
  - regex: '^(?P<x>\S+)$'
    record: true
"#;
    let metadata = extract_metadata(template, TemplateFormat::Yaml);
    assert_eq!(metadata.description, "No description available");
    assert_eq!(metadata.compatibility, "Unknown");
}

#[test]
fn modern_toml_explicit_int_type_emits_json_number() {
    let doc = r#"
version = 1

[fields]
speed = { type = "int" }

[[patterns]]
regex = '^speed=(?P<speed>[0-9,]+)$'
record = true
"#;
    let ir = load_toml_str(doc).unwrap();
    assert_eq!(ir.value("speed").unwrap().type_hint, Some(FieldType::Int));
    let template = Template::from_ir(ir).unwrap();
    let results = template.parse("speed=1,234").unwrap();
    assert_eq!(results.len(), 1);
    assert_eq!(*results[0].get("speed").unwrap(), FieldValue::One(Scalar::Int(1234)));
}

#[test]
fn modern_toml_explicit_string_type_overrides_numeric_heuristics() {
    let doc = r#"
version = 1

[fields]
speed = { type = "string" }

[[patterns]]
regex = '^speed=(?P<speed>[0-9,]+)$'
record = true
"#;
    let template = Template::from_ir(load_toml_str(doc).unwrap()).unwrap();
    let results = template.parse("speed=1,234").unwrap();
    assert_eq!(results.len(), 1);
    assert_eq!(*results[0].get("speed").unwrap(), FieldValue::One(Scalar::Str("1,234".to_string())));
}

#[test]
fn modern_toml_unknown_field_type_fails_with_path() {
    let doc = r#"
version = 1

[fields]
speed = { type = "integer" }

[[patterns]]
regex = '^speed=(?P<speed>[0-9,]+)$'
record = true
"#;
    let err = load_toml_str(doc).unwrap_err();
    let msg = err.message();
    assert!(msg.contains("fields.speed.type"), "{msg}");
}

#[test]
fn modern_local_macro_overrides_builtin_in_compiled_regex() {
    let doc = r#"
version = 1

[macros]
ipv4 = "X"

[fields]
ip = { type = "string" }

[[states.Start]]
regex = '^IP {{ipv4}}$'
"#;
    let template = Template::from_ir(load_toml_str(doc).unwrap()).unwrap();
    let compiled = template.rule_regex("Start", 0).unwrap();
    assert!(compiled.contains("X"), "{compiled}");
    assert!(!compiled.contains("\\d{1,3}"), "{compiled}");
}

#[test]
fn modern_placeholder_requires_field_pattern() {
    let doc = r#"
version = 1

[fields]
iface = { type = "string" }

[[patterns]]
regex = '^Interface ${iface}$'
record = true
"#;
    let err = load_toml_str(doc).unwrap_err();
    assert!(err.message().contains("fields.iface.pattern"));
}

#[test]
fn modern_rejects_both_states_and_patterns() {
    let doc = r#"
version = 1

[fields]
ip = { type = "string" }

[[patterns]]
regex = '^IP (?P<ip>\\S+)$'
record = true

[[states.Start]]
regex = '^IP (?P<ip>\\S+)$'
"#;
    let err = load_toml_str(doc).unwrap_err();
    assert!(err.message().contains("exactly one of 'states' or 'patterns'"), "{:?}", err);
}

#[test]
fn modern_rejects_missing_states_and_patterns() {
    let doc = r#"
version = 1

[fields]
ip = { type = "string" }
"#;
    let err = load_toml_str(doc).unwrap_err();
    assert!(err.message().contains("either 'states' or 'patterns'"), "{:?}", err);
}

#[test]
fn modern_rejects_unsupported_version() {
    let doc = r#"
version = 2

[fields]
ip = { type = "string" }

[[patterns]]
regex = '^IP (?P<ip>\\S+)$'
record = true
"#;
    let err = load_toml_str(doc).unwrap_err();
    assert!(err.message().contains("Unsupported modern template version 2"), "{:?}", err);
}

#[test]
fn modern_placeholder_parses_when_field_pattern_defined() {
    let doc = r#"
version = 1

[fields]
iface = { type = "string", pattern = "\\S+" }

[[patterns]]
regex = '^Interface ${iface}$'
record = true
"#;
    let template = Template::from_ir(load_toml_str(doc).unwrap()).unwrap();
    let results = template.parse("Interface Eth1").unwrap();
    assert_eq!(results.len(), 1);
    assert_eq!(*results[0].get("iface").unwrap(), FieldValue::One(Scalar::Str("Eth1".to_string())));
}

#[test]
fn modern_named_capture_groups_work_without_placeholders() {
    let doc = r#"
version = 1

[fields]
hostname = { type = "string" }

[[patterns]]
regex = '^Host=(?P<hostname>\S+)$'
record = true
"#;
    let template = Template::from_ir(load_toml_str(doc).unwrap()).unwrap();
    let results = template.parse("Host=Router1").unwrap();
    assert_eq!(results.len(), 1);
    assert_eq!(*results[0].get("hostname").unwrap(), FieldValue::One(Scalar::Str("Router1".to_string())));
}

#[test]
fn from_file_loads_modern_yaml_by_extension() {
    let doc = r#"
version: 1
fields:
  speed:
    type: int
patterns:
  - regex: '^speed=(?P<speed>[0-9,]+)$'
    record: true
"#;
    let parser = FsmParser::from_str_with_format(doc, TemplateFormat::Yaml).unwrap();
    let results = parser.parse("speed=1,234").unwrap();
    assert_eq!(results.len(), 1);
    assert_eq!(*results[0].get("speed").unwrap(), FieldValue::One(Scalar::Int(1234)));
}

#[test]
fn modern_yaml_states_with_actions() {
    let doc = r#"
version: 1
fields:
  a: { pattern: '\S+' }
  b: { pattern: '\d+' }
states:
  Start:
    - regex: '^A ${a}'
      action: { next: Two }
  Two:
    - regex: '^B ${b}'
      action: { record: record }
"#;
    let ir = load_yaml_str(doc).unwrap();
    assert_eq!(ir.value("a").unwrap().type_hint, None);
    let template = Template::from_ir(ir).unwrap();
    let results = template.parse("A x\nB 7").unwrap();
    assert_eq!(results.len(), 1);
    assert_eq!(*results[0].get("b").unwrap(), FieldValue::One(Scalar::Int(7)));
    let err = load_yaml_str("version: 1\nbogus: 1\npatterns:\n  - regex: x\n").unwrap_err();
    assert_eq!(err.kind(), Some(ErrorKind::TemplateSchema));
    assert!(err.message().contains("bogus"));
}

#[test]
fn fsm_parser_debug_parse_forwards_to_template() {
    let p = FsmParser::from_str_with_format("Value X (\\S+)\n\nStart\n  ^X ${X} -> Record\n", TemplateFormat::Textfsm)
        .unwrap();
    let report = p.debug_parse("X one").unwrap();
    assert_eq!(report.lines, vec!["X one".to_string()]);
    assert_eq!(report.matches_by_line[0].len(), 1);
    assert_eq!(report.records.len(), 1);
}

#[test]
fn test_validate_template_name_valid() {
    assert!(validate_template_name("cisco_ios_show_version.yaml").is_ok());
    assert!(validate_template_name("template-name.toml").is_ok());
    assert!(validate_template_name("simple.textfsm").is_ok());
    assert!(validate_template_name("123.yaml").is_ok());
    assert!(validate_template_name("a_b-c.d").is_ok());
    assert!(validate_template_name("modern/template.yaml").is_ok());
    assert!(validate_template_name("vendor/device/template.toml").is_ok());
}

#[test]
fn test_validate_template_name_empty() {
    let result = validate_template_name("");
    assert!(result.is_err());
    assert!(result.unwrap_err().contains("empty"));
}

#[test]
fn test_validate_template_name_path_traversal() {
    assert!(validate_template_name("../etc/passwd").is_err());
    assert!(validate_template_name("../../secret").is_err());
    assert!(validate_template_name("..").is_err());
    assert!(validate_template_name("foo..bar").is_err());
}

#[test]
fn test_validate_template_name_absolute_path() {
    assert!(validate_template_name("/etc/passwd").is_err());
    assert!(validate_template_name("\\windows\\system32").is_err());
}

#[test]
fn test_validate_template_name_path_separators() {
    assert!(validate_template_name("path/to/file").is_ok());
    assert!(validate_template_name("path\\to\\file").is_err());
}

#[test]
fn test_validate_template_name_invalid_chars() {
    assert!(validate_template_name("template name.yaml").is_err());
    assert!(validate_template_name("template$name.yaml").is_err());
    assert!(validate_template_name("template;name.yaml").is_err());
    assert!(validate_template_name("template&name.yaml").is_err());
}

#[test]
fn format_from_extension_picks_dialect() {
    assert_eq!(format_from_extension("a.textfsm"), Some(TemplateFormat::Textfsm));
    assert_eq!(format_from_extension("a.yml"), Some(TemplateFormat::Yaml));
    assert_eq!(format_from_extension("a.yaml"), Some(TemplateFormat::Yaml));
    assert_eq!(format_from_extension("a.toml"), Some(TemplateFormat::Toml));
    assert_eq!(format_from_extension("a.txt"), None);
}

#[test]
fn converted_legacy_template_parses_identically() {
    let legacy = "Value Filldown CHASSIS (\\S+)\nValue SLOT (\\d+)\n\nStart\n  ^Chassis ${CHASSIS}\n  ^Slot ${SLOT} -> Record\n";
    let ir = TextFsmLoader::parse_str(legacy).unwrap();
    let doc = template_ir_to_modern_doc(&ir);
    let lowered = doc.lower();
    assert_eq!(lowered, ir);
    let input = "Chassis R1\nSlot 1\nSlot 2";
    let a = Template::from_ir(ir).unwrap().parse(input).unwrap();
    let b = Template::from_ir(lowered).unwrap().parse(input).unwrap();
    assert_eq!(a, b);
    assert_eq!(a.len(), 2);
}

#[test]
fn parse_all_concatenates_inputs_in_order() {
    let t = "Value X (\\S+)\n\nStart\n  ^X ${X} -> Record\n";
    let inputs = vec!["X a\nX b".to_string(), "X c".to_string()];
    let p = FsmParser::from_str_with_format(t, TemplateFormat::Textfsm).unwrap();
    let recs = p.parse_all(&inputs).unwrap();
    let xs: Vec<FieldValue> = recs.iter().map(|r| r.get("X").unwrap().clone()).collect();
    assert_eq!(
        xs,
        vec![
            FieldValue::One(Scalar::Str("a".to_string())),
            FieldValue::One(Scalar::Str("b".to_string())),
            FieldValue::One(Scalar::Str("c".to_string()))
        ]
    );
    assert!(FsmParser::from_str_with_format(t, TemplateFormat::Auto).is_err());
}
