use cliscrape::convert::convert_scalar;
use cliscrape::records::RecordBuffer;
use cliscrape::{Action, FieldType, FieldValue, Record, Rule, Scalar, State, Template, TemplateIR, ValueDef};

fn field(name: &str, regex: &str, filldown: bool, required: bool, list: bool, hint: Option<FieldType>) -> ValueDef {
    ValueDef {
        name: name.to_string(),
        regex: regex.to_string(),
        filldown,
        required,
        list,
        type_hint: hint,
    }
}

fn plain(name: &str, regex: &str) -> ValueDef {
    field(name, regex, false, false, false, None)
}

fn rule(regex: &str, line: Action, record: Action, next: Option<&str>) -> Rule {
    Rule {
        regex: regex.to_string(),
        line_action: line,
        record_action: record,
        next_state: next.map(|s| s.to_string()),
    }
}

fn state(name: &str, rules: Vec<Rule>) -> State {
    State { name: name.to_string(), rules }
}

fn ir(values: Vec<ValueDef>, states: Vec<State>) -> TemplateIR {
    TemplateIR { values, states, macros: Vec::new() }
}

fn s(x: &str) -> FieldValue {
    FieldValue::One(Scalar::Str(x.to_string()))
}

fn n(x: i64) -> FieldValue {
    FieldValue::One(Scalar::Int(x))
}

fn get<'a>(r: &'a Record, name: &str) -> &'a FieldValue {
    r.get(name).expect("field present")
}

#[test]
fn test_int_lenient_parsing_strips_separators() {
    assert_eq!(convert_scalar("1,234_567", Some(FieldType::Int)), Scalar::Int(1234567));
}

#[test]
fn test_string_hint_disables_numeric_heuristic() {
    assert_eq!(convert_scalar("1,234", Some(FieldType::String)), Scalar::Str("1,234".to_string()));
}

#[test]
fn converter_edge_cases() {
    assert_eq!(convert_scalar("-42", None), Scalar::Int(-42));
    assert_eq!(convert_scalar(" 5", None), Scalar::Str(" 5".to_string()));
    assert_eq!(convert_scalar("+", None), Scalar::Str("+".to_string()));
    assert_eq!(convert_scalar("", None), Scalar::Str("".to_string()));
    assert_eq!(convert_scalar("1.5", None), Scalar::Str("1.5".to_string()));
    assert_eq!(convert_scalar("9223372036854775807", None), Scalar::Int(i64::MAX));
    assert_eq!(convert_scalar("-9223372036854775808", None), Scalar::Int(i64::MIN));
    assert_eq!(
        convert_scalar("9223372036854775808", None),
        Scalar::Str("9223372036854775808".to_string())
    );
}

#[test]
fn test_list_accumulation() {
    let mut rb = RecordBuffer::new();
    let values = vec![field("Interfaces", r"\S+", false, false, true, None)];
    rb.insert("Interfaces".to_string(), "Eth1".to_string(), true);
    rb.insert("Interfaces".to_string(), "Eth2".to_string(), true);
    let record = rb.emit(&values).unwrap();
    match get(&record, "Interfaces") {
        FieldValue::List(arr) => {
            assert_eq!(arr.len(), 2);
            assert_eq!(arr[0], Scalar::Str("Eth1".to_string()));
            assert_eq!(arr[1], Scalar::Str("Eth2".to_string()));
        }
        other => panic!("expected a list, got {:?}", other),
    }
}

#[test]
fn test_typed_int_conversion_emits_number() {
    let mut rb = RecordBuffer::new();
    let values = vec![field("Count", r"\S+", false, false, false, Some(FieldType::Int))];
    rb.insert("Count".to_string(), "1,234".to_string(), false);
    let record = rb.emit(&values).unwrap();
    assert_eq!(*get(&record, "Count"), n(1234));
}

#[test]
fn test_failed_typed_int_conversion_falls_back_to_string() {
    let mut rb = RecordBuffer::new();
    let values = vec![field("Count", r"\S+", false, false, false, Some(FieldType::Int))];
    rb.insert("Count".to_string(), "12x".to_string(), false);
    let record = rb.emit(&values).unwrap();
    assert_eq!(*get(&record, "Count"), s("12x"));
}

#[test]
fn test_string_hint_preserves_raw_value() {
    let mut rb = RecordBuffer::new();
    let values = vec![field("Raw", r"\S+", false, false, false, Some(FieldType::String))];
    rb.insert("Raw".to_string(), "1,234".to_string(), false);
    let record = rb.emit(&values).unwrap();
    assert_eq!(*get(&record, "Raw"), s("1,234"));
}

#[test]
fn test_typed_int_list_conversion_emits_number_array() {
    let mut rb = RecordBuffer::new();
    let values = vec![field("Counts", r"\S+", false, false, true, Some(FieldType::Int))];
    rb.insert("Counts".to_string(), "1".to_string(), true);
    rb.insert("Counts".to_string(), "2,000".to_string(), true);
    let record = rb.emit(&values).unwrap();
    match get(&record, "Counts") {
        FieldValue::List(arr) => {
            assert_eq!(arr.len(), 2);
            assert_eq!(arr[0], Scalar::Int(1));
            assert_eq!(arr[1], Scalar::Int(2000));
        }
        other => panic!("expected a list, got {:?}", other),
    }
}

#[test]
fn test_heuristic_numeric_conversion_for_untyped_field() {
    let mut rb = RecordBuffer::new();
    let values = vec![field("MaybeNum", r"\S+", false, false, false, None)];
    rb.insert("MaybeNum".to_string(), "+1_234".to_string(), false);
    let record = rb.emit(&values).unwrap();
    assert_eq!(*get(&record, "MaybeNum"), n(1234));
}

#[test]
fn buffer_emits_nothing_when_clean_and_drops_missing_required() {
    let mut rb = RecordBuffer::new();
    let values = vec![field("A", r"\S+", false, true, false, None), plain("B", r"\S+")];
    assert!(rb.emit(&values).is_none());
    rb.insert("B".to_string(), "x".to_string(), false);
    assert!(rb.emit(&values).is_none());
    assert!(rb.emit(&values).is_none());
}

#[test]
fn buffer_missing_fields_default_to_empty() {
    let mut rb = RecordBuffer::new();
    let values = vec![plain("A", r"\S+"), field("L", r"\S+", false, false, true, None), plain("B", r"\S+")];
    rb.insert("B".to_string(), "x".to_string(), false);
    let r = rb.emit(&values).unwrap();
    assert_eq!(r.fields.len(), 3);
    assert_eq!(*get(&r, "A"), s(""));
    assert_eq!(*get(&r, "L"), FieldValue::List(vec![]));
    assert_eq!(*get(&r, "B"), s("x"));
}

#[test]
fn buffer_clear_keeps_filldown_and_clear_all_does_not() {
    let values = vec![field("C", r"\S+", true, false, false, None), plain("S", r"\d+")];
    let mut rb = RecordBuffer::new();
    rb.insert("C".to_string(), "R1".to_string(), false);
    rb.insert("S".to_string(), "1".to_string(), false);
    rb.clear_non_filldown(&values);
    assert_eq!(rb.get_buffer().len(), 1);
    assert_eq!(rb.get_buffer()[0].name, "C");
    rb.clear_all();
    assert_eq!(rb.get_buffer().len(), 0);
}

fn build_continue_template() -> Template {
    let t = ir(
        vec![plain("Vlan", r"\d+"), plain("Status", r"\w+")],
        vec![state(
            "Start",
            vec![
                rule("VLAN ${Vlan}", Action::Continue, Action::Next, None),
                rule("is ${Status}", Action::Next, Action::Record, None),
            ],
        )],
    );
    Template::from_ir(t).unwrap()
}

#[test]
fn test_value_expansion() {
    let t = ir(
        vec![plain("Interface", r"\S+")],
        vec![state("Start", vec![rule("Interface ${Interface}", Action::Next, Action::Record, None)])],
    );
    let template = Template::from_ir(t).unwrap();
    assert!(template.rule_regex("Start", 0).unwrap().contains(r"(?P<Interface>\S+)"));
    let results = template.parse("Interface GigabitEthernet0/1").unwrap();
    assert_eq!(results.len(), 1);
    assert_eq!(*get(&results[0], "Interface"), s("GigabitEthernet0/1"));
}

#[test]
fn test_continue_action() {
    let template = build_continue_template();
    let results = template.parse("VLAN 10 is up").unwrap();
    assert_eq!(results.len(), 1);
    assert_eq!(*get(&results[0], "Vlan"), n(10));
    assert_eq!(*get(&results[0], "Status"), s("up"));
}

#[test]
fn debug_parse_records_continue_stacking_per_line() {
    let template = build_continue_template();
    let report = template.debug_parse("VLAN 10 is up").unwrap();
    assert_eq!(report.lines.len(), 1);
    assert_eq!(report.matches_by_line.len(), 1);
    assert_eq!(report.matches_by_line[0].len(), 2);
    assert_eq!(report.matches_by_line[0][0].rule_idx, 0);
    assert_eq!(report.matches_by_line[0][1].rule_idx, 1);
}

#[test]
fn debug_parse_capture_spans_slice_back_to_raw() {
    let template = build_continue_template();
    let report = template.debug_parse("VLAN 10 is up").unwrap();
    let line = &report.lines[0];
    let first = &report.matches_by_line[0][0];
    let cap = first.captures.iter().find(|c| c.name == "Vlan").expect("Vlan capture");
    assert!(cap.valid);
    assert_eq!(&line[cap.start_byte..cap.end_byte], cap.raw);
}

#[test]
fn debug_parse_emitted_records_match_parse_output() {
    let template = build_continue_template();
    let parsed = template.parse("VLAN 10 is up").unwrap();
    let report = template.debug_parse("VLAN 10 is up").unwrap();
    let emitted: Vec<Record> = report.records.into_iter().map(|r| r.record).collect();
    assert_eq!(emitted, parsed);
}

#[test]
fn test_invalid_state_transition() {
    let t = ir(vec![], vec![state("Start", vec![rule("test", Action::Next, Action::Record, Some("Invalid"))])]);
    assert!(Template::from_ir(t).is_err());
}

#[test]
fn test_state_transition_start_to_state2() {
    let t = ir(
        vec![plain("A", r"\S+"), plain("B", r"\S+")],
        vec![
            state("Start", vec![rule("A ${A}", Action::Next, Action::Next, Some("STATE2"))]),
            state("STATE2", vec![rule("B ${B}", Action::Next, Action::Record, None)]),
        ],
    );
    let template = Template::from_ir(t).unwrap();
    let results = template.parse("A first\nB second").unwrap();
    assert_eq!(results.len(), 1);
    assert_eq!(*get(&results[0], "A"), s("first"));
    assert_eq!(*get(&results[0], "B"), s("second"));
}

#[test]
fn test_end_state_terminates_parse() {
    let t = ir(
        vec![plain("X", r"\S+")],
        vec![state("Start", vec![rule("X ${X}", Action::Next, Action::Record, Some("End"))])],
    );
    let template = Template::from_ir(t).unwrap();
    let results = template.parse("X one\nX two\nX three").unwrap();
    assert_eq!(results.len(), 1);
    assert_eq!(*get(&results[0], "X"), s("one"));
}

fn filldown_template() -> Template {
    let t = ir(
        vec![field("Chassis", r"\S+", true, false, false, None), plain("Slot", r"\d+")],
        vec![state(
            "Start",
            vec![
                rule("Chassis ${Chassis}", Action::Next, Action::Next, None),
                rule("Slot ${Slot}", Action::Next, Action::Record, None),
            ],
        )],
    );
    Template::from_ir(t).unwrap()
}

#[test]
fn test_filldown() {
    let template = filldown_template();
    let results = template.parse("Chassis Router1\nSlot 1\nSlot 2").unwrap();
    assert_eq!(results.len(), 2);
    assert_eq!(*get(&results[0], "Chassis"), s("Router1"));
    assert_eq!(*get(&results[0], "Slot"), n(1));
    assert_eq!(*get(&results[1], "Chassis"), s("Router1"));
    assert_eq!(*get(&results[1], "Slot"), n(2));
}

#[test]
fn test_required() {
    let t = ir(
        vec![field("Interface", r"\S+", false, true, false, None), plain("IP", r"\S+")],
        vec![state(
            "Start",
            vec![
                rule("Interface ${Interface}", Action::Continue, Action::Next, None),
                rule("IP ${IP}", Action::Next, Action::Record, None),
                rule("NO_INTERFACE", Action::Next, Action::Record, None),
            ],
        )],
    );
    let template = Template::from_ir(t).unwrap();
    let results = template.parse("Interface Eth1 IP 1.1.1.1\nNO_INTERFACE").unwrap();
    assert_eq!(results.len(), 1);
    assert_eq!(*get(&results[0], "Interface"), s("Eth1"));
    assert_eq!(*get(&results[0], "IP"), s("1.1.1.1"));
}

#[test]
fn test_eof_record() {
    let t = ir(
        vec![plain("Value", r"\w+")],
        vec![state("Start", vec![rule("Set ${Value}", Action::Next, Action::Next, None)])],
    );
    let template = Template::from_ir(t).unwrap();
    let results = template.parse("Set Data").unwrap();
    assert_eq!(results.len(), 1);
    assert_eq!(*get(&results[0], "Value"), s("Data"));
}

#[test]
fn test_list_support() {
    let t = ir(
        vec![field("Inter", r"\S+", false, false, true, None)],
        vec![state("Start", vec![rule("Interface ${Inter}", Action::Next, Action::Next, None)])],
    );
    let template = Template::from_ir(t).unwrap();
    let results = template.parse("Interface Eth1\nInterface Eth2").unwrap();
    assert_eq!(results.len(), 1);
    assert_eq!(
        *get(&results[0], "Inter"),
        FieldValue::List(vec![Scalar::Str("Eth1".to_string()), Scalar::Str("Eth2".to_string())])
    );
}

#[test]
fn clear_preserves_filldown_and_clearall_clears_it() {
    let t = ir(
        vec![field("CHASSIS", r"\S+", true, false, false, None), plain("SLOT", r"\d+")],
        vec![state(
            "Start",
            vec![
                rule("^Chassis: ${CHASSIS}", Action::Next, Action::Next, None),
                rule("^Slot: ${SLOT}", Action::Next, Action::Record, None),
                rule("^CLEARALL", Action::Next, Action::ClearAll, None),
                rule("^CLEAR", Action::Next, Action::Clear, None),
            ],
        )],
    );
    let template = Template::from_ir(t).unwrap();
    let results = template.parse("Chassis: R1\nSlot: 1\nCLEAR\nSlot: 2\nCLEARALL\nSlot: 3\n").unwrap();
    assert_eq!(results.len(), 3);
    assert_eq!(*get(&results[0], "CHASSIS"), s("R1"));
    assert_eq!(*get(&results[0], "SLOT"), n(1));
    assert_eq!(*get(&results[1], "CHASSIS"), s("R1"));
    assert_eq!(*get(&results[1], "SLOT"), n(2));
    assert_eq!(*get(&results[2], "CHASSIS"), s(""));
    assert_eq!(*get(&results[2], "SLOT"), n(3));
}

#[test]
fn error_action_aborts_and_discards_rows() {
    let t = ir(
        vec![plain("V", r"\S+")],
        vec![state(
            "Start",
            vec![
                rule("^OK ${V}", Action::Next, Action::Record, None),
                rule("^BOOM", Action::Next, Action::Error, None),
            ],
        )],
    );
    let template = Template::from_ir(t).unwrap();
    let err = template.parse("OK first\nBOOM now\nOK second\n").unwrap_err();
    assert_eq!(err.kind(), Some(cliscrape::ErrorKind::ErrorActionTriggered));
    assert!(err.message().contains("Error action"));
}

#[test]
fn explicit_eof_empty_suppresses_implicit_record() {
    let t = ir(
        vec![plain("D", r"\S+")],
        vec![
            state("Start", vec![rule("^Data ${D}", Action::Next, Action::Next, None)]),
            state("EOF", vec![]),
        ],
    );
    let template = Template::from_ir(t).unwrap();
    assert_eq!(template.parse("Data value").unwrap().len(), 0);
}

#[test]
fn explicit_eof_rules_execute_once() {
    let t = ir(
        vec![plain("COUNT", r"\d+")],
        vec![
            state("Start", vec![rule("^Item ${COUNT}", Action::Next, Action::Next, None)]),
            state("EOF", vec![rule("^$", Action::Next, Action::Record, None)]),
        ],
    );
    let template = Template::from_ir(t).unwrap();
    let results = template.parse("Item 1\nItem 2\nItem 3").unwrap();
    assert_eq!(results.len(), 1);
    assert_eq!(*get(&results[0], "COUNT"), n(3));
}

#[test]
fn undefined_placeholder_errors_at_template_load() {
    let t = ir(
        vec![plain("INTERFACE", r"(\S+)")],
        vec![state("Start", vec![rule("^Interface ${INTERFACE} status ${MISSING}", Action::Next, Action::Next, None)])],
    );
    let err = Template::from_ir(t).unwrap_err();
    assert_eq!(err.kind(), Some(cliscrape::ErrorKind::PlaceholderUndefined));
    assert!(err.message().contains("MISSING"));
}

#[test]
fn undefined_macro_errors_at_template_load() {
    let t = ir(
        vec![plain("INTERFACE", r"(\S+)")],
        vec![state("Start", vec![rule("^Interface ${INTERFACE} is {{missing_macro}}", Action::Next, Action::Next, None)])],
    );
    let err = Template::from_ir(t).unwrap_err();
    assert_eq!(err.kind(), Some(cliscrape::ErrorKind::MacroUnknown));
    assert!(err.message().contains("missing_macro"));
}

#[test]
fn compile_rejects_bad_regex_unknown_group_and_missing_start() {
    let bad = ir(vec![], vec![state("Start", vec![rule("(", Action::Next, Action::Next, None)])]);
    assert_eq!(Template::from_ir(bad).unwrap_err().kind(), Some(cliscrape::ErrorKind::RegexCompile));
    let group = ir(vec![], vec![state("Start", vec![rule("(?P<x>a)", Action::Next, Action::Next, None)])]);
    assert_eq!(
        Template::from_ir(group).unwrap_err().kind(),
        Some(cliscrape::ErrorKind::NamedGroupWithoutField)
    );
    let nostart = ir(vec![], vec![state("Other", vec![])]);
    assert_eq!(Template::from_ir(nostart).unwrap_err().kind(), Some(cliscrape::ErrorKind::StateMissingStart));
}

#[test]
fn continue_cycle_is_reported() {
    let t = ir(
        vec![],
        vec![
            state("Start", vec![rule("x", Action::Continue, Action::Next, Some("B"))]),
            state("B", vec![rule("x", Action::Continue, Action::Next, Some("Start"))]),
        ],
    );
    let template = Template::from_ir(t).unwrap();
    assert_eq!(template.parse("x").unwrap_err().kind(), Some(cliscrape::ErrorKind::ContinueLoop));
}

#[test]
fn parse_is_deterministic() {
    let template = filldown_template();
    let a = template.parse("Chassis R\nSlot 1\nSlot 2").unwrap();
    let b = template.parse("Chassis R\nSlot 1\nSlot 2").unwrap();
    assert_eq!(a, b);
    assert_eq!(
        template.debug_parse("Chassis R\nSlot 1").unwrap(),
        template.debug_parse("Chassis R\nSlot 1").unwrap()
    );
}

#[test]
fn scalar_fields_never_lists_and_required_present() {
    let t = ir(
        vec![field("A", r"\S+", false, true, false, None), field("L", r"\S+", false, false, true, None)],
        vec![state(
            "Start",
            vec![
                rule("^a ${A}", Action::Next, Action::Next, None),
                rule("^l ${L}", Action::Next, Action::Next, None),
                rule("^go", Action::Next, Action::Record, None),
            ],
        )],
    );
    let template = Template::from_ir(t).unwrap();
    let results = template.parse("l x\ngo\na 1\nl y\nl z\ngo").unwrap();
    assert_eq!(results.len(), 1);
    assert_eq!(*get(&results[0], "A"), n(1));
    assert_eq!(
        *get(&results[0], "L"),
        FieldValue::List(vec![Scalar::Str("y".to_string()), Scalar::Str("z".to_string())])
    );
}

#[test]
fn test_template_from_ir_expands_macros_in_rule_regex() {
    let t = ir(
        vec![plain("Mac", r"\S+")],
        vec![state("Start", vec![rule(r"MAC (?P<Mac>{{mac_address}})", Action::Next, Action::Record, None)])],
    );
    let template = Template::from_ir(t).unwrap();
    assert!(!template.rule_regex("Start", 0).unwrap().contains("{{mac_address}}"));
    let results = template.parse("MAC aa:bb:cc:dd:ee:ff").unwrap();
    assert_eq!(results.len(), 1);
    assert_eq!(*get(&results[0], "Mac"), s("aa:bb:cc:dd:ee:ff"));
}

#[test]
fn unknown_transition_kind() {
    let t = ir(vec![], vec![state("Start", vec![rule("test", Action::Next, Action::Record, Some("Invalid"))])]);
    assert_eq!(
        Template::from_ir(t).unwrap_err().kind(),
        Some(cliscrape::ErrorKind::StateTransitionUnknown)
    );
}

#[test]
fn required_field_with_empty_capture_is_dropped() {
    let mut rb = RecordBuffer::new();
    let values = vec![field("A", r"\S*", false, true, false, None)];
    rb.insert("A".to_string(), "".to_string(), false);
    assert!(rb.emit(&values).is_none());
    rb.insert("A".to_string(), "x".to_string(), false);
    assert!(rb.emit(&values).is_some());
}
