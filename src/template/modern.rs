//! The structured template dialect (TOML or YAML documents).
use vstd::prelude::*;
use crate::compile::{find_placeholder, placeholder_at};
use crate::template::doc::{parse_toml, parse_yaml, toml_doc, yaml_doc, DocNode};
use crate::template::metadata::table_get;
use crate::text::{cat, chars_of, lit, str_eq, string_of, trim_bounds, trim_spec};
use crate::types::{
    first_value_index, Action, ErrorKind, FieldType, Rule, ScraperError, State, TemplateIR, ValueDef,
};

verus! {

/// The two document syntaxes.
#[derive(Debug, Clone, Copy, PartialEq, Eq, Structural)]
pub enum ModernFormat {
    Yaml,
    Toml,
}

#[derive(Debug, Clone, Copy, PartialEq, Eq, Structural)]
pub enum FieldTypeDef {
    Int,
    String,
}

/// `fields.NAME` of a document.
#[derive(Debug, Clone, PartialEq)]
pub struct FieldDef {
    pub field_type: Option<FieldTypeDef>,
    pub pattern: Option<String>,
    pub filldown: bool,
    pub required: bool,
    pub list: bool,
}

#[derive(Debug, Clone, Copy, PartialEq, Eq, Structural)]
pub enum LineActionDef {
    Next,
    Continue,
}

#[derive(Debug, Clone, Copy, PartialEq, Eq, Structural)]
pub enum RecordActionDef {
    NoRecord,
    Record,
    Clear,
}

/// The `action` of a rule.
#[derive(Debug, Clone, PartialEq)]
pub struct ActionDef {
    pub line: Option<LineActionDef>,
    pub record: Option<RecordActionDef>,
    pub next: Option<String>,
}

/// A rule of `states.NAME`.
#[derive(Debug, Clone, PartialEq)]
pub struct StateRuleDef {
    pub regex: String,
    pub action: Option<ActionDef>,
}

/// An entry of `patterns`.
#[derive(Debug, Clone, PartialEq)]
pub struct PatternRuleDef {
    pub regex: String,
    pub record: bool,
}

/// A structured template document, in document order.
#[derive(Debug, Clone, PartialEq)]
pub struct ModernTemplateDoc {
    pub version: i64,
    pub macros: Vec<(String, String)>,
    pub fields: Vec<(String, FieldDef)>,
    pub states: Option<Vec<(String, Vec<StateRuleDef>)>>,
    pub patterns: Option<Vec<PatternRuleDef>>,
}

fn schema_error(msg: String) -> (r: ScraperError)
    ensures
        r.kind_spec() == Some(ErrorKind::TemplateSchema),
{
    ScraperError::Parse(ErrorKind::TemplateSchema, msg)
}

fn join_path(path: &str, key: &str) -> String {
    if path.len() == 0 {
        lit(key)
    } else {
        cat(&[path, ".", key])
    }
}

/// The texts of a list of literals.
pub open spec fn strs_of(v: Seq<&str>) -> Seq<Seq<char>> {
    v.map_values(|s: &str| s@)
}

/// Every key of a table is a string among `allowed`.
pub open spec fn keys_ok(es: Seq<(DocNode, DocNode)>, allowed: Seq<Seq<char>>) -> bool {
    forall|i: int| 0 <= i < es.len() ==> (#[trigger] es[i]).0 is Str && allowed.contains(es[i].0->Str_0@)
}

/// `n` is a table whose keys are strings among `allowed`.
pub open spec fn table_ok(n: DocNode, allowed: Seq<Seq<char>>) -> bool {
    n is Table && keys_ok(n->Table_0@, allowed)
}

/// The value under `key` of the table `n`.
pub open spec fn tg(n: DocNode, key: Seq<char>) -> Option<DocNode> {
    table_get(n->Table_0@, key)
}

pub open spec fn bool_ok(o: Option<DocNode>) -> bool {
    o is None || o.unwrap() is Bool
}

pub open spec fn bool_of(o: Option<DocNode>) -> bool {
    o is Some && o.unwrap() is Bool && o.unwrap()->Bool_0
}

pub open spec fn optstr_ok(o: Option<DocNode>) -> bool {
    o is None || o.unwrap() is Null || o.unwrap() is Str
}

pub open spec fn optstr_of(o: Option<DocNode>) -> Option<Seq<char>> {
    if o is Some && o.unwrap() is Str {
        Some(o.unwrap()->Str_0@)
    } else {
        None
    }
}

pub open spec fn str_is(o: Option<DocNode>, w: Seq<char>) -> bool {
    o is Some && o.unwrap() is Str && o.unwrap()->Str_0@ == w
}

pub open spec fn field_keys() -> Seq<Seq<char>> {
    seq!["type"@, "pattern"@, "filldown"@, "required"@, "list"@]
}

pub open spec fn action_keys() -> Seq<Seq<char>> {
    seq!["line"@, "record"@, "next"@]
}

pub open spec fn rule_keys() -> Seq<Seq<char>> {
    seq!["regex"@, "action"@]
}

pub open spec fn pattern_keys() -> Seq<Seq<char>> {
    seq!["regex"@, "record"@]
}

pub open spec fn doc_keys() -> Seq<Seq<char>> {
    seq!["version"@, "macros"@, "fields"@, "states"@, "patterns"@, "metadata"@]
}

pub open spec fn type_ok(o: Option<DocNode>) -> bool {
    o is None || o.unwrap() is Null || str_is(o, "int"@) || str_is(o, "string"@)
}

pub open spec fn type_of(o: Option<DocNode>) -> Option<FieldTypeDef> {
    if str_is(o, "int"@) {
        Some(FieldTypeDef::Int)
    } else if str_is(o, "string"@) {
        Some(FieldTypeDef::String)
    } else {
        None
    }
}

/// `n` is a well-formed `fields.NAME` entry.
pub open spec fn field_ok(n: DocNode) -> bool {
    &&& table_ok(n, field_keys())
    &&& type_ok(tg(n, "type"@))
    &&& optstr_ok(tg(n, "pattern"@))
    &&& bool_ok(tg(n, "filldown"@)) && bool_ok(tg(n, "required"@)) && bool_ok(tg(n, "list"@))
}

/// `f` is the field `n` describes.
pub open spec fn field_is(n: DocNode, f: FieldDef) -> bool {
    &&& f.field_type == type_of(tg(n, "type"@))
    &&& opt_view(f.pattern) == optstr_of(tg(n, "pattern"@))
    &&& f.filldown == bool_of(tg(n, "filldown"@))
    &&& f.required == bool_of(tg(n, "required"@))
    &&& f.list == bool_of(tg(n, "list"@))
}

pub open spec fn line_ok(o: Option<DocNode>) -> bool {
    o is None || str_is(o, "next"@) || str_is(o, "continue"@)
}

pub open spec fn line_of(o: Option<DocNode>) -> Option<LineActionDef> {
    if str_is(o, "next"@) {
        Some(LineActionDef::Next)
    } else if str_is(o, "continue"@) {
        Some(LineActionDef::Continue)
    } else {
        None
    }
}

pub open spec fn record_ok(o: Option<DocNode>) -> bool {
    o is None || str_is(o, "none"@) || str_is(o, "record"@) || str_is(o, "clear"@)
}

pub open spec fn record_of_node(o: Option<DocNode>) -> Option<RecordActionDef> {
    if str_is(o, "none"@) {
        Some(RecordActionDef::NoRecord)
    } else if str_is(o, "record"@) {
        Some(RecordActionDef::Record)
    } else if str_is(o, "clear"@) {
        Some(RecordActionDef::Clear)
    } else {
        None
    }
}

pub open spec fn action_ok(n: DocNode) -> bool {
    table_ok(n, action_keys()) && line_ok(tg(n, "line"@)) && record_ok(tg(n, "record"@)) && optstr_ok(tg(n, "next"@))
}

pub open spec fn action_is(n: DocNode, a: ActionDef) -> bool {
    a.line == line_of(tg(n, "line"@)) && a.record == record_of_node(tg(n, "record"@)) && opt_view(a.next) == optstr_of(tg(n, "next"@))
}

pub open spec fn srule_ok(n: DocNode) -> bool {
    &&& table_ok(n, rule_keys())
    &&& tg(n, "regex"@) is Some && tg(n, "regex"@).unwrap() is Str
    &&& (tg(n, "action"@) is None || action_ok(tg(n, "action"@).unwrap()))
}

pub open spec fn srule_is(n: DocNode, d: StateRuleDef) -> bool {
    &&& optstr_of(tg(n, "regex"@)) == Some(d.regex@)
    &&& tg(n, "action"@) is None ==> d.action is None
    &&& tg(n, "action"@) is Some ==> d.action is Some && action_is(tg(n, "action"@).unwrap(), d.action.unwrap())
}

pub open spec fn rules_ok(n: DocNode) -> bool {
    n is List && forall|i: int| 0 <= i < n->List_0@.len() ==> srule_ok(#[trigger] n->List_0@[i])
}

pub open spec fn rules_is(n: DocNode, v: Seq<StateRuleDef>) -> bool {
    v.len() == n->List_0@.len() && forall|i: int| 0 <= i < v.len() ==> srule_is(#[trigger] n->List_0@[i], v[i])
}

pub open spec fn pattern_ok(n: DocNode) -> bool {
    table_ok(n, pattern_keys()) && tg(n, "regex"@) is Some && tg(n, "regex"@).unwrap() is Str && bool_ok(tg(n, "record"@))
}

pub open spec fn pattern_is(n: DocNode, p: PatternRuleDef) -> bool {
    optstr_of(tg(n, "regex"@)) == Some(p.regex@) && p.record == bool_of(tg(n, "record"@))
}

pub open spec fn patterns_ok(n: DocNode) -> bool {
    n is List && forall|i: int| 0 <= i < n->List_0@.len() ==> pattern_ok(#[trigger] n->List_0@[i])
}

pub open spec fn patterns_is(n: DocNode, v: Seq<PatternRuleDef>) -> bool {
    v.len() == n->List_0@.len() && forall|i: int| 0 <= i < v.len() ==> pattern_is(#[trigger] n->List_0@[i], v[i])
}

/// `o`, if present, is a table with string keys whose values pass `f`.
pub open spec fn named_table_ok(o: Option<DocNode>, kind: int) -> bool {
    o is None || (o.unwrap() is Table && forall|i: int|
        0 <= i < o.unwrap()->Table_0@.len() ==> {
            let e = #[trigger] o.unwrap()->Table_0@[i];
            &&& e.0 is Str
            &&& (kind == 0 ==> e.1 is Str)
            &&& (kind == 1 ==> field_ok(e.1))
            &&& (kind == 2 ==> rules_ok(e.1))
        })
}

/// `root` is a document the schema accepts.
pub open spec fn doc_ok(root: DocNode) -> bool {
    &&& table_ok(root, doc_keys())
    &&& tg(root, "version"@) is Some && tg(root, "version"@).unwrap() is Int
    &&& named_table_ok(tg(root, "macros"@), 0)
    &&& named_table_ok(tg(root, "fields"@), 1)
    &&& named_table_ok(tg(root, "states"@), 2)
    &&& (tg(root, "patterns"@) is None || patterns_ok(tg(root, "patterns"@).unwrap()))
}

pub open spec fn table_entries(o: Option<DocNode>) -> Seq<(DocNode, DocNode)> {
    if o is Some && o.unwrap() is Table {
        o.unwrap()->Table_0@
    } else {
        Seq::empty()
    }
}

/// `d` is the document `root` describes (for a `root` that `doc_ok` accepts).
pub open spec fn doc_is(root: DocNode, d: ModernTemplateDoc) -> bool {
    let ms = table_entries(tg(root, "macros"@));
    let fs = table_entries(tg(root, "fields"@));
    let ss = table_entries(tg(root, "states"@));
    &&& d.version == tg(root, "version"@).unwrap()->Int_0
    &&& d.macros@.len() == ms.len()
    &&& forall|i: int| 0 <= i < ms.len() ==> (#[trigger] d.macros@[i]).0@ == ms[i].0->Str_0@ && d.macros@[i].1@ == ms[i].1->Str_0@
    &&& d.fields@.len() == fs.len()
    &&& forall|i: int| 0 <= i < fs.len() ==> (#[trigger] d.fields@[i]).0@ == fs[i].0->Str_0@ && field_is(fs[i].1, d.fields@[i].1)
    &&& (tg(root, "states"@) is None <==> d.states is None)
    &&& d.states is Some ==> d.states.unwrap()@.len() == ss.len() && forall|i: int|
        0 <= i < ss.len() ==> (#[trigger] d.states.unwrap()@[i]).0@ == ss[i].0->Str_0@ && rules_is(
            ss[i].1,
            d.states.unwrap()@[i].1@,
        )
    &&& (tg(root, "patterns"@) is None <==> d.patterns is None)
    &&& d.patterns is Some ==> patterns_is(tg(root, "patterns"@).unwrap(), d.patterns.unwrap()@)
}

fn table_of<'a>(node: &'a DocNode, path: &str, allowed: &[&str]) -> (r: Result<&'a Vec<(DocNode, DocNode)>, String>)
    ensures
        r is Ok <==> table_ok(*node, strs_of(allowed@)),
        r is Ok ==> *node is Table && *r.unwrap() == node->Table_0,
{
    match node {
        DocNode::Table(entries) => {
            let ghost al = strs_of(allowed@);
            let mut i: usize = 0;
            while i < entries.len()
                invariant
                    i <= entries@.len(),
                    *node == DocNode::Table(*entries),
                    al == strs_of(allowed@),
                    forall|k: int| 0 <= k < i ==> (#[trigger] entries@[k]).0 is Str && al.contains(entries@[k].0->Str_0@),
                decreases entries@.len() - i,
            {
                match &entries[i].0 {
                    DocNode::Str(k) => {
                        let mut ok = false;
                        let mut j: usize = 0;
                        while j < allowed.len()
                            invariant
                                j <= allowed@.len(),
                                al == strs_of(allowed@),
                                ok <==> exists|x: int| 0 <= x < j && al[x] == k@,
                            decreases allowed@.len() - j,
                        {
                            if str_eq(k.as_str(), allowed[j]) {
                                ok = true;
                            }
                            proof {
                                assert(al[j as int] == allowed@[j as int]@);
                            }
                            j = j + 1;
                        }
                        if !ok {
                            proof {
                                assert(!al.contains(k@));
                                assert(entries@[i as int].0 == DocNode::Str(*k));
                                assert(!((entries@[i as int]).0 is Str && al.contains(entries@[i as int].0->Str_0@)));
                                assert(!keys_ok(entries@, al));
                                assert(*node == DocNode::Table(*entries));
                            }
                            let p = join_path(path, k.as_str());
                            return Err(cat(&[p.as_str(), ": unknown field `", k.as_str(), "`"]));
                        }
                    },
                    _ => {
                        proof {
                            assert(!(entries@[i as int].0 is Str));
                            assert(!keys_ok(entries@, al));
                            assert(*node == DocNode::Table(*entries));
                        }
                        return Err(cat(&[path, ": keys must be strings"]));
                    },
                }
                i = i + 1;
            }
            Ok(entries)
        },
        _ => Err(cat(&[path, ": invalid type, expected a table"])),
    }
}

fn as_string(node: &DocNode, path: &str) -> (r: Result<String, String>)
    ensures
        r is Ok <==> *node is Str,
        r is Ok ==> r.unwrap()@ == node->Str_0@,
{
    match node {
        DocNode::Str(s) => Ok(s.clone()),
        _ => Err(cat(&[path, ": invalid type, expected a string"])),
    }
}

fn as_bool(node: Option<&DocNode>, path: &str) -> (r: Result<bool, String>)
    ensures
        r is Ok <==> bool_ok(opt_node(node)),
        r is Ok ==> r.unwrap() == bool_of(opt_node(node)),
{
    match node {
        None => Ok(false),
        Some(DocNode::Bool(b)) => Ok(*b),
        Some(_) => Err(cat(&[path, ": invalid type, expected a boolean"])),
    }
}

pub open spec fn opt_node(o: Option<&DocNode>) -> Option<DocNode> {
    match o {
        Some(n) => Some(*n),
        None => None,
    }
}

fn opt_string(node: Option<&DocNode>, path: &str) -> (r: Result<Option<String>, String>)
    ensures
        r is Ok <==> optstr_ok(opt_node(node)),
        r is Ok ==> opt_view(r.unwrap()) == optstr_of(opt_node(node)),
{
    match node {
        None => Ok(None),
        Some(DocNode::Null) => Ok(None),
        Some(n) => Ok(Some(as_string(n, path)?)),
    }
}

fn get_node<'a>(t: &'a Vec<(DocNode, DocNode)>, key: &str) -> (r: Option<&'a DocNode>)
    ensures
        opt_node(r) == table_get(t@, key@),
{
    crate::template::metadata::get(t, key)
}

fn decode_field(node: &DocNode, path: &str) -> (r: Result<FieldDef, String>)
    ensures
        r is Ok <==> field_ok(*node),
        r is Ok ==> field_is(*node, r.unwrap()),
{
    let keys: [&str; 5] = ["type", "pattern", "filldown", "required", "list"];
    proof {
        assert(strs_of(keys@) =~= field_keys());
    }
    let t = table_of(node, path, &keys)?;
    let tp = join_path(path, "type");
    let field_type = match get_node(t, "type") {
        None => None,
        Some(DocNode::Null) => None,
        Some(n) => {
            let s = as_string(n, tp.as_str())?;
            if str_eq(s.as_str(), "int") {
                Some(FieldTypeDef::Int)
            } else if str_eq(s.as_str(), "string") {
                Some(FieldTypeDef::String)
            } else {
                return Err(cat(&[tp.as_str(), ": unknown variant `", s.as_str(), "`, expected `int` or `string`"]));
            }
        },
    };
    let pattern = opt_string(get_node(t, "pattern"), join_path(path, "pattern").as_str())?;
    let filldown = as_bool(get_node(t, "filldown"), join_path(path, "filldown").as_str())?;
    let required = as_bool(get_node(t, "required"), join_path(path, "required").as_str())?;
    let list = as_bool(get_node(t, "list"), join_path(path, "list").as_str())?;
    Ok(FieldDef { field_type, pattern, filldown, required, list })
}

fn decode_action(node: &DocNode, path: &str) -> (r: Result<ActionDef, String>)
    ensures
        r is Ok <==> action_ok(*node),
        r is Ok ==> action_is(*node, r.unwrap()),
{
    let keys: [&str; 3] = ["line", "record", "next"];
    proof {
        assert(strs_of(keys@) =~= action_keys());
    }
    let t = table_of(node, path, &keys)?;
    let lp = join_path(path, "line");
    let line = match get_node(t, "line") {
        None => None,
        Some(n) => {
            let s = as_string(n, lp.as_str())?;
            if str_eq(s.as_str(), "next") {
                Some(LineActionDef::Next)
            } else if str_eq(s.as_str(), "continue") {
                Some(LineActionDef::Continue)
            } else {
                return Err(cat(&[lp.as_str(), ": unknown variant `", s.as_str(), "`, expected `next` or `continue`"]));
            }
        },
    };
    let rp = join_path(path, "record");
    let record = match get_node(t, "record") {
        None => None,
        Some(n) => {
            let s = as_string(n, rp.as_str())?;
            if str_eq(s.as_str(), "none") {
                Some(RecordActionDef::NoRecord)
            } else if str_eq(s.as_str(), "record") {
                Some(RecordActionDef::Record)
            } else if str_eq(s.as_str(), "clear") {
                Some(RecordActionDef::Clear)
            } else {
                return Err(cat(&[rp.as_str(), ": unknown variant `", s.as_str(), "`, expected one of `none`, `record`, `clear`"]));
            }
        },
    };
    let next = opt_string(get_node(t, "next"), join_path(path, "next").as_str())?;
    Ok(ActionDef { line, record, next })
}

fn index_path(path: &str, i: usize) -> String {
    let d = crate::text::decimal(i as u64);
    let ds = string_of(d.as_slice());
    cat(&[path, "[", ds.as_str(), "]"])
}

fn decode_state_rule(node: &DocNode, p: &str) -> (r: Result<StateRuleDef, String>)
    ensures
        r is Ok <==> srule_ok(*node),
        r is Ok ==> srule_is(*node, r.unwrap()),
{
    let keys: [&str; 2] = ["regex", "action"];
    proof {
        assert(strs_of(keys@) =~= rule_keys());
    }
    let t = table_of(node, p, &keys)?;
    let regex = match get_node(t, "regex") {
        Some(n) => as_string(n, join_path(p, "regex").as_str())?,
        None => {
            return Err(cat(&[p, ": missing field `regex`"]));
        },
    };
    let action = match get_node(t, "action") {
        None => None,
        Some(n) => Some(decode_action(n, join_path(p, "action").as_str())?),
    };
    Ok(StateRuleDef { regex, action })
}

fn decode_state_rules(node: &DocNode, path: &str) -> (r: Result<Vec<StateRuleDef>, String>)
    ensures
        r is Ok <==> rules_ok(*node),
        r is Ok ==> rules_is(*node, r.unwrap()@),
{
    match node {
        DocNode::List(items) => {
            let mut out: Vec<StateRuleDef> = Vec::new();
            let mut i: usize = 0;
            while i < items.len()
                invariant
                    *node == DocNode::List(*items),
                    i <= items@.len(),
                    out@.len() == i,
                    forall|k: int| 0 <= k < i ==> srule_ok(#[trigger] items@[k]) && srule_is(items@[k], out@[k]),
                decreases items@.len() - i,
            {
                let p = index_path(path, i);
                let d = match decode_state_rule(&items[i], p.as_str()) {
                    Ok(d) => d,
                    Err(e) => {
                        proof {
                            assert(!srule_ok(node->List_0@[i as int]));
                        }
                        return Err(e);
                    },
                };
                out.push(d);
                i = i + 1;
            }
            Ok(out)
        },
        _ => Err(cat(&[path, ": invalid type, expected a sequence"])),
    }
}

fn decode_pattern(node: &DocNode, p: &str) -> (r: Result<PatternRuleDef, String>)
    ensures
        r is Ok <==> pattern_ok(*node),
        r is Ok ==> pattern_is(*node, r.unwrap()),
{
    let keys: [&str; 2] = ["regex", "record"];
    proof {
        assert(strs_of(keys@) =~= pattern_keys());
    }
    let t = table_of(node, p, &keys)?;
    let regex = match get_node(t, "regex") {
        Some(n) => as_string(n, join_path(p, "regex").as_str())?,
        None => {
            return Err(cat(&[p, ": missing field `regex`"]));
        },
    };
    let record = as_bool(get_node(t, "record"), join_path(p, "record").as_str())?;
    Ok(PatternRuleDef { regex, record })
}

fn decode_patterns(node: &DocNode, path: &str) -> (r: Result<Vec<PatternRuleDef>, String>)
    ensures
        r is Ok <==> patterns_ok(*node),
        r is Ok ==> patterns_is(*node, r.unwrap()@),
{
    match node {
        DocNode::List(items) => {
            let mut out: Vec<PatternRuleDef> = Vec::new();
            let mut i: usize = 0;
            while i < items.len()
                invariant
                    *node == DocNode::List(*items),
                    i <= items@.len(),
                    out@.len() == i,
                    forall|k: int| 0 <= k < i ==> pattern_ok(#[trigger] items@[k]) && pattern_is(items@[k], out@[k]),
                decreases items@.len() - i,
            {
                let p = index_path(path, i);
                let d = match decode_pattern(&items[i], p.as_str()) {
                    Ok(d) => d,
                    Err(e) => {
                        proof {
                            assert(!pattern_ok(node->List_0@[i as int]));
                        }
                        return Err(e);
                    },
                };
                out.push(d);
                i = i + 1;
            }
            Ok(out)
        },
        _ => Err(cat(&[path, ": invalid type, expected a sequence"])),
    }
}

impl ModernTemplateDoc {
    /// Reads a document tree, rejecting unknown keys and ill-typed values
    /// with a message that starts with the offending path.
    fn from_tree(root: &DocNode) -> (r: Result<ModernTemplateDoc, String>)
        ensures
            r is Ok <==> doc_ok(*root),
            r is Ok ==> doc_is(*root, r.unwrap()),
    {
        let keys: [&str; 6] = ["version", "macros", "fields", "states", "patterns", "metadata"];
        proof {
            assert(strs_of(keys@) =~= doc_keys());
        }
        let t = table_of(root, "", &keys)?;
        let version = match get_node(t, "version") {
            Some(DocNode::Int(v)) => *v,
            Some(_) => {
                return Err(lit("version: invalid type, expected an integer"));
            },
            None => {
                return Err(lit("missing field `version`"));
            },
        };
        let mut macros: Vec<(String, String)> = Vec::new();
        match get_node(t, "macros") {
            None => {},
            Some(n) => {
                let m = match n {
                    DocNode::Table(m) => m,
                    _ => {
                        return Err(lit("macros: invalid type, expected a table"));
                    },
                };
                let mut i: usize = 0;
                while i < m.len()
                    invariant
                        *n == DocNode::Table(*m),
                        tg(*root, "macros"@) == Some(*n),
                        i <= m@.len(),
                        macros@.len() == i,
                        forall|k: int| 0 <= k < i ==> (#[trigger] m@[k]).0 is Str && m@[k].1 is Str
                            && macros@[k].0@ == m@[k].0->Str_0@ && macros@[k].1@ == m@[k].1->Str_0@,
                    decreases m@.len() - i,
                {
                    let k = match as_string(&m[i].0, "macros") {
                        Ok(k) => k,
                        Err(e) => {
                            proof {
                                assert(!named_table_ok(Some(*n), 0));
                                assert(tg(*root, "macros"@) == Some(*n));
                            }
                            return Err(e);
                        },
                    };
                    let p = join_path("macros", k.as_str());
                    let v = match as_string(&m[i].1, p.as_str()) {
                        Ok(v) => v,
                        Err(e) => {
                            proof {
                                assert(!named_table_ok(Some(*n), 0));
                                assert(tg(*root, "macros"@) == Some(*n));
                            }
                            return Err(e);
                        },
                    };
                    macros.push((k, v));
                    i = i + 1;
                }
            },
        }
        let mut fields: Vec<(String, FieldDef)> = Vec::new();
        match get_node(t, "fields") {
            None => {},
            Some(n) => {
                let m = match n {
                    DocNode::Table(m) => m,
                    _ => {
                        return Err(lit("fields: invalid type, expected a table"));
                    },
                };
                let mut i: usize = 0;
                while i < m.len()
                    invariant
                        *n == DocNode::Table(*m),
                        tg(*root, "fields"@) == Some(*n),
                        i <= m@.len(),
                        fields@.len() == i,
                        forall|k: int| 0 <= k < i ==> (#[trigger] m@[k]).0 is Str && field_ok(m@[k].1)
                            && fields@[k].0@ == m@[k].0->Str_0@ && field_is(m@[k].1, fields@[k].1),
                    decreases m@.len() - i,
                {
                    let k = match as_string(&m[i].0, "fields") {
                        Ok(k) => k,
                        Err(e) => {
                            proof {
                                assert(!named_table_ok(Some(*n), 1));
                                assert(tg(*root, "fields"@) == Some(*n));
                            }
                            return Err(e);
                        },
                    };
                    let p = join_path("fields", k.as_str());
                    let f = match decode_field(&m[i].1, p.as_str()) {
                        Ok(f) => f,
                        Err(e) => {
                            proof {
                                assert(!named_table_ok(Some(*n), 1));
                                assert(tg(*root, "fields"@) == Some(*n));
                            }
                            return Err(e);
                        },
                    };
                    fields.push((k, f));
                    i = i + 1;
                }
            },
        }
        let states = match get_node(t, "states") {
            None => None,
            Some(n) => {
                let m = match n {
                    DocNode::Table(m) => m,
                    _ => {
                        return Err(lit("states: invalid type, expected a table"));
                    },
                };
                let mut out: Vec<(String, Vec<StateRuleDef>)> = Vec::new();
                let mut i: usize = 0;
                while i < m.len()
                    invariant
                        *n == DocNode::Table(*m),
                        tg(*root, "states"@) == Some(*n),
                        i <= m@.len(),
                        out@.len() == i,
                        forall|k: int| 0 <= k < i ==> (#[trigger] m@[k]).0 is Str && rules_ok(m@[k].1)
                            && out@[k].0@ == m@[k].0->Str_0@ && rules_is(m@[k].1, out@[k].1@),
                    decreases m@.len() - i,
                {
                    let k = match as_string(&m[i].0, "states") {
                        Ok(k) => k,
                        Err(e) => {
                            proof {
                                assert(!named_table_ok(Some(*n), 2));
                                assert(tg(*root, "states"@) == Some(*n));
                            }
                            return Err(e);
                        },
                    };
                    let p = join_path("states", k.as_str());
                    let rules = match decode_state_rules(&m[i].1, p.as_str()) {
                        Ok(r) => r,
                        Err(e) => {
                            proof {
                                assert(!named_table_ok(Some(*n), 2));
                                assert(tg(*root, "states"@) == Some(*n));
                            }
                            return Err(e);
                        },
                    };
                    out.push((k, rules));
                    i = i + 1;
                }
                Some(out)
            },
        };
        let patterns = match get_node(t, "patterns") {
            None => None,
            Some(n) => Some(decode_patterns(n, "patterns")?),
        };
        let d = ModernTemplateDoc { version, macros, fields, states, patterns };
        proof {
            assert(named_table_ok(tg(*root, "macros"@), 0));
            assert(named_table_ok(tg(*root, "fields"@), 1));
            assert(named_table_ok(tg(*root, "states"@), 2));
        }
        Ok(d)
    }
}

/// The first field of `fs` named `name`, or -1.
pub open spec fn field_index(fs: Seq<(String, FieldDef)>, name: Seq<char>) -> int
    decreases fs.len(),
{
    if fs.len() == 0 {
        -1
    } else if field_index(fs.drop_last(), name) >= 0 {
        field_index(fs.drop_last(), name)
    } else if fs.last().0@ == name {
        fs.len() - 1
    } else {
        -1
    }
}

proof fn lemma_field_index(fs: Seq<(String, FieldDef)>, name: Seq<char>)
    ensures
        -1 <= field_index(fs, name) < fs.len(),
        field_index(fs, name) >= 0 ==> fs[field_index(fs, name)].0@ == name,
        forall|j: int|
            0 <= j < fs.len() && (field_index(fs, name) < 0 || j < field_index(fs, name)) ==> fs[j].0@ != name,
    decreases fs.len(),
{
    if fs.len() > 0 {
        let t = fs.drop_last();
        lemma_field_index(t, name);
        let k = field_index(fs, name);
        assert forall|j: int| 0 <= j < fs.len() && (k < 0 || j < k) implies fs[j].0@ != name by {
            if j < t.len() {
                assert(t[j] == fs[j]);
            }
        }
    }
}

fn find_field(fs: &Vec<(String, FieldDef)>, name: &str) -> (r: usize)
    ensures
        r <= fs@.len(),
        r < fs@.len() <==> field_index(fs@, name@) >= 0,
        r < fs@.len() ==> r == field_index(fs@, name@),
{
    proof {
        lemma_field_index(fs@, name@);
    }
    let mut i: usize = 0;
    while i < fs.len()
        invariant
            i <= fs@.len(),
            forall|j: int| 0 <= j < i ==> fs@[j].0@ != name@,
            -1 <= field_index(fs@, name@) < fs@.len(),
            field_index(fs@, name@) >= 0 ==> fs@[field_index(fs@, name@)].0@ == name@,
            forall|j: int|
                0 <= j < fs@.len() && (field_index(fs@, name@) < 0 || j < field_index(fs@, name@)) ==> fs@[j].0@ != name@,
        decreases fs@.len() - i,
    {
        if str_eq(fs[i].0.as_str(), name) {
            return i;
        }
        i = i + 1;
    }
    i
}

/// Whether field `name` exists and has a non-empty pattern.
pub open spec fn backed(fs: Seq<(String, FieldDef)>, name: Seq<char>) -> bool {
    let i = field_index(fs, name);
    i >= 0 && fs[i].1.pattern is Some && fs[i].1.pattern.unwrap()@.len() > 0
}

/// Every `${name}` of `s` names a field with a pattern.
pub open spec fn placeholders_backed(fs: Seq<(String, FieldDef)>, s: Seq<char>) -> bool {
    forall|p: int| #[trigger] placeholder_at(s, p) is Some ==> backed(fs, s.subrange(p + 2, placeholder_at(s, p).unwrap()))
}

pub open spec fn is_name_start(c: char) -> bool {
    ('a' <= c && c <= 'z') || ('A' <= c && c <= 'Z') || c == '_'
}

/// If a named group `(?P<name>` starts at `p`, the end of its name.
pub open spec fn group_at(s: Seq<char>, p: int) -> Option<int> {
    let n = crate::compile::ident_len(s, p + 4);
    if 0 <= p && p + 5 + n <= s.len() && s[p] == '(' && s[p + 1] == '?' && s[p + 2] == 'P' && s[p + 3] == '<'
        && n > 0 && is_name_start(s[p + 4]) && s[p + 4 + n] == '>' {
        Some(p + 4 + n)
    } else {
        None
    }
}

/// Every named group of `s` names a field.
pub open spec fn groups_known(fs: Seq<(String, FieldDef)>, s: Seq<char>) -> bool {
    forall|p: int| #[trigger] group_at(s, p) is Some ==> field_index(fs, s.subrange(p + 4, group_at(s, p).unwrap())) >= 0
}

pub open spec fn nonempty_states(o: Option<Vec<(String, Vec<StateRuleDef>)>>) -> bool {
    o is Some && o.unwrap()@.len() > 0
}

pub open spec fn nonempty_patterns(o: Option<Vec<PatternRuleDef>>) -> bool {
    o is Some && o.unwrap()@.len() > 0
}

/// A regex's named groups (`groups`) or placeholders (otherwise) name fields.
pub open spec fn regex_refs_ok(fs: Seq<(String, FieldDef)>, s: Seq<char>, groups: bool) -> bool {
    if groups {
        groups_known(fs, s)
    } else {
        placeholders_backed(fs, s)
    }
}

/// Every rule regex of the document passes `regex_refs_ok`.
pub open spec fn all_regexes(d: ModernTemplateDoc, groups: bool) -> bool {
    &&& (d.states is Some ==> forall|i: int, j: int|
        0 <= i < d.states.unwrap()@.len() && 0 <= j < d.states.unwrap()@[i].1@.len() ==> regex_refs_ok(
            d.fields@,
            #[trigger] d.states.unwrap()@[i].1@[j].regex@,
            groups,
        ))
    &&& (d.patterns is Some ==> forall|k: int|
        0 <= k < d.patterns.unwrap()@.len() ==> regex_refs_ok(
            d.fields@,
            #[trigger] d.patterns.unwrap()@[k].regex@,
            groups,
        ))
}

pub open spec fn has_start(d: ModernTemplateDoc) -> bool {
    d.states is Some && exists|i: int|
        0 <= i < d.states.unwrap()@.len() && (#[trigger] d.states.unwrap()@[i]).0@ == "Start"@
}

/// Whether a document is a valid template, and if not, what is wrong first.
pub open spec fn validate_spec(d: ModernTemplateDoc) -> Result<(), ErrorKind> {
    let hs = nonempty_states(d.states);
    let hp = nonempty_patterns(d.patterns);
    if d.version != 1 {
        Err(ErrorKind::TemplateSchema)
    } else if hs == hp {
        Err(ErrorKind::TemplateSchema)
    } else if hs && !has_start(d) {
        Err(ErrorKind::StateMissingStart)
    } else if !all_regexes(d, false) {
        Err(ErrorKind::PlaceholderUndefined)
    } else if !all_regexes(d, true) {
        Err(ErrorKind::NamedGroupWithoutField)
    } else {
        Ok(())
    }
}

fn find_group(s: &Vec<char>, p: usize) -> (r: Option<usize>)
    requires
        p < s@.len(),
    ensures
        match group_at(s@, p as int) {
            Some(e) => r == Some(e as usize),
            None => r is None,
        },
{
    if s.len() - p < 5 || s[p] != '(' || s[p + 1] != '?' || s[p + 2] != 'P' || s[p + 3] != '<' {
        return None;
    }
    let mut q: usize = p + 4;
    while q < s.len() && ((s[q] >= 'a' && s[q] <= 'z') || (s[q] >= 'A' && s[q] <= 'Z') || (s[q] >= '0' && s[q] <= '9') || s[q] == '_')
        invariant
            p + 4 <= q <= s@.len(),
            crate::compile::ident_len(s@, p + 4) == (q - (p + 4)) + crate::compile::ident_len(s@, q as int),
        decreases s@.len() - q,
    {
        q = q + 1;
    }
    assert(crate::compile::ident_len(s@, q as int) == 0);
    if q == p + 4 || q >= s.len() || s[q] != '>' {
        return None;
    }
    let c = s[p + 4];
    if !((c >= 'a' && c <= 'z') || (c >= 'A' && c <= 'Z') || c == '_') {
        return None;
    }
    Some(q)
}

/// Checks the placeholders of one regex.
fn check_placeholders(fs: &Vec<(String, FieldDef)>, regex: &String) -> (r: Result<(), ScraperError>)
    ensures
        r is Ok <==> placeholders_backed(fs@, regex@),
        r is Err ==> r->Err_0.kind_spec() == Some(ErrorKind::PlaceholderUndefined),
{
    let s = chars_of(regex.as_str());
    let mut p: usize = 0;
    while p < s.len()
        invariant
            s@ == regex@,
            p <= s@.len(),
            forall|q: int| 0 <= q < p && #[trigger] placeholder_at(s@, q) is Some ==> backed(fs@, s@.subrange(q + 2, placeholder_at(s@, q).unwrap())),
        decreases s@.len() - p,
    {
        match find_placeholder(&s, p) {
            Some(end) => {
                let name = string_of(crate::text::slice_vec(s.as_slice(), p + 2, end).as_slice());
                let i = find_field(fs, name.as_str());
                let ok = i < fs.len() && match &fs[i].1.pattern {
                    Some(pat) => {
                        let c = chars_of(pat.as_str());
                        c.len() > 0
                    },
                    None => false,
                };
                if !ok {
                    let field_path = cat(&["fields.", name.as_str()]);
                    let msg = if i < fs.len() {
                        cat(&["Rule references placeholder '${", name.as_str(), "}' but '", field_path.as_str(), ".pattern' is missing"])
                    } else {
                        cat(&["Rule references placeholder '${", name.as_str(), "}' but '", field_path.as_str(), "' is not defined"])
                    };
                    return Err(ScraperError::Parse(ErrorKind::PlaceholderUndefined, msg));
                }
            },
            None => {},
        }
        p = p + 1;
    }
    assert forall|q: int| #[trigger] placeholder_at(s@, q) is Some implies backed(fs@, s@.subrange(q + 2, placeholder_at(s@, q).unwrap())) by {
        if !(0 <= q < p) {
            assert(placeholder_at(s@, q) is None);
        }
    }
    Ok(())
}

/// Checks the named groups of one regex.
fn check_groups(fs: &Vec<(String, FieldDef)>, regex: &String) -> (r: Result<(), ScraperError>)
    ensures
        r is Ok <==> groups_known(fs@, regex@),
        r is Err ==> r->Err_0.kind_spec() == Some(ErrorKind::NamedGroupWithoutField),
{
    let s = chars_of(regex.as_str());
    let mut p: usize = 0;
    while p < s.len()
        invariant
            s@ == regex@,
            p <= s@.len(),
            forall|q: int| 0 <= q < p && #[trigger] group_at(s@, q) is Some ==> field_index(fs@, s@.subrange(q + 4, group_at(s@, q).unwrap())) >= 0,
        decreases s@.len() - p,
    {
        match find_group(&s, p) {
            Some(end) => {
                let name = string_of(crate::text::slice_vec(s.as_slice(), p + 4, end).as_slice());
                if find_field(fs, name.as_str()) >= fs.len() {
                    return Err(
                        ScraperError::Parse(
                            ErrorKind::NamedGroupWithoutField,
                            cat(&["Rule contains named capture group '", name.as_str(), "' but 'fields.", name.as_str(), "' is not defined"]),
                        ),
                    );
                }
            },
            None => {},
        }
        p = p + 1;
    }
    assert forall|q: int| #[trigger] group_at(s@, q) is Some implies field_index(fs@, s@.subrange(q + 4, group_at(s@, q).unwrap())) >= 0 by {
        if !(0 <= q < p) {
            assert(group_at(s@, q) is None);
        }
    }
    Ok(())
}

/// The rule regexes of a document pass `check` (placeholders when `groups`
/// is false, named groups otherwise), states first, then patterns.
fn check_all(d: &ModernTemplateDoc, groups: bool) -> (r: Result<(), ScraperError>)
    ensures
        r is Ok <==> all_regexes(*d, groups),
        r is Err ==> r->Err_0.kind_spec() == Some(
            if groups {
                ErrorKind::NamedGroupWithoutField
            } else {
                ErrorKind::PlaceholderUndefined
            },
        ),
{
    match &d.states {
        Some(ss) => {
            let mut i: usize = 0;
            while i < ss.len()
                invariant
                    d.states == Some(*ss),
                    i <= ss@.len(),
                    forall|a: int, b: int| 0 <= a < i && 0 <= b < ss@[a].1@.len() ==> regex_refs_ok(d.fields@, #[trigger] ss@[a].1@[b].regex@, groups),
                decreases ss@.len() - i,
            {
                let rules = &ss[i].1;
                let mut j: usize = 0;
                while j < rules.len()
                    invariant
                        d.states == Some(*ss),
                        i < ss@.len(),
                        *rules == ss@[i as int].1,
                        j <= rules@.len(),
                        forall|a: int, b: int| 0 <= a < i && 0 <= b < ss@[a].1@.len() ==> regex_refs_ok(d.fields@, #[trigger] ss@[a].1@[b].regex@, groups),
                        forall|b: int| 0 <= b < j ==> regex_refs_ok(d.fields@, #[trigger] rules@[b].regex@, groups),
                    decreases rules@.len() - j,
                {
                    if groups {
                        check_groups(&d.fields, &rules[j].regex)?;
                    } else {
                        check_placeholders(&d.fields, &rules[j].regex)?;
                    }
                    j = j + 1;
                }
                i = i + 1;
            }
        },
        None => {},
    }
    match &d.patterns {
        Some(ps) => {
            let mut k: usize = 0;
            while k < ps.len()
                invariant
                    d.patterns == Some(*ps),
                    k <= ps@.len(),
                    forall|a: int| 0 <= a < k ==> regex_refs_ok(d.fields@, #[trigger] ps@[a].regex@, groups),
                    d.states is Some ==> forall|a: int, b: int| 0 <= a < d.states.unwrap()@.len() && 0 <= b < d.states.unwrap()@[a].1@.len() ==> regex_refs_ok(d.fields@, #[trigger] d.states.unwrap()@[a].1@[b].regex@, groups),
                decreases ps@.len() - k,
            {
                let res = if groups {
                    check_groups(&d.fields, &ps[k].regex)
                } else {
                    check_placeholders(&d.fields, &ps[k].regex)
                };
                match res {
                    Err(e) => {
                        proof {
                            assert(!regex_refs_ok(d.fields@, ps@[k as int].regex@, groups));
                            assert(d.patterns.unwrap()@[k as int].regex@ == ps@[k as int].regex@);
                            assert(!all_regexes(*d, groups));
                        }
                        return Err(e);
                    },
                    Ok(()) => {},
                }
                k = k + 1;
            }
        },
        None => {},
    }
    Ok(())
}

fn decimal_i64(v: i64) -> String {
    if v < 0 {
        let m = if v == i64::MIN {
            9223372036854775808u64
        } else {
            (-v) as u64
        };
        let d = crate::text::decimal(m);
        let s = string_of(d.as_slice());
        cat(&["-", s.as_str()])
    } else {
        string_of(crate::text::decimal(v as u64).as_slice())
    }
}

impl ModernTemplateDoc {
    /// Checks the version, the choice between `states` and `patterns`, the
    /// `Start` state, and the fields that rules reference.
    pub fn validate(&self) -> (r: Result<(), ScraperError>)
        ensures
            match validate_spec(*self) {
                Ok(_) => r is Ok,
                Err(k) => r is Err && r->Err_0.kind_spec() == Some(k),
            },
    {
        if self.version != 1 {
            let v = decimal_i64(self.version);
            return Err(schema_error(cat(&["Unsupported modern template version ", v.as_str(), " (supported: 1)"])));
        }
        let hs = match &self.states {
            Some(m) => m.len() > 0,
            None => false,
        };
        let hp = match &self.patterns {
            Some(v) => v.len() > 0,
            None => false,
        };
        if hs && hp {
            return Err(schema_error(lit("Modern template must define exactly one of 'states' or 'patterns'")));
        }
        if !hs && !hp {
            return Err(schema_error(lit("Modern template must define either 'states' or 'patterns'")));
        }
        if hs {
            let mut found = false;
            match &self.states {
                Some(ss) => {
                    let mut i: usize = 0;
                    while i < ss.len()
                        invariant
                            self.states == Some(*ss),
                            i <= ss@.len(),
                            found ==> has_start(*self),
                            !found ==> forall|j: int| 0 <= j < i ==> (#[trigger] ss@[j]).0@ != "Start"@,
                        decreases ss@.len() - i,
                    {
                        if str_eq(ss[i].0.as_str(), "Start") {
                            found = true;
                            proof {
                                assert(ss@[i as int].0@ == "Start"@);
                                assert(self.states.unwrap()@[i as int].0@ == "Start"@);
                                assert(has_start(*self));
                            }
                        }
                        i = i + 1;
                    }
                },
                None => {},
            }
            if !found {
                return Err(
                    ScraperError::Parse(
                        ErrorKind::StateMissingStart,
                        lit("Modern templates with explicit states must define a 'Start' state"),
                    ),
                );
            }
        }
        check_all(self, false)?;
        check_all(self, true)?;
        Ok(())
    }
}

pub open spec fn hint_of(t: Option<FieldTypeDef>) -> Option<FieldType> {
    match t {
        Some(FieldTypeDef::Int) => Some(FieldType::Int),
        Some(FieldTypeDef::String) => Some(FieldType::String),
        None => None,
    }
}

/// `v` is the field `f` of a document.
pub open spec fn lowered_value(f: (String, FieldDef), v: ValueDef) -> bool {
    &&& v.name@ == f.0@
    &&& v.regex@ == (if f.1.pattern is Some {
        f.1.pattern.unwrap()@
    } else {
        ".*?"@
    })
    &&& v.filldown == f.1.filldown
    &&& v.required == f.1.required
    &&& v.list == f.1.list
    &&& v.type_hint == hint_of(f.1.field_type)
}

pub open spec fn opt_view(o: Option<String>) -> Option<Seq<char>> {
    match o {
        Some(s) => Some(s@),
        None => None,
    }
}

/// `r` is the state rule `d` of a document.
pub open spec fn lowered_rule(d: StateRuleDef, r: Rule) -> bool {
    &&& r.regex@ == d.regex@
    &&& r.line_action == (if d.action is Some && d.action.unwrap().line == Some(LineActionDef::Continue) {
        Action::Continue
    } else {
        Action::Next
    })
    &&& r.record_action == (if d.action is Some && d.action.unwrap().record == Some(RecordActionDef::Record) {
        Action::Record
    } else if d.action is Some && d.action.unwrap().record == Some(RecordActionDef::Clear) {
        Action::Clear
    } else {
        Action::Next
    })
    &&& opt_view(r.next_state) == (if d.action is Some {
        opt_view(d.action.unwrap().next)
    } else {
        None
    })
}

/// `r` is the pattern rule `p` of a document: a `Start` rule without transition.
pub open spec fn lowered_pattern(p: PatternRuleDef, r: Rule) -> bool {
    &&& r.regex@ == p.regex@
    &&& r.line_action == Action::Next
    &&& r.record_action == (if p.record {
        Action::Record
    } else {
        Action::Next
    })
    &&& r.next_state is None
}

pub open spec fn macros_view(m: Seq<(String, String)>) -> Seq<(Seq<char>, Seq<char>)> {
    m.map_values(|p: (String, String)| (p.0@, p.1@))
}

/// `ir` is the template the document `d` describes.
pub open spec fn lowered(d: ModernTemplateDoc, ir: TemplateIR) -> bool {
    &&& ir.values@.len() == d.fields@.len()
    &&& forall|i: int| 0 <= i < d.fields@.len() ==> lowered_value(d.fields@[i], #[trigger] ir.values@[i])
    &&& macros_view(ir.macros@) == macros_view(d.macros@)
    &&& if nonempty_states(d.states) {
        let ss = d.states.unwrap()@;
        &&& ir.states@.len() == ss.len()
        &&& forall|i: int|
            0 <= i < ss.len() ==> {
                &&& (#[trigger] ir.states@[i]).name@ == ss[i].0@
                &&& ir.states@[i].rules@.len() == ss[i].1@.len()
                &&& forall|j: int|
                    0 <= j < ss[i].1@.len() ==> lowered_rule(ss[i].1@[j], #[trigger] ir.states@[i].rules@[j])
            }
    } else {
        let ps = if d.patterns is Some {
            d.patterns.unwrap()@
        } else {
            Seq::empty()
        };
        &&& ir.states@.len() == 1
        &&& ir.states@[0].name@ == "Start"@
        &&& ir.states@[0].rules@.len() == ps.len()
        &&& forall|j: int| 0 <= j < ps.len() ==> lowered_pattern(ps[j], #[trigger] ir.states@[0].rules@[j])
    }
}

fn clone_opt(o: &Option<String>) -> (r: Option<String>)
    ensures
        opt_view(r) == opt_view(*o),
{
    match o {
        Some(s) => Some(s.clone()),
        None => None,
    }
}

fn lower_rule(d: &StateRuleDef) -> (r: Rule)
    ensures
        lowered_rule(*d, r),
{
    match &d.action {
        None => Rule { regex: d.regex.clone(), line_action: Action::Next, record_action: Action::Next, next_state: None },
        Some(a) => {
            let la = match a.line {
                Some(LineActionDef::Continue) => Action::Continue,
                _ => Action::Next,
            };
            let ra = match a.record {
                Some(RecordActionDef::Record) => Action::Record,
                Some(RecordActionDef::Clear) => Action::Clear,
                _ => Action::Next,
            };
            Rule { regex: d.regex.clone(), line_action: la, record_action: ra, next_state: clone_opt(&a.next) }
        },
    }
}

impl ModernTemplateDoc {
    /// The template the document describes; without explicit states, the
    /// patterns become the rules of a single `Start` state.
    pub fn lower(&self) -> (r: TemplateIR)
        ensures
            lowered(*self, r),
    {
        let mut values: Vec<ValueDef> = Vec::new();
        let mut i: usize = 0;
        while i < self.fields.len()
            invariant
                i <= self.fields@.len(),
                values@.len() == i,
                forall|k: int| 0 <= k < i ==> lowered_value(self.fields@[k], #[trigger] values@[k]),
            decreases self.fields@.len() - i,
        {
            let f = &self.fields[i];
            let regex = match &f.1.pattern {
                Some(p) => p.clone(),
                None => lit(".*?"),
            };
            let hint = match f.1.field_type {
                Some(FieldTypeDef::Int) => Some(FieldType::Int),
                Some(FieldTypeDef::String) => Some(FieldType::String),
                None => None,
            };
            values.push(ValueDef { name: f.0.clone(), regex, filldown: f.1.filldown, required: f.1.required, list: f.1.list, type_hint: hint });
            i = i + 1;
        }
        let mut macros: Vec<(String, String)> = Vec::new();
        let mut m: usize = 0;
        while m < self.macros.len()
            invariant
                m <= self.macros@.len(),
                macros_view(macros@) == macros_view(self.macros@).subrange(0, m as int),
            decreases self.macros@.len() - m,
        {
            let ghost prev = macros@;
            macros.push((self.macros[m].0.clone(), self.macros[m].1.clone()));
            m = m + 1;
            proof {
                assert(macros_view(macros@) =~= macros_view(prev).push(macros_view(self.macros@)[m - 1]));
                assert(macros_view(macros@) =~= macros_view(self.macros@).subrange(0, m as int));
            }
        }
        proof {
            assert(macros_view(self.macros@).subrange(0, m as int) =~= macros_view(self.macros@));
        }
        let hs = match &self.states {
            Some(ss) => ss.len() > 0,
            None => false,
        };
        let mut states: Vec<State> = Vec::new();
        if hs {
            match &self.states {
                Some(ss) => {
                    let mut a: usize = 0;
                    while a < ss.len()
                        invariant
                            self.states == Some(*ss),
                            a <= ss@.len(),
                            states@.len() == a,
                            forall|x: int|
                                0 <= x < a ==> {
                                    &&& (#[trigger] states@[x]).name@ == ss@[x].0@
                                    &&& states@[x].rules@.len() == ss@[x].1@.len()
                                    &&& forall|j: int|
                                        0 <= j < ss@[x].1@.len() ==> lowered_rule(ss@[x].1@[j], #[trigger] states@[x].rules@[j])
                                },
                        decreases ss@.len() - a,
                    {
                        let defs = &ss[a].1;
                        let mut rules: Vec<Rule> = Vec::new();
                        let mut j: usize = 0;
                        while j < defs.len()
                            invariant
                                j <= defs@.len(),
                                rules@.len() == j,
                                forall|k: int| 0 <= k < j ==> lowered_rule(defs@[k], #[trigger] rules@[k]),
                            decreases defs@.len() - j,
                        {
                            rules.push(lower_rule(&defs[j]));
                            j = j + 1;
                        }
                        states.push(State { name: ss[a].0.clone(), rules });
                        a = a + 1;
                    }
                },
                None => {},
            }
        } else {
            let mut rules: Vec<Rule> = Vec::new();
            match &self.patterns {
                Some(ps) => {
                    let mut j: usize = 0;
                    while j < ps.len()
                        invariant
                            self.patterns == Some(*ps),
                            j <= ps@.len(),
                            rules@.len() == j,
                            forall|k: int| 0 <= k < j ==> lowered_pattern(ps@[k], #[trigger] rules@[k]),
                        decreases ps@.len() - j,
                    {
                        let p = &ps[j];
                        rules.push(
                            Rule {
                                regex: p.regex.clone(),
                                line_action: Action::Next,
                                record_action: if p.record {
                                    Action::Record
                                } else {
                                    Action::Next
                                },
                                next_state: None,
                            },
                        );
                        j = j + 1;
                    }
                },
                None => {},
            }
            states.push(State { name: lit("Start"), rules });
        }
        TemplateIR { values, states, macros }
    }
}

fn schema_message(m: String) -> (r: ScraperError)
    ensures
        r.kind_spec() == Some(ErrorKind::TemplateSchema),
{
    ScraperError::Parse(ErrorKind::TemplateSchema, m)
}

/// The document tree the text reads as, for the format.
pub open spec fn tree_of(format: ModernFormat, input: Seq<char>) -> Option<DocNode> {
    match format {
        ModernFormat::Toml => toml_doc(input),
        ModernFormat::Yaml => yaml_doc(input),
    }
}

/// The outcome of loading a structured template whose text reads as `t`:
/// a schema error, the validation error of the document, or the template
/// the document lowers to.
pub open spec fn loaded_from_tree(t: DocNode, r: Result<TemplateIR, ScraperError>) -> bool {
    if !doc_ok(t) {
        r is Err && r->Err_0.kind_spec() == Some(ErrorKind::TemplateSchema)
    } else {
        exists|d: ModernTemplateDoc|
            #[trigger] doc_is(t, d) && match validate_spec(d) {
                Err(k) => r is Err && r->Err_0.kind_spec() == Some(k),
                Ok(_) => r is Ok && lowered(d, r.unwrap()),
            }
    }
}

/// The outcome of loading a structured template from its text.
pub open spec fn load_spec_modern(format: ModernFormat, input: Seq<char>, r: Result<TemplateIR, ScraperError>) -> bool {
    match tree_of(format, input) {
        None => r is Err && r->Err_0.kind_spec() == Some(ErrorKind::TemplateSyntax),
        Some(t) => loaded_from_tree(t, r),
    }
}

/// Loads a structured template: reads the document, checks it against the
/// schema, validates it and lowers it.
pub fn load_str(format: ModernFormat, input: &str) -> (r: Result<TemplateIR, ScraperError>)
    ensures
        load_spec_modern(format, input@, r),
{
    let tree = match format {
        ModernFormat::Toml => match parse_toml(input) {
            Ok(t) => t,
            Err(e) => {
                return Err(ScraperError::Parse(ErrorKind::TemplateSyntax, cat(&["TOML parse error: ", e.as_str()])));
            },
        },
        ModernFormat::Yaml => match parse_yaml(input) {
            Ok(t) => t,
            Err(e) => {
                return Err(ScraperError::Parse(ErrorKind::TemplateSyntax, cat(&["YAML parse error: ", e.as_str()])));
            },
        },
    };
    let doc = match ModernTemplateDoc::from_tree(&tree) {
        Ok(d) => d,
        Err(m) => {
            let prefix = match format {
                ModernFormat::Toml => "TOML schema error: ",
                ModernFormat::Yaml => "YAML schema error: ",
            };
            return Err(schema_message(cat(&[prefix, m.as_str()])));
        },
    };
    match doc.validate() {
        Err(e) => {
            proof {
                assert(doc_is(tree, doc));
            }
            Err(e)
        },
        Ok(()) => {
            let ir = doc.lower();
            let r: Result<TemplateIR, ScraperError> = Ok(ir);
            proof {
                assert(r.unwrap() == ir);
                assert(doc_is(tree, doc));
            }
            r
        },
    }
}

/// Loads a TOML template.
pub fn load_toml_str(input: &str) -> (r: Result<TemplateIR, ScraperError>)
    ensures
        load_spec_modern(ModernFormat::Toml, input@, r),
{
    load_str(ModernFormat::Toml, input)
}

/// Loads a YAML template.
pub fn load_yaml_str(input: &str) -> (r: Result<TemplateIR, ScraperError>)
    ensures
        load_spec_modern(ModernFormat::Yaml, input@, r),
{
    load_str(ModernFormat::Yaml, input)
}

} // verus!
