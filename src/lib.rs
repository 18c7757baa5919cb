//! Template-driven parsing of semi-structured CLI text into typed records.
//!
//! A template (legacy line-oriented or structured document) describes a
//! finite state machine whose rules are regular expressions with named
//! captures; running it over input text yields records.
use vstd::prelude::*;

pub mod text;
pub mod types;
pub mod convert;
pub mod records;
pub mod macros;
pub mod pattern;
pub mod compile;
pub mod debug;
pub mod fsm;
pub mod tui;
pub mod transcript;
pub mod template;
pub mod cli;
pub mod laws;

pub use compile::Template;
pub use convert::{FieldValue, Scalar};
pub use debug::{CaptureSpan, DebugReport, EmittedRecord, LineMatch, TraceEvent, TraceEventType};
pub use records::{Record, RecordBuffer};
pub use types::{Action, ErrorKind, FieldType, Rule, ScraperError, State, TemplateFormat, TemplateIR, TemplateWarning, ValueDef};

verus! {

/// A compiled template, ready to parse many inputs.
pub struct FsmParser {
    pub template: Template,
}

impl FsmParser {
    pub fn new(template: Template) -> (r: Self)
        ensures
            r.template == template,
    {
        FsmParser { template }
    }

    /// Loads and compiles a template from its text in the given dialect.
    pub fn from_str_with_format(content: &str, format: TemplateFormat) -> (r: Result<Self, ScraperError>)
        ensures
            r is Ok ==> r.unwrap().template.wf(),
            format == TemplateFormat::Auto ==> r is Err,
            format == TemplateFormat::Textfsm ==> match template::loader::load_spec(content@) {
                None => r is Err && r->Err_0.kind_spec() == Some(ErrorKind::TemplateSyntax),
                Some(_) => exists|ir: TemplateIR| #[trigger] legacy_loaded(content@, ir) && compiled_outcome(ir, r),
            },
            format == TemplateFormat::Toml ==> exists|lr: Result<TemplateIR, ScraperError>|
                #[trigger] template::modern::load_spec_modern(template::modern::ModernFormat::Toml, content@, lr)
                    && loaded_outcome(lr, r),
            format == TemplateFormat::Yaml ==> exists|lr: Result<TemplateIR, ScraperError>|
                #[trigger] template::modern::load_spec_modern(template::modern::ModernFormat::Yaml, content@, lr)
                    && loaded_outcome(lr, r),
    {
        let ir = match format {
            TemplateFormat::Textfsm => template::loader::TextFsmLoader::parse_str(content)?,
            TemplateFormat::Yaml => {
                let lr = template::modern::load_yaml_str(content);
                match lr {
                    Ok(ir) => ir,
                    Err(e) => {
                        return Err(e);
                    },
                }
            },
            TemplateFormat::Toml => {
                let lr = template::modern::load_toml_str(content);
                match lr {
                    Ok(ir) => ir,
                    Err(e) => {
                        return Err(e);
                    },
                }
            },
            TemplateFormat::Auto => {
                return Err(
                    ScraperError::Parse(
                        ErrorKind::TemplateSyntax,
                        text::lit("Template format must be given for text without a file name"),
                    ),
                );
            },
        };
        let ghost ir0 = ir;
        let r = match Template::from_ir(ir) {
            Ok(t) => Ok(FsmParser { template: t }),
            Err(e) => Err(e),
        };
        proof {
            assert(compiled_outcome(ir0, r));
            if format == TemplateFormat::Textfsm {
                assert(legacy_loaded(content@, ir0));
            }
        }
        r
    }

    /// Parses each of `inputs` with the template, in order, failing on the
    /// first input that fails; the records of all inputs come in that order.
    pub fn parse_all(&self, inputs: &Vec<String>) -> (r: Result<Vec<Record>, ScraperError>)
        requires
            self.template.wf(),
        ensures
            match parse_all_spec(self.template, fsm::strings_view(inputs@)) {
                Ok(em) => r is Ok && r.unwrap()@.len() == em.len() && forall|k: int|
                    0 <= k < em.len() ==> records::record_of(
                        #[trigger] r.unwrap()@[k],
                        em[k],
                        self.template.values@,
                    ),
                Err(k) => r is Err && r->Err_0.kind_spec() == Some(k),
            },
    {
        let ghost ins = fsm::strings_view(inputs@);
        let mut out: Vec<Record> = Vec::new();
        let ghost mut em: Seq<Seq<records::Entry>> = Seq::empty();
        let mut i: usize = 0;
        proof {
            assert(ins.subrange(0, 0) =~= Seq::<Seq<char>>::empty());
        }
        while i < inputs.len()
            invariant
                self.template.wf(),
                i <= inputs@.len(),
                ins == fsm::strings_view(inputs@),
                parse_all_spec(self.template, ins.subrange(0, i as int)) == Ok::<Seq<Seq<records::Entry>>, ErrorKind>(em),
                out@.len() == em.len(),
                forall|k: int| 0 <= k < em.len() ==> records::record_of(#[trigger] out@[k], em[k], self.template.values@),
            decreases inputs@.len() - i,
        {
            proof {
                assert(ins.subrange(0, i + 1).drop_last() =~= ins.subrange(0, i as int));
                assert(ins.subrange(0, i + 1).last() == inputs@[i as int]@);
            }
            let res = self.parse(inputs[i].as_str());
            match res {
                Err(e) => {
                    proof {
                        lemma_parse_all_prefix_err(self.template, ins, i + 1);
                        assert(ins.subrange(0, ins.len() as int) =~= ins);
                    }
                    return Err(e);
                },
                Ok(recs) => {
                    let ghost b = match fsm::parse_spec(self.template, inputs@[i as int]@) {
                        Ok(x) => x,
                        Err(_) => Seq::empty(),
                    };
                    let ghost prev = out@;
                    let mut recs = recs;
                    out.append(&mut recs);
                    proof {
                        assert forall|k: int| 0 <= k < em.len() + b.len() implies records::record_of(
                            #[trigger] out@[k],
                            (em + b)[k],
                            self.template.values@,
                        ) by {
                            if k < em.len() {
                                assert(out@[k] == prev[k]);
                            }
                        }
                        em = em + b;
                    }
                },
            }
            i = i + 1;
        }
        proof {
            assert(ins.subrange(0, i as int) =~= ins);
        }
        Ok(out)
    }

    /// Parses `input` with the template.
    pub fn parse(&self, input: &str) -> (r: Result<Vec<Record>, ScraperError>)
        requires
            self.template.wf(),
        ensures
            match fsm::parse_spec(self.template, input@) {
                Ok(em) => r is Ok && r.unwrap()@.len() == em.len() && forall|k: int|
                    0 <= k < em.len() ==> records::record_of(
                        #[trigger] r.unwrap()@[k],
                        em[k],
                        self.template.values@,
                    ),
                Err(k) => r is Err && r->Err_0.kind_spec() == Some(k),
            },
    {
        self.template.parse(input)
    }

    /// Parses `input` with the template, reporting every rule fire.
    pub fn debug_parse(&self, input: &str) -> (r: Result<DebugReport, ScraperError>)
        requires
            self.template.wf(),
        ensures
            match fsm::parse_spec(self.template, input@) {
                Ok(em) => r is Ok && r.unwrap().records@.len() == em.len() && forall|k: int|
                    0 <= k < em.len() ==> records::record_of(
                        (#[trigger] r.unwrap().records@[k]).record,
                        em[k],
                        self.template.values@,
                    ),
                Err(k) => r is Err && r->Err_0.kind_spec() == Some(k),
            },
    {
        self.template.debug_parse(input)
    }
}

/// The buffers emitted by parsing each of `inputs` in turn, or the failure of
/// the first input that fails.
pub open spec fn parse_all_spec(t: Template, inputs: Seq<Seq<char>>) -> Result<Seq<Seq<records::Entry>>, ErrorKind>
    decreases inputs.len(),
{
    if inputs.len() == 0 {
        Ok(Seq::empty())
    } else {
        match parse_all_spec(t, inputs.drop_last()) {
            Err(e) => Err(e),
            Ok(a) => match fsm::parse_spec(t, inputs.last()) {
                Err(e) => Err(e),
                Ok(b) => Ok(a + b),
            },
        }
    }
}

proof fn lemma_parse_all_prefix_err(t: Template, inputs: Seq<Seq<char>>, k: int)
    requires
        0 <= k <= inputs.len(),
        parse_all_spec(t, inputs.subrange(0, k)) is Err,
    ensures
        parse_all_spec(t, inputs) == parse_all_spec(t, inputs.subrange(0, k)),
    decreases inputs.len() - k,
{
    if k < inputs.len() {
        assert(inputs.subrange(0, k + 1).drop_last() =~= inputs.subrange(0, k));
        lemma_parse_all_prefix_err(t, inputs, k + 1);
    } else {
        assert(inputs.subrange(0, k) =~= inputs);
    }
}

/// `ir` is the template the legacy text `content` describes.
pub open spec fn legacy_loaded(content: Seq<char>, ir: TemplateIR) -> bool {
    template::loader::load_spec(content) == Some(
        (template::loader::fields_view(ir.values@), template::loader::states_view(ir.states@)),
    ) && ir.macros@.len() == 0
}

/// `r` is the outcome of compiling `ir`.
pub open spec fn compiled_outcome(ir: TemplateIR, r: Result<FsmParser, ScraperError>) -> bool {
    match compile::compile_result(ir) {
        Err(k) => r is Err && r->Err_0.kind_spec() == Some(k),
        Ok(_) => r is Ok && r.unwrap().template.wf() && r.unwrap().template.compiled_from_ir(ir),
    }
}

/// `r` follows the loading outcome `lr`: its error, or the compilation of
/// the loaded template.
pub open spec fn loaded_outcome(lr: Result<TemplateIR, ScraperError>, r: Result<FsmParser, ScraperError>) -> bool {
    match lr {
        Err(e) => r is Err && r->Err_0.kind_spec() == e.kind_spec(),
        Ok(ir) => compiled_outcome(ir, r),
    }
}

} // verus!
