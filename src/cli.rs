//! The command line of the front-end, as plain data.
use vstd::prelude::*;
use crate::text::{chars_of, starts_at};
use crate::types::TemplateFormat;

verus! {

/// The parsed command line.
#[derive(Debug, Clone, PartialEq)]
pub struct Cli {
    pub error_format: ErrorFormat,
    pub command: Commands,
}

/// The subcommands.
#[derive(Debug, Clone, PartialEq)]
pub enum Commands {
    /// Parse raw text files with a template.
    Parse {
        template: String,
        template_format: TemplateFormat,
        inputs: Vec<String>,
        input: Vec<String>,
        input_glob: Vec<String>,
        stdin: bool,
        format: OutputFormat,
        quiet: bool,
    },
    /// Launch the debugger.
    Debug { template: Option<String>, input: Option<String> },
    /// Convert a legacy template into a structured one.
    Convert { input: String, output: Option<String>, format: Option<ConvertFormat>, defaults: bool },
    /// List available templates.
    ListTemplates { filter: Option<String>, format: OutputFormat },
    /// Show one template.
    ShowTemplate { template: String, source: bool },
}

#[derive(Debug, Clone, Copy, PartialEq, Eq, Structural)]
pub enum OutputFormat {
    Auto,
    Json,
    Csv,
    Table,
}

#[derive(Debug, Clone, Copy, PartialEq, Eq, Structural)]
pub enum ErrorFormat {
    Human,
    Json,
}

#[derive(Debug, Clone, Copy, PartialEq, Eq, Structural)]
pub enum ConvertFormat {
    Yaml,
    Toml,
}

pub open spec fn ends_with(s: Seq<char>, suffix: Seq<char>) -> bool {
    s.len() >= suffix.len() && s.subrange(s.len() - suffix.len(), s.len() as int) == suffix
}

fn ends_with_exec(s: &Vec<char>, suffix: &str) -> (r: bool)
    ensures
        r == ends_with(s@, suffix@),
{
    let x = chars_of(suffix);
    if x.len() > s.len() {
        return false;
    }
    starts_at(s.as_slice(), x.as_slice(), s.len() - x.len())
}

/// The template dialect a file name's extension announces.
pub fn format_from_extension(path: &str) -> (r: Option<TemplateFormat>)
    ensures
        ends_with(path@, ".textfsm"@) ==> r == Some(TemplateFormat::Textfsm),
        !ends_with(path@, ".textfsm"@) && (ends_with(path@, ".yaml"@) || ends_with(path@, ".yml"@))
            ==> r == Some(TemplateFormat::Yaml),
        !ends_with(path@, ".textfsm"@) && !ends_with(path@, ".yaml"@) && !ends_with(path@, ".yml"@)
            && ends_with(path@, ".toml"@) ==> r == Some(TemplateFormat::Toml),
        !ends_with(path@, ".textfsm"@) && !ends_with(path@, ".yaml"@) && !ends_with(path@, ".yml"@)
            && !ends_with(path@, ".toml"@) ==> r is None,
{
    let p = chars_of(path);
    if ends_with_exec(&p, ".textfsm") {
        Some(TemplateFormat::Textfsm)
    } else if ends_with_exec(&p, ".yaml") || ends_with_exec(&p, ".yml") {
        Some(TemplateFormat::Yaml)
    } else if ends_with_exec(&p, ".toml") {
        Some(TemplateFormat::Toml)
    } else {
        None
    }
}

/// The extensions a template identifier is tried with, for a format filter.
pub open spec fn extensions_for(f: TemplateFormat) -> Seq<Seq<char>> {
    match f {
        TemplateFormat::Auto => seq!["textfsm"@, "yaml"@, "yml"@, "toml"@],
        TemplateFormat::Textfsm => seq!["textfsm"@],
        TemplateFormat::Yaml => seq!["yaml"@, "yml"@],
        TemplateFormat::Toml => seq!["toml"@],
    }
}

/// The file names an identifier (not an existing path) may stand for:
/// `SPEC.EXT` for each extension the format filter allows, in order.
pub fn template_candidates(spec: &str, format: TemplateFormat) -> (r: Vec<String>)
    ensures
        r@.len() == extensions_for(format).len(),
        forall|i: int| 0 <= i < r@.len() ==> (#[trigger] r@[i])@ == spec@ + "."@ + extensions_for(format)[i],
{
    let exts: Vec<&str> = match format {
        TemplateFormat::Auto => vec!["textfsm", "yaml", "yml", "toml"],
        TemplateFormat::Textfsm => vec!["textfsm"],
        TemplateFormat::Yaml => vec!["yaml", "yml"],
        TemplateFormat::Toml => vec!["toml"],
    };
    assert(exts@.map_values(|e: &str| e@) =~= extensions_for(format));
    let mut out: Vec<String> = Vec::new();
    let mut i: usize = 0;
    while i < exts.len()
        invariant
            i <= exts@.len(),
            exts@.map_values(|e: &str| e@) == extensions_for(format),
            out@.len() == i,
            forall|k: int| 0 <= k < i ==> (#[trigger] out@[k])@ == spec@ + "."@ + extensions_for(format)[k],
        decreases exts@.len() - i,
    {
        let a = crate::text::concat(spec, ".");
        let b = crate::text::concat(a.as_str(), exts[i]);
        proof {
            assert(extensions_for(format)[i as int] == exts@[i as int]@);
        }
        out.push(b);
        i = i + 1;
    }
    out
}

} // verus!
