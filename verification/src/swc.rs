//! SWC, the compiler of TypeScript and JSX, behind two calls: parsing a
//! file, and lowering the parsed module into printed CommonJS.

use vstd::prelude::*;
use crate::transform::SyntaxChoice;
use crate::transform::SyntaxChoice::{Es, Jsx, Tsx, TypeScript};
use swc_common::comments::SingleThreadedComments;
use swc_common::sync::Lrc;
use swc_common::{FileName, Globals, Mark, SourceMap, GLOBALS};
use swc_ecma_ast::{EsVersion, Module, Program};
use swc_ecma_codegen::to_code_default;
use swc_ecma_parser::{parse_file_as_module, EsSyntax, Syntax, TsSyntax};
use swc_ecma_transforms_base::{fixer::fixer, hygiene::hygiene, resolver};
use swc_ecma_transforms_module::common_js::{common_js, Config as CjsConfig, FeatureFlag};
use swc_ecma_transforms_module::path::Resolver;
use swc_ecma_transforms_typescript::strip;

verus! {

/// SWC's source map.
#[verifier::external_type_specification]
#[verifier::external_body]
pub struct ExSourceMap(SourceMap);

/// SWC's store of the comments met while parsing.
#[verifier::external_type_specification]
#[verifier::external_body]
pub struct ExSingleThreadedComments(SingleThreadedComments);

/// SWC's syntax tree of an ES module.
#[verifier::external_type_specification]
#[verifier::external_body]
pub struct ExModule(Module);

/// A parsed file: SWC's source map, the comments and the module, with the
/// path, source and syntax it was parsed from. Only `swc_parse` makes one
/// and its fields are private to this module, so the module it holds is
/// always the one parsed from the text it holds.
pub struct SwcParsed<'a>(SourceMap, SingleThreadedComments, Module, &'a str, &'a str, SyntaxChoice);

impl<'a> SwcParsed<'a> {
    /// The path the file was parsed under.
    pub closed spec fn path(&self) -> Seq<char> {
        self.3@
    }

    /// The source that was parsed.
    pub closed spec fn source(&self) -> Seq<char> {
        self.4@
    }

    /// The syntax it was parsed with.
    pub closed spec fn syntax(&self) -> SyntaxChoice {
        self.5
    }
}

/// The text of the error SWC reports when parsing `source`, the file at
/// `path`, with `syntax` fails; `None` when it parses.
pub uninterp spec fn swc_parse_error(path: Seq<char>, source: Seq<char>, syntax: SyntaxChoice) -> Option<Seq<char>>;

/// The text SWC prints for `source`, the file at `path`, parsed with
/// `syntax`, after resolving names, stripping types when `strip_types`,
/// turning ES modules into CommonJS, making names hygienic and fixing
/// parentheses.
pub uninterp spec fn swc_output(path: Seq<char>, source: Seq<char>, syntax: SyntaxChoice, strip_types: bool) -> Seq<char>;

/// `parse_file_as_module` (ES2020) of the source, registered under its
/// path in a fresh source map, with the syntax converted to SWC's:
/// TypeScript or TSX with decorators and without early errors, JSX with
/// decorators (also before `export`), or plain ES. It fails exactly when
/// SWC reports an error, with the error's text; which sources fail is
/// named, not stated.
#[verifier::external_body]
pub(crate) fn swc_parse<'a>(path: &'a str, source: &'a str, syntax: SyntaxChoice) -> (r: Result<SwcParsed<'a>, String>)
    ensures
        match (r, swc_parse_error(path@, source@, syntax)) {
            (Ok(p), None) => p.path() == path@ && p.source() == source@ && p.syntax() == syntax,
            (Err(a), Some(b)) => a@ == b,
            _ => false,
        },
{
    let (cm, c) = (SourceMap::default(), SingleThreadedComments::default());
    let fm = cm.new_source_file(Lrc::new(FileName::Real(path.into())), source.to_string());
    let ts = |tsx| Syntax::Typescript(TsSyntax { tsx, decorators: true, no_early_errors: true, ..Default::default() });
    let choice = match syntax {
        TypeScript => ts(false),
        Tsx => ts(true),
        Jsx => Syntax::Es(EsSyntax { jsx: true, decorators: true, decorators_before_export: true, ..Default::default() }),
        Es => Syntax::default(),
    };
    parse_file_as_module(&fm, choice, EsVersion::Es2020, Some(&c), &mut vec![])
        .map(|m| SwcParsed(cm, c, m, path, source, syntax))
        .map_err(|e| format!("Parse error: {e:?}"))
}

/// SWC's passes over a parsed module, in a fresh `GLOBALS` scope for its
/// marks: `resolver`, `strip` when `strip_types`, `common_js` (not
/// strict), `hygiene` and `fixer`; then `to_code_default` prints it. The
/// text is SWC's output for what was parsed, named, not stated.
#[verifier::external_body]
pub(crate) fn swc_lower(parsed: SwcParsed, strip_types: bool) -> (r: String)
    ensures
        r@ == swc_output(parsed.path(), parsed.source(), parsed.syntax(), strip_types),
{
    let SwcParsed(cm, c, m, ..) = parsed;
    GLOBALS.set(&Globals::new(), || {
        let (u, t) = (Mark::new(), Mark::new());
        let s = match strip_types { true => Some(strip(u, t)), false => None };
        let cjs = common_js(Resolver::Default, u, CjsConfig { strict_mode: false, ..Default::default() }, FeatureFlag::default());
        let p = Program::Module(m).apply((resolver(u, t, true), s, cjs, hygiene(), fixer(Some(&c))));
        to_code_default(Lrc::new(cm), Some(&c), &p)
    })
}

} // verus!
