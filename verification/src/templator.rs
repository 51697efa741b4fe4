//! The template engine: reads a template from left to right, copies its
//! literal text, and replaces each directive by what its resolver gives.
//!
//! A directive is resolved depth first. Each of its raw parameters is
//! trimmed and formatted as a template of its own, in order, before the
//! resolver of the directive runs on the results. The first failure, in
//! that order, ends the whole call.
//!
//! Some directives draw random numbers, so a template does not determine
//! its result. The specification is therefore a relation: `renders` says
//! which outcomes a template admits under given bindings, and `format`
//! promises that its outcome is one of them.
//!
//! Where the relation says that some intermediate outcome exists, the
//! quantifier carries `trigger(..)`, which is true of everything: it gives
//! the solver a term to instantiate the quantifier on and says nothing.

use crate::curlyfries::pairs;
use crate::curlyfries::CurlyFry;
use crate::curlyfries::Response;
use crate::curlyfries::ResponseView;
use crate::error::outcome;
use crate::error::text_outcome;
use crate::error::Failure;
use crate::error::ResolverFault;
use crate::error::TemplateError;
use crate::file::File;
use crate::file::FileView;
use crate::resolve::answers_all;
use crate::resolve::bound_file;
use crate::resolve::bound_response;
use crate::resolve::document_value;
use crate::resolve::env_value;
use crate::resolve::file_value;
use crate::resolve::random_admits;
use crate::resolve::resolve_document;
use crate::resolve::resolve_env;
use crate::resolve::resolve_file;
use crate::resolve::resolve_random;
use crate::resolve::resolve_response;
use crate::resolve::resolve_shorthand;
use crate::resolve::response_value;
use crate::resolve::shorthand_value;
use crate::laws::law_literal_identity;
use crate::syntax::directive_at;
use crate::syntax::is_literal;
use crate::syntax::lemma_directive_room;
use crate::syntax::lemma_weight_bounds;
use crate::syntax::scan_directive;
use crate::syntax::texts;
use crate::syntax::weight;
use crate::syntax::SyntaxFault;
use crate::syntax::DIRECTIVE_END;
use crate::syntax::DIRECTIVE_START;
use crate::syntax::SPECIAL_ESCAPE;
use crate::text::append;
use crate::text::chars_of;
use crate::text::lemma_trimmed_len;
use crate::text::spells;
use crate::text::text_of;
use crate::text::trim;
use crate::text::trimmed;
use vstd::pervasive::trigger;
use vstd::prelude::*;

verus! {

/// The data that directives can read, as values of the specification.
pub struct Bindings {
    /// The configuration document, as JSON text.
    pub config: Seq<char>,
    /// The definition of the active uploader, as JSON text.
    pub uploader: Seq<char>,
    /// The environment variables, name and value.
    pub environment: Seq<(Seq<char>, Seq<char>)>,
    /// The file, once one is selected.
    pub file: Option<FileView>,
    /// The response, once the upload is done.
    pub response: Option<ResponseView>,
}

/// The names that have a resolver.
pub open spec fn is_directive(name: Seq<char>) -> bool {
    ||| name == "config"@
    ||| name == "uploader"@
    ||| name == "env"@
    ||| name == "random"@
    ||| name == "response"@
    ||| name == "json"@
    ||| name == "xml"@
    ||| name == "regex"@
    ||| name == "file"@
}

/// Whether the resolver of the directive `name` can hand back `o` for the
/// resolved parameters `args`.
pub open spec fn admits<F: Fn(&str, &str) -> String>(
    b: Bindings,
    floats: F,
    name: Seq<char>,
    args: Seq<Seq<char>>,
    o: Result<Seq<char>, ResolverFault>,
) -> bool {
    if name == "config"@ {
        o == document_value(b.config, args)
    } else if name == "uploader"@ {
        o == document_value(b.uploader, args)
    } else if name == "env"@ {
        o == env_value(b.environment, args)
    } else if name == "random"@ {
        random_admits(floats, args, o)
    } else if name == "response"@ {
        o == response_value(b.response, args)
    } else if name == "json"@ || name == "xml"@ || name == "regex"@ {
        o == shorthand_value(b.response, name, args)
    } else if name == "file"@ {
        o == file_value(b.file, args)
    } else {
        false
    }
}

/// Whether the directive `name` can come to `r` for the resolved
/// parameters `args`: a name without a resolver fails with
/// `UnknownDirective`; any other comes to what its resolver admits, a
/// failure of the resolver under the name of the directive.
pub open spec fn resolves<F: Fn(&str, &str) -> String>(
    b: Bindings,
    floats: F,
    name: Seq<char>,
    args: Seq<Seq<char>>,
    r: Result<Seq<char>, Failure>,
) -> bool {
    if !is_directive(name) {
        r == Err::<Seq<char>, Failure>(Failure::UnknownDirective(name))
    } else {
        match r {
            Ok(text) => admits(b, floats, name, args, Ok(text)),
            Err(Failure::Resolver { directive, fault }) => directive == name && admits(
                b,
                floats,
                name,
                args,
                Err(fault),
            ),
            Err(_) => false,
        }
    }
}

/// Whether formatting the raw parameters `raws` one after the other can
/// come to `r`: to the list of their texts where each one renders, or else
/// to the failure of the first one that does not, the ones before it
/// having come to some texts `done`.
pub open spec fn arguments_render<F: Fn(&str, &str) -> String>(
    b: Bindings,
    floats: F,
    raws: Seq<Seq<char>>,
    r: Result<Seq<Seq<char>>, Failure>,
) -> bool
    decreases weight(raws), 0int, 0int,
{
    match r {
        Ok(args) => args.len() == raws.len() && forall|k: int|
            0 <= k < raws.len() ==> {
                proof {
                    lemma_weight_bounds(raws);
                    lemma_trimmed_len(raws[k]);
                }
                renders(b, floats, trimmed(#[trigger] raws[k]), Ok(args[k]))
            },
        Err(failure) => exists|done: Seq<Seq<char>>| #[trigger]
            trigger(done) && done.len() < raws.len() && (forall|k: int|
                0 <= k < done.len() ==> {
                    proof {
                        lemma_weight_bounds(raws);
                        lemma_trimmed_len(raws[k]);
                    }
                    renders(b, floats, trimmed(#[trigger] raws[k]), Ok(done[k]))
                }) && {
                proof {
                    lemma_weight_bounds(raws);
                    lemma_trimmed_len(raws[done.len() as int]);
                }
                renders(b, floats, trimmed(raws[done.len() as int]), Err(failure))
            },
    }
}

/// Whether the directive with the name `name` and the raw parameters
/// `raws`, both as written, can come to `r`. A name that is empty once
/// trimmed is a syntax error; else the parameters are formatted, and the
/// resolver runs on their texts.
pub open spec fn directive_renders<F: Fn(&str, &str) -> String>(
    b: Bindings,
    floats: F,
    name: Seq<char>,
    raws: Seq<Seq<char>>,
    r: Result<Seq<char>, Failure>,
) -> bool
    decreases weight(raws), 1int, 0int,
{
    if trimmed(name).len() == 0 {
        r == Err::<Seq<char>, Failure>(Failure::Syntax(SyntaxFault::EmptyName))
    } else {
        exists|a: Result<Seq<Seq<char>>, Failure>| #[trigger]
            trigger(a) && arguments_render(b, floats, raws, a) && match a {
                Err(failure) => r == Err::<Seq<char>, Failure>(failure),
                Ok(args) => resolves(b, floats, trimmed(name), args, r),
            }
    }
}

/// Whether reading the template `s` from position `i` on, with `acc`
/// already written out, can come to `out`.
pub open spec fn walk<F: Fn(&str, &str) -> String>(
    b: Bindings,
    floats: F,
    s: Seq<char>,
    i: int,
    acc: Seq<char>,
    out: Result<Seq<char>, Failure>,
) -> bool
    decreases s.len(), 2int, s.len() - i,
{
    if i < 0 || i >= s.len() {
        out == Ok::<Seq<char>, Failure>(acc)
    } else if s[i] == SPECIAL_ESCAPE {
        if i + 1 < s.len() {
            walk(b, floats, s, i + 2, acc.push(s[i + 1]), out)
        } else {
            out == Ok::<Seq<char>, Failure>(acc)
        }
    } else if s[i] == DIRECTIVE_END {
        out == Err::<Seq<char>, Failure>(Failure::Syntax(SyntaxFault::UnmatchedEnd))
    } else if s[i] == DIRECTIVE_START {
        match directive_at(s, i + 1) {
            Err(fault) => out == Err::<Seq<char>, Failure>(Failure::Syntax(fault)),
            Ok(raw) => {
                proof {
                    lemma_directive_room(s, i + 1);
                }
                exists|r: Result<Seq<char>, Failure>| #[trigger]
                    trigger(r) && directive_renders(b, floats, raw.name, raw.params, r) && match r {
                        Err(failure) => out == Err::<Seq<char>, Failure>(failure),
                        Ok(text) => walk(b, floats, s, raw.next, acc + text, out),
                    }
            },
        }
    } else {
        walk(b, floats, s, i + 1, acc.push(s[i]), out)
    }
}

/// Whether formatting the template `s` under the bindings `b` can come to
/// `out`.
///
/// Outside a directive, a character stands for itself, a backslash for the
/// character behind it (for nothing at the very end), and an unescaped `}`
/// is a syntax error. A directive stands for the text that it comes to;
/// where it cannot be read or comes to a failure, that failure is the
/// outcome of the whole template.
pub open spec fn renders<F: Fn(&str, &str) -> String>(
    b: Bindings,
    floats: F,
    s: Seq<char>,
    out: Result<Seq<char>, Failure>,
) -> bool
    decreases s.len(), 3int, 0int,
{
    walk(b, floats, s, 0, Seq::empty(), out)
}

/// Formats templates against the data bound to it.
pub struct Templator<'a> {
    /// The configuration document, as JSON text.
    pub config: String,
    /// The definition of the active uploader, as JSON text.
    pub uploader: String,
    /// The environment variables as they were when the templator was made.
    pub environment: Vec<(String, String)>,
    /// The file to upload, once it is selected.
    pub file: Option<File>,
    /// The upload, once it has a response.
    pub curlyfry: Option<&'a CurlyFry>,
}

impl<'a> View for Templator<'a> {
    type V = Bindings;

    open spec fn view(&self) -> Bindings {
        Bindings {
            config: self.config@,
            uploader: self.uploader@,
            environment: pairs(self.environment@),
            file: bound_file(self.file),
            response: match self.curlyfry {
                Some(curlyfry) => curlyfry@.response,
                None => None,
            },
        }
    }
}

impl<'a> Templator<'a> {
    /// A templator over the two documents and the environment, with no
    /// file and no response bound yet.
    pub fn new(config: String, uploader: String, environment: Vec<(String, String)>) -> (templator:
        Self)
        ensures
            templator@ == (Bindings {
                config: config@,
                uploader: uploader@,
                environment: pairs(environment@),
                file: None,
                response: None,
            }),
    {
        Templator { config, uploader, environment, file: None, curlyfry: None }
    }

    /// Binds the file. Nothing else changes.
    pub fn set_file(&mut self, file: File)
        ensures
            final(self)@ == (Bindings { file: Some(file@), ..old(self)@ }),
    {
        self.file = Some(file);
    }

    /// Binds the upload, and with it its response if it has one. Nothing
    /// else changes.
    pub fn set_curlyfry(&mut self, curlyfry: &'a CurlyFry)
        ensures
            final(self)@ == (Bindings { response: curlyfry@.response, ..old(self)@ }),
    {
        self.curlyfry = Some(curlyfry);
    }

    /// The response that is bound, if any.
    fn response(&self) -> (response: Option<&Response>)
        ensures
            bound_response(response) == self@.response,
    {
        match self.curlyfry {
            Some(curlyfry) => curlyfry.response.as_ref(),
            None => None,
        }
    }

    /// Formats `template`: its literal text with every directive replaced
    /// by what it resolves to, or the first failure met on the way.
    ///
    /// `floats` answers `random:float`: it is handed the two bounds as
    /// written and returns the text of a value drawn between them. This
    /// crate has no floating-point arithmetic of its own.
    pub fn format<F: Fn(&str, &str) -> String>(&self, template: &str, floats: &F) -> (r: Result<
        String,
        TemplateError,
    >)
        requires
            answers_all(*floats),
        ensures
            renders(self@, *floats, template@, text_outcome(r)),
            is_literal(template@, 0, template@.len() as int) ==> text_outcome(r) == Ok::<
                Seq<char>,
                Failure,
            >(template@),
    {
        let chars = chars_of(template);
        let r = match self.directive_iterator(&chars, floats) {
            Ok(text) => Ok(text_of(&text)),
            Err(error) => Err(error),
        };
        proof {
            if is_literal(template@, 0, template@.len() as int) {
                law_literal_identity(self@, *floats, template@, text_outcome(r));
            }
        }
        r
    }

    /// Formats a template given as characters.
    pub fn directive_iterator<F: Fn(&str, &str) -> String>(
        &self,
        template: &Vec<char>,
        floats: &F,
    ) -> (r: Result<Vec<char>, TemplateError>)
        requires
            answers_all(*floats),
        ensures
            renders(self@, *floats, template@, outcome(r)),
        decreases template@.len(), 1int,
    {
        let ghost s = template@;
        let mut result: Vec<char> = Vec::new();
        let mut i: usize = 0;
        while i < template.len()
            invariant
                i <= template.len(),
                s == template@,
                answers_all(*floats),
                forall|out: Result<Seq<char>, Failure>| #[trigger]
                    walk(self@, *floats, s, i as int, result@, out) ==> renders(
                        self@,
                        *floats,
                        s,
                        out,
                    ),
            decreases template.len() - i,
        {
            let c = template[i];
            if c == SPECIAL_ESCAPE {
                if i + 1 < template.len() {
                    let ghost before = result@;
                    result.push(template[i + 1]);
                    assert forall|out: Result<Seq<char>, Failure>| #[trigger]
                        walk(self@, *floats, s, i + 2, result@, out) implies renders(
                        self@,
                        *floats,
                        s,
                        out,
                    ) by {
                        assert(walk(self@, *floats, s, i as int, before, out));
                    }
                    i += 2;
                } else {
                    assert(walk(self@, *floats, s, i as int, result@, Ok(result@)));
                    return Ok(result);
                }
            } else if c == DIRECTIVE_END {
                let error = TemplateError::SyntaxError(SyntaxFault::UnmatchedEnd);
                assert(walk(self@, *floats, s, i as int, result@, Err(error@)));
                return Err(error);
            } else if c == DIRECTIVE_START {
                match scan_directive(template, i + 1) {
                    Err(fault) => {
                        let error = TemplateError::SyntaxError(fault);
                        assert(walk(self@, *floats, s, i as int, result@, Err(error@)));
                        return Err(error);
                    },
                    Ok(directive) => {
                        proof {
                            lemma_directive_room(s, i + 1);
                        }
                        let ghost before = result@;
                        match self.handle_directive(&directive.name, &directive.params, floats) {
                            Err(error) => {
                                assert(trigger(Err::<Seq<char>, Failure>(error@)));
                                assert(walk(self@, *floats, s, i as int, result@, Err(error@)));
                                return Err(error);
                            },
                            Ok(text) => {
                                append(&mut result, &text);
                                assert forall|out: Result<Seq<char>, Failure>| #[trigger]
                                    walk(
                                        self@,
                                        *floats,
                                        s,
                                        directive.next as int,
                                        result@,
                                        out,
                                    ) implies renders(self@, *floats, s, out) by {
                                    assert(trigger(Ok::<Seq<char>, Failure>(text@)));
                                    assert(walk(self@, *floats, s, i as int, before, out));
                                }
                                i = directive.next;
                            },
                        }
                    },
                }
            } else {
                let ghost before = result@;
                result.push(c);
                assert forall|out: Result<Seq<char>, Failure>| #[trigger]
                    walk(self@, *floats, s, i + 1, result@, out) implies renders(
                    self@,
                    *floats,
                    s,
                    out,
                ) by {
                    assert(walk(self@, *floats, s, i as int, before, out));
                }
                i += 1;
            }
        }
        assert(walk(self@, *floats, s, i as int, result@, Ok(result@)));
        Ok(result)
    }

    /// Resolves one directive, given its name and its raw parameters as
    /// they stand in the template: trims the name, formats each parameter
    /// in turn, and runs the resolver on the results.
    pub fn handle_directive<F: Fn(&str, &str) -> String>(
        &self,
        directive: &Vec<char>,
        parameters: &Vec<Vec<char>>,
        floats: &F,
    ) -> (r: Result<Vec<char>, TemplateError>)
        requires
            answers_all(*floats),
        ensures
            directive_renders(self@, *floats, directive@, texts(parameters@), outcome(r)),
        decreases weight(texts(parameters@)), 0int,
    {
        let name = trim(directive);
        if name.len() == 0 {
            return Err(TemplateError::SyntaxError(SyntaxFault::EmptyName));
        }
        let ghost raws = texts(parameters@);
        let mut args: Vec<Vec<char>> = Vec::new();
        let mut k: usize = 0;
        while k < parameters.len()
            invariant
                k <= parameters.len(),
                raws == texts(parameters@),
                args.len() == k,
                trimmed(directive@).len() != 0,
                answers_all(*floats),
                forall|j: int|
                    0 <= j < k ==> renders(
                        self@,
                        *floats,
                        trimmed(#[trigger] raws[j]),
                        Ok(texts(args@)[j]),
                    ),
            decreases parameters.len() - k,
        {
            let raw = trim(&parameters[k]);
            proof {
                lemma_weight_bounds(raws);
                lemma_trimmed_len(raws[k as int]);
            }
            assert(raw@ == trimmed(raws[k as int]));
            match self.directive_iterator(&raw, floats) {
                Err(error) => {
                    assert(trigger(texts(args@)));
                    assert(arguments_render(self@, *floats, raws, Err(error@)));
                    assert(trigger(Err::<Seq<Seq<char>>, Failure>(error@)));
                    return Err(error);
                },
                Ok(text) => {
                    let ghost before = texts(args@);
                    args.push(text);
                    assert(texts(args@) == before.push(text@));
                },
            }
            k += 1;
        }
        assert(arguments_render(self@, *floats, raws, Ok(texts(args@))));
        assert(trigger(Ok::<Seq<Seq<char>>, Failure>(texts(args@))));
        self.resolve(&name, &args, floats)
    }

    /// Runs the resolver of the directive `name` on the resolved
    /// parameters `args`.
    pub fn resolve<F: Fn(&str, &str) -> String>(
        &self,
        name: &Vec<char>,
        args: &Vec<Vec<char>>,
        floats: &F,
    ) -> (r: Result<Vec<char>, TemplateError>)
        requires
            answers_all(*floats),
        ensures
            resolves(self@, *floats, name@, texts(args@), outcome(r)),
    {
        let resolved = if spells(name, "config") {
            resolve_document(self.config.as_str(), args)
        } else if spells(name, "uploader") {
            resolve_document(self.uploader.as_str(), args)
        } else if spells(name, "env") {
            resolve_env(&self.environment, args)
        } else if spells(name, "random") {
            resolve_random(floats, args)
        } else if spells(name, "response") {
            resolve_response(self.response(), args)
        } else if spells(name, "json") || spells(name, "xml") || spells(name, "regex") {
            resolve_shorthand(self.response(), name, args)
        } else if spells(name, "file") {
            resolve_file(&self.file, args)
        } else {
            return Err(TemplateError::UnknownDirectiveError(text_of(name)));
        };
        match resolved {
            Ok(text) => Ok(text),
            Err(fault) => Err(TemplateError::ResolverError { directive: text_of(name), fault }),
        }
    }
}

} // verus!
