//! What holds of every template, stated over `renders` and the resolvers'
//! specifications, and proved from them.

use crate::error::Failure;
use crate::error::ResolverFault;
use crate::resolve::file_value;
use crate::resolve::header_value;
use crate::resolve::random_admits;
use crate::resolve::ranged_integer;
use crate::resolve::rest_of;
use crate::resolve::truncated_rem;
use crate::resolve::response_value;
use crate::resolve::shorthand_value;
use crate::resolve::single_scalar;
use crate::syntax::DIRECTIVE_END;
use crate::syntax::DIRECTIVE_PARAMETER_SEPARATOR;
use crate::syntax::DIRECTIVE_START;
use crate::syntax::NameEnd;
use crate::syntax::RawDirective;
use crate::syntax::PARAMETER_SEPARATOR;
use crate::syntax::SPECIAL_ESCAPE;
use crate::syntax::SyntaxFault;
use crate::syntax::directive_at;
use crate::syntax::is_literal;
use crate::syntax::is_special;
use crate::syntax::scan_name;
use crate::templator::Bindings;
use crate::templator::arguments_render;
use crate::templator::directive_renders;
use crate::templator::is_directive;
use crate::templator::renders;
use crate::templator::resolves;
use crate::templator::walk;
use crate::text::same_ignoring_case;
use crate::text::trimmed;
use crate::trusted::NodeView;
use crate::trusted::is_uuid_v4;
use vstd::pervasive::trigger;
use vstd::prelude::*;

verus! {

/// Whether `c` is one of the five structural characters.
pub open spec fn is_structural(c: char) -> bool {
    ||| c == DIRECTIVE_START
    ||| c == DIRECTIVE_END
    ||| c == DIRECTIVE_PARAMETER_SEPARATOR
    ||| c == PARAMETER_SEPARATOR
    ||| c == SPECIAL_ESCAPE
}

proof fn lemma_walk_literal<F: Fn(&str, &str) -> String>(
    b: Bindings,
    floats: F,
    s: Seq<char>,
    i: int,
    to: int,
    acc: Seq<char>,
    out: Result<Seq<char>, Failure>,
)
    requires
        0 <= i <= to <= s.len(),
        is_literal(s, i, to),
    ensures
        walk(b, floats, s, i, acc, out) == walk(b, floats, s, to, acc + s.subrange(i, to), out),
    decreases to - i,
{
    if i < to {
        assert(!is_special(s[i]));
        lemma_walk_literal(b, floats, s, i + 1, to, acc.push(s[i]), out);
        assert(acc.push(s[i]) + s.subrange(i + 1, to) == acc + s.subrange(i, to));
    } else {
        assert(acc + s.subrange(i, to) == acc);
    }
}

/// Literal identity. A template without braces and backslashes renders to
/// itself and to nothing else, whatever is bound.
pub proof fn law_literal_identity<F: Fn(&str, &str) -> String>(
    b: Bindings,
    floats: F,
    s: Seq<char>,
    out: Result<Seq<char>, Failure>,
)
    requires
        is_literal(s, 0, s.len() as int),
    ensures
        renders(b, floats, s, out) <==> out == Ok::<Seq<char>, Failure>(s),
{
    lemma_walk_literal(b, floats, s, 0, s.len() as int, Seq::empty(), out);
    assert(Seq::<char>::empty() + s.subrange(0, s.len() as int) == s);
}

/// Escaping. A backslash and one character behind it render to that
/// character, whichever it is.
pub proof fn law_escape<F: Fn(&str, &str) -> String>(
    b: Bindings,
    floats: F,
    c: char,
    out: Result<Seq<char>, Failure>,
)
    ensures
        renders(b, floats, seq![SPECIAL_ESCAPE, c], out) <==> out == Ok::<Seq<char>, Failure>(
            seq![c],
        ),
{
    reveal_with_fuel(walk, 3);
    let s = seq![SPECIAL_ESCAPE, c];
    assert(s[0] == SPECIAL_ESCAPE && s[1] == c);
    assert(Seq::<char>::empty().push(c) == seq![c]);
}

/// Unmatched end. A template whose first special character is a closing
/// brace fails with `UnmatchedEnd`, whatever follows.
pub proof fn law_unmatched_end<F: Fn(&str, &str) -> String>(
    b: Bindings,
    floats: F,
    s: Seq<char>,
    at: int,
    out: Result<Seq<char>, Failure>,
)
    requires
        0 <= at < s.len(),
        is_literal(s, 0, at),
        s[at] == DIRECTIVE_END,
    ensures
        renders(b, floats, s, out) <==> out == Err::<Seq<char>, Failure>(
            Failure::Syntax(SyntaxFault::UnmatchedEnd),
        ),
{
    lemma_walk_literal(b, floats, s, 0, at, Seq::empty(), out);
}

proof fn lemma_name_runs_out(s: Seq<char>, i: int, name: Seq<char>)
    requires
        0 <= i <= s.len(),
        forall|j: int| i <= j < s.len() ==> !is_structural(#[trigger] s[j]),
    ensures
        scan_name(s, i, name) == NameEnd::Fault(SyntaxFault::UnmatchedStart),
    decreases s.len() - i,
{
    if i < s.len() {
        assert(!is_structural(s[i]));
        lemma_name_runs_out(s, i + 1, name.push(s[i]));
    }
}

/// Unmatched start. A template whose first special character is an opening
/// brace with no structural character behind it fails with
/// `UnmatchedStart`.
pub proof fn law_unmatched_start<F: Fn(&str, &str) -> String>(
    b: Bindings,
    floats: F,
    s: Seq<char>,
    at: int,
    out: Result<Seq<char>, Failure>,
)
    requires
        0 <= at < s.len(),
        is_literal(s, 0, at),
        s[at] == DIRECTIVE_START,
        forall|j: int| at < j < s.len() ==> !is_structural(#[trigger] s[j]),
    ensures
        renders(b, floats, s, out) <==> out == Err::<Seq<char>, Failure>(
            Failure::Syntax(SyntaxFault::UnmatchedStart),
        ),
{
    lemma_walk_literal(b, floats, s, 0, at, Seq::empty(), out);
    lemma_name_runs_out(s, at + 1, Seq::empty());
    assert(directive_at(s, at + 1) == Err::<RawDirective, SyntaxFault>(
        SyntaxFault::UnmatchedStart,
    ));
}

/// Unknown directive. A name without a resolver comes to
/// `UnknownDirective` with that name, whatever its parameters.
pub proof fn law_unknown_directive<F: Fn(&str, &str) -> String>(
    b: Bindings,
    floats: F,
    name: Seq<char>,
    args: Seq<Seq<char>>,
    r: Result<Seq<char>, Failure>,
)
    requires
        !is_directive(name),
    ensures
        resolves(b, floats, name, args, r) <==> r == Err::<Seq<char>, Failure>(
            Failure::UnknownDirective(name),
        ),
{
}

/// The names of the directives, of the kinds of `random` and of the fields
/// of `response` and `file` are what they are written as.
proof fn lemma_words()
    ensures
        "config"@ == seq!['c', 'o', 'n', 'f', 'i', 'g'],
        "uploader"@ == seq!['u', 'p', 'l', 'o', 'a', 'd', 'e', 'r'],
        "env"@ == seq!['e', 'n', 'v'],
        "random"@ == seq!['r', 'a', 'n', 'd', 'o', 'm'],
        "response"@ == seq!['r', 'e', 's', 'p', 'o', 'n', 's', 'e'],
        "json"@ == seq!['j', 's', 'o', 'n'],
        "xml"@ == seq!['x', 'm', 'l'],
        "regex"@ == seq!['r', 'e', 'g', 'e', 'x'],
        "file"@ == seq!['f', 'i', 'l', 'e'],
        "int"@ == seq!['i', 'n', 't'],
        "float"@ == seq!['f', 'l', 'o', 'a', 't'],
        "choice"@ == seq!['c', 'h', 'o', 'i', 'c', 'e'],
        "uuid"@ == seq!['u', 'u', 'i', 'd'],
        "string"@ == seq!['s', 't', 'r', 'i', 'n', 'g'],
{
    reveal_strlit("config");
    reveal_strlit("uploader");
    reveal_strlit("env");
    reveal_strlit("random");
    reveal_strlit("response");
    reveal_strlit("json");
    reveal_strlit("xml");
    reveal_strlit("regex");
    reveal_strlit("file");
    reveal_strlit("int");
    reveal_strlit("float");
    reveal_strlit("choice");
    reveal_strlit("uuid");
    reveal_strlit("string");
    assert("config"@ =~= seq!['c', 'o', 'n', 'f', 'i', 'g']);
    assert("uploader"@ =~= seq!['u', 'p', 'l', 'o', 'a', 'd', 'e', 'r']);
    assert("env"@ =~= seq!['e', 'n', 'v']);
    assert("random"@ =~= seq!['r', 'a', 'n', 'd', 'o', 'm']);
    assert("response"@ =~= seq!['r', 'e', 's', 'p', 'o', 'n', 's', 'e']);
    assert("json"@ =~= seq!['j', 's', 'o', 'n']);
    assert("xml"@ =~= seq!['x', 'm', 'l']);
    assert("regex"@ =~= seq!['r', 'e', 'g', 'e', 'x']);
    assert("file"@ =~= seq!['f', 'i', 'l', 'e']);
    assert("int"@ =~= seq!['i', 'n', 't']);
    assert("float"@ =~= seq!['f', 'l', 'o', 'a', 't']);
    assert("choice"@ =~= seq!['c', 'h', 'o', 'i', 'c', 'e']);
    assert("uuid"@ =~= seq!['u', 'u', 'i', 'd']);
    assert("string"@ =~= seq!['s', 't', 'r', 'i', 'n', 'g']);
}

/// Whether `name` is one of the directives that read the response.
pub open spec fn reads_response(name: Seq<char>) -> bool {
    name == "response"@ || name == "json"@ || name == "xml"@ || name == "regex"@
}

/// Missing binding, for the response. While no response is bound, each of
/// `response`, `json`, `xml` and `regex` fails with `MissingBinding`,
/// whatever its parameters: it never comes to a text.
pub proof fn law_response_unbound<F: Fn(&str, &str) -> String>(
    b: Bindings,
    floats: F,
    name: Seq<char>,
    args: Seq<Seq<char>>,
    r: Result<Seq<char>, Failure>,
)
    requires
        b.response is None,
        reads_response(name),
    ensures
        resolves(b, floats, name, args, r) <==> r == Err::<Seq<char>, Failure>(
            Failure::Resolver { directive: name, fault: ResolverFault::MissingBinding },
        ),
{
    lemma_words();
    assert(name.len() > 0);
    assert(name[0] == 'r' || name[0] == 'j' || name[0] == 'x');
    assert(name[0] == 'r' ==> name[2] == 's' || name[2] == 'g');
    assert(is_directive(name));
    assert(response_value(b.response, args) == Err::<Seq<char>, ResolverFault>(
        ResolverFault::MissingBinding,
    ));
    assert(shorthand_value(b.response, name, args) == Err::<Seq<char>, ResolverFault>(
        ResolverFault::MissingBinding,
    ));
}

/// Missing binding, for the file. While no file is bound, `file` fails
/// with `MissingBinding`, whatever its parameters.
pub proof fn law_file_unbound<F: Fn(&str, &str) -> String>(
    b: Bindings,
    floats: F,
    args: Seq<Seq<char>>,
    r: Result<Seq<char>, Failure>,
)
    requires
        b.file is None,
    ensures
        resolves(b, floats, "file"@, args, r) <==> r == Err::<Seq<char>, Failure>(
            Failure::Resolver { directive: "file"@, fault: ResolverFault::MissingBinding },
        ),
{
    lemma_words();
    let name = "file"@;
    assert(name[0] == 'f');
    assert(is_directive(name));
    assert(file_value(b.file, args) == Err::<Seq<char>, ResolverFault>(
        ResolverFault::MissingBinding,
    ));
}

/// Choice. `random:choice` with at least one choice comes to one of its
/// choices, and never fails.
pub proof fn law_choice_is_member<F: Fn(&str, &str) -> String>(
    floats: F,
    args: Seq<Seq<char>>,
    o: Result<Seq<char>, ResolverFault>,
)
    requires
        args.len() >= 2,
        args[0] == "choice"@,
        random_admits(floats, args, o),
    ensures
        o matches Ok(text) && exists|k: int| 1 <= k < args.len() && text == #[trigger] args[k],
{
    lemma_words();
    assert(args[0][0] == 'c');
    let text = o->Ok_0;
    let choices = rest_of(args, 1);
    assert(choices.contains(text));
    let k = choose|k: int| 0 <= k < choices.len() && choices[k] == text;
    assert(args[k + 1] == text);
}

/// Range of `random:int`. The integer lies nearer to the minimum than the
/// span is wide; for a draw that is not negative and a maximum above the
/// minimum it lies in the range itself, the maximum left out.
pub proof fn law_ranged_integer(min: i64, max: i64, draw: i64)
    ensures
        ranged_integer(min, max, draw) matches Some(value) ==> {
            &&& if min < max {
                min - max < value - min < max - min
            } else {
                max - min < value - min < min - max
            }
            &&& draw >= 0 && min < max ==> min <= value < max
        },
{
    let span = max - min;
    if span != 0 {
        let size = if span < 0 {
            -span
        } else {
            span
        };
        let magnitude = if draw < 0 {
            -draw
        } else {
            draw as int
        };
        assert(0 <= magnitude % size < size) by (nonlinear_arith)
            requires
                size > 0,
                magnitude >= 0,
        ;
        assert(truncated_rem(draw as int, span) == if draw < 0 {
            -(magnitude % size)
        } else {
            magnitude % size
        });
    }
}

/// Identifier shape. `random:uuid` comes to 36 characters in the form
/// 8-4-4-4-12: lower-case hexadecimal digits, parted by hyphens.
pub proof fn law_uuid_shape<F: Fn(&str, &str) -> String>(
    floats: F,
    args: Seq<Seq<char>>,
    o: Result<Seq<char>, ResolverFault>,
)
    requires
        args.len() >= 1,
        args[0] == "uuid"@,
        random_admits(floats, args, o),
    ensures
        o matches Ok(text) && is_uuid_v4(text),
{
    lemma_words();
    assert(args[0][0] == 'u');
}

/// Header lookup ignores case. The first header whose name equals `name`
/// up to the case of its ASCII letters is the one that is found.
pub proof fn law_header_ignores_case(
    headers: Seq<(Seq<char>, Seq<char>)>,
    name: Seq<char>,
    at: int,
)
    requires
        0 <= at < headers.len(),
        same_ignoring_case(headers[at].0, name),
        forall|j: int| 0 <= j < at ==> !same_ignoring_case(#[trigger] headers[j].0, name),
    ensures
        header_value(headers, name) == Some(headers[at].1),
    decreases at,
{
    if at > 0 {
        let rest = headers.drop_first();
        assert(!same_ignoring_case(headers[0].0, name));
        assert forall|j: int| 0 <= j < at - 1 implies !same_ignoring_case(
            #[trigger] rest[j].0,
            name,
        ) by {
            assert(rest[j] == headers[j + 1]);
            assert(!same_ignoring_case(headers[j + 1].0, name));
        }
        law_header_ignores_case(rest, name, at - 1);
    }
}

/// Path ambiguity. A path that selects two nodes or more is never answered
/// with one of them: the query fails with `PathAmbiguous`.
pub proof fn law_ambiguous_path(nodes: Seq<NodeView>)
    requires
        nodes.len() >= 2,
    ensures
        single_scalar(Ok(nodes)) == Err::<Seq<char>, ResolverFault>(ResolverFault::PathAmbiguous),
{
}

/// The raw parameters `raws`, each one trimmed.
pub open spec fn trimmed_all(raws: Seq<Seq<char>>) -> Seq<Seq<char>> {
    raws.map_values(|raw: Seq<char>| trimmed(raw))
}

/// Whether each of `raws` is free of braces and backslashes once trimmed.
pub open spec fn are_literal(raws: Seq<Seq<char>>) -> bool {
    forall|k: int|
        0 <= k < raws.len() ==> is_literal(
            trimmed(#[trigger] raws[k]),
            0,
            trimmed(raws[k]).len() as int,
        )
}

/// Literal parameters. Parameters without braces and backslashes come to
/// themselves, trimmed, and to nothing else.
pub proof fn law_literal_arguments<F: Fn(&str, &str) -> String>(
    b: Bindings,
    floats: F,
    raws: Seq<Seq<char>>,
    r: Result<Seq<Seq<char>>, Failure>,
)
    requires
        are_literal(raws),
    ensures
        arguments_render(b, floats, raws, r) <==> r == Ok::<Seq<Seq<char>>, Failure>(
            trimmed_all(raws),
        ),
{
    assert forall|k: int, out: Result<Seq<char>, Failure>| 0 <= k < raws.len() implies (
    #[trigger] renders(b, floats, trimmed(raws[k]), out) <==> out == Ok::<Seq<char>, Failure>(
        trimmed(raws[k]),
    )) by {
        law_literal_identity(b, floats, trimmed(raws[k]), out);
    }
    match r {
        Ok(args) => {
            if arguments_render(b, floats, raws, r) {
                assert forall|k: int| 0 <= k < raws.len() implies args[k] == trimmed_all(
                    raws,
                )[k] by {
                    assert(renders(b, floats, trimmed(raws[k]), Ok(args[k])));
                }
                assert(args =~= trimmed_all(raws));
            }
            if args == trimmed_all(raws) {
                assert forall|k: int| 0 <= k < raws.len() implies renders(
                    b,
                    floats,
                    trimmed(#[trigger] raws[k]),
                    Ok(args[k]),
                ) by {}
            }
        },
        Err(failure) => {
            if arguments_render(b, floats, raws, r) {
                let done = choose|done: Seq<Seq<char>>|
                    done.len() < raws.len() && renders(
                        b,
                        floats,
                        trimmed(raws[done.len() as int]),
                        Err(failure),
                    );
                assert(renders(b, floats, trimmed(raws[done.len() as int]), Err(failure)));
            }
        },
    }
}

/// What a directive with a name comes to, taken apart: its parameters come
/// to some `a`, and on their texts the resolver comes to `r`.
proof fn lemma_directive_parts<F: Fn(&str, &str) -> String>(
    b: Bindings,
    floats: F,
    name: Seq<char>,
    raws: Seq<Seq<char>>,
    r: Result<Seq<char>, Failure>,
) -> (a: Result<Seq<Seq<char>>, Failure>)
    requires
        trimmed(name).len() > 0,
        directive_renders(b, floats, name, raws, r),
    ensures
        arguments_render(b, floats, raws, a),
        match a {
            Err(failure) => r == Err::<Seq<char>, Failure>(failure),
            Ok(args) => resolves(b, floats, trimmed(name), args, r),
        },
{
    choose|a: Result<Seq<Seq<char>>, Failure>| #[trigger]
        trigger(a) && arguments_render(b, floats, raws, a) && match a {
            Err(failure) => r == Err::<Seq<char>, Failure>(failure),
            Ok(args) => resolves(b, floats, trimmed(name), args, r),
        }
}

/// Unknown directive, in a template. A directive whose name has no
/// resolver never comes to a text; with literal parameters it comes to
/// `UnknownDirective` under its trimmed name.
pub proof fn law_unknown_directive_in_template<F: Fn(&str, &str) -> String>(
    b: Bindings,
    floats: F,
    name: Seq<char>,
    raws: Seq<Seq<char>>,
    r: Result<Seq<char>, Failure>,
)
    requires
        trimmed(name).len() > 0,
        !is_directive(trimmed(name)),
        directive_renders(b, floats, name, raws, r),
    ensures
        r is Err,
        are_literal(raws) ==> r == Err::<Seq<char>, Failure>(
            Failure::UnknownDirective(trimmed(name)),
        ),
{
    let a = lemma_directive_parts(b, floats, name, raws, r);
    if are_literal(raws) {
        law_literal_arguments(b, floats, raws, a);
    }
}

/// Missing binding, in a template. While no response is bound, a
/// directive that reads the response never comes to a text; with literal
/// parameters it fails with `MissingBinding`. The same holds of `file`
/// while no file is bound.
pub proof fn law_unbound_in_template<F: Fn(&str, &str) -> String>(
    b: Bindings,
    floats: F,
    name: Seq<char>,
    raws: Seq<Seq<char>>,
    r: Result<Seq<char>, Failure>,
)
    requires
        (b.response is None && reads_response(trimmed(name))) || (b.file is None && trimmed(name)
            == "file"@),
        directive_renders(b, floats, name, raws, r),
    ensures
        r is Err,
        are_literal(raws) ==> r == Err::<Seq<char>, Failure>(
            Failure::Resolver { directive: trimmed(name), fault: ResolverFault::MissingBinding },
        ),
{
    lemma_words();
    let word = trimmed(name);
    assert(word.len() > 0);
    let a = lemma_directive_parts(b, floats, name, raws, r);
    match a {
        Ok(args) => {
            if b.response is None && reads_response(word) {
                law_response_unbound(b, floats, word, args, r);
            } else {
                law_file_unbound(b, floats, args, r);
            }
        },
        Err(_) => {},
    }
    if are_literal(raws) {
        law_literal_arguments(b, floats, raws, a);
    }
}

/// Choice, in a template. `random` with the literal parameters `choice`
/// and one or more choices comes to one of the choices, trimmed, and never
/// fails.
pub proof fn law_choice_in_template<F: Fn(&str, &str) -> String>(
    b: Bindings,
    floats: F,
    name: Seq<char>,
    raws: Seq<Seq<char>>,
    r: Result<Seq<char>, Failure>,
)
    requires
        trimmed(name) == "random"@,
        raws.len() >= 2,
        trimmed(raws[0]) == "choice"@,
        are_literal(raws),
        directive_renders(b, floats, name, raws, r),
    ensures
        r matches Ok(text) && exists|k: int|
            1 <= k < raws.len() && text == trimmed(#[trigger] raws[k]),
{
    lemma_words();
    let word = trimmed(name);
    let args = trimmed_all(raws);
    assert(word[0] == 'r' && word[1] == 'a');
    assert(is_directive(word));
    let a = lemma_directive_parts(b, floats, name, raws, r);
    law_literal_arguments(b, floats, raws, a);
    assert(resolves(b, floats, word, args, r));
    assert(args[0] == trimmed(raws[0]));
    match r {
        Ok(text) => {
            law_choice_is_member(floats, args, Ok(text));
            let k = choose|k: int| 1 <= k < args.len() && text == #[trigger] args[k];
            assert(text == trimmed(raws[k]));
        },
        Err(Failure::Resolver { directive, fault }) => {
            law_choice_is_member(floats, args, Err(fault));
        },
        Err(_) => {},
    }
}

/// Identifier shape, in a template. `random` with the literal parameter
/// `uuid` comes to an identifier in canonical form, and never fails.
pub proof fn law_uuid_in_template<F: Fn(&str, &str) -> String>(
    b: Bindings,
    floats: F,
    name: Seq<char>,
    raws: Seq<Seq<char>>,
    r: Result<Seq<char>, Failure>,
)
    requires
        trimmed(name) == "random"@,
        raws.len() >= 1,
        trimmed(raws[0]) == "uuid"@,
        are_literal(raws),
        directive_renders(b, floats, name, raws, r),
    ensures
        r matches Ok(text) && is_uuid_v4(text),
{
    lemma_words();
    let word = trimmed(name);
    let args = trimmed_all(raws);
    assert(word[0] == 'r' && word[1] == 'a');
    assert(is_directive(word));
    let a = lemma_directive_parts(b, floats, name, raws, r);
    law_literal_arguments(b, floats, raws, a);
    assert(resolves(b, floats, word, args, r));
    assert(args[0] == trimmed(raws[0]));
    match r {
        Ok(text) => {
            law_uuid_shape(floats, args, Ok(text));
        },
        Err(Failure::Resolver { directive, fault }) => {
            law_uuid_shape(floats, args, Err(fault));
        },
        Err(_) => {},
    }
}

} // verus!
