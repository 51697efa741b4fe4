//! The lexical layer of the template language.
//!
//! A template is literal text with directives in it:
//!
//! ```text
//! template  := (literal | directive)*
//! directive := '{' name (':' param ((':' | ';') param)*)? '}'
//! ```
//!
//! Five characters are structural: `{`, `}`, `:`, `;` and `\`. A backslash
//! takes the structural meaning from the character that follows it. Inside
//! a name the backslash is dropped and the character kept. A parameter is
//! captured as raw text, both characters kept: it is a template of its own
//! and is read again when the directive is resolved, and only then does the
//! escape give the bare character. Braces nest inside a parameter, and a
//! separator within nested braces belongs to the parameter.
//!
//! This module reads one directive at a time. It does not look into
//! parameters and does not trim anything.

use vstd::prelude::*;

verus! {

/// Opens a directive.
pub const DIRECTIVE_START: char = '{';

/// Closes a directive.
pub const DIRECTIVE_END: char = '}';

/// Parts the name of a directive from its first parameter.
pub const DIRECTIVE_PARAMETER_SEPARATOR: char = ':';

/// Parts one parameter from the next.
pub const PARAMETER_SEPARATOR: char = ';';

/// Takes the structural meaning from the character after it.
pub const SPECIAL_ESCAPE: char = '\\';

/// Whether `c` has a meaning outside a directive: a brace or a backslash.
pub open spec fn is_special(c: char) -> bool {
    c == DIRECTIVE_START || c == DIRECTIVE_END || c == SPECIAL_ESCAPE
}

/// Whether no character of `s` from position `from` up to `to` is special.
pub open spec fn is_literal(s: Seq<char>, from: int, to: int) -> bool {
    forall|j: int| from <= j < to ==> !is_special(#[trigger] s[j])
}

/// The ways in which a template can be malformed.
#[derive(Clone, Copy, Debug, PartialEq, Eq, Structural)]
pub enum SyntaxFault {
    /// A `}` outside any directive.
    UnmatchedEnd,
    /// The template ends inside a directive.
    UnmatchedStart,
    /// A `{` inside the name of a directive.
    StartInName,
    /// A `;` inside the name of a directive.
    SeparatorInName,
    /// A directive whose name is empty once trimmed.
    EmptyName,
}

/// A directive as it stands in a template: its name, its raw parameters,
/// and the position just behind its closing brace.
pub struct RawDirective {
    pub name: Seq<char>,
    pub params: Seq<Seq<char>>,
    pub next: int,
}

/// How the name of a directive ends.
pub enum NameEnd {
    /// The name is malformed or the template ends in it.
    Fault(SyntaxFault),
    /// A `}` closes the directive at once: it has no parameters.
    Bare { name: Seq<char>, next: int },
    /// A `:` opens the parameter list at `next`.
    Parameters { name: Seq<char>, next: int },
}

/// Reads the name of a directive from position `i` on, `name` being what
/// was read of it before `i`.
pub open spec fn scan_name(s: Seq<char>, i: int, name: Seq<char>) -> NameEnd
    decreases s.len() - i,
{
    if i < 0 || i >= s.len() {
        NameEnd::Fault(SyntaxFault::UnmatchedStart)
    } else if s[i] == SPECIAL_ESCAPE {
        if i + 1 < s.len() {
            scan_name(s, i + 2, name.push(s[i + 1]))
        } else {
            NameEnd::Fault(SyntaxFault::UnmatchedStart)
        }
    } else if s[i] == DIRECTIVE_START {
        NameEnd::Fault(SyntaxFault::StartInName)
    } else if s[i] == PARAMETER_SEPARATOR {
        NameEnd::Fault(SyntaxFault::SeparatorInName)
    } else if s[i] == DIRECTIVE_END {
        NameEnd::Bare { name, next: i + 1 }
    } else if s[i] == DIRECTIVE_PARAMETER_SEPARATOR {
        NameEnd::Parameters { name, next: i + 1 }
    } else {
        scan_name(s, i + 1, name.push(s[i]))
    }
}

/// Reads the parameter list of a directive from position `i` on: `done`
/// are the parameters completed before `i`, `current` is what was read of
/// the one in progress, `depth` the number of braces open within it.
/// Gives the parameters and the position behind the closing brace.
pub open spec fn scan_params(
    s: Seq<char>,
    i: int,
    depth: nat,
    done: Seq<Seq<char>>,
    current: Seq<char>,
) -> Result<(Seq<Seq<char>>, int), SyntaxFault>
    decreases s.len() - i,
{
    if i < 0 || i >= s.len() {
        Err(SyntaxFault::UnmatchedStart)
    } else if s[i] == SPECIAL_ESCAPE {
        if i + 1 < s.len() {
            scan_params(s, i + 2, depth, done, current.push(s[i]).push(s[i + 1]))
        } else {
            Err(SyntaxFault::UnmatchedStart)
        }
    } else if s[i] == DIRECTIVE_START {
        scan_params(s, i + 1, depth + 1, done, current.push(s[i]))
    } else if s[i] == DIRECTIVE_END {
        if depth > 0 {
            scan_params(s, i + 1, (depth - 1) as nat, done, current.push(s[i]))
        } else {
            Ok((done.push(current), i + 1))
        }
    } else if (s[i] == DIRECTIVE_PARAMETER_SEPARATOR || s[i] == PARAMETER_SEPARATOR) && depth == 0 {
        scan_params(s, i + 1, 0, done.push(current), Seq::empty())
    } else {
        scan_params(s, i + 1, depth, done, current.push(s[i]))
    }
}

/// The directive whose opening brace stands just before `start`.
pub open spec fn directive_at(s: Seq<char>, start: int) -> Result<RawDirective, SyntaxFault> {
    match scan_name(s, start, Seq::empty()) {
        NameEnd::Fault(fault) => Err(fault),
        NameEnd::Bare { name, next } => Ok(RawDirective { name, params: Seq::empty(), next }),
        NameEnd::Parameters { name, next } => match scan_params(
            s,
            next,
            0,
            Seq::empty(),
            Seq::empty(),
        ) {
            Err(fault) => Err(fault),
            Ok((params, next)) => Ok(RawDirective { name, params, next }),
        },
    }
}

/// The room that a parameter list takes: the characters of all parameters
/// and one more for each.
pub open spec fn weight(params: Seq<Seq<char>>) -> nat
    decreases params.len(),
{
    if params.len() == 0 {
        0
    } else {
        weight(params.drop_last()) + params.last().len() + 1
    }
}

/// Each parameter is shorter than the weight of its list.
pub proof fn lemma_weight_bounds(params: Seq<Seq<char>>)
    ensures
        forall|k: int| 0 <= k < params.len() ==> (#[trigger] params[k]).len() < weight(params),
    decreases params.len(),
{
    if params.len() > 0 {
        lemma_weight_bounds(params.drop_last());
        assert forall|k: int| 0 <= k < params.len() implies (#[trigger] params[k]).len() < weight(
            params,
        ) by {
            if k < params.len() - 1 {
                assert(params.drop_last()[k] == params[k]);
            }
        }
    }
}

proof fn lemma_name_advances(s: Seq<char>, i: int, name: Seq<char>)
    requires
        0 <= i,
    ensures
        match scan_name(s, i, name) {
            NameEnd::Fault(_) => true,
            NameEnd::Bare { next, .. } => i < next <= s.len(),
            NameEnd::Parameters { next, .. } => i < next <= s.len(),
        },
    decreases s.len() - i,
{
    if i < s.len() {
        if s[i] == SPECIAL_ESCAPE {
            if i + 1 < s.len() {
                lemma_name_advances(s, i + 2, name.push(s[i + 1]));
            }
        } else if s[i] != DIRECTIVE_START && s[i] != PARAMETER_SEPARATOR && s[i] != DIRECTIVE_END
            && s[i] != DIRECTIVE_PARAMETER_SEPARATOR {
            lemma_name_advances(s, i + 1, name.push(s[i]));
        }
    }
}

proof fn lemma_params_room(
    s: Seq<char>,
    i: int,
    depth: nat,
    done: Seq<Seq<char>>,
    current: Seq<char>,
)
    requires
        0 <= i,
    ensures
        scan_params(s, i, depth, done, current) matches Ok((params, next)) ==> i < next <= s.len()
            && weight(params) == weight(done) + current.len() + (next - i),
    decreases s.len() - i,
{
    if i < s.len() {
        if s[i] == SPECIAL_ESCAPE {
            if i + 1 < s.len() {
                lemma_params_room(s, i + 2, depth, done, current.push(s[i]).push(s[i + 1]));
            }
        } else if s[i] == DIRECTIVE_START {
            lemma_params_room(s, i + 1, depth + 1, done, current.push(s[i]));
        } else if s[i] == DIRECTIVE_END {
            if depth > 0 {
                lemma_params_room(s, i + 1, (depth - 1) as nat, done, current.push(s[i]));
            } else {
                assert(done.push(current).drop_last() == done);
            }
        } else if (s[i] == DIRECTIVE_PARAMETER_SEPARATOR || s[i] == PARAMETER_SEPARATOR) && depth
            == 0 {
            assert(done.push(current).drop_last() == done);
            lemma_params_room(s, i + 1, 0, done.push(current), Seq::empty());
        } else {
            lemma_params_room(s, i + 1, depth, done, current.push(s[i]));
        }
    }
}

/// A directive ends behind where it starts and within the template, and
/// its parameter list weighs less than the template is long.
pub proof fn lemma_directive_room(s: Seq<char>, start: int)
    requires
        1 <= start,
    ensures
        directive_at(s, start) matches Ok(raw) ==> start < raw.next <= s.len() && weight(
            raw.params,
        ) < s.len(),
{
    lemma_name_advances(s, start, Seq::empty());
    match scan_name(s, start, Seq::empty()) {
        NameEnd::Parameters { name, next } => {
            lemma_params_room(s, next, 0, Seq::empty(), Seq::empty());
        },
        _ => {},
    }
}

/// Whether `part` stands in `s` as it is, character by character.
pub open spec fn is_piece(s: Seq<char>, part: Seq<char>) -> bool {
    exists|from: int, to: int|
        0 <= from <= to <= s.len() && part == #[trigger] s.subrange(from, to)
}

proof fn lemma_params_are_pieces(
    s: Seq<char>,
    i: int,
    depth: nat,
    done: Seq<Seq<char>>,
    current: Seq<char>,
    begin: int,
)
    requires
        0 <= begin <= i <= s.len(),
        current == s.subrange(begin, i),
        forall|k: int| 0 <= k < done.len() ==> is_piece(s, #[trigger] done[k]),
    ensures
        scan_params(s, i, depth, done, current) matches Ok((params, _)) ==> forall|k: int|
            0 <= k < params.len() ==> is_piece(s, #[trigger] params[k]),
    decreases s.len() - i,
{
    if i < s.len() {
        if s[i] == SPECIAL_ESCAPE {
            if i + 1 < s.len() {
                assert(current.push(s[i]).push(s[i + 1]) == s.subrange(begin, i + 2));
                lemma_params_are_pieces(
                    s,
                    i + 2,
                    depth,
                    done,
                    current.push(s[i]).push(s[i + 1]),
                    begin,
                );
            }
        } else if s[i] == DIRECTIVE_END && depth == 0 {
            let params = done.push(current);
            assert forall|k: int| 0 <= k < params.len() implies is_piece(
                s,
                #[trigger] params[k],
            ) by {
                if k < done.len() {
                    assert(params[k] == done[k]);
                }
            }
        } else if (s[i] == DIRECTIVE_PARAMETER_SEPARATOR || s[i] == PARAMETER_SEPARATOR) && depth
            == 0 {
            let params = done.push(current);
            assert forall|k: int| 0 <= k < params.len() implies is_piece(
                s,
                #[trigger] params[k],
            ) by {
                if k < done.len() {
                    assert(params[k] == done[k]);
                }
            }
            assert(Seq::<char>::empty() == s.subrange(i + 1, i + 1));
            lemma_params_are_pieces(s, i + 1, 0, params, Seq::empty(), i + 1);
        } else {
            assert(current.push(s[i]) == s.subrange(begin, i + 1));
            let deeper = if s[i] == DIRECTIVE_START {
                depth + 1
            } else if s[i] == DIRECTIVE_END {
                (depth - 1) as nat
            } else {
                depth
            };
            lemma_params_are_pieces(s, i + 1, deeper, done, current.push(s[i]), begin);
        }
    }
}

/// Raw parameters. Each parameter of a directive stands in the template
/// as it was captured: nothing in it was resolved, dropped or unescaped.
pub proof fn law_parameters_are_raw(s: Seq<char>, start: int)
    requires
        0 <= start,
    ensures
        directive_at(s, start) matches Ok(raw) ==> forall|k: int|
            0 <= k < raw.params.len() ==> is_piece(s, #[trigger] raw.params[k]),
{
    lemma_name_advances(s, start, Seq::empty());
    match scan_name(s, start, Seq::empty()) {
        NameEnd::Parameters { name, next } => {
            assert(Seq::<char>::empty() == s.subrange(next, next));
            lemma_params_are_pieces(s, next, 0, Seq::empty(), Seq::empty(), next);
        },
        _ => {},
    }
}

/// The texts that a vector of character vectors holds.
pub open spec fn texts(items: Seq<Vec<char>>) -> Seq<Seq<char>> {
    items.map_values(|item: Vec<char>| item@)
}

/// A directive read from a template: its name as written, its raw
/// parameters as written, and the index just behind its closing brace.
pub struct Directive {
    pub name: Vec<char>,
    pub params: Vec<Vec<char>>,
    pub next: usize,
}

impl View for Directive {
    type V = RawDirective;

    open spec fn view(&self) -> RawDirective {
        RawDirective { name: self.name@, params: texts(self.params@), next: self.next as int }
    }
}

/// What `scan_directive` returns, seen as values of the specification.
pub open spec fn scan_view(r: Result<Directive, SyntaxFault>) -> Result<RawDirective, SyntaxFault> {
    match r {
        Ok(directive) => Ok(directive@),
        Err(fault) => Err(fault),
    }
}

/// Reads the directive whose opening brace stands just before `start`.
///
/// Fails with `UnmatchedStart` where the template ends before the
/// directive is closed, with `StartInName` or `SeparatorInName` where the
/// name holds an unescaped `{` or `;`.
pub fn scan_directive(template: &Vec<char>, start: usize) -> (r: Result<Directive, SyntaxFault>)
    ensures
        scan_view(r) == directive_at(template@, start as int),
{
    if start >= template.len() {
        return Err(SyntaxFault::UnmatchedStart);
    }
    let ghost s = template@;
    let mut name: Vec<char> = Vec::new();
    let mut i: usize = start;
    let mut has_params = false;
    loop
        invariant_except_break
            start <= i <= template.len(),
            s == template@,
            !has_params,
            scan_name(s, i as int, name@) == scan_name(s, start as int, Seq::empty()),
        ensures
            start <= i <= template.len(),
            has_params ==> scan_name(s, start as int, Seq::empty()) == (NameEnd::Parameters {
                name: name@,
                next: i as int,
            }),
            !has_params ==> scan_name(s, start as int, Seq::empty()) == (NameEnd::Bare {
                name: name@,
                next: i as int,
            }),
        decreases template.len() - i,
    {
        if i >= template.len() {
            return Err(SyntaxFault::UnmatchedStart);
        }
        let c = template[i];
        if c == SPECIAL_ESCAPE {
            if i + 1 < template.len() {
                name.push(template[i + 1]);
                i += 2;
            } else {
                return Err(SyntaxFault::UnmatchedStart);
            }
        } else if c == DIRECTIVE_START {
            return Err(SyntaxFault::StartInName);
        } else if c == PARAMETER_SEPARATOR {
            return Err(SyntaxFault::SeparatorInName);
        } else if c == DIRECTIVE_END {
            i += 1;
            break ;
        } else if c == DIRECTIVE_PARAMETER_SEPARATOR {
            i += 1;
            has_params = true;
            break ;
        } else {
            name.push(c);
            i += 1;
        }
    }
    if !has_params {
        let params: Vec<Vec<char>> = Vec::new();
        assert(texts(params@) == Seq::<Seq<char>>::empty());
        return Ok(Directive { name, params, next: i });
    }
    let ghost first = i as int;
    let mut done: Vec<Vec<char>> = Vec::new();
    let mut current: Vec<char> = Vec::new();
    let mut depth: usize = 0;
    assert(texts(done@) == Seq::<Seq<char>>::empty());
    loop
        invariant_except_break
            0 <= first <= i <= template.len(),
            s == template@,
            depth <= i - first,
            scan_params(s, i as int, depth as nat, texts(done@), current@) == scan_params(
                s,
                first,
                0,
                Seq::empty(),
                Seq::empty(),
            ),
        invariant
            scan_name(s, start as int, Seq::empty()) == (NameEnd::Parameters {
                name: name@,
                next: first,
            }),
        ensures
            i <= template.len(),
            scan_params(s, first, 0, Seq::empty(), Seq::empty()) == Ok::<
                (Seq<Seq<char>>, int),
                SyntaxFault,
            >((texts(done@), i as int)),
        decreases template.len() - i,
    {
        if i >= template.len() {
            return Err(SyntaxFault::UnmatchedStart);
        }
        let c = template[i];
        if c == SPECIAL_ESCAPE {
            if i + 1 < template.len() {
                current.push(c);
                current.push(template[i + 1]);
                i += 2;
            } else {
                return Err(SyntaxFault::UnmatchedStart);
            }
        } else if c == DIRECTIVE_START {
            current.push(c);
            depth += 1;
            i += 1;
        } else if c == DIRECTIVE_END {
            if depth > 0 {
                current.push(c);
                depth -= 1;
                i += 1;
            } else {
                let ghost before = texts(done@);
                done.push(current);
                assert(texts(done@) == before.push(current@));
                i += 1;
                break ;
            }
        } else if (c == DIRECTIVE_PARAMETER_SEPARATOR || c == PARAMETER_SEPARATOR) && depth == 0 {
            let ghost before = texts(done@);
            done.push(current);
            assert(texts(done@) == before.push(current@));
            current = Vec::new();
            i += 1;
        } else {
            current.push(c);
            i += 1;
        }
    }
    Ok(Directive { name, params: done, next: i })
}

} // verus!
