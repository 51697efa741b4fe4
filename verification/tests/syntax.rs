use uploadr::syntax::scan_directive;
use uploadr::syntax::Directive;
use uploadr::syntax::SyntaxFault;

fn chars(text: &str) -> Vec<char> {
    text.chars().collect()
}

fn scan(template: &str) -> Result<(String, Vec<String>, usize), SyntaxFault> {
    assert!(template.starts_with('{'));
    scan_directive(&chars(template), 1).map(|Directive { name, params, next }| {
        (
            name.into_iter().collect(),
            params.into_iter().map(|p| p.into_iter().collect()).collect(),
            next,
        )
    })
}

fn found(name: &str, params: &[&str], next: usize) -> Result<(String, Vec<String>, usize), SyntaxFault> {
    Ok((name.to_string(), params.iter().map(|p| p.to_string()).collect(), next))
}

#[test]
fn bare_directive_has_no_parameters() {
    assert_eq!(scan("{name}"), found("name", &[], 6));
    assert_eq!(scan("{name} and more"), found("name", &[], 6));
    assert_eq!(scan("{}"), found("", &[], 2));
}

#[test]
fn colon_opens_the_first_parameter() {
    assert_eq!(scan("{a:}"), found("a", &[""], 4));
    assert_eq!(scan("{a:b}"), found("a", &["b"], 5));
    assert_eq!(scan("{a:b;c;d}x"), found("a", &["b", "c", "d"], 9));
    assert_eq!(scan("{a:;;}"), found("a", &["", "", ""], 6));
}

#[test]
fn colon_between_parameters_parts_them() {
    assert_eq!(scan("{a:b:c}"), found("a", &["b", "c"], 7));
    assert_eq!(scan("{a:$.x[0:2]}"), found("a", &["$.x[0", "2]"], 12));
}

#[test]
fn name_and_parameters_are_not_trimmed_here() {
    assert_eq!(scan("{ a : b ; c }"), found(" a ", &[" b ", " c "], 13));
}

#[test]
fn nested_braces_keep_their_separators() {
    assert_eq!(scan("{a:{b:c;d};e}"), found("a", &["{b:c;d}", "e"], 13));
    assert_eq!(scan("{a:{b:{c:d}}}"), found("a", &["{b:{c:d}}"], 13));
    assert_eq!(scan("{a:x{b}y{c}z}"), found("a", &["x{b}y{c}z"], 13));
}

#[test]
fn escape_in_a_name_drops_the_backslash() {
    assert_eq!(scan("{a\\:b}"), found("a:b", &[], 6));
    assert_eq!(scan("{a\\}b}"), found("a}b", &[], 6));
    assert_eq!(scan("{\\{\\;\\\\}"), found("{;\\", &[], 8));
}

#[test]
fn escape_in_a_parameter_is_kept_as_written() {
    assert_eq!(scan("{a:b\\;c}"), found("a", &["b\\;c"], 8));
    assert_eq!(scan("{a:\\{}"), found("a", &["\\{"], 6));
    assert_eq!(scan("{a:\\}}"), found("a", &["\\}"], 6));
    assert_eq!(scan("{a:{b:\\}}}"), found("a", &["{b:\\}}"], 10));
    assert_eq!(scan("{a:\\\\}"), found("a", &["\\\\"], 6));
}

#[test]
fn template_that_ends_in_a_directive_is_unmatched() {
    for template in ["{", "{a", "{a:", "{a:b", "{a:b;", "{a:{b}", "{a\\", "{a:b\\", "{a:\\}"] {
        assert_eq!(scan(template), Err(SyntaxFault::UnmatchedStart), "{template}");
    }
}

#[test]
fn brace_or_semicolon_in_a_name_is_refused() {
    assert_eq!(scan("{a{b}}"), Err(SyntaxFault::StartInName));
    assert_eq!(scan("{{a}}"), Err(SyntaxFault::StartInName));
    assert_eq!(scan("{a;b}"), Err(SyntaxFault::SeparatorInName));
    assert_eq!(scan("{;}"), Err(SyntaxFault::SeparatorInName));
}

#[test]
fn scanning_starts_where_it_is_told() {
    let template = chars("xx{a:b}yy{c}");
    let first = scan_directive(&template, 3).unwrap();
    assert_eq!(first.name, chars("a"));
    assert_eq!(first.next, 7);
    let second = scan_directive(&template, 10).unwrap();
    assert_eq!(second.name, chars("c"));
    assert!(second.params.is_empty());
    assert_eq!(second.next, 12);
    assert_eq!(scan_directive(&template, 12).err(), Some(SyntaxFault::UnmatchedStart));
    assert_eq!(scan_directive(&template, 100).err(), Some(SyntaxFault::UnmatchedStart));
    assert_eq!(scan_directive(&Vec::new(), 0).err(), Some(SyntaxFault::UnmatchedStart));
}
