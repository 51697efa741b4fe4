use uploadr::error::ResolverFault;
use uploadr::error::TemplateError;
use uploadr::syntax::SyntaxFault;
use uploadr::templator::Templator;

#[test]
fn syntax_faults_have_messages() {
    assert_eq!(SyntaxFault::UnmatchedEnd.message(), "Unmatched directive end.");
    assert_eq!(SyntaxFault::UnmatchedStart.message(), "Unmatched directive start.");
    assert_eq!(
        SyntaxFault::StartInName.message(),
        "Sub-directives in the directive name are not allowed."
    );
    assert_eq!(
        SyntaxFault::SeparatorInName.message(),
        "Parameter separators are not allowed in the directive name."
    );
    assert_eq!(SyntaxFault::EmptyName.message(), "Empty directive.");
}

#[test]
fn resolver_faults_have_messages() {
    let all = [
        ResolverFault::PathNotFound,
        ResolverFault::PathAmbiguous,
        ResolverFault::EnvVarMissing,
        ResolverFault::HeaderMissing,
        ResolverFault::NoRegexMatch,
        ResolverFault::InvalidRegex,
        ResolverFault::BodyParseError,
        ResolverFault::MissingBinding,
        ResolverFault::InvalidParameter,
    ];
    for (i, a) in all.iter().enumerate() {
        assert!(!a.message().is_empty());
        for b in &all[i + 1..] {
            assert_ne!(a.message(), b.message());
        }
    }
    assert_eq!(ResolverFault::HeaderMissing.message(), "Header not found.");
}

#[test]
fn errors_name_the_directive() {
    assert_eq!(
        TemplateError::SyntaxError(SyntaxFault::EmptyName).message(),
        "Empty directive."
    );
    assert_eq!(
        TemplateError::UnknownDirectiveError(String::from("nope")).message(),
        "Unknown directive: nope"
    );
    assert_eq!(
        TemplateError::ResolverError {
            directive: String::from("env"),
            fault: ResolverFault::EnvVarMissing
        }
        .message(),
        "env: Invalid environment variable."
    );
}

#[test]
fn a_failed_format_has_a_message() {
    let t = Templator::new(String::from("{}"), String::from("{}"), Vec::new());
    let floats = |_: &str, _: &str| String::new();
    assert_eq!(
        t.format("x {file:name}", &floats).unwrap_err().message(),
        "file: Used before it is available."
    );
    assert_eq!(t.format("x {y", &floats).unwrap_err().message(), "Unmatched directive start.");
}
