use uploadr::curlyfries::CurlyFry;
use uploadr::error::ResolverFault;
use uploadr::error::TemplateError;
use uploadr::file::File;
use uploadr::syntax::SyntaxFault;
use uploadr::templator::Templator;

fn no_floats(_low: &str, _high: &str) -> String {
    String::new()
}

fn plain() -> Templator<'static> {
    Templator::new(String::from("{}"), String::from("{}"), Vec::new())
}

fn with_config(config: &str) -> Templator<'static> {
    Templator::new(String::from(config), String::from("{}"), Vec::new())
}

fn with_env(config: &str, env: &[(&str, &str)]) -> Templator<'static> {
    let env = env.iter().map(|(k, v)| (k.to_string(), v.to_string())).collect();
    Templator::new(String::from(config), String::from("{}"), env)
}

fn answered(status: u32, headers: &[&str], body: &str) -> CurlyFry {
    let mut curlyfry = CurlyFry::new();
    let lines: Vec<String> = headers.iter().map(|line| line.to_string()).collect();
    curlyfry.receive(status, String::from("https://example.org/final"), &lines, String::from(body));
    curlyfry
}

fn syntax(fault: SyntaxFault) -> Result<String, TemplateError> {
    Err(TemplateError::SyntaxError(fault))
}

fn resolver(directive: &str, fault: ResolverFault) -> Result<String, TemplateError> {
    Err(TemplateError::ResolverError { directive: String::from(directive), fault })
}

#[test]
fn literal_text_is_returned_unchanged() {
    let t = plain();
    for text in ["", "hello", "a:b;c", "  spaced  ", "https://example.org/x?y=1&z=2", "héllo ✓"] {
        assert_eq!(t.format(text, &no_floats), Ok(String::from(text)));
    }
}

#[test]
fn escaped_braces_are_literal() {
    let t = plain();
    assert_eq!(t.format("\\{literal\\}", &no_floats), Ok(String::from("{literal}")));
}

#[test]
fn escaped_backslash_is_one_backslash() {
    let t = plain();
    assert_eq!(t.format("\\\\", &no_floats), Ok(String::from("\\")));
}

#[test]
fn escape_takes_any_character() {
    let t = plain();
    assert_eq!(t.format("a\\bc\\:d\\;", &no_floats), Ok(String::from("abc:d;")));
}

#[test]
fn lone_backslash_at_the_end_gives_nothing() {
    let t = plain();
    assert_eq!(t.format("abc\\", &no_floats), Ok(String::from("abc")));
}

#[test]
fn config_directive_reads_the_config_document() {
    let t = with_config("{\"defaultUploader\":\"imgur\"}");
    assert_eq!(t.format("{config:$.defaultUploader}", &no_floats), Ok(String::from("imgur")));
}

#[test]
fn uploader_directive_reads_the_uploader_document() {
    let t = Templator::new(
        String::from("{}"),
        String::from("{\"request\":{\"method\":\"POST\"}}"),
        Vec::new(),
    );
    assert_eq!(t.format("{uploader:$.request.method}", &no_floats), Ok(String::from("POST")));
}

#[test]
fn directive_is_spliced_into_the_literal_text() {
    let t = with_config("{\"defaultUploader\":\"imgur\"}");
    assert_eq!(
        t.format("use {config:$.defaultUploader} now", &no_floats),
        Ok(String::from("use imgur now"))
    );
}

#[test]
fn scalars_are_printed_without_quotes() {
    let t = with_config("{\"n\":5,\"f\":1.5,\"yes\":true,\"no\":false,\"nil\":null,\"s\":\"x y\"}");
    assert_eq!(t.format("{config:$.n}", &no_floats), Ok(String::from("5")));
    assert_eq!(t.format("{config:$.f}", &no_floats), Ok(String::from("1.5")));
    assert_eq!(t.format("{config:$.yes}", &no_floats), Ok(String::from("true")));
    assert_eq!(t.format("{config:$.no}", &no_floats), Ok(String::from("false")));
    assert_eq!(t.format("{config:$.nil}", &no_floats), Ok(String::from("null")));
    assert_eq!(t.format("{config:$.s}", &no_floats), Ok(String::from("x y")));
}

#[test]
fn inner_directive_resolves_first() {
    let t = with_env("{\"x\":\"FOO\"}", &[("FOO", "bar")]);
    assert_eq!(t.format("{env:{config:$.x}}", &no_floats), Ok(String::from("bar")));
}

#[test]
fn env_directive_reads_the_environment() {
    let t = with_env("{}", &[("A", "1"), ("B", "2"), ("A", "3")]);
    assert_eq!(t.format("{env:A}-{env:B}", &no_floats), Ok(String::from("1-2")));
}

#[test]
fn env_names_are_case_sensitive() {
    let t = with_env("{}", &[("FOO", "bar")]);
    assert_eq!(t.format("{env:foo}", &no_floats), resolver("env", ResolverFault::EnvVarMissing));
}

#[test]
fn missing_env_variable_fails() {
    let t = plain();
    assert_eq!(t.format("{env:NOPE}", &no_floats), resolver("env", ResolverFault::EnvVarMissing));
}

#[test]
fn unknown_directive_fails() {
    let t = plain();
    assert_eq!(
        t.format("{nope:1}", &no_floats),
        Err(TemplateError::UnknownDirectiveError(String::from("nope")))
    );
}

#[test]
fn unmatched_end_fails() {
    let t = plain();
    assert_eq!(t.format("abc}", &no_floats), syntax(SyntaxFault::UnmatchedEnd));
}

#[test]
fn unmatched_start_fails() {
    let t = plain();
    assert_eq!(t.format("{abc", &no_floats), syntax(SyntaxFault::UnmatchedStart));
    assert_eq!(t.format("{env:A", &no_floats), syntax(SyntaxFault::UnmatchedStart));
    assert_eq!(t.format("{env:{config:$.x}", &no_floats), syntax(SyntaxFault::UnmatchedStart));
    assert_eq!(t.format("{env\\", &no_floats), syntax(SyntaxFault::UnmatchedStart));
}

#[test]
fn brace_in_a_name_fails() {
    let t = plain();
    assert_eq!(t.format("{a{b}}", &no_floats), syntax(SyntaxFault::StartInName));
}

#[test]
fn separator_in_a_name_fails() {
    let t = plain();
    assert_eq!(t.format("{a;b}", &no_floats), syntax(SyntaxFault::SeparatorInName));
}

#[test]
fn empty_name_fails() {
    let t = plain();
    assert_eq!(t.format("{}", &no_floats), syntax(SyntaxFault::EmptyName));
    assert_eq!(t.format("{  }", &no_floats), syntax(SyntaxFault::EmptyName));
    assert_eq!(t.format("{ :x}", &no_floats), syntax(SyntaxFault::EmptyName));
}

#[test]
fn names_and_parameters_are_trimmed() {
    let t = with_env("{}", &[("FOO", "bar")]);
    assert_eq!(t.format("{ env : FOO }", &no_floats), Ok(String::from("bar")));
    assert_eq!(t.format("{\tenv\n:\u{3000}FOO\u{a0}}", &no_floats), Ok(String::from("bar")));
}

#[test]
fn escaped_character_in_a_name_is_kept() {
    let t = with_env("{}", &[("FOO", "bar")]);
    assert_eq!(t.format("{en\\v:FOO}", &no_floats), Ok(String::from("bar")));
    assert_eq!(
        t.format("{a\\:b}", &no_floats),
        Err(TemplateError::UnknownDirectiveError(String::from("a:b")))
    );
}

#[test]
fn the_first_failure_wins() {
    let t = plain();
    assert_eq!(
        t.format("{nope}abc}", &no_floats),
        Err(TemplateError::UnknownDirectiveError(String::from("nope")))
    );
    assert_eq!(
        t.format("{nope:{env:MISSING}}", &no_floats),
        resolver("env", ResolverFault::EnvVarMissing)
    );
    assert_eq!(
        t.format("{nope:{env:MISSING};{}", &no_floats),
        syntax(SyntaxFault::UnmatchedStart)
    );
    assert_eq!(t.format("}{nope}", &no_floats), syntax(SyntaxFault::UnmatchedEnd));
}

#[test]
fn a_failure_leaves_no_partial_output() {
    let t = plain();
    assert!(t.format("a lot of text {env:MISSING}", &no_floats).is_err());
}

#[test]
fn missing_parameter_fails() {
    let mut t = plain();
    for name in ["config", "uploader", "env", "random"] {
        assert_eq!(
            t.format(&format!("{{{name}}}"), &no_floats),
            resolver(name, ResolverFault::InvalidParameter)
        );
    }
    t.set_file(File::new(b"hello", String::from("a.txt")));
    assert_eq!(t.format("{file}", &no_floats), resolver("file", ResolverFault::InvalidParameter));
    assert_eq!(
        t.format("{file:colour}", &no_floats),
        resolver("file", ResolverFault::InvalidParameter)
    );
}

#[test]
fn colon_parts_parameters_like_semicolon() {
    let t = plain();
    for _ in 0..20 {
        let out = t.format("{random:choice:a:b}", &no_floats).unwrap();
        assert!(out == "a" || out == "b");
    }
}

#[test]
fn choice_returns_one_of_the_choices() {
    let t = plain();
    let mut seen = [false; 3];
    for _ in 0..200 {
        let out = t.format("{random:choice;a;b;c}", &no_floats).unwrap();
        match out.as_str() {
            "a" => seen[0] = true,
            "b" => seen[1] = true,
            "c" => seen[2] = true,
            other => panic!("not a choice: {other}"),
        }
    }
    assert!(seen.iter().all(|&s| s));
}

#[test]
fn choice_without_choices_fails() {
    let t = plain();
    assert_eq!(
        t.format("{random:choice}", &no_floats),
        resolver("random", ResolverFault::InvalidParameter)
    );
}

#[test]
fn escaped_separator_stays_in_the_parameter() {
    let t = plain();
    assert_eq!(t.format("{random:choice;a\\;b}", &no_floats), Ok(String::from("a;b")));
    assert_eq!(t.format("{random:choice;\\{x\\}}", &no_floats), Ok(String::from("{x}")));
    assert_eq!(t.format("{random:choice;a\\:b}", &no_floats), Ok(String::from("a:b")));
}

#[test]
fn separators_inside_nested_braces_belong_to_the_parameter() {
    let t = plain();
    assert_eq!(
        t.format("{random:choice;{random:choice;x}}", &no_floats),
        Ok(String::from("x"))
    );
    for _ in 0..20 {
        let out = t.format("{random:choice;{random:choice;x;y}}", &no_floats).unwrap();
        assert!(out == "x" || out == "y");
    }
}

#[test]
fn uuid_has_the_canonical_shape() {
    let t = plain();
    let out = t.format("{random:uuid}", &no_floats).unwrap();
    let chars: Vec<char> = out.chars().collect();
    assert_eq!(chars.len(), 36);
    for (i, c) in chars.iter().enumerate() {
        if i == 8 || i == 13 || i == 18 || i == 23 {
            assert_eq!(*c, '-');
        } else {
            assert!(c.is_ascii_digit() || ('a'..='f').contains(c), "{out}");
        }
    }
    assert_eq!(chars[14], '4');
    assert_ne!(out, t.format("{random:uuid}", &no_floats).unwrap());
}

#[test]
fn random_int_of_a_span_of_one_is_the_minimum() {
    let t = plain();
    for _ in 0..20 {
        assert_eq!(t.format("{random:int;5;6}", &no_floats), Ok(String::from("5")));
        assert_eq!(t.format("{random:int;-3;-2}", &no_floats), Ok(String::from("-3")));
    }
}

#[test]
fn random_int_stays_within_the_span_of_the_minimum() {
    let t = plain();
    for _ in 0..200 {
        let n: i64 = t.format("{random:int;10;20}", &no_floats).unwrap().parse().unwrap();
        assert!(0 < n && n < 20, "{n}");
    }
}

#[test]
fn random_int_defaults_to_one_and_a_hundred() {
    let t = plain();
    for _ in 0..200 {
        let n: i64 = t.format("{random:int;x;y}", &no_floats).unwrap().parse().unwrap();
        assert!(-98 < n && n < 100, "{n}");
    }
}

#[test]
fn random_int_of_an_empty_span_fails() {
    let t = plain();
    assert_eq!(
        t.format("{random:int;3;3}", &no_floats),
        resolver("random", ResolverFault::InvalidParameter)
    );
    assert_eq!(
        t.format("{random:int;3}", &no_floats),
        resolver("random", ResolverFault::InvalidParameter)
    );
    assert_eq!(
        t.format("{random:int;-9223372036854775808;9223372036854775807}", &no_floats),
        resolver("random", ResolverFault::InvalidParameter)
    );
}

#[test]
fn random_float_is_answered_by_the_caller() {
    let t = plain();
    let floats = |low: &str, high: &str| format!("<{low}|{high}>");
    assert_eq!(t.format("{random:float;1.5;2.5}", &floats), Ok(String::from("<1.5|2.5>")));
    assert_eq!(t.format("{random:float; a ;b;c}", &floats), Ok(String::from("<a|b>")));
    assert_eq!(
        t.format("{random:float;1.5}", &floats),
        resolver("random", ResolverFault::InvalidParameter)
    );
}

#[test]
fn random_string_draws_from_the_alphabet() {
    let t = plain();
    let out = t.format("{random:string;8;ab}", &no_floats).unwrap();
    assert_eq!(out.chars().count(), 8);
    assert!(out.chars().all(|c| c == 'a' || c == 'b'));
    let out = t.format("{random:string;5;é✓}", &no_floats).unwrap();
    assert_eq!(out.chars().count(), 5);
    assert!(out.chars().all(|c| c == 'é' || c == '✓'));
}

#[test]
fn random_string_defaults_to_ten_letters_and_digits() {
    let t = plain();
    let out = t.format("{random:string;many}", &no_floats).unwrap();
    assert_eq!(out.len(), 10);
    assert!(out.chars().all(|c| c.is_ascii_alphanumeric()));
    let out = t.format("{random:string;3}", &no_floats).unwrap();
    assert_eq!(out.len(), 3);
}

#[test]
fn random_string_of_no_length_is_empty() {
    let t = plain();
    assert_eq!(t.format("{random:string;0}", &no_floats), Ok(String::new()));
    assert_eq!(t.format("{random:string;0;}", &no_floats), Ok(String::new()));
}

#[test]
fn random_string_from_an_empty_alphabet_fails() {
    let t = plain();
    assert_eq!(
        t.format("{random:string;3;}", &no_floats),
        resolver("random", ResolverFault::InvalidParameter)
    );
    assert_eq!(
        t.format("{random:string}", &no_floats),
        resolver("random", ResolverFault::InvalidParameter)
    );
}

#[test]
fn unknown_random_kind_fails() {
    let t = plain();
    assert_eq!(
        t.format("{random:dice}", &no_floats),
        resolver("random", ResolverFault::InvalidParameter)
    );
}

#[test]
fn response_and_file_fail_before_they_are_bound() {
    let t = plain();
    for template in [
        "{response:status_code}",
        "{response:url}",
        "{response:headers;x}",
        "{response:body;json;$.a}",
        "{response}",
        "{response:bogus}",
    ] {
        assert_eq!(
            t.format(template, &no_floats),
            resolver("response", ResolverFault::MissingBinding),
            "{template}"
        );
    }
    assert_eq!(t.format("{json:$.a}", &no_floats), resolver("json", ResolverFault::MissingBinding));
    assert_eq!(t.format("{xml:$.a}", &no_floats), resolver("xml", ResolverFault::MissingBinding));
    assert_eq!(t.format("{regex:;a}", &no_floats), resolver("regex", ResolverFault::MissingBinding));
    for template in ["{file:name}", "{file:ext}", "{file:mime}", "{file:size}", "{file}"] {
        assert_eq!(
            t.format(template, &no_floats),
            resolver("file", ResolverFault::MissingBinding),
            "{template}"
        );
    }
}

#[test]
fn an_upload_without_a_response_binds_none() {
    let curlyfry = CurlyFry::new();
    let mut t = plain();
    t.set_curlyfry(&curlyfry);
    assert_eq!(
        t.format("{response:url}", &no_floats),
        resolver("response", ResolverFault::MissingBinding)
    );
}

#[test]
fn file_directive_reads_the_file() {
    let mut t = plain();
    t.set_file(File::new(b"hello world", String::from("notes.md")));
    assert_eq!(t.format("{file:name}", &no_floats), Ok(String::from("notes.txt")));
    assert_eq!(t.format("{file:ext}", &no_floats), Ok(String::from("txt")));
    assert_eq!(t.format("{file:mime}", &no_floats), Ok(String::from("text/plain")));
    assert_eq!(t.format("{file:size}", &no_floats), Ok(String::from("11")));
}

#[test]
fn response_directive_reads_the_response() {
    let curlyfry = answered(201, &["Content-Type: text/html\r\n"], "<p>done</p>");
    let mut t = plain();
    t.set_curlyfry(&curlyfry);
    assert_eq!(t.format("{response:status_code}", &no_floats), Ok(String::from("201")));
    assert_eq!(
        t.format("{response:url}", &no_floats),
        Ok(String::from("https://example.org/final"))
    );
    assert_eq!(
        t.format("{response:colour}", &no_floats),
        resolver("response", ResolverFault::InvalidParameter)
    );
    assert_eq!(
        t.format("{response}", &no_floats),
        resolver("response", ResolverFault::InvalidParameter)
    );
}

#[test]
fn header_lookup_ignores_case() {
    let curlyfry = answered(200, &["Content-Type: text/html", "X-Id: 7"], "");
    let mut t = plain();
    t.set_curlyfry(&curlyfry);
    assert_eq!(
        t.format("{response:headers;content-type}", &no_floats),
        Ok(String::from("text/html"))
    );
    assert_eq!(
        t.format("{response:headers;CONTENT-TYPE}", &no_floats),
        Ok(String::from("text/html"))
    );
    assert_eq!(t.format("{response:headers;x-id}", &no_floats), Ok(String::from("7")));
}

#[test]
fn missing_header_fails() {
    let curlyfry = answered(200, &["Content-Type: text/html"], "");
    let mut t = plain();
    t.set_curlyfry(&curlyfry);
    assert_eq!(
        t.format("{response:headers;etag}", &no_floats),
        resolver("response", ResolverFault::HeaderMissing)
    );
    assert_eq!(
        t.format("{response:headers}", &no_floats),
        resolver("response", ResolverFault::InvalidParameter)
    );
}

#[test]
fn json_body_is_queried_by_path() {
    let curlyfry = answered(200, &[], "{\"data\":{\"link\":\"https://i.example/abc.png\",\"id\":42}}");
    let mut t = plain();
    t.set_curlyfry(&curlyfry);
    assert_eq!(
        t.format("{json:$.data.link}", &no_floats),
        Ok(String::from("https://i.example/abc.png"))
    );
    assert_eq!(t.format("{json:$.data.id}", &no_floats), Ok(String::from("42")));
    assert_eq!(
        t.format("{response:body;json;$.data.link}", &no_floats),
        Ok(String::from("https://i.example/abc.png"))
    );
}

#[test]
fn path_matching_two_nodes_is_ambiguous() {
    let t = with_config("{\"a\":[1,2],\"b\":{\"c\":1,\"d\":2}}");
    assert_eq!(
        t.format("{config:$.a[*]}", &no_floats),
        resolver("config", ResolverFault::PathAmbiguous)
    );
    assert_eq!(
        t.format("{config:$.b.*}", &no_floats),
        resolver("config", ResolverFault::PathAmbiguous)
    );
    assert_eq!(t.format("{config:$.a[0]}", &no_floats), Ok(String::from("1")));
}

#[test]
fn path_matching_nothing_is_not_found() {
    let t = with_config("{\"a\":[1,2]}");
    assert_eq!(
        t.format("{config:$.missing}", &no_floats),
        resolver("config", ResolverFault::PathNotFound)
    );
}

#[test]
fn path_matching_no_scalar_is_not_found() {
    let t = with_config("{\"a\":[1,2],\"b\":{\"c\":1}}");
    assert_eq!(t.format("{config:$.a}", &no_floats), resolver("config", ResolverFault::PathNotFound));
    assert_eq!(t.format("{config:$.b}", &no_floats), resolver("config", ResolverFault::PathNotFound));
}

#[test]
fn malformed_path_is_an_invalid_parameter() {
    let t = with_config("{\"a\":1}");
    assert_eq!(
        t.format("{config:a..b[}", &no_floats),
        resolver("config", ResolverFault::InvalidParameter)
    );
}

#[test]
fn malformed_body_fails_to_parse() {
    let curlyfry = answered(200, &[], "not json at all");
    let mut t = plain();
    t.set_curlyfry(&curlyfry);
    assert_eq!(t.format("{json:$.a}", &no_floats), resolver("json", ResolverFault::BodyParseError));
    assert_eq!(t.format("{xml:$.a}", &no_floats), resolver("xml", ResolverFault::BodyParseError));
    assert_eq!(
        t.format("{response:body;json;$.a}", &no_floats),
        resolver("response", ResolverFault::BodyParseError)
    );
}

#[test]
fn malformed_config_document_fails_to_parse() {
    let t = with_config("{oops");
    assert_eq!(
        t.format("{config:$.a}", &no_floats),
        resolver("config", ResolverFault::BodyParseError)
    );
}

#[test]
fn xml_body_is_queried_by_path() {
    let curlyfry = answered(200, &[], "<upload><link>https://x.example/1</link><id>7</id></upload>");
    let mut t = plain();
    t.set_curlyfry(&curlyfry);
    assert_eq!(
        t.format("{xml:$.link['$value']}", &no_floats),
        Ok(String::from("https://x.example/1"))
    );
    assert_eq!(
        t.format("{response:body;xml;$.id['$value']}", &no_floats),
        Ok(String::from("7"))
    );
}

#[test]
fn regex_returns_the_first_group_of_the_first_match() {
    let curlyfry = answered(200, &[], "id=42 id=43");
    let mut t = plain();
    t.set_curlyfry(&curlyfry);
    assert_eq!(t.format("{regex:;id=(\\\\d+)}", &no_floats), Ok(String::from("42")));
    assert_eq!(t.format("{regex:;id=([0-9]+)}", &no_floats), Ok(String::from("42")));
    assert_eq!(
        t.format("{response:body;regex;;id=([0-9]+)}", &no_floats),
        Ok(String::from("42"))
    );
}

#[test]
fn regex_flags_are_applied() {
    let curlyfry = answered(200, &[], "ID=42");
    let mut t = plain();
    t.set_curlyfry(&curlyfry);
    assert_eq!(t.format("{regex:i;id=([0-9]+)}", &no_floats), Ok(String::from("42")));
    assert_eq!(
        t.format("{regex:;id=([0-9]+)}", &no_floats),
        resolver("regex", ResolverFault::NoRegexMatch)
    );
    assert_eq!(
        t.format("{response:body;regex;i;id=([0-9]+)}", &no_floats),
        Ok(String::from("42"))
    );
}

#[test]
fn regex_without_a_match_fails() {
    let curlyfry = answered(200, &[], "nothing here");
    let mut t = plain();
    t.set_curlyfry(&curlyfry);
    assert_eq!(
        t.format("{regex:;id=([0-9]+)}", &no_floats),
        resolver("regex", ResolverFault::NoRegexMatch)
    );
    assert_eq!(
        t.format("{regex:;nothing}", &no_floats),
        resolver("regex", ResolverFault::NoRegexMatch)
    );
}

#[test]
fn regex_that_does_not_compile_fails() {
    let curlyfry = answered(200, &[], "abc");
    let mut t = plain();
    t.set_curlyfry(&curlyfry);
    assert_eq!(t.format("{regex:;(}", &no_floats), resolver("regex", ResolverFault::InvalidRegex));
    assert_eq!(
        t.format("{regex:Q;(a)}", &no_floats),
        resolver("regex", ResolverFault::InvalidRegex)
    );
}

#[test]
fn regex_needs_flags_and_pattern() {
    let curlyfry = answered(200, &[], "abc");
    let mut t = plain();
    t.set_curlyfry(&curlyfry);
    assert_eq!(t.format("{regex:(a)}", &no_floats), resolver("regex", ResolverFault::InvalidParameter));
    assert_eq!(
        t.format("{response:body;regex;(a)}", &no_floats),
        resolver("response", ResolverFault::InvalidParameter)
    );
    assert_eq!(
        t.format("{response:body;yaml;$.a}", &no_floats),
        resolver("response", ResolverFault::InvalidParameter)
    );
    assert_eq!(
        t.format("{response:body}", &no_floats),
        resolver("response", ResolverFault::InvalidParameter)
    );
    assert_eq!(t.format("{json}", &no_floats), resolver("json", ResolverFault::InvalidParameter));
}

#[test]
fn extra_parameters_are_ignored() {
    let t = with_env("{\"a\":1}", &[("FOO", "bar")]);
    assert_eq!(t.format("{env:FOO;BAR}", &no_floats), Ok(String::from("bar")));
    assert_eq!(t.format("{config:$.a;$.b}", &no_floats), Ok(String::from("1")));
}

#[test]
fn the_default_uploader_reads_the_link_from_the_response() {
    let uploader = uploadr::config::UploaderData::default();
    let curlyfry = answered(200, &[], "{\"data\":{\"link\":\"https://i.imgur.com/x.png\"}}");
    let mut t = plain();
    t.set_curlyfry(&curlyfry);
    assert_eq!(
        t.format(&uploader.response.url, &no_floats),
        Ok(String::from("https://i.imgur.com/x.png"))
    );
}

#[test]
fn directives_nest_to_any_depth() {
    let t = with_env("{}", &[("A", "B"), ("B", "C"), ("C", "D"), ("D", "E"), ("E", "end")]);
    assert_eq!(t.format("{env:{env:A}}", &no_floats), Ok(String::from("C")));
    assert_eq!(
        t.format("{env:{env:{env:{env:{env:A}}}}}", &no_floats),
        Ok(String::from("end"))
    );
    assert_eq!(
        t.format("<{env: {env: {env:A} } }>", &no_floats),
        Ok(String::from("<D>"))
    );
}

#[test]
fn a_parameter_mixes_text_and_directives() {
    let t = with_env("{}", &[("A", "B"), ("B_SUFFIX", "ok"), ("pre-B-post", "yes")]);
    assert_eq!(t.format("{env:{env:A}_SUFFIX}", &no_floats), Ok(String::from("ok")));
    assert_eq!(t.format("{env:pre-{env:A}-post}", &no_floats), Ok(String::from("yes")));
    assert_eq!(
        t.format("x{random:choice;{env:A}{env:A}}y", &no_floats),
        Ok(String::from("xBBy"))
    );
}

#[test]
fn escapes_work_at_every_depth() {
    let t = plain();
    assert_eq!(
        t.format("\\{\\}\\:\\;\\\\", &no_floats),
        Ok(String::from("{}:;\\"))
    );
    assert_eq!(
        t.format("{random:choice;{random:choice;a\\;b}}", &no_floats),
        Ok(String::from("a;b"))
    );
    assert_eq!(
        t.format("{random:choice;{random:choice;{random:choice;\\{\\}}}}", &no_floats),
        Ok(String::from("{}"))
    );
    assert_eq!(
        t.format("{random:choice;x\\\\}", &no_floats),
        Ok(String::from("x\\"))
    );
}

#[test]
fn several_directives_resolve_from_left_to_right() {
    let t = with_env("{\"a\":\"1\"}", &[("B", "2")]);
    assert_eq!(
        t.format("{config:$.a}+{env:B}={random:int;3;4}", &no_floats),
        Ok(String::from("1+2=3"))
    );
}
