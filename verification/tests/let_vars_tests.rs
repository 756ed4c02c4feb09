use neonmachines::let_vars::{
    declared_variables_of, extract_variables_from_poml, inject_let_variables, let_first,
    let_values_of, rewrite_lets, splice,
};

fn el(name: &str, value: &str) -> String {
    format!("<let name=\"{}\" type=\"string\" value=\"{}\" />", name, value)
}

fn pairs(list: &[(&str, &str)]) -> Vec<(String, String)> {
    list.iter().map(|(a, b)| (a.to_string(), b.to_string())).collect()
}

#[test]
fn test_inline_content_is_overwritten() {
    let content = "<let name=\"message\" type=\"string\">This is inline text</let>";
    let out = inject_let_variables(content, &pairs(&[("message", "New text")]), None, None).unwrap();
    assert_eq!(out, el("message", "New text"));
}

#[test]
fn test_inline_content_without_value_is_kept() {
    let content = "<let name=\"message\" type=\"string\">This is inline text</let>";
    let out = inject_let_variables(content, &pairs(&[]), None, None).unwrap();
    assert_eq!(out, content);
}

#[test]
fn test_self_closing_is_overwritten() {
    let content = "<let name=\"rustoverwrite\" type=\"string\" value=\"not overwritten yet\" />";
    let vars = pairs(&[("rustoverwrite", "Rust has overwritten this")]);
    let out = inject_let_variables(content, &vars, None, None).unwrap();
    assert_eq!(out, el("rustoverwrite", "Rust has overwritten this"));
}

#[test]
fn test_self_closing_without_value_is_kept() {
    let content = "<p>x</p>\n<let name=\"greeting\" type=\"string\" value=\"Hello\" />\n";
    let out = inject_let_variables(content, &pairs(&[]), None, None).unwrap();
    assert_eq!(out, content);
}

#[test]
fn test_input_replaces_existing_variable_on_one_line() {
    let content = "<poml>\n<let name=\"nminput\" type=\"string\" value=\"Original\" />\n<p>{{nminput}}</p>\n</poml>";
    let out = inject_let_variables(content, &pairs(&[]), Some("hello\nworld\r!"), None).unwrap();
    assert_eq!(
        out,
        format!("<poml>\n{}\n<p>{{{{nminput}}}}</p>\n</poml>", el("nminput", "hello world !"))
    );
}

#[test]
fn test_missing_input_and_output_are_added_first() {
    let out = inject_let_variables("<p>hi</p>", &pairs(&[]), Some("q"), Some("a")).unwrap();
    assert_eq!(
        out,
        format!("{}\n{}\n<p>hi</p>", el("nmoutput", "a"), el("nminput", "q"))
    );
}

#[test]
fn test_later_value_of_a_name_wins() {
    let content = "<let name=\"nminput\">old</let>";
    let vars = pairs(&[("nminput", "from vars")]);
    let out = inject_let_variables(content, &vars, Some("from input"), None).unwrap();
    assert_eq!(out, el("nminput", "from input"));
}

#[test]
fn test_content_match_runs_to_first_closing_tag() {
    let content = "<let name=\"a\" />t<let name=\"b\">x</let>";
    let out = inject_let_variables(content, &pairs(&[("a", "1"), ("b", "2")]), None, None).unwrap();
    assert_eq!(out, el("a", "1"));
}

#[test]
fn test_text_without_lets_is_unchanged() {
    let content = "plain text with no variables";
    let out = inject_let_variables(content, &pairs(&[("x", "y")]), None, None).unwrap();
    assert_eq!(out, content);
}

#[test]
fn test_splice_replaces_spans() {
    let caps = vec![vec![Some((0usize, 5usize))]];
    let out = splice("hello world", &caps, &vec!["bye".to_string()]);
    assert_eq!(out, "bye world");
    let caps = vec![vec![Some((0usize, 1usize))], vec![Some((6usize, 11usize))]];
    let out = splice("hello world", &caps, &vec!["J".to_string(), "there".to_string()]);
    assert_eq!(out, "Jello there");
}

#[test]
fn test_rewrite_lets_from_given_spans() {
    let text = "ab<let name=\"k\"/>cd";
    let caps = vec![vec![Some((2usize, 17usize)), Some((13usize, 14usize))]];
    let out = rewrite_lets(text, &caps, &pairs(&[("k", "v")]));
    assert_eq!(out, format!("ab{}cd", el("k", "v")));
    let out = rewrite_lets(text, &caps, &pairs(&[]));
    assert_eq!(out, text);
}

#[test]
fn test_let_first_only_when_missing() {
    let out = let_first("body".to_string(), "nminput", Some("v".to_string()));
    assert_eq!(out, format!("{}\nbody", el("nminput", "v")));
    let out = let_first("x name=\"nminput\" y".to_string(), "nminput", Some("v".to_string()));
    assert_eq!(out, "x name=\"nminput\" y");
    let out = let_first("body".to_string(), "nminput", None);
    assert_eq!(out, "body");
}

#[test]
fn test_let_values_flatten_lines() {
    let v = let_values_of(&pairs(&[("k", "v")]), Some("a\nb"), Some("c\rd"));
    assert_eq!(
        v,
        pairs(&[("k", "v"), ("nminput", "a b"), ("nmoutput", "c d")])
    );
}

#[test]
fn test_extract_variables_first_valued_let_and_placeholders() {
    let content = "<let name=\"greeting\" type=\"string\" value=\"Hello\" />\n<let name=\"b\" value=\"2\" />\n{{ prompt }} and {{input}}";
    let vars = extract_variables_from_poml(content).unwrap();
    assert_eq!(
        vars,
        pairs(&[("greeting", "Hello"), ("prompt", "User input"), ("input", "User input")])
    );
}

#[test]
fn test_extract_variables_none_declared() {
    let vars = extract_variables_from_poml("<let name=\"x\">no value</let> {{other}}").unwrap();
    assert!(vars.is_empty());
}

#[test]
fn test_declared_variables_from_given_spans() {
    let text = "<let name=\"k\" value=\"v\">";
    let caps = vec![vec![Some((0usize, 24usize)), Some((11usize, 12usize)), Some((21usize, 22usize))]];
    let vars = declared_variables_of(text, &caps, false, true);
    assert_eq!(vars, pairs(&[("k", "v"), ("input", "User input")]));
}
