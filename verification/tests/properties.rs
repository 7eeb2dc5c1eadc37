use matcha::{render, render_lines, Node, Range, RenderError};

fn text(s: &str) -> Node {
    Node::Text(s.to_string())
}

fn ident(s: &str) -> Node {
    Node::Identifier(s.to_string())
}

fn with(name: &str, ty: &str, at: usize) -> Node {
    Node::With(
        (
            name.to_string(),
            Range {
                start: at,
                end: at + name.len(),
            },
        ),
        ty.to_string(),
    )
}

#[test]
fn test_empty_input_renders_empty_module() {
    let nodes: Vec<Node> = vec![];
    let expected = "import gleam/string_builder.{StringBuilder}\nimport gleam/list\n\n\n\n\
pub fn render_builder() -> StringBuilder {\n"
        .to_string()
        + "    let builder = string_builder.from_string(\"\")\n"
        + "    builder\n"
        + "}\n"
        + "\n"
        + "pub fn render() -> String {\n"
        + "    string_builder.to_string(render_builder())\n"
        + "}\n";
    assert_eq!(render(&nodes).unwrap(), expected);
}

#[test]
fn test_duplicate_param_name_is_error() {
    let nodes = vec![
        with("name", "String", 8),
        text("Hello "),
        with("name", "Int", 40),
    ];
    match render(&nodes) {
        Ok(_) => panic!("duplicate parameter name must not render"),
        Err(RenderError::DuplicateParamName(name, range)) => {
            assert_eq!(name, "name");
            assert_eq!(range, Range { start: 40, end: 44 });
        }
    }
}

#[test]
fn test_duplicate_in_nested_level_is_error() {
    let nodes = vec![Node::If(
        "cond".to_string(),
        vec![with("x", "String", 12), with("x", "Int", 25)],
        vec![],
    )];
    match render(&nodes) {
        Ok(_) => panic!("duplicate parameter name in a nested level must not render"),
        Err(RenderError::DuplicateParamName(name, range)) => {
            assert_eq!(name, "x");
            assert_eq!(range, Range { start: 25, end: 26 });
        }
    }
}

#[test]
fn test_nested_with_does_not_reach_signature() {
    let nodes = vec![
        with("outer", "String", 8),
        Node::If(
            "outer".to_string(),
            vec![with("inner", "String", 30), ident("inner")],
            vec![],
        ),
    ];
    let output = render(&nodes).unwrap();
    assert!(output.contains("pub fn render(outer outer: String) -> String {"));
    assert!(output.contains("pub fn render_builder(outer outer: String) -> StringBuilder {"));
    assert!(!output.contains("inner inner"));
    assert!(!output.contains("inner: inner"));
}

#[test]
fn test_nested_with_may_reuse_outer_name() {
    // Uniqueness is enforced per traversal level only: a nested body may
    // re-declare an enclosing name, and the nested declaration stays inert.
    let nodes = vec![
        with("name", "String", 8),
        Node::If("cond".to_string(), vec![with("name", "Int", 30)], vec![]),
    ];
    let output = render(&nodes).unwrap();
    assert!(output.contains("pub fn render(name name: String) -> String {"));
    assert!(!output.contains("name name: Int"));
}

#[test]
fn test_order_of_statements_follows_input() {
    let nodes = vec![
        ident("a"),
        text("b"),
        Node::Builder("c".to_string()),
        ident("d"),
    ];
    let output = render(&nodes).unwrap();
    let a = output.find("string_builder.append(builder, a)").unwrap();
    let b = output.find("string_builder.append(builder, \"b\")").unwrap();
    let c = output
        .find("string_builder.append_builder(builder, c)")
        .unwrap();
    let d = output.find("string_builder.append(builder, d)").unwrap();
    assert!(a < b && b < c && c < d);
}

#[test]
fn test_imports_kept_in_order_without_dedup() {
    let nodes = vec![
        Node::Import("user.{User}".to_string()),
        Node::Import("group.{Group}".to_string()),
        Node::Import("user.{User}".to_string()),
    ];
    let output = render(&nodes).unwrap();
    assert!(output.contains(
        "import gleam/list\n\nimport user.{User}\nimport group.{Group}\nimport user.{User}\n\n"
    ));
}

#[test]
fn test_quote_escaped_exactly_once() {
    let nodes = vec![text("say \"hi\"")];
    let output = render(&nodes).unwrap();
    assert!(output.contains("string_builder.append(builder, \"say \\\"hi\\\"\")"));
    assert!(!output.contains("\\\\\""));
}

#[test]
fn test_backslash_is_not_escaped() {
    let nodes = vec![text("a\\b")];
    let output = render(&nodes).unwrap();
    assert!(output.contains("string_builder.append(builder, \"a\\b\")"));
    assert!(!output.contains("a\\\\b"));
}

#[test]
fn test_render_lines_accumulators() {
    let nodes = vec![
        Node::Import("user.{User}".to_string()),
        with("name", "String", 20),
        text("hi"),
    ];
    let (lines, imports, params) = render_lines(&nodes).unwrap();
    assert_eq!(lines, "    let builder = string_builder.append(builder, \"hi\")\n");
    assert_eq!(imports, vec!["user.{User}".to_string()]);
    assert_eq!(
        params,
        vec![("name".to_string(), "String".to_string())]
    );
}

#[test]
fn test_error_reports_first_duplicate() {
    let nodes = vec![
        with("a", "String", 1),
        with("b", "String", 10),
        with("a", "Int", 20),
        with("b", "Int", 30),
    ];
    match render(&nodes) {
        Ok(_) => panic!("duplicate parameter name must not render"),
        Err(RenderError::DuplicateParamName(name, range)) => {
            assert_eq!(name, "a");
            assert_eq!(range, Range { start: 20, end: 21 });
        }
    }
}
