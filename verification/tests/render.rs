use matcha::{render, Node, Range};

fn text(s: &str) -> Node {
    Node::Text(s.to_string())
}

fn ident(s: &str) -> Node {
    Node::Identifier(s.to_string())
}

fn builder(s: &str) -> Node {
    Node::Builder(s.to_string())
}

fn import(s: &str) -> Node {
    Node::Import(s.to_string())
}

fn with(name: &str, ty: &str, at: usize) -> Node {
    Node::With(
        (
            name.to_string(),
            Range {
                start: at,
                end: at + name.len(),
            },
        ),
        ty.to_string(),
    )
}

/// Assembles the expected module text: the fixed preamble, the user import
/// lines, and the two public functions around the given body lines.
fn module(imports: &[&str], params: &str, args: &str, body: &[&str]) -> String {
    let mut lines: Vec<String> = vec![
        "import gleam/string_builder.{StringBuilder}".to_string(),
        "import gleam/list".to_string(),
        String::new(),
        imports.join("\n"),
        String::new(),
        format!("pub fn render_builder({}) -> StringBuilder {{", params),
        "    let builder = string_builder.from_string(\"\")".to_string(),
    ];
    for line in body {
        lines.push(line.to_string());
    }
    lines.push("    builder".to_string());
    lines.push("}".to_string());
    lines.push(String::new());
    lines.push(format!("pub fn render({}) -> String {{", params));
    lines.push(format!(
        "    string_builder.to_string(render_builder({}))",
        args
    ));
    lines.push("}".to_string());
    lines.push(String::new());
    lines.join("\n")
}

#[test]
fn test_render_pure_text() {
    let nodes = vec![text("Hello name, good to meet you")];
    let expected = module(
        &[],
        "",
        "",
        &["    let builder = string_builder.append(builder, \"Hello name, good to meet you\")"],
    );
    assert_eq!(render(&nodes).unwrap(), expected);
}

#[test]
fn test_render_identifier() {
    let nodes = vec![
        with("name", "String", 8),
        text("Hello "),
        ident("name"),
        text(", good to meet you"),
    ];
    let expected = module(
        &[],
        "name name: String",
        "name: name",
        &[
            "    let builder = string_builder.append(builder, \"Hello \")",
            "    let builder = string_builder.append(builder, name)",
            "    let builder = string_builder.append(builder, \", good to meet you\")",
        ],
    );
    assert_eq!(render(&nodes).unwrap(), expected);
}

#[test]
fn test_render_two_identifiers() {
    let nodes = vec![
        with("name", "String", 8),
        with("adjective", "String", 31),
        text("Hello "),
        ident("name"),
        text(", "),
        ident("adjective"),
        text(" to meet you"),
    ];
    let expected = module(
        &[],
        "name name: String, adjective adjective: String",
        "name: name, adjective: adjective",
        &[
            "    let builder = string_builder.append(builder, \"Hello \")",
            "    let builder = string_builder.append(builder, name)",
            "    let builder = string_builder.append(builder, \", \")",
            "    let builder = string_builder.append(builder, adjective)",
            "    let builder = string_builder.append(builder, \" to meet you\")",
        ],
    );
    assert_eq!(render(&nodes).unwrap(), expected);
}

#[test]
fn test_repeated_identifier_usage() {
    let nodes = vec![
        with("name", "String", 8),
        ident("name"),
        text(" usage, "),
        ident("name"),
        text(" usage"),
    ];
    let expected = module(
        &[],
        "name name: String",
        "name: name",
        &[
            "    let builder = string_builder.append(builder, name)",
            "    let builder = string_builder.append(builder, \" usage, \")",
            "    let builder = string_builder.append(builder, name)",
            "    let builder = string_builder.append(builder, \" usage\")",
        ],
    );
    assert_eq!(render(&nodes).unwrap(), expected);
}

#[test]
fn test_render_if_statement() {
    let nodes = vec![
        with("is_user", "Bool", 8),
        text("Hello "),
        Node::If("is_user".to_string(), vec![text("User")], vec![]),
    ];
    let expected = module(
        &[],
        "is_user is_user: Bool",
        "is_user: is_user",
        &[
            "    let builder = string_builder.append(builder, \"Hello \")",
            "    let builder = case is_user {",
            "        True -> {",
            "                let builder = string_builder.append(builder, \"User\")",
            "",
            "            builder",
            "        }",
            "        False -> {",
            "            ",
            "            builder",
            "        }",
            "}",
        ],
    );
    assert_eq!(render(&nodes).unwrap(), expected);
}

#[test]
fn test_render_empty_if_statement() {
    let nodes = vec![
        with("is_user", "Bool", 8),
        text("Hello "),
        Node::If("is_user".to_string(), vec![], vec![]),
    ];
    let expected = module(
        &[],
        "is_user is_user: Bool",
        "is_user: is_user",
        &[
            "    let builder = string_builder.append(builder, \"Hello \")",
            "    let builder = case is_user {",
            "        True -> {",
            "            ",
            "            builder",
            "        }",
            "        False -> {",
            "            ",
            "            builder",
            "        }",
            "}",
        ],
    );
    assert_eq!(render(&nodes).unwrap(), expected);
}

#[test]
fn test_render_if_else_statement() {
    let nodes = vec![
        with("is_user", "Bool", 8),
        text("Hello "),
        Node::If(
            "is_user".to_string(),
            vec![text("User")],
            vec![text("Unknown")],
        ),
    ];
    let expected = module(
        &[],
        "is_user is_user: Bool",
        "is_user: is_user",
        &[
            "    let builder = string_builder.append(builder, \"Hello \")",
            "    let builder = case is_user {",
            "        True -> {",
            "                let builder = string_builder.append(builder, \"User\")",
            "",
            "            builder",
            "        }",
            "        False -> {",
            "                let builder = string_builder.append(builder, \"Unknown\")",
            "",
            "            builder",
            "        }",
            "}",
        ],
    );
    assert_eq!(render(&nodes).unwrap(), expected);
}

#[test]
fn test_render_nested_if_statements() {
    let nodes = vec![
        with("is_user", "Bool", 8),
        with("is_admin", "Bool", 30),
        text("Hello "),
        Node::If(
            "is_user".to_string(),
            vec![Node::If(
                "is_admin".to_string(),
                vec![text("Admin")],
                vec![text("User")],
            )],
            vec![],
        ),
    ];
    let expected = module(
        &[],
        "is_user is_user: Bool, is_admin is_admin: Bool",
        "is_user: is_user, is_admin: is_admin",
        &[
            "    let builder = string_builder.append(builder, \"Hello \")",
            "    let builder = case is_user {",
            "        True -> {",
            "                let builder = case is_admin {",
            "        True -> {",
            "                let builder = string_builder.append(builder, \"Admin\")",
            "",
            "            builder",
            "        }",
            "        False -> {",
            "                let builder = string_builder.append(builder, \"User\")",
            "",
            "            builder",
            "        }",
            "}",
            "",
            "            builder",
            "        }",
            "        False -> {",
            "            ",
            "            builder",
            "        }",
            "}",
        ],
    );
    assert_eq!(render(&nodes).unwrap(), expected);
}

#[test]
fn test_render_for_loop() {
    let nodes = vec![
        with("list", "List(String)", 8),
        text("Hello,"),
        Node::For(
            "item".to_string(),
            None,
            "list".to_string(),
            vec![text(" to "), ident("item"), text(" and ")],
        ),
        text(" everyone else"),
    ];
    let expected = module(
        &[],
        "list list: List(String)",
        "list: list",
        &[
            "    let builder = string_builder.append(builder, \"Hello,\")",
            "    let builder = list.fold(list, builder, fn(builder, item) {",
            "            let builder = string_builder.append(builder, \" to \")",
            "    let builder = string_builder.append(builder, item)",
            "    let builder = string_builder.append(builder, \" and \")",
            "",
            "        builder",
            "})",
            "    let builder = string_builder.append(builder, \" everyone else\")",
        ],
    );
    assert_eq!(render(&nodes).unwrap(), expected);
}

#[test]
fn test_render_for_as_loop() {
    let nodes = vec![
        with("list", "List(Item)", 8),
        text("Hello,"),
        Node::For(
            "item".to_string(),
            Some("Item".to_string()),
            "list".to_string(),
            vec![text(" to "), ident("item"), text(" and ")],
        ),
        text(" everyone else"),
    ];
    let expected = module(
        &[],
        "list list: List(Item)",
        "list: list",
        &[
            "    let builder = string_builder.append(builder, \"Hello,\")",
            "    let builder = list.fold(list, builder, fn(builder, item: Item) {",
            "            let builder = string_builder.append(builder, \" to \")",
            "    let builder = string_builder.append(builder, item)",
            "    let builder = string_builder.append(builder, \" and \")",
            "",
            "        builder",
            "})",
            "    let builder = string_builder.append(builder, \" everyone else\")",
        ],
    );
    assert_eq!(render(&nodes).unwrap(), expected);
}

#[test]
fn test_render_dot_access() {
    let nodes = vec![
        with("user", "MyUser", 8),
        text("Hello"),
        Node::If("user.is_admin".to_string(), vec![text(" Admin")], vec![]),
    ];
    let expected = module(
        &[],
        "user user: MyUser",
        "user: user",
        &[
            "    let builder = string_builder.append(builder, \"Hello\")",
            "    let builder = case user.is_admin {",
            "        True -> {",
            "                let builder = string_builder.append(builder, \" Admin\")",
            "",
            "            builder",
            "        }",
            "        False -> {",
            "            ",
            "            builder",
            "        }",
            "}",
        ],
    );
    assert_eq!(render(&nodes).unwrap(), expected);
}

#[test]
fn test_render_import() {
    let nodes = vec![
        import("user.{User}"),
        with("name", "String", 30),
        ident("name"),
    ];
    let expected = module(
        &["import user.{User}"],
        "name name: String",
        "name: name",
        &["    let builder = string_builder.append(builder, name)"],
    );
    assert_eq!(render(&nodes).unwrap(), expected);
}

#[test]
fn test_render_with() {
    let nodes = vec![with("user", "User", 8), ident("user")];
    let expected = module(
        &[],
        "user user: User",
        "user: user",
        &["    let builder = string_builder.append(builder, user)"],
    );
    assert_eq!(render(&nodes).unwrap(), expected);
}

#[test]
fn test_render_import_and_with() {
    let nodes = vec![
        import("user.{User}"),
        with("user", "User", 30),
        ident("user"),
    ];
    let expected = module(
        &["import user.{User}"],
        "user user: User",
        "user: user",
        &["    let builder = string_builder.append(builder, user)"],
    );
    assert_eq!(render(&nodes).unwrap(), expected);
}

#[test]
fn test_render_multiline() {
    let nodes = vec![
        with("my_list", "List(String)", 8),
        text("<ul>\n"),
        Node::For(
            "entry".to_string(),
            None,
            "my_list".to_string(),
            vec![text("\n    <li>"), ident("entry"), text("</li>\n")],
        ),
        text("\n</ul>"),
    ];
    let expected = module(
        &[],
        "my_list my_list: List(String)",
        "my_list: my_list",
        &[
            "    let builder = string_builder.append(builder, \"<ul>",
            "\")",
            "    let builder = list.fold(my_list, builder, fn(builder, entry) {",
            "            let builder = string_builder.append(builder, \"",
            "    <li>\")",
            "    let builder = string_builder.append(builder, entry)",
            "    let builder = string_builder.append(builder, \"</li>",
            "\")",
            "",
            "        builder",
            "})",
            "    let builder = string_builder.append(builder, \"",
            "</ul>\")",
        ],
    );
    assert_eq!(render(&nodes).unwrap(), expected);
}

#[test]
fn test_render_quotes() {
    let nodes = vec![
        with("name", "String", 8),
        text("<div class=\"my-class\">"),
        ident("name"),
        text("</div>"),
    ];
    let expected = module(
        &[],
        "name name: String",
        "name: name",
        &[
            "    let builder = string_builder.append(builder, \"<div class=\\\"my-class\\\">\")",
            "    let builder = string_builder.append(builder, name)",
            "    let builder = string_builder.append(builder, \"</div>\")",
        ],
    );
    assert_eq!(render(&nodes).unwrap(), expected);
}

#[test]
fn test_render_builder_block() {
    let nodes = vec![
        with("name", "StringBuilder", 8),
        text("Hello "),
        builder("name"),
        text(", good to meet you"),
    ];
    let expected = module(
        &[],
        "name name: StringBuilder",
        "name: name",
        &[
            "    let builder = string_builder.append(builder, \"Hello \")",
            "    let builder = string_builder.append_builder(builder, name)",
            "    let builder = string_builder.append(builder, \", good to meet you\")",
        ],
    );
    assert_eq!(render(&nodes).unwrap(), expected);
}
