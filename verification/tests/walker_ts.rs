use un1c0::walker_ts::{extract_tag_content, jsx_to_swiftui};

#[test]
fn test_state_extraction() {
    let code = r#"const [tasks, setTasks] = useState<string[]>([])"#;
    assert!(code.contains("useState"));
}

#[test]
fn test_jsx_parsing() {
    let jsx = "<h1>Hello World</h1>";
    let content = extract_tag_content(jsx, "h1");
    assert_eq!(content, Some("Hello World".to_string()));
}

#[test]
fn heading_becomes_title() {
    let out = jsx_to_swiftui("<h1>Hello World</h1>", b"", 1);
    assert_eq!(out, "    Text(\"Hello World\")\n        .font(.largeTitle)\n        .bold()\n");
}

#[test]
fn every_element_becomes_its_view() {
    let jsx = "<div><input value={input} /><button type=\"submit\">Add</button><button>{loading ? 'Adding...' : 'Add Task'}</button><ul></ul></div>";
    let out = jsx_to_swiftui(jsx, jsx.as_bytes(), 0);
    let expected = "TextField(\"New task\", text: $input)\n    .textFieldStyle(RoundedBorderTextFieldStyle())\n    .disabled(loading)\nButton(action: handleSubmit) {\n    Text(loading ? \"Adding...\" : \"Add\")\n}\n.disabled(loading)\nList(tasks.indices, id: \\.self) { index in\n    Text(tasks[index])\n}\n";
    assert_eq!(out, expected);
    assert_eq!(extract_tag_content(jsx, "ul"), Some("".to_string()));
    assert_eq!(extract_tag_content(jsx, "h1"), None);
    assert_eq!(extract_tag_content("<p>open", "p"), None);
    assert_eq!(
        extract_tag_content("<button>{loading ? 'Adding...' : 'Add Task'}</button>", "button"),
        Some("Add Task".to_string())
    );
}
