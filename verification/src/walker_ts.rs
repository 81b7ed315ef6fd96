//! From a TypeScript component to a SwiftUI view.
use vstd::prelude::*;
use crate::text::{chars_of, string_of, push_all, push_str, slice, trim, trim_of, trim_start,
    trim_start_of};
use crate::scan::{contains_sub, find_char, find_sub, contains, find_char_in, find_sub_in};
use crate::split::{replace, replace_of, repeat, repeat_of, split, split_of, texts};
use crate::syntax::{SyntaxNode, SyntaxTree, children_agree, lemma_children, field_index};

verus! {

/// The opening of the tag `tag`, without its end.
pub open spec fn tag_open(tag: Seq<char>) -> Seq<char> {
    "<"@ + tag
}

/// The closing tag of `tag`.
pub open spec fn tag_close(tag: Seq<char>) -> Seq<char> {
    "</"@ + tag + ">"@
}

/// The conditional label of the submit button, and the plain label that stands for it.
pub open spec fn conditional_label() -> Seq<char> {
    "{loading ? 'Adding...' : 'Add Task'}"@
}

/// What stands between the first opening tag `tag` and the closing tag that follows it:
/// from the end of the opening tag to the closing tag, the conditional label replaced by
/// the plain one, trimmed. `None` where the text has no such pair of tags.
pub open spec fn tag_content(jsx: Seq<char>, tag: Seq<char>) -> Option<Seq<char>> {
    match find_sub(jsx, tag_open(tag)) {
        Some(start) => match find_char(jsx.skip(start), '>') {
            Some(n) => {
                let from = start + n + 1;
                match find_sub(jsx.skip(from), tag_close(tag)) {
                    Some(len) => Some(
                        trim(
                            replace(
                                jsx.subrange(from, from + len),
                                conditional_label(),
                                "Add Task"@,
                            ),
                        ),
                    ),
                    None => None,
                }
            },
            None => None,
        },
        None => None,
    }
}

fn tag_content_of(jsx: &Vec<char>, tag: &Vec<char>) -> (r: Option<Vec<char>>)
    ensures
        match r {
            Some(c) => tag_content(jsx@, tag@) == Some(c@),
            None => tag_content(jsx@, tag@) is None,
        },
{
    let mut open = chars_of("<");
    push_all(&mut open, tag);
    let mut close = chars_of("</");
    push_all(&mut close, tag);
    push_str(&mut close, ">");
    match find_sub_in(jsx, &open) {
        Some(start) => {
            let rest = slice(jsx, start, jsx.len());
            assert(rest@ == jsx@.skip(start as int));
            match find_char_in(&rest, '>') {
                Some(n) => {
                    let from: usize = start + n + 1;
                    let tail = slice(jsx, from, jsx.len());
                    assert(tail@ == jsx@.skip(from as int));
                    match find_sub_in(&tail, &close) {
                        Some(len) => {
                            let content = slice(jsx, from, from + len);
                            let clean = replace_of(
                                &content,
                                &chars_of("{loading ? 'Adding...' : 'Add Task'}"),
                                &chars_of("Add Task"),
                            );
                            Some(trim_of(&clean))
                        },
                        None => None,
                    }
                },
                None => None,
            }
        },
        None => None,
    }
}

/// The content of the first element `tag` of `jsx`.
pub fn extract_tag_content(jsx: &str, tag: &str) -> (r: Option<String>)
    ensures
        match r {
            Some(c) => tag_content(jsx@, tag@) == Some(c@),
            None => tag_content(jsx@, tag@) is None,
        },
{
    match tag_content_of(&chars_of(jsx), &chars_of(tag)) {
        Some(c) => Some(string_of(&c)),
        None => None,
    }
}

/// The position of the parenthesis that closes the first one of `s`, where `depth`
/// parentheses are open before `s`; the length of `s` where none does.
pub open spec fn closing_paren(s: Seq<char>, depth: int) -> int
    decreases s.len(),
{
    if s.len() == 0 {
        0
    } else if s[0] == ')' && depth == 1 {
        0
    } else if s[0] == ')' {
        1 + closing_paren(s.skip(1), depth - 1)
    } else if s[0] == '(' {
        1 + closing_paren(s.skip(1), depth + 1)
    } else {
        1 + closing_paren(s.skip(1), depth)
    }
}

/// The markup that a component returns: what follows the first `return`, where that is
/// a parenthesis, up to the parenthesis that closes it, trimmed. Empty where the text
/// returns nothing in parentheses.
pub open spec fn returned_markup(text: Seq<char>) -> Seq<char> {
    match find_sub(text, "return"@) {
        Some(p) => {
            let after = trim_start(text.skip(p + "return"@.len()));
            if after.len() > 0 && after[0] == '(' {
                trim(after.subrange(1, closing_paren(after, 0)))
            } else {
                seq![]
            }
        },
        None => seq![],
    }
}

/// The closing parenthesis lies after the opening one, and inside the text or at its end.
pub proof fn lemma_closing_paren(s: Seq<char>, depth: int)
    ensures
        0 <= closing_paren(s, depth) <= s.len(),
        s.len() > 0 && s[0] == '(' ==> closing_paren(s, depth) >= 1,
    decreases s.len(),
{
    if s.len() > 0 {
        if s[0] == ')' && depth == 1 {
        } else if s[0] == ')' {
            lemma_closing_paren(s.skip(1), depth - 1);
        } else if s[0] == '(' {
            lemma_closing_paren(s.skip(1), depth + 1);
        } else {
            lemma_closing_paren(s.skip(1), depth);
        }
    }
}

fn closing_paren_of(s: &Vec<char>) -> (r: usize)
    requires
        s.len() > 0,
        s[0] == '(',
    ensures
        r as int == closing_paren(s@, 0),
        1 <= r <= s.len(),
{
    let mut depth: usize = 1;
    let mut i: usize = 1;
    assert(s@.skip(0) == s@);
    assert(closing_paren(s@, 0) == 1 + closing_paren(s@.skip(1), 1));
    while i < s.len()
        invariant
            1 <= i <= s.len(),
            1 <= depth <= i,
            closing_paren(s@, 0) == i + closing_paren(s@.skip(i as int), depth as int),
        decreases s.len() - i,
    {
        assert(s@.skip(i as int).skip(1) == s@.skip(i + 1));
        if s[i] == ')' {
            if depth == 1 {
                return i;
            }
            depth -= 1;
        } else if s[i] == '(' {
            depth += 1;
        }
        i += 1;
    }
    i
}

fn find_jsx_element(text: &Vec<char>) -> (r: Vec<char>)
    ensures
        r@ == returned_markup(text@),
{
    let keyword = chars_of("return");
    match find_sub_in(text, &keyword) {
        Some(p) => {
            let rest = slice(text, p + keyword.len(), text.len());
            assert(rest@ == text@.skip(p + "return"@.len()));
            let after = trim_start_of(&rest);
            if after.len() > 0 && after[0] == '(' {
                proof {
                    lemma_closing_paren(after@, 0);
                }
                let end = closing_paren_of(&after);
                trim_of(&slice(&after, 1, end))
            } else {
                Vec::new()
            }
        },
        None => Vec::new(),
    }
}

/// The indentation of level `depth`.
pub open spec fn indentation(depth: nat) -> Seq<char> {
    repeat("    "@, depth)
}

/// The title of the view, for markup that holds a first-level heading with content.
pub open spec fn swift_title(jsx: Seq<char>, ind: Seq<char>) -> Seq<char> {
    if contains_sub(jsx, "<h1>"@) && tag_content(jsx, "h1"@) is Some {
        ind + "Text(\""@ + tag_content(jsx, "h1"@).unwrap() + "\")\n"@ + ind
            + "    .font(.largeTitle)\n"@ + ind + "    .bold()\n"@
    } else {
        seq![]
    }
}

/// The text field of the view, for markup that holds an input.
pub open spec fn swift_input(jsx: Seq<char>, ind: Seq<char>) -> Seq<char> {
    if contains_sub(jsx, "<input"@) {
        ind + "TextField(\"New task\", text: $input)\n"@ + ind
            + "    .textFieldStyle(RoundedBorderTextFieldStyle())\n"@ + ind
            + "    .disabled(loading)\n"@
    } else {
        seq![]
    }
}

/// The label of the button: the plain label where the content is conditional, else the
/// content in quotes.
pub open spec fn button_label(content: Seq<char>) -> Seq<char> {
    if contains_sub(content, "loading ?"@) {
        "\"Add Task\""@
    } else {
        "\""@ + trim(content) + "\""@
    }
}

/// The button of the view, for markup that holds a button with content.
pub open spec fn swift_button(jsx: Seq<char>, ind: Seq<char>) -> Seq<char> {
    if contains_sub(jsx, "<button"@) && tag_content(jsx, "button"@) is Some {
        ind + "Button(action: handleSubmit) {\n"@ + ind + "    Text(loading ? \"Adding...\" : "@
            + button_label(tag_content(jsx, "button"@).unwrap()) + ")\n"@ + ind + "}\n"@ + ind
            + ".disabled(loading)\n"@
    } else {
        seq![]
    }
}

/// The list of the view, for markup that holds an unordered list.
pub open spec fn swift_list(jsx: Seq<char>, ind: Seq<char>) -> Seq<char> {
    if contains_sub(jsx, "<ul>"@) {
        ind + "List(tasks.indices, id: \\.self) { index in\n"@ + ind + "    Text(tasks[index])\n"@
            + ind + "}\n"@
    } else {
        seq![]
    }
}

/// The SwiftUI views for the markup `jsx`, at level `depth`: title, text field, button and
/// list, each where the markup holds its element.
pub open spec fn swiftui(jsx: Seq<char>, depth: nat) -> Seq<char> {
    let ind = indentation(depth);
    swift_title(jsx, ind) + swift_input(jsx, ind) + swift_button(jsx, ind) + swift_list(jsx, ind)
}

fn swiftui_at(jsx: &Vec<char>, ind: &Vec<char>, Ghost(depth): Ghost<nat>) -> (r: Vec<char>)
    requires
        ind@ == indentation(depth),
    ensures
        r@ == swiftui(jsx@, depth),
{
    let mut r: Vec<char> = Vec::new();
    assert(r@ == Seq::<char>::empty());
    let title = chars_of("h1");
    let mut part: Vec<char> = Vec::new();
    if contains(jsx, &chars_of("<h1>")) {
        if let Some(content) = tag_content_of(jsx, &title) {
            push_all(&mut part, ind);
            push_str(&mut part, "Text(\"");
            push_all(&mut part, &content);
            push_str(&mut part, "\")\n");
            push_all(&mut part, ind);
            push_str(&mut part, "    .font(.largeTitle)\n");
            push_all(&mut part, ind);
            push_str(&mut part, "    .bold()\n");
            assert(Seq::<char>::empty() + ind@ == ind@);
        }
    }
    assert(part@ == swift_title(jsx@, ind@));
    push_all(&mut r, &part);
    assert(r@ == swift_title(jsx@, ind@)) by {
        assert(Seq::<char>::empty() + part@ == part@);
    }
    let mut part: Vec<char> = Vec::new();
    if contains(jsx, &chars_of("<input")) {
        push_all(&mut part, ind);
        push_str(&mut part, "TextField(\"New task\", text: $input)\n");
        push_all(&mut part, ind);
        push_str(&mut part, "    .textFieldStyle(RoundedBorderTextFieldStyle())\n");
        push_all(&mut part, ind);
        push_str(&mut part, "    .disabled(loading)\n");
        assert(Seq::<char>::empty() + ind@ == ind@);
    }
    assert(part@ == swift_input(jsx@, ind@));
    push_all(&mut r, &part);
    let mut part: Vec<char> = Vec::new();
    if contains(jsx, &chars_of("<button")) {
        if let Some(content) = tag_content_of(jsx, &chars_of("button")) {
            let mut label = chars_of("\"");
            if contains(&content, &chars_of("loading ?")) {
                label = chars_of("\"Add Task\"");
            } else {
                push_all(&mut label, &trim_of(&content));
                push_str(&mut label, "\"");
            }
            assert(label@ == button_label(content@));
            push_all(&mut part, ind);
            push_str(&mut part, "Button(action: handleSubmit) {\n");
            push_all(&mut part, ind);
            push_str(&mut part, "    Text(loading ? \"Adding...\" : ");
            push_all(&mut part, &label);
            push_str(&mut part, ")\n");
            push_all(&mut part, ind);
            push_str(&mut part, "}\n");
            push_all(&mut part, ind);
            push_str(&mut part, ".disabled(loading)\n");
            assert(Seq::<char>::empty() + ind@ == ind@);
        }
    }
    assert(part@ == swift_button(jsx@, ind@));
    push_all(&mut r, &part);
    let mut part: Vec<char> = Vec::new();
    if contains(jsx, &chars_of("<ul>")) {
        push_all(&mut part, ind);
        push_str(&mut part, "List(tasks.indices, id: \\.self) { index in\n");
        push_all(&mut part, ind);
        push_str(&mut part, "    Text(tasks[index])\n");
        push_all(&mut part, ind);
        push_str(&mut part, "}\n");
        assert(Seq::<char>::empty() + ind@ == ind@);
    }
    assert(part@ == swift_list(jsx@, ind@));
    push_all(&mut r, &part);
    r
}

/// The SwiftUI views for the markup `jsx`, at level `depth`. Nothing is read of the source.
pub fn jsx_to_swiftui(jsx: &str, _source: &[u8], depth: usize) -> (r: String)
    ensures
        r@ == swiftui(jsx@, depth as nat),
{
    let ind = repeat_of(&chars_of("    "), depth);
    string_of(&swiftui_at(&chars_of(jsx), &ind, Ghost(depth as nat)))
}

/// The state variable that a declaration with `useState` introduces: the first name in
/// its square brackets, with the type and the initial value that the declaration stands
/// for. `None` where the text holds no `useState`, or no pair of square brackets.
pub open spec fn state_of(text: Seq<char>) -> Option<Seq<char>> {
    if contains_sub(text, "useState"@) {
        match (find_char(text, '['), find_char(text, ']')) {
            (Some(a), Some(b)) => if a < b {
                Some(trim(split(text.subrange(a + 1, b), ',')[0]) + ": "@ + state_type(text))
            } else {
                None
            },
            _ => None,
        }
    } else {
        None
    }
}

/// Type and initial value of a state variable.
pub open spec fn state_type(text: Seq<char>) -> Seq<char> {
    if contains_sub(text, "<string[]>"@) {
        "[String] = []"@
    } else if contains_sub(text, "<string>"@) {
        "String = \"\""@
    } else if contains_sub(text, "<boolean>"@) || contains_sub(text, "false"@) || contains_sub(
        text,
        "true"@,
    ) {
        "Bool = false"@
    } else {
        "String = \"\""@
    }
}

/// One state variable for each lexical declaration with `useState` among the children of
/// `body` from child `from` on.
pub open spec fn state_declarations(body: SyntaxTree, from: int) -> Seq<Seq<char>>
    decreases body.children.len() - from,
{
    if 0 <= from < body.children.len() {
        let c = body.children[from];
        if c.kind == "lexical_declaration"@ && state_of(c.text) is Some {
            seq![state_of(c.text).unwrap()] + state_declarations(body, from + 1)
        } else {
            state_declarations(body, from + 1)
        }
    } else {
        seq![]
    }
}

/// The state variables as properties of the view.
pub open spec fn state_lines(states: Seq<Seq<char>>, ind: Seq<char>) -> Seq<char>
    decreases states.len(),
{
    if states.len() == 0 {
        seq![]
    } else {
        state_lines(states.drop_last(), ind) + ind + "    @State private var "@ + states.last()
            + "\n"@
    }
}

/// The body of the view: the views for the markup that the component returns in a stack,
/// or a plain text where it returns none.
pub open spec fn view_body(body: SyntaxTree, depth: nat) -> Seq<char> {
    let ind = indentation(depth);
    let jsx = returned_markup(body.text);
    if jsx.len() > 0 {
        ind + "VStack(spacing: 20) {\n"@ + swiftui(jsx, depth + 1) + ind + "}\n"@ + ind
            + ".padding()\n"@
    } else {
        ind + "Text(\"View\")\n"@
    }
}

/// The submit handler, for a component that declares an asynchronous handler.
pub open spec fn helper_functions(body: SyntaxTree, depth: nat) -> Seq<char> {
    let ind = indentation(depth);
    if contains_sub(body.text, "async function handleSubmit"@) || contains_sub(
        body.text,
        "async function handle"@,
    ) {
        "\n"@ + ind + "func handleSubmit() {\n"@ + ind + "    loading = true\n"@ + ind + "    \n"@
            + ind + "    // Server action (stubbed)\n"@ + ind + "    Task {\n"@ + ind
            + "        try? await Task.sleep(nanoseconds: 500_000_000)\n"@ + ind
            + "        tasks.append(input)\n"@ + ind + "        input = \"\"\n"@ + ind
            + "        loading = false\n"@ + ind + "    }\n"@ + ind + "}\n"@
    } else {
        seq![]
    }
}

/// What the body of a component contributes to its view: state, body and handler.
pub open spec fn view_members(body: SyntaxTree, depth: nat) -> Seq<char> {
    let ind = indentation(depth);
    state_lines(state_declarations(body, 0), ind) + "\n"@ + ind + "    var body: some View {\n"@
        + view_body(body, depth + 2) + ind + "    }\n"@ + helper_functions(body, depth + 1)
}

/// A component function as a view.
pub open spec fn swift_view(node: SyntaxTree, depth: nat) -> Seq<char> {
    let ind = indentation(depth);
    ind + "struct "@ + (match field_index(node.children, "name"@) {
        Some(i) => node.children[i].text,
        None => "UnnamedView"@,
    }) + ": View {\n"@ + (match field_index(node.children, "body"@) {
        Some(i) => view_members(node.children[i], depth),
        None => seq![],
    }) + ind + "}\n"@
}

/// The Swift text for the children of `node` from child `from` on; of the children of an
/// export only functions and lexical declarations count.
pub open spec fn swift_of_children(node: SyntaxTree, from: int, depth: nat, exported: bool) -> Seq<
    char,
>
    decreases node, 0nat, node.children.len() - from,
{
    if 0 <= from < node.children.len() {
        let c = node.children[from];
        (if !exported || c.kind == "function_declaration"@ || c.kind == "lexical_declaration"@ {
            swift_of(c, depth)
        } else {
            seq![]
        }) + swift_of_children(node, from + 1, depth, exported)
    } else {
        seq![]
    }
}

/// The Swift text for `node`: a function as a view, every other node as the text of its
/// children.
pub open spec fn swift_of(node: SyntaxTree, depth: nat) -> Seq<char>
    decreases node, 1nat, 0nat,
{
    if node.kind == "export_statement"@ {
        swift_of_children(node, 0, depth, true)
    } else if node.kind == "function_declaration"@ {
        swift_view(node, depth)
    } else {
        swift_of_children(node, 0, depth, false)
    }
}

/// The SwiftUI text of a TypeScript source: the imports, then the text of the tree.
pub open spec fn swift_of_typescript(root: SyntaxTree) -> Seq<char> {
    "import SwiftUI\nimport Combine\n\n"@ + swift_of(root, 0)
}

fn state_type_of(text: &Vec<char>) -> (r: Vec<char>)
    ensures
        r@ == state_type(text@),
{
    if contains(text, &chars_of("<string[]>")) {
        chars_of("[String] = []")
    } else if contains(text, &chars_of("<string>")) {
        chars_of("String = \"\"")
    } else if contains(text, &chars_of("<boolean>")) || contains(text, &chars_of("false"))
        || contains(text, &chars_of("true")) {
        chars_of("Bool = false")
    } else {
        chars_of("String = \"\"")
    }
}

fn state_of_text(text: &Vec<char>) -> (r: Option<Vec<char>>)
    ensures
        match r {
            Some(s) => state_of(text@) == Some(s@),
            None => state_of(text@) is None,
        },
{
    if !contains(text, &chars_of("useState")) {
        return None;
    }
    match find_char_in(text, '[') {
        Some(a) => match find_char_in(text, ']') {
            Some(b) => if a < b {
                let parts = split_of(&slice(text, a + 1, b), ',');
                assert(texts(parts@)[0] == parts@[0]@);
                let mut r = trim_of(&parts[0]);
                push_str(&mut r, ": ");
                push_all(&mut r, &state_type_of(text));
                Some(r)
            } else {
                None
            },
            None => None,
        },
        None => None,
    }
}

/// The state variables of the component body `body`.
fn extract_state_declarations(body: &SyntaxNode) -> (r: Vec<Vec<char>>)
    ensures
        texts(r@) == state_declarations(body@, 0),
{
    proof {
        lemma_children(*body);
    }
    let mut r: Vec<Vec<char>> = Vec::new();
    let mut i: usize = body.children.len();
    assert(texts(r@) == Seq::<Seq<char>>::empty());
    while i > 0
        invariant
            children_agree(*body),
            i <= body.children.len(),
            texts(r@) == state_declarations(body@, i as int),
        decreases i,
    {
        i -= 1;
        let c = &body.children[i];
        if c.is_kind("lexical_declaration") {
            if let Some(state) = state_of_text(&chars_of(c.text.as_str())) {
                let ghost before = r@;
                r.insert(0, state);
                assert(texts(r@) == seq![state@] + texts(before));
            }
        }
    }
    r
}

fn deeper(ind: &Vec<char>, Ghost(depth): Ghost<nat>) -> (r: Vec<char>)
    requires
        ind@ == indentation(depth),
    ensures
        r@ == indentation(depth + 1),
{
    let mut r: Vec<char> = Vec::new();
    push_all(&mut r, ind);
    push_str(&mut r, "    ");
    assert(Seq::<char>::empty() + ind@ == ind@);
    r
}

fn generate_view_body(body: &SyntaxNode, ind: &Vec<char>, Ghost(depth): Ghost<nat>) -> (r: Vec<
    char,
>)
    requires
        ind@ == indentation(depth),
    ensures
        r@ == view_body(body@, depth),
{
    proof {
        lemma_children(*body);
    }
    let jsx = find_jsx_element(&chars_of(body.text.as_str()));
    let mut r: Vec<char> = Vec::new();
    assert(Seq::<char>::empty() + ind@ == ind@);
    push_all(&mut r, ind);
    if jsx.len() > 0 {
        push_str(&mut r, "VStack(spacing: 20) {\n");
        let inner = deeper(ind, Ghost(depth));
        push_all(&mut r, &swiftui_at(&jsx, &inner, Ghost(depth + 1)));
        push_all(&mut r, ind);
        push_str(&mut r, "}\n");
        push_all(&mut r, ind);
        push_str(&mut r, ".padding()\n");
    } else {
        push_str(&mut r, "Text(\"View\")\n");
    }
    r
}

fn generate_helper_functions(body: &SyntaxNode, ind: &Vec<char>, Ghost(depth): Ghost<nat>) -> (r:
    Vec<char>)
    requires
        ind@ == indentation(depth),
    ensures
        r@ == helper_functions(body@, depth),
{
    proof {
        lemma_children(*body);
    }
    let text = chars_of(body.text.as_str());
    let mut r: Vec<char> = Vec::new();
    if contains(&text, &chars_of("async function handleSubmit")) || contains(
        &text,
        &chars_of("async function handle"),
    ) {
        push_str(&mut r, "\n");
        assert(r@ == "\n"@) by {
            assert(Seq::<char>::empty() + "\n"@ == "\n"@);
        }
        push_all(&mut r, ind);
        push_str(&mut r, "func handleSubmit() {\n");
        push_all(&mut r, ind);
        push_str(&mut r, "    loading = true\n");
        push_all(&mut r, ind);
        push_str(&mut r, "    \n");
        push_all(&mut r, ind);
        push_str(&mut r, "    // Server action (stubbed)\n");
        push_all(&mut r, ind);
        push_str(&mut r, "    Task {\n");
        push_all(&mut r, ind);
        push_str(&mut r, "        try? await Task.sleep(nanoseconds: 500_000_000)\n");
        push_all(&mut r, ind);
        push_str(&mut r, "        tasks.append(input)\n");
        push_all(&mut r, ind);
        push_str(&mut r, "        input = \"\"\n");
        push_all(&mut r, ind);
        push_str(&mut r, "        loading = false\n");
        push_all(&mut r, ind);
        push_str(&mut r, "    }\n");
        push_all(&mut r, ind);
        push_str(&mut r, "}\n");
    }
    r
}

fn state_lines_of(states: &Vec<Vec<char>>, ind: &Vec<char>) -> (r: Vec<char>)
    ensures
        r@ == state_lines(texts(states@), ind@),
{
    let mut r: Vec<char> = Vec::new();
    let mut i: usize = 0;
    let ghost all = texts(states@);
    assert(all.take(0) == Seq::<Seq<char>>::empty());
    while i < states.len()
        invariant
            i <= states.len(),
            all == texts(states@),
            r@ == state_lines(all.take(i as int), ind@),
        decreases states.len() - i,
    {
        proof {
            let next = all.take(i + 1);
            assert(next.drop_last() == all.take(i as int));
            assert(next.last() == states@[i as int]@);
        }
        push_all(&mut r, ind);
        push_str(&mut r, "    @State private var ");
        push_all(&mut r, &states[i]);
        push_str(&mut r, "\n");
        i += 1;
    }
    assert(all.take(states.len() as int) == all);
    r
}

fn view_members_of(body: &SyntaxNode, ind: &Vec<char>, Ghost(depth): Ghost<nat>) -> (r: Vec<char>)
    requires
        ind@ == indentation(depth),
    ensures
        r@ == view_members(body@, depth),
{
    proof {
        lemma_children(*body);
    }
    let mut r = state_lines_of(&extract_state_declarations(body), ind);
    push_str(&mut r, "\n");
    push_all(&mut r, ind);
    push_str(&mut r, "    var body: some View {\n");
    let one = deeper(ind, Ghost(depth));
    let two = deeper(&one, Ghost(depth + 1));
    push_all(&mut r, &generate_view_body(body, &two, Ghost(depth + 2)));
    push_all(&mut r, ind);
    push_str(&mut r, "    }\n");
    push_all(&mut r, &generate_helper_functions(body, &one, Ghost(depth + 1)));
    r
}

fn swift_view_of(node: &SyntaxNode, ind: &Vec<char>, Ghost(depth): Ghost<nat>) -> (r: Vec<char>)
    requires
        ind@ == indentation(depth),
    ensures
        r@ == swift_view(node@, depth),
{
    proof {
        lemma_children(*node);
    }
    let mut r: Vec<char> = Vec::new();
    assert(Seq::<char>::empty() + ind@ == ind@);
    push_all(&mut r, ind);
    push_str(&mut r, "struct ");
    match node.child_by_field_name("name") {
        Some(i) => push_str(&mut r, node.children[i].text.as_str()),
        None => push_str(&mut r, "UnnamedView"),
    }
    push_str(&mut r, ": View {\n");
    let mut members: Vec<char> = Vec::new();
    match node.child_by_field_name("body") {
        Some(i) => {
            members = view_members_of(&node.children[i], ind, Ghost(depth));
        },
        None => {},
    }
    push_all(&mut r, &members);
    push_all(&mut r, ind);
    push_str(&mut r, "}\n");
    r
}

fn swift_of_children_of(
    node: &SyntaxNode,
    ind: &Vec<char>,
    Ghost(depth): Ghost<nat>,
    exported: bool,
) -> (r: Vec<char>)
    requires
        ind@ == indentation(depth),
    ensures
        r@ == swift_of_children(node@, 0, depth, exported),
    decreases node, 0nat, 0nat,
{
    proof {
        lemma_children(*node);
    }
    let mut r: Vec<char> = Vec::new();
    let mut i: usize = node.children.len();
    while i > 0
        invariant
            children_agree(*node),
            i <= node.children.len(),
            ind@ == indentation(depth),
            r@ == swift_of_children(node@, i as int, depth, exported),
        decreases i,
    {
        i -= 1;
        let c = &node.children[i];
        let mut part: Vec<char> = Vec::new();
        if !exported || c.is_kind("function_declaration") || c.is_kind("lexical_declaration") {
            part = walk_ts_node(c, ind, Ghost(depth));
        }
        push_all(&mut part, &r);
        r = part;
    }
    r
}

fn walk_ts_node(node: &SyntaxNode, ind: &Vec<char>, Ghost(depth): Ghost<nat>) -> (r: Vec<char>)
    requires
        ind@ == indentation(depth),
    ensures
        r@ == swift_of(node@, depth),
    decreases node, 1nat, 0nat,
{
    proof {
        lemma_children(*node);
    }
    if node.is_kind("export_statement") {
        swift_of_children_of(node, ind, Ghost(depth), true)
    } else if node.is_kind("function_declaration") {
        swift_view_of(node, ind, Ghost(depth))
    } else {
        swift_of_children_of(node, ind, Ghost(depth), false)
    }
}

/// Translates a TypeScript component to SwiftUI along the syntax tree `root`.
pub fn typescript_to_swift(root: &SyntaxNode) -> (r: String)
    ensures
        r@ == swift_of_typescript(root@),
{
    proof {
        lemma_children(*root);
    }
    let mut out = chars_of("import SwiftUI\nimport Combine\n\n");
    let ind: Vec<char> = Vec::new();
    push_all(&mut out, &walk_ts_node(root, &ind, Ghost(0)));
    string_of(&out)
}

} // verus!
