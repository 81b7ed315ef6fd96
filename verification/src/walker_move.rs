//! From Move to Rust, by rewriting the text.
use vstd::prelude::*;
use crate::text::{chars_of, string_of, push_str};
use crate::split::replace;
use crate::pattern::{rewritten, rewrite, substitute};

verus! {

/// A module declaration with its address.
pub open spec fn module_pattern() -> Seq<char> {
    "module\\s+0x[0-9a-fA-F]+::(\\w+)\\s*\\{"@
}

/// A struct declaration with its abilities.
pub open spec fn struct_pattern() -> Seq<char> {
    "struct\\s+(\\w+)\\s+has\\s+\\w+(\\s*,\\s*\\w+)*\\s*\\{"@
}

/// An `acquires` clause.
pub open spec fn acquires_pattern() -> Seq<char> {
    "\\s+acquires\\s+\\w+"@
}

/// A read of global storage.
pub open spec fn borrow_pattern() -> Seq<char> {
    "borrow_global<(\\w+)>\\(([^)]+)\\)"@
}

/// A write access to global storage.
pub open spec fn borrow_mut_pattern() -> Seq<char> {
    "borrow_global_mut<(\\w+)>\\(([^)]+)\\)"@
}

/// The declarations of Move in Rust: modules without address, structs without abilities.
pub open spec fn move_declarations(text: Seq<char>) -> Seq<char> {
    rewritten(struct_pattern(), rewritten(module_pattern(), text, "mod ${1} {"@), "struct $1 {"@)
}

/// The keywords of Move in Rust: the address type, the address of a signer, and `fun`.
pub open spec fn move_keywords(text: Seq<char>) -> Seq<char> {
    replace(
        replace(
            replace(
                replace(text, ": address"@, ": &str"@),
                "signer::address_of("@,
                "signer::get_address("@,
            ),
            "public fun"@,
            "pub fn"@,
        ),
        "fun"@,
        "fn"@,
    )
}

/// The storage operations of Move as comments.
pub open spec fn move_storage(text: Seq<char>) -> Seq<char> {
    rewritten(
        borrow_mut_pattern(),
        rewritten(
            borrow_pattern(),
            replace(rewritten(acquires_pattern(), text, ""@), "move_to("@, "// storage.insert("@),
            "/* storage.get::<$1>($2) */"@,
        ),
        "/* storage.get_mut::<$1>($2) */"@,
    )
}

/// The heading of Rust text that was Move.
pub open spec fn move_heading() -> Seq<char> {
    "// Translated"@ + " from Move to Rust\n// Note: Move's resource model (move_to, borrow_global) requires\n// additional runtime support not directly expressible in Rust.\n// This translation provides structural equivalence.\n\n"@
}

/// The Rust text for the Move text `source`.
pub open spec fn rust_of_move(source: Seq<char>) -> Seq<char> {
    move_heading() + move_storage(move_keywords(move_declarations(source)))
}

/// Rewrites the keywords of Move.
pub fn move_keywords_of(text: &str) -> (r: String)
    ensures
        r@ == move_keywords(text@),
{
    let a = substitute(text, ": address", ": &str");
    let b = substitute(a.as_str(), "signer::address_of(", "signer::get_address(");
    let c = substitute(b.as_str(), "public fun", "pub fn");
    substitute(c.as_str(), "fun", "fn")
}

/// Puts the heading before the rewritten text.
pub fn with_move_heading(text: &str) -> (r: String)
    ensures
        r@ == move_heading() + text@,
{
    let mut out = chars_of("// Translated");
    push_str(
        &mut out,
        " from Move to Rust\n// Note: Move's resource model (move_to, borrow_global) requires\n// additional runtime support not directly expressible in Rust.\n// This translation provides structural equivalence.\n\n",
    );
    push_str(&mut out, text);
    string_of(&out)
}

/// Translates Move to Rust.
pub fn move_to_rust(source: &str) -> (r: String)
    ensures
        r@ == rust_of_move(source@),
{
    let a = rewrite("module\\s+0x[0-9a-fA-F]+::(\\w+)\\s*\\{", source, "mod ${1} {");
    let b = rewrite(
        "struct\\s+(\\w+)\\s+has\\s+\\w+(\\s*,\\s*\\w+)*\\s*\\{",
        a.as_str(),
        "struct $1 {",
    );
    let c = move_keywords_of(b.as_str());
    let d = rewrite("\\s+acquires\\s+\\w+", c.as_str(), "");
    let e = substitute(d.as_str(), "move_to(", "// storage.insert(");
    let f = rewrite(
        "borrow_global<(\\w+)>\\(([^)]+)\\)",
        e.as_str(),
        "/* storage.get::<$1>($2) */",
    );
    let g = rewrite(
        "borrow_global_mut<(\\w+)>\\(([^)]+)\\)",
        f.as_str(),
        "/* storage.get_mut::<$1>($2) */",
    );
    with_move_heading(g.as_str())
}

} // verus!
