//! Pieces of emitted text that several accessor functions share.

use crate::text::{concat_all, decimal, lemma_concat_all_step, push_decimal};
use vstd::prelude::*;

verus! {

// The fixed pieces of the emitted text. A number in a name is the depth of
// indentation in spaces.

pub const INDENT_8: &'static str = "        ";

pub const INDENT_12: &'static str = "            ";

pub const INDENT_16: &'static str = "                ";

pub const SWITCH_SYSTEM_INDEX: &'static str = "    switch (system_index) {\n";

pub const SWITCH_ARG_INDEX: &'static str = "switch (arg_index) {\n";

pub const SWITCH_QUERY_INDEX: &'static str = "switch (query_index) {\n";

pub const DEFAULT_ABORT_8: &'static str = "        default: std::abort();\n";

pub const DEFAULT_ABORT_12: &'static str = "            default: std::abort();\n";

pub const DEFAULT_ABORT_16: &'static str = "                default: std::abort();\n";

pub const CLOSE_4: &'static str = "    }\n";

pub const CLOSE_8: &'static str = "        }\n";

pub const CLOSE_12: &'static str = "            }\n";

pub const CLOSE_FUNCTION: &'static str = "}\n\n";

pub const ABORT_4: &'static str = "    std::abort();\n";

pub const FIRST_BRANCH: &'static str = "    if (std::strcmp(string_id, \"";

pub const NEXT_BRANCH: &'static str = "    } else if (std::strcmp(string_id, \"";

pub const BRANCH_THEN: &'static str = "\") == 0) {\n";

pub const ELSE_ABORT: &'static str = "    } else {\n        std::abort();\n    }\n";

pub const INDEX_PARAMETERS: &'static str =
    "    size_t system_index,\n    size_t arg_index,\n    size_t query_index\n) {\n";

/// The label of the `index`-th case of a switch, behind `indent`.
pub open spec fn case_label(indent: Seq<char>, index: nat) -> Seq<char> {
    indent + "case "@ + decimal(index) + ": "@
}

/// The line that opens the branch for the key `string_id` in a chain of
/// comparisons; the first branch opens the chain.
pub open spec fn branch_open(first: bool, string_id: Seq<char>) -> Seq<char> {
    (if first {
        FIRST_BRANCH@
    } else {
        NEXT_BRANCH@
    }) + string_id + BRANCH_THEN@
}

/// The word that the emitted text has for a truth value.
pub open spec fn bool_text(b: bool) -> Seq<char> {
    if b {
        "true"@
    } else {
        "false"@
    }
}

/// Appending the next piece to a text that holds a head and the pieces
/// before it gives the head and the pieces up to that one.
pub proof fn lemma_append_part(head: Seq<char>, parts: Seq<Seq<char>>, i: int)
    requires
        0 <= i < parts.len(),
    ensures
        head + concat_all(parts.take(i)) + parts[i] == head + concat_all(parts.take(i + 1)),
{
    lemma_concat_all_step(parts, i);
    assert(head + concat_all(parts.take(i)) + parts[i] =~= head + (concat_all(parts.take(i))
        + parts[i]));
}

/// Taking as many pieces as there are takes them all.
pub proof fn lemma_all_parts(parts: Seq<Seq<char>>)
    ensures
        parts.take(parts.len() as int) == parts,
{
    assert(parts.take(parts.len() as int) =~= parts);
}

/// The label of the `index`-th case of a switch, behind `indent`.
pub fn case_label_text(indent: &str, index: usize) -> (s: String)
    ensures
        s@ == case_label(indent@, index as nat),
{
    let mut s = String::from_str(indent);
    s.append("case ");
    push_decimal(&mut s, index);
    s.append(": ");
    s
}

/// The line that opens the branch for the key `string_id`.
pub fn branch_open_text(first: bool, string_id: &String) -> (s: String)
    ensures
        s@ == branch_open(first, string_id@),
{
    let mut s = if first {
        String::from_str(FIRST_BRANCH)
    } else {
        String::from_str(NEXT_BRANCH)
    };
    s.append(string_id.as_str());
    s.append(BRANCH_THEN);
    s
}

} // verus!
