//! Finding declarations in source text that holds no comments.
//!
//! A declaration is a keyword directly followed by a group in round
//! brackets. The group ends at the bracket that closes it, however many
//! bracketed groups stand inside. `TYPE_VALUE` and `TYPE_SINGLETON` declare
//! a type and hold its name; `ROUTINE` and `ROUTINE_ONCE` declare a routine
//! and hold its name, a comma and, behind this first comma, its parameter
//! list, which may be empty. A group without a comma declares no routine.

use crate::text::{
    char_is_space, contains_space, find_char, find_char_at, has_prefix_at, has_space, is_space,
    lemma_skip_spaces, skip_spaces, skip_spaces_at, starts_with_at, string_of_range, texts,
    trim_end, trim_end_at,
};
use vstd::prelude::*;

verus! {

/// The keyword that declares a type stored per entity.
pub open spec fn value_keyword() -> Seq<char> {
    "TYPE_VALUE"@
}

/// The keyword that declares a type stored once for the whole process.
pub open spec fn singleton_keyword() -> Seq<char> {
    "TYPE_SINGLETON"@
}

/// The keyword that declares a routine run in every cycle.
pub open spec fn routine_keyword() -> Seq<char> {
    "ROUTINE"@
}

/// The keyword that declares a routine run a single time.
pub open spec fn once_keyword() -> Seq<char> {
    "ROUTINE_ONCE"@
}

/// A routine as the source text declares it: its name and the text of
/// its parameter list.
#[derive(Debug, PartialEq, Eq)]
pub struct RoutineDecl {
    pub name: String,
    pub body: String,
}

/// What a routine declaration holds: its name and the text of its parameter
/// list.
pub struct RoutineDeclModel {
    pub name: Seq<char>,
    pub body: Seq<char>,
}

impl View for RoutineDecl {
    type V = RoutineDeclModel;

    open spec fn view(&self) -> RoutineDeclModel {
        RoutineDeclModel { name: self.name@, body: self.body@ }
    }
}

/// The models of `decls`, one by one.
pub open spec fn routine_models(decls: Seq<RoutineDecl>) -> Seq<RoutineDeclModel> {
    Seq::new(decls.len(), |i: int| decls[i]@)
}

/// Where the group closes that is open at `pos` with `depth` brackets
/// still to close (`s.len()` when it never closes).
pub open spec fn group_close(s: Seq<char>, pos: int, depth: nat) -> int
    decreases s.len() - pos,
{
    if pos < 0 || pos >= s.len() {
        s.len() as int
    } else if s[pos] == '(' {
        group_close(s, pos + 1, depth + 1)
    } else if s[pos] == ')' {
        if depth <= 1 {
            pos
        } else {
            group_close(s, pos + 1, (depth - 1) as nat)
        }
    } else {
        group_close(s, pos + 1, depth)
    }
}

/// Whether `keyword` and an opening bracket stand at `pos`.
pub open spec fn opens_at(s: Seq<char>, keyword: Seq<char>, pos: int) -> bool {
    has_prefix_at(s, pos, keyword) && pos + keyword.len() < s.len() && s[pos + keyword.len()]
        == '('
}

/// Where the name of a type starts in the group `open..close`.
pub open spec fn type_name_start(s: Seq<char>, open: int, close: int) -> int {
    skip_spaces(s, open)
}

/// Where the name of a type ends in the group `open..close`.
pub open spec fn type_name_end(s: Seq<char>, open: int, close: int) -> int {
    trim_end(s, skip_spaces(s, open), close)
}

/// Whether `keyword` declares a type at `pos`: its group closes and
/// holds, between white space, one word.
pub open spec fn declares_type_at(s: Seq<char>, keyword: Seq<char>, pos: int) -> bool {
    let open = pos + keyword.len() + 1;
    let close = group_close(s, open, 1);
    opens_at(s, keyword, pos) && close < s.len() && type_name_start(s, open, close)
        < type_name_end(s, open, close) && !has_space(
        s,
        type_name_start(s, open, close),
        type_name_end(s, open, close),
    )
}

/// The names of the types that `keyword` declares from `pos` on, in the
/// order of the text. The search goes on behind each declaration, and one
/// position further where none starts.
pub open spec fn type_names(s: Seq<char>, keyword: Seq<char>, pos: int) -> Seq<Seq<char>>
    decreases s.len() - pos,
{
    if pos < 0 || pos >= s.len() {
        Seq::<Seq<char>>::empty()
    } else if declares_type_at(s, keyword, pos) {
        let open = pos + keyword.len() + 1;
        let close = group_close(s, open, 1);
        proof {
            lemma_group_close(s, open, 1);
        }
        seq![s.subrange(type_name_start(s, open, close), type_name_end(s, open, close))]
            + type_names(s, keyword, close + 1)
    } else {
        type_names(s, keyword, pos + 1)
    }
}

/// Where the head of a routine's group ends: at the first comma at or
/// after `open`. The group `open..close` holds a comma exactly if this
/// place lies before `close`.
pub open spec fn head_end(s: Seq<char>, open: int, close: int) -> int {
    find_char(s, ',', open)
}

/// Where the word starts that ends at `end`, looking back no further
/// than `from`.
pub open spec fn word_start(s: Seq<char>, from: int, end: int) -> int
    decreases end - from,
{
    if 0 <= from < end <= s.len() && !is_space(s[end - 1]) {
        word_start(s, from, end - 1)
    } else {
        end
    }
}

/// Where the name of a routine ends in the group `open..close`.
pub open spec fn routine_name_end(s: Seq<char>, open: int, close: int) -> int {
    trim_end(s, open, head_end(s, open, close))
}

/// Where the name of a routine starts in the group `open..close`: it is
/// the last word of the head.
pub open spec fn routine_name_start(s: Seq<char>, open: int, close: int) -> int {
    word_start(s, open, routine_name_end(s, open, close))
}

/// The text of the parameter list in the group `open..close`: what stands
/// between the first comma and the closing bracket.
pub open spec fn routine_body(s: Seq<char>, open: int, close: int) -> Seq<char> {
    s.subrange(head_end(s, open, close) + 1, close)
}

/// Whether `keyword` declares a routine at `pos`: its group closes and
/// holds a comma, and the head before the comma holds a name.
pub open spec fn declares_routine_at(s: Seq<char>, keyword: Seq<char>, pos: int) -> bool {
    let open = pos + keyword.len() + 1;
    let close = group_close(s, open, 1);
    opens_at(s, keyword, pos) && close < s.len() && head_end(s, open, close) < close
        && routine_name_start(s, open, close) < routine_name_end(s, open, close)
}

/// The routines that `keyword` declares from `pos` on, in the order of the
/// text.
pub open spec fn routine_decls(s: Seq<char>, keyword: Seq<char>, pos: int) -> Seq<
    RoutineDeclModel,
>
    decreases s.len() - pos,
{
    if pos < 0 || pos >= s.len() {
        Seq::<RoutineDeclModel>::empty()
    } else if declares_routine_at(s, keyword, pos) {
        let open = pos + keyword.len() + 1;
        let close = group_close(s, open, 1);
        proof {
            lemma_group_close(s, open, 1);
        }
        seq![
            RoutineDeclModel {
                name: s.subrange(
                    routine_name_start(s, open, close),
                    routine_name_end(s, open, close),
                ),
                body: routine_body(s, open, close),
            },
        ] + routine_decls(s, keyword, close + 1)
    } else {
        routine_decls(s, keyword, pos + 1)
    }
}

/// A group that closes does so at a `)` at or behind its start, and the
/// brackets between balance.
pub proof fn lemma_group_close(s: Seq<char>, pos: int, depth: nat)
    requires
        0 <= pos <= s.len(),
    ensures
        pos <= group_close(s, pos, depth) <= s.len(),
        group_close(s, pos, depth) < s.len() ==> s[group_close(s, pos, depth)] == ')',
    decreases s.len() - pos,
{
    if pos < s.len() {
        if s[pos] == '(' {
            lemma_group_close(s, pos + 1, depth + 1);
        } else if s[pos] == ')' {
            if depth > 1 {
                lemma_group_close(s, pos + 1, (depth - 1) as nat);
            }
        } else {
            lemma_group_close(s, pos + 1, depth);
        }
    }
}

/// A group without brackets inside closes at the first `)`.
pub proof fn lemma_flat_group_closes_at_first_bracket(s: Seq<char>, pos: int, close: int)
    requires
        0 <= pos <= close < s.len(),
        s[close] == ')',
        forall|k: int| pos <= k < close ==> s[k] != '(' && s[k] != ')',
    ensures
        group_close(s, pos, 1) == close,
    decreases close - pos,
{
    if pos < close {
        lemma_flat_group_closes_at_first_bracket(s, pos + 1, close);
    }
}

/// Where `inner` brackets close before the rest do, the search for the
/// rest goes on behind that place.
pub proof fn lemma_group_close_in_steps(s: Seq<char>, pos: int, inner: nat, rest: nat)
    requires
        0 <= pos <= s.len(),
        inner >= 1,
        rest >= 1,
        group_close(s, pos, inner) < s.len(),
    ensures
        group_close(s, pos, inner + rest) == group_close(s, group_close(s, pos, inner) + 1, rest),
    decreases s.len() - pos,
{
    if pos < s.len() {
        if s[pos] == '(' {
            lemma_group_close_in_steps(s, pos + 1, inner + 1, rest);
        } else if s[pos] == ')' {
            if inner > 1 {
                lemma_group_close_in_steps(s, pos + 1, (inner - 1) as nat, rest);
            }
        } else {
            lemma_group_close_in_steps(s, pos + 1, inner, rest);
        }
    }
}

/// A group that stands inside another is passed over as a whole: the
/// outer group closes where it would if it started behind the inner one.
pub proof fn lemma_inner_group_is_passed_over(s: Seq<char>, pos: int, depth: nat)
    requires
        0 <= pos < s.len(),
        s[pos] == '(',
        depth >= 1,
        group_close(s, pos + 1, 1) < s.len(),
    ensures
        group_close(s, pos, depth) == group_close(s, group_close(s, pos + 1, 1) + 1, depth),
{
    lemma_group_close_in_steps(s, pos + 1, 1, depth);
}

fn group_close_at(v: &Vec<char>, open: usize) -> (close: usize)
    requires
        open <= v.len(),
    ensures
        close == group_close(v@, open as int, 1),
        open <= close <= v.len(),
{
    let mut inner: usize = 0;
    let mut i: usize = open;
    while i < v.len()
        invariant
            open <= i <= v.len(),
            inner <= i - open,
            group_close(v@, open as int, 1) == group_close(v@, i as int, (inner + 1) as nat),
        decreases v.len() - i,
    {
        if v[i] == '(' {
            inner += 1;
        } else if v[i] == ')' {
            if inner == 0 {
                return i;
            }
            inner -= 1;
        }
        i += 1;
    }
    i
}

fn word_start_at(v: &Vec<char>, from: usize, end: usize) -> (p: usize)
    requires
        from <= end <= v.len(),
    ensures
        p == word_start(v@, from as int, end as int),
        from <= p <= end,
{
    let mut i: usize = end;
    while from < i && !char_is_space(v[i - 1])
        invariant
            from <= i <= end <= v.len(),
            word_start(v@, from as int, end as int) == word_start(v@, from as int, i as int),
        decreases i,
    {
        i -= 1;
    }
    i
}

/// Whether `keyword` and an opening bracket stand at `pos`.
fn opens_group_at(v: &Vec<char>, keyword: &Vec<char>, pos: usize) -> (b: bool)
    requires
        pos <= v.len(),
    ensures
        b == opens_at(v@, keyword@, pos as int),
        b ==> pos + keyword.len() + 1 <= v.len(),
{
    starts_with_at(v, pos, keyword) && pos + keyword.len() < v.len() && v[pos + keyword.len()]
        == '('
}

/// The names of the types that `keyword` declares in `v`.
pub fn find_type_names(v: &Vec<char>, keyword: &Vec<char>) -> (names: Vec<String>)
    ensures
        texts(names@) == type_names(v@, keyword@, 0),
{
    let mut names: Vec<String> = Vec::new();
    let mut pos: usize = 0;
    while pos < v.len()
        invariant
            pos <= v.len(),
            type_names(v@, keyword@, 0) == texts(names@) + type_names(v@, keyword@, pos as int),
        decreases v.len() - pos,
    {
        let ghost before = texts(names@);
        let mut next: usize = pos + 1;
        if opens_group_at(v, keyword, pos) {
            let open = pos + keyword.len() + 1;
            let close = group_close_at(v, open);
            if close < v.len() {
                let start = skip_spaces_at(v, open);
                proof {
                    lemma_group_close(v@, open as int, 1);
                    lemma_skip_spaces(v@, open as int);
                    assert(start <= close) by {
                        if start > close {
                            assert(is_space(v@[close as int]));
                        }
                    }
                }
                let end = trim_end_at(v, start, close);
                if start < end && !contains_space(v, start, end) {
                    let name = string_of_range(v, start, end);
                    let ghost text = name@;
                    names.push(name);
                    next = close + 1;
                    assert(texts(names@) =~= before.push(text));
                    assert(before + (seq![text] + type_names(v@, keyword@, next as int))
                        =~= before.push(text) + type_names(v@, keyword@, next as int));
                }
            }
        }
        pos = next;
    }
    assert(texts(names@) + Seq::<Seq<char>>::empty() =~= texts(names@));
    names
}

/// The routines that `keyword` declares in `v`.
pub fn find_routines(v: &Vec<char>, keyword: &Vec<char>) -> (decls: Vec<RoutineDecl>)
    ensures
        routine_models(decls@) == routine_decls(v@, keyword@, 0),
{
    let mut decls: Vec<RoutineDecl> = Vec::new();
    let mut pos: usize = 0;
    while pos < v.len()
        invariant
            pos <= v.len(),
            routine_decls(v@, keyword@, 0) == routine_models(decls@) + routine_decls(
                v@,
                keyword@,
                pos as int,
            ),
        decreases v.len() - pos,
    {
        let ghost before = routine_models(decls@);
        let mut next: usize = pos + 1;
        if opens_group_at(v, keyword, pos) {
            let open = pos + keyword.len() + 1;
            let close = group_close_at(v, open);
            if close < v.len() {
                let comma = find_char_at(v, ',', open);
                if comma < close {
                    let end = trim_end_at(v, open, comma);
                    let start = word_start_at(v, open, end);
                    if start < end {
                        let name = string_of_range(v, start, end);
                        let body = string_of_range(v, comma + 1, close);
                        let decl = RoutineDecl { name, body };
                        let ghost model = decl@;
                        decls.push(decl);
                        next = close + 1;
                        assert(routine_models(decls@) =~= before.push(model));
                        assert(before + (seq![model] + routine_decls(v@, keyword@, next as int))
                            =~= before.push(model) + routine_decls(v@, keyword@, next as int));
                    }
                }
            }
        }
        pos = next;
    }
    assert(routine_models(decls@) + Seq::<RoutineDeclModel>::empty() =~= routine_models(decls@));
    decls
}

} // verus!
