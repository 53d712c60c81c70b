//! Reading the parameter list of a routine, and registering declarations
//! in the catalogue.
//!
//! A parameter list is a run of parameters separated by commas. A
//! parameter is an optional `const`, then either a type name followed by
//! `&`, or `Query<` followed by such groups, separated by commas, up to
//! `>`, and then the `&` of the query itself. `const` and `Query` count
//! only as whole words. White space between these parts carries no
//! meaning.

use crate::model::{
    input_models, query_input_models, ArgModel, ArgType, FfiGenerator, InputModel,
    QueryInputModel, StructInfo, StructModel, StructType, SystemInfo, SystemInputInfo,
    SystemModel,
};
use crate::text::{
    decimal, find_char, find_char_at, has_prefix_at, is_space, lemma_find_char, lemma_skip_spaces,
    push_decimal, skip_spaces, skip_spaces_at, starts_with_at, string_of_range, to_chars,
    trim_end, trim_end_at,
};
use vstd::prelude::*;

verus! {

/// Why a parameter list was refused.
#[derive(Debug, Clone, Copy, PartialEq, Eq, Structural)]
pub enum ParseError {
    /// A parameter is not taken by reference.
    MissingReference,
    /// A query lacks its opening or closing bracket, a separator or the
    /// reference marker of a component.
    MalformedQuery,
}

/// The qualifier that makes a parameter immutable.
pub open spec fn const_keyword() -> Seq<char> {
    "const"@
}

/// The word that opens a query.
pub open spec fn query_keyword() -> Seq<char> {
    "Query"@
}

/// The name given to a query parameter before it has one of its own.
pub open spec fn query_name_stem() -> Seq<char> {
    "query"@
}

/// The namespace of the types that the module declares.
pub open spec fn module_namespace() -> Seq<char> {
    "game_module::"@
}

/// Whether `c` can stand inside a word: a letter or digit of ASCII, or an
/// underscore.
pub open spec fn is_word_char(c: char) -> bool {
    let v = c as u32;
    (0x30 <= v && v <= 0x39) || (0x41 <= v && v <= 0x5A) || v == 0x5F || (0x61 <= v && v <= 0x7A)
}

/// Whether the word `keyword` stands at `pos`: its characters stand there,
/// and the word ends with them.
pub open spec fn has_keyword_at(s: Seq<char>, pos: int, keyword: Seq<char>) -> bool {
    has_prefix_at(s, pos, keyword) && !(pos + keyword.len() < s.len() && is_word_char(
        s[pos + keyword.len()],
    ))
}

/// The position behind an optional qualifier at `pos` and the white space
/// that follows it.
pub open spec fn after_qualifier(s: Seq<char>, pos: int) -> int {
    if has_keyword_at(s, pos, const_keyword()) {
        skip_spaces(s, pos + const_keyword().len())
    } else {
        pos
    }
}

/// Whether `c` ends the type name of a query component.
pub open spec fn is_group_stop(c: char) -> bool {
    c == '&' || c == ',' || c == '>'
}

/// The first position at or after `pos` that ends a type name inside a
/// query (`s.len()` when there is none).
pub open spec fn find_group_stop(s: Seq<char>, pos: int) -> int
    decreases s.len() - pos,
{
    if 0 <= pos < s.len() && !is_group_stop(s[pos]) {
        find_group_stop(s, pos + 1)
    } else {
        pos
    }
}

/// The components of a query whose first group starts at `pos`, and the
/// position of the closing bracket.
///
/// Each group is an optional qualifier, a type name and `&`; a comma goes
/// on to the next group and `>` ends the list. Anything else is refused.
pub open spec fn query_inputs(s: Seq<char>, pos: int) -> Result<
    (Seq<QueryInputModel>, int),
    ParseError,
>
    decreases s.len() - pos,
{
    let name = after_qualifier(s, pos);
    let stop = find_group_stop(s, name);
    if pos < 0 || pos > s.len() || stop >= s.len() || s[stop] != '&' {
        Err(ParseError::MalformedQuery)
    } else {
        let input = QueryInputModel {
            ident: s.subrange(name, trim_end(s, name, stop)),
            mutable: !has_keyword_at(s, pos, const_keyword()),
        };
        let next = skip_spaces(s, stop + 1);
        if next >= s.len() {
            Err(ParseError::MalformedQuery)
        } else if s[next] == '>' {
            Ok((seq![input], next))
        } else if s[next] == ',' {
            proof {
                lemma_after_qualifier(s, pos);
                lemma_find_group_stop(s, name);
                lemma_skip_spaces(s, stop + 1);
                lemma_skip_spaces(s, next + 1);
            }
            match query_inputs(s, skip_spaces(s, next + 1)) {
                Ok((rest, close)) => Ok((seq![input] + rest, close)),
                Err(e) => Err(e),
            }
        } else {
            Err(ParseError::MalformedQuery)
        }
    }
}

/// The parameter that starts at `pos`, as the `index`-th of its routine,
/// and the position from which the separating comma is looked for.
///
/// A parameter's own text ends at the next comma, and the reference marker
/// has to stand inside it. A query is named by its position, and its own
/// reference marker has to follow its closing bracket.
pub open spec fn parameter(s: Seq<char>, pos: int, index: nat) -> Result<
    (InputModel, int),
    ParseError,
> {
    let mutable = !has_keyword_at(s, pos, const_keyword());
    let name = after_qualifier(s, pos);
    let marker = find_char(s, '&', name);
    if marker >= s.len() {
        Err(ParseError::MissingReference)
    } else if has_keyword_at(s, name, query_keyword()) {
        let bracket = skip_spaces(s, name + query_keyword().len());
        if bracket >= s.len() || s[bracket] != '<' {
            Err(ParseError::MalformedQuery)
        } else {
            match query_inputs(s, skip_spaces(s, bracket + 1)) {
                Ok((inputs, close)) => {
                    let own = skip_spaces(s, close + 1);
                    if own >= s.len() || s[own] != '&' {
                        Err(ParseError::MissingReference)
                    } else {
                        Ok(
                            (
                                InputModel {
                                    ident: query_name_stem() + decimal(index),
                                    arg_type: ArgModel::Query { inputs },
                                    mutable,
                                },
                                own + 1,
                            ),
                        )
                    }
                },
                Err(e) => Err(e),
            }
        }
    } else if find_char(s, ',', name) < marker {
        Err(ParseError::MissingReference)
    } else {
        Ok(
            (
                InputModel {
                    ident: s.subrange(name, trim_end(s, name, marker)),
                    arg_type: ArgModel::DataAccessDirect,
                    mutable,
                },
                marker + 1,
            ),
        )
    }
}

/// The parameters from `pos` on, the first of them being the `index`-th
/// of its routine. The list ends where the text ends or no comma follows.
pub open spec fn parameters(s: Seq<char>, pos: int, index: nat) -> Result<
    Seq<InputModel>,
    ParseError,
>
    decreases s.len() - pos,
{
    if pos < 0 || pos >= s.len() {
        Ok(Seq::<InputModel>::empty())
    } else {
        match parameter(s, pos, index) {
            Err(e) => Err(e),
            Ok((input, resume)) => {
                let comma = find_char(s, ',', resume);
                if comma >= s.len() {
                    Ok(seq![input])
                } else {
                    proof {
                        lemma_parameter_moves_on(s, pos, index);
                        lemma_find_char(s, ',', resume);
                        lemma_skip_spaces(s, comma + 1);
                    }
                    match parameters(s, skip_spaces(s, comma + 1), index + 1) {
                        Ok(rest) => Ok(seq![input] + rest),
                        Err(e) => Err(e),
                    }
                }
            },
        }
    }
}

/// The parameters that the text `body` declares, or why it is refused.
pub open spec fn parse_inputs(body: Seq<char>) -> Result<Seq<InputModel>, ParseError> {
    parameters(body, skip_spaces(body, 0), 0)
}

/// `items` put in front of what `rest` holds; an error stays as it is.
pub open spec fn prepend<T>(items: Seq<T>, rest: Result<Seq<T>, ParseError>) -> Result<
    Seq<T>,
    ParseError,
> {
    match rest {
        Ok(tail) => Ok(items + tail),
        Err(e) => Err(e),
    }
}

/// `items` put in front of the components that `rest` holds; the closing
/// position and an error stay as they are.
pub open spec fn prepend_closed<T>(
    items: Seq<T>,
    rest: Result<(Seq<T>, int), ParseError>,
) -> Result<(Seq<T>, int), ParseError> {
    match rest {
        Ok((tail, close)) => Ok((items + tail, close)),
        Err(e) => Err(e),
    }
}

/// `find_group_stop` returns the first position at or after `pos` that ends
/// a type name, or the length.
pub proof fn lemma_find_group_stop(s: Seq<char>, pos: int)
    requires
        0 <= pos <= s.len(),
    ensures
        pos <= find_group_stop(s, pos) <= s.len(),
        forall|k: int| pos <= k < find_group_stop(s, pos) ==> !is_group_stop(#[trigger] s[k]),
        find_group_stop(s, pos) < s.len() ==> is_group_stop(s[find_group_stop(s, pos)]),
    decreases s.len() - pos,
{
    if pos < s.len() && !is_group_stop(s[pos]) {
        lemma_find_group_stop(s, pos + 1);
    }
}

/// The position behind a qualifier lies at or after the qualifier's own
/// and inside the text.
pub proof fn lemma_after_qualifier(s: Seq<char>, pos: int)
    requires
        0 <= pos <= s.len(),
    ensures
        pos <= after_qualifier(s, pos) <= s.len(),
{
    if has_keyword_at(s, pos, const_keyword()) {
        lemma_skip_spaces(s, pos + const_keyword().len());
    }
}

/// A parameter that is accepted ends behind where it starts, so a list is
/// read in steps that move forward.
pub proof fn lemma_parameter_moves_on(s: Seq<char>, pos: int, index: nat)
    requires
        0 <= pos <= s.len(),
    ensures
        parameter(s, pos, index) matches Ok((_, resume)) ==> pos < resume <= s.len(),
{
    lemma_after_qualifier(s, pos);
    let name = after_qualifier(s, pos);
    lemma_find_char(s, '&', name);
    if let Ok((_, resume)) = parameter(s, pos, index) {
        if has_keyword_at(s, name, query_keyword()) {
            let bracket = skip_spaces(s, name + query_keyword().len());
            lemma_skip_spaces(s, name + query_keyword().len());
            lemma_skip_spaces(s, bracket + 1);
            lemma_query_closes(s, skip_spaces(s, bracket + 1));
            let close = query_inputs(s, skip_spaces(s, bracket + 1))->Ok_0.1;
            lemma_skip_spaces(s, close + 1);
        }
    }
}

/// Every parameter that is accepted is taken by reference: it ends with
/// its reference marker, which for a query follows the closing bracket
/// and for a type stands before the next comma.
pub proof fn lemma_accepted_parameter_is_a_reference(s: Seq<char>, pos: int, index: nat)
    requires
        0 <= pos <= s.len(),
    ensures
        parameter(s, pos, index) matches Ok((input, resume)) ==> pos < resume <= s.len() && s[resume
            - 1] == '&' && (!(input.arg_type is Query) ==> find_char(
            s,
            ',',
            after_qualifier(s, pos),
        ) >= resume),
{
    lemma_parameter_moves_on(s, pos, index);
    lemma_after_qualifier(s, pos);
    lemma_find_char(s, '&', after_qualifier(s, pos));
    lemma_find_char(s, ',', after_qualifier(s, pos));
}

/// A query that is accepted closes at a `>` that lies behind its start.
pub proof fn lemma_query_closes(s: Seq<char>, pos: int)
    requires
        0 <= pos <= s.len(),
    ensures
        query_inputs(s, pos) matches Ok((inputs, close)) ==> pos < close < s.len() && s[close]
            == '>' && inputs.len() >= 1,
    decreases s.len() - pos,
{
    if let Ok((_, close)) = query_inputs(s, pos) {
        let name = after_qualifier(s, pos);
        let stop = find_group_stop(s, name);
        lemma_after_qualifier(s, pos);
        lemma_find_group_stop(s, name);
        let next = skip_spaces(s, stop + 1);
        lemma_skip_spaces(s, stop + 1);
        if s[next] == ',' {
            let group = skip_spaces(s, next + 1);
            lemma_skip_spaces(s, next + 1);
            lemma_query_closes(s, group);
        }
    }
}

/// A parameter list that holds white space alone, or nothing, declares no
/// parameters.
pub proof fn lemma_blank_list_is_empty(body: Seq<char>)
    requires
        forall|k: int| 0 <= k < body.len() ==> is_space(#[trigger] body[k]),
    ensures
        parse_inputs(body) == Ok::<Seq<InputModel>, ParseError>(Seq::<InputModel>::empty()),
{
    lemma_skip_spaces(body, 0);
}

impl ParseError {
    /// The words that name this error.
    pub fn message(&self) -> (text: String)
        ensures
            text@ == (match *self {
                ParseError::MissingReference => "all parameters must be taken as references"@,
                ParseError::MalformedQuery => "malformed query"@,
            }),
    {
        match self {
            ParseError::MissingReference => String::from_str(
                "all parameters must be taken as references",
            ),
            ParseError::MalformedQuery => String::from_str("malformed query"),
        }
    }
}

/// Whether `c` can stand inside a word.
pub fn char_is_word(c: char) -> (b: bool)
    ensures
        b == is_word_char(c),
{
    let v: u32 = c as u32;
    (0x30 <= v && v <= 0x39) || (0x41 <= v && v <= 0x5A) || v == 0x5F || (0x61 <= v && v <= 0x7A)
}

/// Whether the word `keyword` stands at `pos`.
fn keyword_at(v: &Vec<char>, pos: usize, keyword: &Vec<char>) -> (b: bool)
    requires
        pos <= v.len(),
    ensures
        b == has_keyword_at(v@, pos as int, keyword@),
        b ==> pos + keyword.len() <= v.len(),
{
    if !starts_with_at(v, pos, keyword) {
        return false;
    }
    let end = pos + keyword.len();
    !(end < v.len() && char_is_word(v[end]))
}

/// Skips an optional qualifier at `pos`; returns the position behind it
/// and whether the parameter stays mutable.
fn read_qualifier(v: &Vec<char>, pos: usize) -> (r: (usize, bool))
    requires
        pos <= v.len(),
    ensures
        r.0 == after_qualifier(v@, pos as int),
        r.1 == !has_keyword_at(v@, pos as int, const_keyword()),
        pos <= r.0 <= v.len(),
{
    let keyword = to_chars("const");
    if keyword_at(v, pos, &keyword) {
        (skip_spaces_at(v, pos + keyword.len()), false)
    } else {
        (pos, true)
    }
}

fn find_group_stop_at(v: &Vec<char>, pos: usize) -> (p: usize)
    requires
        pos <= v.len(),
    ensures
        p == find_group_stop(v@, pos as int),
        pos <= p <= v.len(),
{
    let mut i: usize = pos;
    while i < v.len() && !(v[i] == '&' || v[i] == ',' || v[i] == '>')
        invariant
            pos <= i <= v.len(),
            find_group_stop(v@, pos as int) == find_group_stop(v@, i as int),
        decreases v.len() - i,
    {
        i += 1;
    }
    i
}

/// Reads the components of a query from `start` up to its closing bracket.
fn read_query_inputs(v: &Vec<char>, start: usize) -> (r: Result<
    (Vec<SystemInputInfo>, usize),
    ParseError,
>)
    requires
        start <= v.len(),
    ensures
        match query_inputs(v@, start as int) {
            Ok((inputs, close)) => r matches Ok((found, at)) && query_input_models(found@)
                == inputs && at == close && at < v.len() && (forall|i: int|
                0 <= i < found@.len() ==> (#[trigger] found@[i]).arg_type is DataAccessDirect),
            Err(e) => r == Err::<(Vec<SystemInputInfo>, usize), ParseError>(e),
        },
{
    let mut found: Vec<SystemInputInfo> = Vec::new();
    let mut pos: usize = start;
    loop
        invariant
            start <= pos <= v.len(),
            query_inputs(v@, start as int) == prepend_closed(
                query_input_models(found@),
                query_inputs(v@, pos as int),
            ),
            forall|i: int|
                0 <= i < found@.len() ==> (#[trigger] found@[i]).arg_type is DataAccessDirect,
        decreases v.len() - pos,
    {
        let (name, mutable) = read_qualifier(v, pos);
        let stop = find_group_stop_at(v, name);
        if stop >= v.len() || v[stop] != '&' {
            return Err(ParseError::MalformedQuery);
        }
        let end = trim_end_at(v, name, stop);
        let ident = string_of_range(v, name, end);
        let next = skip_spaces_at(v, stop + 1);
        if next >= v.len() {
            return Err(ParseError::MalformedQuery);
        }
        let ghost before = query_input_models(found@);
        let ghost input = QueryInputModel { ident: ident@, mutable };
        found.push(SystemInputInfo { ident, arg_type: ArgType::DataAccessDirect, mutable });
        assert(query_input_models(found@) =~= before.push(input));
        if v[next] == '>' {
            assert(before.push(input) =~= before + seq![input]);
            return Ok((found, next));
        } else if v[next] == ',' {
            let group = skip_spaces_at(v, next + 1);
            proof {
                let rest = query_inputs(v@, group as int);
                assert(query_inputs(v@, pos as int) == prepend_closed(seq![input], rest));
                if let Ok((tail, close)) = rest {
                    assert(before + (seq![input] + tail) =~= before.push(input) + tail);
                }
            }
            pos = group;
        } else {
            return Err(ParseError::MalformedQuery);
        }
    }
}

/// Reads the parameter at `pos`, the `index`-th of its routine.
fn read_parameter(v: &Vec<char>, pos: usize, index: usize) -> (r: Result<
    (SystemInputInfo, usize),
    ParseError,
>)
    requires
        pos <= v.len(),
    ensures
        match parameter(v@, pos as int, index as nat) {
            Ok((input, resume)) => r matches Ok((found, at)) && found@ == input && at == resume
                && pos < at <= v.len() && found.well_formed(),
            Err(e) => r == Err::<(SystemInputInfo, usize), ParseError>(e),
        },
{
    proof {
        lemma_parameter_moves_on(v@, pos as int, index as nat);
    }
    let (name, mutable) = read_qualifier(v, pos);
    let marker = find_char_at(v, '&', name);
    if marker >= v.len() {
        return Err(ParseError::MissingReference);
    }
    let keyword = to_chars("Query");
    if keyword_at(v, name, &keyword) {
        let bracket = skip_spaces_at(v, name + keyword.len());
        if bracket >= v.len() || v[bracket] != '<' {
            return Err(ParseError::MalformedQuery);
        }
        let first = skip_spaces_at(v, bracket + 1);
        match read_query_inputs(v, first) {
            Ok((inputs, close)) => {
                let own = skip_spaces_at(v, close + 1);
                if own >= v.len() || v[own] != '&' {
                    return Err(ParseError::MissingReference);
                }
                let mut ident = String::from_str("query");
                push_decimal(&mut ident, index);
                Ok((SystemInputInfo { ident, arg_type: ArgType::Query { inputs }, mutable }, own + 1))
            },
            Err(e) => Err(e),
        }
    } else {
        let comma = find_char_at(v, ',', name);
        if comma < marker {
            return Err(ParseError::MissingReference);
        }
        let end = trim_end_at(v, name, marker);
        let ident = string_of_range(v, name, end);
        Ok((SystemInputInfo { ident, arg_type: ArgType::DataAccessDirect, mutable }, marker + 1))
    }
}

/// Reads the parameter list `body` of a routine.
pub fn read_parameters(body: &str) -> (r: Result<Vec<SystemInputInfo>, ParseError>)
    ensures
        match parse_inputs(body@) {
            Ok(inputs) => r matches Ok(found) && input_models(found@) == inputs && (forall|i: int|
                0 <= i < found@.len() ==> (#[trigger] found@[i]).well_formed()),
            Err(e) => r == Err::<Vec<SystemInputInfo>, ParseError>(e),
        },
{
    let v = to_chars(body);
    let mut found: Vec<SystemInputInfo> = Vec::new();
    let mut pos: usize = skip_spaces_at(&v, 0);
    while pos < v.len()
        invariant
            pos <= v.len(),
            v@ == body@,
            parse_inputs(body@) == prepend(
                input_models(found@),
                parameters(v@, pos as int, found@.len()),
            ),
            forall|i: int| 0 <= i < found@.len() ==> (#[trigger] found@[i]).well_formed(),
        decreases v.len() - pos,
    {
        let ghost before = input_models(found@);
        let ghost index = found@.len();
        match read_parameter(&v, pos, found.len()) {
            Err(e) => {
                return Err(e);
            },
            Ok((input, resume)) => {
                let ghost model = input@;
                found.push(input);
                assert(input_models(found@) =~= before.push(model));
                let comma = find_char_at(&v, ',', resume);
                if comma >= v.len() {
                    assert(before.push(model) =~= before + seq![model]);
                    return Ok(found);
                }
                let next = skip_spaces_at(&v, comma + 1);
                proof {
                    let rest = parameters(v@, next as int, index + 1);
                    assert(parameters(v@, pos as int, index) == prepend(seq![model], rest));
                    if let Ok(tail) = rest {
                        assert(before + (seq![model] + tail) =~= before.push(model) + tail);
                    }
                }
                pos = next;
            },
        }
    }
    assert(input_models(found@) + Seq::<InputModel>::empty() =~= input_models(found@));
    Ok(found)
}

/// Registers the routine `ident` with the parameters that `body` declares.
///
/// The routine is put behind the routines that stand, which stay as they
/// are, as do the types; what its queries list is accessed directly. A
/// parameter list that is refused leaves the catalogue as it was.
pub fn parse_system(info: &mut FfiGenerator, ident: &str, body: &str, is_once: bool) -> (r: Result<
    (),
    ParseError,
>)
    ensures
        match parse_inputs(body@) {
            Ok(inputs) => {
                &&& r is Ok
                &&& final(info).systems@.len() == old(info).systems@.len() + 1
                &&& final(info).systems@.drop_last() == old(info).systems@
                &&& final(info).systems@.last()@ == (SystemModel { ident: ident@, is_once, inputs })
                &&& final(info).systems@.last().well_formed()
                &&& final(info).structs@ == old(info).structs@
                &&& final(info)@.systems == old(info)@.systems.push(
                    SystemModel { ident: ident@, is_once, inputs },
                )
                &&& final(info)@.structs == old(info)@.structs
                &&& old(info).well_formed() ==> final(info).well_formed()
            },
            Err(e) => r == Err::<(), ParseError>(e) && *final(info) == *old(info),
        },
{
    match read_parameters(body) {
        Err(e) => Err(e),
        Ok(inputs) => {
            let system = SystemInfo { ident: String::from_str(ident), is_once, inputs };
            info.systems.push(system);
            assert(info.systems@.drop_last() =~= old(info).systems@);
            assert(info@.systems =~= old(info)@.systems.push(system@));
            Ok(())
        },
    }
}

/// Registers the type `ident`, stored per entity or, with `is_resource`,
/// once for the whole process. Its key is the name in the module's
/// namespace. The type is put behind the types that stand, which stay as
/// they are, as do the routines.
pub fn parse_struct(info: &mut FfiGenerator, ident: &str, is_resource: bool)
    ensures
        final(info)@.structs == old(info)@.structs.push(
            StructModel {
                ident: ident@,
                string_id: module_namespace() + ident@,
                struct_type: if is_resource {
                    StructType::Resource
                } else {
                    StructType::Component
                },
            },
        ),
        final(info).structs@.len() == old(info).structs@.len() + 1,
        final(info).structs@.drop_last() == old(info).structs@,
        final(info).systems@ == old(info).systems@,
        final(info)@.systems == old(info)@.systems,
        old(info).well_formed() ==> final(info).well_formed(),
{
    let struct_type = if is_resource {
        StructType::Resource
    } else {
        StructType::Component
    };
    let mut string_id = String::from_str("game_module::");
    string_id.append(ident);
    let entry = StructInfo { ident: String::from_str(ident), string_id, struct_type };
    info.structs.push(entry);
    assert(info.structs@.drop_last() =~= old(info).structs@);
    assert(info@.structs =~= old(info)@.structs.push(entry@));
}

} // verus!
