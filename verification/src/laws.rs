//! What holds of every generation run: it is a function of its input, and
//! the counts that the emitted catalogue reports are those of the
//! declarations in the text.

use crate::emit::{case_label, INDENT_12, INDENT_8};
use crate::emit_systems::{
    arg_case, arg_cases, argument, arguments, system_case, systems_len_text, ArgAccessor,
    SystemAccessor, LEN_HEAD, LEN_TAIL,
};
use crate::extract::{once_keyword, routine_decls, routine_keyword, RoutineDeclModel};
use crate::generator::{catalogue, generated, systems_of, yields};
use crate::model::{InputModel, StructModel, SystemModel};
use crate::registry::host_namespace;
use crate::registry_laws::{declares, lemma_undeclared_is_host_provided};
use crate::signature::{parse_inputs, ParseError};
use crate::text::decimal;
use vstd::prelude::*;

verus! {

/// The routines that the text `s` declares, in the order in which the
/// catalogue lists them.
pub open spec fn declared_routines(s: Seq<char>) -> Seq<RoutineDeclModel> {
    routine_decls(s, once_keyword(), 0) + routine_decls(s, routine_keyword(), 0)
}

/// Generation is a function of the source text, the header and the host's
/// types: two runs on the same input end alike, and where they emit text,
/// they emit the same characters and so the same bytes.
pub proof fn lemma_generation_is_deterministic(
    text: Seq<char>,
    header: Seq<char>,
    host: Seq<Seq<char>>,
    first: Result<String, ParseError>,
    second: Result<String, ParseError>,
)
    requires
        yields(generated(text, header, host), first),
        yields(generated(text, header, host), second),
    ensures
        match (first, second) {
            (Ok(a), Ok(b)) => a@ == b@ && vstd::utf8::encode_utf8(a@) == vstd::utf8::encode_utf8(
                b@,
            ),
            (Err(e), Err(f)) => e == f,
            _ => false,
        },
{
}

/// Declarations that are all accepted give one routine each, in their
/// order, with the name of the declaration and the parameters of its list.
pub proof fn lemma_systems_of(decls: Seq<RoutineDeclModel>, is_once: bool)
    requires
        systems_of(decls, is_once) is Ok,
    ensures
        systems_of(decls, is_once)->Ok_0.len() == decls.len(),
        forall|i: int|
            0 <= i < decls.len() ==> parse_inputs((#[trigger] decls[i]).body) is Ok && systems_of(
                decls,
                is_once,
            )->Ok_0[i] == (SystemModel {
                ident: decls[i].name,
                is_once,
                inputs: parse_inputs(decls[i].body)->Ok_0,
            }),
    decreases decls.len(),
{
    if decls.len() > 0 {
        lemma_systems_of(decls.drop_last(), is_once);
        assert forall|i: int| 0 <= i < decls.len() implies parse_inputs(
            (#[trigger] decls[i]).body,
        ) is Ok && systems_of(decls, is_once)->Ok_0[i] == (SystemModel {
            ident: decls[i].name,
            is_once,
            inputs: parse_inputs(decls[i].body)->Ok_0,
        }) by {
            if i < decls.len() - 1 {
                assert(decls.drop_last()[i] == decls[i]);
            }
        }
    }
}

/// The emitted count of routines is the number of routine declarations
/// in the text, and the emitted count of arguments of each routine is
/// the number of parameters that its declaration lists.
pub proof fn lemma_counts_round_trip(s: Seq<char>)
    requires
        catalogue(s) is Ok,
    ensures
        catalogue(s)->Ok_0.systems.len() == declared_routines(s).len(),
        systems_len_text(catalogue(s)->Ok_0.systems) == LEN_HEAD@ + decimal(
            declared_routines(s).len(),
        ) + LEN_TAIL@,
        forall|i: int|
            0 <= i < declared_routines(s).len() ==> parse_inputs(
                (#[trigger] declared_routines(s)[i]).body,
            ) is Ok && catalogue(s)->Ok_0.systems[i].ident == declared_routines(s)[i].name
                && catalogue(s)->Ok_0.systems[i].inputs == parse_inputs(
                declared_routines(s)[i].body,
            )->Ok_0 && system_case(SystemAccessor::ArgsLen, catalogue(s)->Ok_0.systems, i)
                == case_label(INDENT_8@, i as nat) + "return "@ + decimal(
                parse_inputs(declared_routines(s)[i].body)->Ok_0.len(),
            ) + ";\n"@,
{
    let once = routine_decls(s, once_keyword(), 0);
    let cyclic = routine_decls(s, routine_keyword(), 0);
    lemma_systems_of(once, true);
    lemma_systems_of(cyclic, false);
    let systems = catalogue(s)->Ok_0.systems;
    let decls = declared_routines(s);
    assert forall|i: int| 0 <= i < decls.len() implies parse_inputs((#[trigger] decls[i]).body)
        is Ok && systems[i].ident == decls[i].name && systems[i].inputs == parse_inputs(
        decls[i].body,
    )->Ok_0 by {
        if i < once.len() {
            assert(decls[i] == once[i]);
        } else {
            assert(decls[i] == cyclic[i - once.len()]);
        }
    }
}

/// Positions are kept: the wrapper of a routine passes slot `j` of the
/// argument array as its `j`-th argument, cast as the `j`-th declared
/// parameter asks, and the `j`-th entry of every accessor speaks of that
/// same parameter.
pub proof fn lemma_argument_positions(
    which: ArgAccessor,
    structs: Seq<StructModel>,
    system: SystemModel,
    j: int,
)
    requires
        0 <= j < system.inputs.len(),
    ensures
        arguments(system.inputs).len() == system.inputs.len(),
        arguments(system.inputs)[j] == argument(system.inputs, j),
        arg_cases(which, structs, system).len() == system.inputs.len(),
        arg_cases(which, structs, system)[j] == arg_case(which, structs, system.inputs[j], j),
{
}

/// A parameter whose type is not declared is reported under the name of
/// its type in the host's namespace.
pub proof fn lemma_undeclared_parameter_key(structs: Seq<StructModel>, input: InputModel, j: int)
    requires
        !(input.arg_type is Query),
        !declares(structs, input.ident),
    ensures
        arg_case(ArgAccessor::Component, structs, input, j) == case_label(INDENT_12@, j as nat)
            + "return \""@ + (host_namespace() + input.ident) + "\";\n"@,
{
    lemma_undeclared_is_host_provided(structs, input.ident);
}

} // verus!
