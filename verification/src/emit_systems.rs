//! The emitted routine catalogue: the wrappers that unpack the untyped
//! argument array, the count of routines, and the accessors that are
//! addressed by routine, argument and query component.

use crate::emit::{
    bool_text, case_label, case_label_text, lemma_all_parts, lemma_append_part, CLOSE_12, CLOSE_4,
    CLOSE_8, CLOSE_FUNCTION, DEFAULT_ABORT_12, DEFAULT_ABORT_16, DEFAULT_ABORT_8, INDENT_12,
    INDENT_16, INDENT_8, INDEX_PARAMETERS, SWITCH_ARG_INDEX, SWITCH_QUERY_INDEX,
    SWITCH_SYSTEM_INDEX,
};
use crate::model::{
    query_input_models, ArgModel, ArgType, FfiGenerator, InputModel, QueryInputModel, StructModel,
    SystemInfo, SystemInputInfo, SystemModel,
};
use crate::registry::string_id_of;
use crate::text::{concat_all, decimal, lemma_concat_all_step, push_decimal};
use vstd::prelude::*;

verus! {

// The signatures that open the functions of the routine catalogue.

pub const LEN_HEAD: &'static str = "extern \"C\" size_t routines_len() {\n    return ";

pub const LEN_TAIL: &'static str = ";\n}\n\n";

pub const IS_ONCE_HEAD: &'static str = "extern \"C\" bool system_is_once(size_t system_index) {\n";

pub const FN_HEAD: &'static str =
    "typedef int32_t (*system_fn_ptr)(void**);\n\nextern \"C\" system_fn_ptr system_fn(size_t system_index) {\n";

pub const ARGS_LEN_HEAD: &'static str =
    "extern \"C\" size_t system_args_len(size_t system_index) {\n";

pub const ARG_TYPE_HEAD: &'static str =
    "extern \"C\" ArgType system_arg_type(size_t system_index, size_t arg_index) {\n";

pub const ARG_COMPONENT_HEAD: &'static str =
    "extern \"C\" const char* system_arg_component(size_t system_index, size_t arg_index) {\n";

pub const QUERY_LEN_HEAD: &'static str =
    "extern \"C\" size_t system_query_args_len(size_t system_index, size_t arg_index) {\n";

pub const QUERY_TYPE_HEAD: &'static str = "extern \"C\" QueryType system_query_arg_type(\n";

pub const QUERY_COMPONENT_HEAD: &'static str =
    "extern \"C\" const char* system_query_arg_component(\n";

pub const WRAPPER_TAIL: &'static str = "    );\n\n    return 0;\n}\n\n";

/// What an accessor that is addressed by routine alone tells of it.
#[derive(Debug, Clone, Copy, PartialEq, Eq, Structural)]
pub enum SystemAccessor {
    /// Whether the routine runs a single time.
    IsOnce,
    /// The wrapper to call the routine through.
    Function,
    /// The number of its arguments.
    ArgsLen,
}

/// What an accessor that is addressed by routine and argument tells.
#[derive(Debug, Clone, Copy, PartialEq, Eq, Structural)]
pub enum ArgAccessor {
    /// The kind of the argument.
    Kind,
    /// The key of the type of an argument that is no query.
    Component,
    /// The number of components of a query.
    QueryLen,
    /// The kind of each component of a query.
    QueryKind,
    /// The key of the type of each component of a query.
    QueryComponent,
}

/// The qualifier in front of the type of an argument that is not mutable.
pub open spec fn const_prefix(mutable: bool) -> Seq<char> {
    if mutable {
        Seq::<char>::empty()
    } else {
        "const "@
    }
}

/// The `k`-th component in the type of a query; a separator follows all
/// but the last.
pub open spec fn query_component(inputs: Seq<QueryInputModel>, k: int) -> Seq<char> {
    const_prefix(inputs[k].mutable) + inputs[k].ident + (if k + 1 < inputs.len() {
        "&, "@
    } else {
        Seq::<char>::empty()
    })
}

/// The components in the type of a query, one piece each.
pub open spec fn query_components(inputs: Seq<QueryInputModel>) -> Seq<Seq<char>> {
    Seq::new(inputs.len(), |k: int| query_component(inputs, k))
}

/// The type that an argument slot is cast to: the named type, or the
/// query over references to its components.
pub open spec fn argument_type(input: InputModel) -> Seq<char> {
    match input.arg_type {
        ArgModel::Query { inputs } => "Query<"@ + concat_all(query_components(inputs)) + "&>"@,
        _ => input.ident,
    }
}

/// The `i`-th argument of the call inside a wrapper: slot `i` of the
/// array, cast to the argument's type with its mutability.
pub open spec fn argument(inputs: Seq<InputModel>, i: int) -> Seq<char> {
    "        *static_cast<"@ + const_prefix(inputs[i].mutable) + argument_type(inputs[i])
        + "*>(input["@ + decimal(i as nat) + "])"@ + (if i + 1 < inputs.len() {
        ",\n"@
    } else {
        "\n"@
    })
}

/// The arguments of the call inside a wrapper, one piece each.
pub open spec fn arguments(inputs: Seq<InputModel>) -> Seq<Seq<char>> {
    Seq::new(inputs.len(), |i: int| argument(inputs, i))
}

/// The wrapper of one routine: a function of uniform signature that calls
/// the routine with the slots of the array in declaration order.
pub open spec fn wrapper(system: SystemModel) -> Seq<char> {
    "int32_t "@ + system.ident + "_ffi(void** input) {\n    "@ + system.ident + "(\n"@
        + concat_all(arguments(system.inputs)) + WRAPPER_TAIL@
}

/// The wrappers of `systems`, one piece each.
pub open spec fn wrappers(systems: Seq<SystemModel>) -> Seq<Seq<char>> {
    Seq::new(systems.len(), |i: int| wrapper(systems[i]))
}

/// The wrappers of all routines, in the order of declaration.
pub open spec fn system_fn_ffi_text(systems: Seq<SystemModel>) -> Seq<char> {
    concat_all(wrappers(systems))
}

/// The function that gives the number of routines.
pub open spec fn systems_len_text(systems: Seq<SystemModel>) -> Seq<char> {
    LEN_HEAD@ + decimal(systems.len()) + LEN_TAIL@
}

/// The signature that opens the accessor `which`.
pub open spec fn system_accessor_head(which: SystemAccessor) -> Seq<char> {
    match which {
        SystemAccessor::IsOnce => IS_ONCE_HEAD@,
        SystemAccessor::Function => FN_HEAD@,
        SystemAccessor::ArgsLen => ARGS_LEN_HEAD@,
    }
}

/// What the case of a routine returns.
pub open spec fn system_answer(which: SystemAccessor, system: SystemModel) -> Seq<char> {
    match which {
        SystemAccessor::IsOnce => bool_text(system.is_once),
        SystemAccessor::Function => system.ident + "_ffi"@,
        SystemAccessor::ArgsLen => decimal(system.inputs.len()),
    }
}

/// The case of the `i`-th routine in the accessor `which`.
pub open spec fn system_case(which: SystemAccessor, systems: Seq<SystemModel>, i: int) -> Seq<
    char,
> {
    case_label(INDENT_8@, i as nat) + "return "@ + system_answer(which, systems[i]) + ";\n"@
}

/// The cases of the accessor `which`, one for each routine.
pub open spec fn system_cases(which: SystemAccessor, systems: Seq<SystemModel>) -> Seq<Seq<char>> {
    Seq::new(systems.len(), |i: int| system_case(which, systems, i))
}

/// An accessor addressed by routine: one case for each routine, by its
/// index in the order of declaration, and an abort for any other index.
pub open spec fn system_accessor_text(which: SystemAccessor, systems: Seq<SystemModel>) -> Seq<
    char,
> {
    system_accessor_head(which) + SWITCH_SYSTEM_INDEX@ + concat_all(system_cases(which, systems))
        + DEFAULT_ABORT_8@ + CLOSE_4@ + CLOSE_FUNCTION@
}

/// The kind that the emitted text reports for an argument.
pub open spec fn kind_text(input: InputModel) -> Seq<char> {
    match input.arg_type {
        ArgModel::DataAccessDirect => if input.mutable {
            "DataAccessMut;\n"@
        } else {
            "DataAccessRef;\n"@
        },
        ArgModel::DataAccessCell => "DataAccessRef;\n"@,
        ArgModel::Query { .. } => "Query;\n"@,
    }
}

/// The kind that the emitted text reports for a component of a query.
pub open spec fn component_kind_text(mutable: bool) -> Seq<char> {
    if mutable {
        "Mut;\n"@
    } else {
        "Ref;\n"@
    }
}

/// Whether a routine takes a query.
pub open spec fn has_query(system: SystemModel) -> bool {
    exists|j: int| 0 <= j < system.inputs.len() && (#[trigger] system.inputs[j]).arg_type is Query
}

/// The case of the `k`-th component of a query.
pub open spec fn query_case(
    which: ArgAccessor,
    structs: Seq<StructModel>,
    inputs: Seq<QueryInputModel>,
    k: int,
) -> Seq<char> {
    if which == ArgAccessor::QueryKind {
        case_label(INDENT_16@, k as nat) + "return QueryTypeComponent"@ + component_kind_text(
            inputs[k].mutable,
        )
    } else {
        case_label(INDENT_16@, k as nat) + "return \""@ + string_id_of(structs, inputs[k].ident)
            + "\";\n"@
    }
}

/// The cases of the components of a query, one piece each.
pub open spec fn query_cases(
    which: ArgAccessor,
    structs: Seq<StructModel>,
    inputs: Seq<QueryInputModel>,
) -> Seq<Seq<char>> {
    Seq::new(inputs.len(), |k: int| query_case(which, structs, inputs, k))
}

/// What an accessor holds for the `j`-th argument `input` of a routine:
/// a case where the accessor speaks of such an argument, nothing where it
/// does not.
pub open spec fn arg_case(
    which: ArgAccessor,
    structs: Seq<StructModel>,
    input: InputModel,
    j: int,
) -> Seq<char> {
    match which {
        ArgAccessor::Kind => case_label(INDENT_12@, j as nat) + "return ArgType"@ + kind_text(
            input,
        ),
        ArgAccessor::Component => match input.arg_type {
            ArgModel::Query { .. } => Seq::<char>::empty(),
            _ => case_label(INDENT_12@, j as nat) + "return \""@ + string_id_of(
                structs,
                input.ident,
            ) + "\";\n"@,
        },
        ArgAccessor::QueryLen => match input.arg_type {
            ArgModel::Query { inputs } => case_label(INDENT_12@, j as nat) + "return "@ + decimal(
                inputs.len(),
            ) + ";\n"@,
            _ => Seq::<char>::empty(),
        },
        _ => match input.arg_type {
            ArgModel::Query { inputs } => case_label(INDENT_12@, j as nat) + SWITCH_QUERY_INDEX@
                + concat_all(query_cases(which, structs, inputs)) + DEFAULT_ABORT_16@ + CLOSE_12@,
            _ => Seq::<char>::empty(),
        },
    }
}

/// What the accessor `which` holds for each argument of `system`.
pub open spec fn arg_cases(which: ArgAccessor, structs: Seq<StructModel>, system: SystemModel) -> Seq<
    Seq<char>,
> {
    Seq::new(system.inputs.len(), |j: int| arg_case(which, structs, system.inputs[j], j))
}

/// Whether an accessor holds a block for a routine: those that speak of
/// queries pass over a routine that takes none.
pub open spec fn covers(which: ArgAccessor, system: SystemModel) -> bool {
    which == ArgAccessor::Kind || which == ArgAccessor::Component || has_query(system)
}

/// The block of the `i`-th routine: a switch over its arguments.
pub open spec fn system_block(
    which: ArgAccessor,
    structs: Seq<StructModel>,
    systems: Seq<SystemModel>,
    i: int,
) -> Seq<char> {
    if covers(which, systems[i]) {
        case_label(INDENT_8@, i as nat) + SWITCH_ARG_INDEX@ + concat_all(
            arg_cases(which, structs, systems[i]),
        ) + DEFAULT_ABORT_12@ + CLOSE_8@
    } else {
        Seq::<char>::empty()
    }
}

/// What the accessor `which` holds for each routine.
pub open spec fn system_blocks(
    which: ArgAccessor,
    structs: Seq<StructModel>,
    systems: Seq<SystemModel>,
) -> Seq<Seq<char>> {
    Seq::new(systems.len(), |i: int| system_block(which, structs, systems, i))
}

/// The signature that opens the accessor `which`.
pub open spec fn arg_accessor_head(which: ArgAccessor) -> Seq<char> {
    match which {
        ArgAccessor::Kind => ARG_TYPE_HEAD@,
        ArgAccessor::Component => ARG_COMPONENT_HEAD@,
        ArgAccessor::QueryLen => QUERY_LEN_HEAD@,
        ArgAccessor::QueryKind => QUERY_TYPE_HEAD@ + INDEX_PARAMETERS@,
        ArgAccessor::QueryComponent => QUERY_COMPONENT_HEAD@ + INDEX_PARAMETERS@,
    }
}

/// An accessor addressed by routine and argument: a switch over the
/// routines that holds, for each, a switch over its arguments. Every index
/// that has no case aborts.
pub open spec fn arg_accessor_text(
    which: ArgAccessor,
    structs: Seq<StructModel>,
    systems: Seq<SystemModel>,
) -> Seq<char> {
    arg_accessor_head(which) + SWITCH_SYSTEM_INDEX@ + concat_all(
        system_blocks(which, structs, systems),
    ) + DEFAULT_ABORT_8@ + CLOSE_4@ + CLOSE_FUNCTION@
}

fn const_prefix_text(mutable: bool) -> (s: String)
    ensures
        s@ == const_prefix(mutable),
{
    if mutable {
        String::new()
    } else {
        String::from_str("const ")
    }
}

/// The type of a query over `inputs`.
fn query_type_text(inputs: &Vec<SystemInputInfo>) -> (s: String)
    ensures
        s@ == "Query<"@ + concat_all(query_components(query_input_models(inputs@))) + "&>"@,
{
    let mut s = String::from_str("Query<");
    let ghost head = s@;
    let ghost parts = query_components(query_input_models(inputs@));
    let mut k: usize = 0;
    proof {
        assert(head + concat_all(parts.take(0)) =~= head);
    }
    while k < inputs.len()
        invariant
            k <= inputs.len(),
            parts == query_components(query_input_models(inputs@)),
            s@ == head + concat_all(parts.take(k as int)),
        decreases inputs.len() - k,
    {
        let mut piece = const_prefix_text(inputs[k].mutable);
        piece.append(inputs[k].ident.as_str());
        if k + 1 < inputs.len() {
            piece.append("&, ");
        }
        proof {
            assert(piece@ =~= parts[k as int]);
            lemma_append_part(head, parts, k as int);
        }
        s.append(piece.as_str());
        k += 1;
    }
    proof {
        lemma_all_parts(parts);
    }
    s.append("&>");
    s
}

/// The wrapper through which the host calls `system`.
fn wrapper_text(system: &SystemInfo) -> (s: String)
    ensures
        s@ == wrapper(system@),
{
    let mut s = String::from_str("int32_t ");
    s.append(system.ident.as_str());
    s.append("_ffi(void** input) {\n    ");
    s.append(system.ident.as_str());
    s.append("(\n");
    let ghost head = s@;
    let ghost parts = arguments(system@.inputs);
    let mut i: usize = 0;
    proof {
        assert(head + concat_all(parts.take(0)) =~= head);
    }
    while i < system.inputs.len()
        invariant
            i <= system.inputs.len(),
            parts == arguments(system@.inputs),
            s@ == head + concat_all(parts.take(i as int)),
        decreases system.inputs.len() - i,
    {
        let input = &system.inputs[i];
        let mut piece = String::from_str("        *static_cast<");
        let qualifier = const_prefix_text(input.mutable);
        piece.append(qualifier.as_str());
        match &input.arg_type {
            ArgType::Query { inputs } => {
                let query = query_type_text(inputs);
                piece.append(query.as_str());
            },
            _ => {
                piece.append(input.ident.as_str());
            },
        }
        assert(piece@ == "        *static_cast<"@ + const_prefix(input@.mutable) + argument_type(
            input@,
        ));
        piece.append("*>(input[");
        push_decimal(&mut piece, i);
        piece.append("])");
        if i + 1 < system.inputs.len() {
            piece.append(",\n");
        } else {
            piece.append("\n");
        }
        proof {
            assert(piece@ == parts[i as int]);
            lemma_append_part(head, parts, i as int);
        }
        s.append(piece.as_str());
        i += 1;
    }
    proof {
        lemma_all_parts(parts);
    }
    s.append(WRAPPER_TAIL);
    s
}

/// Whether `system` takes a query.
pub fn takes_query(system: &SystemInfo) -> (b: bool)
    ensures
        b == has_query(system@),
{
    let mut j: usize = 0;
    while j < system.inputs.len()
        invariant
            j <= system.inputs.len(),
            forall|k: int| 0 <= k < j ==> !((#[trigger] system@.inputs[k]).arg_type is Query),
        decreases system.inputs.len() - j,
    {
        match &system.inputs[j].arg_type {
            ArgType::Query { .. } => {
                assert(system@.inputs[j as int].arg_type is Query);
                return true;
            },
            _ => {},
        }
        j += 1;
    }
    false
}

impl FfiGenerator {
    /// Emits the wrappers through which the host calls the routines.
    pub fn gen_system_fn_ffi(&self) -> (out: String)
        ensures
            out@ == system_fn_ffi_text(self@.systems),
    {
        let mut out = String::new();
        let ghost parts = wrappers(self@.systems);
        let mut i: usize = 0;
        proof {
            assert(concat_all(parts.take(0)) =~= out@);
        }
        while i < self.systems.len()
            invariant
                i <= self.systems.len(),
                parts == wrappers(self@.systems),
                out@ == concat_all(parts.take(i as int)),
            decreases self.systems.len() - i,
        {
            let piece = wrapper_text(&self.systems[i]);
            proof {
                assert(piece@ == parts[i as int]);
                lemma_concat_all_step(parts, i as int);
            }
            out.append(piece.as_str());
            i += 1;
        }
        proof {
            lemma_all_parts(parts);
        }
        out
    }

    /// Emits the function that gives the number of routines.
    pub fn gen_systems_len(&self) -> (out: String)
        ensures
            out@ == systems_len_text(self@.systems),
    {
        let mut out = String::from_str(LEN_HEAD);
        push_decimal(&mut out, self.systems.len());
        out.append(LEN_TAIL);
        out
    }

    /// What the case of `system` returns in the accessor `which`.
    fn system_answer_text(which: SystemAccessor, system: &SystemInfo) -> (s: String)
        ensures
            s@ == system_answer(which, system@),
    {
        match which {
            SystemAccessor::IsOnce => {
                if system.is_once {
                    String::from_str("true")
                } else {
                    String::from_str("false")
                }
            },
            SystemAccessor::Function => {
                let mut s = system.ident.clone();
                s.append("_ffi");
                s
            },
            SystemAccessor::ArgsLen => {
                let mut s = String::new();
                push_decimal(&mut s, system.inputs.len());
                assert(s@ =~= decimal(system@.inputs.len()));
                s
            },
        }
    }

    /// Emits the accessor `which`, addressed by routine.
    pub fn gen_system_accessor(&self, which: SystemAccessor) -> (out: String)
        ensures
            out@ == system_accessor_text(which, self@.systems),
    {
        let mut out = match which {
            SystemAccessor::IsOnce => String::from_str(IS_ONCE_HEAD),
            SystemAccessor::Function => String::from_str(FN_HEAD),
            SystemAccessor::ArgsLen => String::from_str(ARGS_LEN_HEAD),
        };
        out.append(SWITCH_SYSTEM_INDEX);
        let ghost head = out@;
        let ghost parts = system_cases(which, self@.systems);
        let mut i: usize = 0;
        proof {
            assert(head + concat_all(parts.take(0)) =~= head);
        }
        while i < self.systems.len()
            invariant
                i <= self.systems.len(),
                parts == system_cases(which, self@.systems),
                out@ == head + concat_all(parts.take(i as int)),
            decreases self.systems.len() - i,
        {
            let mut piece = case_label_text(INDENT_8, i);
            piece.append("return ");
            let answer = Self::system_answer_text(which, &self.systems[i]);
            piece.append(answer.as_str());
            piece.append(";\n");
            proof {
                assert(piece@ == parts[i as int]);
                lemma_append_part(head, parts, i as int);
            }
            out.append(piece.as_str());
            i += 1;
        }
        proof {
            lemma_all_parts(parts);
        }
        out.append(DEFAULT_ABORT_8);
        out.append(CLOSE_4);
        out.append(CLOSE_FUNCTION);
        out
    }

    /// Emits the accessor that tells whether a routine runs a single time.
    pub fn gen_system_is_once(&self) -> (out: String)
        ensures
            out@ == system_accessor_text(SystemAccessor::IsOnce, self@.systems),
    {
        self.gen_system_accessor(SystemAccessor::IsOnce)
    }

    /// Emits the accessor that gives the wrapper of a routine.
    pub fn gen_system_fn(&self) -> (out: String)
        ensures
            out@ == system_accessor_text(SystemAccessor::Function, self@.systems),
    {
        self.gen_system_accessor(SystemAccessor::Function)
    }

    /// Emits the accessor that gives the number of arguments of a routine.
    pub fn gen_system_args_len(&self) -> (out: String)
        ensures
            out@ == system_accessor_text(SystemAccessor::ArgsLen, self@.systems),
    {
        self.gen_system_accessor(SystemAccessor::ArgsLen)
    }

    /// The cases of the components `inputs` of a query.
    fn query_cases_text(&self, which: ArgAccessor, inputs: &Vec<SystemInputInfo>) -> (s: String)
        ensures
            s@ == concat_all(query_cases(which, self@.structs, query_input_models(inputs@))),
    {
        let mut s = String::new();
        let ghost parts = query_cases(which, self@.structs, query_input_models(inputs@));
        let mut k: usize = 0;
        proof {
            assert(concat_all(parts.take(0)) =~= s@);
        }
        while k < inputs.len()
            invariant
                k <= inputs.len(),
                parts == query_cases(which, self@.structs, query_input_models(inputs@)),
                s@ == concat_all(parts.take(k as int)),
            decreases inputs.len() - k,
        {
            let mut piece = case_label_text(INDENT_16, k);
            match which {
                ArgAccessor::QueryKind => {
                    piece.append("return QueryTypeComponent");
                    if inputs[k].mutable {
                        piece.append("Mut;\n");
                    } else {
                        piece.append("Ref;\n");
                    }
                },
                _ => {
                    piece.append("return \"");
                    let id = self.string_id(inputs[k].ident.as_str());
                    piece.append(id.as_str());
                    piece.append("\";\n");
                },
            }
            proof {
                assert(piece@ == parts[k as int]);
                lemma_concat_all_step(parts, k as int);
            }
            s.append(piece.as_str());
            k += 1;
        }
        proof {
            lemma_all_parts(parts);
        }
        s
    }

    /// What the accessor `which` holds for the `j`-th argument `input`.
    fn arg_case_text(&self, which: ArgAccessor, input: &SystemInputInfo, j: usize) -> (s: String)
        ensures
            s@ == arg_case(which, self@.structs, input@, j as int),
    {
        match which {
            ArgAccessor::Kind => {
                let mut s = case_label_text(INDENT_12, j);
                s.append("return ArgType");
                match &input.arg_type {
                    ArgType::DataAccessDirect => {
                        if input.mutable {
                            s.append("DataAccessMut;\n");
                        } else {
                            s.append("DataAccessRef;\n");
                        }
                    },
                    ArgType::DataAccessCell => {
                        s.append("DataAccessRef;\n");
                    },
                    ArgType::Query { .. } => {
                        s.append("Query;\n");
                    },
                }
                s
            },
            ArgAccessor::Component => {
                match &input.arg_type {
                    ArgType::Query { .. } => String::new(),
                    _ => {
                        let mut s = case_label_text(INDENT_12, j);
                        s.append("return \"");
                        let id = self.string_id(input.ident.as_str());
                        s.append(id.as_str());
                        s.append("\";\n");
                        s
                    },
                }
            },
            ArgAccessor::QueryLen => {
                match &input.arg_type {
                    ArgType::Query { inputs } => {
                        let mut s = case_label_text(INDENT_12, j);
                        s.append("return ");
                        push_decimal(&mut s, inputs.len());
                        s.append(";\n");
                        s
                    },
                    _ => String::new(),
                }
            },
            _ => {
                match &input.arg_type {
                    ArgType::Query { inputs } => {
                        let mut s = case_label_text(INDENT_12, j);
                        s.append(SWITCH_QUERY_INDEX);
                        let cases = self.query_cases_text(which, inputs);
                        s.append(cases.as_str());
                        s.append(DEFAULT_ABORT_16);
                        s.append(CLOSE_12);
                        s
                    },
                    _ => String::new(),
                }
            },
        }
    }

    /// The block of the `i`-th routine `system` in the accessor `which`.
    fn system_block_text(&self, which: ArgAccessor, system: &SystemInfo, i: usize) -> (s: String)
        ensures
            s@ == (if covers(which, system@) {
                case_label(INDENT_8@, i as nat) + SWITCH_ARG_INDEX@ + concat_all(
                    arg_cases(which, self@.structs, system@),
                ) + DEFAULT_ABORT_12@ + CLOSE_8@
            } else {
                Seq::<char>::empty()
            }),
    {
        let covered = match which {
            ArgAccessor::Kind => true,
            ArgAccessor::Component => true,
            _ => takes_query(system),
        };
        if !covered {
            return String::new();
        }
        let mut s = case_label_text(INDENT_8, i);
        s.append(SWITCH_ARG_INDEX);
        let ghost head = s@;
        let ghost parts = arg_cases(which, self@.structs, system@);
        let mut j: usize = 0;
        proof {
            assert(head + concat_all(parts.take(0)) =~= head);
        }
        while j < system.inputs.len()
            invariant
                j <= system.inputs.len(),
                parts == arg_cases(which, self@.structs, system@),
                s@ == head + concat_all(parts.take(j as int)),
            decreases system.inputs.len() - j,
        {
            let piece = self.arg_case_text(which, &system.inputs[j], j);
            proof {
                assert(piece@ == parts[j as int]);
                lemma_append_part(head, parts, j as int);
            }
            s.append(piece.as_str());
            j += 1;
        }
        proof {
            lemma_all_parts(parts);
        }
        s.append(DEFAULT_ABORT_12);
        s.append(CLOSE_8);
        s
    }

    /// Emits the accessor `which`, addressed by routine and argument.
    pub fn gen_arg_accessor(&self, which: ArgAccessor) -> (out: String)
        ensures
            out@ == arg_accessor_text(which, self@.structs, self@.systems),
    {
        let mut out = match which {
            ArgAccessor::Kind => String::from_str(ARG_TYPE_HEAD),
            ArgAccessor::Component => String::from_str(ARG_COMPONENT_HEAD),
            ArgAccessor::QueryLen => String::from_str(QUERY_LEN_HEAD),
            ArgAccessor::QueryKind => {
                let mut head = String::from_str(QUERY_TYPE_HEAD);
                head.append(INDEX_PARAMETERS);
                head
            },
            ArgAccessor::QueryComponent => {
                let mut head = String::from_str(QUERY_COMPONENT_HEAD);
                head.append(INDEX_PARAMETERS);
                head
            },
        };
        out.append(SWITCH_SYSTEM_INDEX);
        let ghost head = out@;
        let ghost parts = system_blocks(which, self@.structs, self@.systems);
        let mut i: usize = 0;
        proof {
            assert(head + concat_all(parts.take(0)) =~= head);
        }
        while i < self.systems.len()
            invariant
                i <= self.systems.len(),
                parts == system_blocks(which, self@.structs, self@.systems),
                out@ == head + concat_all(parts.take(i as int)),
            decreases self.systems.len() - i,
        {
            let piece = self.system_block_text(which, &self.systems[i], i);
            proof {
                assert(piece@ == parts[i as int]);
                lemma_append_part(head, parts, i as int);
            }
            out.append(piece.as_str());
            i += 1;
        }
        proof {
            lemma_all_parts(parts);
        }
        out.append(DEFAULT_ABORT_8);
        out.append(CLOSE_4);
        out.append(CLOSE_FUNCTION);
        out
    }

    /// Emits the accessor that gives the kind of an argument.
    pub fn gen_system_arg_type(&self) -> (out: String)
        ensures
            out@ == arg_accessor_text(ArgAccessor::Kind, self@.structs, self@.systems),
    {
        self.gen_arg_accessor(ArgAccessor::Kind)
    }

    /// Emits the accessor that gives the key of the type of an argument that is
    /// no query.
    pub fn gen_system_arg_component(&self) -> (out: String)
        ensures
            out@ == arg_accessor_text(ArgAccessor::Component, self@.structs, self@.systems),
    {
        self.gen_arg_accessor(ArgAccessor::Component)
    }

    /// Emits the accessor that gives the number of components of a query.
    pub fn gen_system_query_args_len(&self) -> (out: String)
        ensures
            out@ == arg_accessor_text(ArgAccessor::QueryLen, self@.structs, self@.systems),
    {
        self.gen_arg_accessor(ArgAccessor::QueryLen)
    }

    /// Emits the accessor that gives the kind of a component of a query.
    pub fn gen_system_query_arg_type(&self) -> (out: String)
        ensures
            out@ == arg_accessor_text(ArgAccessor::QueryKind, self@.structs, self@.systems),
    {
        self.gen_arg_accessor(ArgAccessor::QueryKind)
    }

    /// Emits the accessor that gives the key of the type of a component of a
    /// query.
    pub fn gen_system_query_arg_component(&self) -> (out: String)
        ensures
            out@ == arg_accessor_text(ArgAccessor::QueryComponent, self@.structs, self@.systems),
    {
        self.gen_arg_accessor(ArgAccessor::QueryComponent)
    }
}

} // verus!
