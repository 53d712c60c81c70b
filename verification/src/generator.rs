//! From source text to the emitted compilation unit: the catalogue that
//! the declarations of a text give, and the text that renders a catalogue.

use crate::emit_systems::{
    arg_accessor_text, system_accessor_text, system_fn_ffi_text, systems_len_text, ArgAccessor,
    SystemAccessor,
};
use crate::emit_types::{
    component_align_text, component_size_text, component_string_id_text, component_type_text,
    resource_init_text, set_component_ids_text,
};
use crate::extract::{
    find_routines, find_type_names, once_keyword, routine_decls, routine_keyword, routine_models,
    singleton_keyword, type_names, value_keyword, RoutineDecl, RoutineDeclModel,
};
use crate::filter::{filter_comments, without_comments};
use crate::model::{FfiGenerator, GeneratorModel, StructModel, StructType, SystemModel};
use crate::registry::{identity_table, well_known_components, well_known_names};
use crate::signature::{module_namespace, parse_inputs, parse_struct, parse_system, ParseError};
use crate::text::{texts, to_chars};
use vstd::prelude::*;

verus! {

// The parts of the emitted text that do not depend on the catalogue.

pub const VERSION: &'static str =
    "extern \"C\" uint32_t arete_target_version() {\n    return ENGINE_VERSION;\n}\n\n";

pub const KIND_ENUMS: &'static str =
    "enum ComponentType {\n    ComponentTypeComponent,\n    ComponentTypeResource,\n};\n\nenum ArgType {\n    ArgTypeDataAccessMut,\n    ArgTypeDataAccessRef,\n    ArgTypeQuery,\n};\n\nenum QueryType {\n    QueryTypeComponentMut,\n    QueryTypeComponentRef,\n};\n\n";

pub const CALLBACK_KINDS: &'static str =
    "enum CallbackType {\n    CallbackTypeQueryGetFn,\n    CallbackTypeQueryGetMutFn,\n    CallbackTypeQueryGetFirstFn,\n    CallbackTypeQueryGetFirstMutFn,\n    CallbackTypeQueryForEachFn,\n    CallbackTypeQueryParForEachFn,\n};\n\n";

pub const CALLBACK_SLOTS: &'static str =
    "const void* (*QueryGetFn)(const void*, EntityId, ComponentId);\nvoid* (*QueryGetMutFn)(void*, EntityId, ComponentId);\nconst void* (*QueryGetFirstFn)(const void*, ComponentId);\nvoid* (*QueryGetFirstMutFn)(void*, ComponentId);\nvoid (*QueryForEachFn)(void*, QueryForEachCallback, void*);\nvoid (*QueryParForEachFn)(void*, QueryParForEachCallback, const void*);\n\n";

pub const CALLBACK_SETTER: &'static str =
    "extern \"C\" void set_callback_fn(\n    CallbackType callback_type,\n    const void* callback\n) {\n    switch (callback_type) {\n    case CallbackTypeQueryGetFn:\n        QueryGetFn = (const void*(*)(const void*, EntityId, ComponentId))(callback);\n        break;\n    case CallbackTypeQueryGetMutFn:\n        QueryGetMutFn = (void*(*)(void*, EntityId, ComponentId))(callback);\n        break;\n    case CallbackTypeQueryGetFirstFn:\n        QueryGetFirstFn = (const void*(*)(const void*, ComponentId))(callback);\n        break;\n    case CallbackTypeQueryGetFirstMutFn:\n        QueryGetFirstMutFn = (void*(*)(void*, ComponentId))(callback);\n        break;\n    case CallbackTypeQueryForEachFn:\n        QueryForEachFn = (void(*)(void*, QueryForEachCallback, void*))(callback);\n        break;\n    case CallbackTypeQueryParForEachFn:\n        QueryParForEachFn = (void(*)(void*, QueryParForEachCallback, const void*))(callback);\n        break;\n    }\n}\n\n";

/// The function that reports the version of the host that the module was
/// built for.
pub open spec fn version_text() -> Seq<char> {
    VERSION@
}

/// The registration of the host's query primitives: the kinds of
/// callback, one slot for each, and the function that fills a slot.
pub open spec fn callbacks_text() -> Seq<char> {
    CALLBACK_KINDS@ + CALLBACK_SLOTS@ + CALLBACK_SETTER@
}

/// The enumerations, the type metadata and the identity assignment.
pub open spec fn components_text(g: GeneratorModel, host: Seq<Seq<char>>) -> Seq<char> {
    KIND_ENUMS@ + component_string_id_text(g.structs) + component_size_text(g.structs)
        + component_align_text(g.structs) + component_type_text(g.structs)
        + set_component_ids_text(identity_table(g, host))
}

/// The routine catalogue.
pub open spec fn systems_text(g: GeneratorModel) -> Seq<char> {
    system_fn_ffi_text(g.systems) + systems_len_text(g.systems) + system_accessor_text(
        SystemAccessor::IsOnce,
        g.systems,
    ) + system_accessor_text(SystemAccessor::Function, g.systems) + system_accessor_text(
        SystemAccessor::ArgsLen,
        g.systems,
    ) + arg_accessor_text(ArgAccessor::Kind, g.structs, g.systems) + arg_accessor_text(
        ArgAccessor::Component,
        g.structs,
        g.systems,
    ) + arg_accessor_text(ArgAccessor::QueryLen, g.structs, g.systems) + arg_accessor_text(
        ArgAccessor::QueryKind,
        g.structs,
        g.systems,
    ) + arg_accessor_text(ArgAccessor::QueryComponent, g.structs, g.systems)
}

/// Everything that is emitted behind the header.
pub open spec fn ffi_text(g: GeneratorModel, host: Seq<Seq<char>>) -> Seq<char> {
    version_text() + components_text(g, host) + resource_init_text(g.structs) + systems_text(g)
        + callbacks_text()
}

/// The declared type named `name`.
pub open spec fn struct_of(name: Seq<char>, struct_type: StructType) -> StructModel {
    StructModel { ident: name, string_id: module_namespace() + name, struct_type }
}

/// The declared types named `names`, one by one.
pub open spec fn structs_of(names: Seq<Seq<char>>, struct_type: StructType) -> Seq<StructModel> {
    Seq::new(names.len(), |i: int| struct_of(names[i], struct_type))
}

/// The types that the text `s` declares: those stored per entity in the
/// order of the text, then those stored once.
pub open spec fn declared_structs(s: Seq<char>) -> Seq<StructModel> {
    structs_of(type_names(s, value_keyword(), 0), StructType::Component) + structs_of(
        type_names(s, singleton_keyword(), 0),
        StructType::Resource,
    )
}

/// The routines that `decls` declare, or the error of the first
/// parameter list among them that is refused.
pub open spec fn systems_of(decls: Seq<RoutineDeclModel>, is_once: bool) -> Result<
    Seq<SystemModel>,
    ParseError,
>
    decreases decls.len(),
{
    if decls.len() == 0 {
        Ok(Seq::<SystemModel>::empty())
    } else {
        match systems_of(decls.drop_last(), is_once) {
            Err(e) => Err(e),
            Ok(before) => match parse_inputs(decls.last().body) {
                Err(e) => Err(e),
                Ok(inputs) => Ok(
                    before.push(SystemModel { ident: decls.last().name, is_once, inputs }),
                ),
            },
        }
    }
}

/// The routines that the text `s` declares: those run once in the order
/// of the text, then those run in every cycle.
pub open spec fn declared_systems(s: Seq<char>) -> Result<Seq<SystemModel>, ParseError> {
    match systems_of(routine_decls(s, once_keyword(), 0), true) {
        Err(e) => Err(e),
        Ok(once) => match systems_of(routine_decls(s, routine_keyword(), 0), false) {
            Err(e) => Err(e),
            Ok(cyclic) => Ok(once + cyclic),
        },
    }
}

/// The catalogue that the text `s`, which holds no comments, declares.
pub open spec fn catalogue(s: Seq<char>) -> Result<GeneratorModel, ParseError> {
    match declared_systems(s) {
        Err(e) => Err(e),
        Ok(systems) => Ok(GeneratorModel { systems, structs: declared_structs(s) }),
    }
}

/// The compilation unit for the source text `text` behind `header`, or
/// why the text is refused.
pub open spec fn generated(text: Seq<char>, header: Seq<char>, host: Seq<Seq<char>>) -> Result<
    Seq<char>,
    ParseError,
> {
    match catalogue(without_comments(text)) {
        Err(e) => Err(e),
        Ok(g) => Ok(header + ffi_text(g, host)),
    }
}

/// Whether a run that ends with `outcome` has done what `expected` asks:
/// the text asked for, or the error asked for.
pub open spec fn yields(
    expected: Result<Seq<char>, ParseError>,
    outcome: Result<String, ParseError>,
) -> bool {
    match expected {
        Ok(text) => outcome matches Ok(out) && out@ == text,
        Err(e) => outcome matches Err(f) && f == e,
    }
}

/// A list of declarations is refused as soon as one of its beginnings is.
pub proof fn lemma_refused_prefix(decls: Seq<RoutineDeclModel>, is_once: bool, n: int)
    requires
        0 <= n <= decls.len(),
        systems_of(decls.take(n), is_once) is Err,
    ensures
        systems_of(decls, is_once) == systems_of(decls.take(n), is_once),
    decreases decls.len(),
{
    if n == decls.len() {
        assert(decls.take(n) =~= decls);
    } else {
        assert(decls.drop_last().take(n) =~= decls.take(n));
        lemma_refused_prefix(decls.drop_last(), is_once, n);
    }
}

/// Emits the function that reports the version of the host that the module
/// was built for.
pub fn gen_version() -> (out: String)
    ensures
        out@ == version_text(),
{
    String::from_str(VERSION)
}

/// Registers the types named `names`.
fn add_types(info: &mut FfiGenerator, names: &Vec<String>, is_resource: bool)
    ensures
        final(info)@.structs == old(info)@.structs + structs_of(
            texts(names@),
            if is_resource {
                StructType::Resource
            } else {
                StructType::Component
            },
        ),
        final(info)@.systems == old(info)@.systems,
        old(info).well_formed() ==> final(info).well_formed(),
{
    let ghost struct_type = if is_resource {
        StructType::Resource
    } else {
        StructType::Component
    };
    let ghost added = structs_of(texts(names@), struct_type);
    let mut i: usize = 0;
    proof {
        assert(old(info)@.structs + added.take(0) =~= old(info)@.structs);
    }
    while i < names.len()
        invariant
            i <= names.len(),
            added == structs_of(texts(names@), struct_type),
            struct_type == (if is_resource {
                StructType::Resource
            } else {
                StructType::Component
            }),
            info@.structs == old(info)@.structs + added.take(i as int),
            info@.systems == old(info)@.systems,
            old(info).well_formed() ==> info.well_formed(),
        decreases names.len() - i,
    {
        parse_struct(info, names[i].as_str(), is_resource);
        proof {
            assert((old(info)@.structs + added.take(i as int)).push(added[i as int]) =~= old(
                info,
            )@.structs + added.take(i + 1));
        }
        i += 1;
    }
    proof {
        assert(added.take(names.len() as int) =~= added);
    }
}

/// Registers the routines `decls`; a parameter list that is refused ends
/// the work.
fn add_routines(info: FfiGenerator, decls: &Vec<RoutineDecl>, is_once: bool) -> (r: Result<
    FfiGenerator,
    ParseError,
>)
    ensures
        match systems_of(routine_models(decls@), is_once) {
            Ok(added) => r matches Ok(g) && g@.systems == info@.systems + added && g@.structs
                == info@.structs && (info.well_formed() ==> g.well_formed()),
            Err(e) => r matches Err(f) && f == e,
        },
{
    let mut g = info;
    let ghost models = routine_models(decls@);
    let mut i: usize = 0;
    proof {
        assert(models.take(0) =~= Seq::<RoutineDeclModel>::empty());
        assert(info@.systems + Seq::<SystemModel>::empty() =~= info@.systems);
    }
    while i < decls.len()
        invariant
            i <= decls.len(),
            models == routine_models(decls@),
            systems_of(models.take(i as int), is_once) matches Ok(added) && g@.systems
                == info@.systems + added,
            g@.structs == info@.structs,
            info.well_formed() ==> g.well_formed(),
        decreases decls.len() - i,
    {
        let ghost added = systems_of(models.take(i as int), is_once)->Ok_0;
        proof {
            assert(models.take(i + 1).drop_last() =~= models.take(i as int));
            assert(models.take(i + 1).last() == decls@[i as int]@);
        }
        match parse_system(&mut g, decls[i].name.as_str(), decls[i].body.as_str(), is_once) {
            Err(e) => {
                proof {
                    lemma_refused_prefix(models, is_once, i + 1);
                }
                return Err(e);
            },
            Ok(()) => {
                proof {
                    let next = systems_of(models.take(i + 1), is_once)->Ok_0;
                    assert(info@.systems + next =~= (info@.systems + added).push(next.last()));
                }
            },
        }
        i += 1;
    }
    proof {
        assert(models.take(decls.len() as int) =~= models);
    }
    Ok(g)
}

impl FfiGenerator {
    /// Builds the catalogue that the source text `text` declares, once its
    /// comments are removed.
    pub fn from_source(text: &str) -> (r: Result<FfiGenerator, ParseError>)
        ensures
            match catalogue(without_comments(text@)) {
                Ok(model) => r matches Ok(g) && g@ == model && g.well_formed(),
                Err(e) => r matches Err(f) && f == e,
            },
    {
        let filtered = filter_comments(text);
        let v = to_chars(filtered.as_str());
        let values = find_type_names(&v, &to_chars("TYPE_VALUE"));
        let singletons = find_type_names(&v, &to_chars("TYPE_SINGLETON"));
        let once = find_routines(&v, &to_chars("ROUTINE_ONCE"));
        let cyclic = find_routines(&v, &to_chars("ROUTINE"));
        let mut info = FfiGenerator::default();
        proof {
            assert(info@.systems =~= Seq::<SystemModel>::empty());
            assert(info@.structs =~= Seq::<StructModel>::empty());
        }
        add_types(&mut info, &values, false);
        add_types(&mut info, &singletons, true);
        proof {
            assert(info@.structs =~= declared_structs(v@));
        }
        let info = match add_routines(info, &once, true) {
            Err(e) => {
                return Err(e);
            },
            Ok(g) => g,
        };
        let info = match add_routines(info, &cyclic, false) {
            Err(e) => {
                return Err(e);
            },
            Ok(g) => g,
        };
        proof {
            let first = systems_of(routine_decls(v@, once_keyword(), 0), true)->Ok_0;
            let second = systems_of(routine_decls(v@, routine_keyword(), 0), false)->Ok_0;
            assert(info@.systems =~= first + second);
        }
        Ok(info)
    }

    /// Emits the registration of the host's query primitives.
    pub fn gen_callbacks(&self) -> (out: String)
        ensures
            out@ == callbacks_text(),
    {
        let mut out = String::from_str(CALLBACK_KINDS);
        out.append(CALLBACK_SLOTS);
        out.append(CALLBACK_SETTER);
        out
    }

    /// Emits the enumerations, the type metadata and the identity
    /// assignment for a host that provides the types `host`.
    pub fn gen_components_for(&self, host: &Vec<String>) -> (out: String)
        ensures
            out@ == components_text(self@, texts(host@)),
    {
        let mut out = String::from_str(KIND_ENUMS);
        out.append(self.gen_component_string_id().as_str());
        out.append(self.gen_component_size().as_str());
        out.append(self.gen_component_align().as_str());
        out.append(self.gen_component_type().as_str());
        out.append(self.gen_set_component_ids_for(host).as_str());
        out
    }

    /// Emits the enumerations, the type metadata and the identity assignment
    /// for a host that provides the well-known types.
    pub fn gen_components(&self) -> (out: String)
        ensures
            out@ == components_text(self@, well_known_names()),
    {
        let host = well_known_components();
        self.gen_components_for(&host)
    }

    /// Emits the routine catalogue.
    pub fn gen_systems(&self) -> (out: String)
        ensures
            out@ == systems_text(self@),
    {
        let mut out = self.gen_system_fn_ffi();
        out.append(self.gen_systems_len().as_str());
        out.append(self.gen_system_is_once().as_str());
        out.append(self.gen_system_fn().as_str());
        out.append(self.gen_system_args_len().as_str());
        out.append(self.gen_system_arg_type().as_str());
        out.append(self.gen_system_arg_component().as_str());
        out.append(self.gen_system_query_args_len().as_str());
        out.append(self.gen_system_query_arg_type().as_str());
        out.append(self.gen_system_query_arg_component().as_str());
        out
    }

    /// Emits the compilation unit behind `header` for a host that provides
    /// the types `host`.
    pub fn gen_ffi_for(self, header: String, host: &Vec<String>) -> (out: String)
        ensures
            out@ == header@ + ffi_text(self@, texts(host@)),
    {
        let mut out = header;
        let ghost head = out@;
        let version = gen_version();
        let components = self.gen_components_for(host);
        let init = self.gen_resource_init();
        let systems = self.gen_systems();
        let callbacks = self.gen_callbacks();
        out.append(version.as_str());
        out.append(components.as_str());
        out.append(init.as_str());
        out.append(systems.as_str());
        out.append(callbacks.as_str());
        assert(out@ =~= head + (version@ + components@ + init@ + systems@ + callbacks@));
        out
    }

    /// Emits the compilation unit behind `header`.
    pub fn gen_ffi(self, header: String) -> (out: String)
        ensures
            out@ == header@ + ffi_text(self@, well_known_names()),
    {
        let host = well_known_components();
        self.gen_ffi_for(header, &host)
    }
}

/// Generates the compilation unit for the source text `text`: the header,
/// then the reflection and dispatch surface of what the text declares.
pub fn generate(text: &str, header: String) -> (r: Result<String, ParseError>)
    ensures
        yields(generated(text@, header@, well_known_names()), r),
{
    match FfiGenerator::from_source(text) {
        Err(e) => Err(e),
        Ok(g) => Ok(g.gen_ffi(header)),
    }
}

} // verus!
