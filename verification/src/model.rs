//! The catalogue of declared types and routines that the emitter renders,
//! and the mathematical model of each of its parts.

use vstd::prelude::*;

verus! {

/// How a declared type is stored: one instance per entity, or one for the
/// whole process.
#[derive(Debug, Clone, Copy, PartialEq, Eq, Structural)]
pub enum StructType {
    Component,
    Resource,
}

/// How a routine receives an argument.
#[derive(Debug, PartialEq, Eq)]
pub enum ArgType {
    DataAccessDirect,
    DataAccessCell,
    Query { inputs: Vec<SystemInputInfo> },
}

/// One routine with its parameters, in declaration order.
#[derive(Debug, PartialEq, Eq)]
pub struct SystemInfo {
    pub ident: String,
    pub is_once: bool,
    pub inputs: Vec<SystemInputInfo>,
}

/// One parameter of a routine, or one component of a query.
#[derive(Debug, PartialEq, Eq)]
pub struct SystemInputInfo {
    pub ident: String,
    pub arg_type: ArgType,
    pub mutable: bool,
}

/// One declared type with its key across the module boundary.
#[derive(Debug, PartialEq, Eq)]
pub struct StructInfo {
    pub ident: String,
    pub string_id: String,
    pub struct_type: StructType,
}

/// The catalogue: routines and types, each in the order of their
/// declaration.
#[derive(Debug)]
pub struct FfiGenerator {
    pub systems: Vec<SystemInfo>,
    pub structs: Vec<StructInfo>,
}

/// A component that a query asks for.
pub struct QueryInputModel {
    pub ident: Seq<char>,
    pub mutable: bool,
}

/// The access of a parameter; a query lists the components it asks for.
pub enum ArgModel {
    DataAccessDirect,
    DataAccessCell,
    Query { inputs: Seq<QueryInputModel> },
}

/// A parameter of a routine: the name of its type, or for a query the name
/// it was given; how it is accessed; and whether it may be written.
pub struct InputModel {
    pub ident: Seq<char>,
    pub arg_type: ArgModel,
    pub mutable: bool,
}

/// A routine: its name, whether it runs a single time, and its parameters
/// in declaration order.
pub struct SystemModel {
    pub ident: Seq<char>,
    pub is_once: bool,
    pub inputs: Seq<InputModel>,
}

/// A declared type: its name, its key across the module boundary and how
/// it is stored.
pub struct StructModel {
    pub ident: Seq<char>,
    pub string_id: Seq<char>,
    pub struct_type: StructType,
}

/// A catalogue: its routines and its declared types, each in the order of
/// their declaration.
pub struct GeneratorModel {
    pub systems: Seq<SystemModel>,
    pub structs: Seq<StructModel>,
}

/// What a query reads of one of its components: the name and the
/// mutability.
pub open spec fn query_input_model(input: SystemInputInfo) -> QueryInputModel {
    QueryInputModel { ident: input.ident@, mutable: input.mutable }
}

/// What a query reads of its components, one by one.
pub open spec fn query_input_models(inputs: Seq<SystemInputInfo>) -> Seq<QueryInputModel> {
    Seq::new(inputs.len(), |i: int| query_input_model(inputs[i]))
}

/// The models of `inputs`, one by one.
pub open spec fn input_models(inputs: Seq<SystemInputInfo>) -> Seq<InputModel> {
    Seq::new(inputs.len(), |i: int| inputs[i]@)
}

/// The models of `systems`, one by one.
pub open spec fn system_models(systems: Seq<SystemInfo>) -> Seq<SystemModel> {
    Seq::new(systems.len(), |i: int| systems[i]@)
}

/// The models of `structs`, one by one.
pub open spec fn struct_models(structs: Seq<StructInfo>) -> Seq<StructModel> {
    Seq::new(structs.len(), |i: int| structs[i]@)
}

impl View for ArgType {
    type V = ArgModel;

    open spec fn view(&self) -> ArgModel {
        match *self {
            ArgType::DataAccessDirect => ArgModel::DataAccessDirect,
            ArgType::DataAccessCell => ArgModel::DataAccessCell,
            ArgType::Query { inputs } => ArgModel::Query { inputs: query_input_models(inputs@) },
        }
    }
}

impl View for SystemInputInfo {
    type V = InputModel;

    open spec fn view(&self) -> InputModel {
        InputModel { ident: self.ident@, arg_type: self.arg_type@, mutable: self.mutable }
    }
}

impl View for SystemInfo {
    type V = SystemModel;

    open spec fn view(&self) -> SystemModel {
        SystemModel {
            ident: self.ident@,
            is_once: self.is_once,
            inputs: input_models(self.inputs@),
        }
    }
}

impl View for StructInfo {
    type V = StructModel;

    open spec fn view(&self) -> StructModel {
        StructModel {
            ident: self.ident@,
            string_id: self.string_id@,
            struct_type: self.struct_type,
        }
    }
}

impl View for FfiGenerator {
    type V = GeneratorModel;

    open spec fn view(&self) -> GeneratorModel {
        GeneratorModel {
            systems: system_models(self.systems@),
            structs: struct_models(self.structs@),
        }
    }
}

impl ArgType {
    /// Queries do not nest: what a query lists is accessed directly.
    pub open spec fn well_formed(&self) -> bool {
        match *self {
            ArgType::Query { inputs } => forall|i: int|
                0 <= i < inputs@.len() ==> (#[trigger] inputs@[i]).arg_type
                    is DataAccessDirect,
            _ => true,
        }
    }
}

impl SystemInputInfo {
    /// A parameter is well formed if its access is.
    pub open spec fn well_formed(&self) -> bool {
        self.arg_type.well_formed()
    }
}

impl SystemInfo {
    /// A routine is well formed if each of its parameters is.
    pub open spec fn well_formed(&self) -> bool {
        forall|i: int| 0 <= i < self.inputs@.len() ==> (#[trigger] self.inputs@[i]).well_formed()
    }
}

impl FfiGenerator {
    /// A catalogue is well formed if each of its routines is.
    pub open spec fn well_formed(&self) -> bool {
        forall|i: int| 0 <= i < self.systems@.len() ==> (#[trigger] self.systems@[i]).well_formed()
    }
}

impl Default for FfiGenerator {
    fn default() -> (g: Self)
        ensures
            g.systems@.len() == 0,
            g.structs@.len() == 0,
            g.well_formed(),
    {
        FfiGenerator { systems: Vec::new(), structs: Vec::new() }
    }
}

} // verus!
