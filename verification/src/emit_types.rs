//! The emitted accessors for type metadata, identity assignment and
//! singleton initialisation.

use crate::emit::{
    branch_open, branch_open_text, case_label, case_label_text, lemma_all_parts,
    lemma_append_part, ABORT_4, CLOSE_4, CLOSE_FUNCTION, ELSE_ABORT, INDENT_8,
};
use crate::model::{FfiGenerator, StructModel, StructType};
use crate::registry::{
    component_models, identity_table, well_known_components, well_known_names, ComponentModel,
};
use crate::text::{concat_all, texts};
use vstd::prelude::*;

verus! {

// The fixed pieces of the functions that speak of types.

pub const STRING_ID_HEAD: &'static str =
    "extern \"C\" const char* component_string_id(size_t index) {\n    switch(index) {\n";

pub const STRING_ID_TAIL: &'static str = "        default: std::abort();\n    }\n}\n\n";

pub const SIZE_HEAD: &'static str = "extern \"C\" size_t component_size(const char* string_id) {\n";

pub const ALIGN_HEAD: &'static str =
    "extern \"C\" size_t component_align(const char* string_id) {\n";

pub const TYPE_HEAD: &'static str =
    "extern \"C\" ComponentType component_type(const char* string_id) {\n";

pub const STANDARD_LAYOUT: &'static str = "        static_assert(std::is_standard_layout_v<";

pub const TRIVIALLY_COPYABLE: &'static str =
    "        static_assert(std::is_trivially_copyable_v<";

pub const ASSERT_END: &'static str = ">);\n";

pub const RETURN_COMPONENT: &'static str = "        return ComponentTypeComponent;\n";

pub const RETURN_RESOURCE: &'static str = "        return ComponentTypeResource;\n";

pub const SET_ID_HEAD: &'static str =
    "extern \"C\" void set_component_id(const char* string_id, ComponentId id) {\n";

pub const SET_ID_OPEN: &'static str = "        Component<";

pub const SET_ID_END: &'static str = ">::ID = id;\n";

pub const INIT_HEAD: &'static str =
    "extern \"C\" int32_t resource_init(const char* string_id, void* val) {\n";

pub const INIT_OPEN: &'static str = "        std::construct_at(static_cast<";

pub const INIT_END: &'static str = "*>(val));\n";

pub const INIT_NONE: &'static str = "    return 1;\n";

pub const INIT_TAIL: &'static str = "    } else {\n        return 1;\n    }\n\n    return 0;\n";

/// The case that gives the key of the `i`-th declared type.
pub open spec fn string_id_case(structs: Seq<StructModel>, i: int) -> Seq<char> {
    case_label(INDENT_8@, i as nat) + "return \""@ + structs[i].string_id + "\";\n"@
}

/// The cases of the accessor from index to key, one for each declared type.
pub open spec fn string_id_cases(structs: Seq<StructModel>) -> Seq<Seq<char>> {
    Seq::new(structs.len(), |i: int| string_id_case(structs, i))
}

/// The accessor from a type's index to its key: one case for each
/// declared type, in the order of declaration, and an abort for any other
/// index.
pub open spec fn component_string_id_text(structs: Seq<StructModel>) -> Seq<char> {
    STRING_ID_HEAD@ + concat_all(string_id_cases(structs)) + STRING_ID_TAIL@
}

/// The branch that applies `operator` to the `i`-th declared type.
pub open spec fn measure_branch(structs: Seq<StructModel>, operator: Seq<char>, i: int) -> Seq<
    char,
> {
    branch_open(i == 0, structs[i].string_id) + "        return "@ + operator + "("@
        + structs[i].ident + ");\n"@
}

/// The branches that apply `operator`, one for each declared type.
pub open spec fn measure_branches(structs: Seq<StructModel>, operator: Seq<char>) -> Seq<
    Seq<char>,
> {
    Seq::new(structs.len(), |i: int| measure_branch(structs, operator, i))
}

/// An accessor from a type's key to what `operator` gives for the type:
/// one branch for each declared type, and an abort for any other key.
pub open spec fn measure_text(structs: Seq<StructModel>, head: Seq<char>, operator: Seq<char>) -> Seq<
    char,
> {
    if structs.len() == 0 {
        head + ABORT_4@ + CLOSE_FUNCTION@
    } else {
        head + concat_all(measure_branches(structs, operator)) + ELSE_ABORT@ + CLOSE_FUNCTION@
    }
}

/// The accessor from a type's key to its size.
pub open spec fn component_size_text(structs: Seq<StructModel>) -> Seq<char> {
    measure_text(structs, SIZE_HEAD@, "sizeof"@)
}

/// The accessor from a type's key to its alignment.
pub open spec fn component_align_text(structs: Seq<StructModel>) -> Seq<char> {
    measure_text(structs, ALIGN_HEAD@, "alignof"@)
}

/// What the branch of a declared type returns as its kind; a type stored
/// per entity is first asserted to be plain data.
pub open spec fn kind_body(info: StructModel) -> Seq<char> {
    match info.struct_type {
        StructType::Component => STANDARD_LAYOUT@ + info.ident + ASSERT_END@ + TRIVIALLY_COPYABLE@
            + info.ident + ASSERT_END@ + RETURN_COMPONENT@,
        StructType::Resource => RETURN_RESOURCE@,
    }
}

/// The branch that gives the kind of the `i`-th declared type.
pub open spec fn kind_branch(structs: Seq<StructModel>, i: int) -> Seq<char> {
    branch_open(i == 0, structs[i].string_id) + kind_body(structs[i])
}

/// The branches that give the kind, one for each declared type.
pub open spec fn kind_branches(structs: Seq<StructModel>) -> Seq<Seq<char>> {
    Seq::new(structs.len(), |i: int| kind_branch(structs, i))
}

/// The accessor from a type's key to its kind.
pub open spec fn component_type_text(structs: Seq<StructModel>) -> Seq<char> {
    if structs.len() == 0 {
        TYPE_HEAD@ + ABORT_4@ + CLOSE_FUNCTION@
    } else {
        TYPE_HEAD@ + concat_all(kind_branches(structs)) + ELSE_ABORT@ + CLOSE_FUNCTION@
    }
}

/// The branch that stores the identity of the `i`-th row of the table.
pub open spec fn set_id_branch(table: Seq<ComponentModel>, i: int) -> Seq<char> {
    branch_open(i == 0, table[i].string_id) + SET_ID_OPEN@ + table[i].ident + SET_ID_END@
}

/// The branches of the identity assignment, one for each row.
pub open spec fn set_id_branches(table: Seq<ComponentModel>) -> Seq<Seq<char>> {
    Seq::new(table.len(), |i: int| set_id_branch(table, i))
}

/// The function that binds a numeric identity to a key: one branch for
/// each row of `table`, in its order, and nothing for any other key.
pub open spec fn set_component_ids_text(table: Seq<ComponentModel>) -> Seq<char> {
    if table.len() == 0 {
        SET_ID_HEAD@ + CLOSE_FUNCTION@
    } else {
        SET_ID_HEAD@ + concat_all(set_id_branches(table)) + CLOSE_4@ + CLOSE_FUNCTION@
    }
}

/// The declared types that are stored once for the whole process, in the
/// order of declaration.
pub open spec fn resources(structs: Seq<StructModel>) -> Seq<StructModel>
    decreases structs.len(),
{
    if structs.len() == 0 {
        Seq::<StructModel>::empty()
    } else if structs.last().struct_type == StructType::Resource {
        resources(structs.drop_last()).push(structs.last())
    } else {
        resources(structs.drop_last())
    }
}

/// The branch that constructs the `i`-th of `singletons` in place.
pub open spec fn init_branch(singletons: Seq<StructModel>, i: int) -> Seq<char> {
    branch_open(i == 0, singletons[i].string_id) + INIT_OPEN@ + singletons[i].ident + INIT_END@
}

/// The branches that construct a singleton, one for each of `singletons`.
pub open spec fn init_branches(singletons: Seq<StructModel>) -> Seq<Seq<char>> {
    Seq::new(singletons.len(), |i: int| init_branch(singletons, i))
}

/// The function that constructs a singleton into storage of the host. It
/// reports failure for a key that names no singleton, so always where
/// none is declared.
pub open spec fn resource_init_text(structs: Seq<StructModel>) -> Seq<char> {
    if resources(structs).len() == 0 {
        INIT_HEAD@ + INIT_NONE@ + CLOSE_FUNCTION@
    } else {
        INIT_HEAD@ + concat_all(init_branches(resources(structs))) + INIT_TAIL@ + CLOSE_FUNCTION@
    }
}

/// One more singleton adds one branch behind those that stand.
pub proof fn lemma_init_branches_push(singletons: Seq<StructModel>, next: StructModel)
    ensures
        concat_all(init_branches(singletons.push(next))) == concat_all(init_branches(singletons))
            + init_branch(singletons.push(next), singletons.len() as int),
{
    let longer = init_branches(singletons.push(next));
    assert(longer.drop_last() =~= init_branches(singletons));
}

impl FfiGenerator {
    /// Emits the accessor from a type's index to its key.
    pub fn gen_component_string_id(&self) -> (out: String)
        ensures
            out@ == component_string_id_text(self@.structs),
    {
        let mut out = String::from_str(STRING_ID_HEAD);
        let ghost head = out@;
        let ghost parts = string_id_cases(self@.structs);
        let mut i: usize = 0;
        proof {
            assert(head + concat_all(parts.take(0)) =~= head);
        }
        while i < self.structs.len()
            invariant
                i <= self.structs.len(),
                parts == string_id_cases(self@.structs),
                out@ == head + concat_all(parts.take(i as int)),
            decreases self.structs.len() - i,
        {
            let mut piece = case_label_text(INDENT_8, i);
            piece.append("return \"");
            piece.append(self.structs[i].string_id.as_str());
            piece.append("\";\n");
            proof {
                assert(piece@ == parts[i as int]);
                lemma_append_part(head, parts, i as int);
            }
            out.append(piece.as_str());
            i += 1;
        }
        proof {
            lemma_all_parts(parts);
        }
        out.append(STRING_ID_TAIL);
        out
    }

    /// Emits an accessor that applies `operator` to the type that a key
    /// names.
    fn gen_component_measure(&self, head: &str, operator: &str) -> (out: String)
        ensures
            out@ == measure_text(self@.structs, head@, operator@),
    {
        let mut out = String::from_str(head);
        if self.structs.len() == 0 {
            out.append(ABORT_4);
        } else {
            let ghost parts = measure_branches(self@.structs, operator@);
            let mut i: usize = 0;
            proof {
                assert(head@ + concat_all(parts.take(0)) =~= head@);
            }
            while i < self.structs.len()
                invariant
                    i <= self.structs.len(),
                    parts == measure_branches(self@.structs, operator@),
                    out@ == head@ + concat_all(parts.take(i as int)),
                decreases self.structs.len() - i,
            {
                let mut piece = branch_open_text(i == 0, &self.structs[i].string_id);
                piece.append("        return ");
                piece.append(operator);
                piece.append("(");
                piece.append(self.structs[i].ident.as_str());
                piece.append(");\n");
                proof {
                    assert(piece@ == parts[i as int]);
                    lemma_append_part(head@, parts, i as int);
                }
                out.append(piece.as_str());
                i += 1;
            }
            proof {
                lemma_all_parts(parts);
            }
            out.append(ELSE_ABORT);
        }
        out.append(CLOSE_FUNCTION);
        out
    }

    /// Emits the accessor from a type's key to its size.
    pub fn gen_component_size(&self) -> (out: String)
        ensures
            out@ == component_size_text(self@.structs),
    {
        self.gen_component_measure(SIZE_HEAD, "sizeof")
    }

    /// Emits the accessor from a type's key to its alignment.
    pub fn gen_component_align(&self) -> (out: String)
        ensures
            out@ == component_align_text(self@.structs),
    {
        self.gen_component_measure(ALIGN_HEAD, "alignof")
    }

    /// Emits the accessor from a type's key to its kind.
    pub fn gen_component_type(&self) -> (out: String)
        ensures
            out@ == component_type_text(self@.structs),
    {
        let mut out = String::from_str(TYPE_HEAD);
        if self.structs.len() == 0 {
            out.append(ABORT_4);
        } else {
            let ghost head = out@;
            let ghost parts = kind_branches(self@.structs);
            let mut i: usize = 0;
            proof {
                assert(head + concat_all(parts.take(0)) =~= head);
            }
            while i < self.structs.len()
                invariant
                    i <= self.structs.len(),
                    parts == kind_branches(self@.structs),
                    out@ == head + concat_all(parts.take(i as int)),
                decreases self.structs.len() - i,
            {
                let info = &self.structs[i];
                let open = branch_open_text(i == 0, &info.string_id);
                let mut body: String;
                match info.struct_type {
                    StructType::Component => {
                        body = String::from_str(STANDARD_LAYOUT);
                        body.append(info.ident.as_str());
                        body.append(ASSERT_END);
                        body.append(TRIVIALLY_COPYABLE);
                        body.append(info.ident.as_str());
                        body.append(ASSERT_END);
                        body.append(RETURN_COMPONENT);
                    },
                    StructType::Resource => {
                        body = String::from_str(RETURN_RESOURCE);
                    },
                }
                proof {
                    assert(body@ == kind_body(info@));
                    assert(open@ + body@ == parts[i as int]);
                    lemma_append_part(head, parts, i as int);
                    assert(out@ + open@ + body@ =~= out@ + (open@ + body@));
                }
                out.append(open.as_str());
                out.append(body.as_str());
                i += 1;
            }
            proof {
                lemma_all_parts(parts);
            }
            out.append(ELSE_ABORT);
        }
        out.append(CLOSE_FUNCTION);
        out
    }

    /// Emits the identity assignment for a host that provides the types
    /// `host`.
    pub fn gen_set_component_ids_for(&self, host: &Vec<String>) -> (out: String)
        ensures
            out@ == set_component_ids_text(identity_table(self@, texts(host@))),
    {
        let rows = self.component_registry(host);
        let ghost table = identity_table(self@, texts(host@));
        let mut out = String::from_str(SET_ID_HEAD);
        if rows.len() > 0 {
            let ghost head = out@;
            let ghost parts = set_id_branches(table);
            let mut i: usize = 0;
            proof {
                assert(head + concat_all(parts.take(0)) =~= head);
            }
            while i < rows.len()
                invariant
                    i <= rows.len(),
                    component_models(rows@) == table,
                    parts == set_id_branches(table),
                    out@ == head + concat_all(parts.take(i as int)),
                decreases rows.len() - i,
            {
                let mut piece = branch_open_text(i == 0, &rows[i].string_id);
                piece.append(SET_ID_OPEN);
                piece.append(rows[i].ident.as_str());
                piece.append(SET_ID_END);
                proof {
                    assert(table[i as int] == rows@[i as int]@);
                    assert(piece@ == parts[i as int]);
                    lemma_append_part(head, parts, i as int);
                }
                out.append(piece.as_str());
                i += 1;
            }
            proof {
                lemma_all_parts(parts);
            }
            out.append(CLOSE_4);
        }
        out.append(CLOSE_FUNCTION);
        out
    }

    /// Emits the identity assignment for a host that provides the well-known
    /// types.
    pub fn gen_set_component_ids(&self) -> (out: String)
        ensures
            out@ == set_component_ids_text(identity_table(self@, well_known_names())),
    {
        let host = well_known_components();
        self.gen_set_component_ids_for(&host)
    }

    /// Emits the function that constructs a singleton into storage of the host.
    pub fn gen_resource_init(&self) -> (out: String)
        ensures
            out@ == resource_init_text(self@.structs),
    {
        let mut out = String::from_str(INIT_HEAD);
        let ghost head = out@;
        let mut count: usize = 0;
        let mut i: usize = 0;
        proof {
            assert(self@.structs.take(0) =~= Seq::<StructModel>::empty());
            assert(head + concat_all(init_branches(Seq::<StructModel>::empty())) =~= head);
        }
        while i < self.structs.len()
            invariant
                i <= self.structs.len(),
                count == resources(self@.structs.take(i as int)).len(),
                count <= i,
                out@ == head + concat_all(init_branches(resources(self@.structs.take(i as int)))),
            decreases self.structs.len() - i,
        {
            let info = &self.structs[i];
            let ghost found = resources(self@.structs.take(i as int));
            proof {
                assert(self@.structs.take(i + 1).drop_last() =~= self@.structs.take(i as int));
                assert(self@.structs.take(i + 1).last() == info@);
            }
            match info.struct_type {
                StructType::Resource => {
                    let mut piece = branch_open_text(count == 0, &info.string_id);
                    piece.append(INIT_OPEN);
                    piece.append(info.ident.as_str());
                    piece.append(INIT_END);
                    proof {
                        lemma_init_branches_push(found, info@);
                        assert(piece@ == init_branch(found.push(info@), found.len() as int));
                        assert(head + concat_all(init_branches(found)) + piece@ =~= head + (
                        concat_all(init_branches(found)) + piece@));
                    }
                    out.append(piece.as_str());
                    count += 1;
                },
                StructType::Component => {},
            }
            i += 1;
        }
        proof {
            assert(self@.structs.take(self.structs.len() as int) =~= self@.structs);
        }
        if count == 0 {
            proof {
                assert(resources(self@.structs) =~= Seq::<StructModel>::empty());
                assert(out@ =~= head);
            }
            out.append(INIT_NONE);
        } else {
            out.append(INIT_TAIL);
        }
        out.append(CLOSE_FUNCTION);
        out
    }
}

} // verus!
