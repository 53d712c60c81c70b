//! The identity table: every type that the host has to give a numeric
//! identity, once, in the order of the names.
//!
//! Candidates are, in this order, the types of the parameters that are
//! accessed directly, the declared types and the types that the host is
//! known to provide. The table holds one entry for each name among them,
//! the entry that comes first among the candidates, and is ordered by name.

use crate::model::{
    ArgType, FfiGenerator, GeneratorModel, InputModel, StructModel, SystemInfo, SystemModel,
};
use crate::registry_laws::lemma_registry;
use crate::text::{texts, to_chars};
use vstd::prelude::*;

verus! {

/// One row of the identity table.
#[derive(Debug, PartialEq, Eq)]
pub struct ComponentInfo {
    pub ident: String,
    pub string_id: String,
}

/// A row of the identity table: the name of a type and its key.
pub struct ComponentModel {
    pub ident: Seq<char>,
    pub string_id: Seq<char>,
}

impl View for ComponentInfo {
    type V = ComponentModel;

    open spec fn view(&self) -> ComponentModel {
        ComponentModel { ident: self.ident@, string_id: self.string_id@ }
    }
}

/// The models of `entries`, one by one.
pub open spec fn component_models(entries: Seq<ComponentInfo>) -> Seq<ComponentModel> {
    Seq::new(entries.len(), |i: int| entries[i]@)
}

/// The namespace of the types that the host provides.
pub open spec fn host_namespace() -> Seq<char> {
    "arete_public::"@
}

/// The names of the types that the host is known to provide.
pub open spec fn well_known_names() -> Seq<Seq<char>> {
    seq![
        "Camera"@,
        "Color"@,
        "DirectionalLight"@,
        "DynamicStaticMesh"@,
        "PointLight"@,
        "Transform"@,
    ]
}

/// Whether `a` comes before `b` in the order of names, looking from
/// position `from` on: at the first position where they differ `a` holds
/// the smaller character, or `a` ends there and `b` goes on.
pub open spec fn lex_lt_from(a: Seq<char>, b: Seq<char>, from: int) -> bool
    decreases a.len() - from,
{
    if from < 0 || from >= b.len() {
        false
    } else if from >= a.len() {
        true
    } else if a[from] != b[from] {
        (a[from] as int) < (b[from] as int)
    } else {
        lex_lt_from(a, b, from + 1)
    }
}

/// Whether the name `a` comes before the name `b`.
pub open spec fn lex_lt(a: Seq<char>, b: Seq<char>) -> bool {
    lex_lt_from(a, b, 0)
}

/// The first declared type at or after `from` that is named `ident`
/// (`structs.len()` when there is none).
pub open spec fn find_struct(structs: Seq<StructModel>, ident: Seq<char>, from: int) -> int
    decreases structs.len() - from,
{
    if 0 <= from < structs.len() && structs[from].ident != ident {
        find_struct(structs, ident, from + 1)
    } else {
        from
    }
}

/// The key of the type named `ident`: that of the first declared type of
/// this name, and the name in the host's namespace when none is declared.
pub open spec fn string_id_of(structs: Seq<StructModel>, ident: Seq<char>) -> Seq<char> {
    let found = find_struct(structs, ident, 0);
    if found < structs.len() {
        structs[found].string_id
    } else {
        host_namespace() + ident
    }
}

/// The candidates that the parameters `inputs` of one routine give: one
/// for each parameter that is no query.
pub open spec fn input_candidates(structs: Seq<StructModel>, inputs: Seq<InputModel>) -> Seq<
    ComponentModel,
>
    decreases inputs.len(),
{
    if inputs.len() == 0 {
        Seq::<ComponentModel>::empty()
    } else if inputs.last().arg_type is Query {
        input_candidates(structs, inputs.drop_last())
    } else {
        input_candidates(structs, inputs.drop_last()).push(
            ComponentModel {
                ident: inputs.last().ident,
                string_id: string_id_of(structs, inputs.last().ident),
            },
        )
    }
}

/// The candidates that the parameters of all `systems` give.
pub open spec fn system_candidates(structs: Seq<StructModel>, systems: Seq<SystemModel>) -> Seq<
    ComponentModel,
>
    decreases systems.len(),
{
    if systems.len() == 0 {
        Seq::<ComponentModel>::empty()
    } else {
        system_candidates(structs, systems.drop_last()) + input_candidates(
            structs,
            systems.last().inputs,
        )
    }
}

/// The candidates that the declared types give.
pub open spec fn struct_candidates(structs: Seq<StructModel>) -> Seq<ComponentModel> {
    Seq::new(
        structs.len(),
        |i: int| ComponentModel { ident: structs[i].ident, string_id: structs[i].string_id },
    )
}

/// The candidates that the host's types give.
pub open spec fn host_candidates(names: Seq<Seq<char>>) -> Seq<ComponentModel> {
    Seq::new(
        names.len(),
        |i: int| ComponentModel { ident: names[i], string_id: host_namespace() + names[i] },
    )
}

/// All candidates for the identity table, in the order in which they
/// count.
pub open spec fn candidates(g: GeneratorModel, host: Seq<Seq<char>>) -> Seq<ComponentModel> {
    system_candidates(g.structs, g.systems) + struct_candidates(g.structs) + host_candidates(host)
}

/// Whether each row's name comes before the names of all rows behind it.
pub open spec fn ordered(table: Seq<ComponentModel>) -> bool {
    forall|i: int, j: int|
        0 <= i < j < table.len() ==> lex_lt(#[trigger] table[i].ident, #[trigger] table[j].ident)
}

/// Whether a row or candidate of `entries` is named `name`.
pub open spec fn has_name(entries: Seq<ComponentModel>, name: Seq<char>) -> bool {
    exists|k: int| 0 <= k < entries.len() && (#[trigger] entries[k]).ident == name
}

/// The first of `entries` at or after `from` that is named `name`
/// (`entries.len()` when there is none).
pub open spec fn first_named(entries: Seq<ComponentModel>, name: Seq<char>, from: int) -> int
    decreases entries.len() - from,
{
    if 0 <= from < entries.len() && entries[from].ident != name {
        first_named(entries, name, from + 1)
    } else {
        from
    }
}

/// The first row at or after `from` whose name does not come before
/// `ident` (`table.len()` when all do).
pub open spec fn lower_bound(table: Seq<ComponentModel>, ident: Seq<char>, from: int) -> int
    decreases table.len() - from,
{
    if 0 <= from < table.len() && lex_lt(table[from].ident, ident) {
        lower_bound(table, ident, from + 1)
    } else {
        from
    }
}

/// The table with `entry` put at its place in the order of names, unless
/// a row of that name stands there already.
pub open spec fn insert_entry(table: Seq<ComponentModel>, entry: ComponentModel) -> Seq<
    ComponentModel,
> {
    let at = lower_bound(table, entry.ident, 0);
    if at < table.len() && table[at].ident == entry.ident {
        table
    } else {
        table.insert(at, entry)
    }
}

/// The table after each of `entries` was put in, in their order.
pub open spec fn insert_all(table: Seq<ComponentModel>, entries: Seq<ComponentModel>) -> Seq<
    ComponentModel,
>
    decreases entries.len(),
{
    if entries.len() == 0 {
        table
    } else {
        insert_entry(insert_all(table, entries.drop_last()), entries.last())
    }
}

/// The identity table of the candidates `entries`.
pub open spec fn registry(entries: Seq<ComponentModel>) -> Seq<ComponentModel> {
    insert_all(Seq::<ComponentModel>::empty(), entries)
}

/// The identity table of a catalogue on a host that provides `host`.
pub open spec fn identity_table(g: GeneratorModel, host: Seq<Seq<char>>) -> Seq<ComponentModel> {
    registry(candidates(g, host))
}

/// The search for the place of `ident` ends behind all rows whose names come
/// before it and at a row whose name does not.
pub proof fn lemma_lower_bound(table: Seq<ComponentModel>, ident: Seq<char>, from: int)
    requires
        0 <= from <= table.len(),
    ensures
        from <= lower_bound(table, ident, from) <= table.len(),
        forall|k: int|
            from <= k < lower_bound(table, ident, from) ==> lex_lt(
                (#[trigger] table[k]).ident,
                ident,
            ),
        lower_bound(table, ident, from) < table.len() ==> !lex_lt(
            table[lower_bound(table, ident, from)].ident,
            ident,
        ),
    decreases table.len() - from,
{
    if from < table.len() && lex_lt(table[from].ident, ident) {
        lemma_lower_bound(table, ident, from + 1);
    }
}

/// `find_struct` returns the first declared type of the name at or after
/// `from`, or the length.
pub proof fn lemma_find_struct(structs: Seq<StructModel>, ident: Seq<char>, from: int)
    requires
        0 <= from <= structs.len(),
    ensures
        from <= find_struct(structs, ident, from) <= structs.len(),
        forall|k: int|
            from <= k < find_struct(structs, ident, from) ==> (#[trigger] structs[k]).ident
                != ident,
        find_struct(structs, ident, from) < structs.len() ==> structs[find_struct(
            structs,
            ident,
            from,
        )].ident == ident,
    decreases structs.len() - from,
{
    if from < structs.len() && structs[from].ident != ident {
        lemma_find_struct(structs, ident, from + 1);
    }
}

/// Putting in one list after another is putting in the two joined.
pub proof fn lemma_insert_all_concat(
    table: Seq<ComponentModel>,
    a: Seq<ComponentModel>,
    b: Seq<ComponentModel>,
)
    ensures
        insert_all(table, a + b) == insert_all(insert_all(table, a), b),
    decreases b.len(),
{
    if b.len() == 0 {
        assert(a + b =~= a);
    } else {
        assert((a + b).drop_last() =~= a + b.drop_last());
        assert((a + b).last() == b.last());
        lemma_insert_all_concat(table, a, b.drop_last());
    }
}

/// Putting in a list and then one more entry is putting in the list that
/// ends with that entry.
pub proof fn lemma_insert_all_push(
    table: Seq<ComponentModel>,
    entries: Seq<ComponentModel>,
    entry: ComponentModel,
)
    ensures
        insert_all(table, entries.push(entry)) == insert_entry(insert_all(table, entries), entry),
{
    assert(entries.push(entry).drop_last() =~= entries);
}

/// Whether `x` has the smaller code point.
pub fn char_precedes(x: char, y: char) -> (r: bool)
    ensures
        r == ((x as int) < (y as int)),
{
    x < y
}

/// Whether the name `a` comes before the name `b`.
pub fn name_precedes(a: &Vec<char>, b: &Vec<char>) -> (r: bool)
    ensures
        r == lex_lt(a@, b@),
{
    let mut i: usize = 0;
    while i < a.len() && i < b.len()
        invariant
            i <= a.len(),
            i <= b.len(),
            lex_lt(a@, b@) == lex_lt_from(a@, b@, i as int),
        decreases a.len() - i,
    {
        if a[i] != b[i] {
            return char_precedes(a[i], b[i]);
        }
        i += 1;
    }
    i < b.len()
}

impl FfiGenerator {
    /// The key of the type named `ident`.
    pub fn string_id(&self, ident: &str) -> (id: String)
        ensures
            id@ == string_id_of(self@.structs, ident@),
    {
        let name = String::from_str(ident);
        let mut i: usize = 0;
        while i < self.structs.len()
            invariant
                i <= self.structs.len(),
                name@ == ident@,
                find_struct(self@.structs, ident@, 0) == find_struct(
                    self@.structs,
                    ident@,
                    i as int,
                ),
            decreases self.structs.len() - i,
        {
            if self.structs[i].ident == name {
                return self.structs[i].string_id.clone();
            }
            i += 1;
        }
        let mut id = String::from_str("arete_public::");
        id.append(ident);
        id
    }
}

/// The names of the types that the host is known to provide.
pub fn well_known_components() -> (names: Vec<String>)
    ensures
        texts(names@) == well_known_names(),
{
    let mut names: Vec<String> = Vec::new();
    names.push(String::from_str("Camera"));
    names.push(String::from_str("Color"));
    names.push(String::from_str("DirectionalLight"));
    names.push(String::from_str("DynamicStaticMesh"));
    names.push(String::from_str("PointLight"));
    names.push(String::from_str("Transform"));
    assert(texts(names@) =~= well_known_names());
    names
}

/// The identity table while it is built: its rows, and the characters of
/// each row's name.
struct Table {
    rows: Vec<ComponentInfo>,
    keys: Vec<Vec<char>>,
}

impl Table {
    spec fn well_formed(&self) -> bool {
        &&& self.keys@.len() == self.rows@.len()
        &&& forall|i: int|
            0 <= i < self.rows@.len() ==> (#[trigger] self.keys@[i])@ == self.rows@[i].ident@
    }

    spec fn model(&self) -> Seq<ComponentModel> {
        component_models(self.rows@)
    }

    fn new() -> (t: Table)
        ensures
            t.well_formed(),
            t.model() == Seq::<ComponentModel>::empty(),
    {
        let t = Table { rows: Vec::new(), keys: Vec::new() };
        assert(t.model() =~= Seq::<ComponentModel>::empty());
        t
    }

    fn insert(&mut self, entry: ComponentInfo)
        requires
            old(self).well_formed(),
        ensures
            final(self).well_formed(),
            final(self).model() == insert_entry(old(self).model(), entry@),
    {
        let key = to_chars(entry.ident.as_str());
        let mut at: usize = 0;
        while at < self.rows.len() && name_precedes(&self.keys[at], &key)
            invariant
                at <= self.rows.len(),
                self.well_formed(),
                *self == *old(self),
                key@ == entry.ident@,
                lower_bound(self.model(), entry.ident@, 0) == lower_bound(
                    self.model(),
                    entry.ident@,
                    at as int,
                ),
            decreases self.rows.len() - at,
        {
            at += 1;
        }
        if at < self.rows.len() && self.rows[at].ident == entry.ident {
            return ;
        }
        let ghost model = entry@;
        self.rows.insert(at, entry);
        self.keys.insert(at, key);
        assert(self.model() =~= old(self).model().insert(at as int, model));
    }
}

impl FfiGenerator {
    /// Puts the candidates that the parameters of `system` give into
    /// `table`.
    fn add_system_candidates(&self, table: &mut Table, system: &SystemInfo)
        requires
            old(table).well_formed(),
        ensures
            final(table).well_formed(),
            final(table).model() == insert_all(
                old(table).model(),
                input_candidates(self@.structs, system@.inputs),
            ),
    {
        let mut j: usize = 0;
        while j < system.inputs.len()
            invariant
                j <= system.inputs.len(),
                table.well_formed(),
                table.model() == insert_all(
                    old(table).model(),
                    input_candidates(self@.structs, system@.inputs.take(j as int)),
                ),
            decreases system.inputs.len() - j,
        {
            let input = &system.inputs[j];
            let ghost done = input_candidates(self@.structs, system@.inputs.take(j as int));
            proof {
                assert(system@.inputs.take(j + 1).drop_last() =~= system@.inputs.take(j as int));
                assert(system@.inputs.take(j + 1).last() == input@);
            }
            match &input.arg_type {
                ArgType::Query { .. } => {},
                _ => {
                    let entry = ComponentInfo {
                        ident: input.ident.clone(),
                        string_id: self.string_id(input.ident.as_str()),
                    };
                    proof {
                        lemma_insert_all_push(old(table).model(), done, entry@);
                    }
                    table.insert(entry);
                },
            }
            j += 1;
        }
        assert(system@.inputs.take(system.inputs.len() as int) =~= system@.inputs);
    }

    /// The identity table on a host that provides the types `host`.
    pub fn component_registry(&self, host: &Vec<String>) -> (rows: Vec<ComponentInfo>)
        ensures
            component_models(rows@) == identity_table(self@, texts(host@)),
            ordered(component_models(rows@)),
            forall|name: Seq<char>|
                has_name(component_models(rows@), name) <==> has_name(
                    candidates(self@, texts(host@)),
                    name,
                ),
            forall|i: int|
                0 <= i < rows@.len() ==> (#[trigger] rows@[i])@ == candidates(
                    self@,
                    texts(host@),
                )[first_named(candidates(self@, texts(host@)), rows@[i].ident@, 0)],
    {
        proof {
            lemma_registry(candidates(self@, texts(host@)));
        }
        let mut table = Table::new();
        let ghost structs = self@.structs;
        let ghost names = texts(host@);
        let mut i: usize = 0;
        while i < self.systems.len()
            invariant
                i <= self.systems.len(),
                structs == self@.structs,
                table.well_formed(),
                table.model() == registry(system_candidates(structs, self@.systems.take(i as int))),
            decreases self.systems.len() - i,
        {
            let ghost done = system_candidates(structs, self@.systems.take(i as int));
            proof {
                assert(self@.systems.take(i + 1).drop_last() =~= self@.systems.take(i as int));
                assert(self@.systems.take(i + 1).last() == self.systems@[i as int]@);
                lemma_insert_all_concat(
                    Seq::<ComponentModel>::empty(),
                    done,
                    input_candidates(structs, self.systems@[i as int]@.inputs),
                );
            }
            self.add_system_candidates(&mut table, &self.systems[i]);
            i += 1;
        }
        assert(self@.systems.take(self.systems.len() as int) =~= self@.systems);
        let ghost first = system_candidates(structs, self@.systems);
        let mut k: usize = 0;
        while k < self.structs.len()
            invariant
                k <= self.structs.len(),
                structs == self@.structs,
                first == system_candidates(structs, self@.systems),
                table.well_formed(),
                table.model() == registry(first + struct_candidates(structs).take(k as int)),
            decreases self.structs.len() - k,
        {
            let info = &self.structs[k];
            let entry = ComponentInfo { ident: info.ident.clone(), string_id: info.string_id.clone() };
            proof {
                let done = first + struct_candidates(structs).take(k as int);
                lemma_insert_all_push(Seq::<ComponentModel>::empty(), done, entry@);
                assert(done.push(entry@) =~= first + struct_candidates(structs).take(k + 1));
            }
            table.insert(entry);
            k += 1;
        }
        assert(struct_candidates(structs).take(self.structs.len() as int) =~= struct_candidates(
            structs,
        ));
        let ghost second = first + struct_candidates(structs);
        let mut h: usize = 0;
        while h < host.len()
            invariant
                h <= host.len(),
                names == texts(host@),
                second == system_candidates(self@.structs, self@.systems) + struct_candidates(
                    self@.structs,
                ),
                table.well_formed(),
                table.model() == registry(second + host_candidates(names).take(h as int)),
            decreases host.len() - h,
        {
            let mut string_id = String::from_str("arete_public::");
            string_id.append(host[h].as_str());
            let entry = ComponentInfo { ident: host[h].clone(), string_id };
            proof {
                let done = second + host_candidates(names).take(h as int);
                lemma_insert_all_push(Seq::<ComponentModel>::empty(), done, entry@);
                assert(done.push(entry@) =~= second + host_candidates(names).take(h + 1));
            }
            table.insert(entry);
            h += 1;
        }
        assert(host_candidates(names).take(host.len() as int) =~= host_candidates(names));
        let rows = table.rows;
        proof {
            let all = candidates(self@, texts(host@));
            assert forall|i: int| 0 <= i < rows@.len() implies (#[trigger] rows@[i])@
                == all[first_named(all, rows@[i].ident@, 0)] by {
                assert(registry(all)[i] == rows@[i]@);
            }
        }
        rows
    }
}

} // verus!
