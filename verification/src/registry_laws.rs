//! What holds of every identity table: it is ordered by name, holds each
//! candidate's name once, keeps for each name the candidate that comes
//! first, and lists its names in an order that the order of the
//! candidates does not change.

use crate::model::{GeneratorModel, InputModel, StructModel, SystemModel};
use crate::registry::{
    candidates, find_struct, host_candidates, host_namespace, identity_table, input_candidates,
    first_named, has_name, insert_entry, lemma_find_struct, lemma_insert_all_push,
    lemma_lower_bound, lex_lt, lex_lt_from, lower_bound, ordered, registry, string_id_of,
    struct_candidates, system_candidates, ComponentModel,
};
use vstd::prelude::*;

verus! {

/// The names of `table`, row by row.
pub open spec fn idents(table: Seq<ComponentModel>) -> Seq<Seq<char>> {
    Seq::new(table.len(), |i: int| table[i].ident)
}

/// Whether a declared type is named `name`.
pub open spec fn declares(structs: Seq<StructModel>, name: Seq<char>) -> bool {
    exists|k: int| 0 <= k < structs.len() && (#[trigger] structs[k]).ident == name
}

/// No name comes before itself.
pub proof fn lemma_lex_irreflexive(a: Seq<char>, from: int)
    requires
        0 <= from,
    ensures
        !lex_lt_from(a, a, from),
    decreases a.len() - from,
{
    if from < a.len() {
        lemma_lex_irreflexive(a, from + 1);
    }
}

/// The order of names is transitive.
pub proof fn lemma_lex_transitive(a: Seq<char>, b: Seq<char>, c: Seq<char>, from: int)
    requires
        0 <= from,
        lex_lt_from(a, b, from),
        lex_lt_from(b, c, from),
    ensures
        lex_lt_from(a, c, from),
    decreases a.len() - from,
{
    if from < a.len() && a[from] == b[from] && b[from] == c[from] {
        lemma_lex_transitive(a, b, c, from + 1);
    }
}

/// Of two names that agree before `from`, one comes before the other or
/// they are the same name.
pub proof fn lemma_lex_total(a: Seq<char>, b: Seq<char>, from: int)
    requires
        0 <= from <= a.len(),
        from <= b.len(),
        forall|k: int| 0 <= k < from ==> a[k] == b[k],
    ensures
        lex_lt_from(a, b, from) || lex_lt_from(b, a, from) || a == b,
    decreases a.len() - from,
{
    if from == a.len() || from == b.len() {
        if from == a.len() && from == b.len() {
            assert(a =~= b);
        }
    } else if a[from] == b[from] {
        lemma_lex_total(a, b, from + 1);
    }
}

/// No two names come each before the other.
pub proof fn lemma_lex_asymmetric(a: Seq<char>, b: Seq<char>)
    requires
        lex_lt(a, b),
    ensures
        !lex_lt(b, a),
        a != b,
{
    lemma_lex_irreflexive(a, 0);
    if lex_lt(b, a) {
        lemma_lex_transitive(a, b, a, 0);
    }
}

/// `first_named` returns the first entry of the name at or after `from`, or
/// the length.
pub proof fn lemma_first_named(entries: Seq<ComponentModel>, name: Seq<char>, from: int)
    requires
        0 <= from <= entries.len(),
    ensures
        from <= first_named(entries, name, from) <= entries.len(),
        forall|k: int|
            from <= k < first_named(entries, name, from) ==> (#[trigger] entries[k]).ident != name,
        first_named(entries, name, from) < entries.len() ==> entries[first_named(
            entries,
            name,
            from,
        )].ident == name,
    decreases entries.len() - from,
{
    if from < entries.len() && entries[from].ident != name {
        lemma_first_named(entries, name, from + 1);
    }
}

/// In an ordered table the row named `name` stands where the search for
/// the place of `name` ends.
pub proof fn lemma_place_of_row(table: Seq<ComponentModel>, at: int)
    requires
        ordered(table),
        0 <= at < table.len(),
    ensures
        lower_bound(table, table[at].ident, 0) == at,
{
    let name = table[at].ident;
    let found = lower_bound(table, name, 0);
    lemma_lower_bound(table, name, 0);
    lemma_lex_irreflexive(name, 0);
    if found < at {
        assert(lex_lt(table[found].ident, table[at].ident));
    } else if found > at {
        assert(lex_lt(table[at].ident, name));
    }
}

/// Putting an entry into an ordered table keeps it ordered, adds the
/// entry's name to its names and no other, and keeps every row that stood
/// there.
pub proof fn lemma_insert_entry(table: Seq<ComponentModel>, entry: ComponentModel)
    requires
        ordered(table),
    ensures
        ordered(insert_entry(table, entry)),
        forall|name: Seq<char>|
            has_name(insert_entry(table, entry), name) <==> (has_name(table, name) || name
                == entry.ident),
        has_name(table, entry.ident) ==> insert_entry(table, entry) == table,
        !has_name(table, entry.ident) ==> insert_entry(table, entry) == table.insert(
            lower_bound(table, entry.ident, 0),
            entry,
        ),
{
    let at = lower_bound(table, entry.ident, 0);
    let after = insert_entry(table, entry);
    lemma_lower_bound(table, entry.ident, 0);
    if has_name(table, entry.ident) {
        let k = choose|k: int| 0 <= k < table.len() && (#[trigger] table[k]).ident == entry.ident;
        lemma_place_of_row(table, k);
        assert(after == table);
        assert forall|name: Seq<char>|
            has_name(after, name) <==> (has_name(table, name) || name == entry.ident) by {}
    } else {
        if at < table.len() {
            assert(table[at].ident != entry.ident);
        }
        assert(after == table.insert(at, entry));
        assert forall|i: int, j: int| 0 <= i < j < after.len() implies lex_lt(
            #[trigger] after[i].ident,
            #[trigger] after[j].ident,
        ) by {
            if j == at {
                assert(after[i] == table[i]);
            } else if i == at {
                lemma_lex_total(table[at].ident, entry.ident, 0);
                assert(after[j] == table[j - 1]);
                if j - 1 > at {
                    assert(lex_lt(table[at].ident, table[j - 1].ident));
                    lemma_lex_transitive(entry.ident, table[at].ident, table[j - 1].ident, 0);
                }
            } else {
                let oi = if i < at {
                    i
                } else {
                    i - 1
                };
                let oj = if j < at {
                    j
                } else {
                    j - 1
                };
                assert(after[i] == table[oi]);
                assert(after[j] == table[oj]);
            }
        }
        assert forall|name: Seq<char>|
            has_name(after, name) <==> (has_name(table, name) || name == entry.ident) by {
            if has_name(after, name) {
                let k = choose|k: int| 0 <= k < after.len() && (#[trigger] after[k]).ident == name;
                if k < at {
                    assert(table[k].ident == name);
                } else if k > at {
                    assert(table[k - 1].ident == name);
                }
            }
            if has_name(table, name) {
                let k = choose|k: int| 0 <= k < table.len() && (#[trigger] table[k]).ident == name;
                if k < at {
                    assert(after[k].ident == name);
                } else {
                    assert(after[k + 1].ident == name);
                }
            }
            if name == entry.ident {
                assert(after[at].ident == name);
            }
        }
    }
}

/// The identity table is ordered by name, so no name stands in it twice;
/// it holds the names of the candidates and no others; and each row is the
/// first candidate of its name.
pub proof fn lemma_registry(entries: Seq<ComponentModel>)
    ensures
        ordered(registry(entries)),
        forall|i: int, j: int|
            0 <= i < j < registry(entries).len() ==> (#[trigger] registry(entries)[i]).ident != (
            #[trigger] registry(entries)[j]).ident,
        forall|name: Seq<char>|
            #![trigger has_name(registry(entries), name)]
            #![trigger has_name(entries, name)]
            has_name(registry(entries), name) <==> has_name(entries, name),
        forall|i: int|
            0 <= i < registry(entries).len() ==> first_named(
                entries,
                (#[trigger] registry(entries)[i]).ident,
                0,
            ) < entries.len() && registry(entries)[i] == entries[first_named(
                entries,
                registry(entries)[i].ident,
                0,
            )],
    decreases entries.len(),
{
    let table = registry(entries);
    if entries.len() == 0 {
        assert forall|name: Seq<char>| has_name(table, name) <==> has_name(entries, name) by {}
    } else {
        let rest = entries.drop_last();
        let last = entries.last();
        let before = registry(rest);
        lemma_registry(rest);
        lemma_insert_entry(before, last);
        lemma_lower_bound(before, last.ident, 0);
        assert(table == insert_entry(before, last));
        assert forall|name: Seq<char>| has_name(table, name) <==> has_name(entries, name) by {
            if has_name(rest, name) {
                let k = choose|k: int| 0 <= k < rest.len() && (#[trigger] rest[k]).ident == name;
                assert(entries[k].ident == name);
            }
            if has_name(entries, name) {
                let k = choose|k: int|
                    0 <= k < entries.len() && (#[trigger] entries[k]).ident == name;
                if k < rest.len() {
                    assert(rest[k].ident == name);
                }
            }
        }
        assert forall|i: int| 0 <= i < table.len() implies first_named(
            entries,
            (#[trigger] table[i]).ident,
            0,
        ) < entries.len() && table[i] == entries[first_named(entries, table[i].ident, 0)] by {
            let name = table[i].ident;
            lemma_first_named(entries, name, 0);
            lemma_first_named(rest, name, 0);
            let at = lower_bound(before, last.ident, 0);
            if has_name(before, last.ident) || i != at {
                let old = if has_name(before, last.ident) || i < at {
                    i
                } else {
                    i - 1
                };
                assert(table[i] == before[old]);
                let first = first_named(rest, name, 0);
                assert(first < rest.len() && before[old] == rest[first]);
                assert(entries[first] == rest[first]);
                let again = first_named(entries, name, 0);
                if again < first {
                    assert(rest[again].ident == name);
                } else if again > first {
                    assert(entries[first].ident == name);
                }
            } else {
                assert(table[i] == last);
                let first = first_named(entries, name, 0);
                if first < rest.len() {
                    assert(rest[first].ident == name);
                    assert(has_name(rest, name));
                }
                assert(entries[rest.len() as int] == last);
            }
        }
        assert forall|i: int, j: int| 0 <= i < j < table.len() implies (#[trigger] table[i]).ident
            != (#[trigger] table[j]).ident by {
            lemma_lex_asymmetric(table[i].ident, table[j].ident);
        }
    }
}

/// A candidate whose name stands among the candidates before it leaves the
/// table as it is: declaring a name once more adds no row.
pub proof fn lemma_repeated_name_adds_no_row(entries: Seq<ComponentModel>, entry: ComponentModel)
    requires
        has_name(entries, entry.ident),
    ensures
        registry(entries.push(entry)) == registry(entries),
{
    lemma_registry(entries);
    lemma_insert_all_push(Seq::<ComponentModel>::empty(), entries, entry);
    lemma_insert_entry(registry(entries), entry);
}

/// Two ordered tables with the same names agree on the names of their
/// first `n` rows, and one has `n` rows or more exactly if the other has.
proof fn lemma_same_names_same_rows(a: Seq<ComponentModel>, b: Seq<ComponentModel>, n: int)
    requires
        ordered(a),
        ordered(b),
        forall|name: Seq<char>| has_name(a, name) <==> has_name(b, name),
        0 <= n,
    ensures
        a.len() >= n || a.len() == b.len(),
        b.len() >= n || a.len() == b.len(),
        forall|m: int|
            0 <= m < n && m < a.len() && m < b.len() ==> (#[trigger] a[m]).ident == b[m].ident,
    decreases n,
{
    if n > 0 {
        lemma_same_names_same_rows(a, b, n - 1);
        let m = n - 1;
        if m < a.len() {
            lemma_row_matches(a, b, m);
        }
        if m < b.len() {
            lemma_row_matches(b, a, m);
        }
    }
}

/// If two ordered tables with the same names agree on the rows before `m`
/// and the first has a row `m`, the second has it too, under the same
/// name.
proof fn lemma_row_matches(a: Seq<ComponentModel>, b: Seq<ComponentModel>, m: int)
    requires
        ordered(a),
        ordered(b),
        forall|name: Seq<char>| has_name(a, name) <==> has_name(b, name),
        0 <= m < a.len(),
        m <= b.len(),
        forall|k: int| 0 <= k < m ==> (#[trigger] a[k]).ident == b[k].ident,
    ensures
        m < b.len(),
        a[m].ident == b[m].ident,
{
    let name = a[m].ident;
    assert(has_name(a, name));
    assert(has_name(b, name));
    let j = choose|j: int| 0 <= j < b.len() && (#[trigger] b[j]).ident == name;
    lemma_lex_irreflexive(name, 0);
    if j < m {
        assert(a[j].ident == b[j].ident);
        assert(lex_lt(a[j].ident, a[m].ident));
    }
    if j > m {
        let other = b[m].ident;
        assert(has_name(b, other));
        assert(has_name(a, other));
        let i = choose|i: int| 0 <= i < a.len() && (#[trigger] a[i]).ident == other;
        assert(lex_lt(b[m].ident, b[j].ident));
        lemma_lex_irreflexive(other, 0);
        if i < m {
            assert(a[i].ident == b[i].ident);
            assert(lex_lt(b[i].ident, b[m].ident));
        } else if i > m {
            assert(lex_lt(a[m].ident, a[i].ident));
            lemma_lex_asymmetric(other, name);
        }
    }
}

/// The order of the rows depends on the names alone: candidates with the
/// same names, in whatever order and however often, give tables that list
/// the same names in the same order.
pub proof fn lemma_order_independent(a: Seq<ComponentModel>, b: Seq<ComponentModel>)
    requires
        forall|name: Seq<char>| has_name(a, name) <==> has_name(b, name),
    ensures
        idents(registry(a)) == idents(registry(b)),
{
    let ta = registry(a);
    let tb = registry(b);
    lemma_registry(a);
    lemma_registry(b);
    assert forall|name: Seq<char>| has_name(ta, name) <==> has_name(tb, name) by {
        assert(has_name(ta, name) <==> has_name(a, name));
        assert(has_name(tb, name) <==> has_name(b, name));
    }
    let n = ta.len() + tb.len() + 1;
    lemma_same_names_same_rows(ta, tb, n as int);
    assert(ta.len() == tb.len());
    assert(idents(ta) =~= idents(tb));
}

/// A type that is not declared has its key in the host's namespace.
pub proof fn lemma_undeclared_is_host_provided(structs: Seq<StructModel>, ident: Seq<char>)
    requires
        !declares(structs, ident),
    ensures
        string_id_of(structs, ident) == host_namespace() + ident,
{
    lemma_find_struct(structs, ident, 0);
    let found = find_struct(structs, ident, 0);
    if found < structs.len() {
        assert(structs[found].ident == ident);
    }
}

/// A type that is declared has the key of its first declaration.
pub proof fn lemma_declared_has_own_key(structs: Seq<StructModel>, at: int)
    requires
        0 <= at < structs.len(),
        forall|k: int| 0 <= k < at ==> (#[trigger] structs[k]).ident != structs[at].ident,
    ensures
        string_id_of(structs, structs[at].ident) == structs[at].string_id,
{
    lemma_find_struct(structs, structs[at].ident, 0);
    let found = find_struct(structs, structs[at].ident, 0);
    if found > at {
        assert(structs[at].ident != structs[at].ident);
    }
    if found < at {
        assert(structs[found].ident != structs[at].ident);
    }
}

/// The names among the candidates that parameters give do not depend on
/// the declared types.
proof fn lemma_input_names(
    a: Seq<StructModel>,
    b: Seq<StructModel>,
    inputs: Seq<InputModel>,
    name: Seq<char>,
)
    ensures
        has_name(input_candidates(a, inputs), name) <==> has_name(
            input_candidates(b, inputs),
            name,
        ),
        has_name(input_candidates(a, inputs), name) <==> exists|j: int|
            0 <= j < inputs.len() && !((#[trigger] inputs[j]).arg_type is Query) && inputs[j].ident
                == name,
    decreases inputs.len(),
{
    let ca = input_candidates(a, inputs);
    let cb = input_candidates(b, inputs);
    if inputs.len() > 0 {
        let rest = inputs.drop_last();
        lemma_input_names(a, b, rest, name);
        let ra = input_candidates(a, rest);
        let rb = input_candidates(b, rest);
        let occurs_rest = exists|j: int|
            0 <= j < rest.len() && !((#[trigger] rest[j]).arg_type is Query) && rest[j].ident
                == name;
        let occurs = exists|j: int|
            0 <= j < inputs.len() && !((#[trigger] inputs[j]).arg_type is Query) && inputs[j].ident
                == name;
        let last = inputs.last();
        let counts = !(last.arg_type is Query) && last.ident == name;
        assert(occurs <==> (occurs_rest || counts)) by {
            if occurs_rest {
                let j = choose|j: int|
                    0 <= j < rest.len() && !((#[trigger] rest[j]).arg_type is Query)
                        && rest[j].ident == name;
                assert(inputs[j] == rest[j]);
            }
            if occurs {
                let j = choose|j: int|
                    0 <= j < inputs.len() && !((#[trigger] inputs[j]).arg_type is Query)
                        && inputs[j].ident == name;
                if j < rest.len() {
                    assert(rest[j] == inputs[j]);
                }
            }
            if counts {
                assert(inputs[inputs.len() - 1] == last);
            }
        }
        if !(last.arg_type is Query) {
            assert(ca.drop_last() =~= ra);
            assert(cb.drop_last() =~= rb);
        }
        lemma_has_name_push_or_same(ra, ca, last, !(last.arg_type is Query), name);
        lemma_has_name_push_or_same(rb, cb, last, !(last.arg_type is Query), name);
    }
}

/// The names of a list that is another list, or that list with one more
/// entry named as `last`.
proof fn lemma_has_name_push_or_same(
    rest: Seq<ComponentModel>,
    all: Seq<ComponentModel>,
    last: InputModel,
    pushed: bool,
    name: Seq<char>,
)
    requires
        pushed ==> all.len() == rest.len() + 1 && all.drop_last() == rest && all.last().ident
            == last.ident,
        !pushed ==> all == rest,
    ensures
        has_name(all, name) <==> (has_name(rest, name) || (pushed && last.ident == name)),
{
    if pushed {
        if has_name(all, name) {
            let k = choose|k: int| 0 <= k < all.len() && (#[trigger] all[k]).ident == name;
            if k < rest.len() {
                assert(rest[k] == all[k]);
            }
        }
        if has_name(rest, name) {
            let k = choose|k: int| 0 <= k < rest.len() && (#[trigger] rest[k]).ident == name;
            assert(all[k] == rest[k]);
        }
        if last.ident == name {
            assert(all[all.len() - 1].ident == name);
        }
    }
}

/// The names of two lists joined are the names of either.
pub proof fn lemma_has_name_concat(a: Seq<ComponentModel>, b: Seq<ComponentModel>, name: Seq<char>)
    ensures
        has_name(a + b, name) <==> (has_name(a, name) || has_name(b, name)),
{
    if has_name(a + b, name) {
        let k = choose|k: int| 0 <= k < (a + b).len() && (#[trigger] (a + b)[k]).ident == name;
        if k < a.len() {
            assert(a[k].ident == name);
        } else {
            assert(b[k - a.len()].ident == name);
        }
    }
    if has_name(a, name) {
        let k = choose|k: int| 0 <= k < a.len() && (#[trigger] a[k]).ident == name;
        assert((a + b)[k].ident == name);
    }
    if has_name(b, name) {
        let k = choose|k: int| 0 <= k < b.len() && (#[trigger] b[k]).ident == name;
        assert((a + b)[k + a.len()].ident == name);
    }
}

proof fn lemma_system_names(
    a: Seq<StructModel>,
    b: Seq<StructModel>,
    systems: Seq<SystemModel>,
    name: Seq<char>,
)
    ensures
        has_name(system_candidates(a, systems), name) <==> has_name(
            system_candidates(b, systems),
            name,
        ),
    decreases systems.len(),
{
    if systems.len() > 0 {
        lemma_system_names(a, b, systems.drop_last(), name);
        lemma_input_names(a, b, systems.last().inputs, name);
        lemma_has_name_concat(
            system_candidates(a, systems.drop_last()),
            input_candidates(a, systems.last().inputs),
            name,
        );
        lemma_has_name_concat(
            system_candidates(b, systems.drop_last()),
            input_candidates(b, systems.last().inputs),
            name,
        );
    }
}

proof fn lemma_struct_names(structs: Seq<StructModel>, name: Seq<char>)
    ensures
        has_name(struct_candidates(structs), name) <==> declares(structs, name),
{
    let c = struct_candidates(structs);
    if has_name(c, name) {
        let k = choose|k: int| 0 <= k < c.len() && (#[trigger] c[k]).ident == name;
        assert(structs[k].ident == name);
    }
    if declares(structs, name) {
        let k = choose|k: int| 0 <= k < structs.len() && (#[trigger] structs[k]).ident == name;
        assert(c[k].ident == name);
    }
}

/// Two catalogues with the same routines whose declared types carry the
/// same names, in whatever order, have identity tables that list the same
/// names in the same order.
pub proof fn lemma_declaration_order_is_immaterial(
    a: GeneratorModel,
    b: GeneratorModel,
    host: Seq<Seq<char>>,
)
    requires
        a.systems == b.systems,
        forall|name: Seq<char>| declares(a.structs, name) <==> declares(b.structs, name),
    ensures
        idents(identity_table(a, host)) == idents(identity_table(b, host)),
{
    let ca = candidates(a, host);
    let cb = candidates(b, host);
    assert forall|name: Seq<char>| has_name(ca, name) <==> has_name(cb, name) by {
        lemma_system_names(a.structs, b.structs, a.systems, name);
        lemma_struct_names(a.structs, name);
        lemma_struct_names(b.structs, name);
        lemma_has_name_concat(
            system_candidates(a.structs, a.systems),
            struct_candidates(a.structs),
            name,
        );
        lemma_has_name_concat(
            system_candidates(b.structs, b.systems),
            struct_candidates(b.structs),
            name,
        );
        lemma_has_name_concat(
            system_candidates(a.structs, a.systems) + struct_candidates(a.structs),
            host_candidates(host),
            name,
        );
        lemma_has_name_concat(
            system_candidates(b.structs, b.systems) + struct_candidates(b.structs),
            host_candidates(host),
            name,
        );
    }
    lemma_order_independent(ca, cb);
}

/// Whether a routine of `systems` takes a parameter of the type `name`
/// that is no query.
pub open spec fn is_parameter_type(systems: Seq<SystemModel>, name: Seq<char>) -> bool {
    exists|i: int, j: int|
        0 <= i < systems.len() && 0 <= j < systems[i].inputs.len() && !((
        #[trigger] systems[i].inputs[j]).arg_type is Query) && systems[i].inputs[j].ident == name
}

/// Whether the host provides a type named `name`.
pub open spec fn is_host_type(host: Seq<Seq<char>>, name: Seq<char>) -> bool {
    exists|k: int| 0 <= k < host.len() && #[trigger] host[k] == name
}

/// Whether declared types of one name have one key, in `a`, in `b` and
/// across the two.
pub open spec fn keyed_by_name(a: Seq<StructModel>, b: Seq<StructModel>) -> bool {
    forall|i: int, j: int|
        0 <= i < a.len() && 0 <= j < b.len() && (#[trigger] a[i]).ident == (#[trigger] b[j]).ident
            ==> a[i].string_id == b[j].string_id
}

proof fn lemma_parameter_names(structs: Seq<StructModel>, systems: Seq<SystemModel>, name: Seq<char>)
    ensures
        has_name(system_candidates(structs, systems), name) <==> is_parameter_type(systems, name),
    decreases systems.len(),
{
    if systems.len() > 0 {
        let rest = systems.drop_last();
        let last = systems.last();
        lemma_parameter_names(structs, rest, name);
        lemma_input_names(structs, structs, last.inputs, name);
        lemma_has_name_concat(
            system_candidates(structs, rest),
            input_candidates(structs, last.inputs),
            name,
        );
        let in_last = exists|j: int|
            0 <= j < last.inputs.len() && !((#[trigger] last.inputs[j]).arg_type is Query)
                && last.inputs[j].ident == name;
        if is_parameter_type(rest, name) {
            let (i, j) = choose|i: int, j: int|
                0 <= i < rest.len() && 0 <= j < rest[i].inputs.len() && !((
                #[trigger] rest[i].inputs[j]).arg_type is Query) && rest[i].inputs[j].ident
                    == name;
            assert(systems[i] == rest[i]);
            assert(!(systems[i].inputs[j].arg_type is Query));
        }
        if in_last {
            let j = choose|j: int|
                0 <= j < last.inputs.len() && !((#[trigger] last.inputs[j]).arg_type is Query)
                    && last.inputs[j].ident == name;
            assert(systems[systems.len() - 1] == last);
            assert(!(systems[systems.len() - 1].inputs[j].arg_type is Query));
        }
        if is_parameter_type(systems, name) {
            let (i, j) = choose|i: int, j: int|
                0 <= i < systems.len() && 0 <= j < systems[i].inputs.len() && !((
                #[trigger] systems[i].inputs[j]).arg_type is Query) && systems[i].inputs[j].ident
                    == name;
            if i < rest.len() {
                assert(rest[i] == systems[i]);
                assert(!(rest[i].inputs[j].arg_type is Query));
            } else {
                assert(!(last.inputs[j].arg_type is Query));
            }
        }
    }
}

proof fn lemma_host_names(host: Seq<Seq<char>>, name: Seq<char>)
    ensures
        has_name(host_candidates(host), name) <==> is_host_type(host, name),
{
    let c = host_candidates(host);
    if has_name(c, name) {
        let k = choose|k: int| 0 <= k < c.len() && (#[trigger] c[k]).ident == name;
        assert(host[k] == name);
    }
    if is_host_type(host, name) {
        let k = choose|k: int| 0 <= k < host.len() && #[trigger] host[k] == name;
        assert(c[k].ident == name);
    }
}

/// The identity table of a catalogue holds a row for a name exactly if a
/// parameter that is no query has this type, a type of this name is
/// declared or the host provides one; and however often the name occurs
/// among them, it holds one row for it.
pub proof fn lemma_each_name_has_one_row(g: GeneratorModel, host: Seq<Seq<char>>, name: Seq<char>)
    ensures
        has_name(identity_table(g, host), name) <==> (is_parameter_type(g.systems, name)
            || declares(g.structs, name) || is_host_type(host, name)),
        forall|i: int, j: int|
            0 <= i < j < identity_table(g, host).len() ==> (#[trigger] identity_table(
                g,
                host,
            )[i]).ident != (#[trigger] identity_table(g, host)[j]).ident,
{
    let first = system_candidates(g.structs, g.systems);
    let second = struct_candidates(g.structs);
    let third = host_candidates(host);
    lemma_registry(candidates(g, host));
    lemma_parameter_names(g.structs, g.systems, name);
    lemma_struct_names(g.structs, name);
    lemma_host_names(host, name);
    lemma_has_name_concat(first, second, name);
    lemma_has_name_concat(first + second, third, name);
    assert(has_name(identity_table(g, host), name) <==> has_name(candidates(g, host), name));
}

proof fn lemma_input_candidates_resolved(structs: Seq<StructModel>, inputs: Seq<InputModel>)
    ensures
        forall|k: int|
            0 <= k < input_candidates(structs, inputs).len() ==> (#[trigger] input_candidates(
                structs,
                inputs,
            )[k]).string_id == string_id_of(structs, input_candidates(structs, inputs)[k].ident),
    decreases inputs.len(),
{
    if inputs.len() > 0 {
        lemma_input_candidates_resolved(structs, inputs.drop_last());
        let all = input_candidates(structs, inputs);
        let rest = input_candidates(structs, inputs.drop_last());
        assert forall|k: int| 0 <= k < all.len() implies (#[trigger] all[k]).string_id
            == string_id_of(structs, all[k].ident) by {
            if k < rest.len() {
                assert(all[k] == rest[k]);
            }
        }
    }
}

proof fn lemma_system_candidates_resolved(structs: Seq<StructModel>, systems: Seq<SystemModel>)
    ensures
        forall|k: int|
            0 <= k < system_candidates(structs, systems).len() ==> (#[trigger] system_candidates(
                structs,
                systems,
            )[k]).string_id == string_id_of(structs, system_candidates(structs, systems)[k].ident),
    decreases systems.len(),
{
    if systems.len() > 0 {
        lemma_system_candidates_resolved(structs, systems.drop_last());
        lemma_input_candidates_resolved(structs, systems.last().inputs);
        let all = system_candidates(structs, systems);
        let rest = system_candidates(structs, systems.drop_last());
        let last = input_candidates(structs, systems.last().inputs);
        assert forall|k: int| 0 <= k < all.len() implies (#[trigger] all[k]).string_id
            == string_id_of(structs, all[k].ident) by {
            if k < rest.len() {
                assert(all[k] == rest[k]);
            } else {
                assert(all[k] == last[k - rest.len()]);
            }
        }
    }
}

/// A row whose name is not declared has its key in the host's namespace:
/// a type that only parameters or the host name is taken to be the host's.
pub proof fn lemma_undeclared_row_is_host_provided(
    g: GeneratorModel,
    host: Seq<Seq<char>>,
    i: int,
)
    requires
        0 <= i < identity_table(g, host).len(),
        !declares(g.structs, identity_table(g, host)[i].ident),
    ensures
        identity_table(g, host)[i].string_id == host_namespace() + identity_table(
            g,
            host,
        )[i].ident,
{
    let all = candidates(g, host);
    let first = system_candidates(g.structs, g.systems);
    let second = struct_candidates(g.structs);
    let third = host_candidates(host);
    lemma_registry(all);
    lemma_system_candidates_resolved(g.structs, g.systems);
    let row = identity_table(g, host)[i];
    let k = first_named(all, row.ident, 0);
    lemma_first_named(all, row.ident, 0);
    lemma_undeclared_is_host_provided(g.structs, row.ident);
    assert(all[k] == row);
    if k < first.len() {
        assert(all[k] == first[k]);
    } else if k < first.len() + second.len() {
        assert(all[k] == second[k - first.len()]);
        assert(g.structs[k - first.len()].ident == row.ident);
    } else {
        assert(all[k] == third[k - first.len() - second.len()]);
    }
}

/// A row whose name is declared has the key of a declared type of this
/// name: a declaration goes before what the host provides.
pub proof fn lemma_declared_row_has_declared_key(g: GeneratorModel, host: Seq<Seq<char>>, i: int)
    requires
        0 <= i < identity_table(g, host).len(),
        declares(g.structs, identity_table(g, host)[i].ident),
    ensures
        exists|m: int|
            0 <= m < g.structs.len() && (#[trigger] g.structs[m]).ident == identity_table(
                g,
                host,
            )[i].ident && g.structs[m].string_id == identity_table(g, host)[i].string_id,
{
    let all = candidates(g, host);
    let first = system_candidates(g.structs, g.systems);
    let second = struct_candidates(g.structs);
    lemma_registry(all);
    lemma_system_candidates_resolved(g.structs, g.systems);
    let row = identity_table(g, host)[i];
    let k = first_named(all, row.ident, 0);
    lemma_first_named(all, row.ident, 0);
    assert(all[k] == row);
    let d = choose|d: int| 0 <= d < g.structs.len() && (#[trigger] g.structs[d]).ident == row.ident;
    assert(all[first.len() + d] == second[d]);
    assert(all[first.len() + d].ident == row.ident);
    assert(k <= first.len() + d);
    if k < first.len() {
        assert(all[k] == first[k]);
        lemma_find_struct(g.structs, row.ident, 0);
        let m = find_struct(g.structs, row.ident, 0);
        assert(m <= d);
        assert(g.structs[m].ident == row.ident && g.structs[m].string_id == row.string_id);
    } else {
        let m = k - first.len();
        assert(all[k] == second[m]);
        assert(g.structs[m].ident == row.ident && g.structs[m].string_id == row.string_id);
    }
}

/// Where each declared name has one key, the identity table and so the
/// emitted identity assignment do not depend on the order of the
/// declarations: two catalogues with the same routines whose declared
/// types carry the same names under the same keys have the same table.
pub proof fn lemma_identity_table_ignores_declaration_order(
    a: GeneratorModel,
    b: GeneratorModel,
    host: Seq<Seq<char>>,
)
    requires
        a.systems == b.systems,
        forall|name: Seq<char>| declares(a.structs, name) <==> declares(b.structs, name),
        keyed_by_name(a.structs, b.structs),
    ensures
        identity_table(a, host) == identity_table(b, host),
{
    let ta = identity_table(a, host);
    let tb = identity_table(b, host);
    lemma_declaration_order_is_immaterial(a, b, host);
    assert(ta.len() == idents(ta).len());
    assert(tb.len() == idents(tb).len());
    assert forall|i: int| 0 <= i < ta.len() implies ta[i] == tb[i] by {
        assert(ta[i].ident == idents(ta)[i]);
        assert(tb[i].ident == idents(tb)[i]);
        let name = ta[i].ident;
        if declares(a.structs, name) {
            assert(declares(b.structs, name));
            lemma_declared_row_has_declared_key(a, host, i);
            lemma_declared_row_has_declared_key(b, host, i);
            let m = choose|m: int|
                0 <= m < a.structs.len() && (#[trigger] a.structs[m]).ident == ta[i].ident
                    && a.structs[m].string_id == ta[i].string_id;
            let n = choose|n: int|
                0 <= n < b.structs.len() && (#[trigger] b.structs[n]).ident == tb[i].ident
                    && b.structs[n].string_id == tb[i].string_id;
            assert(a.structs[m].string_id == b.structs[n].string_id);
        } else {
            assert(!declares(b.structs, name));
            lemma_undeclared_row_is_host_provided(a, host, i);
            lemma_undeclared_row_is_host_provided(b, host, i);
        }
    }
    assert(ta =~= tb);
}

} // verus!
