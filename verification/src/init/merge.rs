//! How the initializers of one step are merged: by name, the later
//! registration in the place of the earlier one.

use vstd::prelude::*;

use super::Init;

verus! {

/// Whether one of `inits` has the name `name`.
pub open spec fn has_name<F>(inits: Seq<Init<F>>, name: Seq<char>) -> bool {
    exists|i: int| 0 <= i < inits.len() && (#[trigger] inits[i]).name@ == name
}

/// The place of an initializer of the name `name`, where there is one.
pub open spec fn name_index<F>(inits: Seq<Init<F>>, name: Seq<char>) -> int {
    choose|i: int| 0 <= i < inits.len() && (#[trigger] inits[i]).name@ == name
}

/// No two of `inits` have the same name.
pub open spec fn names_distinct<F>(inits: Seq<Init<F>>) -> bool {
    forall|i: int, j: int|
        0 <= i < j < inits.len() ==> (#[trigger] inits[i]).name@ != (#[trigger] inits[j]).name@
}

/// The names of `inits`, in order.
pub open spec fn names<F>(inits: Seq<Init<F>>) -> Seq<Seq<char>> {
    Seq::new(inits.len(), |i: int| inits[i].name@)
}

/// `inits` after `init` was registered: it takes the place of the
/// initializer that had its name, or the place behind the last one.
pub open spec fn upsert<F>(inits: Seq<Init<F>>, init: Init<F>) -> Seq<Init<F>> {
    if has_name(inits, init.name@) {
        inits.update(name_index(inits, init.name@), init)
    } else {
        inits.push(init)
    }
}

/// What a step holds after `registered` were appended to it one by one,
/// starting with none.
pub open spec fn merged_all<F>(registered: Seq<Init<F>>) -> Seq<Init<F>>
    decreases registered.len(),
{
    if registered.len() == 0 {
        Seq::empty()
    } else {
        upsert(merged_all(registered.drop_last()), registered.last())
    }
}

/// Registering an initializer keeps the names apart, leaves the initializer
/// under its name, and leaves every other name as it was.
pub proof fn lemma_upsert<F>(inits: Seq<Init<F>>, init: Init<F>)
    requires
        names_distinct(inits),
    ensures
        names_distinct(upsert(inits, init)),
        has_name(upsert(inits, init), init.name@),
        upsert(inits, init)[name_index(upsert(inits, init), init.name@)] == init,
        forall|name: Seq<char>|
            name != init.name@ ==> (has_name(upsert(inits, init), name) <==> has_name(inits, name)),
        forall|name: Seq<char>|
            name != init.name@ && has_name(inits, name) ==> upsert(inits, init)[name_index(
                upsert(inits, init),
                name,
            )] == inits[name_index(inits, name)],
        upsert(inits, init).len() == inits.len() + (if has_name(inits, init.name@) {
            0int
        } else {
            1int
        }),
{
    let after = upsert(inits, init);
    if has_name(inits, init.name@) {
        assert(after[name_index(inits, init.name@)].name@ == init.name@);
    } else {
        assert(after[inits.len() as int].name@ == init.name@);
    }
    assert(has_name(after, init.name@));
    assert forall|name: Seq<char>| name != init.name@ implies (has_name(after, name) <==> has_name(
        inits,
        name,
    )) by {
        if has_name(after, name) {
            let i = name_index(after, name);
            assert(inits[i].name@ == name);
        }
        if has_name(inits, name) {
            let i = name_index(inits, name);
            assert(after[i].name@ == name);
        }
    }
    assert forall|name: Seq<char>| name != init.name@ && has_name(inits, name) implies after[name_index(
        after,
        name,
    )] == inits[name_index(inits, name)] by {
        let i = name_index(inits, name);
        assert(after[i].name@ == name);
        assert(has_name(after, name));
        let j = name_index(after, name);
        assert(i == j);
    }
}


/// Whatever was registered, no two initializers of a step have the same
/// name.
pub proof fn lemma_merged_all_distinct<F>(registered: Seq<Init<F>>)
    ensures
        names_distinct(merged_all(registered)),
    decreases registered.len(),
{
    if registered.len() > 0 {
        lemma_merged_all_distinct(registered.drop_last());
        lemma_upsert(merged_all(registered.drop_last()), registered.last());
    }
}

/// A step has an initializer of a name if and only if one was registered
/// under that name.
pub proof fn lemma_merged_all_names<F>(registered: Seq<Init<F>>, name: Seq<char>)
    ensures
        has_name(merged_all(registered), name) <==> has_name(registered, name),
    decreases registered.len(),
{
    if registered.len() > 0 {
        let earlier = registered.drop_last();
        let last = registered.last();
        lemma_merged_all_distinct(earlier);
        lemma_merged_all_names(earlier, name);
        lemma_upsert(merged_all(earlier), last);
        if has_name(registered, name) {
            let i = name_index(registered, name);
            if i < earlier.len() {
                assert(earlier[i].name@ == name);
            }
        }
        if has_name(earlier, name) {
            let i = name_index(earlier, name);
            assert(registered[i].name@ == name);
        }
        assert(registered[registered.len() - 1].name@ == last.name@);
    }
}

/// Last write wins: the initializer that a step holds under a name is the
/// last one that was registered under it.
pub proof fn lemma_merged_all_last_wins<F>(registered: Seq<Init<F>>, i: int)
    requires
        0 <= i < registered.len(),
        forall|j: int| i < j < registered.len() ==> (#[trigger] registered[j]).name@ != registered[i].name@,
    ensures
        has_name(merged_all(registered), registered[i].name@),
        merged_all(registered)[name_index(merged_all(registered), registered[i].name@)]
            == registered[i],
    decreases registered.len(),
{
    let earlier = registered.drop_last();
    let last = registered.last();
    lemma_merged_all_distinct(earlier);
    lemma_upsert(merged_all(earlier), last);
    if i < registered.len() - 1 {
        assert(earlier[i] == registered[i]);
        assert forall|j: int| i < j < earlier.len() implies (#[trigger] earlier[j]).name@
            != earlier[i].name@ by {
            assert(registered[j].name@ != registered[i].name@);
        }
        lemma_merged_all_last_wins(earlier, i);
        assert(registered[registered.len() - 1].name@ != registered[i].name@);
    }
}

/// A step holds as many initializers as there were distinct names among those
/// registered.
pub proof fn lemma_merged_all_count<F>(registered: Seq<Init<F>>)
    ensures
        merged_all(registered).len() == names(registered).to_set().len(),
{
    let merged = merged_all(registered);
    lemma_merged_all_distinct(registered);
    assert(names(merged).no_duplicates()) by {
        assert forall|i: int, j: int|
            0 <= i < names(merged).len() && 0 <= j < names(merged).len() && i != j implies names(
            merged,
        )[i] != names(merged)[j] by {
            if i < j {
                assert(merged[i].name@ != merged[j].name@);
            } else {
                assert(merged[j].name@ != merged[i].name@);
            }
        }
    }
    names(merged).unique_seq_to_set();
    assert(names(merged).to_set() =~= names(registered).to_set()) by {
        assert forall|name: Seq<char>|
            names(merged).to_set().contains(name) <==> names(registered).to_set().contains(
                name,
            ) by {
            lemma_merged_all_names(registered, name);
            lemma_names_contain(merged, name);
            lemma_names_contain(registered, name);
        }
    }
}

/// Where all registered names differ, the step holds what was registered, in
/// the order of registration.
pub proof fn lemma_merged_all_of_distinct<F>(registered: Seq<Init<F>>)
    requires
        names_distinct(registered),
    ensures
        merged_all(registered) == registered,
    decreases registered.len(),
{
    if registered.len() > 0 {
        let earlier = registered.drop_last();
        let last = registered.last();
        assert forall|i: int, j: int| 0 <= i < j < earlier.len() implies (#[trigger] earlier[i]).name@
            != (#[trigger] earlier[j]).name@ by {
            assert(registered[i].name@ != registered[j].name@);
        }
        lemma_merged_all_of_distinct(earlier);
        if has_name(earlier, last.name@) {
            let i = name_index(earlier, last.name@);
            assert(registered[i].name@ != registered[registered.len() - 1].name@);
        }
        assert(earlier.push(last) =~= registered);
    } else {
        assert(merged_all(registered) =~= registered);
    }
}

/// A name is among the names of `inits` if and only if one of them has it.
proof fn lemma_names_contain<F>(inits: Seq<Init<F>>, name: Seq<char>)
    ensures
        names(inits).to_set().contains(name) <==> has_name(inits, name),
{
    if has_name(inits, name) {
        let i = name_index(inits, name);
        assert(names(inits)[i] == name);
        assert(names(inits).contains(name));
    }
    if names(inits).to_set().contains(name) {
        let i = choose|i: int| 0 <= i < names(inits).len() && names(inits)[i] == name;
        assert(inits[i].name@ == name);
    }
}

} // verus!
