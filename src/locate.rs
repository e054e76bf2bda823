use vstd::prelude::*;
use crate::model::{Declaration, Workspace};

verus! {

/// Unit `u` has a display name, and it is `name`.
pub open spec fn unit_named(w: &Workspace, u: int, name: Seq<char>) -> bool {
    w.units@[u].name matches Some(n) && n@ == name
}

/// The first of the units `0..n` whose display name is `name`.
pub open spec fn first_unit(w: &Workspace, name: Seq<char>, n: int) -> Option<int>
    decreases n,
{
    if n <= 0 {
        None
    } else {
        match first_unit(w, name, n - 1) {
            Some(i) => Some(i),
            None => if unit_named(w, n - 1, name) { Some(n - 1) } else { None },
        }
    }
}

/// Once a unit named `name` has been found among the first `k`, later units
/// do not change it.
pub proof fn lemma_first_unit_extend(w: &Workspace, name: Seq<char>, k: int, n: int)
    requires
        0 <= k <= n,
        first_unit(w, name, k) is Some,
    ensures
        first_unit(w, name, n) == first_unit(w, name, k),
    decreases n - k,
{
    if n > k {
        lemma_first_unit_extend(w, name, k, n - 1);
    }
}

/// The unit named `name` that comes first in enumeration order.
pub open spec fn unit_lookup(w: &Workspace, name: Seq<char>) -> Option<int> {
    first_unit(w, name, w.units@.len() as int)
}

/// The top-level declarations of the first `n` modules of unit `u`, module
/// after module, each in declaration order.
pub open spec fn unit_decls(w: &Workspace, u: int, n: int) -> Seq<Declaration>
    decreases n,
{
    if n <= 0 {
        Seq::empty()
    } else {
        unit_decls(w, u, n - 1) + w.modules@[w.units@[u].modules@[n - 1] as int].declarations@
    }
}

/// `d` declares an interface whose simple name is `name`.
pub open spec fn trait_named(w: &Workspace, d: Declaration, name: Seq<char>) -> bool {
    d matches Declaration::Trait(t) && t < w.traits@.len() && (w.traits@[t as int].name matches Some(
        n,
    ) && n@ == name)
}

/// The first interface named `name` among the declarations `ds`.
pub open spec fn first_trait(w: &Workspace, ds: Seq<Declaration>, name: Seq<char>) -> Option<usize>
    decreases ds.len(),
{
    if ds.len() == 0 {
        None
    } else {
        match first_trait(w, ds.drop_last(), name) {
            Some(t) => Some(t),
            None => match ds.last() {
                Declaration::Trait(t) => if trait_named(w, ds.last(), name) { Some(t) } else { None },
                Declaration::Other => None,
            },
        }
    }
}

/// The interface named `name` that unit `u` declares first, over its modules in order.
pub open spec fn trait_lookup(w: &Workspace, u: int, name: Seq<char>) -> Option<usize> {
    first_trait(w, unit_decls(w, u, w.units@[u].modules@.len() as int), name)
}

/// Finds the first unit whose display name is exactly `name`; units without a
/// display name never match.
pub fn find_crate(name: &str, w: &Workspace) -> (r: Option<usize>)
    ensures
        r matches Some(u) ==> u < w.units@.len() && unit_lookup(w, name@) == Some(u as int),
        r is None ==> unit_lookup(w, name@) is None,
        r matches Some(u) ==> unit_named(w, u as int, name@) && forall|j: int|
            0 <= j < u ==> !unit_named(w, j, name@),
        r is None ==> forall|j: int| 0 <= j < w.units@.len() ==> !unit_named(w, j, name@),
{
    let key = name.to_owned();
    let mut i: usize = 0;
    while i < w.units.len()
        invariant
            i <= w.units@.len(),
            key@ == name@,
            first_unit(w, name@, i as int) is None,
            forall|j: int| 0 <= j < i ==> !unit_named(w, j, name@),
        decreases w.units@.len() - i,
    {
        match &w.units[i].name {
            Some(n) => {
                if *n == key {
                    assert(first_unit(w, name@, i + 1) == Some(i as int));
                    proof {
                        lemma_first_unit_extend(w, name@, i + 1, w.units@.len() as int);
                    }
                    return Some(i);
                }
            },
            None => {},
        }
        i = i + 1;
    }
    None
}

/// Once an interface named `name` has been found, later declarations do not change it.
pub proof fn lemma_first_trait_extend(w: &Workspace, a: Seq<Declaration>, b: Seq<Declaration>, name: Seq<char>)
    requires
        first_trait(w, a, name) is Some,
    ensures
        first_trait(w, a + b, name) == first_trait(w, a, name),
    decreases b.len(),
{
    if b.len() == 0 {
        assert(a + b =~= a);
    } else {
        lemma_first_trait_extend(w, a, b.drop_last(), name);
        assert((a + b).drop_last() =~= a + b.drop_last());
    }
}

/// Once an interface named `name` has been found in the first `k` modules of a
/// unit, the later modules do not change it.
pub proof fn lemma_unit_decls_extend(w: &Workspace, u: int, k: int, n: int, name: Seq<char>)
    requires
        0 <= k <= n,
        first_trait(w, unit_decls(w, u, k), name) is Some,
    ensures
        first_trait(w, unit_decls(w, u, n), name) == first_trait(w, unit_decls(w, u, k), name),
    decreases n - k,
{
    if n > k {
        lemma_unit_decls_extend(w, u, k, n - 1, name);
        lemma_first_trait_extend(
            w,
            unit_decls(w, u, n - 1),
            w.modules@[w.units@[u].modules@[n - 1] as int].declarations@,
            name,
        );
    }
}

/// Finds the first interface declaration named exactly `name` among the
/// top-level declarations of unit `unit`, over its modules in order.
pub fn find_trait(name: &str, unit: usize, w: &Workspace) -> (r: Option<usize>)
    requires
        w.wf(),
        unit < w.units@.len(),
    ensures
        r == trait_lookup(w, unit as int, name@),
{
    let key = name.to_owned();
    let mods = &w.units[unit].modules;
    let ghost total = mods@.len() as int;
    let mut i: usize = 0;
    while i < mods.len()
        invariant
            w.wf(),
            unit < w.units@.len(),
            mods@ == w.units@[unit as int].modules@,
            total == mods@.len(),
            i <= mods@.len(),
            key@ == name@,
            first_trait(w, unit_decls(w, unit as int, i as int), name@) is None,
        decreases mods@.len() - i,
    {
        let m = mods[i];
        assert(m < w.modules@.len());
        let decls = &w.modules[m].declarations;
        let ghost before = unit_decls(w, unit as int, i as int);
        let mut j: usize = 0;
        while j < decls.len()
            invariant
                w.wf(),
                unit < w.units@.len(),
                mods@ == w.units@[unit as int].modules@,
                total == mods@.len(),
                i < mods@.len(),
                m == mods@[i as int],
                before == unit_decls(w, unit as int, i as int),
                m < w.modules@.len(),
                decls@ == w.modules@[m as int].declarations@,
                j <= decls@.len(),
                key@ == name@,
                first_trait(w, before + decls@.take(j as int), name@) is None,
            decreases decls@.len() - j,
        {
            let ghost seen = before + decls@.take(j + 1);
            assert(seen.drop_last() =~= before + decls@.take(j as int));
            assert(seen.last() == decls@[j as int]);
            match &decls[j] {
                Declaration::Trait(t) => {
                    assert(w.module_wf(m as int));
                    match &w.traits[*t].name {
                        Some(n) => {
                            if *n == key {
                                assert(first_trait(w, seen, name@) == Some(*t));
                                assert(decls@ =~= decls@.take(j + 1) + decls@.skip(j + 1));
                                assert(before + decls@ =~= seen + decls@.skip(j + 1));
                                proof {
                                    lemma_first_trait_extend(w, seen, decls@.skip(j + 1), name@);
                                    assert(unit_decls(w, unit as int, i + 1) == before + decls@);
                                    lemma_unit_decls_extend(w, unit as int, i + 1, total, name@);
                                }
                                return Some(*t);
                            }
                        },
                        None => {},
                    }
                },
                Declaration::Other => {},
            }
            j = j + 1;
        }
        assert(decls@.take(j as int) =~= decls@);
        assert(unit_decls(w, unit as int, i + 1) == before + decls@);
        i = i + 1;
    }
    None
}

} // verus!
