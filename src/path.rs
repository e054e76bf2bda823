use vstd::prelude::*;
use crate::model::Workspace;

verus! {

/// The namespace separator, `::`.
pub open spec fn sep() -> Seq<char> {
    seq![':', ':']
}

/// What module `m` contributes to a path: its name and a separator, or
/// nothing for an unnamed (root) module.
pub open spec fn segment(w: &Workspace, m: int) -> Seq<char> {
    match w.modules@[m].name {
        Some(n) => n@ + sep(),
        None => Seq::empty(),
    }
}

/// The segments of module `m` and its ancestors, outermost first.
pub open spec fn module_prefix(w: &Workspace, m: int) -> Seq<char>
    decreases m,
{
    match w.modules@[m].parent {
        Some(p) => if 0 <= p < m {
            module_prefix(w, p as int) + segment(w, m)
        } else {
            segment(w, m)
        },
        None => segment(w, m),
    }
}

/// `module_prefix` of the module `cur` points at, empty when it points at none.
pub open spec fn prefix_of(w: &Workspace, cur: Option<usize>) -> Seq<char> {
    match cur {
        Some(m) => module_prefix(w, m as int),
        None => Seq::empty(),
    }
}

/// The declaration path of structural type `s`: the owning unit's display name,
/// then the names of the enclosing modules from the root down, then the type's
/// own name, joined by `::`. None when the type or its unit has no name.
pub open spec fn struct_path(w: &Workspace, s: int) -> Option<Seq<char>> {
    let st = w.structs@[s];
    let unit = w.modules@[st.module as int].unit;
    match (st.name, w.units@[unit as int].name) {
        (Some(n), Some(u)) => Some(u@ + sep() + module_prefix(w, st.module as int) + n@),
        _ => None,
    }
}

/// Builds the declaration path of structural type `s` by walking its module
/// chain up to the root; None when the type or its unit has no name.
pub fn build_struct_path(s: usize, w: &Workspace) -> (r: Option<String>)
    requires
        w.wf(),
        s < w.structs@.len(),
    ensures
        r matches Some(p) ==> struct_path(w, s as int) == Some(p@),
        r is None ==> struct_path(w, s as int) is None,
{
    let st = &w.structs[s];
    let name = match &st.name {
        Some(n) => n,
        None => return None,
    };
    proof {
        reveal_strlit("::");
    }
    let ghost start = st.module as int;
    let mut working: String = name.clone();
    let mut cur: Option<usize> = Some(st.module);
    while cur.is_some()
        invariant
            w.wf(),
            0 <= start < w.modules@.len(),
            cur matches Some(m) ==> m < w.modules@.len(),
            "::"@ == sep(),
            prefix_of(w, cur) + working@ == module_prefix(w, start) + name@,
        decreases match cur {
            Some(m) => m + 1,
            None => 0,
        },
    {
        let m = cur.unwrap();
        let node = &w.modules[m];
        assert(w.module_wf(m as int));
        let ghost old_working = working@;
        match &node.name {
            Some(mn) => {
                let mut pre = mn.clone();
                pre.append("::");
                pre.append(working.as_str());
                working = pre;
            },
            None => {},
        }
        assert(working@ == segment(w, m as int) + old_working);
        cur = node.parent;
        assert(module_prefix(w, m as int) == prefix_of(w, cur) + segment(w, m as int));
        assert(prefix_of(w, cur) + working@ =~= prefix_of(w, cur) + segment(w, m as int) + old_working);
    }
    let unit = w.modules[st.module].unit;
    assert(w.module_wf(start));
    match &w.units[unit].name {
        Some(u) => {
            let mut r = u.clone();
            r.append("::");
            r.append(working.as_str());
            assert(r@ =~= u@ + sep() + module_prefix(w, start) + name@);
            Some(r)
        },
        None => None,
    }
}

/// A type declared in module `b`, itself in module `a` of the unnamed root
/// module of unit `c`, has the path `c::a::b::T`.
pub proof fn law_nested_path(w: &Workspace, s: int, root: usize, a: usize, b: usize)
    requires
        w.wf(),
        0 <= s < w.structs@.len(),
        w.structs@[s].module == b,
        w.structs@[s].name is Some,
        root < w.modules@.len(),
        a < w.modules@.len(),
        b < w.modules@.len(),
        w.modules@[b as int].parent == Some(a),
        w.modules@[b as int].name is Some,
        w.modules@[a as int].parent == Some(root),
        w.modules@[a as int].name is Some,
        w.modules@[root as int].parent is None,
        w.modules@[root as int].name is None,
        w.units@[w.modules@[b as int].unit as int].name is Some,
    ensures
        struct_path(w, s) == Some(
            w.units@[w.modules@[b as int].unit as int].name.unwrap()@ + sep() + w.modules@[a as int].name.unwrap()@
                + sep() + w.modules@[b as int].name.unwrap()@ + sep() + w.structs@[s].name.unwrap()@,
        ),
{
    assert(w.module_wf(b as int));
    assert(w.module_wf(a as int));
    assert(module_prefix(w, root as int) =~= Seq::<char>::empty());
    assert(module_prefix(w, a as int) =~= segment(w, a as int));
    assert(module_prefix(w, b as int) == segment(w, a as int) + segment(w, b as int));
    let u = w.units@[w.modules@[b as int].unit as int].name.unwrap()@;
    let n = w.structs@[s].name.unwrap()@;
    assert(u + sep() + (segment(w, a as int) + segment(w, b as int)) + n =~= u + sep()
        + w.modules@[a as int].name.unwrap()@ + sep() + w.modules@[b as int].name.unwrap()@ + sep() + n);
}

/// A type declared directly in the unnamed root module of unit `c` has the
/// path `c::T`: the root module adds no segment.
pub proof fn law_root_path(w: &Workspace, s: int, root: usize)
    requires
        w.wf(),
        0 <= s < w.structs@.len(),
        w.structs@[s].module == root,
        w.structs@[s].name is Some,
        root < w.modules@.len(),
        w.modules@[root as int].parent is None,
        w.modules@[root as int].name is None,
        w.units@[w.modules@[root as int].unit as int].name is Some,
    ensures
        struct_path(w, s) == Some(
            w.units@[w.modules@[root as int].unit as int].name.unwrap()@ + sep() + w.structs@[s].name.unwrap()@,
        ),
{
    assert(module_prefix(w, root as int) =~= Seq::<char>::empty());
    let u = w.units@[w.modules@[root as int].unit as int].name.unwrap()@;
    let n = w.structs@[s].name.unwrap()@;
    assert(u + sep() + Seq::<char>::empty() + n =~= u + sep() + n);
}

} // verus!
