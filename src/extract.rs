use vstd::prelude::*;
use crate::model::{ImplBlock, SelfTy, Workspace};
use crate::path::{build_struct_path, struct_path};

verus! {

/// One discovered type that implements the target interface.
#[derive(Debug)]
pub struct PluginComponent {
    pub name: String,
    pub path: String,
    pub fields: Vec<String>,
}

/// What a `PluginComponent` holds, as sequences of characters.
pub struct ComponentView {
    pub name: Seq<char>,
    pub path: Seq<char>,
    pub fields: Seq<Seq<char>>,
}

impl View for PluginComponent {
    type V = ComponentView;

    open spec fn view(&self) -> ComponentView {
        ComponentView {
            name: self.name@,
            path: self.path@,
            fields: texts(self.fields@),
        }
    }
}

/// The characters of each string, in order.
pub open spec fn texts(v: Seq<String>) -> Seq<Seq<char>> {
    v.map_values(|s: String| s@)
}

/// The views of a sequence of components, in order.
pub open spec fn views(v: Seq<PluginComponent>) -> Seq<ComponentView> {
    v.map_values(|c: PluginComponent| c@)
}

/// The component that structural type `s` gives: its name, its declaration
/// path and its field names in declaration order. None when the type or its
/// unit has no name.
pub open spec fn component_of(w: &Workspace, s: int) -> Option<ComponentView> {
    match (w.structs@[s].name, struct_path(w, s)) {
        (Some(n), Some(p)) => Some(ComponentView { name: n@, path: p, fields: texts(w.structs@[s].fields@) }),
        _ => None,
    }
}

/// The implementation blocks of the first `n` modules of unit `u`, module after
/// module, each in declaration order.
pub open spec fn unit_impls(w: &Workspace, u: int, n: int) -> Seq<ImplBlock>
    decreases n,
{
    if n <= 0 {
        Seq::empty()
    } else {
        unit_impls(w, u, n - 1) + w.modules@[w.units@[u].modules@[n - 1] as int].impls@
    }
}

/// The components that the blocks `bs` give for interface `t`, in order: one
/// for each block that implements `t` on a structural type, none for the other
/// blocks. None when such a type lacks a name.
pub open spec fn components(w: &Workspace, bs: Seq<ImplBlock>, t: usize) -> Option<Seq<ComponentView>>
    decreases bs.len(),
{
    if bs.len() == 0 {
        Some(Seq::empty())
    } else {
        match components(w, bs.drop_last(), t) {
            None => None,
            Some(acc) => {
                let b = bs.last();
                if b.trait_ == Some(t) {
                    match b.self_ty {
                        SelfTy::Struct(s) => match component_of(w, s as int) {
                            Some(c) => Some(acc.push(c)),
                            None => None,
                        },
                        _ => Some(acc),
                    }
                } else {
                    Some(acc)
                }
            },
        }
    }
}

/// The components of unit `u` for interface `t`, over its modules in order.
pub open spec fn unit_components(w: &Workspace, u: int, t: usize) -> Option<Seq<ComponentView>> {
    components(w, unit_impls(w, u, w.units@[u].modules@.len() as int), t)
}

/// Once a nameless type has been met, later blocks do not bring the components back.
pub proof fn lemma_components_none_extend(w: &Workspace, a: Seq<ImplBlock>, b: Seq<ImplBlock>, t: usize)
    requires
        components(w, a, t) is None,
    ensures
        components(w, a + b, t) is None,
    decreases b.len(),
{
    if b.len() == 0 {
        assert(a + b =~= a);
    } else {
        lemma_components_none_extend(w, a, b.drop_last(), t);
        assert((a + b).drop_last() =~= a + b.drop_last());
    }
}

/// Once a nameless type has been met in the first `k` modules of a unit, the
/// later modules do not bring the components back.
pub proof fn lemma_unit_impls_none_extend(w: &Workspace, u: int, t: usize, k: int, n: int)
    requires
        0 <= k <= n,
        components(w, unit_impls(w, u, k), t) is None,
    ensures
        components(w, unit_impls(w, u, n), t) is None,
    decreases n - k,
{
    if n > k {
        lemma_unit_impls_none_extend(w, u, t, k, n - 1);
        lemma_components_none_extend(
            w,
            unit_impls(w, u, n - 1),
            w.modules@[w.units@[u].modules@[n - 1] as int].impls@,
            t,
        );
    }
}

fn copy_strings(v: &Vec<String>) -> (r: Vec<String>)
    ensures
        texts(r@) == texts(v@),
{
    let mut r: Vec<String> = Vec::new();
    let mut i: usize = 0;
    while i < v.len()
        invariant
            i <= v@.len(),
            r@.len() == i,
            forall|k: int| 0 <= k < i ==> #[trigger] r@[k]@ == v@[k]@,
        decreases v@.len() - i,
    {
        r.push(v[i].clone());
        i = i + 1;
    }
    assert(texts(r@) =~= texts(v@));
    r
}

/// Builds the component of structural type `s`; None when the type or its unit
/// has no name.
pub fn make_component(s: usize, w: &Workspace) -> (r: Option<PluginComponent>)
    requires
        w.wf(),
        s < w.structs@.len(),
    ensures
        r matches Some(c) ==> component_of(w, s as int) == Some(c@),
        r is None ==> component_of(w, s as int) is None,
{
    let st = &w.structs[s];
    let name = match &st.name {
        Some(n) => n.clone(),
        None => return None,
    };
    let path = match build_struct_path(s, w) {
        Some(p) => p,
        None => return None,
    };
    let fields = copy_strings(&st.fields);
    let c = PluginComponent { name, path, fields };
    assert(c@ == (ComponentView { name: c.name@, path: c.path@, fields: texts(st.fields@) }));
    Some(c)
}

/// Collects, over the modules of unit `unit` in order and each module's
/// implementation blocks in order, one component for each block that implements
/// interface `trait_` on a structural type. Blocks of other interfaces, inherent
/// blocks and blocks on other kinds of type are skipped. None when such a type
/// or its unit has no name.
pub fn extract_components(unit: usize, trait_: usize, w: &Workspace) -> (r: Option<Vec<PluginComponent>>)
    requires
        w.wf(),
        unit < w.units@.len(),
    ensures
        r matches Some(v) ==> unit_components(w, unit as int, trait_) == Some(views(v@)),
        r is None ==> unit_components(w, unit as int, trait_) is None,
{
    let mods = &w.units[unit].modules;
    let ghost total = mods@.len() as int;
    let mut out: Vec<PluginComponent> = Vec::new();
    assert(views(out@) =~= Seq::<ComponentView>::empty());
    let mut i: usize = 0;
    while i < mods.len()
        invariant
            w.wf(),
            unit < w.units@.len(),
            mods@ == w.units@[unit as int].modules@,
            total == mods@.len(),
            i <= mods@.len(),
            components(w, unit_impls(w, unit as int, i as int), trait_) == Some(views(out@)),
        decreases mods@.len() - i,
    {
        let m = mods[i];
        assert(m < w.modules@.len());
        let impls = &w.modules[m].impls;
        let ghost before = unit_impls(w, unit as int, i as int);
        assert(before + impls@.take(0) =~= before);
        let mut j: usize = 0;
        while j < impls.len()
            invariant
                w.wf(),
                unit < w.units@.len(),
                mods@ == w.units@[unit as int].modules@,
                total == mods@.len(),
                i < mods@.len(),
                m == mods@[i as int],
                m < w.modules@.len(),
                before == unit_impls(w, unit as int, i as int),
                impls@ == w.modules@[m as int].impls@,
                j <= impls@.len(),
                components(w, before + impls@.take(j as int), trait_) == Some(views(out@)),
            decreases impls@.len() - j,
        {
            let ghost seen = before + impls@.take(j + 1);
            assert(seen.drop_last() =~= before + impls@.take(j as int));
            assert(seen.last() == impls@[j as int]);
            let b = &impls[j];
            let wanted = match b.trait_ {
                Some(t) => t == trait_,
                None => false,
            };
            if wanted {
                match b.self_ty {
                    SelfTy::Struct(s) => {
                        assert(w.module_wf(m as int));
                        match make_component(s, w) {
                            Some(c) => {
                                let ghost acc = views(out@);
                                out.push(c);
                                assert(views(out@) =~= acc.push(c@));
                            },
                            None => {
                                proof {
                                    assert(impls@ =~= impls@.take(j + 1) + impls@.skip(j + 1));
                                    assert(before + impls@ =~= seen + impls@.skip(j + 1));
                                    lemma_components_none_extend(w, seen, impls@.skip(j + 1), trait_);
                                    assert(unit_impls(w, unit as int, i + 1) == before + impls@);
                                    lemma_unit_impls_none_extend(w, unit as int, trait_, i + 1, total);
                                }
                                return None;
                            },
                        }
                    },
                    _ => {},
                }
            }
            j = j + 1;
        }
        assert(impls@.take(j as int) =~= impls@);
        assert(unit_impls(w, unit as int, i + 1) == before + impls@);
        i = i + 1;
    }
    Some(out)
}

/// Block `b` implements interface `t` on a structural type.
pub open spec fn qualifies(b: ImplBlock, t: usize) -> bool {
    b.trait_ == Some(t) && b.self_ty is Struct
}

proof fn lemma_non_qualifying_ignored(w: &Workspace, bs: Seq<ImplBlock>, i: int, b: ImplBlock, t: usize)
    requires
        0 <= i <= bs.len(),
        !qualifies(b, t),
    ensures
        components(w, bs.insert(i, b), t) == components(w, bs, t),
    decreases bs.len(),
{
    let ext = bs.insert(i, b);
    if i == bs.len() {
        assert(ext.drop_last() =~= bs);
        assert(ext.last() == b);
    } else {
        lemma_non_qualifying_ignored(w, bs.drop_last(), i, b, t);
        assert(ext.drop_last() =~= bs.drop_last().insert(i, b));
        assert(ext.last() == bs.last());
    }
}

/// A block of any interface other than the resolved one (for instance one of
/// the same simple name declared in another unit) adds nothing to the result,
/// wherever it stands.
pub proof fn law_other_interface_excluded(w: &Workspace, bs: Seq<ImplBlock>, i: int, b: ImplBlock, t: usize)
    requires
        0 <= i <= bs.len(),
        b.trait_ != Some(t),
    ensures
        components(w, bs.insert(i, b), t) == components(w, bs, t),
{
    lemma_non_qualifying_ignored(w, bs, i, b, t);
}

/// A block whose self type is an enum, a primitive or an unresolved type adds
/// nothing to the result and raises no error, wherever it stands.
pub proof fn law_non_struct_excluded(w: &Workspace, bs: Seq<ImplBlock>, i: int, b: ImplBlock, t: usize)
    requires
        0 <= i <= bs.len(),
        !(b.self_ty is Struct),
    ensures
        components(w, bs.insert(i, b), t) == components(w, bs, t),
{
    lemma_non_qualifying_ignored(w, bs, i, b, t);
}

/// A block that implements the interface on a structural type with a path adds
/// one component after those before it: the type's name, its path, and its
/// field names in declaration order.
pub proof fn law_qualifying_block_emitted(w: &Workspace, bs: Seq<ImplBlock>, b: ImplBlock, t: usize, s: usize)
    requires
        components(w, bs, t) is Some,
        b.trait_ == Some(t),
        b.self_ty == SelfTy::Struct(s),
        struct_path(w, s as int) is Some,
    ensures
        components(w, bs.push(b), t) == Some(
            components(w, bs, t).unwrap().push(
                ComponentView {
                    name: w.structs@[s as int].name.unwrap()@,
                    path: struct_path(w, s as int).unwrap(),
                    fields: texts(w.structs@[s as int].fields@),
                },
            ),
        ),
        texts(w.structs@[s as int].fields@).len() == w.structs@[s as int].fields@.len(),
        forall|k: int|
            0 <= k < w.structs@[s as int].fields@.len()
                ==> #[trigger] texts(w.structs@[s as int].fields@)[k] == w.structs@[s as int].fields@[k]@,
{
    assert(bs.push(b).drop_last() =~= bs);
}

/// The blocks of `bs` that implement interface `t` on a structural type, in order.
pub open spec fn qualifying(bs: Seq<ImplBlock>, t: usize) -> Seq<ImplBlock> {
    bs.filter(|b: ImplBlock| qualifies(b, t))
}

/// The structural type that block `b` is for.
pub open spec fn struct_of(b: ImplBlock) -> int {
    match b.self_ty {
        SelfTy::Struct(s) => s as int,
        _ => 0,
    }
}

/// Each component of a result comes from exactly one qualifying block: the
/// `k`-th component is the one that the type of the `k`-th block implementing
/// the interface on a structural type gives, and there are no others.
pub proof fn law_components_match_blocks(w: &Workspace, bs: Seq<ImplBlock>, t: usize)
    requires
        components(w, bs, t) is Some,
    ensures
        components(w, bs, t).unwrap().len() == qualifying(bs, t).len(),
        forall|k: int|
            0 <= k < qualifying(bs, t).len() ==> component_of(w, #[trigger] struct_of(qualifying(bs, t)[k]))
                == Some(components(w, bs, t).unwrap()[k]),
    decreases bs.len(),
{
    reveal_with_fuel(Seq::filter, 1);
    if bs.len() > 0 {
        law_components_match_blocks(w, bs.drop_last(), t);
    }
}

} // verus!
