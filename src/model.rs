use vstd::prelude::*;

verus! {

/// A compilation unit: its canonical display name, if the workspace has one for
/// it, and the indices of its modules in enumeration order.
pub struct Unit {
    pub name: Option<String>,
    pub modules: Vec<usize>,
}

/// A top-level declaration of a module, as far as interface lookup cares.
pub enum Declaration {
    /// An interface (trait) declaration, by its index in `Workspace::traits`.
    Trait(usize),
    /// Any other declaration (a type, a function, a nested module, ...).
    Other,
}

/// The self type of an implementation block.
pub enum SelfTy {
    /// A structural type, by its index in `Workspace::structs`.
    Struct(usize),
    Enum,
    Primitive,
    /// A generic parameter, or a type that could not be resolved.
    Unresolved,
}

/// An implementation block: the interface it implements, if any, and its self type.
pub struct ImplBlock {
    pub trait_: Option<usize>,
    pub self_ty: SelfTy,
}

/// A module: its simple name (none for a root module), its parent (none for a
/// root module), the unit that owns it, its top-level declarations and its
/// implementation blocks, in declaration order.
pub struct ModuleNode {
    pub name: Option<String>,
    pub parent: Option<usize>,
    pub unit: usize,
    pub declarations: Vec<Declaration>,
    pub impls: Vec<ImplBlock>,
}

/// An interface declaration and its simple name.
pub struct TraitNode {
    pub name: Option<String>,
}

/// A structural type: its simple name, its owning module and its field names
/// in declaration order.
pub struct StructNode {
    pub name: Option<String>,
    pub module: usize,
    pub fields: Vec<String>,
}

/// The semantic model of one workspace. Identity of a unit, module, interface
/// or structural type is its index in the matching arena.
pub struct Workspace {
    pub units: Vec<Unit>,
    pub modules: Vec<ModuleNode>,
    pub traits: Vec<TraitNode>,
    pub structs: Vec<StructNode>,
}

impl Workspace {
    /// Every index refers into its arena, and a module's parent comes before it
    /// in the module arena, so that walking up the parent chain ends at a root.
    pub open spec fn wf(&self) -> bool {
        &&& forall|u: int, k: int|
            0 <= u < self.units@.len() && 0 <= k < self.units@[u].modules@.len()
                ==> #[trigger] self.units@[u].modules@[k] < self.modules@.len()
        &&& forall|m: int|
            0 <= m < self.modules@.len() ==> #[trigger] self.module_wf(m)
        &&& forall|s: int|
            0 <= s < self.structs@.len() ==> #[trigger] self.structs@[s].module < self.modules@.len()
    }

    pub open spec fn module_wf(&self, m: int) -> bool {
        let node = self.modules@[m];
        &&& node.unit < self.units@.len()
        &&& (node.parent matches Some(p) ==> p < m)
        &&& forall|k: int|
            0 <= k < node.declarations@.len() ==> (#[trigger] node.declarations@[k] matches Declaration::Trait(t)
                ==> t < self.traits@.len())
        &&& forall|k: int|
            0 <= k < node.impls@.len() ==> (#[trigger] node.impls@[k].self_ty matches SelfTy::Struct(s)
                ==> s < self.structs@.len())
    }

    /// Whether every index of the model refers into its arena and every module's
    /// parent comes before it.
    pub fn is_well_formed(&self) -> (r: bool)
        ensures
            r == self.wf(),
    {
        let mut u: usize = 0;
        while u < self.units.len()
            invariant
                u <= self.units@.len(),
                forall|uu: int, k: int|
                    0 <= uu < u && 0 <= k < self.units@[uu].modules@.len()
                        ==> #[trigger] self.units@[uu].modules@[k] < self.modules@.len(),
            decreases self.units@.len() - u,
        {
            let mods = &self.units[u].modules;
            let mut k: usize = 0;
            while k < mods.len()
                invariant
                    u < self.units@.len(),
                    mods@ == self.units@[u as int].modules@,
                    k <= mods@.len(),
                    forall|uu: int, kk: int|
                        0 <= uu < u && 0 <= kk < self.units@[uu].modules@.len()
                            ==> #[trigger] self.units@[uu].modules@[kk] < self.modules@.len(),
                    forall|kk: int| 0 <= kk < k ==> #[trigger] mods@[kk] < self.modules@.len(),
                decreases mods@.len() - k,
            {
                if mods[k] >= self.modules.len() {
                    assert(self.units@[u as int].modules@[k as int] >= self.modules@.len());
                    return false;
                }
                k = k + 1;
            }
            u = u + 1;
        }
        let mut m: usize = 0;
        while m < self.modules.len()
            invariant
                m <= self.modules@.len(),
                forall|mm: int| 0 <= mm < m ==> #[trigger] self.module_wf(mm),
            decreases self.modules@.len() - m,
        {
            if !self.module_ok(m) {
                return false;
            }
            m = m + 1;
        }
        let mut s: usize = 0;
        while s < self.structs.len()
            invariant
                s <= self.structs@.len(),
                forall|ss: int| 0 <= ss < s ==> #[trigger] self.structs@[ss].module < self.modules@.len(),
            decreases self.structs@.len() - s,
        {
            if self.structs[s].module >= self.modules.len() {
                return false;
            }
            s = s + 1;
        }
        true
    }

    fn module_ok(&self, m: usize) -> (r: bool)
        requires
            m < self.modules@.len(),
        ensures
            r == self.module_wf(m as int),
    {
        let node = &self.modules[m];
        if node.unit >= self.units.len() {
            return false;
        }
        match node.parent {
            Some(p) => {
                if p >= m {
                    return false;
                }
            },
            None => {},
        }
        let mut k: usize = 0;
        while k < node.declarations.len()
            invariant
                m < self.modules@.len(),
                *node == self.modules@[m as int],
                k <= node.declarations@.len(),
                forall|kk: int|
                    0 <= kk < k ==> (#[trigger] node.declarations@[kk] matches Declaration::Trait(t)
                        ==> t < self.traits@.len()),
            decreases node.declarations@.len() - k,
        {
            match node.declarations[k] {
                Declaration::Trait(t) => {
                    if t >= self.traits.len() {
                        assert(node.declarations@[k as int] matches Declaration::Trait(t));
                        return false;
                    }
                },
                Declaration::Other => {},
            }
            k = k + 1;
        }
        let mut k: usize = 0;
        while k < node.impls.len()
            invariant
                m < self.modules@.len(),
                *node == self.modules@[m as int],
                k <= node.impls@.len(),
                forall|kk: int|
                    0 <= kk < k ==> (#[trigger] node.impls@[kk].self_ty matches SelfTy::Struct(s)
                        ==> s < self.structs@.len()),
            decreases node.impls@.len() - k,
        {
            match node.impls[k].self_ty {
                SelfTy::Struct(s) => {
                    if s >= self.structs.len() {
                        assert(node.impls@[k as int].self_ty matches SelfTy::Struct(s));
                        return false;
                    }
                },
                _ => {},
            }
            k = k + 1;
        }
        true
    }
}

} // verus!
