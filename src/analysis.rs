use vstd::prelude::*;
use crate::model::Workspace;
use crate::locate::{find_crate, find_trait, first_unit, trait_lookup, unit_lookup, unit_named};
use crate::extract::{extract_components, unit_components, views, ComponentView, PluginComponent};

verus! {

/// Why an analysis failed. Every failure ends the analysis: no partial result
/// is returned.
#[derive(Debug, PartialEq, Eq, Structural)]
pub enum AnalysisError {
    /// The semantic model of the workspace could not be built.
    ModelLoadFailure,
    /// The unit that declares the interface is not in the workspace.
    DependencyUnitNotFound,
    /// That unit declares no interface of the configured name.
    InterfaceNotFound,
    /// No unit of the workspace has the requested name.
    TargetUnitNotFound,
    /// The model broke its own rules: an index out of range, a module whose
    /// parent does not come before it, or a qualifying type or its unit
    /// without a name.
    ProviderInvariantViolation,
}

/// The result of an analysis: the target unit's name and its components in
/// enumeration order.
#[derive(Debug)]
pub struct PluginCrate {
    pub name: String,
    pub components: Vec<PluginComponent>,
}

pub struct CrateView {
    pub name: Seq<char>,
    pub components: Seq<ComponentView>,
}

impl View for PluginCrate {
    type V = CrateView;

    open spec fn view(&self) -> CrateView {
        CrateView { name: self.name@, components: views(self.components@) }
    }
}

/// The outcome of analysing unit `name` of `w` for the interface `iface`
/// declared in unit `dep`: the dependency is looked up first, then the
/// interface in it, then the target unit, then its components.
pub open spec fn analysis(w: &Workspace, dep: Seq<char>, iface: Seq<char>, name: Seq<char>) -> Result<
    CrateView,
    AnalysisError,
> {
    if !w.wf() {
        Err(AnalysisError::ProviderInvariantViolation)
    } else {
        match unit_lookup(w, dep) {
            None => Err(AnalysisError::DependencyUnitNotFound),
            Some(d) => match trait_lookup(w, d, iface) {
                None => Err(AnalysisError::InterfaceNotFound),
                Some(t) => match unit_lookup(w, name) {
                    None => Err(AnalysisError::TargetUnitNotFound),
                    Some(u) => match unit_components(w, u, t) {
                        None => Err(AnalysisError::ProviderInvariantViolation),
                        Some(cs) => Ok(CrateView { name, components: cs }),
                    },
                },
            },
        }
    }
}

/// Analyses unit `name` of `w` for the interface `interface` declared in unit
/// `dependency`.
pub fn analyze_for(dependency: &str, interface: &str, name: &str, w: &Workspace) -> (r: Result<
    PluginCrate,
    AnalysisError,
>)
    ensures
        r matches Ok(c) ==> analysis(w, dependency@, interface@, name@) == Ok::<CrateView, AnalysisError>(c@),
        r matches Err(e) ==> analysis(w, dependency@, interface@, name@) == Err::<CrateView, AnalysisError>(e),
{
    if !w.is_well_formed() {
        return Err(AnalysisError::ProviderInvariantViolation);
    }
    let dep = match find_crate(dependency, w) {
        Some(d) => d,
        None => return Err(AnalysisError::DependencyUnitNotFound),
    };
    let t = match find_trait(interface, dep, w) {
        Some(t) => t,
        None => return Err(AnalysisError::InterfaceNotFound),
    };
    let unit = match find_crate(name, w) {
        Some(u) => u,
        None => return Err(AnalysisError::TargetUnitNotFound),
    };
    match extract_components(unit, t, w) {
        Some(components) => {
            let c = PluginCrate { name: name.to_owned(), components };
            Ok(c)
        },
        None => Err(AnalysisError::ProviderInvariantViolation),
    }
}

/// Analyses unit `name` of `w` for the `Component` interface of the `bevy_ecs` unit.
pub fn analyze(name: &str, w: &Workspace) -> (r: Result<PluginCrate, AnalysisError>)
    ensures
        r matches Ok(c) ==> analysis(w, "bevy_ecs"@, "Component"@, name@) == Ok::<CrateView, AnalysisError>(c@),
        r matches Err(e) ==> analysis(w, "bevy_ecs"@, "Component"@, name@) == Err::<CrateView, AnalysisError>(e),
{
    analyze_for("bevy_ecs", "Component", name, w)
}

proof fn lemma_no_unit_named(w: &Workspace, name: Seq<char>, n: int)
    requires
        0 <= n <= w.units@.len(),
        forall|u: int| 0 <= u < w.units@.len() ==> !unit_named(w, u, name),
    ensures
        first_unit(w, name, n) is None,
    decreases n,
{
    if n > 0 {
        lemma_no_unit_named(w, name, n - 1);
    }
}

/// An analysis of a unit name that no unit of the workspace has never yields a
/// result; once the dependency and its interface are found, it fails with
/// `TargetUnitNotFound`.
pub proof fn law_missing_unit_fails(w: &Workspace, dep: Seq<char>, iface: Seq<char>, name: Seq<char>)
    requires
        forall|u: int| 0 <= u < w.units@.len() ==> !unit_named(w, u, name),
    ensures
        analysis(w, dep, iface, name) is Err,
        w.wf() && (unit_lookup(w, dep) matches Some(d) && trait_lookup(w, d, iface) is Some)
            ==> analysis(w, dep, iface, name) == Err::<CrateView, AnalysisError>(AnalysisError::TargetUnitNotFound),
{
    lemma_no_unit_named(w, name, w.units@.len() as int);
}

} // verus!
