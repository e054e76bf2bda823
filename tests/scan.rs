use plugin_scan::{
    analyze, analyze_for, build_struct_path, extract_components, find_crate, find_trait, AnalysisError,
    Declaration, ImplBlock, ModuleNode, SelfTy, StructNode, TraitNode, Unit, Workspace,
};

fn s(x: &str) -> String {
    x.to_string()
}

fn module(name: Option<&str>, parent: Option<usize>, unit: usize) -> ModuleNode {
    ModuleNode {
        name: name.map(s),
        parent,
        unit,
        declarations: Vec::new(),
        impls: Vec::new(),
    }
}

/// Unit 0 `ecs` declares trait 0 `Component` in its root module 0.
/// Unit 1 `sample_plugin` has root module 1 holding `struct Point { x, y }`
/// (struct 0); `with_impl` adds `impl Component for Point {}` there.
fn sample(with_impl: bool) -> Workspace {
    let mut ecs_root = module(None, None, 0);
    ecs_root.declarations.push(Declaration::Other);
    ecs_root.declarations.push(Declaration::Trait(0));
    let mut plugin_root = module(None, None, 1);
    if with_impl {
        plugin_root.impls.push(ImplBlock { trait_: Some(0), self_ty: SelfTy::Struct(0) });
    }
    Workspace {
        units: vec![
            Unit { name: Some(s("ecs")), modules: vec![0] },
            Unit { name: Some(s("sample_plugin")), modules: vec![1] },
        ],
        modules: vec![ecs_root, plugin_root],
        traits: vec![TraitNode { name: Some(s("Component")) }],
        structs: vec![StructNode { name: Some(s("Point")), module: 1, fields: vec![s("x"), s("y")] }],
    }
}

#[test]
fn single_component_in_root_module() {
    let w = sample(true);
    let c = analyze_for("ecs", "Component", "sample_plugin", &w).unwrap();
    assert_eq!(c.name, "sample_plugin");
    assert_eq!(c.components.len(), 1);
    assert_eq!(c.components[0].name, "Point");
    assert_eq!(c.components[0].path, "sample_plugin::Point");
    assert_eq!(c.components[0].fields, vec![s("x"), s("y")]);
}

#[test]
fn no_implementations_gives_empty_components() {
    let w = sample(false);
    let c = analyze_for("ecs", "Component", "sample_plugin", &w).unwrap();
    assert_eq!(c.name, "sample_plugin");
    assert!(c.components.is_empty());
}

#[test]
fn missing_target_unit_is_an_error() {
    let w = sample(true);
    let r = analyze_for("ecs", "Component", "other_plugin", &w);
    assert_eq!(r.unwrap_err(), AnalysisError::TargetUnitNotFound);
}

#[test]
fn missing_dependency_is_an_error() {
    let w = sample(true);
    let r = analyze("sample_plugin", &w);
    assert_eq!(r.unwrap_err(), AnalysisError::DependencyUnitNotFound);
}

#[test]
fn missing_interface_is_an_error() {
    let w = sample(true);
    let r = analyze_for("ecs", "Resource", "sample_plugin", &w);
    assert_eq!(r.unwrap_err(), AnalysisError::InterfaceNotFound);
}

#[test]
fn default_dependency_is_bevy_ecs() {
    let mut w = sample(true);
    w.units[0].name = Some(s("bevy_ecs"));
    let c = analyze("sample_plugin", &w).unwrap();
    assert_eq!(c.components.len(), 1);
    assert_eq!(c.components[0].path, "sample_plugin::Point");
}

#[test]
fn nameless_type_is_an_invariant_violation() {
    let mut w = sample(true);
    w.structs[0].name = None;
    let r = analyze_for("ecs", "Component", "sample_plugin", &w);
    assert_eq!(r.unwrap_err(), AnalysisError::ProviderInvariantViolation);
}

#[test]
fn malformed_model_is_an_invariant_violation() {
    let mut w = sample(true);
    w.modules[1].impls.push(ImplBlock { trait_: Some(0), self_ty: SelfTy::Struct(7) });
    assert!(!w.is_well_formed());
    let r = analyze_for("ecs", "Component", "sample_plugin", &w);
    assert_eq!(r.unwrap_err(), AnalysisError::ProviderInvariantViolation);
}

#[test]
fn parent_after_child_is_malformed() {
    let mut w = sample(true);
    assert!(w.is_well_formed());
    w.modules[0].parent = Some(1);
    assert!(!w.is_well_formed());
}

#[test]
fn nested_path_lists_modules_from_the_root() {
    let mut w = sample(false);
    w.units[1].name = Some(s("crate1"));
    w.modules.push(module(Some("a"), Some(1), 1));
    w.modules.push(module(Some("b"), Some(2), 1));
    w.units[1].modules.push(2);
    w.units[1].modules.push(3);
    w.structs.push(StructNode { name: Some(s("T")), module: 3, fields: Vec::new() });
    assert_eq!(build_struct_path(1, &w).unwrap(), "crate1::a::b::T");
    assert_eq!(build_struct_path(0, &w).unwrap(), "crate1::Point");
}

#[test]
fn path_needs_a_unit_name() {
    let mut w = sample(true);
    w.units[1].name = None;
    assert!(build_struct_path(0, &w).is_none());
}

#[test]
fn same_named_interface_of_another_unit_is_not_matched() {
    let mut w = sample(false);
    // trait 1 is a `Component` declared by the plugin itself
    w.traits.push(TraitNode { name: Some(s("Component")) });
    w.modules[1].declarations.push(Declaration::Trait(1));
    w.modules[1].impls.push(ImplBlock { trait_: Some(1), self_ty: SelfTy::Struct(0) });
    assert_eq!(find_trait("Component", 1, &w), Some(1));
    assert_eq!(find_trait("Component", 0, &w), Some(0));
    let c = analyze_for("ecs", "Component", "sample_plugin", &w).unwrap();
    assert!(c.components.is_empty());
}

#[test]
fn non_struct_self_types_are_skipped() {
    let mut w = sample(false);
    let impls = &mut w.modules[1].impls;
    impls.push(ImplBlock { trait_: Some(0), self_ty: SelfTy::Enum });
    impls.push(ImplBlock { trait_: Some(0), self_ty: SelfTy::Primitive });
    impls.push(ImplBlock { trait_: Some(0), self_ty: SelfTy::Struct(0) });
    impls.push(ImplBlock { trait_: Some(0), self_ty: SelfTy::Unresolved });
    impls.push(ImplBlock { trait_: None, self_ty: SelfTy::Struct(0) });
    let v = extract_components(1, 0, &w).unwrap();
    assert_eq!(v.len(), 1);
    assert_eq!(v[0].name, "Point");
}

#[test]
fn fields_keep_declaration_order() {
    let mut w = sample(true);
    w.structs[0].fields = vec![s("zeta"), s("alpha"), s("mid")];
    let c = analyze_for("ecs", "Component", "sample_plugin", &w).unwrap();
    assert_eq!(c.components[0].fields, vec![s("zeta"), s("alpha"), s("mid")]);
}

#[test]
fn components_follow_module_then_block_order() {
    let mut w = sample(true);
    w.modules.push(module(Some("shapes"), Some(1), 1));
    w.units[1].modules.push(2);
    w.structs.push(StructNode { name: Some(s("Circle")), module: 2, fields: vec![s("r")] });
    w.modules[2].impls.push(ImplBlock { trait_: Some(0), self_ty: SelfTy::Struct(1) });
    w.modules[1].impls.push(ImplBlock { trait_: Some(0), self_ty: SelfTy::Struct(0) });
    let c = analyze_for("ecs", "Component", "sample_plugin", &w).unwrap();
    let paths: Vec<&str> = c.components.iter().map(|x| x.path.as_str()).collect();
    assert_eq!(paths, vec!["sample_plugin::Point", "sample_plugin::Point", "sample_plugin::shapes::Circle"]);
}

#[test]
fn first_unit_of_a_name_wins_and_nameless_units_never_match() {
    let mut w = sample(true);
    w.units.push(Unit { name: None, modules: Vec::new() });
    w.units.push(Unit { name: Some(s("ecs")), modules: Vec::new() });
    assert_eq!(find_crate("ecs", &w), Some(0));
    assert_eq!(find_crate("sample_plugin", &w), Some(1));
    assert_eq!(find_crate("Ecs", &w), None);
    assert_eq!(find_crate("", &w), None);
}
