use shader_plumber::resolve::AssetStore;
use shader_plumber::resolve::AssetValue;
use shader_plumber::resolve::ResolveError;
use shader_plumber::resolve::resolve_holders;
use shader_plumber::uniforms::AssetId;
use shader_plumber::uniforms::ResolvedShaderUniformValue;
use shader_plumber::uniforms::ShaderUniformHolder;
use shader_plumber::uniforms::ShaderUniformValue;

#[test]
fn resolution_keeps_forward_order_when_completions_arrive_reversed() {
    let uniforms = vec![
        ShaderUniformHolder::new("a", ShaderUniformValue::Float32Asset(AssetId { id: 1 })),
        ShaderUniformHolder::new("b", ShaderUniformValue::Float32Asset(AssetId { id: 2 })),
        ShaderUniformHolder::new("c", ShaderUniformValue::Float32Asset(AssetId { id: 3 })),
    ];
    // The computations "complete" in reverse order: the store is filled 3, 2, 1.
    let mut store = AssetStore::new();
    store.insert(AssetId { id: 3 }, AssetValue::Float32(3.0f32.to_bits()));
    store.insert(AssetId { id: 2 }, AssetValue::Float32(2.0f32.to_bits()));
    store.insert(AssetId { id: 1 }, AssetValue::Float32(1.0f32.to_bits()));

    let resolved = resolve_holders(&store, &uniforms).expect("all assets are present");
    assert_eq!(resolved.len(), 3);
    let expected = [("a", 1.0f32), ("b", 2.0f32), ("c", 3.0f32)];
    for (holder, (name, value)) in resolved.iter().zip(expected.iter()) {
        assert_eq!(holder.name.as_str(), *name);
        match &holder.value {
            ResolvedShaderUniformValue::Float32Asset(bits) => {
                assert_eq!(*bits, value.to_bits());
            },
            _ => panic!("expected a resolved float asset"),
        }
    }
}

#[test]
fn insertion_order_does_not_change_the_result() {
    let uniforms = vec![
        ShaderUniformHolder::new("a", ShaderUniformValue::Uint32Asset(AssetId { id: 10 })),
        ShaderUniformHolder::new("b", ShaderUniformValue::Uint32Asset(AssetId { id: 20 })),
    ];
    let mut forward = AssetStore::new();
    forward.insert(AssetId { id: 10 }, AssetValue::Uint32(100));
    forward.insert(AssetId { id: 20 }, AssetValue::Uint32(200));
    let mut reversed = AssetStore::new();
    reversed.insert(AssetId { id: 20 }, AssetValue::Uint32(200));
    reversed.insert(AssetId { id: 10 }, AssetValue::Uint32(100));

    let a = resolve_holders(&forward, &uniforms).expect("resolvable");
    let b = resolve_holders(&reversed, &uniforms).expect("resolvable");
    assert_eq!(a.len(), b.len());
    for (x, y) in a.iter().zip(b.iter()) {
        assert_eq!(x.name, y.name);
        match (&x.value, &y.value) {
            (
                ResolvedShaderUniformValue::Uint32Asset(u),
                ResolvedShaderUniformValue::Uint32Asset(v),
            ) => assert_eq!(u, v),
            _ => panic!("expected resolved uint assets"),
        }
    }
}

#[test]
fn missing_asset_fails_the_whole_resolution() {
    let uniforms = vec![
        ShaderUniformHolder::new("ok", ShaderUniformValue::Uint32(5)),
        ShaderUniformHolder::new("gone", ShaderUniformValue::TextureAsset(AssetId { id: 77 })),
    ];
    let store = AssetStore::new();
    let r = resolve_holders(&store, &uniforms);
    assert!(matches!(r, Err(ResolveError::ResolutionFailure)));
}

#[test]
fn wrong_kind_in_the_store_fails_resolution() {
    let uniforms = vec![
        ShaderUniformHolder::new("f", ShaderUniformValue::Float32Asset(AssetId { id: 5 })),
    ];
    let mut store = AssetStore::new();
    store.insert(AssetId { id: 5 }, AssetValue::Uint32(1));
    let r = resolve_holders(&store, &uniforms);
    assert!(matches!(r, Err(ResolveError::ResolutionFailure)));
}

#[test]
fn nested_bundles_resolve_child_by_child() {
    let inner = vec![
        ShaderUniformHolder::new("leaf", ShaderUniformValue::Uint32Asset(AssetId { id: 4 })),
    ];
    let uniforms = vec![ShaderUniformHolder::new("outer", ShaderUniformValue::Bundle(inner))];
    let mut store = AssetStore::new();
    store.insert(AssetId { id: 4 }, AssetValue::Uint32(44));
    let resolved = resolve_holders(&store, &uniforms).expect("resolvable");
    match &resolved[0].value {
        ResolvedShaderUniformValue::Bundle(children) => {
            assert_eq!(children.len(), 1);
            assert_eq!(children[0].name.as_str(), "leaf");
            assert!(matches!(
                children[0].value,
                ResolvedShaderUniformValue::Uint32Asset(44)
            ));
        },
        _ => panic!("expected a resolved bundle"),
    }
}
