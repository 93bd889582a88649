use shader_plumber::uniforms::AssetId;
use shader_plumber::uniforms::IVec2;
use shader_plumber::uniforms::ShaderUniformHolder;
use shader_plumber::uniforms::ShaderUniformValue;

#[test]
fn equal_name_and_value_give_equal_shallow_hashes() {
    let a = ShaderUniformHolder::new("scale", ShaderUniformValue::Float32(3.5f32.to_bits()));
    let b = ShaderUniformHolder::new("scale", ShaderUniformValue::Float32(3.5f32.to_bits()));
    assert_eq!(a.shallow_hash(), b.shallow_hash());
}

#[test]
fn changing_the_literal_changes_the_hash() {
    let a = ShaderUniformHolder::new("scale", ShaderUniformValue::Float32(3.5f32.to_bits()));
    let b = ShaderUniformHolder::new("scale", ShaderUniformValue::Float32(4.5f32.to_bits()));
    assert_ne!(a.shallow_hash(), b.shallow_hash());
}

#[test]
fn the_variant_tag_is_part_of_the_hash() {
    let bits = 7u32;
    let a = ShaderUniformHolder::new("v", ShaderUniformValue::Float32(bits));
    let b = ShaderUniformHolder::new("v", ShaderUniformValue::Uint32(bits));
    assert_ne!(a.shallow_hash(), b.shallow_hash());
}

#[test]
fn nested_bundles_hash_their_children() {
    let inner_a = vec![ShaderUniformHolder::new("x", ShaderUniformValue::Int32(1))];
    let inner_b = vec![ShaderUniformHolder::new("x", ShaderUniformValue::Int32(2))];
    let inner_c = vec![ShaderUniformHolder::new("x", ShaderUniformValue::Int32(1))];
    let a = ShaderUniformHolder::new("bundle", ShaderUniformValue::Bundle(inner_a));
    let b = ShaderUniformHolder::new("bundle", ShaderUniformValue::Bundle(inner_b));
    let c = ShaderUniformHolder::new("bundle", ShaderUniformValue::Bundle(inner_c));
    assert_ne!(a.shallow_hash(), b.shallow_hash());
    assert_eq!(a.shallow_hash(), c.shallow_hash());
}

#[test]
fn asset_references_hash_their_id_without_resolution() {
    let a = ShaderUniformHolder::new("t", ShaderUniformValue::TextureAsset(AssetId { id: 1 }));
    let b = ShaderUniformHolder::new("t", ShaderUniformValue::TextureAsset(AssetId { id: 2 }));
    let c = ShaderUniformHolder::new("t", ShaderUniformValue::TextureAsset(AssetId { id: 1 }));
    assert_ne!(a.shallow_hash(), b.shallow_hash());
    assert_eq!(a.shallow_hash(), c.shallow_hash());
}

#[test]
fn vector_literals_hash_every_lane() {
    let a = ShaderUniformHolder::new("p", ShaderUniformValue::Ivec2(IVec2 { x: 1, y: 2 }));
    let b = ShaderUniformHolder::new("p", ShaderUniformValue::Ivec2(IVec2 { x: 2, y: 1 }));
    assert_ne!(a.shallow_hash(), b.shallow_hash());
}
