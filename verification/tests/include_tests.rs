use shader_plumber::include_resolve::AssetPath;
use shader_plumber::include_resolve::include_path;
use shader_plumber::reflect::BlockLayout;
use shader_plumber::reflect::DescriptorBindingInfo;
use shader_plumber::reflect::DescriptorKind;
use shader_plumber::reflect::DescriptorSetInfo;
use shader_plumber::reflect::LayoutBinding;
use shader_plumber::reflect::LayoutDescriptorType;
use shader_plumber::reflect::ReflectionInfo;
use shader_plumber::reflect::WorkGroupSize;
use shader_plumber::reflect::generate_descriptor_set_layouts;

fn ctx() -> AssetPath {
    AssetPath { crate_name: "rtoy".to_string(), asset_name: "shaders/main.glsl".to_string() }
}

#[test]
fn a_plain_include_is_relative_to_the_including_file() {
    let r = include_path("common.glsl", &ctx());
    assert_eq!(r.crate_name.as_str(), "rtoy");
    assert_eq!(r.asset_name.as_str(), "shaders/common.glsl");
}

#[test]
fn a_leading_slash_addresses_the_crate_root() {
    let r = include_path("/lib/math.glsl", &ctx());
    assert_eq!(r.crate_name.as_str(), "rtoy");
    assert_eq!(r.asset_name.as_str(), "lib/math.glsl");
}

#[test]
fn a_double_colon_selects_another_crate() {
    let r = include_path("stdlib::noise/simplex.glsl", &ctx());
    assert_eq!(r.crate_name.as_str(), "stdlib");
    assert_eq!(r.asset_name.as_str(), "noise/simplex.glsl");
}

#[test]
fn a_relative_include_climbs_out_of_a_nested_folder() {
    let deep = AssetPath {
        crate_name: "rtoy".to_string(),
        asset_name: "shaders/sub/effect.glsl".to_string(),
    };
    let r = include_path("util.glsl", &deep);
    assert_eq!(r.asset_name.as_str(), "shaders/sub/util.glsl");
}

#[test]
fn layouts_keep_supported_bindings_in_order_and_skip_the_rest() {
    let refl = ReflectionInfo {
        descriptor_sets: vec![DescriptorSetInfo {
            bindings: vec![
                DescriptorBindingInfo {
                    binding: 0,
                    name: "globals".to_string(),
                    count: 1,
                    kind: DescriptorKind::UniformBuffer(BlockLayout { size: 64, members: vec![] }),
                },
                DescriptorBindingInfo {
                    binding: 1,
                    name: "sampler".to_string(),
                    count: 1,
                    kind: DescriptorKind::Unsupported,
                },
                DescriptorBindingInfo {
                    binding: 2,
                    name: "outputTex".to_string(),
                    count: 1,
                    kind: DescriptorKind::StorageImage,
                },
            ],
        }],
        work_group_size: WorkGroupSize { x: 8, y: 8, z: 1 },
    };
    let layouts = generate_descriptor_set_layouts(&refl);
    assert_eq!(layouts.len(), 1);
    assert_eq!(
        layouts[0].bindings,
        vec![
            LayoutBinding {
                binding: 0,
                descriptor_type: LayoutDescriptorType::UniformBufferDynamic,
                count: 1,
            },
            LayoutBinding {
                binding: 2,
                descriptor_type: LayoutDescriptorType::StorageImage,
                count: 1,
            },
        ]
    );
}
