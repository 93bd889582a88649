use shader_plumber::binder::DescriptorWrite;
use shader_plumber::binder::UniformArena;
use shader_plumber::dispatch::AccessKind;
use shader_plumber::dispatch::ComputePipeline;
use shader_plumber::dispatch::ComputeShader;
use shader_plumber::dispatch::DispatchError;
use shader_plumber::dispatch::compute_tex;
use shader_plumber::group_count;
use shader_plumber::reflect::DescriptorBindingInfo;
use shader_plumber::reflect::DescriptorKind;
use shader_plumber::reflect::DescriptorSetInfo;
use shader_plumber::reflect::ReflectionInfo;
use shader_plumber::reflect::WorkGroupSize;
use shader_plumber::resolve::AssetStore;
use shader_plumber::resolve::ResolveError;
use shader_plumber::uniforms::AssetId;
use shader_plumber::uniforms::ShaderUniformHolder;
use shader_plumber::uniforms::ShaderUniformValue;
use shader_plumber::uniforms::Texture;
use shader_plumber::uniforms::TextureKey;
use shader_plumber::uniforms::Vec4Bits;

fn test_shader() -> ComputeShader {
    ComputeShader {
        name: "blit".to_string(),
        pipeline: ComputePipeline { pipeline_layout: 11, pipeline: 12 },
        reflection: ReflectionInfo {
            descriptor_sets: vec![DescriptorSetInfo {
                bindings: vec![DescriptorBindingInfo {
                    binding: 0,
                    name: "outputTex".to_string(),
                    count: 1,
                    kind: DescriptorKind::StorageImage,
                }],
            }],
            work_group_size: WorkGroupSize { x: 8, y: 8, z: 1 },
        },
        descriptor_set_layouts: vec![21],
    }
}

fn output_texture(key: TextureKey) -> Texture {
    Texture {
        key,
        image: 31,
        view: 32,
        size_bits: Vec4Bits {
            x: (key.width as f32).to_bits(),
            y: (key.height as f32).to_bits(),
            z: (1.0f32 / key.width as f32).to_bits(),
            w: (1.0f32 / key.height as f32).to_bits(),
        },
    }
}

#[test]
fn group_count_divides_exactly_and_rounds_up() {
    assert_eq!(group_count(1024, 8), 128);
    assert_eq!(group_count(768, 8), 96);
    assert_eq!(group_count(1023, 8), 128);
    assert_eq!(group_count(767, 8), 96);
    assert_eq!(group_count(0, 8), 0);
    assert_eq!(group_count(1, 8), 1);
}

#[test]
fn compute_tex_binds_the_output_image_and_sizes_the_dispatch() {
    let cs = test_shader();
    let key = TextureKey { width: 1024, height: 768, format: 0 };
    let output = output_texture(key);
    let store = AssetStore::new();
    let uniforms: Vec<ShaderUniformHolder> = Vec::new();
    let mut arena = UniformArena::new(256);

    let plan = compute_tex(&key, &cs, &store, &uniforms, output, &mut arena).expect("dispatches");
    assert_eq!(plan.barrier.image, 31);
    assert!(matches!(plan.barrier.prev_access, AccessKind::Nothing));
    assert!(matches!(plan.barrier.next_access, AccessKind::ComputeShaderWrite));
    assert!(plan.barrier.discard);
    assert_eq!(plan.pipeline, ComputePipeline { pipeline_layout: 11, pipeline: 12 });
    assert_eq!(
        plan.descriptor_writes,
        vec![DescriptorWrite::StorageImage { set_index: 0, binding: 0, image_view: 32 }]
    );
    assert!(plan.dynamic_offsets.is_empty());
    assert_eq!((plan.groups.x, plan.groups.y, plan.groups.z), (128, 96, 1));
    assert_eq!(plan.debug_name.as_str(), "blit");
    assert_eq!(plan.output_view, 32);
}

#[test]
fn odd_output_sizes_round_the_dispatch_up() {
    let cs = test_shader();
    let key = TextureKey { width: 1023, height: 767, format: 0 };
    let output = output_texture(key);
    let store = AssetStore::new();
    let uniforms: Vec<ShaderUniformHolder> = Vec::new();
    let mut arena = UniformArena::new(256);
    let plan = compute_tex(&key, &cs, &store, &uniforms, output, &mut arena).expect("dispatches");
    assert_eq!((plan.groups.x, plan.groups.y, plan.groups.z), (128, 96, 1));
}

#[test]
fn failed_asset_resolution_aborts_the_dispatch() {
    let cs = test_shader();
    let key = TextureKey { width: 64, height: 64, format: 0 };
    let output = output_texture(key);
    let store = AssetStore::new();
    let uniforms = vec![ShaderUniformHolder::new(
        "missing",
        ShaderUniformValue::Float32Asset(AssetId { id: 9 }),
    )];
    let mut arena = UniformArena::new(256);
    let r = compute_tex(&key, &cs, &store, &uniforms, output, &mut arena);
    assert!(matches!(r, Err(DispatchError::Resolve(ResolveError::ResolutionFailure))));
}
