use shader_plumber::binder::BindError;
use shader_plumber::binder::DescriptorWrite;
use shader_plumber::binder::BindWarning;
use shader_plumber::binder::UniformArena;
use shader_plumber::binder::update_descriptor_sets;
use shader_plumber::reflect::BlockLayout;
use shader_plumber::reflect::BlockMember;
use shader_plumber::reflect::DescriptorBindingInfo;
use shader_plumber::reflect::DescriptorKind;
use shader_plumber::reflect::DescriptorSetInfo;
use shader_plumber::reflect::ReflectionInfo;
use shader_plumber::reflect::WorkGroupSize;
use shader_plumber::reflect::check_reflection;
use shader_plumber::uniform_map::FlatUniformMap;
use shader_plumber::uniforms::ResolvedShaderUniformValue;
use shader_plumber::uniforms::Texture;
use shader_plumber::uniforms::TextureKey;
use shader_plumber::uniforms::Vec4Bits;

fn block_binding(binding: u32, size: u32, members: Vec<BlockMember>) -> DescriptorBindingInfo {
    DescriptorBindingInfo {
        binding,
        name: "block".to_string(),
        count: 1,
        kind: DescriptorKind::UniformBuffer(BlockLayout { size, members }),
    }
}

fn reflection_of(bindings: Vec<DescriptorBindingInfo>) -> ReflectionInfo {
    ReflectionInfo {
        descriptor_sets: vec![DescriptorSetInfo { bindings }],
        work_group_size: WorkGroupSize { x: 8, y: 8, z: 1 },
    }
}

#[test]
fn float_member_bytes_land_at_the_declared_offset() {
    let refl = reflection_of(vec![block_binding(
        0,
        16,
        vec![BlockMember { name: "x".to_string(), offset: 8, size: 4 }],
    )]);
    assert!(check_reflection(&refl));
    let mut arena = UniformArena::new(64);
    let mut map = FlatUniformMap::new();
    map.insert("x".to_string(), ResolvedShaderUniformValue::Float32(3.5f32.to_bits()));

    let out = update_descriptor_sets(&refl, &mut arena, &map).expect("binds");
    assert_eq!(out.dynamic_offsets, vec![0u32]);
    assert_eq!(
        out.writes,
        vec![DescriptorWrite::UniformBufferDynamic {
            set_index: 0,
            binding: 0,
            arena_offset: 0,
            size: 16,
        }]
    );
    let expected = 3.5f32.to_le_bytes();
    for k in 0..4 {
        assert_eq!(arena.byte_at(8 + k), expected[k]);
    }
    // Members without a mapped value stay zero.
    for k in 0..8 {
        assert_eq!(arena.byte_at(k), 0);
    }
}

#[test]
fn storage_image_binding_records_the_mapped_textures_view() {
    let refl = reflection_of(vec![DescriptorBindingInfo {
        binding: 1,
        name: "outputTex".to_string(),
        count: 1,
        kind: DescriptorKind::StorageImage,
    }]);
    let mut arena = UniformArena::new(16);
    let mut map = FlatUniformMap::new();
    let tex = Texture {
        key: TextureKey { width: 4, height: 4, format: 0 },
        image: 5,
        view: 42,
        size_bits: Vec4Bits { x: 0, y: 0, z: 0, w: 0 },
    };
    map.insert("outputTex".to_string(), ResolvedShaderUniformValue::TextureAsset(tex));

    let out = update_descriptor_sets(&refl, &mut arena, &map).expect("binds");
    assert!(out.dynamic_offsets.is_empty());
    assert_eq!(
        out.writes,
        vec![DescriptorWrite::StorageImage { set_index: 0, binding: 1, image_view: 42 }]
    );
}

#[test]
fn unmapped_storage_image_is_left_unwritten() {
    let refl = reflection_of(vec![DescriptorBindingInfo {
        binding: 0,
        name: "outputTex".to_string(),
        count: 1,
        kind: DescriptorKind::StorageImage,
    }]);
    let mut arena = UniformArena::new(16);
    let map = FlatUniformMap::new();
    let out = update_descriptor_sets(&refl, &mut arena, &map).expect("binds");
    assert!(out.writes.is_empty());
    assert!(out.warnings.is_empty());
}

#[test]
fn vec4_fills_a_sixteen_byte_member() {
    let refl = reflection_of(vec![block_binding(
        0,
        16,
        vec![BlockMember { name: "v".to_string(), offset: 0, size: 16 }],
    )]);
    let mut arena = UniformArena::new(64);
    let mut map = FlatUniformMap::new();
    let lanes = [1.0f32, 2.0f32, 3.0f32, 4.0f32];
    map.insert(
        "v".to_string(),
        ResolvedShaderUniformValue::Vec4(Vec4Bits {
            x: lanes[0].to_bits(),
            y: lanes[1].to_bits(),
            z: lanes[2].to_bits(),
            w: lanes[3].to_bits(),
        }),
    );
    update_descriptor_sets(&refl, &mut arena, &map).expect("binds");
    for (lane, value) in lanes.iter().enumerate() {
        let expected = value.to_le_bytes();
        for k in 0..4 {
            assert_eq!(arena.byte_at(lane * 4 + k), expected[k]);
        }
    }
}

#[test]
fn type_mismatch_is_a_fatal_bind_error() {
    let refl = reflection_of(vec![block_binding(
        0,
        16,
        vec![BlockMember { name: "v".to_string(), offset: 0, size: 16 }],
    )]);
    let mut arena = UniformArena::new(64);
    let mut map = FlatUniformMap::new();
    map.insert("v".to_string(), ResolvedShaderUniformValue::Float32(1.0f32.to_bits()));
    let r = update_descriptor_sets(&refl, &mut arena, &map);
    assert!(matches!(r, Err(BindError::MemberTypeMismatch)));
}

#[test]
fn exhausted_arena_is_a_fatal_bind_error() {
    let refl = reflection_of(vec![block_binding(0, 16, vec![])]);
    let mut arena = UniformArena::new(8);
    let map = FlatUniformMap::new();
    let r = update_descriptor_sets(&refl, &mut arena, &map);
    assert!(matches!(r, Err(BindError::ArenaExhaustion)));
}

#[test]
fn unsupported_binding_kind_warns_and_continues() {
    let refl = reflection_of(vec![
        DescriptorBindingInfo {
            binding: 3,
            name: "sampler".to_string(),
            count: 1,
            kind: DescriptorKind::Unsupported,
        },
        block_binding(4, 4, vec![]),
    ]);
    let mut arena = UniformArena::new(64);
    let map = FlatUniformMap::new();
    let out = update_descriptor_sets(&refl, &mut arena, &map).expect("binds");
    assert_eq!(
        out.warnings,
        vec![BindWarning::UnsupportedDescriptorKind { set_index: 0, binding: 3 }]
    );
    assert_eq!(out.dynamic_offsets, vec![0u32]);
}

#[test]
fn consecutive_blocks_get_consecutive_dynamic_offsets() {
    let refl = reflection_of(vec![block_binding(0, 16, vec![]), block_binding(1, 32, vec![])]);
    let mut arena = UniformArena::new(64);
    let map = FlatUniformMap::new();
    let out = update_descriptor_sets(&refl, &mut arena, &map).expect("binds");
    assert_eq!(out.dynamic_offsets, vec![0u32, 16u32]);
    assert_eq!(arena.cursor(), 48);
}

#[test]
fn arena_allocation_is_a_bump_with_exact_exhaustion() {
    let mut arena = UniformArena::new(10);
    assert_eq!(arena.capacity(), 10);
    assert_eq!(arena.allocate(6), Some(0));
    assert_eq!(arena.allocate(4), Some(6));
    assert_eq!(arena.allocate(1), None);
    assert_eq!(arena.cursor(), 10);
}

#[test]
fn overlapping_members_are_rejected_at_load() {
    let refl = reflection_of(vec![block_binding(
        0,
        16,
        vec![
            BlockMember { name: "a".to_string(), offset: 0, size: 8 },
            BlockMember { name: "b".to_string(), offset: 4, size: 4 },
        ],
    )]);
    assert!(!check_reflection(&refl));
}

#[test]
fn member_past_the_block_end_is_rejected_at_load() {
    let refl = reflection_of(vec![block_binding(
        0,
        8,
        vec![BlockMember { name: "a".to_string(), offset: 8, size: 4 }],
    )]);
    assert!(!check_reflection(&refl));
}
