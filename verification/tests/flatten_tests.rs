use shader_plumber::flatten::PlumberEvent;
use shader_plumber::flatten::flatten_uniforms;
use shader_plumber::uniform_map::build_flat_uniform_map;
use shader_plumber::uniforms::ResolvedShaderUniformHolder;
use shader_plumber::uniforms::ResolvedShaderUniformValue;
use shader_plumber::uniforms::Texture;
use shader_plumber::uniforms::TextureKey;
use shader_plumber::uniforms::Vec4Bits;

fn holder(name: &str, value: ResolvedShaderUniformValue) -> ResolvedShaderUniformHolder {
    ResolvedShaderUniformHolder { name: name.to_string(), value }
}

fn set_name(e: &PlumberEvent) -> &str {
    match e {
        PlumberEvent::SetUniform { name, .. } => name.as_str(),
        _ => panic!("expected a SetUniform event"),
    }
}

fn test_texture(width: u32, height: u32, view: u64) -> Texture {
    Texture {
        key: TextureKey { width, height, format: 0 },
        image: 1,
        view,
        size_bits: Vec4Bits {
            x: (width as f32).to_bits(),
            y: (height as f32).to_bits(),
            z: (1.0f32 / width as f32).to_bits(),
            w: (1.0f32 / height as f32).to_bits(),
        },
    }
}

#[test]
fn literal_bundle_flattens_to_one_event_per_holder_in_order() {
    let uniforms = vec![
        holder("a", ResolvedShaderUniformValue::Float32(1.5f32.to_bits())),
        holder("b", ResolvedShaderUniformValue::Uint32(7)),
        holder("c", ResolvedShaderUniformValue::Int32(-3)),
    ];
    let mut events = Vec::new();
    flatten_uniforms(&uniforms, &mut events);
    assert_eq!(events.len(), 3);
    assert_eq!(set_name(&events[0]), "a");
    assert_eq!(set_name(&events[1]), "b");
    assert_eq!(set_name(&events[2]), "c");
    for e in &events {
        assert!(matches!(e, PlumberEvent::SetUniform { .. }));
    }
}

#[test]
fn texture_emits_size_uniform_immediately_before_itself() {
    let tex = test_texture(128, 64, 9);
    let uniforms = vec![
        holder("before", ResolvedShaderUniformValue::Uint32(1)),
        holder("t", ResolvedShaderUniformValue::TextureAsset(tex)),
    ];
    let mut events = Vec::new();
    flatten_uniforms(&uniforms, &mut events);
    assert_eq!(events.len(), 3);
    assert_eq!(set_name(&events[1]), "t_size");
    match &events[1] {
        PlumberEvent::SetUniform { value: ResolvedShaderUniformValue::Vec4(q), .. } => {
            assert_eq!(q.x, 128.0f32.to_bits());
            assert_eq!(q.y, 64.0f32.to_bits());
            assert_eq!(q.z, (1.0f32 / 128.0f32).to_bits());
            assert_eq!(q.w, (1.0f32 / 64.0f32).to_bits());
        },
        _ => panic!("expected the texture-size vector"),
    }
    assert_eq!(set_name(&events[2]), "t");
    match &events[2] {
        PlumberEvent::SetUniform { value: ResolvedShaderUniformValue::TextureAsset(t), .. } => {
            assert_eq!(t.view, 9);
        },
        _ => panic!("expected the texture value"),
    }
}

#[test]
fn nested_bundles_open_balanced_scopes_after_flat_values() {
    let inner = vec![holder("c", ResolvedShaderUniformValue::Uint32(3))];
    let middle = vec![
        holder("b", ResolvedShaderUniformValue::Uint32(2)),
        holder("", ResolvedShaderUniformValue::Bundle(inner)),
    ];
    let uniforms = vec![
        holder("a", ResolvedShaderUniformValue::Uint32(1)),
        holder("", ResolvedShaderUniformValue::Bundle(middle)),
        holder("d", ResolvedShaderUniformValue::Uint32(4)),
    ];
    let mut events = Vec::new();
    flatten_uniforms(&uniforms, &mut events);

    let kinds: Vec<&str> = events
        .iter()
        .map(|e| match e {
            PlumberEvent::SetUniform { name, .. } => name.as_str(),
            PlumberEvent::EnterScope => "<enter>",
            PlumberEvent::LeaveScope => "<leave>",
        })
        .collect();
    assert_eq!(kinds, vec!["a", "d", "<enter>", "b", "<enter>", "c", "<leave>", "<leave>"]);

    let mut depth: i64 = 0;
    let mut enters = 0;
    let mut leaves = 0;
    for e in &events {
        match e {
            PlumberEvent::EnterScope => {
                depth += 1;
                enters += 1;
            },
            PlumberEvent::LeaveScope => {
                depth -= 1;
                leaves += 1;
                assert!(depth >= 0, "a scope closed that was never opened");
            },
            _ => {},
        }
    }
    assert_eq!(depth, 0);
    assert_eq!(enters, 2);
    assert_eq!(leaves, 2);
}

#[test]
fn later_scope_writes_shadow_earlier_ones_in_the_map() {
    let nested = vec![holder("x", ResolvedShaderUniformValue::Uint32(2))];
    let uniforms = vec![
        holder("x", ResolvedShaderUniformValue::Uint32(1)),
        holder("", ResolvedShaderUniformValue::Bundle(nested)),
    ];
    let mut events = Vec::new();
    flatten_uniforms(&uniforms, &mut events);
    let map = build_flat_uniform_map(&events);
    match map.get(&"x".to_string()) {
        Some(ResolvedShaderUniformValue::Uint32(u)) => assert_eq!(*u, 2),
        _ => panic!("expected the nested scope's value to win"),
    }
    assert!(map.get(&"missing".to_string()).is_none());
}
