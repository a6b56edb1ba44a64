use twgraph_shader::descriptor::{
    generate_descriptor_layout, BufferData, DescriptorDescTy, DescriptorInput, DescriptorType,
};
use twgraph_shader::error::Error;
use twgraph_shader::interface::{generate_interface, InterfaceElement};
use twgraph_shader::layout::MainLayout;
use twgraph_shader::push_constants::{generate_pc, PushConstants};
use twgraph_shader::schema::{FieldShape, ScalarType};
use twgraph_shader::token::{Delim, Token};
use twgraph_shader::{twshader, GraphicsShaderType, MacroInput, ShaderKind, ShaderStages};

fn id(s: &str) -> Token {
    Token::Ident(s.to_string())
}

fn lit(s: &str) -> Token {
    Token::Str(s.to_string())
}

fn num(n: u64) -> Token {
    Token::Int(n)
}

fn ob() -> Token {
    Token::Open(Delim::Bracket)
}

fn cb() -> Token {
    Token::Close(Delim::Bracket)
}

fn oc() -> Token {
    Token::Open(Delim::Brace)
}

fn cc() -> Token {
    Token::Close(Delim::Brace)
}

fn op() -> Token {
    Token::Open(Delim::Paren)
}

fn cp() -> Token {
    Token::Close(Delim::Paren)
}

fn co() -> Token {
    Token::Colon
}

fn cm() -> Token {
    Token::Comma
}

/// `{ format: <fmt>, name: "<name>" }`
fn element_record(fmt: &str, name: &str) -> Vec<Token> {
    vec![
        oc(),
        id("format"),
        co(),
        id(fmt),
        cm(),
        id("name"),
        co(),
        lit(name),
        cc(),
    ]
}

/// A representative specification: a fragment stage with three inputs,
/// a push-constant block, and one uniform buffer.
fn example_spec() -> Vec<Token> {
    let mut t = vec![id("path"), co(), lit("test.frag"), cm(), id("kind"), co(), lit("fragment"), cm()];
    t.push(id("input"));
    t.push(co());
    t.push(ob());
    t.extend(element_record("R32G32Sfloat", "position"));
    t.push(cm());
    t.extend(element_record("R32G32Sfloat", "uv"));
    t.push(cm());
    t.extend(element_record("R32G32B32A32Sfloat", "color"));
    t.push(cb());
    t.push(cm());
    t.extend(vec![id("output"), co(), ob(), cb(), cm()]);
    t.extend(vec![id("push_constants"), co(), oc(), id("name"), co(), id("PushConstants"), cm()]);
    t.extend(vec![id("ranges"), co(), ob()]);
    t.extend(vec![op(), id("color"), cm(), num(4), cp(), cm()]);
    t.extend(vec![op(), id("color2"), cm(), num(4), cp(), cm()]);
    t.extend(vec![op(), id("long_ass"), cm(), num(12), cp(), cm()]);
    t.extend(vec![op(), id("color3"), cm(), num(4), cp()]);
    t.extend(vec![cb(), cm(), cc(), cm()]);
    t.extend(vec![id("descriptors"), co(), ob(), oc()]);
    t.extend(vec![id("name"), co(), id("UBO"), cm()]);
    t.extend(vec![id("ty"), co(), id("Buffer"), cm()]);
    t.extend(vec![id("data"), co(), ob()]);
    t.extend(vec![op(), id("model"), cm(), lit("mat4"), cp(), cm()]);
    t.extend(vec![op(), id("view"), cm(), lit("mat4"), cp(), cm()]);
    t.extend(vec![op(), id("proj"), cm(), lit("mat4"), cp()]);
    t.extend(vec![cb(), cm()]);
    t.extend(vec![id("binding"), co(), num(0), cm()]);
    t.extend(vec![id("set"), co(), num(0), cm()]);
    t.extend(vec![cc(), cb(), cm()]);
    t
}

fn fragment_stages() -> ShaderStages {
    let mut s = ShaderStages::none();
    s.fragment = true;
    s
}

#[test]
fn from_str_reads_both_stages() {
    assert!(matches!(ShaderKind::from_str("vertex"), ShaderKind::Vertex));
    assert!(matches!(ShaderKind::from_str("fragment"), ShaderKind::Fragment));
}

#[test]
fn stage_masks() {
    let v = ShaderKind::Vertex.generate_shaderstage();
    assert!(v.vertex && !v.fragment && !v.compute);
    let f = ShaderKind::Fragment.generate_shaderstage();
    assert!(f.fragment && !f.vertex);
    let all = ShaderStages::all();
    assert!(all.vertex && all.fragment && all.compute && all.geometry);
}

#[test]
fn minimal_spec_defaults_to_empty() {
    let toks = vec![id("path"), co(), lit("a.vert"), cm(), id("kind"), co(), lit("vertex")];
    let c = twshader(&toks).unwrap();
    assert_eq!(c.path, "a.vert");
    assert!(matches!(c.kind, ShaderKind::Vertex));
    assert_eq!(c.layout.num_sets(), 0);
    assert_eq!(c.layout.num_bindings_in_set(0), None);
    assert_eq!(c.layout.num_push_constants_ranges(), 0);
    assert_eq!(c.layout.push_constants_range(0), None);
    assert!(c.layout.descriptor(0, 0).is_none());
    assert!(c.pc_schema.is_none());
    assert!(c.buffer_schemas.is_empty());
    assert_eq!(c.input_interface.entries.len(), 0);
    let mut it = c.input_interface.elements();
    assert_eq!(it.size_hint(), (0, Some(0)));
    assert!(it.next().is_none());
}

#[test]
fn example_spec_compiles() {
    let c = twshader(&example_spec()).unwrap();
    assert_eq!(c.path, "test.frag");
    assert!(matches!(c.kind, ShaderKind::Fragment));

    // set/binding aggregation
    assert_eq!(c.layout.num_sets(), 1);
    assert_eq!(c.layout.num_bindings_in_set(0), Some(1));
    assert_eq!(c.layout.num_bindings_in_set(1), None);

    // the single uniform buffer at (0, 0)
    let d = c.layout.descriptor(0, 0).unwrap();
    assert_eq!(d.array_count, 1);
    assert!(d.readonly);
    assert_eq!(d.stages, fragment_stages());
    match d.ty {
        DescriptorDescTy::Buffer(b) => {
            assert_eq!(b.dynamic, Some(false));
            assert!(!b.storage);
        },
        _ => panic!("expected a buffer descriptor"),
    }
    assert!(c.layout.descriptor(0, 1).is_none());
    assert!(c.layout.descriptor(1, 0).is_none());

    // push constants: one range, (4 + 4 + 12 + 4) * 4 bytes, all stages
    assert_eq!(c.layout.num_push_constants_ranges(), 1);
    let r = c.layout.push_constants_range(0).unwrap();
    assert_eq!(r.offset, 0);
    assert_eq!(r.size, 96);
    assert_eq!(r.stages, ShaderStages::all());
    assert!(c.layout.push_constants_range(1).is_none());

    // push-constant schema: sequential float arrays
    let pcs = c.pc_schema.unwrap();
    assert_eq!(pcs.name, "PushConstants");
    let offsets: Vec<usize> = pcs.fields.iter().map(|f| f.offset).collect();
    assert_eq!(offsets, vec![0, 16, 32, 80]);
    assert_eq!(pcs.fields[2].size, 48);
    assert_eq!(pcs.fields[2].name, "long_ass");
    assert_eq!(pcs.fields[2].shape, FieldShape::FloatArray(12));

    // buffer schema: three mat4 fields packed sequentially
    assert_eq!(c.buffer_schemas.len(), 1);
    let ubo = &c.buffer_schemas[0];
    assert_eq!(ubo.name, "UBO");
    assert_eq!(ubo.fields.len(), 3);
    assert_eq!(ubo.fields[0].name, "model");
    assert_eq!(ubo.fields[0].offset, 0);
    assert_eq!(ubo.fields[1].name, "view");
    assert_eq!(ubo.fields[1].offset, 64);
    assert_eq!(ubo.fields[2].name, "proj");
    assert_eq!(ubo.fields[2].offset, 128);
    assert_eq!(ubo.fields[2].size, 64);
    assert_eq!(ubo.fields[2].shape, FieldShape::Scalar(ScalarType::Mat4));

    // input interface: forward locations, reverse enumeration
    assert_eq!(c.input_interface.name, "MainInput");
    assert_eq!(c.input_interface.entries.len(), 3);
    let mut it = c.input_interface.elements();
    assert_eq!(it.size_hint(), (3, Some(3)));
    let e0 = it.next().unwrap();
    assert_eq!(e0.name, "color");
    assert_eq!((e0.location_start, e0.location_end), (2, 3));
    assert_eq!(it.size_hint(), (2, Some(2)));
    let e1 = it.next().unwrap();
    assert_eq!(e1.name, "uv");
    assert_eq!((e1.location_start, e1.location_end), (1, 2));
    let e2 = it.next().unwrap();
    assert_eq!(e2.name, "position");
    assert_eq!((e2.location_start, e2.location_end), (0, 1));
    assert_eq!(it.size_hint(), (0, Some(0)));
    assert!(it.next().is_none());

    assert_eq!(c.output_interface.name, "MainOutput");
    assert!(c.output_interface.entries.is_empty());
}

#[test]
fn reverse_enumeration_law_on_five_elements() {
    let elements: Vec<InterfaceElement> = (0..5)
        .map(|i| InterfaceElement { format: "R32Sfloat".to_string(), name: format!("attr{}", i) })
        .collect();
    let def = generate_interface("MainInput".to_string(), &elements);
    assert_eq!(def.entries.len(), 5);
    let mut it = def.elements();
    for i in 0..5usize {
        assert_eq!(it.size_hint().0, 5 - i);
        let e = it.next().unwrap();
        assert_eq!(e.location_start, 4 - i);
        assert_eq!(e.location_end, 5 - i);
        assert_eq!(e.name, format!("attr{}", 4 - i));
    }
    assert!(it.next().is_none());
    assert!(it.next().is_none());
}

#[test]
fn set_and_binding_counts_over_distinct_values() {
    let descs = vec![
        DescriptorInput {
            name: "a".to_string(),
            ty: DescriptorType::SampledImage,
            binding: 0,
            set: 0,
        },
        DescriptorInput {
            name: "b".to_string(),
            ty: DescriptorType::SampledImage,
            binding: 2,
            set: 0,
        },
        DescriptorInput {
            name: "c".to_string(),
            ty: DescriptorType::SampledImage,
            binding: 0,
            set: 3,
        },
        // repeats slot (0, 0): counted once
        DescriptorInput {
            name: "d".to_string(),
            ty: DescriptorType::SampledImage,
            binding: 0,
            set: 0,
        },
    ];
    let (layout, schemas) = generate_descriptor_layout(&descs);
    let main = MainLayout {
        stages: fragment_stages(),
        desc: layout,
        pc_ranges: Vec::new(),
    };
    assert_eq!(main.num_sets(), 2);
    assert_eq!(main.num_bindings_in_set(0), Some(2));
    assert_eq!(main.num_bindings_in_set(3), Some(1));
    assert_eq!(main.num_bindings_in_set(1), None);
    assert!(schemas.is_empty());
}

#[test]
fn duplicate_slot_collapses_to_last_declaration() {
    let descs = vec![
        DescriptorInput {
            name: "img".to_string(),
            ty: DescriptorType::SampledImage,
            binding: 1,
            set: 0,
        },
        DescriptorInput {
            name: "buf".to_string(),
            ty: DescriptorType::Buffer(BufferData { data: vec![] }),
            binding: 1,
            set: 0,
        },
    ];
    let (layout, _schemas) = generate_descriptor_layout(&descs);
    let main = MainLayout { stages: fragment_stages(), desc: layout, pc_ranges: Vec::new() };
    let d = main.descriptor(0, 1).unwrap();
    assert!(matches!(d.ty, DescriptorDescTy::Buffer(_)));
}

#[test]
fn push_constant_range_and_schema_formula() {
    let pc = PushConstants {
        name: "Pc".to_string(),
        ranges: vec![("a".to_string(), 2), ("b".to_string(), 3)],
    };
    let (ranges, schema) = generate_pc(Some(pc));
    assert_eq!(ranges.len(), 1);
    assert_eq!(ranges[0].offset, 0);
    assert_eq!(ranges[0].size, 20);
    assert_eq!(ranges[0].stages, ShaderStages::all());
    let s = schema.unwrap();
    assert_eq!(s.name, "Pc");
    assert_eq!(s.fields.len(), 2);
    assert_eq!(s.fields[0].name, "a");
    assert_eq!(s.fields[0].shape, FieldShape::FloatArray(2));
    assert_eq!(s.fields[0].offset, 0);
    assert_eq!(s.fields[0].size, 8);
    assert_eq!(s.fields[1].name, "b");
    assert_eq!(s.fields[1].shape, FieldShape::FloatArray(3));
    assert_eq!(s.fields[1].offset, 8);
    assert_eq!(s.fields[1].size, 12);
}

#[test]
fn no_push_constants_means_no_ranges() {
    let (ranges, schema) = generate_pc(None);
    assert!(ranges.is_empty());
    assert!(schema.is_none());
}

#[test]
fn scalar_shape_table_drives_buffer_offsets() {
    let descs = vec![DescriptorInput {
        name: "All".to_string(),
        ty: DescriptorType::Buffer(BufferData {
            data: vec![
                ("f".to_string(), ScalarType::Float),
                ("v2".to_string(), ScalarType::Vec2),
                ("v3".to_string(), ScalarType::Vec3),
                ("v4".to_string(), ScalarType::Vec4),
                ("m2".to_string(), ScalarType::Mat2),
                ("m3".to_string(), ScalarType::Mat3),
                ("m4".to_string(), ScalarType::Mat4),
            ],
        }),
        binding: 0,
        set: 0,
    }];
    let (_layout, schemas) = generate_descriptor_layout(&descs);
    assert_eq!(schemas.len(), 1);
    let offsets: Vec<usize> = schemas[0].fields.iter().map(|f| f.offset).collect();
    let sizes: Vec<usize> = schemas[0].fields.iter().map(|f| f.size).collect();
    assert_eq!(sizes, vec![4, 8, 12, 16, 16, 36, 64]);
    assert_eq!(offsets, vec![0, 4, 12, 24, 40, 56, 92]);
}

#[test]
fn sampled_image_contributes_no_schema_buffer_exactly_one() {
    let descs = vec![
        DescriptorInput {
            name: "tex".to_string(),
            ty: DescriptorType::SampledImage,
            binding: 0,
            set: 0,
        },
        DescriptorInput {
            name: "Ubo".to_string(),
            ty: DescriptorType::Buffer(BufferData {
                data: vec![
                    ("first".to_string(), ScalarType::Vec2),
                    ("second".to_string(), ScalarType::Mat3),
                ],
            }),
            binding: 1,
            set: 0,
        },
    ];
    let (layout, schemas) = generate_descriptor_layout(&descs);
    assert_eq!(layout.metas.len(), 2);
    assert_eq!(schemas.len(), 1);
    assert_eq!(schemas[0].name, "Ubo");
    assert_eq!(schemas[0].fields[0].name, "first");
    assert_eq!(schemas[0].fields[1].name, "second");
    let main = MainLayout { stages: fragment_stages(), desc: layout, pc_ranges: Vec::new() };
    match main.descriptor(0, 0).unwrap().ty {
        DescriptorDescTy::CombinedImageSampler(img) => {
            assert!(img.sampled);
            assert!(!img.multisampled);
        },
        _ => panic!("expected a combined image sampler"),
    }
}

#[test]
fn compiling_twice_yields_identical_outputs() {
    let toks = example_spec();
    let c1 = twshader(&toks).unwrap();
    let c2 = twshader(&toks).unwrap();
    assert_eq!(c1, c2);
}

#[test]
fn duplicate_path_key_fails() {
    let toks = vec![
        id("path"),
        co(),
        lit("a"),
        cm(),
        id("path"),
        co(),
        lit("b"),
        cm(),
        id("kind"),
        co(),
        lit("vertex"),
    ];
    assert_eq!(twshader(&toks), Err(Error::DuplicateKey("path".to_string())));
}

#[test]
fn duplicate_name_in_descriptor_fails() {
    let mut toks = vec![id("path"), co(), lit("a"), cm(), id("kind"), co(), lit("vertex"), cm()];
    toks.extend(vec![id("descriptors"), co(), ob(), oc()]);
    toks.extend(vec![id("name"), co(), id("A"), cm()]);
    toks.extend(vec![id("name"), co(), id("B"), cm()]);
    toks.extend(vec![id("ty"), co(), id("SampledImage"), cm()]);
    toks.extend(vec![id("binding"), co(), num(0), cm(), id("set"), co(), num(0)]);
    toks.extend(vec![cc(), cb()]);
    assert_eq!(twshader(&toks), Err(Error::DuplicateKey("name".to_string())));
}

#[test]
fn duplicate_format_in_interface_element_fails() {
    let mut toks = vec![id("path"), co(), lit("a"), cm(), id("kind"), co(), lit("vertex"), cm()];
    toks.extend(vec![id("input"), co(), ob(), oc()]);
    toks.extend(vec![id("format"), co(), id("R32Sfloat"), cm()]);
    toks.extend(vec![id("format"), co(), id("R32Sfloat"), cm()]);
    toks.extend(vec![id("name"), co(), lit("x")]);
    toks.extend(vec![cc(), cb()]);
    assert_eq!(twshader(&toks), Err(Error::DuplicateKey("format".to_string())));
}

#[test]
fn duplicate_ranges_in_push_constants_fails() {
    let mut toks = vec![id("path"), co(), lit("a"), cm(), id("kind"), co(), lit("vertex"), cm()];
    toks.extend(vec![id("push_constants"), co(), oc(), id("name"), co(), id("P"), cm()]);
    toks.extend(vec![id("ranges"), co(), ob(), cb(), cm()]);
    toks.extend(vec![id("ranges"), co(), ob(), cb()]);
    toks.push(cc());
    assert_eq!(twshader(&toks), Err(Error::DuplicateKey("ranges".to_string())));
}

#[test]
fn unknown_key_fails() {
    let toks = vec![id("path"), co(), lit("a"), cm(), id("colour"), co(), lit("b")];
    assert_eq!(twshader(&toks), Err(Error::UnknownKey("colour".to_string())));
}

#[test]
fn missing_kind_fails() {
    let toks = vec![id("path"), co(), lit("a")];
    assert_eq!(twshader(&toks), Err(Error::MissingField("kind".to_string())));
}

#[test]
fn missing_path_fails() {
    let toks = vec![id("kind"), co(), lit("vertex")];
    assert_eq!(twshader(&toks), Err(Error::MissingField("path".to_string())));
}

#[test]
fn missing_name_in_interface_element_fails() {
    let mut toks = vec![id("path"), co(), lit("a"), cm(), id("kind"), co(), lit("vertex"), cm()];
    toks.extend(vec![id("input"), co(), ob(), oc()]);
    toks.extend(vec![id("format"), co(), id("R32Sfloat")]);
    toks.extend(vec![cc(), cb()]);
    assert_eq!(twshader(&toks), Err(Error::MissingField("name".to_string())));
}

#[test]
fn buffer_without_data_fails_with_missing_data() {
    let mut toks = vec![id("path"), co(), lit("a"), cm(), id("kind"), co(), lit("vertex"), cm()];
    toks.extend(vec![id("descriptors"), co(), ob(), oc()]);
    toks.extend(vec![id("name"), co(), id("A"), cm()]);
    toks.extend(vec![id("ty"), co(), id("Buffer"), cm()]);
    toks.extend(vec![id("binding"), co(), num(0), cm(), id("set"), co(), num(0)]);
    toks.extend(vec![cc(), cb()]);
    assert_eq!(twshader(&toks), Err(Error::MissingData));
}

#[test]
fn unsupported_descriptor_kind_fails() {
    let mut toks = vec![id("path"), co(), lit("a"), cm(), id("kind"), co(), lit("vertex"), cm()];
    toks.extend(vec![id("descriptors"), co(), ob(), oc()]);
    toks.extend(vec![id("name"), co(), id("A"), cm()]);
    toks.extend(vec![id("ty"), co(), id("StorageImage"), cm()]);
    toks.extend(vec![id("binding"), co(), num(0), cm(), id("set"), co(), num(0)]);
    toks.extend(vec![cc(), cb()]);
    assert_eq!(
        twshader(&toks),
        Err(Error::UnsupportedDescriptorKind("StorageImage".to_string()))
    );
}

#[test]
fn unsupported_scalar_type_fails() {
    let mut toks = vec![id("path"), co(), lit("a"), cm(), id("kind"), co(), lit("vertex"), cm()];
    toks.extend(vec![id("descriptors"), co(), ob(), oc()]);
    toks.extend(vec![id("name"), co(), id("A"), cm()]);
    toks.extend(vec![id("ty"), co(), id("Buffer"), cm()]);
    toks.extend(vec![id("data"), co(), ob(), op(), id("m"), cm(), lit("dmat4"), cp(), cb(), cm()]);
    toks.extend(vec![id("binding"), co(), num(0), cm(), id("set"), co(), num(0)]);
    toks.extend(vec![cc(), cb()]);
    assert_eq!(twshader(&toks), Err(Error::UnsupportedScalarType("dmat4".to_string())));
}

#[test]
fn unsupported_shader_kind_fails() {
    let toks = vec![id("path"), co(), lit("a"), cm(), id("kind"), co(), lit("compute")];
    assert_eq!(twshader(&toks), Err(Error::UnsupportedShaderKind("compute".to_string())));
}

#[test]
fn sampled_image_ignores_malformed_data() {
    let mut toks = vec![id("path"), co(), lit("a"), cm(), id("kind"), co(), lit("vertex"), cm()];
    toks.extend(vec![id("descriptors"), co(), ob(), oc()]);
    toks.extend(vec![id("name"), co(), id("A"), cm()]);
    toks.extend(vec![id("ty"), co(), id("SampledImage"), cm()]);
    toks.extend(vec![id("data"), co(), num(5), cm()]);
    toks.extend(vec![id("binding"), co(), num(0), cm(), id("set"), co(), num(2)]);
    toks.extend(vec![cc(), cb()]);
    let c = twshader(&toks).unwrap();
    assert_eq!(c.layout.num_sets(), 1);
    assert_eq!(c.layout.num_bindings_in_set(2), Some(1));
    assert!(c.buffer_schemas.is_empty());
}

#[test]
fn unclosed_bracket_is_a_malformed_scope() {
    let toks = vec![id("path"), co(), lit("a"), cm(), id("input"), co(), ob(), oc(), cc()];
    assert_eq!(twshader(&toks), Err(Error::MalformedScope));
}

#[test]
fn missing_colon_is_a_malformed_scope() {
    let toks = vec![id("path"), lit("a")];
    assert_eq!(twshader(&toks), Err(Error::MalformedScope));
}

#[test]
fn stray_tokens_in_tuple_fail() {
    let mut toks = vec![id("path"), co(), lit("a"), cm(), id("kind"), co(), lit("vertex"), cm()];
    toks.extend(vec![id("push_constants"), co(), oc(), id("name"), co(), id("P"), cm()]);
    toks.extend(vec![id("ranges"), co(), ob(), op(), id("x"), cm(), num(1), num(9), cp(), cb()]);
    toks.push(cc());
    assert_eq!(twshader(&toks), Err(Error::MalformedScope));
}

#[test]
fn trailing_commas_are_tolerated() {
    let toks = vec![id("path"), co(), lit("a"), cm(), id("kind"), co(), lit("vertex"), cm()];
    let c = twshader(&toks).unwrap();
    assert_eq!(c.path, "a");
}

#[test]
fn interface_element_parse_standalone() {
    let toks = element_record("R32G32Sfloat", "uv");
    let (el, next) = InterfaceElement::parse(&toks, 0, toks.len()).unwrap();
    assert_eq!(next, toks.len());
    assert_eq!(el.format, "R32G32Sfloat");
    assert_eq!(el.name, "uv");
}

#[test]
fn push_constants_parse_standalone() {
    let toks = vec![
        oc(),
        id("name"),
        co(),
        id("P"),
        cm(),
        id("ranges"),
        co(),
        ob(),
        op(),
        id("x"),
        cm(),
        num(2),
        cp(),
        cb(),
        cc(),
    ];
    let (pc, next) = PushConstants::parse(&toks, 0, toks.len()).unwrap();
    assert_eq!(next, toks.len());
    assert_eq!(pc.name, "P");
    assert_eq!(pc.ranges, vec![("x".to_string(), 2)]);
}

#[test]
fn push_constants_missing_ranges_fails() {
    let toks = vec![oc(), id("name"), co(), id("P"), cc()];
    assert_eq!(
        PushConstants::parse(&toks, 0, toks.len()),
        Err(Error::MissingField("ranges".to_string()))
    );
}

#[test]
fn buffer_data_parse_standalone() {
    let toks = vec![ob(), op(), id("m"), cm(), lit("vec3"), cp(), cm(), cb()];
    let (bd, next) = BufferData::parse(&toks, 0, toks.len()).unwrap();
    assert_eq!(next, toks.len());
    assert_eq!(bd.data, vec![("m".to_string(), ScalarType::Vec3)]);
}

#[test]
fn descriptor_parse_standalone() {
    let toks = vec![
        oc(),
        id("ty"),
        co(),
        id("SampledImage"),
        cm(),
        id("name"),
        co(),
        id("tex"),
        cm(),
        id("binding"),
        co(),
        num(7),
        cm(),
        id("set"),
        co(),
        num(1),
        cc(),
    ];
    let (d, next) = DescriptorInput::parse(&toks, 0, toks.len()).unwrap();
    assert_eq!(next, toks.len());
    assert_eq!(d.name, "tex");
    assert_eq!(d.binding, 7);
    assert_eq!(d.set, 1);
    assert!(matches!(d.ty, DescriptorType::SampledImage));
}

#[test]
fn descriptor_missing_binding_fails() {
    let toks = vec![
        oc(),
        id("ty"),
        co(),
        id("SampledImage"),
        cm(),
        id("name"),
        co(),
        id("tex"),
        cm(),
        id("set"),
        co(),
        num(1),
        cc(),
    ];
    assert_eq!(
        DescriptorInput::parse(&toks, 0, toks.len()),
        Err(Error::MissingField("binding".to_string()))
    );
}

#[test]
fn graphic_shader_types() {
    assert_eq!(ShaderKind::Vertex.generate_graphic_shader_type(), GraphicsShaderType::Vertex);
    assert_eq!(ShaderKind::Fragment.generate_graphic_shader_type(), GraphicsShaderType::Fragment);
}

#[test]
fn parse_alone_keeps_declaration_order() {
    let m = MacroInput::parse(&example_spec()).unwrap();
    assert_eq!(m.input_desc.len(), 3);
    assert_eq!(m.input_desc[0].name, "position");
    assert_eq!(m.input_desc[1].name, "uv");
    assert_eq!(m.input_desc[2].name, "color");
    let pc = m.push_constants.unwrap();
    assert_eq!(pc.name, "PushConstants");
    assert_eq!(pc.ranges.len(), 4);
    assert_eq!(pc.ranges[2], ("long_ass".to_string(), 12));
    assert_eq!(m.descriptors.len(), 1);
    assert_eq!(m.descriptors[0].name, "UBO");
    match &m.descriptors[0].ty {
        DescriptorType::Buffer(b) => {
            assert_eq!(b.data.len(), 3);
            assert_eq!(b.data[1], ("view".to_string(), ScalarType::Mat4));
        },
        _ => panic!("expected a buffer"),
    }
}
