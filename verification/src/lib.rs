//! Compiler for declarative shader-interface specifications.
//!
//! A specification describes one shader stage: its vertex-attribute inputs
//! and outputs, its descriptor-set bindings (uniform buffers and sampled
//! images), and its push-constant block. The library parses a token stream
//! holding such a specification, validates it, and derives a queryable
//! pipeline-layout description together with byte-exact memory schemas for
//! the buffer-backed resources and an ordered enumeration of the
//! vertex-interface entries.

use vstd::prelude::*;

pub mod descriptor;
pub mod error;
pub mod interface;
pub mod layout;
pub mod push_constants;
pub mod reader;
pub mod schema;
pub mod token;

use crate::descriptor::{
    generate_descriptor_layout, parse_descriptor_list, spec_buffer_schemas,
    spec_buffer_sizes_ok, spec_parse_descriptor_list, DescriptorInput, DescriptorInputV,
};
use crate::error::{Error, ErrorV};
use crate::interface::{
    generate_interface, parse_interface_list, spec_interface_entries,
    spec_parse_interface_list, InterfaceDef, InterfaceDefV, InterfaceElement, InterfaceElementV,
};
use crate::layout::{MainLayout, MainLayoutV};
use crate::push_constants::{
    generate_pc, parse_pc_window, pc_opt_view, schema_opt_view, spec_pc_bytes, spec_pc_ranges,
    spec_pc_schema_opt, spec_pc_window, PushConstants, PushConstantsV,
};
use crate::reader::{
    kv_seq, lemma_read_pairs_scopes_in_bounds, read_pairs, scopes_in_bounds, spec_read_pairs,
    KeyValue, KeyValueV, RawValue, RawValueV,
};
use crate::schema::{RecordSchema, RecordSchemaV};
use crate::token::{copy_string, str_is, tok_seq, Delim, Token, TokenV};

verus! {

/// The shader stage a specification is compiled for.
#[derive(Clone, Copy, Debug, PartialEq, Eq, Structural)]
pub enum ShaderKind {
    Vertex,
    Fragment,
}

/// The set of shader stages for which a binding or range is visible.
#[derive(Clone, Copy, Debug, PartialEq, Eq, Structural)]
pub struct ShaderStages {
    pub vertex: bool,
    pub tessellation_control: bool,
    pub tessellation_evaluation: bool,
    pub geometry: bool,
    pub fragment: bool,
    pub compute: bool,
}

impl ShaderStages {
    /// The empty stage mask.
    pub fn none() -> (r: ShaderStages)
        ensures
            r == spec_stages_none(),
    {
        ShaderStages {
            vertex: false,
            tessellation_control: false,
            tessellation_evaluation: false,
            geometry: false,
            fragment: false,
            compute: false,
        }
    }

    /// The mask holding every stage.
    pub fn all() -> (r: ShaderStages)
        ensures
            r == spec_stages_all(),
    {
        ShaderStages {
            vertex: true,
            tessellation_control: true,
            tessellation_evaluation: true,
            geometry: true,
            fragment: true,
            compute: true,
        }
    }
}

pub open spec fn spec_stages_none() -> ShaderStages {
    ShaderStages {
        vertex: false,
        tessellation_control: false,
        tessellation_evaluation: false,
        geometry: false,
        fragment: false,
        compute: false,
    }
}

pub open spec fn spec_stages_all() -> ShaderStages {
    ShaderStages {
        vertex: true,
        tessellation_control: true,
        tessellation_evaluation: true,
        geometry: true,
        fragment: true,
        compute: true,
    }
}

/// The stage mask holding exactly the given stage.
pub open spec fn spec_stage_mask(kind: ShaderKind) -> ShaderStages {
    match kind {
        ShaderKind::Vertex => ShaderStages { vertex: true, ..spec_stages_none() },
        ShaderKind::Fragment => ShaderStages { fragment: true, ..spec_stages_none() },
    }
}

/// How the host pipeline classifies the compiled stage.
#[derive(Clone, Copy, Debug, PartialEq, Eq, Structural)]
pub enum GraphicsShaderType {
    Vertex,
    Fragment,
}

impl ShaderKind {
    /// Reads a stage name; only the two supported stage names exist, and
    /// any other name is rejected before this is reached.
    pub fn from_str(repr: &str) -> (k: ShaderKind)
        requires
            repr@ == "vertex"@ || repr@ == "fragment"@,
        ensures
            (k == ShaderKind::Vertex <==> repr@ == "vertex"@),
            (k == ShaderKind::Fragment <==> repr@ == "fragment"@),
    {
        proof {
            reveal_strlit("vertex");
            reveal_strlit("fragment");
            assert("vertex"@.len() == 6);
            assert("fragment"@.len() == 8);
        }
        let owned: String = repr.to_owned();
        if str_is(&owned, "vertex") {
            ShaderKind::Vertex
        } else {
            ShaderKind::Fragment
        }
    }

    /// The stage mask in which resources of this stage are visible.
    pub fn generate_shaderstage(&self) -> (r: ShaderStages)
        ensures
            r == spec_stage_mask(*self),
    {
        match *self {
            ShaderKind::Vertex => ShaderStages { vertex: true, ..ShaderStages::none() },
            ShaderKind::Fragment => ShaderStages { fragment: true, ..ShaderStages::none() },
        }
    }

    /// The pipeline classification of this stage.
    pub fn generate_graphic_shader_type(&self) -> (r: GraphicsShaderType)
        ensures
            (r == GraphicsShaderType::Vertex <==> *self == ShaderKind::Vertex),
            (r == GraphicsShaderType::Fragment <==> *self == ShaderKind::Fragment),
    {
        match *self {
            ShaderKind::Vertex => GraphicsShaderType::Vertex,
            ShaderKind::Fragment => GraphicsShaderType::Fragment,
        }
    }
}

/// One whole shader specification: source path, stage kind, the two
/// vertex-interface lists, the optional push-constant block, and the
/// descriptor declarations. Built once per compilation; immutable
/// thereafter.
#[derive(Clone, Debug, PartialEq, Eq)]
pub struct MacroInput {
    pub path: String,
    pub kind: ShaderKind,
    pub input_desc: Vec<InterfaceElement>,
    pub output_desc: Vec<InterfaceElement>,
    pub push_constants: Option<PushConstants>,
    pub descriptors: Vec<DescriptorInput>,
}

/// The mathematical value of a [`MacroInput`].
pub struct MacroInputV {
    pub path: Seq<char>,
    pub kind: ShaderKind,
    pub input_desc: Seq<InterfaceElementV>,
    pub output_desc: Seq<InterfaceElementV>,
    pub push_constants: Option<PushConstantsV>,
    pub descriptors: Seq<DescriptorInputV>,
}

impl View for MacroInput {
    type V = MacroInputV;

    open spec fn view(&self) -> MacroInputV {
        MacroInputV {
            path: self.path@,
            kind: self.kind,
            input_desc: self.input_desc@.map_values(|e: InterfaceElement| e@),
            output_desc: self.output_desc@.map_values(|e: InterfaceElement| e@),
            push_constants: match &self.push_constants {
                Some(p) => Some(p@),
                None => None,
            },
            descriptors: self.descriptors@.map_values(|d: DescriptorInput| d@),
        }
    }
}

/// The value of an optional element list.
pub open spec fn opt_elements_view(o: Option<Vec<InterfaceElement>>) -> Option<
    Seq<InterfaceElementV>,
> {
    match o {
        Some(v) => Some(v@.map_values(|e: InterfaceElement| e@)),
        None => None,
    }
}

/// The value of an optional descriptor list.
pub open spec fn opt_descriptors_view(o: Option<Vec<DescriptorInput>>) -> Option<
    Seq<DescriptorInputV>,
> {
    match o {
        Some(v) => Some(v@.map_values(|d: DescriptorInput| d@)),
        None => None,
    }
}

/// Interprets the raw entries of the top-level specification record. Each
/// key may be set at most once; an unknown key fails. When the record is
/// finalized, `kind` and `path` are required; the interface lists and the
/// descriptor list default to empty, the push-constant block to none.
pub open spec fn spec_interp_macro_input(
    t: Seq<TokenV>,
    pairs: Seq<KeyValueV>,
    i: int,
    path: Option<Seq<char>>,
    kind: Option<ShaderKind>,
    input_desc: Option<Seq<InterfaceElementV>>,
    output_desc: Option<Seq<InterfaceElementV>>,
    push_constants: Option<PushConstantsV>,
    descriptors: Option<Seq<DescriptorInputV>>,
) -> Result<MacroInputV, ErrorV>
    decreases pairs.len() - i,
{
    if i >= pairs.len() {
        match kind {
            None => Err(ErrorV::MissingField("kind"@)),
            Some(k) => match path {
                None => Err(ErrorV::MissingField("path"@)),
                Some(p) => Ok(
                    MacroInputV {
                        path: p,
                        kind: k,
                        input_desc: match input_desc {
                            Some(v) => v,
                            None => Seq::empty(),
                        },
                        output_desc: match output_desc {
                            Some(v) => v,
                            None => Seq::empty(),
                        },
                        push_constants,
                        descriptors: match descriptors {
                            Some(v) => v,
                            None => Seq::empty(),
                        },
                    },
                ),
            },
        }
    } else {
        let kv = pairs[i];
        if kv.key == "path"@ {
            if path is Some {
                Err(ErrorV::DuplicateKey(kv.key))
            } else {
                match kv.value {
                    RawValueV::Str(s) => spec_interp_macro_input(
                        t,
                        pairs,
                        i + 1,
                        Some(s),
                        kind,
                        input_desc,
                        output_desc,
                        push_constants,
                        descriptors,
                    ),
                    _ => Err(ErrorV::MalformedScope),
                }
            }
        } else if kv.key == "kind"@ {
            if kind is Some {
                Err(ErrorV::DuplicateKey(kv.key))
            } else {
                match kv.value {
                    RawValueV::Str(s) => if s == "vertex"@ {
                        spec_interp_macro_input(
                            t,
                            pairs,
                            i + 1,
                            path,
                            Some(ShaderKind::Vertex),
                            input_desc,
                            output_desc,
                            push_constants,
                            descriptors,
                        )
                    } else if s == "fragment"@ {
                        spec_interp_macro_input(
                            t,
                            pairs,
                            i + 1,
                            path,
                            Some(ShaderKind::Fragment),
                            input_desc,
                            output_desc,
                            push_constants,
                            descriptors,
                        )
                    } else {
                        Err(ErrorV::UnsupportedShaderKind(s))
                    },
                    _ => Err(ErrorV::MalformedScope),
                }
            }
        } else if kv.key == "input"@ {
            if input_desc is Some {
                Err(ErrorV::DuplicateKey(kv.key))
            } else {
                match kv.value {
                    RawValueV::Scope(Delim::Bracket, a, b) => match spec_parse_interface_list(
                        t,
                        a,
                        b,
                    ) {
                        Ok(els) => spec_interp_macro_input(
                            t,
                            pairs,
                            i + 1,
                            path,
                            kind,
                            Some(els),
                            output_desc,
                            push_constants,
                            descriptors,
                        ),
                        Err(e) => Err(e),
                    },
                    _ => Err(ErrorV::MalformedScope),
                }
            }
        } else if kv.key == "output"@ {
            if output_desc is Some {
                Err(ErrorV::DuplicateKey(kv.key))
            } else {
                match kv.value {
                    RawValueV::Scope(Delim::Bracket, a, b) => match spec_parse_interface_list(
                        t,
                        a,
                        b,
                    ) {
                        Ok(els) => spec_interp_macro_input(
                            t,
                            pairs,
                            i + 1,
                            path,
                            kind,
                            input_desc,
                            Some(els),
                            push_constants,
                            descriptors,
                        ),
                        Err(e) => Err(e),
                    },
                    _ => Err(ErrorV::MalformedScope),
                }
            }
        } else if kv.key == "push_constants"@ {
            if push_constants is Some {
                Err(ErrorV::DuplicateKey(kv.key))
            } else {
                match kv.value {
                    RawValueV::Scope(Delim::Brace, a, b) => match spec_pc_window(t, a, b) {
                        Ok(pc) => spec_interp_macro_input(
                            t,
                            pairs,
                            i + 1,
                            path,
                            kind,
                            input_desc,
                            output_desc,
                            Some(pc),
                            descriptors,
                        ),
                        Err(e) => Err(e),
                    },
                    _ => Err(ErrorV::MalformedScope),
                }
            }
        } else if kv.key == "descriptors"@ {
            if descriptors is Some {
                Err(ErrorV::DuplicateKey(kv.key))
            } else {
                match kv.value {
                    RawValueV::Scope(Delim::Bracket, a, b) => match spec_parse_descriptor_list(
                        t,
                        a,
                        b,
                    ) {
                        Ok(ds) => spec_interp_macro_input(
                            t,
                            pairs,
                            i + 1,
                            path,
                            kind,
                            input_desc,
                            output_desc,
                            push_constants,
                            Some(ds),
                        ),
                        Err(e) => Err(e),
                    },
                    _ => Err(ErrorV::MalformedScope),
                }
            }
        } else {
            Err(ErrorV::UnknownKey(kv.key))
        }
    }
}

/// Interprets the raw entries of the top-level specification record.
fn interp_macro_input(toks: &Vec<Token>, pairs: &Vec<KeyValue>) -> (r: Result<MacroInput, Error>)
    requires
        scopes_in_bounds(kv_seq(pairs), toks@.len() as int),
    ensures
        match r {
            Ok(m) => spec_interp_macro_input(
                tok_seq(toks),
                kv_seq(pairs),
                0,
                None,
                None,
                None,
                None,
                None,
                None,
            ) == Ok::<_, ErrorV>(m@),
            Err(e) => spec_interp_macro_input(
                tok_seq(toks),
                kv_seq(pairs),
                0,
                None,
                None,
                None,
                None,
                None,
                None,
            ) == Err::<MacroInputV, _>(e@),
        },
{
    let ghost ts = tok_seq(toks);
    let ghost pv = kv_seq(pairs);
    let mut path: Option<String> = None;
    let mut kind: Option<ShaderKind> = None;
    let mut input_desc: Option<Vec<InterfaceElement>> = None;
    let mut output_desc: Option<Vec<InterfaceElement>> = None;
    let mut push_constants: Option<PushConstants> = None;
    let mut descriptors: Option<Vec<DescriptorInput>> = None;
    let mut i: usize = 0;
    while i < pairs.len()
        invariant
            i <= pairs@.len(),
            ts == tok_seq(toks),
            pv == kv_seq(pairs),
            scopes_in_bounds(pv, toks@.len() as int),
            spec_interp_macro_input(ts, pv, 0, None, None, None, None, None, None)
                == spec_interp_macro_input(
                ts,
                pv,
                i as int,
                crate::push_constants::opt_string_view(path),
                kind,
                opt_elements_view(input_desc),
                opt_elements_view(output_desc),
                pc_opt_view(push_constants),
                opt_descriptors_view(descriptors),
            ),
        decreases pairs@.len() - i,
    {
        proof {
            assert(pv[i as int] == pairs@[i as int]@);
        }
        let kv = &pairs[i];
        if str_is(&kv.key, "path") {
            if path.is_some() {
                return Err(Error::DuplicateKey(copy_string(&kv.key)));
            }
            match &kv.value {
                RawValue::Str(s) => {
                    path = Some(copy_string(s));
                },
                _ => {
                    return Err(Error::MalformedScope);
                },
            }
        } else if str_is(&kv.key, "kind") {
            if kind.is_some() {
                return Err(Error::DuplicateKey(copy_string(&kv.key)));
            }
            match &kv.value {
                RawValue::Str(s) => {
                    if str_is(s, "vertex") {
                        kind = Some(ShaderKind::Vertex);
                    } else if str_is(s, "fragment") {
                        kind = Some(ShaderKind::Fragment);
                    } else {
                        return Err(Error::UnsupportedShaderKind(copy_string(s)));
                    }
                },
                _ => {
                    return Err(Error::MalformedScope);
                },
            }
        } else if str_is(&kv.key, "input") {
            if input_desc.is_some() {
                return Err(Error::DuplicateKey(copy_string(&kv.key)));
            }
            match &kv.value {
                RawValue::Scope(Delim::Bracket, a, b) => {
                    match parse_interface_list(toks, *a, *b) {
                        Ok(els) => {
                            input_desc = Some(els);
                        },
                        Err(e) => {
                            return Err(e);
                        },
                    }
                },
                _ => {
                    return Err(Error::MalformedScope);
                },
            }
        } else if str_is(&kv.key, "output") {
            if output_desc.is_some() {
                return Err(Error::DuplicateKey(copy_string(&kv.key)));
            }
            match &kv.value {
                RawValue::Scope(Delim::Bracket, a, b) => {
                    match parse_interface_list(toks, *a, *b) {
                        Ok(els) => {
                            output_desc = Some(els);
                        },
                        Err(e) => {
                            return Err(e);
                        },
                    }
                },
                _ => {
                    return Err(Error::MalformedScope);
                },
            }
        } else if str_is(&kv.key, "push_constants") {
            if push_constants.is_some() {
                return Err(Error::DuplicateKey(copy_string(&kv.key)));
            }
            match &kv.value {
                RawValue::Scope(Delim::Brace, a, b) => {
                    match parse_pc_window(toks, *a, *b) {
                        Ok(pc) => {
                            push_constants = Some(pc);
                        },
                        Err(e) => {
                            return Err(e);
                        },
                    }
                },
                _ => {
                    return Err(Error::MalformedScope);
                },
            }
        } else if str_is(&kv.key, "descriptors") {
            if descriptors.is_some() {
                return Err(Error::DuplicateKey(copy_string(&kv.key)));
            }
            match &kv.value {
                RawValue::Scope(Delim::Bracket, a, b) => {
                    match parse_descriptor_list(toks, *a, *b) {
                        Ok(ds) => {
                            descriptors = Some(ds);
                        },
                        Err(e) => {
                            return Err(e);
                        },
                    }
                },
                _ => {
                    return Err(Error::MalformedScope);
                },
            }
        } else {
            return Err(Error::UnknownKey(copy_string(&kv.key)));
        }
        i = i + 1;
    }
    let k: ShaderKind = match kind {
        Some(k) => k,
        None => {
            return Err(Error::MissingField("kind".to_owned()));
        },
    };
    let p: String = match path {
        Some(p) => p,
        None => {
            return Err(Error::MissingField("path".to_owned()));
        },
    };
    let ghost gin = opt_elements_view(input_desc);
    let ghost gout = opt_elements_view(output_desc);
    let ghost gds = opt_descriptors_view(descriptors);
    let input_vec: Vec<InterfaceElement> = match input_desc {
        Some(v) => v,
        None => Vec::new(),
    };
    let output_vec: Vec<InterfaceElement> = match output_desc {
        Some(v) => v,
        None => Vec::new(),
    };
    let descriptors_vec: Vec<DescriptorInput> = match descriptors {
        Some(v) => v,
        None => Vec::new(),
    };
    proof {
        if gin is None {
            assert(input_vec@.map_values(|e: InterfaceElement| e@)
                =~= Seq::<InterfaceElementV>::empty());
        }
        if gout is None {
            assert(output_vec@.map_values(|e: InterfaceElement| e@)
                =~= Seq::<InterfaceElementV>::empty());
        }
        if gds is None {
            assert(descriptors_vec@.map_values(|d: DescriptorInput| d@)
                =~= Seq::<DescriptorInputV>::empty());
        }
    }
    let m = MacroInput {
        path: p,
        kind: k,
        input_desc: input_vec,
        output_desc: output_vec,
        push_constants,
        descriptors: descriptors_vec,
    };
    Ok(m)
}

/// The whole specification: `key: value` pairs until the token stream is
/// exhausted, interpreted as the top-level record.
pub open spec fn spec_parse_macro_input(t: Seq<TokenV>) -> Result<MacroInputV, ErrorV> {
    match spec_read_pairs(t, 0, t.len() as int) {
        Ok(pairs) => spec_interp_macro_input(t, pairs, 0, None, None, None, None, None, None),
        Err(e) => Err(e),
    }
}

impl MacroInput {
    /// Parses a whole shader specification from its token stream.
    pub fn parse(toks: &Vec<Token>) -> (r: Result<MacroInput, Error>)
        ensures
            match r {
                Ok(m) => spec_parse_macro_input(tok_seq(toks)) == Ok::<_, ErrorV>(m@),
                Err(e) => spec_parse_macro_input(tok_seq(toks)) == Err::<MacroInputV, _>(e@),
            },
    {
        let ghost ts = tok_seq(toks);
        let pairs = match read_pairs(toks, 0, toks.len()) {
            Ok(p) => p,
            Err(e) => {
                return Err(e);
            },
        };
        proof {
            lemma_read_pairs_scopes_in_bounds(ts, 0, ts.len() as int);
        }
        interp_macro_input(toks, &pairs)
    }
}

proof fn lemma_interp_macro_input_distinct(
    t: Seq<TokenV>,
    pairs: Seq<KeyValueV>,
    i: int,
    path: Option<Seq<char>>,
    kind: Option<ShaderKind>,
    input_desc: Option<Seq<InterfaceElementV>>,
    output_desc: Option<Seq<InterfaceElementV>>,
    push_constants: Option<PushConstantsV>,
    descriptors: Option<Seq<DescriptorInputV>>,
)
    ensures
        spec_interp_macro_input(
            t,
            pairs,
            i,
            path,
            kind,
            input_desc,
            output_desc,
            push_constants,
            descriptors,
        ) is Ok ==> (forall|j1: int, j2: int|
            i <= j1 < j2 < pairs.len() ==> pairs[j1].key != pairs[j2].key) && (path is Some
            ==> forall|j: int| i <= j < pairs.len() ==> pairs[j].key != "path"@) && (kind is Some
            ==> forall|j: int| i <= j < pairs.len() ==> pairs[j].key != "kind"@) && (
        input_desc is Some ==> forall|j: int| i <= j < pairs.len() ==> pairs[j].key != "input"@)
            && (output_desc is Some ==> forall|j: int|
            i <= j < pairs.len() ==> pairs[j].key != "output"@) && (push_constants is Some
            ==> forall|j: int| i <= j < pairs.len() ==> pairs[j].key != "push_constants"@) && (
        descriptors is Some ==> forall|j: int|
            i <= j < pairs.len() ==> pairs[j].key != "descriptors"@),
    decreases pairs.len() - i,
{
    reveal_strlit("path");
    reveal_strlit("kind");
    reveal_strlit("input");
    reveal_strlit("output");
    reveal_strlit("push_constants");
    reveal_strlit("descriptors");
    assert("path"@.len() == 4);
    assert("kind"@.len() == 4);
    assert("input"@.len() == 5);
    assert("output"@.len() == 6);
    assert("push_constants"@.len() == 14);
    assert("descriptors"@.len() == 11);
    assert("path"@[0] == 'p' && "kind"@[0] == 'k');
    if i < pairs.len() {
        let kv = pairs[i];
        if kv.key == "path"@ && path is None {
            match kv.value {
                RawValueV::Str(s) => {
                    lemma_interp_macro_input_distinct(
                        t,
                        pairs,
                        i + 1,
                        Some(s),
                        kind,
                        input_desc,
                        output_desc,
                        push_constants,
                        descriptors,
                    );
                },
                _ => {},
            }
        }
        if kv.key == "kind"@ && kind is None {
            match kv.value {
                RawValueV::Str(s) => {
                    lemma_interp_macro_input_distinct(
                        t,
                        pairs,
                        i + 1,
                        path,
                        Some(ShaderKind::Vertex),
                        input_desc,
                        output_desc,
                        push_constants,
                        descriptors,
                    );
                    lemma_interp_macro_input_distinct(
                        t,
                        pairs,
                        i + 1,
                        path,
                        Some(ShaderKind::Fragment),
                        input_desc,
                        output_desc,
                        push_constants,
                        descriptors,
                    );
                },
                _ => {},
            }
        }
        if kv.key == "input"@ && input_desc is None {
            match kv.value {
                RawValueV::Scope(Delim::Bracket, a, b) => {
                    match spec_parse_interface_list(t, a, b) {
                        Ok(els) => {
                            lemma_interp_macro_input_distinct(
                                t,
                                pairs,
                                i + 1,
                                path,
                                kind,
                                Some(els),
                                output_desc,
                                push_constants,
                                descriptors,
                            );
                        },
                        Err(_) => {},
                    }
                },
                _ => {},
            }
        }
        if kv.key == "output"@ && output_desc is None {
            match kv.value {
                RawValueV::Scope(Delim::Bracket, a, b) => {
                    match spec_parse_interface_list(t, a, b) {
                        Ok(els) => {
                            lemma_interp_macro_input_distinct(
                                t,
                                pairs,
                                i + 1,
                                path,
                                kind,
                                input_desc,
                                Some(els),
                                push_constants,
                                descriptors,
                            );
                        },
                        Err(_) => {},
                    }
                },
                _ => {},
            }
        }
        if kv.key == "push_constants"@ && push_constants is None {
            match kv.value {
                RawValueV::Scope(Delim::Brace, a, b) => {
                    match spec_pc_window(t, a, b) {
                        Ok(pc) => {
                            lemma_interp_macro_input_distinct(
                                t,
                                pairs,
                                i + 1,
                                path,
                                kind,
                                input_desc,
                                output_desc,
                                Some(pc),
                                descriptors,
                            );
                        },
                        Err(_) => {},
                    }
                },
                _ => {},
            }
        }
        if kv.key == "descriptors"@ && descriptors is None {
            match kv.value {
                RawValueV::Scope(Delim::Bracket, a, b) => {
                    match spec_parse_descriptor_list(t, a, b) {
                        Ok(ds) => {
                            lemma_interp_macro_input_distinct(
                                t,
                                pairs,
                                i + 1,
                                path,
                                kind,
                                input_desc,
                                output_desc,
                                push_constants,
                                Some(ds),
                            );
                        },
                        Err(_) => {},
                    }
                },
                _ => {},
            }
        }
    }
}

/// Declaring the same key twice in the top-level record fails: an
/// accepted specification has pairwise-distinct keys.
pub proof fn lemma_macro_input_rejects_duplicate_keys(t: Seq<TokenV>, pairs: Seq<KeyValueV>)
    ensures
        spec_interp_macro_input(t, pairs, 0, None, None, None, None, None, None) is Ok ==> forall|
            j1: int,
            j2: int,
        | 0 <= j1 < j2 < pairs.len() ==> pairs[j1].key != pairs[j2].key,
{
    lemma_interp_macro_input_distinct(t, pairs, 0, None, None, None, None, None, None);
}

/// Everything one compilation produces: the layout-query object, the two
/// interface definitions, and the memory schemas, beside the source path
/// and stage kind the external bytecode compiler needs.
#[derive(Clone, Debug, PartialEq, Eq)]
pub struct CompiledShader {
    pub path: String,
    pub kind: ShaderKind,
    pub layout: MainLayout,
    pub input_interface: InterfaceDef,
    pub output_interface: InterfaceDef,
    pub pc_schema: Option<RecordSchema>,
    pub buffer_schemas: Vec<RecordSchema>,
    pub shader_type: GraphicsShaderType,
}

/// The mathematical value of a [`CompiledShader`].
pub struct CompiledShaderV {
    pub path: Seq<char>,
    pub kind: ShaderKind,
    pub layout: MainLayoutV,
    pub input_interface: InterfaceDefV,
    pub output_interface: InterfaceDefV,
    pub pc_schema: Option<RecordSchemaV>,
    pub buffer_schemas: Seq<RecordSchemaV>,
    pub shader_type: GraphicsShaderType,
}

impl View for CompiledShader {
    type V = CompiledShaderV;

    open spec fn view(&self) -> CompiledShaderV {
        CompiledShaderV {
            path: self.path@,
            kind: self.kind,
            layout: self.layout@,
            input_interface: self.input_interface@,
            output_interface: self.output_interface@,
            pc_schema: match &self.pc_schema {
                Some(s) => Some(s@),
                None => None,
            },
            buffer_schemas: self.buffer_schemas@.map_values(|s: RecordSchema| s@),
            shader_type: self.shader_type,
        }
    }
}

/// What a specification compiles to: a pure function of the parsed
/// specification value.
pub open spec fn spec_compile(m: MacroInputV) -> CompiledShaderV {
    CompiledShaderV {
        path: m.path,
        kind: m.kind,
        layout: MainLayoutV {
            stages: spec_stage_mask(m.kind),
            sets: crate::descriptor::spec_set_layout(m.descriptors).sets,
            metas: crate::descriptor::spec_set_layout(m.descriptors).metas,
            pc_ranges: spec_pc_ranges(m.push_constants),
        },
        input_interface: InterfaceDefV {
            name: "MainInput"@,
            entries: spec_interface_entries(m.input_desc),
        },
        output_interface: InterfaceDefV {
            name: "MainOutput"@,
            entries: spec_interface_entries(m.output_desc),
        },
        pc_schema: spec_pc_schema_opt(m.push_constants),
        buffer_schemas: spec_buffer_schemas(m.descriptors),
        shader_type: match m.kind {
            ShaderKind::Vertex => GraphicsShaderType::Vertex,
            ShaderKind::Fragment => GraphicsShaderType::Fragment,
        },
    }
}

/// The byte sizes a specification asks for fit the machine word.
pub open spec fn spec_sizes_ok(m: MacroInputV) -> bool {
    &&& (m.push_constants matches Some(p) ==> spec_pc_bytes(p.ranges) <= usize::MAX)
    &&& spec_buffer_sizes_ok(m.descriptors)
}

/// A token stream is compilable: if it parses, its declared byte sizes
/// fit the machine word.
pub open spec fn spec_twshader_ok(t: Seq<TokenV>) -> bool {
    spec_parse_macro_input(t) matches Ok(m) ==> spec_sizes_ok(m)
}

/// Compiles a whole shader specification: parses the token stream,
/// aggregates the descriptor sets, compiles the push-constant range and
/// the memory schemas, and assigns the vertex-interface locations. The
/// first error encountered aborts the compilation; nothing partial is
/// produced.
pub fn twshader(toks: &Vec<Token>) -> (r: Result<CompiledShader, Error>)
    requires
        spec_twshader_ok(tok_seq(toks)),
    ensures
        match r {
            Ok(c) => spec_parse_macro_input(tok_seq(toks)) matches Ok(m) && c@ == spec_compile(m),
            Err(e) => spec_parse_macro_input(tok_seq(toks)) == Err::<MacroInputV, _>(e@),
        },
{
    let m = match MacroInput::parse(toks) {
        Ok(m) => m,
        Err(e) => {
            return Err(e);
        },
    };
    let ghost mv = m@;
    let MacroInput { path, kind, input_desc, output_desc, push_constants, descriptors } = m;
    let stages = kind.generate_shaderstage();
    let shader_type = kind.generate_graphic_shader_type();
    let input_interface = generate_interface("MainInput".to_owned(), &input_desc);
    let output_interface = generate_interface("MainOutput".to_owned(), &output_desc);
    let (pc_ranges, pc_schema) = generate_pc(push_constants);
    let (desc_layout, buffer_schemas) = generate_descriptor_layout(&descriptors);
    let layout = MainLayout { stages, desc: desc_layout, pc_ranges };
    let compiled = CompiledShader {
        path,
        kind,
        layout,
        input_interface,
        output_interface,
        pc_schema,
        buffer_schemas,
        shader_type,
    };
    proof {
        assert(compiled@.buffer_schemas == spec_buffer_schemas(mv.descriptors));
        assert(compiled@ == spec_compile(mv));
    }
    Ok(compiled)
}

/// Round trip: compiling the same specification twice yields identical
/// compiled layouts, interfaces and schemas. Compilation is a pure
/// function of the specification value, with no hidden state: any two
/// results that meet the compiler's contract on one specification are
/// equal.
pub proof fn lemma_compile_round_trip(m: MacroInputV, r1: CompiledShaderV, r2: CompiledShaderV)
    requires
        r1 == spec_compile(m),
        r2 == spec_compile(m),
    ensures
        r1 == r2,
{
}

} // verus!
