//! Descriptor declarations: their parser, the per-set binding
//! aggregation, the per-binding descriptor metadata, and the buffer
//! memory schemas.

use vstd::prelude::*;

use crate::error::{Error, ErrorV};
use crate::reader::{kv_seq, read_pairs, read_scope, spec_read_pairs, spec_read_scope};
use crate::reader::{lemma_read_pairs_scopes_in_bounds, scopes_in_bounds};
use crate::reader::{KeyValue, KeyValueV, RawValue, RawValueV};
use crate::schema::{
    field_seq, scalar_of, schema_seq, spec_scalar_of, spec_scalar_size, FieldSchema, FieldSchemaV,
    FieldShape, RecordSchema, RecordSchemaV, ScalarType,
};
use crate::token::{copy_string, str_is, tok_seq, Delim, Token, TokenV};

verus! {

/// The ordered field list of a buffer-backed descriptor: each field a
/// name and a scalar type tag of the shape table.
#[derive(Clone, Debug, PartialEq, Eq)]
pub struct BufferData {
    pub data: Vec<(String, ScalarType)>,
}

impl View for BufferData {
    type V = Seq<(Seq<char>, ScalarType)>;

    open spec fn view(&self) -> Seq<(Seq<char>, ScalarType)> {
        self.data@.map_values(|p: (String, ScalarType)| (p.0@, p.1))
    }
}

/// The sequence of field values held by a buffer field vector.
pub open spec fn buffer_field_seq(v: &Vec<(String, ScalarType)>) -> Seq<(Seq<char>, ScalarType)> {
    v@.map_values(|p: (String, ScalarType)| (p.0@, p.1))
}

/// The resource kind of one descriptor: a read-only buffer with its field
/// list, or a sampled image.
#[derive(Clone, Debug, PartialEq, Eq)]
pub enum DescriptorType {
    Buffer(BufferData),
    SampledImage,
}

/// The mathematical value of a [`DescriptorType`].
pub enum DescriptorTypeV {
    Buffer(Seq<(Seq<char>, ScalarType)>),
    SampledImage,
}

impl View for DescriptorType {
    type V = DescriptorTypeV;

    open spec fn view(&self) -> DescriptorTypeV {
        match self {
            DescriptorType::Buffer(b) => DescriptorTypeV::Buffer(b@),
            DescriptorType::SampledImage => DescriptorTypeV::SampledImage,
        }
    }
}

/// One descriptor declaration: its name, kind, and `(set, binding)` slot.
#[derive(Clone, Debug, PartialEq, Eq)]
pub struct DescriptorInput {
    pub name: String,
    pub ty: DescriptorType,
    pub binding: usize,
    pub set: usize,
}

/// The mathematical value of a [`DescriptorInput`].
pub struct DescriptorInputV {
    pub name: Seq<char>,
    pub ty: DescriptorTypeV,
    pub binding: usize,
    pub set: usize,
}

impl View for DescriptorInput {
    type V = DescriptorInputV;

    open spec fn view(&self) -> DescriptorInputV {
        DescriptorInputV { name: self.name@, ty: self.ty@, binding: self.binding, set: self.set }
    }
}

/// The sequence of declaration values held by a declaration vector.
pub open spec fn descriptor_seq(v: &Vec<DescriptorInput>) -> Seq<DescriptorInputV> {
    v@.map_values(|d: DescriptorInput| d@)
}

/// Element list of `(ident, "typeTag")` tuples: each element is a paren
/// scope holding exactly an identifier, a comma, and a string literal
/// naming a shape of the scalar table; any other tag fails.
pub open spec fn spec_parse_buffer_fields(t: Seq<TokenV>, pos: int, end: int) -> Result<
    Seq<(Seq<char>, ScalarType)>,
    ErrorV,
>
    decreases end - pos,
{
    if pos >= end {
        Ok(Seq::empty())
    } else {
        match spec_read_scope(t, pos, end, Delim::Paren) {
            Ok((a, b, n)) => if b - a == 3 {
                match (t[a], t[a + 1], t[a + 2]) {
                    (TokenV::Ident(s), TokenV::Comma, TokenV::Str(tag)) => match spec_scalar_of(
                        tag,
                    ) {
                        Some(st) => {
                            let el = (s, st);
                            if n == end {
                                Ok(seq![el])
                            } else if pos < n < end {
                                if t[n] == TokenV::Comma {
                                    match spec_parse_buffer_fields(t, n + 1, end) {
                                        Ok(rest) => Ok(seq![el] + rest),
                                        Err(e) => Err(e),
                                    }
                                } else {
                                    Err(ErrorV::MalformedScope)
                                }
                            } else {
                                Err(ErrorV::MalformedScope)
                            }
                        },
                        None => Err(ErrorV::UnsupportedScalarType(tag)),
                    },
                    _ => Err(ErrorV::MalformedScope),
                }
            } else {
                Err(ErrorV::MalformedScope)
            },
            Err(e) => Err(e),
        }
    }
}

/// Reads the `(ident, "typeTag")` tuple list of a `data` value.
pub fn parse_buffer_fields(toks: &Vec<Token>, pos: usize, end: usize) -> (r: Result<
    Vec<(String, ScalarType)>,
    Error,
>)
    requires
        pos <= end <= toks@.len(),
    ensures
        match r {
            Ok(fields) => spec_parse_buffer_fields(tok_seq(toks), pos as int, end as int) == Ok::<
                _,
                ErrorV,
            >(buffer_field_seq(&fields)),
            Err(e) => spec_parse_buffer_fields(tok_seq(toks), pos as int, end as int) == Err::<
                Seq<(Seq<char>, ScalarType)>,
                _,
            >(e@),
        },
{
    let ghost ts = tok_seq(toks);
    let mut acc: Vec<(String, ScalarType)> = Vec::new();
    let mut i: usize = pos;
    proof {
        assert(buffer_field_seq(&acc) =~= Seq::<(Seq<char>, ScalarType)>::empty());
    }
    while i < end
        invariant
            pos <= i <= end <= toks@.len(),
            ts == tok_seq(toks),
            spec_parse_buffer_fields(ts, pos as int, end as int) == (match
                spec_parse_buffer_fields(ts, i as int, end as int) {
                Ok(rest) => Ok::<_, ErrorV>(buffer_field_seq(&acc) + rest),
                Err(e) => Err::<Seq<(Seq<char>, ScalarType)>, _>(e),
            }),
        decreases end - i,
    {
        let (a, b, n) = match read_scope(toks, i, end, Delim::Paren) {
            Ok(w) => w,
            Err(e) => {
                return Err(e);
            },
        };
        if b - a != 3 {
            return Err(Error::MalformedScope);
        }
        proof {
            assert(ts[a as int] == toks@[a as int]@);
            assert(ts[a as int + 1] == toks@[a as int + 1]@);
            assert(ts[a as int + 2] == toks@[a as int + 2]@);
        }
        let name: String = match &toks[a] {
            Token::Ident(s) => copy_string(s),
            _ => {
                return Err(Error::MalformedScope);
            },
        };
        let comma_ok = match &toks[a + 1] {
            Token::Comma => true,
            _ => false,
        };
        if !comma_ok {
            return Err(Error::MalformedScope);
        }
        let tag: &String = match &toks[a + 2] {
            Token::Str(s) => s,
            _ => {
                return Err(Error::MalformedScope);
            },
        };
        let st: ScalarType = match scalar_of(tag) {
            Some(st) => st,
            None => {
                return Err(Error::UnsupportedScalarType(copy_string(tag)));
            },
        };
        let ghost old_acc = buffer_field_seq(&acc);
        let ghost el = (name@, st);
        acc.push((name, st));
        proof {
            assert(buffer_field_seq(&acc) =~= old_acc + seq![el]);
        }
        if n == end {
            i = end;
            proof {
                assert(old_acc + seq![el] + Seq::<(Seq<char>, ScalarType)>::empty() =~= old_acc + (
                seq![el] + Seq::<(Seq<char>, ScalarType)>::empty()));
            }
        } else {
            proof {
                assert(ts[n as int] == toks@[n as int]@);
            }
            let has_comma = match &toks[n] {
                Token::Comma => true,
                _ => false,
            };
            if !has_comma {
                return Err(Error::MalformedScope);
            }
            i = n + 1;
            proof {
                assert(forall|rest: Seq<(Seq<char>, ScalarType)>|
                    (old_acc + seq![el]) + rest =~= old_acc + (seq![el] + rest));
            }
        }
    }
    proof {
        assert(spec_parse_buffer_fields(ts, i as int, end as int) == Ok::<_, ErrorV>(
            Seq::<(Seq<char>, ScalarType)>::empty(),
        ));
        assert(buffer_field_seq(&acc) + Seq::<(Seq<char>, ScalarType)>::empty() =~= buffer_field_seq(
            &acc,
        ));
    }
    Ok(acc)
}

/// The bracket list of a buffer's field tuples standing at `pos`.
pub open spec fn spec_parse_buffer_data(t: Seq<TokenV>, pos: int, end: int) -> Result<
    (Seq<(Seq<char>, ScalarType)>, int),
    ErrorV,
> {
    match spec_read_scope(t, pos, end, Delim::Bracket) {
        Ok((a, b, n)) => match spec_parse_buffer_fields(t, a, b) {
            Ok(fields) => Ok((fields, n)),
            Err(e) => Err(e),
        },
        Err(e) => Err(e),
    }
}

impl BufferData {
    /// Parses one buffer field list: a bracket list of `(ident, "tag")`
    /// tuples standing at `pos`.
    pub fn parse(toks: &Vec<Token>, pos: usize, end: usize) -> (r: Result<
        (BufferData, usize),
        Error,
    >)
        requires
            pos <= end <= toks@.len(),
        ensures
            match r {
                Ok((bd, n)) => spec_parse_buffer_data(tok_seq(toks), pos as int, end as int) == Ok::<
                    _,
                    ErrorV,
                >((bd@, n as int)) && pos < n <= end,
                Err(e) => spec_parse_buffer_data(tok_seq(toks), pos as int, end as int) == Err::<
                    (Seq<(Seq<char>, ScalarType)>, int),
                    _,
                >(e@),
            },
    {
        let (a, b, n) = match read_scope(toks, pos, end, Delim::Bracket) {
            Ok(w) => w,
            Err(e) => {
                return Err(e);
            },
        };
        match parse_buffer_fields(toks, a, b) {
            Ok(fields) => Ok((BufferData { data: fields }, n)),
            Err(e) => Err(e),
        }
    }
}

/// The stored shape of a seen `data` value: the window of its bracket
/// scope, or the mark that it was no scope at all.
pub open spec fn opt_window_view(o: Option<Option<(Delim, usize, usize)>>) -> Option<
    Option<(Delim, int, int)>,
> {
    match o {
        Some(Some((d, a, b))) => Some(Some((d, a as int, b as int))),
        Some(None) => Some(None),
        None => None,
    }
}

/// Interprets the raw entries of a descriptor record. Each key may be set
/// at most once; an unknown key fails. When the record is finalized, the
/// parser dispatches on the `ty` value: `Buffer` demands a well-formed
/// `data` list; `SampledImage` demands none and ignores a malformed one;
/// any other kind fails. `name`, `binding` and `set` are all required.
pub open spec fn spec_interp_descriptor(
    t: Seq<TokenV>,
    pairs: Seq<KeyValueV>,
    i: int,
    name: Option<Seq<char>>,
    ty: Option<Seq<char>>,
    data: Option<Option<(Delim, int, int)>>,
    binding: Option<usize>,
    set: Option<usize>,
) -> Result<DescriptorInputV, ErrorV>
    decreases pairs.len() - i,
{
    if i >= pairs.len() {
        match ty {
            None => Err(ErrorV::MissingField("ty"@)),
            Some(tyname) => {
                if tyname == "Buffer"@ {
                    match data {
                        None => Err(ErrorV::MissingData),
                        Some(slot) => match slot {
                            Some((Delim::Bracket, a, b)) => match spec_parse_buffer_fields(
                                t,
                                a,
                                b,
                            ) {
                                Ok(fields) => spec_finish_descriptor(
                                    DescriptorTypeV::Buffer(fields),
                                    name,
                                    binding,
                                    set,
                                ),
                                Err(e) => Err(e),
                            },
                            _ => Err(ErrorV::MalformedScope),
                        },
                    }
                } else if tyname == "SampledImage"@ {
                    spec_finish_descriptor(DescriptorTypeV::SampledImage, name, binding, set)
                } else {
                    Err(ErrorV::UnsupportedDescriptorKind(tyname))
                }
            },
        }
    } else {
        let kv = pairs[i];
        if kv.key == "name"@ {
            if name is Some {
                Err(ErrorV::DuplicateKey(kv.key))
            } else {
                match kv.value {
                    RawValueV::Ident(s) => spec_interp_descriptor(
                        t,
                        pairs,
                        i + 1,
                        Some(s),
                        ty,
                        data,
                        binding,
                        set,
                    ),
                    _ => Err(ErrorV::MalformedScope),
                }
            }
        } else if kv.key == "ty"@ {
            if ty is Some {
                Err(ErrorV::DuplicateKey(kv.key))
            } else {
                match kv.value {
                    RawValueV::Ident(s) => spec_interp_descriptor(
                        t,
                        pairs,
                        i + 1,
                        name,
                        Some(s),
                        data,
                        binding,
                        set,
                    ),
                    _ => Err(ErrorV::MalformedScope),
                }
            }
        } else if kv.key == "data"@ {
            if data is Some {
                Err(ErrorV::DuplicateKey(kv.key))
            } else {
                match kv.value {
                    RawValueV::Scope(d, a, b) => spec_interp_descriptor(
                        t,
                        pairs,
                        i + 1,
                        name,
                        ty,
                        Some(Some((d, a, b))),
                        binding,
                        set,
                    ),
                    _ => spec_interp_descriptor(
                        t,
                        pairs,
                        i + 1,
                        name,
                        ty,
                        Some(None),
                        binding,
                        set,
                    ),
                }
            }
        } else if kv.key == "binding"@ {
            if binding is Some {
                Err(ErrorV::DuplicateKey(kv.key))
            } else {
                match kv.value {
                    RawValueV::Int(c) => if c <= usize::MAX as u64 {
                        spec_interp_descriptor(
                            t,
                            pairs,
                            i + 1,
                            name,
                            ty,
                            data,
                            Some(c as usize),
                            set,
                        )
                    } else {
                        Err(ErrorV::MalformedScope)
                    },
                    _ => Err(ErrorV::MalformedScope),
                }
            }
        } else if kv.key == "set"@ {
            if set is Some {
                Err(ErrorV::DuplicateKey(kv.key))
            } else {
                match kv.value {
                    RawValueV::Int(c) => if c <= usize::MAX as u64 {
                        spec_interp_descriptor(
                            t,
                            pairs,
                            i + 1,
                            name,
                            ty,
                            data,
                            binding,
                            Some(c as usize),
                        )
                    } else {
                        Err(ErrorV::MalformedScope)
                    },
                    _ => Err(ErrorV::MalformedScope),
                }
            }
        } else {
            Err(ErrorV::UnknownKey(kv.key))
        }
    }
}

/// Finalizes a descriptor record once its kind is settled: `name`,
/// `binding` and `set` are all required.
pub open spec fn spec_finish_descriptor(
    ty: DescriptorTypeV,
    name: Option<Seq<char>>,
    binding: Option<usize>,
    set: Option<usize>,
) -> Result<DescriptorInputV, ErrorV> {
    match name {
        None => Err(ErrorV::MissingField("name"@)),
        Some(nm) => match binding {
            None => Err(ErrorV::MissingField("binding"@)),
            Some(b) => match set {
                None => Err(ErrorV::MissingField("set"@)),
                Some(s) => Ok(DescriptorInputV { name: nm, ty, binding: b, set: s }),
            },
        },
    }
}

/// Interprets the raw entries of a descriptor record.
pub fn interp_descriptor(toks: &Vec<Token>, pairs: &Vec<KeyValue>) -> (r: Result<
    DescriptorInput,
    Error,
>)
    requires
        scopes_in_bounds(kv_seq(pairs), toks@.len() as int),
    ensures
        match r {
            Ok(d) => spec_interp_descriptor(
                tok_seq(toks),
                kv_seq(pairs),
                0,
                None,
                None,
                None,
                None,
                None,
            ) == Ok::<_, ErrorV>(d@),
            Err(e) => spec_interp_descriptor(
                tok_seq(toks),
                kv_seq(pairs),
                0,
                None,
                None,
                None,
                None,
                None,
            ) == Err::<DescriptorInputV, _>(e@),
        },
{
    let ghost ts = tok_seq(toks);
    let ghost pv = kv_seq(pairs);
    let mut name: Option<String> = None;
    let mut ty: Option<String> = None;
    let mut data: Option<Option<(Delim, usize, usize)>> = None;
    let mut binding: Option<usize> = None;
    let mut set: Option<usize> = None;
    let mut i: usize = 0;
    while i < pairs.len()
        invariant
            i <= pairs@.len(),
            ts == tok_seq(toks),
            pv == kv_seq(pairs),
            scopes_in_bounds(pv, toks@.len() as int),
            data matches Some(Some((d, a, b))) ==> a <= b <= toks@.len(),
            spec_interp_descriptor(ts, pv, 0, None, None, None, None, None)
                == spec_interp_descriptor(
                ts,
                pv,
                i as int,
                crate::push_constants::opt_string_view(name),
                crate::push_constants::opt_string_view(ty),
                opt_window_view(data),
                binding,
                set,
            ),
        decreases pairs@.len() - i,
    {
        proof {
            assert(pv[i as int] == pairs@[i as int]@);
        }
        let kv = &pairs[i];
        if str_is(&kv.key, "name") {
            if name.is_some() {
                return Err(Error::DuplicateKey(copy_string(&kv.key)));
            }
            match &kv.value {
                RawValue::Ident(s) => {
                    name = Some(copy_string(s));
                },
                _ => {
                    return Err(Error::MalformedScope);
                },
            }
        } else if str_is(&kv.key, "ty") {
            if ty.is_some() {
                return Err(Error::DuplicateKey(copy_string(&kv.key)));
            }
            match &kv.value {
                RawValue::Ident(s) => {
                    ty = Some(copy_string(s));
                },
                _ => {
                    return Err(Error::MalformedScope);
                },
            }
        } else if str_is(&kv.key, "data") {
            if data.is_some() {
                return Err(Error::DuplicateKey(copy_string(&kv.key)));
            }
            match &kv.value {
                RawValue::Scope(d, a, b) => {
                    data = Some(Some((*d, *a, *b)));
                },
                _ => {
                    data = Some(None);
                },
            }
        } else if str_is(&kv.key, "binding") {
            if binding.is_some() {
                return Err(Error::DuplicateKey(copy_string(&kv.key)));
            }
            match &kv.value {
                RawValue::Int(c) => {
                    if *c > usize::MAX as u64 {
                        return Err(Error::MalformedScope);
                    }
                    binding = Some(*c as usize);
                },
                _ => {
                    return Err(Error::MalformedScope);
                },
            }
        } else if str_is(&kv.key, "set") {
            if set.is_some() {
                return Err(Error::DuplicateKey(copy_string(&kv.key)));
            }
            match &kv.value {
                RawValue::Int(c) => {
                    if *c > usize::MAX as u64 {
                        return Err(Error::MalformedScope);
                    }
                    set = Some(*c as usize);
                },
                _ => {
                    return Err(Error::MalformedScope);
                },
            }
        } else {
            return Err(Error::UnknownKey(copy_string(&kv.key)));
        }
        i = i + 1;
    }
    let tyname: String = match ty {
        Some(s) => s,
        None => {
            return Err(Error::MissingField("ty".to_owned()));
        },
    };
    let kind: DescriptorType = if str_is(&tyname, "Buffer") {
        match data {
            None => {
                return Err(Error::MissingData);
            },
            Some(slot) => match slot {
                Some((Delim::Bracket, a, b)) => {
                    match parse_buffer_fields(toks, a, b) {
                        Ok(fields) => DescriptorType::Buffer(BufferData { data: fields }),
                        Err(e) => {
                            return Err(e);
                        },
                    }
                },
                _ => {
                    return Err(Error::MalformedScope);
                },
            },
        }
    } else if str_is(&tyname, "SampledImage") {
        DescriptorType::SampledImage
    } else {
        return Err(Error::UnsupportedDescriptorKind(tyname));
    };
    finish_descriptor(kind, name, binding, set)
}

/// Finalizes a descriptor record once its kind is settled.
fn finish_descriptor(
    kind: DescriptorType,
    name: Option<String>,
    binding: Option<usize>,
    set: Option<usize>,
) -> (r: Result<DescriptorInput, Error>)
    ensures
        match r {
            Ok(d) => spec_finish_descriptor(
                kind@,
                crate::push_constants::opt_string_view(name),
                binding,
                set,
            ) == Ok::<_, ErrorV>(d@),
            Err(e) => spec_finish_descriptor(
                kind@,
                crate::push_constants::opt_string_view(name),
                binding,
                set,
            ) == Err::<DescriptorInputV, _>(e@),
        },
{
    let nm: String = match name {
        Some(s) => s,
        None => {
            return Err(Error::MissingField("name".to_owned()));
        },
    };
    let b: usize = match binding {
        Some(b) => b,
        None => {
            return Err(Error::MissingField("binding".to_owned()));
        },
    };
    let s: usize = match set {
        Some(s) => s,
        None => {
            return Err(Error::MissingField("set".to_owned()));
        },
    };
    Ok(DescriptorInput { name: nm, ty: kind, binding: b, set: s })
}

/// One descriptor declaration: the brace record standing at `pos`,
/// together with the position just past it.
pub open spec fn spec_parse_descriptor(t: Seq<TokenV>, pos: int, end: int) -> Result<
    (DescriptorInputV, int),
    ErrorV,
> {
    match spec_read_scope(t, pos, end, Delim::Brace) {
        Ok((a, b, n)) => match spec_read_pairs(t, a, b) {
            Ok(pairs) => match spec_interp_descriptor(t, pairs, 0, None, None, None, None, None) {
                Ok(d) => Ok((d, n)),
                Err(e) => Err(e),
            },
            Err(e) => Err(e),
        },
        Err(e) => Err(e),
    }
}

impl DescriptorInput {
    /// Parses one descriptor declaration: a brace record of `name`, `ty`,
    /// `data`, `binding` and `set` keys standing at `pos`.
    pub fn parse(toks: &Vec<Token>, pos: usize, end: usize) -> (r: Result<
        (DescriptorInput, usize),
        Error,
    >)
        requires
            pos <= end <= toks@.len(),
        ensures
            match r {
                Ok((d, n)) => spec_parse_descriptor(tok_seq(toks), pos as int, end as int) == Ok::<
                    _,
                    ErrorV,
                >((d@, n as int)) && pos < n <= end,
                Err(e) => spec_parse_descriptor(tok_seq(toks), pos as int, end as int) == Err::<
                    (DescriptorInputV, int),
                    _,
                >(e@),
            },
    {
        let ghost ts = tok_seq(toks);
        let (a, b, n) = match read_scope(toks, pos, end, Delim::Brace) {
            Ok(w) => w,
            Err(e) => {
                return Err(e);
            },
        };
        let pairs = match read_pairs(toks, a, b) {
            Ok(p) => p,
            Err(e) => {
                return Err(e);
            },
        };
        proof {
            lemma_read_pairs_scopes_in_bounds(ts, a as int, b as int);
        }
        match interp_descriptor(toks, &pairs) {
            Ok(d) => Ok((d, n)),
            Err(e) => Err(e),
        }
    }
}

/// A bracket list of descriptor declarations, separated by commas, a
/// comma consumed only when more content remains.
pub open spec fn spec_parse_descriptor_list(t: Seq<TokenV>, pos: int, end: int) -> Result<
    Seq<DescriptorInputV>,
    ErrorV,
>
    decreases end - pos,
{
    if pos >= end {
        Ok(Seq::empty())
    } else {
        match spec_parse_descriptor(t, pos, end) {
            Ok((d, n)) => if n == end {
                Ok(seq![d])
            } else if pos < n < end {
                if t[n] == TokenV::Comma {
                    match spec_parse_descriptor_list(t, n + 1, end) {
                        Ok(rest) => Ok(seq![d] + rest),
                        Err(e) => Err(e),
                    }
                } else {
                    Err(ErrorV::MalformedScope)
                }
            } else {
                Err(ErrorV::MalformedScope)
            },
            Err(e) => Err(e),
        }
    }
}

/// Reads a whole window as a list of descriptor declarations.
pub fn parse_descriptor_list(toks: &Vec<Token>, pos: usize, end: usize) -> (r: Result<
    Vec<DescriptorInput>,
    Error,
>)
    requires
        pos <= end <= toks@.len(),
    ensures
        match r {
            Ok(ds) => spec_parse_descriptor_list(tok_seq(toks), pos as int, end as int) == Ok::<
                _,
                ErrorV,
            >(descriptor_seq(&ds)),
            Err(e) => spec_parse_descriptor_list(tok_seq(toks), pos as int, end as int) == Err::<
                Seq<DescriptorInputV>,
                _,
            >(e@),
        },
{
    let ghost ts = tok_seq(toks);
    let mut acc: Vec<DescriptorInput> = Vec::new();
    let mut i: usize = pos;
    proof {
        assert(descriptor_seq(&acc) =~= Seq::<DescriptorInputV>::empty());
    }
    while i < end
        invariant
            pos <= i <= end <= toks@.len(),
            ts == tok_seq(toks),
            spec_parse_descriptor_list(ts, pos as int, end as int) == (match
                spec_parse_descriptor_list(ts, i as int, end as int) {
                Ok(rest) => Ok::<_, ErrorV>(descriptor_seq(&acc) + rest),
                Err(e) => Err::<Seq<DescriptorInputV>, _>(e),
            }),
        decreases end - i,
    {
        let (d, n) = match DescriptorInput::parse(toks, i, end) {
            Ok(x) => x,
            Err(e) => {
                return Err(e);
            },
        };
        let ghost old_acc = descriptor_seq(&acc);
        let ghost dv = d@;
        acc.push(d);
        proof {
            assert(descriptor_seq(&acc) =~= old_acc + seq![dv]);
        }
        if n == end {
            i = end;
            proof {
                assert(old_acc + seq![dv] + Seq::<DescriptorInputV>::empty() =~= old_acc + (
                seq![dv] + Seq::<DescriptorInputV>::empty()));
            }
        } else {
            proof {
                assert(ts[n as int] == toks@[n as int]@);
            }
            let has_comma = match &toks[n] {
                Token::Comma => true,
                _ => false,
            };
            if !has_comma {
                return Err(Error::MalformedScope);
            }
            i = n + 1;
            proof {
                assert(forall|rest: Seq<DescriptorInputV>|
                    (old_acc + seq![dv]) + rest =~= old_acc + (seq![dv] + rest));
            }
        }
    }
    proof {
        assert(spec_parse_descriptor_list(ts, i as int, end as int) == Ok::<_, ErrorV>(
            Seq::<DescriptorInputV>::empty(),
        ));
        assert(descriptor_seq(&acc) + Seq::<DescriptorInputV>::empty() =~= descriptor_seq(&acc));
    }
    Ok(acc)
}

proof fn lemma_interp_descriptor_distinct(
    t: Seq<TokenV>,
    pairs: Seq<KeyValueV>,
    i: int,
    name: Option<Seq<char>>,
    ty: Option<Seq<char>>,
    data: Option<Option<(Delim, int, int)>>,
    binding: Option<usize>,
    set: Option<usize>,
)
    ensures
        spec_interp_descriptor(t, pairs, i, name, ty, data, binding, set) is Ok ==> (forall|
            j1: int,
            j2: int,
        |
            i <= j1 < j2 < pairs.len() ==> pairs[j1].key != pairs[j2].key) && (name is Some
            ==> forall|j: int| i <= j < pairs.len() ==> pairs[j].key != "name"@) && (ty is Some
            ==> forall|j: int| i <= j < pairs.len() ==> pairs[j].key != "ty"@) && (data is Some
            ==> forall|j: int| i <= j < pairs.len() ==> pairs[j].key != "data"@) && (binding is Some
            ==> forall|j: int| i <= j < pairs.len() ==> pairs[j].key != "binding"@) && (set is Some
            ==> forall|j: int| i <= j < pairs.len() ==> pairs[j].key != "set"@),
    decreases pairs.len() - i,
{
    reveal_strlit("name");
    reveal_strlit("ty");
    reveal_strlit("data");
    reveal_strlit("binding");
    reveal_strlit("set");
    assert("name"@.len() == 4);
    assert("ty"@.len() == 2);
    assert("data"@.len() == 4);
    assert("binding"@.len() == 7);
    assert("set"@.len() == 3);
    assert("name"@[0] == 'n' && "data"@[0] == 'd');
    if i < pairs.len() {
        let kv = pairs[i];
        if kv.key == "name"@ && name is None {
            match kv.value {
                RawValueV::Ident(s) => {
                    lemma_interp_descriptor_distinct(
                        t,
                        pairs,
                        i + 1,
                        Some(s),
                        ty,
                        data,
                        binding,
                        set,
                    );
                },
                _ => {},
            }
        }
        if kv.key == "ty"@ && ty is None {
            match kv.value {
                RawValueV::Ident(s) => {
                    lemma_interp_descriptor_distinct(
                        t,
                        pairs,
                        i + 1,
                        name,
                        Some(s),
                        data,
                        binding,
                        set,
                    );
                },
                _ => {},
            }
        }
        if kv.key == "data"@ && data is None {
            match kv.value {
                RawValueV::Scope(d, a, b) => {
                    lemma_interp_descriptor_distinct(
                        t,
                        pairs,
                        i + 1,
                        name,
                        ty,
                        Some(Some((d, a, b))),
                        binding,
                        set,
                    );
                },
                _ => {
                    lemma_interp_descriptor_distinct(
                        t,
                        pairs,
                        i + 1,
                        name,
                        ty,
                        Some(None),
                        binding,
                        set,
                    );
                },
            }
        }
        if kv.key == "binding"@ && binding is None {
            match kv.value {
                RawValueV::Int(c) => {
                    if c <= usize::MAX as u64 {
                        lemma_interp_descriptor_distinct(
                            t,
                            pairs,
                            i + 1,
                            name,
                            ty,
                            data,
                            Some(c as usize),
                            set,
                        );
                    }
                },
                _ => {},
            }
        }
        if kv.key == "set"@ && set is None {
            match kv.value {
                RawValueV::Int(c) => {
                    if c <= usize::MAX as u64 {
                        lemma_interp_descriptor_distinct(
                            t,
                            pairs,
                            i + 1,
                            name,
                            ty,
                            data,
                            binding,
                            Some(c as usize),
                        );
                    }
                },
                _ => {},
            }
        }
    }
}

/// Fixed shape of a buffer-backed slot: non-dynamic, non-storage,
/// read-only.
#[derive(Clone, Copy, Debug, PartialEq, Eq)]
pub struct DescriptorBufferDesc {
    pub dynamic: Option<bool>,
    pub storage: bool,
}

/// Dimensionality of an image slot.
#[derive(Clone, Copy, Debug, PartialEq, Eq, Structural)]
pub enum DescriptorImageDescDimensions {
    OneDimensional,
    TwoDimensional,
    ThreeDimensional,
}

/// Array shape of an image slot.
#[derive(Clone, Copy, Debug, PartialEq, Eq, Structural)]
pub enum DescriptorImageDescArray {
    NonArrayed,
    Arrayed,
}

/// Fixed shape of a sampled-image slot: two-dimensional, non-array,
/// non-multisampled; its format is left unspecified and is not recorded.
#[derive(Clone, Copy, Debug, PartialEq, Eq, Structural)]
pub struct DescriptorImageDesc {
    pub sampled: bool,
    pub dimensions: DescriptorImageDescDimensions,
    pub multisampled: bool,
    pub array_layers: DescriptorImageDescArray,
}

/// The resource shape bound at one `(set, binding)` slot.
#[derive(Clone, Copy, Debug, PartialEq, Eq)]
pub enum DescriptorDescTy {
    Buffer(DescriptorBufferDesc),
    CombinedImageSampler(DescriptorImageDesc),
}

/// Everything the host pipeline asks of one slot: its resource shape, an
/// array count fixed at one, the stage mask of the owning stage, and
/// read-only access.
#[derive(Clone, Copy, Debug, PartialEq, Eq)]
pub struct DescriptorDesc {
    pub ty: DescriptorDescTy,
    pub array_count: u32,
    pub stages: crate::ShaderStages,
    pub readonly: bool,
}

/// Per-binding metadata of one declared descriptor.
#[derive(Clone, Copy, Debug, PartialEq, Eq)]
pub struct DescriptorMeta {
    pub set: usize,
    pub binding: usize,
    pub ty: DescriptorDescTy,
}

/// The resource shape a declaration compiles to: a buffer slot is fixed
/// non-dynamic, non-storage; a sampled image is a fixed two-dimensional,
/// non-array, non-multisampled combined image sampler.
pub open spec fn spec_desc_ty(ty: DescriptorTypeV) -> DescriptorDescTy {
    match ty {
        DescriptorTypeV::Buffer(_) => DescriptorDescTy::Buffer(
            DescriptorBufferDesc { dynamic: Some(false), storage: false },
        ),
        DescriptorTypeV::SampledImage => DescriptorDescTy::CombinedImageSampler(
            DescriptorImageDesc {
                sampled: true,
                dimensions: DescriptorImageDescDimensions::TwoDimensional,
                multisampled: false,
                array_layers: DescriptorImageDescArray::NonArrayed,
            },
        ),
    }
}

/// The per-binding metadata table, one entry per declaration, in
/// declaration order.
pub open spec fn spec_metas(descs: Seq<DescriptorInputV>) -> Seq<DescriptorMeta> {
    descs.map_values(
        |d: DescriptorInputV| DescriptorMeta { set: d.set, binding: d.binding, ty: spec_desc_ty(d.ty) },
    )
}

/// Some declaration uses the set index `s`.
pub open spec fn spec_has_set(descs: Seq<DescriptorInputV>, s: usize) -> bool {
    exists|i: int| 0 <= i < descs.len() && (#[trigger] descs[i]).set == s
}

/// The distinct set indices observed across all declarations.
pub open spec fn spec_set_ids(descs: Seq<DescriptorInputV>) -> Set<usize> {
    Set::new(|s: usize| spec_has_set(descs, s))
}

/// Some declaration uses the slot `(s, b)`.
pub open spec fn spec_has_binding(descs: Seq<DescriptorInputV>, s: usize, b: usize) -> bool {
    exists|i: int|
        0 <= i < descs.len() && (#[trigger] descs[i]).set == s && descs[i].binding == b
}

/// The distinct binding indices observed among declarations of set `s`.
pub open spec fn spec_binding_ids(descs: Seq<DescriptorInputV>, s: usize) -> Set<usize> {
    Set::new(|b: usize| spec_has_binding(descs, s, b))
}

/// The distinct set indices in first-seen order.
pub open spec fn spec_distinct_sets(descs: Seq<DescriptorInputV>) -> Seq<usize>
    decreases descs.len(),
{
    if descs.len() == 0 {
        Seq::empty()
    } else {
        let prefix = spec_distinct_sets(descs.drop_last());
        if prefix.contains(descs.last().set) {
            prefix
        } else {
            prefix.push(descs.last().set)
        }
    }
}

/// The distinct binding indices of set `s` in first-seen order.
pub open spec fn spec_distinct_bindings(descs: Seq<DescriptorInputV>, s: usize) -> Seq<usize>
    decreases descs.len(),
{
    if descs.len() == 0 {
        Seq::empty()
    } else {
        let prefix = spec_distinct_bindings(descs.drop_last(), s);
        let d = descs.last();
        if d.set == s && !prefix.contains(d.binding) {
            prefix.push(d.binding)
        } else {
            prefix
        }
    }
}

pub proof fn lemma_distinct_sets_props(descs: Seq<DescriptorInputV>)
    ensures
        spec_distinct_sets(descs).no_duplicates(),
        forall|s: usize| spec_distinct_sets(descs).contains(s) <==> spec_has_set(descs, s),
    decreases descs.len(),
{
    broadcast use vstd::seq_lib::lemma_seq_contains_after_push;

    if descs.len() == 0 {
        assert(forall|s: usize| !spec_has_set(descs, s));
        assert(forall|s: usize| !spec_distinct_sets(descs).contains(s));
    } else {
        let prefix = descs.drop_last();
        let d = descs.last();
        lemma_distinct_sets_props(prefix);
        assert forall|s: usize|
            spec_has_set(descs, s) <==> (spec_has_set(prefix, s) || d.set == s) by {
            if spec_has_set(descs, s) {
                let i = choose|i: int| 0 <= i < descs.len() && (#[trigger] descs[i]).set == s;
                if i < descs.len() - 1 {
                    assert(prefix[i] == descs[i]);
                    assert(spec_has_set(prefix, s));
                }
            }
            if spec_has_set(prefix, s) {
                let i = choose|i: int| 0 <= i < prefix.len() && (#[trigger] prefix[i]).set == s;
                assert(descs[i] == prefix[i]);
                assert(spec_has_set(descs, s));
            }
            if d.set == s {
                assert(descs[descs.len() - 1].set == s);
                assert(spec_has_set(descs, s));
            }
        }
        let pds = spec_distinct_sets(prefix);
        if !pds.contains(d.set) {
            let whole = pds.push(d.set);
            assert(spec_distinct_sets(descs) == whole);
            assert forall|i: int, j: int|
                0 <= i < whole.len() && 0 <= j < whole.len() && i != j implies whole[i]
                != whole[j] by {
                if i < pds.len() && j < pds.len() {
                } else if j == pds.len() && i < pds.len() {
                    assert(whole[i] == pds[i]);
                    assert(pds.contains(pds[i]));
                } else if i == pds.len() && j < pds.len() {
                    assert(whole[j] == pds[j]);
                    assert(pds.contains(pds[j]));
                }
            }
        }
    }
}

pub proof fn lemma_distinct_bindings_props(descs: Seq<DescriptorInputV>, s: usize)
    ensures
        spec_distinct_bindings(descs, s).no_duplicates(),
        forall|b: usize|
            spec_distinct_bindings(descs, s).contains(b) <==> spec_has_binding(descs, s, b),
    decreases descs.len(),
{
    broadcast use vstd::seq_lib::lemma_seq_contains_after_push;

    if descs.len() == 0 {
        assert(forall|b: usize| !spec_has_binding(descs, s, b));
        assert(forall|b: usize| !spec_distinct_bindings(descs, s).contains(b));
    } else {
        let prefix = descs.drop_last();
        let d = descs.last();
        lemma_distinct_bindings_props(prefix, s);
        assert forall|b: usize|
            spec_has_binding(descs, s, b) <==> (spec_has_binding(prefix, s, b) || (d.set == s
                && d.binding == b)) by {
            if spec_has_binding(descs, s, b) {
                let i = choose|i: int|
                    0 <= i < descs.len() && (#[trigger] descs[i]).set == s && descs[i].binding == b;
                if i < descs.len() - 1 {
                    assert(prefix[i] == descs[i]);
                    assert(spec_has_binding(prefix, s, b));
                }
            }
            if spec_has_binding(prefix, s, b) {
                let i = choose|i: int|
                    0 <= i < prefix.len() && (#[trigger] prefix[i]).set == s && prefix[i].binding
                        == b;
                assert(descs[i] == prefix[i]);
                assert(spec_has_binding(descs, s, b));
            }
            if d.set == s && d.binding == b {
                assert(descs[descs.len() - 1].set == s && descs[descs.len() - 1].binding == b);
                assert(spec_has_binding(descs, s, b));
            }
        }
        let pds = spec_distinct_bindings(prefix, s);
        if d.set == s && !pds.contains(d.binding) {
            let whole = pds.push(d.binding);
            assert(spec_distinct_bindings(descs, s) == whole);
            assert forall|i: int, j: int|
                0 <= i < whole.len() && 0 <= j < whole.len() && i != j implies whole[i]
                != whole[j] by {
                if i < pds.len() && j < pds.len() {
                } else if j == pds.len() && i < pds.len() {
                    assert(whole[i] == pds[i]);
                    assert(pds.contains(pds[i]));
                } else if i == pds.len() && j < pds.len() {
                    assert(whole[j] == pds[j]);
                    assert(pds.contains(pds[j]));
                }
            }
        }
    }
}

/// The number of distinct sets equals the cardinality of the set of
/// observed set indices.
pub proof fn lemma_distinct_sets_count(descs: Seq<DescriptorInputV>)
    ensures
        spec_set_ids(descs).finite(),
        spec_distinct_sets(descs).len() == spec_set_ids(descs).len(),
{
    broadcast use vstd::seq_lib::seq_to_set_is_finite;

    lemma_distinct_sets_props(descs);
    let ds = spec_distinct_sets(descs);
    ds.unique_seq_to_set();
    assert(ds.to_set() =~= spec_set_ids(descs));
}

/// The number of distinct bindings stored for set `s` equals the
/// cardinality of the set of binding indices observed for `s`.
pub proof fn lemma_distinct_bindings_count(descs: Seq<DescriptorInputV>, s: usize)
    ensures
        spec_binding_ids(descs, s).finite(),
        spec_distinct_bindings(descs, s).len() == spec_binding_ids(descs, s).len(),
{
    broadcast use vstd::seq_lib::seq_to_set_is_finite;

    lemma_distinct_bindings_props(descs, s);
    let db = spec_distinct_bindings(descs, s);
    db.unique_seq_to_set();
    assert(db.to_set() =~= spec_binding_ids(descs, s));
}

/// The distinct binding indices of one observed set, in first-seen order.
#[derive(Clone, Debug, PartialEq, Eq)]
pub struct SetBindings {
    pub set: usize,
    pub bindings: Vec<usize>,
}

/// The mathematical value of a [`SetBindings`].
pub struct SetBindingsV {
    pub set: usize,
    pub bindings: Seq<usize>,
}

impl View for SetBindings {
    type V = SetBindingsV;

    open spec fn view(&self) -> SetBindingsV {
        SetBindingsV { set: self.set, bindings: self.bindings@ }
    }
}

/// The set/binding aggregation and the per-binding metadata of a
/// descriptor list.
#[derive(Clone, Debug, PartialEq, Eq)]
pub struct DescriptorSetLayout {
    pub sets: Vec<SetBindings>,
    pub metas: Vec<DescriptorMeta>,
}

/// The mathematical value of a [`DescriptorSetLayout`].
pub struct DescriptorSetLayoutV {
    pub sets: Seq<SetBindingsV>,
    pub metas: Seq<DescriptorMeta>,
}

impl View for DescriptorSetLayout {
    type V = DescriptorSetLayoutV;

    open spec fn view(&self) -> DescriptorSetLayoutV {
        DescriptorSetLayoutV {
            sets: self.sets@.map_values(|sb: SetBindings| sb@),
            metas: self.metas@,
        }
    }
}

/// The compiled aggregation: one entry per distinct set in first-seen
/// order, each carrying that set's distinct bindings in first-seen order,
/// beside the metadata table in declaration order.
pub open spec fn spec_set_layout(descs: Seq<DescriptorInputV>) -> DescriptorSetLayoutV {
    DescriptorSetLayoutV {
        sets: spec_distinct_sets(descs).map_values(
            |s: usize| SetBindingsV { set: s, bindings: spec_distinct_bindings(descs, s) },
        ),
        metas: spec_metas(descs),
    }
}

/// Byte size of the first `k` fields of a buffer record: sequential
/// packing by the scalar-shape table.
pub open spec fn spec_buf_prefix_bytes(fields: Seq<(Seq<char>, ScalarType)>, k: int) -> int
    decreases k,
{
    if k <= 0 {
        0
    } else {
        spec_buf_prefix_bytes(fields, k - 1) + spec_scalar_size(fields[k - 1].1)
    }
}

pub proof fn lemma_buf_prefix_bytes_mono(fields: Seq<(Seq<char>, ScalarType)>, j: int, k: int)
    requires
        0 <= j <= k,
    ensures
        0 <= spec_buf_prefix_bytes(fields, j) <= spec_buf_prefix_bytes(fields, k),
    decreases k,
{
    if k > 0 && j < k {
        lemma_buf_prefix_bytes_mono(fields, j, k - 1);
    }
    if k > 0 && j == k {
        lemma_buf_prefix_bytes_mono(fields, 0, j - 1);
    }
}

/// The memory schema fields of a buffer record: field `k` keeps its
/// declared name and scalar shape, at the byte offset accumulated over
/// the fields declared before it.
pub open spec fn spec_buffer_fields_schema(fields: Seq<(Seq<char>, ScalarType)>) -> Seq<
    FieldSchemaV,
> {
    Seq::new(
        fields.len(),
        |k: int|
            FieldSchemaV {
                name: fields[k].0,
                shape: FieldShape::Scalar(fields[k].1),
                offset: spec_buf_prefix_bytes(fields, k),
                size: spec_scalar_size(fields[k].1),
            },
    )
}

/// The record schemas of a descriptor list: every buffer declaration
/// contributes exactly one record, in declaration order; a sampled image
/// contributes none.
pub open spec fn spec_buffer_schemas(descs: Seq<DescriptorInputV>) -> Seq<RecordSchemaV>
    decreases descs.len(),
{
    if descs.len() == 0 {
        Seq::empty()
    } else {
        let rest = spec_buffer_schemas(descs.drop_last());
        let d = descs.last();
        match d.ty {
            DescriptorTypeV::Buffer(fields) => rest.push(
                RecordSchemaV { name: d.name, fields: spec_buffer_fields_schema(fields) },
            ),
            DescriptorTypeV::SampledImage => rest,
        }
    }
}

/// Every buffer record's total byte size fits the machine word.
pub open spec fn spec_buffer_sizes_ok(descs: Seq<DescriptorInputV>) -> bool {
    forall|i: int|
        0 <= i < descs.len() ==> match (#[trigger] descs[i]).ty {
            DescriptorTypeV::Buffer(fields) => spec_buf_prefix_bytes(fields, fields.len() as int)
                <= usize::MAX,
            DescriptorTypeV::SampledImage => true,
        }
}

/// Decides whether a binding list already holds an index.
fn contains_usize(v: &Vec<usize>, x: usize) -> (r: bool)
    ensures
        r == v@.contains(x),
{
    let mut i: usize = 0;
    while i < v.len()
        invariant
            i <= v@.len(),
            forall|k: int| 0 <= k < i ==> v@[k] != x,
        decreases v@.len() - i,
    {
        if v[i] == x {
            return true;
        }
        i = i + 1;
    }
    false
}

/// Builds one buffer record schema from a declaration's field list.
fn build_buffer_schema(name: &String, fields: &Vec<(String, ScalarType)>) -> (r: RecordSchema)
    requires
        spec_buf_prefix_bytes(buffer_field_seq(fields), buffer_field_seq(fields).len() as int)
            <= usize::MAX,
    ensures
        r@ == (RecordSchemaV {
            name: name@,
            fields: spec_buffer_fields_schema(buffer_field_seq(fields)),
        }),
{
    let ghost fv = buffer_field_seq(fields);
    let mut out: Vec<FieldSchema> = Vec::new();
    let mut offset: usize = 0;
    let mut k: usize = 0;
    let n = fields.len();
    while k < n
        invariant
            k <= n == fields@.len(),
            fv == buffer_field_seq(fields),
            spec_buf_prefix_bytes(fv, fv.len() as int) <= usize::MAX,
            offset as int == spec_buf_prefix_bytes(fv, k as int),
            field_seq(&out).len() == k as int,
            forall|i: int|
                0 <= i < k as int ==> field_seq(&out)[i] == spec_buffer_fields_schema(fv)[i],
        decreases n - k,
    {
        let entry = &fields[k];
        proof {
            assert(fv[k as int] == (fields@[k as int].0@, fields@[k as int].1));
            lemma_buf_prefix_bytes_mono(fv, k as int + 1, fv.len() as int);
            assert(spec_buf_prefix_bytes(fv, k as int + 1) == offset + spec_scalar_size(entry.1));
        }
        let size = entry.1.byte_size();
        let ghost before = field_seq(&out);
        let field = FieldSchema {
            name: copy_string(&entry.0),
            shape: FieldShape::Scalar(entry.1),
            offset,
            size,
        };
        proof {
            assert(field@ == spec_buffer_fields_schema(fv)[k as int]);
        }
        out.push(field);
        proof {
            assert(field_seq(&out) =~= before.push(spec_buffer_fields_schema(fv)[k as int]));
        }
        offset = offset + size;
        k = k + 1;
    }
    proof {
        assert(field_seq(&out) =~= spec_buffer_fields_schema(fv));
    }
    RecordSchema { name: copy_string(name), fields: out }
}

/// Compiles a descriptor list into its set/binding aggregation, its
/// per-binding metadata, and the record schemas of its buffer-backed
/// declarations.
pub fn generate_descriptor_layout(descriptor_inputs: &Vec<DescriptorInput>) -> (r: (
    DescriptorSetLayout,
    Vec<RecordSchema>,
))
    requires
        spec_buffer_sizes_ok(descriptor_seq(descriptor_inputs)),
    ensures
        r.0@ == spec_set_layout(descriptor_seq(descriptor_inputs)),
        schema_seq(&r.1) == spec_buffer_schemas(descriptor_seq(descriptor_inputs)),
{
    let ghost dv = descriptor_seq(descriptor_inputs);
    let n = descriptor_inputs.len();

    // distinct set indices, first-seen order
    let mut set_list: Vec<usize> = Vec::new();
    let mut i: usize = 0;
    proof {
        assert(dv.take(0) =~= Seq::<DescriptorInputV>::empty());
    }
    while i < n
        invariant
            i <= n == descriptor_inputs@.len(),
            dv == descriptor_seq(descriptor_inputs),
            set_list@ == spec_distinct_sets(dv.take(i as int)),
        decreases n - i,
    {
        let s = descriptor_inputs[i].set;
        proof {
            assert(dv[i as int] == descriptor_inputs@[i as int]@);
            assert(dv.take(i as int + 1).drop_last() =~= dv.take(i as int));
            assert(dv.take(i as int + 1).last() == dv[i as int]);
        }
        if !contains_usize(&set_list, s) {
            set_list.push(s);
        }
        i = i + 1;
    }
    proof {
        assert(dv.take(n as int) =~= dv);
    }

    // per distinct set, its distinct bindings in first-seen order
    let mut sets: Vec<SetBindings> = Vec::new();
    let mut k: usize = 0;
    while k < set_list.len()
        invariant
            k <= set_list@.len(),
            n == descriptor_inputs@.len(),
            dv == descriptor_seq(descriptor_inputs),
            set_list@ == spec_distinct_sets(dv),
            sets@.map_values(|sb: SetBindings| sb@).len() == k as int,
            forall|m: int|
                0 <= m < k as int ==> sets@.map_values(|sb: SetBindings| sb@)[m]
                    == (SetBindingsV {
                    set: set_list@[m],
                    bindings: spec_distinct_bindings(dv, set_list@[m]),
                }),
        decreases set_list@.len() - k,
    {
        let s = set_list[k];
        let mut bindings: Vec<usize> = Vec::new();
        let mut j: usize = 0;
        proof {
            assert(dv.take(0) =~= Seq::<DescriptorInputV>::empty());
        }
        while j < n
            invariant
                j <= n == descriptor_inputs@.len(),
                dv == descriptor_seq(descriptor_inputs),
                bindings@ == spec_distinct_bindings(dv.take(j as int), s),
            decreases n - j,
        {
            proof {
                assert(dv[j as int] == descriptor_inputs@[j as int]@);
                assert(dv.take(j as int + 1).drop_last() =~= dv.take(j as int));
                assert(dv.take(j as int + 1).last() == dv[j as int]);
            }
            let d = &descriptor_inputs[j];
            if d.set == s {
                if !contains_usize(&bindings, d.binding) {
                    bindings.push(d.binding);
                }
            }
            j = j + 1;
        }
        proof {
            assert(dv.take(n as int) =~= dv);
        }
        let ghost before = sets@.map_values(|sb: SetBindings| sb@);
        let sb = SetBindings { set: s, bindings };
        let ghost sbv = sb@;
        sets.push(sb);
        proof {
            assert(sets@.map_values(|x: SetBindings| x@) =~= before.push(sbv));
        }
        k = k + 1;
    }
    proof {
        let model = sets@.map_values(|sb: SetBindings| sb@);
        let want = spec_set_layout(dv).sets;
        assert(want.len() == spec_distinct_sets(dv).len());
        assert forall|m: int| 0 <= m < model.len() implies model[m] == want[m] by {
            assert(want[m] == (SetBindingsV {
                set: spec_distinct_sets(dv)[m],
                bindings: spec_distinct_bindings(dv, spec_distinct_sets(dv)[m]),
            }));
        }
        assert(model =~= want);
    }

    // per-binding metadata, declaration order
    let mut metas: Vec<DescriptorMeta> = Vec::new();
    let mut i2: usize = 0;
    while i2 < n
        invariant
            i2 <= n == descriptor_inputs@.len(),
            dv == descriptor_seq(descriptor_inputs),
            metas@.len() == i2 as int,
            forall|m: int| 0 <= m < i2 as int ==> metas@[m] == spec_metas(dv)[m],
        decreases n - i2,
    {
        let d = &descriptor_inputs[i2];
        proof {
            assert(dv[i2 as int] == descriptor_inputs@[i2 as int]@);
        }
        let ty = match &d.ty {
            DescriptorType::Buffer(_) => DescriptorDescTy::Buffer(
                DescriptorBufferDesc { dynamic: Some(false), storage: false },
            ),
            DescriptorType::SampledImage => DescriptorDescTy::CombinedImageSampler(
                DescriptorImageDesc {
                    sampled: true,
                    dimensions: DescriptorImageDescDimensions::TwoDimensional,
                    multisampled: false,
                    array_layers: DescriptorImageDescArray::NonArrayed,
                },
            ),
        };
        let meta = DescriptorMeta { set: d.set, binding: d.binding, ty };
        proof {
            assert(meta == spec_metas(dv)[i2 as int]);
        }
        metas.push(meta);
        i2 = i2 + 1;
    }
    proof {
        assert(metas@ =~= spec_metas(dv));
    }

    // record schemas of the buffer-backed declarations, declaration order
    let mut schemas: Vec<RecordSchema> = Vec::new();
    let mut i3: usize = 0;
    proof {
        assert(dv.take(0) =~= Seq::<DescriptorInputV>::empty());
        assert(schema_seq(&schemas) =~= Seq::<RecordSchemaV>::empty());
    }
    while i3 < n
        invariant
            i3 <= n == descriptor_inputs@.len(),
            dv == descriptor_seq(descriptor_inputs),
            spec_buffer_sizes_ok(dv),
            schema_seq(&schemas) == spec_buffer_schemas(dv.take(i3 as int)),
        decreases n - i3,
    {
        let d = &descriptor_inputs[i3];
        proof {
            assert(dv[i3 as int] == descriptor_inputs@[i3 as int]@);
            assert(dv.take(i3 as int + 1).drop_last() =~= dv.take(i3 as int));
            assert(dv.take(i3 as int + 1).last() == dv[i3 as int]);
        }
        match &d.ty {
            DescriptorType::Buffer(bd) => {
                let ghost before = schema_seq(&schemas);
                let schema = build_buffer_schema(&d.name, &bd.data);
                let ghost sv = schema@;
                schemas.push(schema);
                proof {
                    assert(schema_seq(&schemas) =~= before.push(sv));
                }
            },
            DescriptorType::SampledImage => {},
        }
        i3 = i3 + 1;
    }
    proof {
        assert(dv.take(n as int) =~= dv);
    }

    (DescriptorSetLayout { sets, metas }, schemas)
}

/// The first aggregation entry for set `s`, if `s` was observed.
pub open spec fn spec_lookup_set(sets: Seq<SetBindingsV>, s: usize) -> Option<SetBindingsV>
    decreases sets.len(),
{
    if sets.len() == 0 {
        None
    } else if sets.first().set == s {
        Some(sets.first())
    } else {
        spec_lookup_set(sets.drop_first(), s)
    }
}

/// The set count of a compiled layout equals the number of distinct set
/// indices across all declarations.
pub proof fn lemma_set_count_distinct(descs: Seq<DescriptorInputV>)
    ensures
        spec_set_ids(descs).finite(),
        spec_set_layout(descs).sets.len() == spec_set_ids(descs).len(),
{
    lemma_distinct_sets_count(descs);
}

proof fn lemma_lookup_mapped(ids: Seq<usize>, descs: Seq<DescriptorInputV>, s: usize)
    ensures
        ids.contains(s) ==> spec_lookup_set(
            ids.map_values(|x: usize| SetBindingsV { set: x, bindings: spec_distinct_bindings(descs, x) }),
            s,
        ) == Some(SetBindingsV { set: s, bindings: spec_distinct_bindings(descs, s) }),
        !ids.contains(s) ==> spec_lookup_set(
            ids.map_values(|x: usize| SetBindingsV { set: x, bindings: spec_distinct_bindings(descs, x) }),
            s,
        ) is None,
    decreases ids.len(),
{
    let f = |x: usize| SetBindingsV { set: x, bindings: spec_distinct_bindings(descs, x) };
    let mapped = ids.map_values(f);
    if ids.len() == 0 {
        assert(!ids.contains(s));
    } else {
        lemma_lookup_mapped(ids.drop_first(), descs, s);
        assert(mapped.first() == f(ids.first()));
        assert(mapped.drop_first() =~= ids.drop_first().map_values(f));
        if ids.first() == s {
            assert(ids.contains(s)) by {
                assert(ids[0] == s);
            }
        } else {
            assert(ids.contains(s) <==> ids.drop_first().contains(s)) by {
                if ids.contains(s) {
                    let i = choose|i: int| 0 <= i < ids.len() && ids[i] == s;
                    assert(ids.drop_first()[i - 1] == s);
                }
                if ids.drop_first().contains(s) {
                    let i = choose|i: int| 0 <= i < ids.drop_first().len() && ids.drop_first()[i]
                        == s;
                    assert(ids[i + 1] == s);
                }
            }
        }
    }
}

/// The binding count a compiled layout reports for set `s` equals the
/// number of distinct binding indices among declarations with that set;
/// an unobserved set has no entry.
pub proof fn lemma_binding_count_distinct(descs: Seq<DescriptorInputV>, s: usize)
    ensures
        spec_binding_ids(descs, s).finite(),
        spec_has_set(descs, s) ==> spec_lookup_set(spec_set_layout(descs).sets, s) == Some(
            SetBindingsV { set: s, bindings: spec_distinct_bindings(descs, s) },
        ) && spec_distinct_bindings(descs, s).len() == spec_binding_ids(descs, s).len(),
        !spec_has_set(descs, s) ==> spec_lookup_set(spec_set_layout(descs).sets, s) is None,
{
    lemma_distinct_sets_props(descs);
    lemma_distinct_bindings_count(descs, s);
    lemma_lookup_mapped(spec_distinct_sets(descs), descs, s);
}

/// What one more declaration contributes: it always gains one metadata
/// entry; a sampled image adds no record schema, while a buffer adds
/// exactly one, its fields matching the declared `data` list in order.
pub proof fn lemma_schema_set_contribution(descs: Seq<DescriptorInputV>, d: DescriptorInputV)
    ensures
        spec_metas(descs.push(d)).len() == descs.len() + 1,
        d.ty is SampledImage ==> spec_buffer_schemas(descs.push(d)) == spec_buffer_schemas(descs),
        d.ty matches DescriptorTypeV::Buffer(fields) ==> spec_buffer_schemas(descs.push(d))
            == spec_buffer_schemas(descs).push(
            RecordSchemaV { name: d.name, fields: spec_buffer_fields_schema(fields) },
        ),
        d.ty matches DescriptorTypeV::Buffer(fields) ==> spec_buffer_fields_schema(fields).len()
            == fields.len() && forall|k: int|
            0 <= k < fields.len() ==> (#[trigger] spec_buffer_fields_schema(fields)[k]).name
                == fields[k].0 && spec_buffer_fields_schema(fields)[k].shape == FieldShape::Scalar(
                fields[k].1,
            ),
{
    assert(descs.push(d).drop_last() =~= descs);
    assert(descs.push(d).last() == d);
}

/// Declaring the same key twice in a descriptor record fails: an accepted
/// record has pairwise-distinct keys.
pub proof fn lemma_descriptor_record_rejects_duplicate_keys(t: Seq<TokenV>, pairs: Seq<KeyValueV>)
    ensures
        spec_interp_descriptor(t, pairs, 0, None, None, None, None, None) is Ok ==> forall|
            j1: int,
            j2: int,
        | 0 <= j1 < j2 < pairs.len() ==> pairs[j1].key != pairs[j2].key,
{
    lemma_interp_descriptor_distinct(t, pairs, 0, None, None, None, None, None);
}

} // verus!
