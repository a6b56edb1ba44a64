//! The push-constant block: its parser, its compiled byte range, and its
//! memory schema.

use vstd::prelude::*;

use crate::error::{Error, ErrorV};
use crate::reader::{kv_seq, read_pairs, read_scope, spec_read_pairs, spec_read_scope};
use crate::reader::{lemma_read_pairs_scopes_in_bounds, scopes_in_bounds};
use crate::reader::{KeyValue, KeyValueV, RawValue, RawValueV};
use crate::schema::{field_seq, FieldSchema, FieldSchemaV, FieldShape, RecordSchema, RecordSchemaV};
use crate::token::{copy_string, str_is, tok_seq, Delim, Token, TokenV};
use crate::{spec_stages_all, ShaderStages};

verus! {

/// A named push-constant block: an ordered list of fields, each a count
/// of four-byte float components.
#[derive(Clone, Debug, PartialEq, Eq)]
pub struct PushConstants {
    pub name: String,
    pub ranges: Vec<(String, usize)>,
}

/// The mathematical value of a [`PushConstants`].
pub struct PushConstantsV {
    pub name: Seq<char>,
    pub ranges: Seq<(Seq<char>, usize)>,
}

impl View for PushConstants {
    type V = PushConstantsV;

    open spec fn view(&self) -> PushConstantsV {
        PushConstantsV {
            name: self.name@,
            ranges: self.ranges@.map_values(|p: (String, usize)| (p.0@, p.1)),
        }
    }
}

/// One compiled push-constant range: a contiguous span of bytes visible
/// to the given stages.
#[derive(Clone, Copy, Debug, PartialEq, Eq, Structural)]
pub struct PipelineLayoutDescPcRange {
    pub offset: usize,
    pub size: usize,
    pub stages: ShaderStages,
}

/// The mathematical value of a [`PipelineLayoutDescPcRange`].
pub struct PcRangeV {
    pub offset: int,
    pub size: int,
    pub stages: ShaderStages,
}

impl View for PipelineLayoutDescPcRange {
    type V = PcRangeV;

    open spec fn view(&self) -> PcRangeV {
        PcRangeV { offset: self.offset as int, size: self.size as int, stages: self.stages }
    }
}

/// The sequence of range values held by a range vector.
pub open spec fn pc_range_seq(v: &Vec<PipelineLayoutDescPcRange>) -> Seq<PcRangeV> {
    v@.map_values(|r: PipelineLayoutDescPcRange| r@)
}

/// Byte size of the first `k` fields of a push-constant block: offsets
/// accumulate strictly in declared field order, four bytes per component.
pub open spec fn spec_pc_prefix_bytes(ranges: Seq<(Seq<char>, usize)>, k: int) -> int
    decreases k,
{
    if k <= 0 {
        0
    } else {
        spec_pc_prefix_bytes(ranges, k - 1) + 4 * ranges[k - 1].1
    }
}

/// Total byte size of a push-constant block.
pub open spec fn spec_pc_bytes(ranges: Seq<(Seq<char>, usize)>) -> int {
    spec_pc_prefix_bytes(ranges, ranges.len() as int)
}

pub proof fn lemma_pc_prefix_bytes_mono(ranges: Seq<(Seq<char>, usize)>, j: int, k: int)
    requires
        0 <= j <= k,
    ensures
        0 <= spec_pc_prefix_bytes(ranges, j) <= spec_pc_prefix_bytes(ranges, k),
    decreases k,
{
    if k > 0 && j < k {
        lemma_pc_prefix_bytes_mono(ranges, j, k - 1);
    }
    if k > 0 && j == k {
        lemma_pc_prefix_bytes_mono(ranges, 0, j - 1);
    }
}

/// The memory schema fields of a push-constant block: field `k` is a
/// float array of its component count, at the byte offset accumulated
/// over the fields declared before it.
pub open spec fn spec_pc_fields(ranges: Seq<(Seq<char>, usize)>) -> Seq<FieldSchemaV> {
    Seq::new(
        ranges.len(),
        |k: int|
            FieldSchemaV {
                name: ranges[k].0,
                shape: FieldShape::FloatArray(ranges[k].1),
                offset: spec_pc_prefix_bytes(ranges, k),
                size: 4 * ranges[k].1,
            },
    )
}

/// The memory schema of a push-constant block.
pub open spec fn spec_pc_schema(pc: PushConstantsV) -> RecordSchemaV {
    RecordSchemaV { name: pc.name, fields: spec_pc_fields(pc.ranges) }
}

/// The compiled range table: one contiguous range per declared block,
/// starting at offset zero, its size the byte size of the whole block,
/// visible to every stage; no block, no range.
pub open spec fn spec_pc_ranges(pc: Option<PushConstantsV>) -> Seq<PcRangeV> {
    match pc {
        Some(p) => seq![
            PcRangeV { offset: 0, size: spec_pc_bytes(p.ranges), stages: spec_stages_all() },
        ],
        None => Seq::empty(),
    }
}

/// The schema table of the push-constant block, if one is declared.
pub open spec fn spec_pc_schema_opt(pc: Option<PushConstantsV>) -> Option<RecordSchemaV> {
    match pc {
        Some(p) => Some(spec_pc_schema(p)),
        None => None,
    }
}

/// The value of an optional push-constant block.
pub open spec fn pc_opt_view(pc: Option<PushConstants>) -> Option<PushConstantsV> {
    match pc {
        Some(p) => Some(p@),
        None => None,
    }
}

/// The value of an optional record schema.
pub open spec fn schema_opt_view(s: Option<RecordSchema>) -> Option<RecordSchemaV> {
    match s {
        Some(r) => Some(r@),
        None => None,
    }
}

/// Compiles the push-constant block into its range table and its memory
/// schema.
pub fn generate_pc(pc: Option<PushConstants>) -> (r: (
    Vec<PipelineLayoutDescPcRange>,
    Option<RecordSchema>,
))
    requires
        pc matches Some(p) ==> spec_pc_bytes(p@.ranges) <= usize::MAX,
    ensures
        pc_range_seq(&r.0) == spec_pc_ranges(pc_opt_view(pc)),
        schema_opt_view(r.1) == spec_pc_schema_opt(pc_opt_view(pc)),
{
    match pc {
        Some(p) => {
            let ghost rv = p@.ranges;
            let mut fields: Vec<FieldSchema> = Vec::new();
            let mut offset: usize = 0;
            let mut k: usize = 0;
            let n = p.ranges.len();
            while k < n
                invariant
                    k <= n == p.ranges@.len(),
                    rv == p@.ranges,
                    spec_pc_bytes(rv) <= usize::MAX,
                    offset as int == spec_pc_prefix_bytes(rv, k as int),
                    field_seq(&fields).len() == k as int,
                    forall|i: int|
                        0 <= i < k as int ==> field_seq(&fields)[i] == spec_pc_fields(rv)[i],
                decreases n - k,
            {
                let entry = &p.ranges[k];
                let count: usize = entry.1;
                proof {
                    assert(rv[k as int] == (p.ranges@[k as int].0@, p.ranges@[k as int].1));
                    lemma_pc_prefix_bytes_mono(rv, k as int + 1, rv.len() as int);
                    assert(spec_pc_prefix_bytes(rv, k as int + 1) == offset + 4 * count);
                }
                let bytes: usize = count * 4;
                let ghost before = field_seq(&fields);
                let field = FieldSchema {
                    name: copy_string(&entry.0),
                    shape: FieldShape::FloatArray(count),
                    offset,
                    size: bytes,
                };
                proof {
                    assert(field@ == spec_pc_fields(rv)[k as int]);
                }
                fields.push(field);
                proof {
                    assert(field_seq(&fields) =~= before.push(spec_pc_fields(rv)[k as int]));
                }
                offset = offset + bytes;
                k = k + 1;
            }
            proof {
                assert(field_seq(&fields) =~= spec_pc_fields(rv));
            }
            let schema = RecordSchema { name: p.name, fields };
            let range = PipelineLayoutDescPcRange { offset: 0, size: offset, stages: ShaderStages::all() };
            let mut ranges_out: Vec<PipelineLayoutDescPcRange> = Vec::new();
            ranges_out.push(range);
            proof {
                assert(pc_range_seq(&ranges_out) =~= spec_pc_ranges(pc_opt_view(Some(p))));
                assert(schema@ == spec_pc_schema(p@));
            }
            (ranges_out, Some(schema))
        },
        None => {
            let ranges_out: Vec<PipelineLayoutDescPcRange> = Vec::new();
            proof {
                assert(pc_range_seq(&ranges_out) =~= Seq::<PcRangeV>::empty());
            }
            (ranges_out, None)
        },
    }
}

/// Element list of `(ident, count)` tuples: each element is a paren
/// scope holding exactly an identifier, a comma, and an integer literal
/// whose value fits the machine word; elements are separated by commas, a
/// comma consumed only when more content remains.
pub open spec fn spec_parse_pc_tuples(t: Seq<TokenV>, pos: int, end: int) -> Result<
    Seq<(Seq<char>, usize)>,
    ErrorV,
>
    decreases end - pos,
{
    if pos >= end {
        Ok(Seq::empty())
    } else {
        match spec_read_scope(t, pos, end, Delim::Paren) {
            Ok((a, b, n)) => if b == a + 3 {
                match (t[a], t[a + 1], t[a + 2]) {
                    (TokenV::Ident(s), TokenV::Comma, TokenV::Int(c)) => if c <= usize::MAX as u64 {
                        let el = (s, c as usize);
                        if n == end {
                            Ok(seq![el])
                        } else if pos < n < end {
                            if t[n] == TokenV::Comma {
                                match spec_parse_pc_tuples(t, n + 1, end) {
                                    Ok(rest) => Ok(seq![el] + rest),
                                    Err(e) => Err(e),
                                }
                            } else {
                                Err(ErrorV::MalformedScope)
                            }
                        } else {
                            Err(ErrorV::MalformedScope)
                        }
                    } else {
                        Err(ErrorV::MalformedScope)
                    },
                    _ => Err(ErrorV::MalformedScope),
                }
            } else {
                Err(ErrorV::MalformedScope)
            },
            Err(e) => Err(e),
        }
    }
}

/// The sequence of tuple values held by a tuple vector.
pub open spec fn pc_tuple_seq(v: &Vec<(String, usize)>) -> Seq<(Seq<char>, usize)> {
    v@.map_values(|p: (String, usize)| (p.0@, p.1))
}

/// Reads the `(ident, count)` tuple list of a `ranges` value.
pub fn parse_pc_tuples(toks: &Vec<Token>, pos: usize, end: usize) -> (r: Result<
    Vec<(String, usize)>,
    Error,
>)
    requires
        pos <= end <= toks@.len(),
    ensures
        match r {
            Ok(tuples) => spec_parse_pc_tuples(tok_seq(toks), pos as int, end as int) == Ok::<
                _,
                ErrorV,
            >(pc_tuple_seq(&tuples)),
            Err(e) => spec_parse_pc_tuples(tok_seq(toks), pos as int, end as int) == Err::<
                Seq<(Seq<char>, usize)>,
                _,
            >(e@),
        },
{
    let ghost ts = tok_seq(toks);
    let mut acc: Vec<(String, usize)> = Vec::new();
    let mut i: usize = pos;
    proof {
        assert(pc_tuple_seq(&acc) =~= Seq::<(Seq<char>, usize)>::empty());
    }
    while i < end
        invariant
            pos <= i <= end <= toks@.len(),
            ts == tok_seq(toks),
            spec_parse_pc_tuples(ts, pos as int, end as int) == (match spec_parse_pc_tuples(
                ts,
                i as int,
                end as int,
            ) {
                Ok(rest) => Ok::<_, ErrorV>(pc_tuple_seq(&acc) + rest),
                Err(e) => Err::<Seq<(Seq<char>, usize)>, _>(e),
            }),
        decreases end - i,
    {
        let (a, b, n) = match read_scope(toks, i, end, Delim::Paren) {
            Ok(w) => w,
            Err(e) => {
                return Err(e);
            },
        };
        if b - a != 3 {
            return Err(Error::MalformedScope);
        }
        proof {
            assert(ts[a as int] == toks@[a as int]@);
            assert(ts[a as int + 1] == toks@[a as int + 1]@);
            assert(ts[a as int + 2] == toks@[a as int + 2]@);
        }
        let name: String = match &toks[a] {
            Token::Ident(s) => copy_string(s),
            _ => {
                return Err(Error::MalformedScope);
            },
        };
        let comma_ok = match &toks[a + 1] {
            Token::Comma => true,
            _ => false,
        };
        if !comma_ok {
            return Err(Error::MalformedScope);
        }
        let count64: u64 = match &toks[a + 2] {
            Token::Int(c) => *c,
            _ => {
                return Err(Error::MalformedScope);
            },
        };
        if count64 > usize::MAX as u64 {
            return Err(Error::MalformedScope);
        }
        let count: usize = count64 as usize;
        let ghost old_acc = pc_tuple_seq(&acc);
        let ghost el = (name@, count);
        acc.push((name, count));
        proof {
            assert(pc_tuple_seq(&acc) =~= old_acc + seq![el]);
        }
        if n == end {
            i = end;
            proof {
                assert(old_acc + seq![el] + Seq::<(Seq<char>, usize)>::empty() =~= old_acc + (
                seq![el] + Seq::<(Seq<char>, usize)>::empty()));
            }
        } else {
            proof {
                assert(ts[n as int] == toks@[n as int]@);
            }
            let has_comma = match &toks[n] {
                Token::Comma => true,
                _ => false,
            };
            if !has_comma {
                return Err(Error::MalformedScope);
            }
            i = n + 1;
            proof {
                assert(forall|rest: Seq<(Seq<char>, usize)>|
                    (old_acc + seq![el]) + rest =~= old_acc + (seq![el] + rest));
            }
        }
    }
    proof {
        assert(spec_parse_pc_tuples(ts, i as int, end as int) == Ok::<_, ErrorV>(
            Seq::<(Seq<char>, usize)>::empty(),
        ));
        assert(pc_tuple_seq(&acc) + Seq::<(Seq<char>, usize)>::empty() =~= pc_tuple_seq(&acc));
    }
    Ok(acc)
}

/// The value of an optional string.
pub open spec fn opt_string_view(o: Option<String>) -> Option<Seq<char>> {
    match o {
        Some(s) => Some(s@),
        None => None,
    }
}

/// The value of an optional tuple list.
pub open spec fn opt_tuples_view(o: Option<Vec<(String, usize)>>) -> Option<
    Seq<(Seq<char>, usize)>,
> {
    match o {
        Some(v) => Some(v@.map_values(|p: (String, usize)| (p.0@, p.1))),
        None => None,
    }
}

/// Interprets the raw entries of a push-constant record. Each key may be
/// set at most once; an unknown key fails; `name` and `ranges` are both
/// required when the record is finalized.
pub open spec fn spec_interp_pc(
    t: Seq<TokenV>,
    pairs: Seq<KeyValueV>,
    i: int,
    name: Option<Seq<char>>,
    ranges: Option<Seq<(Seq<char>, usize)>>,
) -> Result<PushConstantsV, ErrorV>
    decreases pairs.len() - i,
{
    if i >= pairs.len() {
        match (name, ranges) {
            (Some(nm), Some(rs)) => Ok(PushConstantsV { name: nm, ranges: rs }),
            (None, _) => Err(ErrorV::MissingField("name"@)),
            (Some(_), None) => Err(ErrorV::MissingField("ranges"@)),
        }
    } else {
        let kv = pairs[i];
        if kv.key == "name"@ {
            if name is Some {
                Err(ErrorV::DuplicateKey(kv.key))
            } else {
                match kv.value {
                    RawValueV::Ident(s) => spec_interp_pc(t, pairs, i + 1, Some(s), ranges),
                    _ => Err(ErrorV::MalformedScope),
                }
            }
        } else if kv.key == "ranges"@ {
            if ranges is Some {
                Err(ErrorV::DuplicateKey(kv.key))
            } else {
                match kv.value {
                    RawValueV::Scope(Delim::Bracket, a, b) => match spec_parse_pc_tuples(t, a, b) {
                        Ok(rs) => spec_interp_pc(t, pairs, i + 1, name, Some(rs)),
                        Err(e) => Err(e),
                    },
                    _ => Err(ErrorV::MalformedScope),
                }
            }
        } else {
            Err(ErrorV::UnknownKey(kv.key))
        }
    }
}

/// Interprets the raw entries of a push-constant record.
pub fn interp_pc(toks: &Vec<Token>, pairs: &Vec<KeyValue>) -> (r: Result<PushConstants, Error>)
    requires
        scopes_in_bounds(kv_seq(pairs), toks@.len() as int),
    ensures
        match r {
            Ok(pc) => spec_interp_pc(tok_seq(toks), kv_seq(pairs), 0, None, None) == Ok::<
                _,
                ErrorV,
            >(pc@),
            Err(e) => spec_interp_pc(tok_seq(toks), kv_seq(pairs), 0, None, None) == Err::<
                PushConstantsV,
                _,
            >(e@),
        },
{
    let ghost ts = tok_seq(toks);
    let ghost pv = kv_seq(pairs);
    let mut name: Option<String> = None;
    let mut ranges: Option<Vec<(String, usize)>> = None;
    let mut i: usize = 0;
    while i < pairs.len()
        invariant
            i <= pairs@.len(),
            ts == tok_seq(toks),
            pv == kv_seq(pairs),
            scopes_in_bounds(pv, toks@.len() as int),
            spec_interp_pc(ts, pv, 0, None, None) == spec_interp_pc(
                ts,
                pv,
                i as int,
                opt_string_view(name),
                opt_tuples_view(ranges),
            ),
        decreases pairs@.len() - i,
    {
        proof {
            assert(pv[i as int] == pairs@[i as int]@);
        }
        let kv = &pairs[i];
        if str_is(&kv.key, "name") {
            if name.is_some() {
                return Err(Error::DuplicateKey(copy_string(&kv.key)));
            }
            match &kv.value {
                RawValue::Ident(s) => {
                    name = Some(copy_string(s));
                },
                _ => {
                    return Err(Error::MalformedScope);
                },
            }
        } else if str_is(&kv.key, "ranges") {
            if ranges.is_some() {
                return Err(Error::DuplicateKey(copy_string(&kv.key)));
            }
            match &kv.value {
                RawValue::Scope(Delim::Bracket, a, b) => {
                    match parse_pc_tuples(toks, *a, *b) {
                        Ok(tuples) => {
                            ranges = Some(tuples);
                        },
                        Err(e) => {
                            return Err(e);
                        },
                    }
                },
                _ => {
                    return Err(Error::MalformedScope);
                },
            }
        } else {
            return Err(Error::UnknownKey(copy_string(&kv.key)));
        }
        i = i + 1;
    }
    match (name, ranges) {
        (Some(nm), Some(rs)) => Ok(PushConstants { name: nm, ranges: rs }),
        (None, _) => Err(Error::MissingField("name".to_owned())),
        (Some(_), None) => Err(Error::MissingField("ranges".to_owned())),
    }
}

/// The push-constant record held by the window `[a, b)`: its raw entries
/// interpreted as a record.
pub open spec fn spec_pc_window(t: Seq<TokenV>, a: int, b: int) -> Result<PushConstantsV, ErrorV> {
    match spec_read_pairs(t, a, b) {
        Ok(pairs) => spec_interp_pc(t, pairs, 0, None, None),
        Err(e) => Err(e),
    }
}

/// Reads the push-constant record held by the window `[a, b)`.
pub fn parse_pc_window(toks: &Vec<Token>, a: usize, b: usize) -> (r: Result<PushConstants, Error>)
    requires
        a <= b <= toks@.len(),
    ensures
        match r {
            Ok(pc) => spec_pc_window(tok_seq(toks), a as int, b as int) == Ok::<_, ErrorV>(pc@),
            Err(e) => spec_pc_window(tok_seq(toks), a as int, b as int) == Err::<PushConstantsV, _>(
                e@,
            ),
        },
{
    let ghost ts = tok_seq(toks);
    let pairs = match read_pairs(toks, a, b) {
        Ok(p) => p,
        Err(e) => {
            return Err(e);
        },
    };
    proof {
        lemma_read_pairs_scopes_in_bounds(ts, a as int, b as int);
    }
    interp_pc(toks, &pairs)
}

/// One push-constant declaration: the brace record standing at `pos`,
/// together with the position just past it.
pub open spec fn spec_parse_push_constants(t: Seq<TokenV>, pos: int, end: int) -> Result<
    (PushConstantsV, int),
    ErrorV,
> {
    match spec_read_scope(t, pos, end, Delim::Brace) {
        Ok((a, b, n)) => match spec_pc_window(t, a, b) {
            Ok(pc) => Ok((pc, n)),
            Err(e) => Err(e),
        },
        Err(e) => Err(e),
    }
}

impl PushConstants {
    /// Parses one push-constant declaration: a brace record of `name` and
    /// `ranges` keys standing at `pos`.
    pub fn parse(toks: &Vec<Token>, pos: usize, end: usize) -> (r: Result<
        (PushConstants, usize),
        Error,
    >)
        requires
            pos <= end <= toks@.len(),
        ensures
            match r {
                Ok((pc, n)) => spec_parse_push_constants(tok_seq(toks), pos as int, end as int)
                    == Ok::<_, ErrorV>((pc@, n as int)) && pos < n <= end,
                Err(e) => spec_parse_push_constants(tok_seq(toks), pos as int, end as int) == Err::<
                    (PushConstantsV, int),
                    _,
                >(e@),
            },
    {
        let (a, b, n) = match read_scope(toks, pos, end, Delim::Brace) {
            Ok(w) => w,
            Err(e) => {
                return Err(e);
            },
        };
        match parse_pc_window(toks, a, b) {
            Ok(pc) => Ok((pc, n)),
            Err(e) => Err(e),
        }
    }
}

proof fn lemma_interp_pc_distinct(
    t: Seq<TokenV>,
    pairs: Seq<KeyValueV>,
    i: int,
    name: Option<Seq<char>>,
    ranges: Option<Seq<(Seq<char>, usize)>>,
)
    ensures
        spec_interp_pc(t, pairs, i, name, ranges) is Ok ==> (forall|j1: int, j2: int|
            i <= j1 < j2 < pairs.len() ==> pairs[j1].key != pairs[j2].key) && (name is Some
            ==> forall|j: int| i <= j < pairs.len() ==> pairs[j].key != "name"@) && (ranges is Some
            ==> forall|j: int| i <= j < pairs.len() ==> pairs[j].key != "ranges"@),
    decreases pairs.len() - i,
{
    reveal_strlit("name");
    reveal_strlit("ranges");
    assert("name"@.len() == 4);
    assert("ranges"@.len() == 6);
    if i < pairs.len() {
        let kv = pairs[i];
        if kv.key == "name"@ && name is None {
            match kv.value {
                RawValueV::Ident(s) => {
                    lemma_interp_pc_distinct(t, pairs, i + 1, Some(s), ranges);
                },
                _ => {},
            }
        }
        if kv.key == "ranges"@ && ranges is None {
            match kv.value {
                RawValueV::Scope(Delim::Bracket, a, b) => {
                    match spec_parse_pc_tuples(t, a, b) {
                        Ok(rs) => {
                            lemma_interp_pc_distinct(t, pairs, i + 1, name, Some(rs));
                        },
                        Err(_) => {},
                    }
                },
                _ => {},
            }
        }
    }
}

/// Declaring the same key twice in a push-constant record fails: an
/// accepted record has pairwise-distinct keys.
pub proof fn lemma_pc_record_rejects_duplicate_keys(t: Seq<TokenV>, pairs: Seq<KeyValueV>)
    ensures
        spec_interp_pc(t, pairs, 0, None, None) is Ok ==> forall|j1: int, j2: int|
            0 <= j1 < j2 < pairs.len() ==> pairs[j1].key != pairs[j2].key,
{
    lemma_interp_pc_distinct(t, pairs, 0, None, None);
}

} // verus!
