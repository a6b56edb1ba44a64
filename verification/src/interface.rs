//! Vertex-interface elements: their parser, their location assignment,
//! and the enumeration sequence served to the host pipeline.
//!
//! The element declared at index `i` is assigned the location range
//! `[i, i + 1)`. A freshly initialized enumeration cursor yields the
//! last-declared element first and the first-declared element last: the
//! enumeration order is the reverse of the declaration order, while the
//! location values keep the forward declaration index. Downstream
//! consumers depend on this exact order, so it is preserved deliberately.

use vstd::prelude::*;

use crate::error::{Error, ErrorV};
use crate::reader::{kv_seq, read_pairs, read_scope, spec_read_pairs, spec_read_scope};
use crate::reader::{KeyValue, KeyValueV, RawValue, RawValueV};
use crate::token::{copy_string, str_is, tok_seq, Delim, Token, TokenV};

verus! {

/// One vertex-attribute declaration: its format tag and its name.
/// Declaration order is significant: it fixes location assignment.
#[derive(Clone, Debug, PartialEq, Eq)]
pub struct InterfaceElement {
    pub format: String,
    pub name: String,
}

/// The mathematical value of an [`InterfaceElement`].
pub struct InterfaceElementV {
    pub format: Seq<char>,
    pub name: Seq<char>,
}

impl View for InterfaceElement {
    type V = InterfaceElementV;

    open spec fn view(&self) -> InterfaceElementV {
        InterfaceElementV { format: self.format@, name: self.name@ }
    }
}

/// The sequence of element values held by an element vector.
pub open spec fn element_seq(v: &Vec<InterfaceElement>) -> Seq<InterfaceElementV> {
    v@.map_values(|e: InterfaceElement| e@)
}

/// Interprets the raw entries of an interface-element record. Each key
/// may be set at most once; an unknown key fails; `format` and `name` are
/// both required when the record is finalized.
pub open spec fn spec_interp_ie(
    pairs: Seq<KeyValueV>,
    i: int,
    format: Option<Seq<char>>,
    name: Option<Seq<char>>,
) -> Result<InterfaceElementV, ErrorV>
    decreases pairs.len() - i,
{
    if i >= pairs.len() {
        match (format, name) {
            (Some(f), Some(nm)) => Ok(InterfaceElementV { format: f, name: nm }),
            (None, _) => Err(ErrorV::MissingField("format"@)),
            (Some(_), None) => Err(ErrorV::MissingField("name"@)),
        }
    } else {
        let kv = pairs[i];
        if kv.key == "format"@ {
            if format is Some {
                Err(ErrorV::DuplicateKey(kv.key))
            } else {
                match kv.value {
                    RawValueV::Ident(s) => spec_interp_ie(pairs, i + 1, Some(s), name),
                    _ => Err(ErrorV::MalformedScope),
                }
            }
        } else if kv.key == "name"@ {
            if name is Some {
                Err(ErrorV::DuplicateKey(kv.key))
            } else {
                match kv.value {
                    RawValueV::Str(s) => spec_interp_ie(pairs, i + 1, format, Some(s)),
                    _ => Err(ErrorV::MalformedScope),
                }
            }
        } else {
            Err(ErrorV::UnknownKey(kv.key))
        }
    }
}

/// Interprets the raw entries of an interface-element record.
pub fn interp_ie(pairs: &Vec<KeyValue>) -> (r: Result<InterfaceElement, Error>)
    ensures
        match r {
            Ok(el) => spec_interp_ie(kv_seq(pairs), 0, None, None) == Ok::<_, ErrorV>(el@),
            Err(e) => spec_interp_ie(kv_seq(pairs), 0, None, None) == Err::<InterfaceElementV, _>(
                e@,
            ),
        },
{
    let ghost pv = kv_seq(pairs);
    let mut format: Option<String> = None;
    let mut name: Option<String> = None;
    let mut i: usize = 0;
    while i < pairs.len()
        invariant
            i <= pairs@.len(),
            pv == kv_seq(pairs),
            spec_interp_ie(pv, 0, None, None) == spec_interp_ie(
                pv,
                i as int,
                crate::push_constants::opt_string_view(format),
                crate::push_constants::opt_string_view(name),
            ),
        decreases pairs@.len() - i,
    {
        proof {
            assert(pv[i as int] == pairs@[i as int]@);
        }
        let kv = &pairs[i];
        if str_is(&kv.key, "format") {
            if format.is_some() {
                return Err(Error::DuplicateKey(copy_string(&kv.key)));
            }
            match &kv.value {
                RawValue::Ident(s) => {
                    format = Some(copy_string(s));
                },
                _ => {
                    return Err(Error::MalformedScope);
                },
            }
        } else if str_is(&kv.key, "name") {
            if name.is_some() {
                return Err(Error::DuplicateKey(copy_string(&kv.key)));
            }
            match &kv.value {
                RawValue::Str(s) => {
                    name = Some(copy_string(s));
                },
                _ => {
                    return Err(Error::MalformedScope);
                },
            }
        } else {
            return Err(Error::UnknownKey(copy_string(&kv.key)));
        }
        i = i + 1;
    }
    match (format, name) {
        (Some(f), Some(nm)) => Ok(InterfaceElement { format: f, name: nm }),
        (None, _) => Err(Error::MissingField("format".to_owned())),
        (Some(_), None) => Err(Error::MissingField("name".to_owned())),
    }
}

/// One interface-element declaration: the brace record standing at `pos`,
/// together with the position just past it.
pub open spec fn spec_parse_interface_element(t: Seq<TokenV>, pos: int, end: int) -> Result<
    (InterfaceElementV, int),
    ErrorV,
> {
    match spec_read_scope(t, pos, end, Delim::Brace) {
        Ok((a, b, n)) => match spec_read_pairs(t, a, b) {
            Ok(pairs) => match spec_interp_ie(pairs, 0, None, None) {
                Ok(el) => Ok((el, n)),
                Err(e) => Err(e),
            },
            Err(e) => Err(e),
        },
        Err(e) => Err(e),
    }
}

impl InterfaceElement {
    /// Parses one interface-element declaration: a brace record of
    /// `format` and `name` keys standing at `pos`.
    pub fn parse(toks: &Vec<Token>, pos: usize, end: usize) -> (r: Result<
        (InterfaceElement, usize),
        Error,
    >)
        requires
            pos <= end <= toks@.len(),
        ensures
            match r {
                Ok((el, n)) => spec_parse_interface_element(tok_seq(toks), pos as int, end as int)
                    == Ok::<_, ErrorV>((el@, n as int)) && pos < n <= end,
                Err(e) => spec_parse_interface_element(tok_seq(toks), pos as int, end as int)
                    == Err::<(InterfaceElementV, int), _>(e@),
            },
    {
        let (a, b, n) = match read_scope(toks, pos, end, Delim::Brace) {
            Ok(w) => w,
            Err(e) => {
                return Err(e);
            },
        };
        let pairs = match read_pairs(toks, a, b) {
            Ok(p) => p,
            Err(e) => {
                return Err(e);
            },
        };
        match interp_ie(&pairs) {
            Ok(el) => Ok((el, n)),
            Err(e) => Err(e),
        }
    }
}

/// A bracket list of interface-element declarations, separated by commas,
/// a comma consumed only when more content remains.
pub open spec fn spec_parse_interface_list(t: Seq<TokenV>, pos: int, end: int) -> Result<
    Seq<InterfaceElementV>,
    ErrorV,
>
    decreases end - pos,
{
    if pos >= end {
        Ok(Seq::empty())
    } else {
        match spec_parse_interface_element(t, pos, end) {
            Ok((el, n)) => if n == end {
                Ok(seq![el])
            } else if pos < n < end {
                if t[n] == TokenV::Comma {
                    match spec_parse_interface_list(t, n + 1, end) {
                        Ok(rest) => Ok(seq![el] + rest),
                        Err(e) => Err(e),
                    }
                } else {
                    Err(ErrorV::MalformedScope)
                }
            } else {
                Err(ErrorV::MalformedScope)
            },
            Err(e) => Err(e),
        }
    }
}

/// Reads a whole window as a list of interface-element declarations.
pub fn parse_interface_list(toks: &Vec<Token>, pos: usize, end: usize) -> (r: Result<
    Vec<InterfaceElement>,
    Error,
>)
    requires
        pos <= end <= toks@.len(),
    ensures
        match r {
            Ok(els) => spec_parse_interface_list(tok_seq(toks), pos as int, end as int) == Ok::<
                _,
                ErrorV,
            >(element_seq(&els)),
            Err(e) => spec_parse_interface_list(tok_seq(toks), pos as int, end as int) == Err::<
                Seq<InterfaceElementV>,
                _,
            >(e@),
        },
{
    let ghost ts = tok_seq(toks);
    let mut acc: Vec<InterfaceElement> = Vec::new();
    let mut i: usize = pos;
    proof {
        assert(element_seq(&acc) =~= Seq::<InterfaceElementV>::empty());
    }
    while i < end
        invariant
            pos <= i <= end <= toks@.len(),
            ts == tok_seq(toks),
            spec_parse_interface_list(ts, pos as int, end as int) == (match
                spec_parse_interface_list(ts, i as int, end as int) {
                Ok(rest) => Ok::<_, ErrorV>(element_seq(&acc) + rest),
                Err(e) => Err::<Seq<InterfaceElementV>, _>(e),
            }),
        decreases end - i,
    {
        let (el, n) = match InterfaceElement::parse(toks, i, end) {
            Ok(x) => x,
            Err(e) => {
                return Err(e);
            },
        };
        let ghost old_acc = element_seq(&acc);
        let ghost elv = el@;
        acc.push(el);
        proof {
            assert(element_seq(&acc) =~= old_acc + seq![elv]);
        }
        if n == end {
            i = end;
            proof {
                assert(old_acc + seq![elv] + Seq::<InterfaceElementV>::empty() =~= old_acc + (
                seq![elv] + Seq::<InterfaceElementV>::empty()));
            }
        } else {
            proof {
                assert(ts[n as int] == toks@[n as int]@);
            }
            let has_comma = match &toks[n] {
                Token::Comma => true,
                _ => false,
            };
            if !has_comma {
                return Err(Error::MalformedScope);
            }
            i = n + 1;
            proof {
                assert(forall|rest: Seq<InterfaceElementV>|
                    (old_acc + seq![elv]) + rest =~= old_acc + (seq![elv] + rest));
            }
        }
    }
    proof {
        assert(spec_parse_interface_list(ts, i as int, end as int) == Ok::<_, ErrorV>(
            Seq::<InterfaceElementV>::empty(),
        ));
        assert(element_seq(&acc) + Seq::<InterfaceElementV>::empty() =~= element_seq(&acc));
    }
    Ok(acc)
}

proof fn lemma_interp_ie_distinct(
    pairs: Seq<KeyValueV>,
    i: int,
    format: Option<Seq<char>>,
    name: Option<Seq<char>>,
)
    ensures
        spec_interp_ie(pairs, i, format, name) is Ok ==> (forall|j1: int, j2: int|
            i <= j1 < j2 < pairs.len() ==> pairs[j1].key != pairs[j2].key) && (format is Some
            ==> forall|j: int| i <= j < pairs.len() ==> pairs[j].key != "format"@) && (name is Some
            ==> forall|j: int| i <= j < pairs.len() ==> pairs[j].key != "name"@),
    decreases pairs.len() - i,
{
    reveal_strlit("format");
    reveal_strlit("name");
    assert("format"@.len() == 6);
    assert("name"@.len() == 4);
    if i < pairs.len() {
        let kv = pairs[i];
        if kv.key == "format"@ && format is None {
            match kv.value {
                RawValueV::Ident(s) => {
                    lemma_interp_ie_distinct(pairs, i + 1, Some(s), name);
                },
                _ => {},
            }
        }
        if kv.key == "name"@ && name is None {
            match kv.value {
                RawValueV::Str(s) => {
                    lemma_interp_ie_distinct(pairs, i + 1, format, Some(s));
                },
                _ => {},
            }
        }
    }
}

/// Declaring the same key twice in an interface-element record fails: an
/// accepted record has pairwise-distinct keys.
pub proof fn lemma_ie_record_rejects_duplicate_keys(pairs: Seq<KeyValueV>)
    ensures
        spec_interp_ie(pairs, 0, None, None) is Ok ==> forall|j1: int, j2: int|
            0 <= j1 < j2 < pairs.len() ==> pairs[j1].key != pairs[j2].key,
{
    lemma_interp_ie_distinct(pairs, 0, None, None);
}

/// One served vertex-interface entry: the assigned location range, the
/// format tag, and the attribute name.
#[derive(Clone, Debug, PartialEq, Eq)]
pub struct ShaderInterfaceDefEntry {
    pub location_start: usize,
    pub location_end: usize,
    pub format: String,
    pub name: String,
}

/// The mathematical value of a [`ShaderInterfaceDefEntry`].
pub struct EntryV {
    pub location_start: int,
    pub location_end: int,
    pub format: Seq<char>,
    pub name: Seq<char>,
}

impl View for ShaderInterfaceDefEntry {
    type V = EntryV;

    open spec fn view(&self) -> EntryV {
        EntryV {
            location_start: self.location_start as int,
            location_end: self.location_end as int,
            format: self.format@,
            name: self.name@,
        }
    }
}

/// Location assignment: the element declared at index `i` becomes the
/// entry with location range `[i, i + 1)`, kept in declaration order.
pub open spec fn spec_interface_entries(elements: Seq<InterfaceElementV>) -> Seq<EntryV> {
    Seq::new(
        elements.len(),
        |i: int|
            EntryV {
                location_start: i,
                location_end: i + 1,
                format: elements[i].format,
                name: elements[i].name,
            },
    )
}

/// A compiled vertex interface: its name and its entries in declaration
/// order.
#[derive(Clone, Debug, PartialEq, Eq)]
pub struct InterfaceDef {
    pub name: String,
    pub entries: Vec<ShaderInterfaceDefEntry>,
}

/// The mathematical value of an [`InterfaceDef`].
pub struct InterfaceDefV {
    pub name: Seq<char>,
    pub entries: Seq<EntryV>,
}

impl View for InterfaceDef {
    type V = InterfaceDefV;

    open spec fn view(&self) -> InterfaceDefV {
        InterfaceDefV {
            name: self.name@,
            entries: self.entries@.map_values(|e: ShaderInterfaceDefEntry| e@),
        }
    }
}

/// Compiles a list of interface elements into the named interface with
/// its assigned location ranges.
pub fn generate_interface(struct_name: String, elements: &Vec<InterfaceElement>) -> (r:
    InterfaceDef)
    ensures
        r@.name == struct_name@,
        r@.entries == spec_interface_entries(element_seq(elements)),
{
    let ghost ev = element_seq(elements);
    let mut entries: Vec<ShaderInterfaceDefEntry> = Vec::new();
    let mut i: usize = 0;
    let n = elements.len();
    while i < n
        invariant
            i <= n == elements@.len(),
            ev == element_seq(elements),
            entries@.map_values(|e: ShaderInterfaceDefEntry| e@).len() == i as int,
            forall|k: int|
                0 <= k < i as int ==> entries@.map_values(|e: ShaderInterfaceDefEntry| e@)[k]
                    == spec_interface_entries(ev)[k],
        decreases n - i,
    {
        let el = &elements[i];
        let ghost before = entries@.map_values(|e: ShaderInterfaceDefEntry| e@);
        let entry = ShaderInterfaceDefEntry {
            location_start: i,
            location_end: i + 1,
            format: copy_string(&el.format),
            name: copy_string(&el.name),
        };
        proof {
            assert(ev[i as int] == elements@[i as int]@);
            assert(entry@ == spec_interface_entries(ev)[i as int]);
        }
        entries.push(entry);
        proof {
            assert(entries@.map_values(|e: ShaderInterfaceDefEntry| e@) =~= before.push(
                spec_interface_entries(ev)[i as int],
            ));
        }
        i = i + 1;
    }
    proof {
        assert(entries@.map_values(|e: ShaderInterfaceDefEntry| e@) =~= spec_interface_entries(
            ev,
        ));
    }
    InterfaceDef { name: struct_name, entries }
}

/// A lazy enumeration cursor over a compiled interface. It is finite,
/// knows its exact remaining length, and is not restartable: a fresh
/// cursor must be initialized to enumerate again.
pub struct InterfaceIter<'a> {
    pub entries: &'a Vec<ShaderInterfaceDefEntry>,
    pub cursor: usize,
}

impl InterfaceDef {
    /// A freshly initialized enumeration cursor; it yields the
    /// last-declared entry first.
    pub fn elements(&self) -> (it: InterfaceIter<'_>)
        ensures
            it.entries@ == self.entries@,
            it.cursor == 0,
    {
        InterfaceIter { entries: &self.entries, cursor: 0 }
    }
}

impl<'a> InterfaceIter<'a> {
    /// The entry at enumeration position `cursor`: the one declared at
    /// index `n - 1 - cursor`. Yields nothing once the entries are
    /// exhausted.
    pub fn next(&mut self) -> (r: Option<&'a ShaderInterfaceDefEntry>)
        ensures
            final(self).entries == old(self).entries,
            match r {
                Some(e) => old(self).cursor < old(self).entries@.len() && final(self).cursor == old(
                    self,
                ).cursor + 1 && e == &old(self).entries[old(self).entries@.len() - 1 - old(
                    self,
                ).cursor],
                None => old(self).cursor >= old(self).entries@.len() && final(self).cursor == old(
                    self,
                ).cursor,
            },
    {
        let n = self.entries.len();
        if self.cursor < n {
            let e = &self.entries[n - 1 - self.cursor];
            self.cursor = self.cursor + 1;
            Some(e)
        } else {
            None
        }
    }

    /// The exact number of entries still to be yielded, as a lower and
    /// upper bound.
    pub fn size_hint(&self) -> (r: (usize, Option<usize>))
        ensures
            self.cursor <= self.entries@.len() ==> r.0 == self.entries@.len() - self.cursor,
            self.cursor > self.entries@.len() ==> r.0 == 0,
            r.1 == Some(r.0),
    {
        let n = self.entries.len();
        if self.cursor >= n {
            (0, Some(0))
        } else {
            (n - self.cursor, Some(n - self.cursor))
        }
    }
}

/// Reverse-order law: for `n` declared elements the produced sequence has
/// length exactly `n`, and the entry yielded at enumeration position `i`
/// is the one declared at index `n - 1 - i`: its location range is
/// `[n - 1 - i, n - i)` and it carries that element's format and name.
pub proof fn lemma_interface_reverse_order(elements: Seq<InterfaceElementV>, i: int)
    requires
        0 <= i < elements.len(),
    ensures
        spec_interface_entries(elements).len() == elements.len(),
        spec_interface_entries(elements)[elements.len() - 1 - i].location_start == elements.len()
            - 1 - i,
        spec_interface_entries(elements)[elements.len() - 1 - i].location_end == elements.len() - i,
        spec_interface_entries(elements)[elements.len() - 1 - i].format == elements[elements.len()
            - 1 - i].format,
        spec_interface_entries(elements)[elements.len() - 1 - i].name == elements[elements.len() - 1
            - i].name,
{
}

} // verus!
