//! Nested-scope reader: generic recursive descent over delimiter-scoped
//! regions of a token stream.
//!
//! A cursor is a pair of positions delimiting a window of the token vector.
//! The reader extracts a sub-window scoped strictly to the content of a
//! delimited region, advancing past the closing delimiter, and walks
//! records generically as a list of raw `key: value` pairs.

use vstd::prelude::*;

use crate::error::{Error, ErrorV};
use crate::token::{tok_seq, Delim, Token, TokenV};
use crate::token::copy_string;

verus! {

/// Position of the closing delimiter matching an already-consumed opening
/// delimiter of kind `d`, scanning from `i`; `depth` counts opening
/// delimiters of the same kind seen since then and not yet closed.
pub open spec fn spec_find_close(
    t: Seq<TokenV>,
    i: int,
    end: int,
    d: Delim,
    depth: nat,
) -> Option<int>
    decreases end - i,
{
    if i >= end {
        None
    } else {
        match t[i] {
            TokenV::Open(d2) => if d2 == d {
                spec_find_close(t, i + 1, end, d, depth + 1)
            } else {
                spec_find_close(t, i + 1, end, d, depth)
            },
            TokenV::Close(d2) => if d2 == d {
                if depth == 0 {
                    Some(i)
                } else {
                    spec_find_close(t, i + 1, end, d, (depth - 1) as nat)
                }
            } else {
                spec_find_close(t, i + 1, end, d, depth)
            },
            _ => spec_find_close(t, i + 1, end, d, depth),
        }
    }
}

pub proof fn lemma_find_close_bounds(t: Seq<TokenV>, i: int, end: int, d: Delim, depth: nat)
    ensures
        spec_find_close(t, i, end, d, depth) matches Some(c) ==> i <= c < end && t[c]
            == TokenV::Close(d),
    decreases end - i,
{
    if i < end {
        lemma_find_close_bounds(t, i + 1, end, d, depth + 1);
        lemma_find_close_bounds(t, i + 1, end, d, depth);
        if depth > 0 {
            lemma_find_close_bounds(t, i + 1, end, d, (depth - 1) as nat);
        }
    }
}

/// Scans for the closing delimiter matching an opening delimiter of kind
/// `d` that stood just before `start`.
pub fn find_close(toks: &Vec<Token>, start: usize, end: usize, d: Delim) -> (r: Option<usize>)
    requires
        start <= end <= toks@.len(),
    ensures
        match r {
            Some(c) => spec_find_close(tok_seq(toks), start as int, end as int, d, 0) == Some(
                c as int,
            ) && start <= c < end,
            None => spec_find_close(tok_seq(toks), start as int, end as int, d, 0) is None,
        },
{
    let ghost ts = tok_seq(toks);
    let mut i: usize = start;
    let mut depth: usize = 0;
    while i < end
        invariant
            start <= i <= end <= toks@.len(),
            depth <= i - start,
            ts == tok_seq(toks),
            spec_find_close(ts, start as int, end as int, d, 0) == spec_find_close(
                ts,
                i as int,
                end as int,
                d,
                depth as nat,
            ),
        decreases end - i,
    {
        proof {
            assert(ts[i as int] == toks@[i as int]@);
        }
        match &toks[i] {
            Token::Open(d2) => {
                if *d2 == d {
                    depth = depth + 1;
                }
            },
            Token::Close(d2) => {
                if *d2 == d {
                    if depth == 0 {
                        proof {
                            lemma_find_close_bounds(ts, start as int, end as int, d, 0);
                        }
                        return Some(i);
                    }
                    depth = depth - 1;
                }
            },
            _ => {},
        }
        i = i + 1;
    }
    None
}

/// The window scoped to a delimited region: given a cursor standing on an
/// opening delimiter of kind `d`, the region's inner window together with
/// the position just past the closing delimiter.
pub open spec fn spec_read_scope(t: Seq<TokenV>, pos: int, end: int, d: Delim) -> Result<
    (int, int, int),
    ErrorV,
> {
    if pos < end && t[pos] == TokenV::Open(d) {
        match spec_find_close(t, pos + 1, end, d, 0) {
            Some(c) => Ok((pos + 1, c, c + 1)),
            None => Err(ErrorV::MalformedScope),
        }
    } else {
        Err(ErrorV::MalformedScope)
    }
}

/// Enters the delimited region of kind `d` standing at `pos`: yields the
/// inner window and the position just past the closing delimiter. Fails
/// with the scope error when the opening delimiter is missing or
/// unmatched.
pub fn read_scope(toks: &Vec<Token>, pos: usize, end: usize, d: Delim) -> (r: Result<
    (usize, usize, usize),
    Error,
>)
    requires
        pos <= end <= toks@.len(),
    ensures
        match r {
            Ok((a, b, n)) => spec_read_scope(tok_seq(toks), pos as int, end as int, d) == Ok::<
                _,
                ErrorV,
            >((a as int, b as int, n as int)) && pos < a <= b < n <= end,
            Err(e) => spec_read_scope(tok_seq(toks), pos as int, end as int, d) == Err::<
                (int, int, int),
                _,
            >(e@),
        },
{
    let ghost ts = tok_seq(toks);
    if pos >= end {
        return Err(Error::MalformedScope);
    }
    proof {
        assert(ts[pos as int] == toks@[pos as int]@);
    }
    let opens = match &toks[pos] {
        Token::Open(d2) => *d2 == d,
        _ => false,
    };
    if !opens {
        return Err(Error::MalformedScope);
    }
    match find_close(toks, pos + 1, end, d) {
        Some(c) => Ok((pos + 1, c, c + 1)),
        None => Err(Error::MalformedScope),
    }
}

/// A raw record value as the generic reader classifies it: a single plain
/// token, or the inner window of one delimited region (the content
/// strictly between the delimiters).
#[derive(Clone, Debug, PartialEq, Eq)]
pub enum RawValue {
    Ident(String),
    Str(String),
    Int(u64),
    Scope(Delim, usize, usize),
}

/// The mathematical value of a [`RawValue`].
pub enum RawValueV {
    Ident(Seq<char>),
    Str(Seq<char>),
    Int(u64),
    Scope(Delim, int, int),
}

impl View for RawValue {
    type V = RawValueV;

    open spec fn view(&self) -> RawValueV {
        match self {
            RawValue::Ident(s) => RawValueV::Ident(s@),
            RawValue::Str(s) => RawValueV::Str(s@),
            RawValue::Int(n) => RawValueV::Int(*n),
            RawValue::Scope(d, a, b) => RawValueV::Scope(*d, *a as int, *b as int),
        }
    }
}

/// One raw `key: value` record entry.
#[derive(Clone, Debug, PartialEq, Eq)]
pub struct KeyValue {
    pub key: String,
    pub value: RawValue,
}

/// The mathematical value of a [`KeyValue`].
pub struct KeyValueV {
    pub key: Seq<char>,
    pub value: RawValueV,
}

impl View for KeyValue {
    type V = KeyValueV;

    open spec fn view(&self) -> KeyValueV {
        KeyValueV { key: self.key@, value: self.value@ }
    }
}

/// The sequence of entry values held by an entry vector.
pub open spec fn kv_seq(pairs: &Vec<KeyValue>) -> Seq<KeyValueV> {
    pairs@.map_values(|p: KeyValue| p@)
}

/// The raw value standing at `pos`: one plain token, or the inner window
/// of one delimited region. Yields the value and the position just past
/// it (past the closing delimiter for a region).
pub open spec fn spec_read_value(t: Seq<TokenV>, pos: int, end: int) -> Result<
    (RawValueV, int),
    ErrorV,
> {
    if pos >= end {
        Err(ErrorV::MalformedScope)
    } else {
        match t[pos] {
            TokenV::Ident(s) => Ok((RawValueV::Ident(s), pos + 1)),
            TokenV::Str(s) => Ok((RawValueV::Str(s), pos + 1)),
            TokenV::Int(n) => Ok((RawValueV::Int(n), pos + 1)),
            TokenV::Open(d) => match spec_find_close(t, pos + 1, end, d, 0) {
                Some(c) => Ok((RawValueV::Scope(d, pos + 1, c), c + 1)),
                None => Err(ErrorV::MalformedScope),
            },
            _ => Err(ErrorV::MalformedScope),
        }
    }
}

/// Reads the raw value standing at `pos`.
pub fn read_value(toks: &Vec<Token>, pos: usize, end: usize) -> (r: Result<
    (RawValue, usize),
    Error,
>)
    requires
        pos <= end <= toks@.len(),
    ensures
        match r {
            Ok((v, p)) => spec_read_value(tok_seq(toks), pos as int, end as int) == Ok::<_, ErrorV>(
                (v@, p as int),
            ) && pos < p <= end,
            Err(e) => spec_read_value(tok_seq(toks), pos as int, end as int) == Err::<
                (RawValueV, int),
                _,
            >(e@),
        },
{
    let ghost ts = tok_seq(toks);
    if pos >= end {
        return Err(Error::MalformedScope);
    }
    proof {
        assert(ts[pos as int] == toks@[pos as int]@);
    }
    match &toks[pos] {
        Token::Ident(s) => Ok((RawValue::Ident(copy_string(s)), pos + 1)),
        Token::Str(s) => Ok((RawValue::Str(copy_string(s)), pos + 1)),
        Token::Int(n) => Ok((RawValue::Int(*n), pos + 1)),
        Token::Open(d) => match find_close(toks, pos + 1, end, *d) {
            Some(c) => Ok((RawValue::Scope(*d, pos + 1, c), c + 1)),
            None => Err(Error::MalformedScope),
        },
        _ => Err(Error::MalformedScope),
    }
}

/// The raw entries of a record window: `key: value` pairs separated by
/// commas, a comma consumed only when more content remains, the window
/// consumed whole.
pub open spec fn spec_read_pairs(t: Seq<TokenV>, pos: int, end: int) -> Result<
    Seq<KeyValueV>,
    ErrorV,
>
    decreases end - pos,
{
    if pos >= end {
        Ok(Seq::empty())
    } else {
        match t[pos] {
            TokenV::Ident(k) => if pos + 1 < end && t[pos + 1] == TokenV::Colon {
                match spec_read_value(t, pos + 2, end) {
                    Ok((v, p2)) => {
                        let kv = KeyValueV { key: k, value: v };
                        if p2 == end {
                            Ok(seq![kv])
                        } else if pos < p2 < end {
                            if t[p2] == TokenV::Comma {
                                match spec_read_pairs(t, p2 + 1, end) {
                                    Ok(rest) => Ok(seq![kv] + rest),
                                    Err(e) => Err(e),
                                }
                            } else {
                                Err(ErrorV::MalformedScope)
                            }
                        } else {
                            Err(ErrorV::MalformedScope)
                        }
                    },
                    Err(e) => Err(e),
                }
            } else {
                Err(ErrorV::MalformedScope)
            },
            _ => Err(ErrorV::MalformedScope),
        }
    }
}

/// Every scope value among the entries lies within the first `end`
/// tokens.
pub open spec fn scopes_in_bounds(pairs: Seq<KeyValueV>, end: int) -> bool {
    forall|j: int|
        0 <= j < pairs.len() ==> (#[trigger] pairs[j].value matches RawValueV::Scope(d, a, b)
            ==> 0 <= a <= b <= end)
}

pub proof fn lemma_read_pairs_scopes_in_bounds(t: Seq<TokenV>, pos: int, end: int)
    requires
        0 <= pos,
    ensures
        spec_read_pairs(t, pos, end) matches Ok(pairs) ==> scopes_in_bounds(pairs, end),
    decreases end - pos,
{
    if pos < end {
        if t[pos] matches TokenV::Ident(k) {
            if pos + 1 < end && t[pos + 1] == TokenV::Colon {
                match t[pos + 2] {
                    TokenV::Open(d) => {
                        lemma_find_close_bounds(t, pos + 3, end, d, 0);
                    },
                    _ => {},
                }
                match spec_read_value(t, pos + 2, end) {
                    Ok((v, p2)) => {
                        if p2 != end && pos < p2 < end && t[p2] == TokenV::Comma {
                            lemma_read_pairs_scopes_in_bounds(t, p2 + 1, end);
                        }
                    },
                    Err(_) => {},
                }
            }
        }
    }
}

/// Reads a whole record window as its raw `key: value` entries.
pub fn read_pairs(toks: &Vec<Token>, pos: usize, end: usize) -> (r: Result<Vec<KeyValue>, Error>)
    requires
        pos <= end <= toks@.len(),
    ensures
        match r {
            Ok(pairs) => spec_read_pairs(tok_seq(toks), pos as int, end as int) == Ok::<_, ErrorV>(
                kv_seq(&pairs),
            ),
            Err(e) => spec_read_pairs(tok_seq(toks), pos as int, end as int) == Err::<
                Seq<KeyValueV>,
                _,
            >(e@),
        },
{
    let ghost ts = tok_seq(toks);
    let mut acc: Vec<KeyValue> = Vec::new();
    let mut i: usize = pos;
    proof {
        assert(kv_seq(&acc) =~= Seq::<KeyValueV>::empty());
    }
    while i < end
        invariant
            pos <= i <= end <= toks@.len(),
            ts == tok_seq(toks),
            spec_read_pairs(ts, pos as int, end as int) == (match spec_read_pairs(
                ts,
                i as int,
                end as int,
            ) {
                Ok(rest) => Ok::<_, ErrorV>(kv_seq(&acc) + rest),
                Err(e) => Err::<Seq<KeyValueV>, _>(e),
            }),
        decreases end - i,
    {
        proof {
            assert(ts[i as int] == toks@[i as int]@);
        }
        let key: String = match &toks[i] {
            Token::Ident(k) => copy_string(k),
            _ => {
                return Err(Error::MalformedScope);
            },
        };
        if i + 1 >= end {
            return Err(Error::MalformedScope);
        }
        proof {
            assert(ts[i as int + 1] == toks@[i as int + 1]@);
        }
        let has_colon = match &toks[i + 1] {
            Token::Colon => true,
            _ => false,
        };
        if !has_colon {
            return Err(Error::MalformedScope);
        }
        let (value, p2) = match read_value(toks, i + 2, end) {
            Ok(vp) => vp,
            Err(e) => {
                return Err(e);
            },
        };
        let ghost old_acc = kv_seq(&acc);
        let kv = KeyValue { key, value };
        let ghost kvv = kv@;
        acc.push(kv);
        proof {
            assert(kv_seq(&acc) =~= old_acc + seq![kvv]);
        }
        if p2 == end {
            i = end;
            proof {
                assert(spec_read_pairs(ts, i as int, end as int) == Ok::<_, ErrorV>(
                    Seq::<KeyValueV>::empty(),
                ));
                assert(old_acc + seq![kvv] + Seq::<KeyValueV>::empty() =~= old_acc + (seq![kvv]
                    + Seq::<KeyValueV>::empty()));
            }
        } else {
            proof {
                assert(ts[p2 as int] == toks@[p2 as int]@);
            }
            let has_comma = match &toks[p2] {
                Token::Comma => true,
                _ => false,
            };
            if !has_comma {
                return Err(Error::MalformedScope);
            }
            i = p2 + 1;
            proof {
                assert(forall|rest: Seq<KeyValueV>|
                    (old_acc + seq![kvv]) + rest =~= old_acc + (seq![kvv] + rest));
            }
        }
    }
    proof {
        assert(spec_read_pairs(ts, i as int, end as int) == Ok::<_, ErrorV>(
            Seq::<KeyValueV>::empty(),
        ));
        assert(kv_seq(&acc) + Seq::<KeyValueV>::empty() =~= kv_seq(&acc));
    }
    Ok(acc)
}

} // verus!
