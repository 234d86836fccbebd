//! The parser: one function for each production of `grammar`, and the scan
//! that applies them to a whole token sequence.

use crate::error::{ParseError, ParseFault, ReferenceError, SchemaError};
use crate::grammar::{
    has_number, has_token, has_word, number_at, parse_from, parse_spec, properties_from,
    property_at, ratio_at, resolve_type, specifier_at, specifier_tail_at, table_at, typedef_at,
    word_at,
};
use crate::grammar_laws::{
    lemma_parsed_schema_is_wf, lemma_ratio_needs_declared_tables, lemma_table_has_its_key,
};
use crate::schema::{
    DataType, DataTypeView, Property, PropertyView, Ratio, Schema, Specifier, Table, TypeDef,
};
use crate::token::{Keyword, Token, TokenView};
use vstd::prelude::*;

verus! {

/// Whether the answer `r` of a production is the answer `expected` of its
/// definition: the same outcome, the same number of tokens, and an item with
/// the expected view.
pub open spec fn answers<T: View>(
    r: Result<Option<(T, usize)>, ParseError>,
    expected: Result<Option<(T::V, nat)>, ParseError>,
) -> bool {
    match expected {
        Ok(Some((v, n))) => r matches Ok(Some((item, consumed))) && item@ == v && consumed == n,
        Ok(None) => r matches Ok(None),
        Err(e) => r matches Err(x) && x == e,
    }
}

/// The token at `at + offset`, if there is one.
fn token_at<'a>(tokens: &'a [Token], at: usize, offset: usize) -> (r: Option<&'a Token>)
    ensures
        match r {
            Some(t) => at + offset < tokens.len() && *t == tokens@[at + offset],
            None => at + offset >= tokens.len(),
        },
{
    let n = tokens.len();
    if offset < n && at < n - offset {
        Some(&tokens[at + offset])
    } else {
        None
    }
}

/// Tests whether the token at `at + offset` is `symbol`.
fn symbol_at(tokens: &[Token], at: usize, offset: usize, symbol: &Token) -> (r: bool)
    ensures
        r == has_token(tokens.deep_view(), at + offset, symbol@),
{
    match token_at(tokens, at, offset) {
        Some(t) => t.same_as(symbol),
        None => false,
    }
}

/// The word at `at + offset`, if that token is a word.
fn word_token<'a>(tokens: &'a [Token], at: usize, offset: usize) -> (r: Option<&'a String>)
    ensures
        match r {
            Some(w) => at + offset < tokens.len() && has_word(tokens.deep_view(), at + offset)
                && w@ == word_at(tokens.deep_view(), at + offset),
            None => !has_word(tokens.deep_view(), at + offset),
        },
{
    match token_at(tokens, at, offset) {
        Some(Token::Word(w)) => Some(w),
        _ => None,
    }
}

/// The number at `at + offset`, if that token is a number.
fn number_token(tokens: &[Token], at: usize, offset: usize) -> (r: Option<u32>)
    ensures
        match r {
            Some(n) => at + offset < tokens.len() && has_number(tokens.deep_view(), at + offset)
                && n == number_at(tokens.deep_view(), at + offset),
            None => !has_number(tokens.deep_view(), at + offset),
        },
{
    match token_at(tokens, at, offset) {
        Some(Token::Number(n)) => Some(*n),
        _ => None,
    }
}

/// Reads the rest of a specifier after its opening parenthesis and its first
/// number `first`: `)` or `.. n )`.
pub fn parse_specifier_tail(tokens: &[Token], at: usize, first: u32) -> (r: Option<
    (Specifier, usize),
>)
    ensures
        match specifier_tail_at(tokens.deep_view(), at as int, first) {
            Some((s, n)) => r == Some((s, n as usize)) && at + n <= tokens.len(),
            None => r is None,
        },
{
    if symbol_at(tokens, at, 0, &Token::CloseParen) {
        Some((Specifier::Const(first), 1))
    } else if symbol_at(tokens, at, 0, &Token::RangeDecl) {
        match number_token(tokens, at, 1) {
            Some(last) => {
                if symbol_at(tokens, at, 2, &Token::CloseParen) {
                    Some((Specifier::Range(first, last), 3))
                } else {
                    None
                }
            },
            None => None,
        }
    } else {
        None
    }
}

/// Reads a specifier at `at`: `( n )` gives `Const(n)` and `( a .. b )` gives
/// `Range(a, b)`; anything else is no specifier.
pub fn parse_specifier(tokens: &[Token], at: usize) -> (r: Option<(Specifier, usize)>)
    ensures
        match specifier_at(tokens.deep_view(), at as int) {
            Some((s, n)) => r == Some((s, n as usize)) && at + n <= tokens.len(),
            None => r is None,
        },
        forall|a: u32, b: u32|
            has_token(tokens.deep_view(), at as int, TokenView::OpenParen) && has_token(
                tokens.deep_view(),
                at + 1,
                TokenView::Number(a),
            ) && has_token(tokens.deep_view(), at + 2, TokenView::RangeDecl) && has_token(
                tokens.deep_view(),
                at + 3,
                TokenView::Number(b),
            ) && has_token(tokens.deep_view(), at + 4, TokenView::CloseParen) ==> r == Some(
                (Specifier::Range(a, b), 5usize),
            ),
{
    if !symbol_at(tokens, at, 0, &Token::OpenParen) {
        return None;
    }
    match number_token(tokens, at, 1) {
        Some(first) => match parse_specifier_tail(tokens, at + 2, first) {
            Some((s, n)) => Some((s, n + 2)),
            None => None,
        },
        None => None,
    }
}

/// The error `fault` about the token at `position`.
fn fail(fault: ParseFault, position: usize) -> (e: ParseError)
    ensures
        e == (ParseError { fault, position }),
{
    ParseError { fault, position }
}

/// Reads a type alias at `at`: `type name base` and an optional specifier.
///
/// `base` is resolved against the built-in type names alone; an unknown name
/// is a [`ReferenceError::UnknownType`] at the position of `base`.
pub fn parse_typedef(tokens: &[Token], at: usize) -> (r: Result<
    Option<(TypeDef, usize)>,
    ParseError,
>)
    ensures
        answers(r, typedef_at(tokens.deep_view(), at as int)),
        r matches Ok(Some((_, n))) ==> 3 <= n && at + n <= tokens.len(),
{
    if !symbol_at(tokens, at, 0, &Token::Keyword(Keyword::Type)) {
        return Ok(None);
    }
    let name = match word_token(tokens, at, 1) {
        Some(w) => w,
        None => return Ok(None),
    };
    let base = match word_token(tokens, at, 2) {
        Some(w) => w,
        None => return Ok(None),
    };
    let (specifier, len) = match parse_specifier(tokens, at + 3) {
        Some((s, n)) => (Some(s), n),
        None => (None, 0),
    };
    match DataType::builtin(base.as_str(), specifier) {
        Ok(data_type) => Ok(Some((TypeDef { name: name.clone(), data_type }, 3 + len))),
        Err(_) => Err(fail(ParseFault::Reference(ReferenceError::UnknownType), at + 2)),
    }
}

/// Resolves the type name of a property against `schema`, in this order: a
/// type alias of that name gives its type, whatever `specifier` is; else a
/// table of that name gives a reference to that table and its primary key;
/// else the name has to be a built-in type name, which takes `specifier`.
pub fn resolve(schema: &Schema, name: &str, specifier: Option<Specifier>) -> (r: Result<
    DataType,
    ReferenceError,
>)
    ensures
        match resolve_type(schema@, name@, specifier) {
            Some(t) => r matches Ok(d) && d@ == t,
            None => r matches Err(e) && e == ReferenceError::UnknownType,
        },
        schema@.find_typedef(name@) matches Some(k) ==> (r matches Ok(d) && d@
            == schema@.type_defs[k].data_type),
        schema@.find_typedef(name@) is None ==> (schema@.find_table(name@) matches Some(k) ==> (
        r matches Ok(d) && d@ == (DataTypeView::ForeignKey {
            table: k as nat,
            property: schema@.tables[k].primary_key.name,
        }))),
{
    match schema.typedef_index(name) {
        Some(k) => Ok(schema.type_defs[k].data_type.clone()),
        None => match schema.table_index(name) {
            Some(k) => Ok(
                DataType::ForeignKey {
                    table: k,
                    property: schema.tables[k].primary_key.name.clone(),
                },
            ),
            None => DataType::builtin(name, specifier),
        },
    }
}

/// Reads a property at `at`: an optional `+`, `name = type`, and an optional
/// specifier. The flag of the answer says whether the `+` was there.
pub fn parse_property(tokens: &[Token], at: usize, schema: &Schema) -> (r: Result<
    Option<(Property, bool, usize)>,
    ParseError,
>)
    ensures
        match property_at(tokens.deep_view(), at as int, schema@) {
            Ok(Some((v, marked, n))) => r matches Ok(Some((p, m, consumed))) && p@ == v && m
                == marked && consumed == n && 3 <= n && at + n <= tokens.len(),
            Ok(None) => r matches Ok(None),
            Err(e) => r matches Err(x) && x == e,
        },
{
    let marked = symbol_at(tokens, at, 0, &Token::PrimaryKey);
    let m: usize = if marked {
        1
    } else {
        0
    };
    let name = match word_token(tokens, at, m) {
        Some(w) => w,
        None => return Ok(None),
    };
    if !symbol_at(tokens, at, m + 1, &Token::Eq) {
        return Ok(None);
    }
    let declared = match word_token(tokens, at, m + 2) {
        Some(w) => w,
        None => return Ok(None),
    };
    let (specifier, len) = match parse_specifier(tokens, at + m + 3) {
        Some((s, n)) => (Some(s), n),
        None => (None, 0),
    };
    match resolve(schema, declared.as_str(), specifier) {
        Ok(data_type) => Ok(
            Some((Property { name: name.clone(), data_type }, marked, m + 3 + len)),
        ),
        Err(_) => Err(fail(ParseFault::Reference(ReferenceError::UnknownType), at + m + 2)),
    }
}

/// Reads a table at `at`: `table name {`, the properties that follow, and the
/// closing `}` if it is the next token.
///
/// Exactly one property has to carry the primary-key marker: with none the
/// answer is [`SchemaError::MissingPrimaryKey`] at `at`, and a second marker
/// is [`SchemaError::DuplicatePrimaryKey`] at its own position.
pub fn parse_table(tokens: &[Token], at: usize, schema: &Schema) -> (r: Result<
    Option<(Table, usize)>,
    ParseError,
>)
    ensures
        answers(r, table_at(tokens.deep_view(), at as int, schema@)),
        r matches Ok(Some((table, n))) ==> table@.wf() && 3 <= n && at + n <= tokens.len(),
{
    if !symbol_at(tokens, at, 0, &Token::Keyword(Keyword::Table)) {
        return Ok(None);
    }
    let name = match word_token(tokens, at, 1) {
        Some(w) => w,
        None => return Ok(None),
    };
    if !symbol_at(tokens, at, 2, &Token::OpenBrace) {
        return Ok(None);
    }
    let ghost tv = tokens.deep_view();
    let ghost sv = schema@;
    let mut properties: Vec<Property> = Vec::new();
    let mut key: Option<Property> = None;
    let mut j: usize = at + 3;
    assert(properties.deep_view() =~= Seq::<PropertyView>::empty());
    loop
        invariant
            at + 3 <= j <= tokens.len(),
            tv == tokens.deep_view(),
            sv == schema@,
            has_token(tv, at as int, TokenView::Keyword(Keyword::Table)),
            has_word(tv, at + 1),
            name@ == word_at(tv, at + 1),
            has_token(tv, at + 2, TokenView::OpenBrace),
            properties_from(tv, at + 3, sv, Seq::empty(), None) == properties_from(
                tv,
                j as int,
                sv,
                properties.deep_view(),
                key.deep_view(),
            ),
        decreases tokens.len() - j,
    {
        match parse_property(tokens, j, schema) {
            Err(e) => {
                return Err(e);
            },
            Ok(None) => {
                proof {
                    lemma_table_has_its_key(tv, at as int, sv);
                }
                let next = if symbol_at(tokens, j, 0, &Token::CloseBrace) {
                    j + 1
                } else {
                    j
                };
                return match key {
                    Some(primary_key) => Ok(
                        Some((Table { name: name.clone(), primary_key, properties }, next - at)),
                    ),
                    None => Err(fail(ParseFault::Schema(SchemaError::MissingPrimaryKey), at)),
                };
            },
            Ok(Some((property, marked, n))) => {
                if marked && key.is_some() {
                    return Err(fail(ParseFault::Schema(SchemaError::DuplicatePrimaryKey), j));
                }
                let ghost before = properties.deep_view();
                if marked {
                    key = Some(property.clone());
                }
                properties.push(property);
                assert(properties.deep_view() =~= before.push(property@));
                j += n;
            },
        }
    }
}

/// Reads a ratio at `at`: `first -> ( spec )` or `first -> second ( spec )`.
///
/// A name that is not the name of a table of `schema` is a
/// [`ReferenceError::UnknownTable`] at the position of the name, so a ratio
/// that is returned holds copies of declared tables only. What follows `->`
/// in any other shape is a [`SchemaError`].
pub fn parse_ratio(tokens: &[Token], at: usize, schema: &Schema) -> (r: Result<
    Option<(Ratio, usize)>,
    ParseError,
>)
    ensures
        answers(r, ratio_at(tokens.deep_view(), at as int, schema@)),
        r matches Ok(Some((ratio, n))) ==> {
            &&& schema@.declares(ratio@.first)
            &&& ratio@.second matches Some(second) ==> schema@.declares(second)
            &&& 5 <= n && at + n <= tokens.len()
        },
{
    proof {
        lemma_ratio_needs_declared_tables(tokens.deep_view(), at as int, schema@);
    }
    let first_name = match word_token(tokens, at, 0) {
        Some(w) => w,
        None => return Ok(None),
    };
    if !symbol_at(tokens, at, 1, &Token::RatioDecl) {
        return Ok(None);
    }
    let first = match schema.table_index(first_name.as_str()) {
        Some(k) => k,
        None => return Err(fail(ParseFault::Reference(ReferenceError::UnknownTable), at)),
    };
    if symbol_at(tokens, at, 2, &Token::OpenParen) {
        if let Some(start) = number_token(tokens, at, 3) {
            return match parse_specifier_tail(tokens, at + 4, start) {
                Some((ratio, n)) => Ok(
                    Some((Ratio { first: schema.tables[first].clone(), second: None, ratio }, 4 + n)),
                ),
                None => Err(
                    fail(ParseFault::Schema(SchemaError::InvalidRatioSpecifier), at + 4),
                ),
            };
        }
    }
    if let Some(second_name) = word_token(tokens, at, 2) {
        if symbol_at(tokens, at, 3, &Token::OpenParen) {
            if let Some(start) = number_token(tokens, at, 4) {
                let second = match schema.table_index(second_name.as_str()) {
                    Some(k) => k,
                    None => return Err(
                        fail(ParseFault::Reference(ReferenceError::UnknownTable), at + 2),
                    ),
                };
                return match parse_specifier_tail(tokens, at + 5, start) {
                    Some((ratio, n)) => Ok(
                        Some(
                            (
                                Ratio {
                                    first: schema.tables[first].clone(),
                                    second: Some(schema.tables[second].clone()),
                                    ratio,
                                },
                                5 + n,
                            ),
                        ),
                    ),
                    None => Err(
                        fail(ParseFault::Schema(SchemaError::InvalidRatioSpecifier), at + 5),
                    ),
                };
            }
        }
    }
    Err(fail(ParseFault::Schema(SchemaError::InvalidRatioSyntax), at + 2))
}

/// A schema together with the positions of the tokens that belong to no
/// declaration, in rising order.
#[derive(Debug, PartialEq)]
pub struct Parsed {
    pub schema: Schema,
    pub skipped: Vec<usize>,
}

/// Parses a whole token sequence and reports the tokens that were passed over.
///
/// The tokens are scanned once from the left. At each position a type alias,
/// a table and a ratio are tried, against the schema built so far; a match
/// adds its item to the schema and the scan goes on behind its last token.
/// Where none matches, the token is passed over and its position is noted.
/// The first error ends the scan, and nothing of the schema is returned.
pub fn parse_with_diagnostics(tokens: &[Token]) -> (r: Result<Parsed, ParseError>)
    ensures
        match parse_spec(tokens.deep_view()) {
            Ok((schema, skipped)) => r matches Ok(p) && p.schema@ == schema && p.skipped@
                == skipped,
            Err(e) => r matches Err(x) && x == e,
        },
        r matches Ok(p) ==> p.schema@.wf(),
{
    proof {
        lemma_parsed_schema_is_wf(tokens.deep_view());
    }
    let ghost tv = tokens.deep_view();
    let mut schema = Schema::new();
    let mut skipped: Vec<usize> = Vec::new();
    let mut at: usize = 0;
    while at < tokens.len()
        invariant
            at <= tokens.len(),
            tv == tokens.deep_view(),
            parse_spec(tv) == parse_from(tv, at as int, schema@, skipped@),
        decreases tokens.len() - at,
    {
        let ghost before = schema@;
        match parse_typedef(tokens, at) {
            Err(e) => {
                return Err(e);
            },
            Ok(Some((d, n))) => {
                schema.type_defs.push(d);
                assert(schema@.type_defs =~= before.type_defs.push(d@));
                assert(schema@ == before.with_typedef(d@));
                at += n;
                continue ;
            },
            Ok(None) => {},
        }
        match parse_table(tokens, at, &schema) {
            Err(e) => {
                return Err(e);
            },
            Ok(Some((t, n))) => {
                schema.tables.push(t);
                assert(schema@.tables =~= before.tables.push(t@));
                assert(schema@ == before.with_table(t@));
                at += n;
                continue ;
            },
            Ok(None) => {},
        }
        match parse_ratio(tokens, at, &schema) {
            Err(e) => {
                return Err(e);
            },
            Ok(Some((r, n))) => {
                schema.ratios.push(r);
                assert(schema@.ratios =~= before.ratios.push(r@));
                assert(schema@ == before.with_ratio(r@));
                at += n;
                continue ;
            },
            Ok(None) => {},
        }
        skipped.push(at);
        at += 1;
    }
    Ok(Parsed { schema, skipped })
}

/// Parses a whole token sequence into a schema, as
/// [`parse_with_diagnostics`] does, and drops the positions of the tokens
/// that were passed over.
pub fn parse_tokens(tokens: Vec<Token>) -> (r: Result<Schema, ParseError>)
    ensures
        match parse_spec(tokens.deep_view()) {
            Ok((schema, _)) => r matches Ok(s) && s@ == schema,
            Err(e) => r matches Err(x) && x == e,
        },
        r matches Ok(s) ==> s@.wf(),
{
    let slice = tokens.as_slice();
    assert(slice.deep_view() =~= tokens.deep_view());
    match parse_with_diagnostics(slice) {
        Ok(parsed) => Ok(parsed.schema),
        Err(e) => Err(e),
    }
}

} // verus!
