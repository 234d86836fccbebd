//! The productions of the schema language, as functions on token sequences.
//!
//! A production is tried at a position `at` of the token sequence, against the
//! schema built so far. It answers `Ok(None)` when the tokens there do not
//! have its leading shape, `Ok(Some((item, n)))` when it matched `n` tokens,
//! and `Err(e)` when the tokens have its leading shape and then violate it.

use crate::error::{ParseError, ParseFault, ReferenceError, SchemaError};
use crate::schema::{
    builtin_type, DataTypeView, PropertyView, RatioView, SchemaView, Specifier, TableView,
    TypeDefView,
};
use crate::token::{Keyword, TokenView};
use vstd::prelude::*;

verus! {

/// Whether position `at` holds exactly the token `t`.
pub open spec fn has_token(tokens: Seq<TokenView>, at: int, t: TokenView) -> bool {
    0 <= at < tokens.len() && tokens[at] == t
}

/// Whether position `at` holds a word.
pub open spec fn has_word(tokens: Seq<TokenView>, at: int) -> bool {
    0 <= at < tokens.len() && tokens[at] is Word
}

/// Whether position `at` holds a number.
pub open spec fn has_number(tokens: Seq<TokenView>, at: int) -> bool {
    0 <= at < tokens.len() && tokens[at] is Number
}

/// The word at position `at`.
pub open spec fn word_at(tokens: Seq<TokenView>, at: int) -> Seq<char>
    recommends
        has_word(tokens, at),
{
    tokens[at]->Word_0
}

/// The number at position `at`.
pub open spec fn number_at(tokens: Seq<TokenView>, at: int) -> u32
    recommends
        has_number(tokens, at),
{
    tokens[at]->Number_0
}

/// The error `fault` about the token at `position`.
pub open spec fn error_at(fault: ParseFault, position: int) -> ParseError {
    ParseError { fault, position: position as usize }
}

/// The rest of a specifier whose opening parenthesis and first number `first`
/// have been read: `)` closes a constant, `.. n )` a range from `first` to `n`.
pub open spec fn specifier_tail_at(tokens: Seq<TokenView>, at: int, first: u32) -> Option<
    (Specifier, nat),
> {
    if has_token(tokens, at, TokenView::CloseParen) {
        Some((Specifier::Const(first), 1))
    } else if has_token(tokens, at, TokenView::RangeDecl) && has_number(tokens, at + 1)
        && has_token(tokens, at + 2, TokenView::CloseParen) {
        Some((Specifier::Range(first, number_at(tokens, at + 1)), 3))
    } else {
        None
    }
}

/// A specifier: `( n )` or `( a .. b )`.
pub open spec fn specifier_at(tokens: Seq<TokenView>, at: int) -> Option<(Specifier, nat)> {
    if has_token(tokens, at, TokenView::OpenParen) && has_number(tokens, at + 1) {
        match specifier_tail_at(tokens, at + 2, number_at(tokens, at + 1)) {
            Some((s, n)) => Some((s, n + 2)),
            None => None,
        }
    } else {
        None
    }
}

/// The specifier of an optional specifier.
pub open spec fn specifier_of(found: Option<(Specifier, nat)>) -> Option<Specifier> {
    match found {
        Some((s, _)) => Some(s),
        None => None,
    }
}

/// The number of tokens of an optional specifier.
pub open spec fn specifier_len(found: Option<(Specifier, nat)>) -> nat {
    match found {
        Some((_, n)) => n,
        None => 0,
    }
}

/// A type alias: `type name base`, then an optional specifier. `base` has to
/// be a built-in type name.
pub open spec fn typedef_at(tokens: Seq<TokenView>, at: int) -> Result<
    Option<(TypeDefView, nat)>,
    ParseError,
> {
    if has_token(tokens, at, TokenView::Keyword(Keyword::Type)) && has_word(tokens, at + 1)
        && has_word(tokens, at + 2) {
        let found = specifier_at(tokens, at + 3);
        match builtin_type(word_at(tokens, at + 2), specifier_of(found)) {
            Some(data_type) => Ok(
                Some(
                    (
                        TypeDefView { name: word_at(tokens, at + 1), data_type },
                        3 + specifier_len(found),
                    ),
                ),
            ),
            None => Err(error_at(ParseFault::Reference(ReferenceError::UnknownType), at + 2)),
        }
    } else {
        Ok(None)
    }
}

/// The type that the name `name` denotes in a property of a table: that of
/// the first alias of that name, else a reference to the first table of that
/// name, else the built-in type of that name with the given specifier.
pub open spec fn resolve_type(
    schema: SchemaView,
    name: Seq<char>,
    specifier: Option<Specifier>,
) -> Option<DataTypeView> {
    match schema.find_typedef(name) {
        Some(k) => Some(schema.type_defs[k].data_type),
        None => match schema.find_table(name) {
            Some(k) => Some(
                DataTypeView::ForeignKey {
                    table: k as nat,
                    property: schema.tables[k].primary_key.name,
                },
            ),
            None => builtin_type(name, specifier),
        },
    }
}

/// Whether a property that starts at `at` carries the primary-key marker.
pub open spec fn marked_at(tokens: Seq<TokenView>, at: int) -> bool {
    has_token(tokens, at, TokenView::PrimaryKey)
}

/// A property: an optional `+`, then `name = type`, then an optional
/// specifier. The answer says whether the `+` was there.
pub open spec fn property_at(tokens: Seq<TokenView>, at: int, schema: SchemaView) -> Result<
    Option<(PropertyView, bool, nat)>,
    ParseError,
> {
    let m: int = if marked_at(tokens, at) {
        1
    } else {
        0
    };
    if has_word(tokens, at + m) && has_token(tokens, at + m + 1, TokenView::Eq) && has_word(
        tokens,
        at + m + 2,
    ) {
        let found = specifier_at(tokens, at + m + 3);
        match resolve_type(schema, word_at(tokens, at + m + 2), specifier_of(found)) {
            Some(data_type) => Ok(
                Some(
                    (
                        PropertyView { name: word_at(tokens, at + m), data_type },
                        m == 1,
                        (m + 3 + specifier_len(found)) as nat,
                    ),
                ),
            ),
            None => Err(
                error_at(ParseFault::Reference(ReferenceError::UnknownType), at + m + 2),
            ),
        }
    } else {
        Ok(None)
    }
}

/// The properties of a table body, read from `at` on for as long as a
/// property matches, after the properties `done`, of which `key` carried the
/// marker. The answer holds all properties, the marked one, and the position
/// of the first token that is no property.
pub open spec fn properties_from(
    tokens: Seq<TokenView>,
    at: int,
    schema: SchemaView,
    done: Seq<PropertyView>,
    key: Option<PropertyView>,
) -> Result<(Seq<PropertyView>, Option<PropertyView>, int), ParseError>
    decreases tokens.len() - at,
{
    match property_at(tokens, at, schema) {
        Err(e) => Err(e),
        Ok(None) => Ok((done, key, at)),
        Ok(Some((property, marked, n))) => {
            if marked && key is Some {
                Err(error_at(ParseFault::Schema(SchemaError::DuplicatePrimaryKey), at))
            } else {
                properties_from(
                    tokens,
                    at + n,
                    schema,
                    done.push(property),
                    if marked {
                        Some(property)
                    } else {
                        key
                    },
                )
            }
        },
    }
}

/// A table: `table name {`, then properties, then `}` if it is there. Exactly
/// one property has to carry the primary-key marker.
pub open spec fn table_at(tokens: Seq<TokenView>, at: int, schema: SchemaView) -> Result<
    Option<(TableView, nat)>,
    ParseError,
> {
    if has_token(tokens, at, TokenView::Keyword(Keyword::Table)) && has_word(tokens, at + 1)
        && has_token(tokens, at + 2, TokenView::OpenBrace) {
        match properties_from(tokens, at + 3, schema, Seq::empty(), None) {
            Err(e) => Err(e),
            Ok((properties, key, end)) => match key {
                None => Err(error_at(ParseFault::Schema(SchemaError::MissingPrimaryKey), at)),
                Some(primary_key) => {
                    let next = if has_token(tokens, end, TokenView::CloseBrace) {
                        end + 1
                    } else {
                        end
                    };
                    Ok(
                        Some(
                            (
                                TableView {
                                    name: word_at(tokens, at + 1),
                                    primary_key,
                                    properties,
                                },
                                (next - at) as nat,
                            ),
                        ),
                    )
                },
            },
        }
    } else {
        Ok(None)
    }
}

/// A matched specifier lies within the tokens.
pub proof fn lemma_specifier_at_bounds(tokens: Seq<TokenView>, at: int)
    ensures
        specifier_at(tokens, at) matches Some((_, n)) ==> 3 <= n && at + n <= tokens.len(),
{
}

/// A matched property has at least three tokens and lies within the tokens.
pub proof fn lemma_property_at_bounds(tokens: Seq<TokenView>, at: int, schema: SchemaView)
    ensures
        property_at(tokens, at, schema) matches Ok(Some((_, _, n))) ==> 3 <= n && 0 <= at && at
            + n <= tokens.len(),
{
}

/// The properties of a table body end at or after the position where they
/// start, and within the tokens.
pub proof fn lemma_properties_from_bounds(
    tokens: Seq<TokenView>,
    at: int,
    schema: SchemaView,
    done: Seq<PropertyView>,
    key: Option<PropertyView>,
)
    ensures
        properties_from(tokens, at, schema, done, key) matches Ok((_, _, end)) ==> at <= end && (
        end <= tokens.len() || end == at),
    decreases tokens.len() - at,
{
    match property_at(tokens, at, schema) {
        Ok(Some((property, marked, n))) => {
            if !(marked && key is Some) {
                lemma_properties_from_bounds(
                    tokens,
                    at + n,
                    schema,
                    done.push(property),
                    if marked {
                        Some(property)
                    } else {
                        key
                    },
                );
            }
        },
        _ => {},
    }
}

/// A matched table has at least three tokens and lies within the tokens.
pub proof fn lemma_table_at_bounds(tokens: Seq<TokenView>, at: int, schema: SchemaView)
    ensures
        table_at(tokens, at, schema) matches Ok(Some((_, n))) ==> 3 <= n && at + n
            <= tokens.len(),
{
    lemma_properties_from_bounds(tokens, at + 3, schema, Seq::empty(), None);
}

/// A ratio: `first ->`, then either a specifier, or `second` and a specifier.
/// Both names have to be those of tables declared before.
pub open spec fn ratio_at(tokens: Seq<TokenView>, at: int, schema: SchemaView) -> Result<
    Option<(RatioView, nat)>,
    ParseError,
> {
    if has_word(tokens, at) && has_token(tokens, at + 1, TokenView::RatioDecl) {
        match schema.find_table(word_at(tokens, at)) {
            None => Err(error_at(ParseFault::Reference(ReferenceError::UnknownTable), at)),
            Some(first) => {
                if has_token(tokens, at + 2, TokenView::OpenParen) && has_number(tokens, at + 3) {
                    match specifier_tail_at(tokens, at + 4, number_at(tokens, at + 3)) {
                        Some((ratio, n)) => Ok(
                            Some(
                                (
                                    RatioView { first: schema.tables[first], second: None, ratio },
                                    4 + n,
                                ),
                            ),
                        ),
                        None => Err(
                            error_at(
                                ParseFault::Schema(SchemaError::InvalidRatioSpecifier),
                                at + 4,
                            ),
                        ),
                    }
                } else if has_word(tokens, at + 2) && has_token(
                    tokens,
                    at + 3,
                    TokenView::OpenParen,
                ) && has_number(tokens, at + 4) {
                    match schema.find_table(word_at(tokens, at + 2)) {
                        None => Err(
                            error_at(
                                ParseFault::Reference(ReferenceError::UnknownTable),
                                at + 2,
                            ),
                        ),
                        Some(second) => match specifier_tail_at(
                            tokens,
                            at + 5,
                            number_at(tokens, at + 4),
                        ) {
                            Some((ratio, n)) => Ok(
                                Some(
                                    (
                                        RatioView {
                                            first: schema.tables[first],
                                            second: Some(schema.tables[second]),
                                            ratio,
                                        },
                                        5 + n,
                                    ),
                                ),
                            ),
                            None => Err(
                                error_at(
                                    ParseFault::Schema(SchemaError::InvalidRatioSpecifier),
                                    at + 5,
                                ),
                            ),
                        },
                    }
                } else {
                    Err(error_at(ParseFault::Schema(SchemaError::InvalidRatioSyntax), at + 2))
                }
            },
        }
    } else {
        Ok(None)
    }
}

/// The schema that the tokens from `at` on add to `schema`, and the positions
/// of the tokens that were passed over, after those in `skipped`. At each
/// position the three productions are tried; a match adds its item and moves
/// past its tokens, no match passes over one token.
pub open spec fn parse_from(
    tokens: Seq<TokenView>,
    at: int,
    schema: SchemaView,
    skipped: Seq<usize>,
) -> Result<(SchemaView, Seq<usize>), ParseError>
    decreases tokens.len() - at,
{
    if at < 0 || at >= tokens.len() {
        Ok((schema, skipped))
    } else {
        match typedef_at(tokens, at) {
            Err(e) => Err(e),
            Ok(Some((d, n))) => parse_from(tokens, at + n, schema.with_typedef(d), skipped),
            Ok(None) => match table_at(tokens, at, schema) {
                Err(e) => Err(e),
                Ok(Some((t, n))) => {
                    proof {
                        lemma_table_at_bounds(tokens, at, schema);
                    }
                    parse_from(tokens, at + n, schema.with_table(t), skipped)
                },
                Ok(None) => match ratio_at(tokens, at, schema) {
                    Err(e) => Err(e),
                    Ok(Some((r, n))) => parse_from(
                        tokens,
                        at + n,
                        schema.with_ratio(r),
                        skipped,
                    ),
                    Ok(None) => parse_from(tokens, at + 1, schema, skipped.push(at as usize)),
                },
            },
        }
    }
}

/// The schema that a token sequence describes, with the positions of the
/// tokens that belong to no declaration.
pub open spec fn parse_spec(tokens: Seq<TokenView>) -> Result<
    (SchemaView, Seq<usize>),
    ParseError,
> {
    parse_from(tokens, 0, SchemaView::empty(), Seq::empty())
}

} // verus!
