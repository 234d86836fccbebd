//! What holds of the productions of `grammar` on every token sequence.

use crate::error::{ParseFault, ReferenceError};
use crate::grammar::{
    error_at, has_number, has_token, has_word, lemma_table_at_bounds, marked_at, parse_from,
    parse_spec, properties_from, property_at, ratio_at, resolve_type, specifier_at, specifier_of,
    table_at, typedef_at, word_at,
};
use crate::schema::{
    builtin_type, lemma_table_from, lemma_typedef_from, DataTypeView, PropertyView, SchemaView,
    Specifier, TableView,
};
use crate::token::TokenView;
use vstd::prelude::*;

verus! {

/// A range keeps the order in which its two ends were written: `( a .. b )`
/// is `Range(a, b)`, whether or not `a` is at most `b`.
pub proof fn lemma_range_keeps_order(tokens: Seq<TokenView>, at: int, a: u32, b: u32)
    requires
        has_token(tokens, at, TokenView::OpenParen),
        has_token(tokens, at + 1, TokenView::Number(a)),
        has_token(tokens, at + 2, TokenView::RangeDecl),
        has_token(tokens, at + 3, TokenView::Number(b)),
        has_token(tokens, at + 4, TokenView::CloseParen),
    ensures
        specifier_at(tokens, at) == Some((Specifier::Range(a, b), 5nat)),
{
}

/// A built-in type name never denotes a reference to a table.
pub proof fn lemma_builtin_is_plain(name: Seq<char>, specifier: Option<Specifier>)
    ensures
        builtin_type(name, specifier) matches Some(t) ==> !(t is ForeignKey),
{
}

/// The name of a type alias denotes the type of the first alias of that name,
/// exactly, whatever specifier stands beside it.
pub proof fn lemma_alias_decides(schema: SchemaView, name: Seq<char>, specifier: Option<Specifier>)
    requires
        exists|d: int| 0 <= d < schema.type_defs.len() && schema.type_defs[d].name == name,
    ensures
        schema.find_typedef(name) matches Some(k) && 0 <= k < schema.type_defs.len()
            && schema.type_defs[k].name == name && resolve_type(schema, name, specifier) == Some(
            schema.type_defs[k].data_type,
        ),
{
    lemma_typedef_from(schema, name, 0);
}

/// A name that is the name of a table, and of no type alias, denotes a
/// reference to the first table of that name and to its primary key, whatever
/// specifier stands beside it.
pub proof fn lemma_table_name_is_foreign_key(
    schema: SchemaView,
    name: Seq<char>,
    specifier: Option<Specifier>,
)
    requires
        forall|d: int| 0 <= d < schema.type_defs.len() ==> schema.type_defs[d].name != name,
        exists|t: int| 0 <= t < schema.tables.len() && schema.tables[t].name == name,
    ensures
        schema.find_table(name) matches Some(k) && 0 <= k < schema.tables.len()
            && schema.tables[k].name == name && resolve_type(schema, name, specifier) == Some(
            DataTypeView::ForeignKey {
                table: k as nat,
                property: schema.tables[k].primary_key.name,
            },
        ),
{
    lemma_typedef_from(schema, name, 0);
    lemma_table_from(schema, name, 0);
}

/// The type name that the property at `at` declares.
pub open spec fn declared_type_at(tokens: Seq<TokenView>, at: int) -> Seq<char> {
    if marked_at(tokens, at) {
        word_at(tokens, at + 3)
    } else {
        word_at(tokens, at + 2)
    }
}

/// A property whose declared type name is the name of a type alias has the
/// type of the first alias of that name, whatever specifier the property
/// has.
pub proof fn lemma_property_of_alias(tokens: Seq<TokenView>, at: int, schema: SchemaView)
    requires
        exists|d: int|
            0 <= d < schema.type_defs.len() && schema.type_defs[d].name == declared_type_at(
                tokens,
                at,
            ),
    ensures
        property_at(tokens, at, schema) matches Ok(Some((property, _, _))) ==> schema.find_typedef(
            declared_type_at(tokens, at),
        ) matches Some(k) && 0 <= k < schema.type_defs.len() && schema.type_defs[k].name
            == declared_type_at(tokens, at) && property.data_type
            == schema.type_defs[k].data_type,
{
    lemma_typedef_from(schema, declared_type_at(tokens, at), 0);
}

/// A property whose declared type name is the name of a table, and of no
/// type alias, is a foreign key: it refers to the first table of that name
/// and names the primary key of that table.
pub proof fn lemma_property_of_table(tokens: Seq<TokenView>, at: int, schema: SchemaView)
    requires
        forall|d: int|
            0 <= d < schema.type_defs.len() ==> schema.type_defs[d].name != declared_type_at(
                tokens,
                at,
            ),
        exists|t: int|
            0 <= t < schema.tables.len() && schema.tables[t].name == declared_type_at(tokens, at),
    ensures
        property_at(tokens, at, schema) matches Ok(Some((property, _, _))) ==> schema.find_table(
            declared_type_at(tokens, at),
        ) matches Some(k) && 0 <= k < schema.tables.len() && schema.tables[k].name
            == declared_type_at(tokens, at) && property.data_type == (DataTypeView::ForeignKey {
            table: k as nat,
            property: schema.tables[k].primary_key.name,
        }),
{
    lemma_typedef_from(schema, declared_type_at(tokens, at), 0);
    lemma_table_from(schema, declared_type_at(tokens, at), 0);
}

/// A ratio never holds a table that has not been declared. Where `first ->`
/// stands and `first` is not the name of a table, the answer is a reference
/// error at `first`; where `first -> second ( n` stands, `first` is the name
/// of a table and `second` is not, it is a reference error at `second`; and
/// a ratio that is returned holds tables of the schema, under the names that
/// were written.
pub proof fn lemma_ratio_needs_declared_tables(
    tokens: Seq<TokenView>,
    at: int,
    schema: SchemaView,
)
    ensures
        has_word(tokens, at) && has_token(tokens, at + 1, TokenView::RatioDecl) && (forall|t: int|
            0 <= t < schema.tables.len() ==> schema.tables[t].name != word_at(tokens, at))
            ==> (ratio_at(tokens, at, schema) matches Err(e) && e == error_at(
            ParseFault::Reference(ReferenceError::UnknownTable),
            at,
        )),
        has_word(tokens, at) && has_token(tokens, at + 1, TokenView::RatioDecl) && (exists|t: int|
            0 <= t < schema.tables.len() && schema.tables[t].name == word_at(tokens, at))
            && has_word(tokens, at + 2) && has_token(tokens, at + 3, TokenView::OpenParen)
            && has_number(tokens, at + 4) && (forall|t: int|
            0 <= t < schema.tables.len() ==> schema.tables[t].name != word_at(tokens, at + 2))
            ==> (ratio_at(tokens, at, schema) matches Err(e) && e == error_at(
            ParseFault::Reference(ReferenceError::UnknownTable),
            at + 2,
        )),
        ratio_at(tokens, at, schema) matches Ok(Some((ratio, _))) ==> {
            &&& schema.declares(ratio.first)
            &&& ratio.first.name == word_at(tokens, at)
            &&& ratio.second matches Some(second) ==> schema.declares(second) && second.name
                == word_at(tokens, at + 2)
        },
{
    if has_word(tokens, at) {
        lemma_table_from(schema, word_at(tokens, at), 0);
    }
    if has_word(tokens, at + 2) {
        lemma_table_from(schema, word_at(tokens, at + 2), 0);
    }
}

/// Whether the property that carried the marker, if there was one, is among
/// the properties `done`.
pub open spec fn key_is_among(done: Seq<PropertyView>, key: Option<PropertyView>) -> bool {
    key matches Some(k) ==> exists|i: int| 0 <= i < done.len() && done[i] == k
}

/// The property that carried the marker stays among the properties of a
/// table body.
pub proof fn lemma_key_stays_among_properties(
    tokens: Seq<TokenView>,
    at: int,
    schema: SchemaView,
    done: Seq<PropertyView>,
    key: Option<PropertyView>,
)
    requires
        key_is_among(done, key),
    ensures
        properties_from(tokens, at, schema, done, key) matches Ok((properties, primary_key, _))
            ==> key_is_among(properties, primary_key),
    decreases tokens.len() - at,
{
    match property_at(tokens, at, schema) {
        Ok(Some((property, marked, n))) => {
            if !(marked && key is Some) {
                let next = done.push(property);
                assert(next[done.len() as int] == property);
                if let Some(k) = key {
                    let i = choose|i: int| 0 <= i < done.len() && done[i] == k;
                    assert(next[i] == k);
                }
                lemma_key_stays_among_properties(
                    tokens,
                    at + n,
                    schema,
                    next,
                    if marked {
                        Some(property)
                    } else {
                        key
                    },
                );
            }
        },
        _ => {},
    }
}

/// Every table that is parsed has its primary key among its properties, with
/// the same name and type.
pub proof fn lemma_table_has_its_key(tokens: Seq<TokenView>, at: int, schema: SchemaView)
    ensures
        table_at(tokens, at, schema) matches Ok(Some((table, _))) ==> table.wf(),
{
    lemma_key_stays_among_properties(tokens, at + 3, schema, Seq::empty(), None);
}

/// Whether each property of `done` that refers to a table refers to a table
/// of `schema` and names its primary key.
pub open spec fn all_refer_back(schema: SchemaView, done: Seq<PropertyView>) -> bool {
    forall|p: int|
        0 <= p < done.len() ==> schema.refers_back(
            (#[trigger] done[p]).data_type,
            schema.tables.len() as int,
        )
}

/// In a well-formed schema a type name resolves to a type that, if it refers
/// to a table, refers to a table of the schema and names its primary key.
pub proof fn lemma_resolve_refers_back(
    schema: SchemaView,
    name: Seq<char>,
    specifier: Option<Specifier>,
)
    requires
        schema.wf(),
    ensures
        resolve_type(schema, name, specifier) matches Some(t) ==> schema.refers_back(
            t,
            schema.tables.len() as int,
        ),
{
    lemma_typedef_from(schema, name, 0);
    lemma_table_from(schema, name, 0);
}

/// The properties of a table body that is read against a well-formed schema
/// refer to tables of that schema only.
pub proof fn lemma_properties_refer_back(
    tokens: Seq<TokenView>,
    at: int,
    schema: SchemaView,
    done: Seq<PropertyView>,
    key: Option<PropertyView>,
)
    requires
        schema.wf(),
        all_refer_back(schema, done),
    ensures
        properties_from(tokens, at, schema, done, key) matches Ok((properties, _, _))
            ==> all_refer_back(schema, properties),
    decreases tokens.len() - at,
{
    match property_at(tokens, at, schema) {
        Ok(Some((property, marked, n))) => {
            if !(marked && key is Some) {
                let next = done.push(property);
                lemma_resolve_refers_back(
                    schema,
                    declared_type_at(tokens, at),
                    specifier_of(
                        specifier_at(
                            tokens,
                            if marked_at(tokens, at) {
                                at + 4
                            } else {
                                at + 3
                            },
                        ),
                    ),
                );
                assert forall|p: int| 0 <= p < next.len() implies schema.refers_back(
                    (#[trigger] next[p]).data_type,
                    schema.tables.len() as int,
                ) by {
                    if p < done.len() {
                        assert(next[p] == done[p]);
                    } else {
                        assert(next[p] == property);
                    }
                }
                lemma_properties_refer_back(
                    tokens,
                    at + n,
                    schema,
                    next,
                    if marked {
                        Some(property)
                    } else {
                        key
                    },
                );
            }
        },
        _ => {},
    }
}

/// A table that is parsed against a well-formed schema extends it to a
/// well-formed schema.
pub proof fn lemma_table_extends(tokens: Seq<TokenView>, at: int, schema: SchemaView)
    requires
        schema.wf(),
    ensures
        table_at(tokens, at, schema) matches Ok(Some((table, _))) ==> schema.with_table(
            table,
        ).wf(),
{
    if let Ok(Some((table, _))) = table_at(tokens, at, schema) {
        lemma_table_has_its_key(tokens, at, schema);
        lemma_properties_refer_back(tokens, at + 3, schema, Seq::empty(), None);
        let grown = schema.with_table(table);
        let n = schema.tables.len() as int;
        assert(grown.tables[n] == table);
        assert forall|t: int| 0 <= t < grown.tables.len() implies (#[trigger] grown.tables[t]).wf() by {
            if t < n {
                assert(grown.tables[t] == schema.tables[t]);
            }
        }
        assert forall|t: int, p: int|
            0 <= t < grown.tables.len() && 0 <= p < grown.tables[t].properties.len()
            implies grown.refers_back((#[trigger] grown.tables[t].properties[p]).data_type, t) by {
            if t < n {
                assert(grown.tables[t] == schema.tables[t]);
                assert(schema.refers_back(schema.tables[t].properties[p].data_type, t));
            } else {
                assert(schema.refers_back(table.properties[p].data_type, n));
            }
        }
        assert forall|r: int| 0 <= r < grown.ratios.len() implies {
            &&& grown.declares((#[trigger] grown.ratios[r]).first)
            &&& grown.ratios[r].second matches Some(second) ==> grown.declares(second)
        } by {
            lemma_declares_grows(schema, table, schema.ratios[r].first);
            if let Some(second) = schema.ratios[r].second {
                lemma_declares_grows(schema, table, second);
            }
        }
    }
}

/// A table of a schema is a table of the schema with one more table.
pub proof fn lemma_declares_grows(schema: SchemaView, added: TableView, t: TableView)
    requires
        schema.declares(t),
    ensures
        schema.with_table(added).declares(t),
{
    let k = choose|k: int| 0 <= k < schema.tables.len() && schema.tables[k] == t;
    assert(schema.with_table(added).tables[k] == t);
}

/// A type alias that is parsed extends a well-formed schema to a well-formed
/// schema.
pub proof fn lemma_typedef_extends(tokens: Seq<TokenView>, at: int, schema: SchemaView)
    requires
        schema.wf(),
    ensures
        typedef_at(tokens, at) matches Ok(Some((alias, _))) ==> schema.with_typedef(alias).wf(),
{
    if let Ok(Some((alias, _))) = typedef_at(tokens, at) {
        let grown = schema.with_typedef(alias);
        assert forall|d: int| 0 <= d < grown.type_defs.len() implies (
        #[trigger] grown.type_defs[d]).data_type !is ForeignKey by {
            if d < schema.type_defs.len() {
                assert(grown.type_defs[d] == schema.type_defs[d]);
            }
        }
        assert forall|r: int| 0 <= r < grown.ratios.len() implies {
            &&& grown.declares((#[trigger] grown.ratios[r]).first)
            &&& grown.ratios[r].second matches Some(second) ==> grown.declares(second)
        } by {
            let first = schema.ratios[r].first;
            let k = choose|k: int| 0 <= k < schema.tables.len() && schema.tables[k] == first;
            assert(grown.tables[k] == first);
            if let Some(second) = schema.ratios[r].second {
                let j = choose|j: int| 0 <= j < schema.tables.len() && schema.tables[j] == second;
                assert(grown.tables[j] == second);
            }
        }
    }
}

/// A ratio that is parsed extends a well-formed schema to a well-formed
/// schema.
pub proof fn lemma_ratio_extends(tokens: Seq<TokenView>, at: int, schema: SchemaView)
    requires
        schema.wf(),
    ensures
        ratio_at(tokens, at, schema) matches Ok(Some((ratio, _))) ==> schema.with_ratio(
            ratio,
        ).wf(),
{
    if let Ok(Some((ratio, _))) = ratio_at(tokens, at, schema) {
        lemma_ratio_needs_declared_tables(tokens, at, schema);
        let grown = schema.with_ratio(ratio);
        assert(grown.tables == schema.tables);
        assert forall|r: int| 0 <= r < grown.ratios.len() implies {
            &&& grown.declares((#[trigger] grown.ratios[r]).first)
            &&& grown.ratios[r].second matches Some(second) ==> grown.declares(second)
        } by {
            if r < schema.ratios.len() {
                assert(grown.ratios[r] == schema.ratios[r]);
                let first = schema.ratios[r].first;
                let k = choose|k: int| 0 <= k < schema.tables.len() && schema.tables[k] == first;
                assert(grown.tables[k] == first);
                if let Some(second) = schema.ratios[r].second {
                    let j = choose|j: int|
                        0 <= j < schema.tables.len() && schema.tables[j] == second;
                    assert(grown.tables[j] == second);
                }
            } else {
                assert(grown.ratios[r] == ratio);
                let k = choose|k: int|
                    0 <= k < schema.tables.len() && schema.tables[k] == ratio.first;
                assert(grown.tables[k] == ratio.first);
                if let Some(second) = ratio.second {
                    let j = choose|j: int|
                        0 <= j < schema.tables.len() && schema.tables[j] == second;
                    assert(grown.tables[j] == second);
                }
            }
        }
    }
}

/// The scan keeps a schema well formed.
pub proof fn lemma_parse_from_wf(
    tokens: Seq<TokenView>,
    at: int,
    schema: SchemaView,
    skipped: Seq<usize>,
)
    requires
        schema.wf(),
    ensures
        parse_from(tokens, at, schema, skipped) matches Ok((parsed, _)) ==> parsed.wf(),
    decreases tokens.len() - at,
{
    if 0 <= at < tokens.len() {
        lemma_typedef_extends(tokens, at, schema);
        lemma_table_extends(tokens, at, schema);
        lemma_table_at_bounds(tokens, at, schema);
        lemma_ratio_extends(tokens, at, schema);
        match typedef_at(tokens, at) {
            Err(e) => {},
            Ok(Some((d, n))) => {
                lemma_parse_from_wf(tokens, at + n, schema.with_typedef(d), skipped);
            },
            Ok(None) => match table_at(tokens, at, schema) {
                Err(e) => {},
                Ok(Some((t, n))) => {
                    lemma_parse_from_wf(tokens, at + n, schema.with_table(t), skipped);
                },
                Ok(None) => match ratio_at(tokens, at, schema) {
                    Err(e) => {},
                    Ok(Some((r, n))) => {
                        lemma_parse_from_wf(tokens, at + n, schema.with_ratio(r), skipped);
                    },
                    Ok(None) => {
                        lemma_parse_from_wf(tokens, at + 1, schema, skipped.push(at as usize));
                    },
                },
            },
        }
    }
}

/// Every schema that a token sequence describes is well formed: each of its
/// tables has its primary key among its properties, with the same name and
/// type; a property that refers to a table refers to one declared before its
/// own table and names the primary key of that table; and each ratio holds
/// tables of the schema.
pub proof fn lemma_parsed_schema_is_wf(tokens: Seq<TokenView>)
    ensures
        parse_spec(tokens) matches Ok((schema, _)) ==> schema.wf(),
{
    lemma_parse_from_wf(tokens, 0, SchemaView::empty(), Seq::empty());
}

/// In a table whose primary key is among its properties, exactly one
/// property equals the primary key, unless two properties of the table have
/// both the name and the type of the primary key.
pub proof fn lemma_primary_key_is_one_property(table: TableView)
    requires
        table.wf(),
        forall|i: int, j: int|
            0 <= i < j < table.properties.len() ==> !(table.properties[i] == table.primary_key
                && table.properties[j] == table.primary_key),
    ensures
        exists|k: int|
            0 <= k < table.properties.len() && table.properties[k] == table.primary_key
                && forall|j: int|
                0 <= j < table.properties.len() && table.properties[j] == table.primary_key ==> j
                    == k,
{
    let k = choose|k: int| 0 <= k < table.properties.len() && table.properties[k] == table.primary_key;
    assert forall|j: int|
        0 <= j < table.properties.len() && table.properties[j] == table.primary_key implies j
        == k by {
        if j < k {
            assert(!(table.properties[j] == table.primary_key && table.properties[k]
                == table.primary_key));
        } else if k < j {
            assert(!(table.properties[k] == table.primary_key && table.properties[j]
                == table.primary_key));
        }
    }
}

} // verus!
