use schema_lang::chars::{
    char_digit_value, char_is_alphanumeric, char_is_digit, char_is_whitespace,
};
use schema_lang::text::str_eq;
use schema_lang::{
    DataType, Keyword, Property, ReferenceError, Schema, Specifier, Table, Token, TypeDef,
};

fn alias(name: &str, data_type: DataType) -> TypeDef {
    TypeDef { name: name.to_string(), data_type }
}

fn table(name: &str, key: &str) -> Table {
    let id = Property { name: key.to_string(), data_type: DataType::GUIDv4 };
    Table { name: name.to_string(), primary_key: id.clone(), properties: vec![id] }
}

#[test]
fn built_in_type_names() {
    let s = Some(Specifier::Range(3, 1));
    let parse = |name: &str| DataType::parse_from_string(name.to_string(), s);
    assert_eq!(parse("int"), Ok(DataType::Int(Specifier::Range(3, 1))));
    assert_eq!(parse("GUIDv4"), Ok(DataType::GUIDv4));
    assert_eq!(parse("FirstName"), Ok(DataType::FirstName));
    assert_eq!(parse("LastName"), Ok(DataType::LastName));
    assert_eq!(parse("CountryISO"), Ok(DataType::CountryISO));
    assert_eq!(parse("PhoneNo"), Ok(DataType::PhoneNo));
    assert_eq!(parse("Email"), Ok(DataType::Email));
    assert_eq!(parse("string"), Ok(DataType::String(Specifier::Range(3, 1))));
}

#[test]
fn a_missing_specifier_counts_as_zero() {
    assert_eq!(
        DataType::parse_from_string("int".to_string(), None),
        Ok(DataType::Int(Specifier::Const(0)))
    );
    assert_eq!(
        DataType::parse_from_string("string".to_string(), None),
        Ok(DataType::String(Specifier::Const(0)))
    );
    assert_eq!(DataType::builtin("string", None), Ok(DataType::String(Specifier::Const(0))));
}

#[test]
fn other_names_are_unknown_types() {
    for name in ["", "Int", "INT", "int ", "guidv4", "strin", "strings", "Parent", "i"] {
        assert_eq!(
            DataType::parse_from_string(name.to_string(), Some(Specifier::Const(1))),
            Err(ReferenceError::UnknownType)
        );
    }
}

#[test]
fn lookups_find_the_first_of_a_name() {
    let schema = Schema {
        type_defs: vec![
            alias("A", DataType::Email),
            alias("B", DataType::PhoneNo),
            alias("A", DataType::GUIDv4),
        ],
        ratios: vec![],
        tables: vec![table("T", "x"), table("U", "y"), table("U", "z")],
    };
    assert_eq!(schema.contains_typedef("A"), Some(&alias("A", DataType::Email)));
    assert_eq!(schema.contains_typedef("B"), Some(&alias("B", DataType::PhoneNo)));
    assert_eq!(schema.contains_typedef("C"), None);
    assert_eq!(schema.contains_typedef("T"), None);
    assert_eq!(schema.typedef_index("A"), Some(0));
    assert_eq!(schema.typedef_index("B"), Some(1));
    assert_eq!(schema.typedef_index(""), None);
    assert_eq!(schema.contains_table("U"), Some(&table("U", "y")));
    assert_eq!(schema.contains_table("T"), Some(&table("T", "x")));
    assert_eq!(schema.contains_table("A"), None);
    assert_eq!(schema.table_index("U"), Some(1));
    assert_eq!(schema.table_index("u"), None);
}

#[test]
fn lookups_in_the_empty_schema_find_nothing() {
    let schema = Schema::new();
    assert_eq!(schema, Schema { type_defs: vec![], ratios: vec![], tables: vec![] });
    assert_eq!(schema.contains_typedef("A"), None);
    assert_eq!(schema.contains_table("A"), None);
}

#[test]
fn clones_are_equal() {
    let t = Table {
        name: "T".to_string(),
        primary_key: Property { name: "k".to_string(), data_type: DataType::Int(Specifier::Const(2)) },
        properties: vec![
            Property { name: "k".to_string(), data_type: DataType::Int(Specifier::Const(2)) },
            Property {
                name: "f".to_string(),
                data_type: DataType::ForeignKey { table: 4, property: "id".to_string() },
            },
        ],
    };
    assert_eq!(t.clone(), t);
    assert_eq!(t.properties[1].clone(), t.properties[1]);
    assert_eq!(t.properties[1].data_type.clone(), t.properties[1].data_type);
    let d = alias("A", DataType::String(Specifier::Range(1, 2)));
    assert_eq!(d.clone(), d);
    let w = Token::Word("abc".to_string());
    assert_eq!(w.clone(), w);
    assert_eq!(Token::Number(3).clone(), Token::Number(3));
}

#[test]
fn tokens_compare_by_kind_and_content() {
    let all = vec![
        Token::Keyword(Keyword::Table),
        Token::Keyword(Keyword::Type),
        Token::OpenBrace,
        Token::CloseBrace,
        Token::OpenParen,
        Token::CloseParen,
        Token::Number(1),
        Token::Number(2),
        Token::RangeDecl,
        Token::RatioDecl,
        Token::Eq,
        Token::Word("a".to_string()),
        Token::Word("b".to_string()),
        Token::Word("".to_string()),
        Token::PrimaryKey,
    ];
    for (i, a) in all.iter().enumerate() {
        for (j, b) in all.iter().enumerate() {
            assert_eq!(a.same_as(b), i == j);
            assert_eq!(a.same_as(b), a == b);
        }
    }
}

#[test]
fn strings_compare_by_their_characters() {
    assert!(str_eq("", ""));
    assert!(str_eq("table", "table"));
    assert!(str_eq("naïve", "naïve"));
    assert!(!str_eq("table", "tabl"));
    assert!(!str_eq("tabl", "table"));
    assert!(!str_eq("table", "tablE"));
    assert!(!str_eq("", "a"));
}

#[test]
fn character_classes() {
    for c in "0123456789".chars() {
        assert!(char_is_digit(c));
        assert!(char_is_alphanumeric(c));
    }
    for c in "azAZmQ".chars() {
        assert!(!char_is_digit(c));
        assert!(char_is_alphanumeric(c));
    }
    for c in "/:@[`{ _-é\u{0660}".chars() {
        assert!(!char_is_digit(c));
        assert!(!char_is_alphanumeric(c));
    }
    for c in " \t\n\r\x0C".chars() {
        assert!(char_is_whitespace(c));
    }
    for c in "\x0Ba0\u{00A0}\u{2003}".chars() {
        assert!(!char_is_whitespace(c));
    }
    assert_eq!(char_digit_value('0'), 0);
    assert_eq!(char_digit_value('7'), 7);
    assert_eq!(char_digit_value('9'), 9);
}

#[test]
fn character_classes_are_those_of_ascii() {
    for code in 0u32..0x3000 {
        if let Some(c) = char::from_u32(code) {
            assert_eq!(char_is_digit(c), c.is_ascii_digit());
            assert_eq!(char_is_alphanumeric(c), c.is_ascii_alphanumeric());
            assert_eq!(char_is_whitespace(c), c.is_ascii_whitespace());
        }
    }
}
