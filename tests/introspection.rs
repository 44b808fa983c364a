use sql_introspection::ast::{Embed, Field as AstField, Identifier, Span};
use sql_introspection::classify::{is_application_table, is_join_table, is_migration_table, is_relay_table};
use sql_introspection::connector_error::{render_usize, ConnectorError, ConnectorErrorFactory, ErrorKind};
use sql_introspection::datamodel::{Field, FieldArity, FieldType, Model, RelationField, ScalarType};
use sql_introspection::dedup::{clear_duplicates, same_foreign_key};
use sql_introspection::introspection::{introspect, IntrospectionError};
use sql_introspection::model_builder::build_model;
use sql_introspection::native_types::{
    validate_native_type, ConnectorCapabilities, FieldAttributes, NativeTypeConstructor,
};
use sql_introspection::schema::{Column, ColumnType, ForeignKey, ForeignKeyAction, Index, SqlSchema, Table};

fn ctor(name: &str, required: usize, optional: usize, tpe: ScalarType) -> NativeTypeConstructor {
    NativeTypeConstructor {
        name: name.to_string(),
        required_args: required,
        optional_args: optional,
        scalar_type: tpe,
        checks_scale: false,
        max_first_arg: None,
        range_message: String::new(),
        unique_allowed: true,
        id_allowed: true,
        index_allowed: true,
        sequential: false,
    }
}

fn caps() -> ConnectorCapabilities {
    let mut decimal = ctor("Decimal", 2, 0, ScalarType::Decimal);
    decimal.checks_scale = true;
    decimal.max_first_arg = Some(65);
    decimal.range_message = "M can range from 1 to 65.".to_string();
    let mut text = ctor("Text", 0, 0, ScalarType::String);
    text.unique_allowed = false;
    text.index_allowed = false;
    text.id_allowed = false;
    let mut serial = ctor("Serial", 0, 0, ScalarType::Int);
    serial.sequential = true;
    ConnectorCapabilities {
        connector_name: "postgres".to_string(),
        supports_native_types: true,
        constructors: vec![
            ctor("Int", 0, 0, ScalarType::Int),
            ctor("VarChar", 0, 1, ScalarType::String),
            decimal,
            text,
            serial,
        ],
    }
}

fn col(name: &str, native: &str, args: Vec<u64>, nullable: bool) -> Column {
    let full = if args.is_empty() {
        native.to_string()
    } else {
        format!("{}({})", native, args.iter().map(|a| a.to_string()).collect::<Vec<_>>().join(","))
    };
    Column {
        name: name.to_string(),
        tpe: ColumnType { full_data_type: full, native_name: native.to_string(), args },
        nullable,
        default: None,
    }
}

fn fk(cols: &[&str], table: &str, refs: &[&str]) -> ForeignKey {
    ForeignKey {
        columns: cols.iter().map(|c| c.to_string()).collect(),
        referenced_table: table.to_string(),
        referenced_columns: refs.iter().map(|c| c.to_string()).collect(),
        on_delete: ForeignKeyAction::NoAction,
    }
}

fn index(name: &str, cols: &[&str], unique: bool) -> Index {
    Index { name: name.to_string(), columns: cols.iter().map(|c| c.to_string()).collect(), unique }
}

fn table(name: &str, columns: Vec<Column>, pk: &[&str], fks: Vec<ForeignKey>, indices: Vec<Index>) -> Table {
    Table {
        name: name.to_string(),
        columns,
        indices,
        primary_key: pk.iter().map(|c| c.to_string()).collect(),
        foreign_keys: fks,
    }
}

fn model<'a>(models: &'a [Model], name: &str) -> &'a Model {
    models.iter().find(|m| m.name == name).expect("model")
}

fn relation_fields(m: &Model) -> Vec<&RelationField> {
    m.fields
        .iter()
        .filter_map(|f| match f {
            Field::RelationField(r) => Some(r),
            _ => None,
        })
        .collect()
}

fn users_posts() -> SqlSchema {
    SqlSchema {
        tables: vec![
            table(
                "users",
                vec![col("id", "Int", vec![], false), col("email", "VarChar", vec![255], false)],
                &["id"],
                vec![],
                vec![index("users_email_key", &["email"], true)],
            ),
            table(
                "posts",
                vec![col("id", "Int", vec![], false), col("user_id", "Int", vec![], false)],
                &["id"],
                vec![fk(&["user_id"], "users", &["id"])],
                vec![],
            ),
        ],
        enums: vec![],
    }
}

#[test]
fn users_and_posts_get_both_sides_of_the_relation() {
    let res = introspect(&users_posts(), &caps()).ok().expect("ok");
    let models = &res.datamodel.models;
    assert_eq!(models.len(), 2);
    let posts = model(models, "posts");
    let forward = relation_fields(posts);
    assert_eq!(forward.len(), 1);
    assert_eq!(forward[0].name, "users");
    assert_eq!(forward[0].relation_info.to, "users");
    assert_eq!(forward[0].arity, FieldArity::Required);
    assert_eq!(forward[0].relation_info.name, "postsTousers");
    let users = model(models, "users");
    let back = relation_fields(users);
    assert_eq!(back.len(), 1);
    assert_eq!(back[0].name, "posts");
    assert_eq!(back[0].relation_info.to, "posts");
    assert_eq!(back[0].arity, FieldArity::List);
    assert_eq!(back[0].relation_info.name, "postsTousers");
}

#[test]
fn single_column_unique_index_sets_flag_without_model_index() {
    let res = introspect(&users_posts(), &caps()).ok().expect("ok");
    let users = model(&res.datamodel.models, "users");
    match &users.fields[1] {
        Field::ScalarField(f) => {
            assert_eq!(f.name, "email");
            assert!(f.is_unique);
            assert_eq!(f.field_type, FieldType::Base(ScalarType::String));
        }
        _ => panic!("scalar field expected"),
    }
    assert!(users.indices.is_empty());
}

#[test]
fn composite_index_and_primary_key_are_kept() {
    let t = table(
        "memberships",
        vec![col("a", "Int", vec![], false), col("b", "Int", vec![], false)],
        &["a", "b"],
        vec![],
        vec![index("ab_unique", &["a", "b"], true), index("b_idx", &["b"], false)],
    );
    let schema = SqlSchema { tables: vec![], enums: vec![] };
    let mut warnings = Vec::new();
    let m = build_model(&caps(), &schema, &t, &mut warnings);
    assert_eq!(m.indices.len(), 2);
    assert_eq!(m.indices[0].name, "ab_unique");
    assert_eq!(m.indices[1].name, "b_idx");
    assert_eq!(m.id_fields, vec!["a".to_string(), "b".to_string()]);
    assert!(warnings.is_empty());
}

#[test]
fn join_table_becomes_list_fields_on_both_models() {
    let schema = SqlSchema {
        tables: vec![
            table("Category", vec![col("id", "Int", vec![], false)], &["id"], vec![], vec![]),
            table("Product", vec![col("id", "Int", vec![], false)], &["id"], vec![], vec![]),
            table(
                "_CategoryToProduct",
                vec![col("A", "Int", vec![], false), col("B", "Int", vec![], false)],
                &[],
                vec![fk(&["A"], "Category", &["id"]), fk(&["B"], "Product", &["id"])],
                vec![],
            ),
        ],
        enums: vec![],
    };
    let res = introspect(&schema, &caps()).ok().expect("ok");
    let models = &res.datamodel.models;
    assert_eq!(models.len(), 2);
    assert!(models.iter().all(|m| m.name != "_CategoryToProduct" && m.name != "CategoryToProduct"));
    let cat = relation_fields(model(models, "Category"));
    assert_eq!(cat.len(), 1);
    assert_eq!(cat[0].name, "Product");
    assert_eq!(cat[0].arity, FieldArity::List);
    assert_eq!(cat[0].relation_info.name, "CategoryToProduct");
    let prod = relation_fields(model(models, "Product"));
    assert_eq!(prod.len(), 1);
    assert_eq!(prod[0].name, "Category");
    assert_eq!(prod[0].arity, FieldArity::List);
    assert_eq!(prod[0].relation_info.name, "CategoryToProduct");
}

#[test]
fn self_join_table_gives_two_distinct_fields() {
    let schema = SqlSchema {
        tables: vec![
            table("User", vec![col("id", "Int", vec![], false)], &["id"], vec![], vec![]),
            table(
                "_Friends",
                vec![col("A", "Int", vec![], false), col("B", "Int", vec![], false)],
                &[],
                vec![fk(&["A"], "User", &["id"]), fk(&["B"], "User", &["id"])],
                vec![],
            ),
        ],
        enums: vec![],
    };
    let res = introspect(&schema, &caps()).ok().expect("ok");
    let models = &res.datamodel.models;
    assert_eq!(models.len(), 1);
    let user = relation_fields(model(models, "User"));
    assert_eq!(user.len(), 2);
    assert_eq!(user[0].name, "User_A");
    assert_eq!(user[1].name, "User_B");
    assert!(user.iter().all(|f| f.arity == FieldArity::List && f.relation_info.to == "User"));
    assert_eq!(user[0].relation_info.name, "Friends_A");
    assert_eq!(user[1].relation_info.name, "Friends_B");
}

#[test]
fn scale_larger_than_precision_makes_field_unsupported() {
    let schema = SqlSchema {
        tables: vec![table(
            "prices",
            vec![col("id", "Int", vec![], false), col("amount", "Decimal", vec![20, 30], false)],
            &["id"],
            vec![],
            vec![],
        )],
        enums: vec![],
    };
    let res = introspect(&schema, &caps()).ok().expect("ok");
    let prices = model(&res.datamodel.models, "prices");
    match &prices.fields[1] {
        Field::ScalarField(f) => assert_eq!(f.field_type, FieldType::Unsupported("Decimal(20,30)".to_string())),
        _ => panic!("scalar field expected"),
    }
    assert_eq!(res.warnings.len(), 1);
    match &res.warnings[0].kind {
        ErrorKind::ScaleLargerThanPrecisionError { native_type, connector_name } => {
            assert_eq!(native_type, "Decimal(20,30)");
            assert_eq!(connector_name, "postgres");
        }
        _ => panic!("scale error expected"),
    }
}

#[test]
fn unknown_type_column_drops_its_relation() {
    let schema = SqlSchema {
        tables: vec![
            table("users", vec![col("id", "Int", vec![], false)], &["id"], vec![], vec![]),
            table(
                "posts",
                vec![col("id", "Int", vec![], false), col("user_id", "Geometry", vec![], true)],
                &["id"],
                vec![fk(&["user_id"], "users", &["id"])],
                vec![],
            ),
        ],
        enums: vec![],
    };
    let res = introspect(&schema, &caps()).ok().expect("ok");
    let posts = model(&res.datamodel.models, "posts");
    assert!(relation_fields(posts).is_empty());
    assert!(relation_fields(model(&res.datamodel.models, "users")).is_empty());
    match &posts.fields[1] {
        Field::ScalarField(f) => assert_eq!(f.field_type, FieldType::Unsupported("Geometry".to_string())),
        _ => panic!("scalar field expected"),
    }
    assert!(matches!(res.warnings[0].kind, ErrorKind::NativeTypeNameUnknown { .. }));
}

#[test]
fn duplicate_foreign_keys_give_one_relation_field() {
    let schema = SqlSchema {
        tables: vec![
            table("users", vec![col("id", "Int", vec![], false)], &["id"], vec![], vec![]),
            table(
                "posts",
                vec![col("id", "Int", vec![], false), col("user_id", "Int", vec![], true)],
                &["id"],
                vec![fk(&["user_id"], "users", &["id"]), fk(&["user_id"], "users", &["id"])],
                vec![],
            ),
        ],
        enums: vec![],
    };
    let res = introspect(&schema, &caps()).ok().expect("ok");
    let forward = relation_fields(model(&res.datamodel.models, "posts"));
    assert_eq!(forward.len(), 1);
    assert_eq!(forward[0].arity, FieldArity::Optional);
    assert_eq!(forward[0].relation_info.name, "postsTousers");
    assert_eq!(relation_fields(model(&res.datamodel.models, "users")).len(), 1);
}

#[test]
fn clear_duplicates_keeps_first_occurrences_in_order() {
    let mut v = vec![
        fk(&["a"], "t", &["id"]),
        fk(&["b"], "t", &["id"]),
        fk(&["a"], "t", &["id"]),
        fk(&["a"], "u", &["id"]),
    ];
    v[2].on_delete = ForeignKeyAction::Cascade;
    clear_duplicates(&mut v);
    assert_eq!(v.len(), 3);
    assert_eq!(v[0].columns, vec!["a".to_string()]);
    assert_eq!(v[0].on_delete, ForeignKeyAction::NoAction);
    assert_eq!(v[1].columns, vec!["b".to_string()]);
    assert_eq!(v[2].referenced_table, "u");
    assert!(same_foreign_key(&fk(&["a"], "t", &["id"]), &fk(&["a"], "t", &["id"])));
    assert!(!same_foreign_key(&fk(&["a"], "t", &["id"]), &fk(&["a"], "t", &["key"])));
}

#[test]
fn missing_referenced_model_aborts() {
    let schema = SqlSchema {
        tables: vec![table(
            "posts",
            vec![col("id", "Int", vec![], false), col("user_id", "Int", vec![], false)],
            &["id"],
            vec![fk(&["user_id"], "users", &["id"])],
            vec![],
        )],
        enums: vec![],
    };
    match introspect(&schema, &caps()) {
        Err(IntrospectionError::ModelNotFound { name }) => assert_eq!(name, "users"),
        Ok(_) => panic!("error expected"),
    }
}

#[test]
fn reserved_tables_are_classified() {
    let migration = table("_Migration", vec![col("id", "Int", vec![], false)], &[], vec![], vec![]);
    assert!(is_migration_table(&migration));
    assert!(!is_application_table(&migration));
    let relay = table(
        "_RelayId",
        vec![col("id", "Int", vec![], false), col("stableModelIdentifier", "Int", vec![], false)],
        &[],
        vec![],
        vec![],
    );
    assert!(is_relay_table(&relay));
    let old_join = table(
        "_AToB",
        vec![col("id", "Int", vec![], false), col("A", "Int", vec![], false), col("B", "Int", vec![], false)],
        &["id"],
        vec![fk(&["A"], "X", &["id"]), fk(&["B"], "Y", &["id"])],
        vec![],
    );
    assert!(is_join_table(&old_join));
    let extra_column = table(
        "_AToB",
        vec![col("A", "Int", vec![], false), col("B", "Int", vec![], false), col("c", "Int", vec![], false)],
        &[],
        vec![fk(&["A"], "X", &["id"]), fk(&["B"], "Y", &["id"])],
        vec![],
    );
    assert!(!is_join_table(&extra_column));
    assert!(is_application_table(&extra_column));
}

fn attrs() -> FieldAttributes {
    FieldAttributes { is_unique: false, is_id: false, is_indexed: false, has_static_default: false }
}

#[test]
fn validator_reports_each_failure() {
    let c = caps();
    assert_eq!(validate_native_type(&c, &col("x", "Int", vec![], false), attrs()).ok(), Some(ScalarType::Int));
    let e = validate_native_type(&c, &col("x", "Decimal", vec![10], false), attrs()).err().unwrap();
    assert!(matches!(e.kind, ErrorKind::ArgumentCountMisMatchError { required_count: 2, given_count: 1, .. }));
    let e = validate_native_type(&c, &col("x", "VarChar", vec![1, 2], false), attrs()).err().unwrap();
    assert!(matches!(e.kind, ErrorKind::OptionalArgumentCountMismatchError { optional_count: 1, given_count: 2, .. }));
    let e = validate_native_type(&c, &col("x", "Decimal", vec![70, 2], false), attrs()).err().unwrap();
    match e.kind {
        ErrorKind::ArgumentOutOfRangeError { message, .. } => assert_eq!(message, "M can range from 1 to 65."),
        _ => panic!("range error expected"),
    }
    let mut a = attrs();
    a.is_unique = true;
    let e = validate_native_type(&c, &col("x", "Text", vec![], false), a).err().unwrap();
    assert!(matches!(e.kind, ErrorKind::IncompatibleNativeTypeWithUniqueAttribute { .. }));
    let mut a = attrs();
    a.is_id = true;
    let e = validate_native_type(&c, &col("x", "Text", vec![], false), a).err().unwrap();
    assert!(matches!(e.kind, ErrorKind::IncompatibleNativeTypeWithIdAttribute { .. }));
    let mut a = attrs();
    a.is_indexed = true;
    let e = validate_native_type(&c, &col("x", "Text", vec![], false), a).err().unwrap();
    assert!(matches!(e.kind, ErrorKind::IncompatibleNativeTypeWithIndexAttribute { .. }));
    let mut a = attrs();
    a.has_static_default = true;
    let e = validate_native_type(&c, &col("x", "Serial", vec![], false), a).err().unwrap();
    assert!(matches!(e.kind, ErrorKind::IncompatibleSequentialTypeWithStaticDefaultValue { .. }));
    let mut off = caps();
    off.supports_native_types = false;
    let e = validate_native_type(&off, &col("x", "Int", vec![], false), attrs()).err().unwrap();
    assert!(matches!(e.kind, ErrorKind::ConnectorNotSupportedForNativeTypes { .. }));
}

fn factory() -> ConnectorErrorFactory {
    ConnectorErrorFactory { native_type: "Decimal(20,30)".to_string(), connector: "mysql".to_string() }
}

#[test]
fn factory_builds_each_error() {
    match factory().new_scale_larger_than_precision_error() {
        Err(ConnectorError { kind: ErrorKind::ScaleLargerThanPrecisionError { native_type, connector_name } }) => {
            assert_eq!(native_type, "Decimal(20,30)");
            assert_eq!(connector_name, "mysql");
        }
        _ => panic!("error expected"),
    }
    assert!(matches!(
        factory().new_incompatible_native_type_with_index(),
        Err(ConnectorError { kind: ErrorKind::IncompatibleNativeTypeWithIndexAttribute { .. } })
    ));
    assert!(matches!(
        factory().new_incompatible_native_type_with_unique(),
        Err(ConnectorError { kind: ErrorKind::IncompatibleNativeTypeWithUniqueAttribute { .. } })
    ));
    assert!(matches!(
        factory().new_incompatible_native_type_with_id(),
        Err(ConnectorError { kind: ErrorKind::IncompatibleNativeTypeWithIdAttribute { .. } })
    ));
    assert!(matches!(
        factory().new_incompatible_sequential_type_with_static_default_value_error(),
        Err(ConnectorError { kind: ErrorKind::IncompatibleSequentialTypeWithStaticDefaultValue { .. } })
    ));
    match factory().new_argument_m_out_of_range_error("too big") {
        Err(ConnectorError { kind: ErrorKind::ArgumentOutOfRangeError { message, .. } }) => assert_eq!(message, "too big"),
        _ => panic!("error expected"),
    }
    match ConnectorError::new_argument_count_mismatch_error("Decimal", 2, 1).kind {
        ErrorKind::ArgumentCountMisMatchError { native_type, required_count, given_count } => {
            assert_eq!(native_type, "Decimal");
            assert_eq!((required_count, given_count), (2, 1));
        }
        _ => panic!("count error expected"),
    }
    match ConnectorError::new_value_parser_error("Int", "invalid digit", "abc").kind {
        ErrorKind::ValueParserError { expected_type, parser_error, raw } => {
            assert_eq!(expected_type, "Int");
            assert_eq!(parser_error, "invalid digit");
            assert_eq!(raw, "abc");
        }
        _ => panic!("parser error expected"),
    }
    let e = ConnectorError::from_kind(ErrorKind::DuplicateAttributeError { attribute_name: "id".to_string() });
    assert!(matches!(e.kind, ErrorKind::DuplicateAttributeError { .. }));
}

fn ident(name: &str) -> Identifier {
    Identifier { name: name.to_string(), span: Span { start: 0, end: 0 } }
}

#[test]
fn embed_find_field_returns_first_match() {
    let mk = |n: &str, t: &str| AstField { name: ident(n), field_type: ident(t), attributes: vec![], span: Span { start: 0, end: 1 } };
    let e = Embed {
        name: ident("Address"),
        fields: vec![mk("street", "String"), mk("zip", "Int"), mk("zip", "String")],
        attributes: vec![],
        documentation: None,
        span: Span { start: 3, end: 9 },
        commented_out: false,
    };
    let f = e.find_field("zip");
    assert_eq!(f.name.name, "zip");
    assert_eq!(f.field_type.name, "Int");
    assert_eq!(e.identifier().name, "Address");
    assert_eq!(*e.span(), Span { start: 3, end: 9 });
    assert!(!e.is_commented_out());
    assert!(e.documentation().is_none());
    assert!(e.attributes().is_empty());
}

#[test]
fn every_relation_has_its_other_side() {
    let schema = SqlSchema {
        tables: vec![
            table(
                "employees",
                vec![col("id", "Int", vec![], false), col("manager_id", "Int", vec![], true)],
                &["id"],
                vec![fk(&["manager_id"], "employees", &["id"])],
                vec![],
            ),
            table(
                "transfers",
                vec![
                    col("id", "Int", vec![], false),
                    col("from_id", "Int", vec![], false),
                    col("to_id", "Int", vec![], false),
                ],
                &["id"],
                vec![fk(&["from_id"], "employees", &["id"]), fk(&["to_id"], "employees", &["id"])],
                vec![index("transfers_from_key", &["from_id"], true)],
            ),
        ],
        enums: vec![],
    };
    let res = introspect(&schema, &caps()).ok().expect("ok");
    let models = &res.datamodel.models;
    let mut count = 0;
    for a in models.iter() {
        for r in relation_fields(a) {
            count += 1;
            let b = model(models, &r.relation_info.to);
            let found = relation_fields(b).into_iter().any(|g| {
                g.relation_info.to == a.name
                    && g.relation_info.name == r.relation_info.name
                    && (a.name != b.name || g.name != r.name)
            });
            assert!(found, "{}.{} has no other side", a.name, r.name);
        }
    }
    assert_eq!(count, 6);
    let transfers = relation_fields(model(models, "transfers"));
    assert_eq!(transfers[0].relation_info.name, "transfersToemployees_from_id");
    assert_eq!(transfers[1].relation_info.name, "transfersToemployees_to_id");
    let employees = relation_fields(model(models, "employees"));
    let back_from = employees.iter().find(|f| f.relation_info.name == "transfersToemployees_from_id").unwrap();
    assert_eq!(back_from.arity, FieldArity::Optional);
    let self_back = employees
        .iter()
        .filter(|f| f.relation_info.name == "employeesToemployees_manager_id")
        .count();
    assert_eq!(self_back, 2);
}

#[test]
fn factory_new_keeps_its_arguments() {
    let f = ConnectorErrorFactory::new("VarChar(300)".to_string(), "mysql".to_string());
    assert_eq!(f.native_type, "VarChar(300)");
    assert_eq!(f.connector, "mysql");
}

#[test]
fn usize_renders_in_decimal() {
    assert_eq!(render_usize(0), "0");
    assert_eq!(render_usize(7), "7");
    assert_eq!(render_usize(10), "10");
    assert_eq!(render_usize(1205), "1205");
}

#[test]
fn error_messages_are_rendered() {
    let e = factory().new_scale_larger_than_precision_error().err().unwrap();
    assert_eq!(
        e.message(),
        "The scale must not be larger than the precision for the Decimal(20,30) native type in mysql."
    );
    let e = factory().new_incompatible_native_type_with_index().err().unwrap();
    assert_eq!(e.message(), "You can not define an index on fields with Native type Decimal(20,30) of mysql.");
    let e = factory().new_incompatible_native_type_with_unique().err().unwrap();
    assert_eq!(e.message(), "Native type Decimal(20,30) can not be unique in mysql.");
    let e = factory().new_incompatible_native_type_with_id().err().unwrap();
    assert_eq!(
        e.message(),
        "Native type Decimal(20,30) of mysql can not be used on a field that is `@id` or `@@id`."
    );
    let e = factory().new_incompatible_sequential_type_with_static_default_value_error().err().unwrap();
    assert_eq!(e.message(), "Sequential native type Decimal(20,30) of mysql must not have a static default value.");
    let e = factory().new_argument_m_out_of_range_error("M can range from 1 to 65.").err().unwrap();
    assert_eq!(
        e.message(),
        "Argument M is out of range for Native type Decimal(20,30) of mysql: M can range from 1 to 65."
    );
    let e = ConnectorError::new_argument_count_mismatch_error("Decimal", 2, 13);
    assert_eq!(e.message(), "Native type Decimal takes 2 arguments, but received 13.");
    let e = ConnectorError::new_value_parser_error("Int", "invalid digit", "abc");
    assert_eq!(e.message(), "Expected a Int value, but failed while parsing \"abc\": invalid digit.");
    let e = ConnectorError::from_kind(ErrorKind::DuplicateAttributeError { attribute_name: "id".to_string() });
    assert_eq!(e.message(), "Attribute @id is defined twice.");
    assert_eq!(
        ErrorKind::NativeFlagsPreviewFeatureDisabled.message(),
        "Native types can only be used if the corresponding feature flag is enabled. Please add this field in your generator block: `previewFeatures = [\"nativeTypes\"]`"
    );
}

#[test]
fn enums_are_copied_in_order() {
    let schema = SqlSchema {
        tables: vec![],
        enums: vec![sql_introspection::schema::SchemaEnum {
            name: "Color".to_string(),
            values: vec!["RED".to_string(), "GREEN".to_string()],
        }],
    };
    let res = introspect(&schema, &caps()).ok().expect("ok");
    assert_eq!(res.datamodel.enums.len(), 1);
    assert_eq!(res.datamodel.enums[0].name, "Color");
    assert_eq!(res.datamodel.enums[0].values, vec!["RED".to_string(), "GREEN".to_string()]);
}

#[test]
fn unparsable_default_makes_field_unsupported() {
    let mut c = col("count", "Int", vec![], false);
    c.default = Some("12a".to_string());
    let e = validate_native_type(&caps(), &c, FieldAttributes {
        is_unique: false,
        is_id: false,
        is_indexed: false,
        has_static_default: true,
    })
    .err()
    .unwrap();
    assert_eq!(e.message(), "Expected a Int value, but failed while parsing \"12a\": invalid digit found in string.");
    c.default = Some("-42".to_string());
    let ok = validate_native_type(&caps(), &c, FieldAttributes {
        is_unique: false,
        is_id: false,
        is_indexed: false,
        has_static_default: true,
    });
    assert_eq!(ok.ok(), Some(ScalarType::Int));
}

#[test]
fn invalid_prefix_message_is_rendered() {
    let k = ErrorKind::InvalidPrefixForNativeTypes {
        given_prefix: "pg".to_string(),
        expected_prefix: "db".to_string(),
        suggestion: "db".to_string(),
    };
    assert_eq!(
        k.message(),
        "The prefix pg is invalid. It must be equal to the name of an existing datasource e.g. db. Did you mean to use db?"
    );
}
