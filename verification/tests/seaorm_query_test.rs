use whiterabbit::account::specification::AccountSpecification;
use whiterabbit::account::AccountType;
use whiterabbit::journal::specification::JournalSpecification;
use whiterabbit::record::specification::RecordSpecification;
use whiterabbit::record::RecordItemKind;
use whiterabbit::seaorm::query::{
    Column, Condition, ConditionType, Filter, Operand, SqlValue, Table,
};
use whiterabbit::seaorm::{
    AccountTypeEnum, RecordKindEnum, SeaOrmAccountRepository, SeaOrmJournalRepository,
    SeaOrmRecordRepository,
};
use whiterabbit::specification::SpecificationExpression;

fn strs(v: &[&str]) -> Vec<String> {
    v.iter().map(|s| s.to_string()).collect()
}

fn texts(v: &[SqlValue]) -> Vec<String> {
    v.iter()
        .map(|x| match x {
            SqlValue::Text(s) => s.clone(),
            other => panic!("not a text: {other:?}"),
        })
        .collect()
}

/// The single comparison of a group, with the group's type.
fn only_filter(c: &Condition) -> (ConditionType, &Filter) {
    let Condition::Group(negated, t, items) = c else { panic!("not a group: {c:?}") };
    assert!(!negated);
    assert_eq!(items.len(), 1);
    let Condition::Filter(f) = &items[0] else { panic!("not a comparison") };
    (*t, f)
}

#[test]
fn test_account_id_condition() {
    let c = SeaOrmAccountRepository.spec_leaf_to_condition(&AccountSpecification::Id(strs(&["a", "b"])));
    let (t, f) = only_filter(&c);
    assert_eq!(t, ConditionType::Any);
    let Filter::In(Operand::Column(Column::Id), v) = f else { panic!("{f:?}") };
    assert_eq!(texts(v), strs(&["a", "b"]));
}

#[test]
fn test_account_name_condition_is_lower_cased() {
    let c = SeaOrmAccountRepository
        .spec_leaf_to_condition(&AccountSpecification::Name(strs(&["Cash", " BANK "])));
    let (_, f) = only_filter(&c);
    let Filter::In(Operand::Lower(Column::Name), v) = f else { panic!("{f:?}") };
    assert_eq!(texts(v), strs(&["cash", " bank "]));
}

#[test]
fn test_account_type_and_tag_conditions() {
    let c = SeaOrmAccountRepository.spec_leaf_to_condition(&AccountSpecification::Type(vec![
        AccountType::Income,
        AccountType::Equity,
    ]));
    let (_, f) = only_filter(&c);
    let Filter::In(Operand::Column(Column::Type), v) = f else { panic!("{f:?}") };
    assert!(matches!(
        v.as_slice(),
        [SqlValue::AccountType(AccountTypeEnum::Income), SqlValue::AccountType(AccountTypeEnum::Equity)]
    ));

    let c = SeaOrmAccountRepository.spec_leaf_to_condition(&AccountSpecification::Tag(strs(&["Food"])));
    let (_, f) = only_filter(&c);
    let Filter::InSubquery(Column::Id, Table::AccountTag, Column::AccountId, Operand::Lower(Column::Tag), v) = f
    else {
        panic!("{f:?}")
    };
    assert_eq!(texts(v), strs(&["food"]));
}

/// The three parts of a text search: two lower-cased columns and the
/// lower-cased tags of a side table, all against one pattern.
fn text_search_parts(c: &Condition) -> (Column, Column, Table, Column, String) {
    let Condition::Group(false, ConditionType::Any, items) = c else { panic!("{c:?}") };
    assert_eq!(items.len(), 3);
    let Condition::Filter(Filter::Like(Operand::Lower(a), p)) = &items[0] else { panic!("{:?}", items[0]) };
    let Condition::Filter(Filter::Like(Operand::Lower(b), p2)) = &items[1] else { panic!("{:?}", items[1]) };
    let Condition::Filter(Filter::LikeSubquery(Column::Id, t, owner, Operand::Lower(Column::Tag), p3)) = &items[2]
    else {
        panic!("{:?}", items[2])
    };
    assert_eq!(p, p2);
    assert_eq!(p, p3);
    (*a, *b, *t, *owner, p.clone())
}

/// The two parts of a search as the text is given: two lower-cased columns
/// against one pattern.
fn lower_search_parts(c: &Condition) -> (Column, Column, String) {
    let Condition::Group(false, ConditionType::Any, items) = c else { panic!("{c:?}") };
    assert_eq!(items.len(), 2);
    let Condition::Filter(Filter::Like(Operand::Lower(a), p)) = &items[0] else { panic!("{:?}", items[0]) };
    let Condition::Filter(Filter::Like(Operand::Lower(b), p2)) = &items[1] else { panic!("{:?}", items[1]) };
    assert_eq!(p, p2);
    (*a, *b, p.clone())
}

#[test]
fn test_account_full_text_condition() {
    let c = SeaOrmAccountRepository
        .spec_leaf_to_condition(&AccountSpecification::FullText("GroCery".to_string()));
    assert_eq!(
        lower_search_parts(&c),
        (Column::Name, Column::Description, "%grocery%".to_string())
    );
}

#[test]
fn test_account_archived_conditions() {
    let c = SeaOrmAccountRepository.spec_leaf_to_condition(&AccountSpecification::Archived(true));
    let (t, f) = only_filter(&c);
    assert_eq!(t, ConditionType::All);
    assert!(matches!(f, Filter::IsNotNull(Column::ArchivedAt)));
    let c = SeaOrmAccountRepository.spec_leaf_to_condition(&AccountSpecification::Archived(false));
    let (_, f) = only_filter(&c);
    assert!(matches!(f, Filter::IsNull(Column::ArchivedAt)));
}

#[test]
fn test_expression_condition_groups_and_negates() {
    let spec = SpecificationExpression::All(vec![
        SpecificationExpression::Leaf(AccountSpecification::JournalId(strs(&["j1"]))),
        SpecificationExpression::Not(Box::new(SpecificationExpression::Leaf(
            AccountSpecification::Archived(true),
        ))),
    ]);
    let c = SeaOrmAccountRepository.spec_to_condition(&spec);
    let Condition::Group(false, ConditionType::All, items) = &c else { panic!("{c:?}") };
    assert_eq!(items.len(), 2);
    let (_, f) = only_filter(&items[0]);
    assert!(matches!(f, Filter::In(Operand::Column(Column::JournalId), _)));
    let Condition::Group(false, ConditionType::All, inner) = &items[1] else { panic!() };
    assert_eq!(inner.len(), 1);
    let Condition::Group(true, ConditionType::All, leaf) = &inner[0] else { panic!("{:?}", inner[0]) };
    assert!(matches!(&leaf[0], Condition::Filter(Filter::IsNotNull(Column::ArchivedAt))));

    let empty_any: SpecificationExpression<AccountSpecification> = SpecificationExpression::Any(vec![]);
    let c = SeaOrmAccountRepository.spec_to_condition(&empty_any);
    assert!(matches!(&c, Condition::Group(false, ConditionType::Any, v) if v.is_empty()));
}

#[test]
fn test_journal_conditions() {
    // Names and tags are compared case-insensitively.
    for name in ["personal ledger", "PERSONAL LEDGER"] {
        let c = SeaOrmJournalRepository.spec_leaf_to_condition(&JournalSpecification::Name(strs(&[name])));
        let (_, f) = only_filter(&c);
        let Filter::In(Operand::Lower(Column::Name), v) = f else { panic!("{f:?}") };
        assert_eq!(texts(v), strs(&["personal ledger"]));
    }
    for tag in ["finance", "FINANCE"] {
        let c = SeaOrmJournalRepository.spec_leaf_to_condition(&JournalSpecification::Tag(strs(&[tag])));
        let (_, f) = only_filter(&c);
        let Filter::InSubquery(Column::Id, Table::JournalTag, Column::JournalId, Operand::Lower(Column::Tag), v) = f
        else {
            panic!("{f:?}")
        };
        assert_eq!(texts(v), strs(&["finance"]));
    }
    let c = SeaOrmJournalRepository
        .spec_leaf_to_condition(&JournalSpecification::FullText("STOCK HOLDINGS".to_string()));
    assert_eq!(
        lower_search_parts(&c),
        (Column::Name, Column::Description, "%stock holdings%".to_string())
    );
}

#[test]
fn test_record_conditions() {
    let c = SeaOrmRecordRepository.spec_leaf_to_condition(&RecordSpecification::AccountId(strs(&["acc"])));
    let (_, f) = only_filter(&c);
    let Filter::InSubquery(Column::Id, Table::RecordItem, Column::RecordId, Operand::Column(Column::AccountId), v) = f
    else {
        panic!("{f:?}")
    };
    assert_eq!(texts(v), strs(&["acc"]));

    let c = SeaOrmRecordRepository.spec_leaf_to_condition(&RecordSpecification::DateFrom(738000));
    let (t, f) = only_filter(&c);
    assert_eq!(t, ConditionType::All);
    assert!(matches!(f, Filter::Gte(Column::Date, SqlValue::Date(738000))));

    let c = SeaOrmRecordRepository.spec_leaf_to_condition(&RecordSpecification::DateTo(738100));
    let (_, f) = only_filter(&c);
    assert!(matches!(f, Filter::Lte(Column::Date, SqlValue::Date(738100))));

    let c = SeaOrmRecordRepository.spec_leaf_to_condition(&RecordSpecification::Date(vec![1, 2]));
    let (_, f) = only_filter(&c);
    assert!(matches!(f, Filter::In(Operand::Column(Column::Date), v) if matches!(v.as_slice(), [SqlValue::Date(1), SqlValue::Date(2)])));

    let c = SeaOrmRecordRepository
        .spec_leaf_to_condition(&RecordSpecification::ItemKind(RecordItemKind::Validation));
    let (_, f) = only_filter(&c);
    assert!(matches!(f, Filter::Eq(Column::Kind, SqlValue::Kind(RecordKindEnum::Validation))));

    let c = SeaOrmRecordRepository.spec_leaf_to_condition(&RecordSpecification::FullText("Weekly".to_string()));
    assert_eq!(
        text_search_parts(&c),
        (Column::Description, Column::Payee, Table::RecordTag, Column::RecordId, "%weekly%".to_string())
    );

    let c = SeaOrmRecordRepository.spec_leaf_to_condition(&RecordSpecification::Payee(strs(&["Cafe"])));
    let (_, f) = only_filter(&c);
    let Filter::In(Operand::Lower(Column::Payee), v) = f else { panic!("{f:?}") };
    assert_eq!(texts(v), strs(&["cafe"]));

    let c = SeaOrmRecordRepository.spec_leaf_to_condition(&RecordSpecification::Tag(strs(&["Food"])));
    let (_, f) = only_filter(&c);
    let Filter::InSubquery(Column::Id, Table::RecordTag, Column::RecordId, Operand::Lower(Column::Tag), v) = f else {
        panic!("{f:?}")
    };
    assert_eq!(texts(v), strs(&["food"]));
}
