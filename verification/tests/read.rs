use sql_migration_connector::read::{
    arguments_text, count_text, AggregateRecordsQuery, FieldSelection, Filter, ManyRecordsQuery, Model, QueryArguments,
    QueryOption, QueryOptions, ReadQuery, RecordQuery, RelatedRecordsQuery, RelationField,
};

fn selection(fields: &[&str]) -> FieldSelection {
    FieldSelection { fields: fields.iter().map(|f| f.to_string()).collect() }
}

fn model(name: &str) -> Model {
    Model { name: name.to_string() }
}

fn filter(expression: &str) -> Filter {
    Filter { expression: expression.to_string() }
}

fn arguments() -> QueryArguments {
    QueryArguments { filter: None, skip: Some(1), take: None }
}

fn record() -> ReadQuery {
    ReadQuery::RecordQuery(RecordQuery {
        name: "findUser".to_string(),
        alias: None,
        model: model("User"),
        filter: Some(filter("id = 1")),
        selected_fields: selection(&["id", "name"]),
        nested: vec![],
        selection_order: vec![],
        aggregation_selections: vec![],
        options: QueryOptions::none(),
    })
}

fn many() -> ReadQuery {
    ReadQuery::ManyRecordsQuery(ManyRecordsQuery {
        name: "findUsers".to_string(),
        alias: None,
        model: model("User"),
        args: arguments(),
        selected_fields: selection(&["id"]),
        nested: vec![record()],
        selection_order: vec![],
        aggregation_selections: vec![],
        options: QueryOptions::from(QueryOption::ThrowOnEmpty),
    })
}

fn related() -> ReadQuery {
    ReadQuery::RelatedRecordsQuery(RelatedRecordsQuery {
        name: "posts".to_string(),
        alias: None,
        parent_field: RelationField { name: "posts".to_string(), model: model("User"), related_model: model("Post") },
        args: arguments(),
        selected_fields: selection(&[]),
        nested: vec![],
        selection_order: vec![],
        aggregation_selections: vec![],
        parent_results: None,
    })
}

fn aggregate() -> ReadQuery {
    ReadQuery::AggregateRecordsQuery(AggregateRecordsQuery {
        name: "countUsers".to_string(),
        alias: None,
        model: model("User"),
        selection_order: vec![],
        args: arguments(),
        selectors: vec![],
        group_by: vec![],
        having: None,
    })
}

#[test]
fn query_returns_the_fields_it_selects() {
    assert!(record().returns_fields(&selection(&["id"])));
    assert!(record().returns_fields(&selection(&["name", "id", "id"])));
    assert!(record().returns_fields(&selection(&[])));
    assert!(!record().returns_fields(&selection(&["id", "email"])));
    assert!(many().returns_fields(&selection(&["id"])));
    assert!(!many().returns_fields(&selection(&["name"])));
    assert!(related().returns_fields(&selection(&[])));
    assert!(!related().returns_fields(&selection(&["id"])));
    assert!(!aggregate().returns_fields(&selection(&[])));
    assert!(selection(&["a", "b"]).is_superset_of(&selection(&["b"])));
    assert!(selection(&["a"]).contains(&"a".to_string()));
    assert!(!selection(&["a"]).contains(&"b".to_string()));
}

#[test]
fn query_reads_the_model_it_names() {
    assert_eq!(record().model(), model("User"));
    assert_eq!(many().model(), model("User"));
    assert_eq!(related().model(), model("Post"));
    assert_eq!(aggregate().model(), model("User"));
}

#[test]
fn options_hold_what_was_put_in() {
    let none = QueryOptions::none();
    assert!(!none.contains(QueryOption::ThrowOnEmpty));
    assert!(!none.contains(QueryOption::Other));
    let throwing = QueryOptions::from(QueryOption::ThrowOnEmpty);
    assert!(throwing.contains(QueryOption::ThrowOnEmpty));
    assert!(!throwing.contains(QueryOption::Other));
    let other: QueryOptions = QueryOption::Other.into();
    assert!(!other.contains(QueryOption::ThrowOnEmpty));
    assert!(other.contains(QueryOption::Other));
    let both = throwing.union(other);
    assert!(both.contains(QueryOption::ThrowOnEmpty));
    assert!(both.contains(QueryOption::Other));
    assert_eq!(none.union(throwing), throwing);
    assert_eq!(QueryOption::ThrowOnEmpty.bit(), 1);
    assert_eq!(QueryOption::Other.bit(), 2);
}

#[test]
fn filter_can_be_read_set_and_changed_in_place() {
    let mut query = record();
    assert_eq!(query.get_filter().map(|f| f.clone()), Some(filter("id = 1")));
    query.set_filter(filter("id = 2"));
    assert_eq!(query.get_filter().map(|f| f.clone()), Some(filter("id = 2")));
    if let Some(f) = query.get_filter() {
        f.expression = "id = 3".to_string();
    }
    match &query {
        ReadQuery::RecordQuery(q) => {
            assert_eq!(q.filter, Some(filter("id = 3")));
            assert_eq!(q.name, "findUser");
            assert_eq!(q.selected_fields, selection(&["id", "name"]));
        }
        other => panic!("unexpected query {:?}", other),
    }
    let mut query = many();
    assert!(query.get_filter().is_none());
    query.set_filter(filter("age > 3"));
    assert_eq!(query.get_filter().map(|f| f.clone()), Some(filter("age > 3")));
    match &query {
        ReadQuery::ManyRecordsQuery(q) => {
            assert_eq!(q.args, QueryArguments { filter: Some(filter("age > 3")), skip: Some(1), take: None });
            assert_eq!(q.nested.len(), 1);
            assert!(q.options.contains(QueryOption::ThrowOnEmpty));
        }
        other => panic!("unexpected query {:?}", other),
    }
}

#[test]
fn queries_are_drawn_as_graph_nodes() {
    assert_eq!(
        record().to_graphviz(),
        "RecordQuery(name: 'findUser', selection: FieldSelection { fields: [id, name] })"
    );
    assert_eq!(
        many().to_graphviz(),
        "ManyRecordsQuery(name: 'findUsers', model: 'User', selection: FieldSelection { fields: [id] })"
    );
    assert_eq!(
        related().to_graphviz(),
        "RelatedRecordsQuery(name: 'posts', parent model: 'User', parent relation field: posts, selection: FieldSelection { fields: [] })"
    );
    assert_eq!(aggregate().to_graphviz(), "AggregateRecordsQuery: countUsers");
    assert_eq!(selection(&["a", "b", "c"]).to_text(), "FieldSelection { fields: [a, b, c] }");
}

#[test]
fn queries_are_shown_with_their_filter() {
    assert_eq!(
        record().to_string(),
        "RecordQuery(name: 'findUser', selection: FieldSelection { fields: [id, name] }, filter: Some(id = 1))"
    );
    assert_eq!(
        many().to_string(),
        "ManyRecordsQuery(name: 'findUsers', model: 'User', selection: FieldSelection { fields: [id] }, \
         args: QueryArguments { filter: None, skip: Some(1), take: None })"
    );
    assert_eq!(related().to_string(), related().to_graphviz());
    assert_eq!(aggregate().to_string(), "AggregateRecordsQuery: countUsers");
}

#[test]
fn arguments_are_shown_field_by_field() {
    let all = QueryArguments { filter: Some(filter("age > 3")), skip: Some(10), take: Some(0) };
    assert_eq!(arguments_text(&all), "QueryArguments { filter: Some(age > 3), skip: Some(10), take: Some(0) }");
    let none = QueryArguments { filter: None, skip: None, take: None };
    assert_eq!(arguments_text(&none), "QueryArguments { filter: None, skip: None, take: None }");
    assert_eq!(count_text(Some(u64::MAX)), "Some(18446744073709551615)");
    assert_eq!(count_text(None), "None");
    let text = |skip: Option<u64>, take: Option<u64>| {
        ReadQuery::ManyRecordsQuery(ManyRecordsQuery {
            name: "q".to_string(),
            alias: None,
            model: model("M"),
            args: QueryArguments { filter: None, skip, take },
            selected_fields: selection(&[]),
            nested: vec![],
            selection_order: vec![],
            aggregation_selections: vec![],
            options: QueryOptions::none(),
        })
        .to_string()
    };
    assert_ne!(text(Some(1), None), text(None, None));
    assert_ne!(text(None, Some(1)), text(None, None));
    assert_ne!(text(Some(1), None), text(None, Some(1)));
}

#[test]
fn shown_text_extends_the_drawing() {
    for query in [record(), many(), related(), aggregate()] {
        let drawing = query.to_graphviz();
        let shown = query.to_string();
        match &query {
            ReadQuery::RecordQuery(q) => {
                let head = &drawing[..drawing.len() - 1];
                assert_eq!(shown, format!("{}, filter: Some({}))", head, q.filter.as_ref().unwrap().expression));
            }
            ReadQuery::ManyRecordsQuery(q) => {
                let head = &drawing[..drawing.len() - 1];
                assert_eq!(shown, format!("{}, args: {})", head, arguments_text(&q.args)));
            }
            _ => assert_eq!(shown, drawing),
        }
    }
}
