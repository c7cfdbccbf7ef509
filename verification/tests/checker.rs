use sql_migration_connector::checker::{
    classify, column_is_narrowed, column_is_required, known_to_hold_rows, may_apply,
    DestructiveChangeDiagnostic, Reason, Severity, TableRowCount,
};
use sql_migration_connector::differ::DiffStep;
use sql_migration_connector::schema::{Column, ColumnType, ColumnTypeFamily, DefaultValue, Table};

fn column(name: &str, size: Option<u32>, nullable: bool) -> Column {
    Column {
        name: name.to_string(),
        tpe: ColumnType { family: ColumnTypeFamily::Varchar, size },
        nullable,
        default: None,
    }
}

fn hints(rows: u64) -> Vec<TableRowCount> {
    vec![
        TableRowCount { table: "other".to_string(), rows: 99 },
        TableRowCount { table: "t".to_string(), rows },
        TableRowCount { table: "t".to_string(), rows: 7 },
    ]
}

fn t() -> String {
    "t".to_string()
}

#[test]
fn row_counts_are_taken_from_the_first_hint() {
    assert!(known_to_hold_rows(&hints(1), &t()));
    assert!(!known_to_hold_rows(&hints(0), &t()));
    assert!(!known_to_hold_rows(&hints(5), &"unknown".to_string()));
    assert!(!known_to_hold_rows(&vec![], &t()));
}

#[test]
fn drops_on_populated_tables_are_unexecutable() {
    let steps = vec![
        DiffStep::DropIndex { table: t(), index: "i".to_string() },
        DiffStep::DropColumn { table: t(), column: "c".to_string() },
        DiffStep::DropTable { table: t() },
    ];
    let findings = classify(&steps, &hints(10));
    assert_eq!(
        findings,
        vec![
            DestructiveChangeDiagnostic { step: 1, severity: Severity::Unexecutable, reason: Reason::ColumnDropped },
            DestructiveChangeDiagnostic { step: 2, severity: Severity::Unexecutable, reason: Reason::TableDropped },
        ]
    );
    assert_eq!(classify(&steps, &hints(0)), vec![]);
    assert_eq!(classify(&steps, &vec![]), vec![]);
}

#[test]
fn required_column_on_populated_table_is_unexecutable() {
    let required = column("c", None, false);
    let mut defaulted = column("d", None, false);
    defaulted.default = Some(DefaultValue::Int(0));
    let nullable = column("e", None, true);
    assert!(column_is_required(&required));
    assert!(!column_is_required(&defaulted));
    assert!(!column_is_required(&nullable));
    let steps = vec![
        DiffStep::AddColumn { table: t(), column: nullable },
        DiffStep::AddColumn { table: t(), column: defaulted },
        DiffStep::AddColumn { table: t(), column: required },
    ];
    assert_eq!(
        classify(&steps, &hints(1)),
        vec![DestructiveChangeDiagnostic::new(2, Reason::RequiredColumnAdded)]
    );
    assert_eq!(classify(&steps, &hints(0)), vec![]);
}

#[test]
fn narrowed_column_is_a_warning() {
    let wide = column("c", Some(255), true);
    let narrow = column("c", Some(100), true);
    let unsized_column = column("c", None, true);
    assert!(column_is_narrowed(&wide, &narrow));
    assert!(!column_is_narrowed(&narrow, &wide));
    assert!(!column_is_narrowed(&wide, &wide));
    assert!(!column_is_narrowed(&unsized_column, &narrow));
    assert!(!column_is_narrowed(&wide, &unsized_column));
    let steps = vec![DiffStep::AlterColumn { table: t(), previous: wide, next: narrow }];
    let findings = classify(&steps, &vec![]);
    assert_eq!(
        findings,
        vec![DestructiveChangeDiagnostic { step: 0, severity: Severity::Warning, reason: Reason::ColumnNarrowed }]
    );
    assert!(may_apply(&findings, false));
}

#[test]
fn rebuild_is_checked_column_by_column() {
    let previous = Table {
        name: t(),
        columns: vec![column("kept", Some(10), true), column("gone", None, true), column("gone2", None, true)],
        primary_key: vec![],
        indexes: vec![],
        foreign_keys: vec![],
    };
    let next = Table {
        name: t(),
        columns: vec![column("kept", Some(5), true), column("new", None, false)],
        primary_key: vec![],
        indexes: vec![],
        foreign_keys: vec![],
    };
    let steps = vec![
        DiffStep::DropIndex { table: t(), index: "i".to_string() },
        DiffStep::RedefineTable { previous, next },
    ];
    assert_eq!(
        classify(&steps, &hints(3)),
        vec![
            DestructiveChangeDiagnostic::new(1, Reason::ColumnDropped),
            DestructiveChangeDiagnostic::new(1, Reason::ColumnDropped),
            DestructiveChangeDiagnostic::new(1, Reason::ColumnNarrowed),
            DestructiveChangeDiagnostic::new(1, Reason::RequiredColumnAdded),
        ]
    );
    assert_eq!(
        classify(&steps, &hints(0)),
        vec![DestructiveChangeDiagnostic::new(1, Reason::ColumnNarrowed)]
    );
}

#[test]
fn severity_follows_the_reason() {
    assert_eq!(Reason::TableDropped.severity(), Severity::Unexecutable);
    assert_eq!(Reason::ColumnDropped.severity(), Severity::Unexecutable);
    assert_eq!(Reason::RequiredColumnAdded.severity(), Severity::Unexecutable);
    assert_eq!(Reason::ColumnNarrowed.severity(), Severity::Warning);
    let d = DestructiveChangeDiagnostic::new(4, Reason::ColumnNarrowed);
    assert_eq!(d.step, 4);
    assert_eq!(d.severity, Severity::Warning);
}

#[test]
fn messages_name_the_reason() {
    assert_eq!(Reason::TableDropped.message(), "the table holds rows, which dropping it deletes");
    assert_eq!(
        DestructiveChangeDiagnostic::new(0, Reason::ColumnNarrowed).message(),
        "the column's declared size shrinks, so stored values may be truncated"
    );
    assert_ne!(Reason::ColumnDropped.message(), Reason::RequiredColumnAdded.message());
}

#[test]
fn only_force_overrides_an_unexecutable_finding() {
    let warning = DestructiveChangeDiagnostic::new(0, Reason::ColumnNarrowed);
    let blocker = DestructiveChangeDiagnostic::new(1, Reason::TableDropped);
    assert!(may_apply(&vec![], false));
    assert!(may_apply(&vec![warning, warning], false));
    assert!(!may_apply(&vec![warning, blocker], false));
    assert!(!may_apply(&vec![blocker, warning], false));
    assert!(may_apply(&vec![warning, blocker], true));
}
