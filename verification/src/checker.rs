//! The destructive-change checker: it annotates a plan and never changes it.
use crate::differ::{concat_prefix, find_column, find_column_index, DiffStep, DiffStepView};
use crate::ordering::{all_meet, lemma_concat_prefix_all, lemma_concat_prefix_member};
use crate::schema::{seq_view, Column, ColumnView, Name};
use vstd::prelude::*;

verus! {

/// How grave a finding is.
#[derive(Clone, Copy, Debug, PartialEq, Eq, Structural)]
pub enum Severity {
    /// The step runs, and may lose or truncate data.
    Warning,
    /// The step must not run unless the caller forces it.
    Unexecutable,
}

/// Why a step was flagged.
#[derive(Clone, Copy, Debug, PartialEq, Eq, Structural)]
pub enum Reason {
    /// A table that holds rows is dropped.
    TableDropped,
    /// A column of a table that holds rows is dropped.
    ColumnDropped,
    /// A column that takes no nulls and has no default is added to a table that holds rows.
    RequiredColumnAdded,
    /// A column's declared size or precision shrinks.
    ColumnNarrowed,
}

impl Reason {
    /// The severity that findings of this kind carry.
    pub open spec fn spec_severity(self) -> Severity {
        match self {
            Reason::TableDropped => Severity::Unexecutable,
            Reason::ColumnDropped => Severity::Unexecutable,
            Reason::RequiredColumnAdded => Severity::Unexecutable,
            Reason::ColumnNarrowed => Severity::Warning,
        }
    }

    /// The severity that findings of this kind carry.
    pub fn severity(self) -> (severity: Severity)
        ensures
            severity == self.spec_severity(),
    {
        match self {
            Reason::TableDropped => Severity::Unexecutable,
            Reason::ColumnDropped => Severity::Unexecutable,
            Reason::RequiredColumnAdded => Severity::Unexecutable,
            Reason::ColumnNarrowed => Severity::Warning,
        }
    }
}

/// A finding about one step of a plan. Findings advise: what to do about them is the caller's
/// decision.
#[derive(Clone, Copy, Debug, PartialEq, Eq, Structural)]
pub struct DestructiveChangeDiagnostic {
    /// The position of the step in the plan.
    pub step: usize,
    pub severity: Severity,
    pub reason: Reason,
}

/// The finding about step `step` for `reason`.
pub open spec fn finding(step: int, reason: Reason) -> DestructiveChangeDiagnostic {
    DestructiveChangeDiagnostic {
        step: step as usize,
        severity: reason.spec_severity(),
        reason,
    }
}

/// How many rows a table was seen to hold.
#[derive(Debug, PartialEq, Eq)]
pub struct TableRowCount {
    pub table: String,
    pub rows: u64,
}

/// A row count as contracts speak of it.
pub struct TableRowCountView {
    pub table: Name,
    pub rows: u64,
}

impl View for TableRowCount {
    type V = TableRowCountView;

    open spec fn view(&self) -> TableRowCountView {
        TableRowCountView { table: self.table@, rows: self.rows }
    }
}

/// The tables that `hints` speak of, in order.
pub open spec fn hinted_tables(hints: Seq<TableRowCountView>) -> Seq<Name> {
    Seq::new(hints.len(), |i: int| hints[i].table)
}

/// Whether `table` is known to hold at least one row: the first hint about it says so.
pub open spec fn holds_rows(hints: Seq<TableRowCountView>, table: Name) -> bool {
    match hinted_tables(hints).index_of_first(table) {
        Some(k) => hints[k].rows >= 1,
        None => false,
    }
}

/// Whether a column takes no nulls and has no default.
pub open spec fn is_required(column: ColumnView) -> bool {
    !column.nullable && column.default is None
}

/// Whether the change from `previous` to `next` shrinks a declared size or precision.
pub open spec fn is_narrowed(previous: ColumnView, next: ColumnView) -> bool {
    match (previous.tpe.size, next.tpe.size) {
        (Some(before), Some(after)) => after < before,
        _ => false,
    }
}

/// The findings for the first `n` columns that a rebuild leaves behind: one for each that the
/// new definition lacks, where the table holds rows.
pub open spec fn rebuild_drop_findings(
    step: int,
    previous: Seq<ColumnView>,
    next: Seq<ColumnView>,
    populated: bool,
    n: nat,
) -> Seq<DestructiveChangeDiagnostic> {
    concat_prefix(
        |j: int|
            if populated && find_column(next, previous[j].name) is None {
                seq![finding(step, Reason::ColumnDropped)]
            } else {
                Seq::empty()
            },
        n,
    )
}

/// The finding, if any, for one column of a rebuilt table's new definition.
pub open spec fn rebuild_column_finding(
    step: int,
    previous: Seq<ColumnView>,
    column: ColumnView,
    populated: bool,
) -> Seq<DestructiveChangeDiagnostic> {
    match find_column(previous, column.name) {
        None => if populated && is_required(column) {
            seq![finding(step, Reason::RequiredColumnAdded)]
        } else {
            Seq::empty()
        },
        Some(k) => if is_narrowed(previous[k], column) {
            seq![finding(step, Reason::ColumnNarrowed)]
        } else {
            Seq::empty()
        },
    }
}

/// The findings for the first `n` columns of a rebuilt table's new definition.
pub open spec fn rebuild_column_findings(
    step: int,
    previous: Seq<ColumnView>,
    next: Seq<ColumnView>,
    populated: bool,
    n: nat,
) -> Seq<DestructiveChangeDiagnostic> {
    concat_prefix(|j: int| rebuild_column_finding(step, previous, next[j], populated), n)
}

/// The findings about the step at position `position`.
pub open spec fn step_findings(
    position: int,
    step: DiffStepView,
    hints: Seq<TableRowCountView>,
) -> Seq<DestructiveChangeDiagnostic> {
    match step {
        DiffStepView::DropTable { table } => if holds_rows(hints, table) {
            seq![finding(position, Reason::TableDropped)]
        } else {
            Seq::empty()
        },
        DiffStepView::DropColumn { table, column } => if holds_rows(hints, table) {
            seq![finding(position, Reason::ColumnDropped)]
        } else {
            Seq::empty()
        },
        DiffStepView::AddColumn { table, column } => if holds_rows(hints, table) && is_required(
            column,
        ) {
            seq![finding(position, Reason::RequiredColumnAdded)]
        } else {
            Seq::empty()
        },
        DiffStepView::AlterColumn { table, previous, next } => if is_narrowed(previous, next) {
            seq![finding(position, Reason::ColumnNarrowed)]
        } else {
            Seq::empty()
        },
        DiffStepView::RedefineTable { previous, next } => rebuild_drop_findings(
            position,
            previous.columns,
            next.columns,
            holds_rows(hints, previous.name),
            previous.columns.len(),
        ) + rebuild_column_findings(
            position,
            previous.columns,
            next.columns,
            holds_rows(hints, previous.name),
            next.columns.len(),
        ),
        _ => Seq::empty(),
    }
}

/// The findings about the first `n` steps of a plan.
pub open spec fn findings_upto(
    steps: Seq<DiffStepView>,
    hints: Seq<TableRowCountView>,
    n: nat,
) -> Seq<DestructiveChangeDiagnostic> {
    concat_prefix(|i: int| step_findings(i, steps[i], hints), n)
}

/// The findings about a plan, step by step.
pub open spec fn spec_classify(steps: Seq<DiffStepView>, hints: Seq<TableRowCountView>) -> Seq<
    DestructiveChangeDiagnostic,
> {
    findings_upto(steps, hints, steps.len())
}

/// Whether a plan with these findings may be applied: it may where the caller forces it or no
/// finding is `Unexecutable`.
pub open spec fn spec_may_apply(findings: Seq<DestructiveChangeDiagnostic>, force: bool) -> bool {
    force || forall|k: int|
        0 <= k < findings.len() ==> (#[trigger] findings[k]).severity != Severity::Unexecutable
}


impl Reason {
    /// The sentence that tells a user why a step was flagged.
    pub open spec fn spec_message(self) -> Seq<char> {
        match self {
            Reason::TableDropped => "the table holds rows, which dropping it deletes"@,
            Reason::ColumnDropped => "the table holds rows, whose values in the dropped column are lost"@,
            Reason::RequiredColumnAdded => "the table holds rows, and the added column takes no nulls and has no default"@,
            Reason::ColumnNarrowed => "the column's declared size shrinks, so stored values may be truncated"@,
        }
    }

    /// The sentence that tells a user why a step was flagged.
    pub fn message(self) -> (text: String)
        ensures
            text@ == self.spec_message(),
    {
        match self {
            Reason::TableDropped => "the table holds rows, which dropping it deletes".to_owned(),
            Reason::ColumnDropped => "the table holds rows, whose values in the dropped column are lost".to_owned(),
            Reason::RequiredColumnAdded => "the table holds rows, and the added column takes no nulls and has no default".to_owned(),
            Reason::ColumnNarrowed => "the column's declared size shrinks, so stored values may be truncated".to_owned(),
        }
    }
}

impl DestructiveChangeDiagnostic {
    /// The finding about the step at `step` for `reason`.
    pub fn new(step: usize, reason: Reason) -> (diagnostic: DestructiveChangeDiagnostic)
        ensures
            diagnostic == finding(step as int, reason),
    {
        DestructiveChangeDiagnostic { step, severity: reason.severity(), reason }
    }

    /// The sentence that tells a user why the step was flagged.
    pub fn message(&self) -> (text: String)
        ensures
            text@ == self.reason.spec_message(),
    {
        self.reason.message()
    }
}

/// Whether `table` is known to hold at least one row.
pub fn known_to_hold_rows(hints: &Vec<TableRowCount>, table: &String) -> (populated: bool)
    ensures
        populated == holds_rows(seq_view(hints@), table@),
{
    let ghost names = hinted_tables(seq_view(hints@));
    let mut i: usize = 0;
    while i < hints.len()
        invariant
            0 <= i <= hints.len(),
            names == hinted_tables(seq_view(hints@)),
            forall|j: int| 0 <= j < i ==> names[j] != table@,
        decreases hints.len() - i,
    {
        if hints[i].table == *table {
            proof {
                assert(names[i as int] == table@);
                names.index_of_first_ensures(table@);
            }
            return hints[i].rows >= 1;
        }
        i += 1;
    }
    proof {
        names.index_of_first_ensures(table@);
    }
    false
}

/// Whether a column takes no nulls and has no default.
pub fn column_is_required(column: &Column) -> (required: bool)
    ensures
        required == is_required(column@),
{
    !column.nullable && column.default.is_none()
}

/// Whether the change from `previous` to `next` shrinks a declared size or precision.
pub fn column_is_narrowed(previous: &Column, next: &Column) -> (narrowed: bool)
    ensures
        narrowed == is_narrowed(previous@, next@),
{
    match (previous.tpe.size, next.tpe.size) {
        (Some(before), Some(after)) => after < before,
        _ => false,
    }
}

fn push_rebuild_drop_findings(
    step: usize,
    previous: &Vec<Column>,
    next: &Vec<Column>,
    populated: bool,
    findings: &mut Vec<DestructiveChangeDiagnostic>,
)
    ensures
        final(findings)@ == old(findings)@ + rebuild_drop_findings(
            step as int,
            seq_view(previous@),
            seq_view(next@),
            populated,
            previous@.len(),
        ),
{
    let ghost base = findings@;
    let mut j: usize = 0;
    assert(findings@ =~= base + Seq::<DestructiveChangeDiagnostic>::empty());
    while j < previous.len()
        invariant
            0 <= j <= previous.len(),
            findings@ == base + rebuild_drop_findings(
                step as int,
                seq_view(previous@),
                seq_view(next@),
                populated,
                j as nat,
            ),
        decreases previous.len() - j,
    {
        let ghost done = rebuild_drop_findings(
            step as int,
            seq_view(previous@),
            seq_view(next@),
            populated,
            j as nat,
        );
        if populated && find_column_index(next, &previous[j].name).is_none() {
            findings.push(DestructiveChangeDiagnostic::new(step, Reason::ColumnDropped));
            assert(findings@ =~= base + (done + seq![finding(step as int, Reason::ColumnDropped)]));
        } else {
            assert(findings@ =~= base + (done + Seq::<DestructiveChangeDiagnostic>::empty()));
        }
        j += 1;
    }
}

fn push_rebuild_column_findings(
    step: usize,
    previous: &Vec<Column>,
    next: &Vec<Column>,
    populated: bool,
    findings: &mut Vec<DestructiveChangeDiagnostic>,
)
    ensures
        final(findings)@ == old(findings)@ + rebuild_column_findings(
            step as int,
            seq_view(previous@),
            seq_view(next@),
            populated,
            next@.len(),
        ),
{
    let ghost base = findings@;
    let mut j: usize = 0;
    assert(findings@ =~= base + Seq::<DestructiveChangeDiagnostic>::empty());
    while j < next.len()
        invariant
            0 <= j <= next.len(),
            findings@ == base + rebuild_column_findings(
                step as int,
                seq_view(previous@),
                seq_view(next@),
                populated,
                j as nat,
            ),
        decreases next.len() - j,
    {
        let ghost done = rebuild_column_findings(
            step as int,
            seq_view(previous@),
            seq_view(next@),
            populated,
            j as nat,
        );
        let ghost found = rebuild_column_finding(
            step as int,
            seq_view(previous@),
            seq_view(next@)[j as int],
            populated,
        );
        match find_column_index(previous, &next[j].name) {
            None => {
                if populated && column_is_required(&next[j]) {
                    findings.push(
                        DestructiveChangeDiagnostic::new(step, Reason::RequiredColumnAdded),
                    );
                }
            },
            Some(k) => {
                if column_is_narrowed(&previous[k], &next[j]) {
                    findings.push(DestructiveChangeDiagnostic::new(step, Reason::ColumnNarrowed));
                }
            },
        }
        assert(findings@ =~= base + (done + found));
        j += 1;
    }
}

fn push_step_findings(
    position: usize,
    step: &DiffStep,
    hints: &Vec<TableRowCount>,
    findings: &mut Vec<DestructiveChangeDiagnostic>,
)
    ensures
        final(findings)@ == old(findings)@ + step_findings(
            position as int,
            step@,
            seq_view(hints@),
        ),
{
    let ghost base = findings@;
    let ghost found = step_findings(position as int, step@, seq_view(hints@));
    match step {
        DiffStep::DropTable { table } => {
            if known_to_hold_rows(hints, table) {
                findings.push(DestructiveChangeDiagnostic::new(position, Reason::TableDropped));
            }
            assert(findings@ =~= base + found);
        },
        DiffStep::DropColumn { table, column } => {
            if known_to_hold_rows(hints, table) {
                findings.push(DestructiveChangeDiagnostic::new(position, Reason::ColumnDropped));
            }
            assert(findings@ =~= base + found);
        },
        DiffStep::AddColumn { table, column } => {
            if known_to_hold_rows(hints, table) && column_is_required(column) {
                findings.push(
                    DestructiveChangeDiagnostic::new(position, Reason::RequiredColumnAdded),
                );
            }
            assert(findings@ =~= base + found);
        },
        DiffStep::AlterColumn { table, previous, next } => {
            if column_is_narrowed(previous, next) {
                findings.push(DestructiveChangeDiagnostic::new(position, Reason::ColumnNarrowed));
            }
            assert(findings@ =~= base + found);
        },
        DiffStep::RedefineTable { previous, next } => {
            let populated = known_to_hold_rows(hints, &previous.name);
            push_rebuild_drop_findings(
                position,
                &previous.columns,
                &next.columns,
                populated,
                findings,
            );
            push_rebuild_column_findings(
                position,
                &previous.columns,
                &next.columns,
                populated,
                findings,
            );
            assert(findings@ =~= base + found);
        },
        _ => {
            assert(findings@ =~= base + found);
        },
    }
}

/// Classifies the steps of a plan: which of them lose data, given how many rows the tables
/// were seen to hold. The plan itself is left as it is.
pub fn classify(steps: &Vec<DiffStep>, hints: &Vec<TableRowCount>) -> (findings: Vec<
    DestructiveChangeDiagnostic,
>)
    ensures
        findings@ == spec_classify(seq_view(steps@), seq_view(hints@)),
{
    let mut findings: Vec<DestructiveChangeDiagnostic> = Vec::new();
    let mut i: usize = 0;
    assert(findings@ =~= Seq::<DestructiveChangeDiagnostic>::empty());
    while i < steps.len()
        invariant
            0 <= i <= steps.len(),
            findings@ == findings_upto(seq_view(steps@), seq_view(hints@), i as nat),
        decreases steps.len() - i,
    {
        push_step_findings(i, &steps[i], hints, &mut findings);
        i += 1;
    }
    findings
}

/// Whether a plan with these findings may be applied.
pub fn may_apply(findings: &Vec<DestructiveChangeDiagnostic>, force: bool) -> (allowed: bool)
    ensures
        allowed == spec_may_apply(findings@, force),
{
    if force {
        return true;
    }
    let mut k: usize = 0;
    while k < findings.len()
        invariant
            !force,
            0 <= k <= findings.len(),
            forall|x: int|
                0 <= x < k ==> (#[trigger] findings@[x]).severity != Severity::Unexecutable,
        decreases findings.len() - k,
    {
        if findings[k].severity == Severity::Unexecutable {
            assert(findings@[k as int].severity == Severity::Unexecutable);
            return false;
        }
        k += 1;
    }
    true
}

/// Every finding points at a step of the plan.
pub proof fn lemma_findings_point_into_plan(
    steps: Seq<DiffStepView>,
    hints: Seq<TableRowCountView>,
    k: int,
)
    requires
        steps.len() <= usize::MAX,
        0 <= k < spec_classify(steps, hints).len(),
    ensures
        spec_classify(steps, hints)[k].step < steps.len(),
        spec_classify(steps, hints)[k].severity == spec_classify(
            steps,
            hints,
        )[k].reason.spec_severity(),
{
    let pred = |d: DestructiveChangeDiagnostic|
        d.step < steps.len() && d.severity == d.reason.spec_severity();
    let part = |i: int| step_findings(i, steps[i], hints);
    assert forall|i: int| 0 <= i < steps.len() implies all_meet(
        #[trigger] part(i),
        pred,
    ) by {
        match steps[i] {
            DiffStepView::RedefineTable { previous, next } => {
                let populated = holds_rows(hints, previous.name);
                let drops = rebuild_drop_findings(
                    i,
                    previous.columns,
                    next.columns,
                    populated,
                    previous.columns.len(),
                );
                let changes = rebuild_column_findings(
                    i,
                    previous.columns,
                    next.columns,
                    populated,
                    next.columns.len(),
                );
                let drop_part = |j: int|
                    if populated && find_column(next.columns, previous.columns[j].name) is None {
                        seq![finding(i, Reason::ColumnDropped)]
                    } else {
                        Seq::empty()
                    };
                assert forall|j: int|
                    0 <= j < previous.columns.len() implies all_meet(
                    #[trigger] drop_part(j),
                    pred,
                ) by {}
                lemma_concat_prefix_all(
                    drop_part,
                    previous.columns.len(),
                    pred,
                );
                let change_part = |j: int|
                    rebuild_column_finding(i, previous.columns, next.columns[j], populated);
                assert forall|j: int|
                    0 <= j < next.columns.len() implies all_meet(
                    #[trigger] change_part(j),
                    pred,
                ) by {}
                lemma_concat_prefix_all(change_part, next.columns.len(), pred);
                assert forall|x: int| 0 <= x < (drops + changes).len() implies pred(
                    #[trigger] (drops + changes)[x],
                ) by {
                    if x < drops.len() {
                        assert((drops + changes)[x] == drops[x]);
                    } else {
                        assert((drops + changes)[x] == changes[x - drops.len()]);
                    }
                }
            },
            _ => {},
        }
    }
    lemma_concat_prefix_all(part, steps.len(), pred);
}

/// Every drop of a table or of a column, where the table is known to hold at least one row,
/// has its finding, and the finding is `Unexecutable`.
pub proof fn lemma_populated_drop_is_flagged(
    steps: Seq<DiffStepView>,
    hints: Seq<TableRowCountView>,
    i: int,
)
    requires
        0 <= i < steps.len() <= usize::MAX,
        match steps[i] {
            DiffStepView::DropTable { table } => holds_rows(hints, table),
            DiffStepView::DropColumn { table, column } => holds_rows(hints, table),
            _ => false,
        },
    ensures
        exists|k: int|
            0 <= k < spec_classify(steps, hints).len() && (#[trigger] spec_classify(
                steps,
                hints,
            )[k]).step == i && spec_classify(steps, hints)[k].severity == Severity::Unexecutable,
        steps[i] is DropTable ==> spec_classify(steps, hints).contains(
            finding(i, Reason::TableDropped),
        ),
        steps[i] is DropColumn ==> spec_classify(steps, hints).contains(
            finding(i, Reason::ColumnDropped),
        ),
{
    let reason = if steps[i] is DropTable {
        Reason::TableDropped
    } else {
        Reason::ColumnDropped
    };
    let part = |x: int| step_findings(x, steps[x], hints);
    assert(part(i)[0] == finding(i, reason));
    lemma_concat_prefix_member(part, steps.len(), i, finding(i, reason));
    let all = spec_classify(steps, hints);
    let k = choose|k: int| 0 <= k < all.len() && all[k] == finding(i, reason);
    assert(all[k].step == i);
}

/// A rebuild that leaves a column behind, where the table is known to hold at least one row,
/// is flagged as `Unexecutable` like the drop of that column.
pub proof fn lemma_populated_rebuild_drop_is_flagged(
    steps: Seq<DiffStepView>,
    hints: Seq<TableRowCountView>,
    i: int,
    j: int,
)
    requires
        0 <= i < steps.len() <= usize::MAX,
        match steps[i] {
            DiffStepView::RedefineTable { previous, next } => {
                &&& holds_rows(hints, previous.name)
                &&& 0 <= j < previous.columns.len()
                &&& find_column(next.columns, previous.columns[j].name) is None
            },
            _ => false,
        },
    ensures
        spec_classify(steps, hints).contains(finding(i, Reason::ColumnDropped)),
{
    match steps[i] {
        DiffStepView::RedefineTable { previous, next } => {
            let d = finding(i, Reason::ColumnDropped);
            let drop_part = |y: int|
                if holds_rows(hints, previous.name) && find_column(
                    next.columns,
                    previous.columns[y].name,
                ) is None {
                    seq![finding(i, Reason::ColumnDropped)]
                } else {
                    Seq::empty()
                };
            assert(drop_part(j)[0] == d);
            lemma_concat_prefix_member(drop_part, previous.columns.len(), j, d);
            let drops = rebuild_drop_findings(
                i,
                previous.columns,
                next.columns,
                holds_rows(hints, previous.name),
                previous.columns.len(),
            );
            let m = choose|m: int| 0 <= m < drops.len() && drops[m] == d;
            let part = |x: int| step_findings(x, steps[x], hints);
            assert(part(i)[m] == d);
            lemma_concat_prefix_member(part, steps.len(), i, d);
        },
        _ => {},
    }
}

/// A plan with an `Unexecutable` finding may be applied only where the caller forces it.
pub proof fn lemma_unexecutable_blocks_unless_forced(
    findings: Seq<DestructiveChangeDiagnostic>,
    k: int,
)
    requires
        0 <= k < findings.len(),
        findings[k].severity == Severity::Unexecutable,
    ensures
        !spec_may_apply(findings, false),
        spec_may_apply(findings, true),
{
}

/// The first of the first `n` findings that is `Unexecutable`.
pub open spec fn first_blocking(findings: Seq<DestructiveChangeDiagnostic>, n: nat) -> Option<
    DestructiveChangeDiagnostic,
>
    decreases n,
{
    if n == 0 {
        None
    } else {
        match first_blocking(findings, (n - 1) as nat) {
            Some(finding) => Some(finding),
            None => if findings[n - 1].severity == Severity::Unexecutable {
                Some(findings[n - 1])
            } else {
                None
            },
        }
    }
}

/// The first `Unexecutable` finding, if there is one: the step that blocks the plan, and why.
pub fn blocking_finding(findings: &Vec<DestructiveChangeDiagnostic>) -> (finding: Option<
    DestructiveChangeDiagnostic,
>)
    ensures
        finding == first_blocking(findings@, findings@.len()),
        finding is None == spec_may_apply(findings@, false),
        finding is Some ==> finding.unwrap().severity == Severity::Unexecutable
            && findings@.contains(finding.unwrap()),
{
    let mut k: usize = 0;
    while k < findings.len()
        invariant
            0 <= k <= findings.len(),
            first_blocking(findings@, k as nat) is None,
            forall|x: int|
                0 <= x < k ==> (#[trigger] findings@[x]).severity != Severity::Unexecutable,
        decreases findings.len() - k,
    {
        if findings[k].severity == Severity::Unexecutable {
            proof {
                assert(findings@[k as int].severity == Severity::Unexecutable);
                lemma_first_blocking_stays(findings@, (k + 1) as nat, findings@.len());
            }
            return Some(findings[k]);
        }
        k += 1;
    }
    None
}

/// Once a blocking finding is found among the first `n`, it is the first among more.
pub proof fn lemma_first_blocking_stays(
    findings: Seq<DestructiveChangeDiagnostic>,
    n: nat,
    m: nat,
)
    requires
        n <= m,
        first_blocking(findings, n) is Some,
    ensures
        first_blocking(findings, m) == first_blocking(findings, n),
    decreases m,
{
    if n < m {
        lemma_first_blocking_stays(findings, n, (m - 1) as nat);
    }
}

} // verus!
