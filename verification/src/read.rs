//! Read query AST.
use crate::schema::seq_view;
use crate::text::{decimal, join, spec_decimal, spec_joined};
use vstd::prelude::*;
use vstd::string::StringExecFns;
use vstd::std_specs::convert::FromSpec;
use vstd::std_specs::convert::FromSpecImpl;

verus! {

/// A model of the data source, by name.
#[derive(Clone, Debug, PartialEq, Eq)]
pub struct Model {
    pub name: String,
}

/// A field of a model that relates it to another model.
#[derive(Clone, Debug, PartialEq, Eq)]
pub struct RelationField {
    pub name: String,
    /// The model that has the field.
    pub model: Model,
    /// The model at the other end of the relation.
    pub related_model: Model,
}

/// A condition on records, in the data source's own notation.
#[derive(Clone, Debug, PartialEq, Eq)]
pub struct Filter {
    pub expression: String,
}

/// The arguments of a query for many records.
#[derive(Clone, Debug, PartialEq, Eq)]
pub struct QueryArguments {
    pub filter: Option<Filter>,
    pub skip: Option<u64>,
    pub take: Option<u64>,
}

/// The fields that a query selects, by name.
#[derive(Clone, Debug, PartialEq, Eq)]
pub struct FieldSelection {
    pub fields: Vec<String>,
}

impl FieldSelection {
    /// Whether the selection holds every field of `other`.
    pub open spec fn spec_is_superset_of(&self, other: &FieldSelection) -> bool {
        forall|j: int|
            0 <= j < other.fields@.len() ==> seq_view(self.fields@).contains(
                #[trigger] seq_view(other.fields@)[j],
            )
    }

    /// Whether the selection holds the field called `name`.
    pub fn contains(&self, name: &String) -> (found: bool)
        ensures
            found == seq_view(self.fields@).contains(name@),
    {
        let mut i: usize = 0;
        while i < self.fields.len()
            invariant
                0 <= i <= self.fields.len(),
                forall|k: int| 0 <= k < i ==> seq_view(self.fields@)[k] != name@,
            decreases self.fields.len() - i,
        {
            if self.fields[i] == *name {
                assert(seq_view(self.fields@)[i as int] == name@);
                return true;
            }
            i += 1;
        }
        false
    }

    /// Whether the selection holds every field of `other`.
    pub fn is_superset_of(&self, other: &FieldSelection) -> (superset: bool)
        ensures
            superset == self.spec_is_superset_of(other),
    {
        let mut j: usize = 0;
        while j < other.fields.len()
            invariant
                0 <= j <= other.fields.len(),
                forall|k: int|
                    0 <= k < j ==> seq_view(self.fields@).contains(
                        #[trigger] seq_view(other.fields@)[k],
                    ),
            decreases other.fields.len() - j,
        {
            if !self.contains(&other.fields[j]) {
                assert(!seq_view(self.fields@).contains(seq_view(other.fields@)[j as int]));
                return false;
            }
            j += 1;
        }
        true
    }
}

/// One option of a query.
#[derive(Debug, Copy, Clone, PartialEq, Eq, Structural)]
pub enum QueryOption {
    ThrowOnEmpty,
    Other,
}

impl QueryOption {
    /// The bit that stands for the option.
    pub open spec fn spec_bit(self) -> u8 {
        match self {
            QueryOption::ThrowOnEmpty => 1u8,
            QueryOption::Other => 2u8,
        }
    }

    /// The bit that stands for the option.
    pub fn bit(self) -> (bit: u8)
        ensures
            bit == self.spec_bit(),
    {
        match self {
            QueryOption::ThrowOnEmpty => 1u8,
            QueryOption::Other => 2u8,
        }
    }
}

/// A set of query options.
#[derive(Debug, Copy, Clone, PartialEq, Eq, Structural)]
pub struct QueryOptions(pub u8);

impl QueryOptions {
    /// Whether `option` is in the set.
    pub open spec fn spec_contains(&self, option: QueryOption) -> bool {
        self.0 & option.spec_bit() == option.spec_bit()
    }

    /// The set without options.
    pub fn none() -> (options: QueryOptions)
        ensures
            options.0 == 0,
            forall|option: QueryOption| !options.spec_contains(option),
    {
        assert(0u8 & 1u8 != 1u8 && 0u8 & 2u8 != 2u8) by (bit_vector);
        QueryOptions(0)
    }

    /// Whether `option` is in the set.
    pub fn contains(&self, option: QueryOption) -> (found: bool)
        ensures
            found == self.spec_contains(option),
    {
        self.0 & option.bit() == option.bit()
    }

    /// The options that are in either set.
    pub fn union(self, other: QueryOptions) -> (options: QueryOptions)
        ensures
            options.0 == self.0 | other.0,
            forall|option: QueryOption|
                options.spec_contains(option) == (self.spec_contains(option)
                    || other.spec_contains(option)),
    {
        let a: u8 = self.0;
        let b: u8 = other.0;
        assert(((a | b) & 1u8 == 1u8) == ((a & 1u8 == 1u8) || (b & 1u8 == 1u8))) by (bit_vector);
        assert(((a | b) & 2u8 == 2u8) == ((a & 2u8 == 2u8) || (b & 2u8 == 2u8))) by (bit_vector);
        QueryOptions(a | b)
    }
}

impl From<QueryOption> for QueryOptions {
    fn from(options: QueryOption) -> (set: QueryOptions) {
        QueryOptions(options.bit())
    }
}

impl FromSpecImpl<QueryOption> for QueryOptions {
    open spec fn obeys_from_spec() -> bool {
        true
    }

    open spec fn from_spec(options: QueryOption) -> QueryOptions {
        QueryOptions(options.spec_bit())
    }
}

/// The set that holds `option` and nothing else.
pub proof fn lemma_single_option(option: QueryOption, other: QueryOption)
    ensures
        <QueryOptions as FromSpec<QueryOption>>::from_spec(option).spec_contains(other) == (other
            == option),
{
    assert(1u8 & 1u8 == 1u8 && 2u8 & 2u8 == 2u8 && 1u8 & 2u8 != 2u8 && 2u8 & 1u8 != 1u8)
        by (bit_vector);
}

/// A query for one record of a model.
#[derive(Debug)]
pub struct RecordQuery {
    pub name: String,
    pub alias: Option<String>,
    pub model: Model,
    pub filter: Option<Filter>,
    pub selected_fields: FieldSelection,
    pub nested: Vec<ReadQuery>,
    pub selection_order: Vec<String>,
    pub aggregation_selections: Vec<String>,
    pub options: QueryOptions,
}

/// A query for the records of a model that meet the arguments.
#[derive(Debug)]
pub struct ManyRecordsQuery {
    pub name: String,
    pub alias: Option<String>,
    pub model: Model,
    pub args: QueryArguments,
    pub selected_fields: FieldSelection,
    pub nested: Vec<ReadQuery>,
    pub selection_order: Vec<String>,
    pub aggregation_selections: Vec<String>,
    pub options: QueryOptions,
}

/// A query for the records that a relation field of the parent leads to.
#[derive(Debug)]
pub struct RelatedRecordsQuery {
    pub name: String,
    pub alias: Option<String>,
    pub parent_field: RelationField,
    pub args: QueryArguments,
    pub selected_fields: FieldSelection,
    pub nested: Vec<ReadQuery>,
    pub selection_order: Vec<String>,
    pub aggregation_selections: Vec<String>,
    /// Fields and values of the parent to satisfy the relation query without
    /// relying on the parent result passed by the interpreter.
    pub parent_results: Option<Vec<Vec<(String, String)>>>,
}

/// A query for aggregates over the records of a model.
#[derive(Debug, Clone)]
pub struct AggregateRecordsQuery {
    pub name: String,
    pub alias: Option<String>,
    pub model: Model,
    pub selection_order: Vec<(String, Option<Vec<String>>)>,
    pub args: QueryArguments,
    pub selectors: Vec<String>,
    pub group_by: Vec<String>,
    pub having: Option<Filter>,
}

/// A read query.
#[allow(clippy::enum_variant_names)]
#[derive(Debug)]
pub enum ReadQuery {
    RecordQuery(RecordQuery),
    ManyRecordsQuery(ManyRecordsQuery),
    RelatedRecordsQuery(RelatedRecordsQuery),
    AggregateRecordsQuery(AggregateRecordsQuery),
}

impl RecordQuery {
    /// The filter of the query, if it has one, for the caller to change in place.
    pub fn get_filter(&mut self) -> (filter: Option<&mut Filter>)
        ensures
            match old(self).filter {
                None => filter is None && *final(self) == *old(self),
                Some(f) => filter is Some && *filter.unwrap() == f && *final(self) == (RecordQuery {
                    filter: Some(*final(filter.unwrap())),
                    ..*old(self)
                }),
            },
    {
        self.filter.as_mut()
    }

    /// Gives the query the filter `filter`.
    pub fn set_filter(&mut self, filter: Filter)
        ensures
            *final(self) == (RecordQuery { filter: Some(filter), ..*old(self) }),
    {
        self.filter = Some(filter)
    }
}

impl ManyRecordsQuery {
    /// The filter of the query, if it has one, for the caller to change in place.
    pub fn get_filter(&mut self) -> (filter: Option<&mut Filter>)
        ensures
            match old(self).args.filter {
                None => filter is None && *final(self) == *old(self),
                Some(f) => filter is Some && *filter.unwrap() == f && *final(self) == (
                ManyRecordsQuery {
                    args: QueryArguments {
                        filter: Some(*final(filter.unwrap())),
                        ..old(self).args
                    },
                    ..*old(self)
                }),
            },
    {
        self.args.filter.as_mut()
    }

    /// Gives the query the filter `filter`.
    pub fn set_filter(&mut self, filter: Filter)
        ensures
            *final(self) == (ManyRecordsQuery {
                args: QueryArguments { filter: Some(filter), ..old(self).args },
                ..*old(self)
            }),
    {
        self.args.filter = Some(filter)
    }
}

impl ReadQuery {
    /// Whether queries of this kind carry a filter that can be read and set.
    pub open spec fn is_filterable(&self) -> bool {
        self is RecordQuery || self is ManyRecordsQuery
    }

    /// Whether the query selects every field of `field_selection`: no aggregate query does.
    pub open spec fn spec_returns_fields(&self, field_selection: &FieldSelection) -> bool {
        match self {
            ReadQuery::RecordQuery(x) => x.selected_fields.spec_is_superset_of(field_selection),
            ReadQuery::ManyRecordsQuery(x) => x.selected_fields.spec_is_superset_of(
                field_selection,
            ),
            ReadQuery::RelatedRecordsQuery(x) => x.selected_fields.spec_is_superset_of(
                field_selection,
            ),
            ReadQuery::AggregateRecordsQuery(_x) => false,
        }
    }

    /// The model whose records the query reads.
    pub open spec fn spec_model(&self) -> Model {
        match self {
            ReadQuery::RecordQuery(x) => x.model,
            ReadQuery::ManyRecordsQuery(x) => x.model,
            ReadQuery::RelatedRecordsQuery(x) => x.parent_field.related_model,
            ReadQuery::AggregateRecordsQuery(x) => x.model,
        }
    }

    /// Checks whether or not this query returns a specific set of fields from the underlying
    /// data source model.
    pub fn returns_fields(&self, field_selection: &FieldSelection) -> (yes: bool)
        ensures
            yes == self.spec_returns_fields(field_selection),
    {
        match self {
            ReadQuery::RecordQuery(x) => x.selected_fields.is_superset_of(field_selection),
            ReadQuery::ManyRecordsQuery(x) => x.selected_fields.is_superset_of(field_selection),
            ReadQuery::RelatedRecordsQuery(x) => x.selected_fields.is_superset_of(field_selection),
            ReadQuery::AggregateRecordsQuery(_x) => false,
        }
    }

    /// The model whose records the query reads: for a query of related records, the model at
    /// the other end of the parent's relation field.
    pub fn model(&self) -> (model: Model)
        ensures
            model.name@ == self.spec_model().name@,
    {
        match self {
            ReadQuery::RecordQuery(x) => Model { name: x.model.name.clone() },
            ReadQuery::ManyRecordsQuery(x) => Model { name: x.model.name.clone() },
            ReadQuery::RelatedRecordsQuery(x) => Model {
                name: x.parent_field.related_model.name.clone(),
            },
            ReadQuery::AggregateRecordsQuery(x) => Model { name: x.model.name.clone() },
        }
    }

    /// The filter of the query, if it has one, for the caller to change in place.
    pub fn get_filter(&mut self) -> (filter: Option<&mut Filter>)
        requires
            old(self).is_filterable(),
        ensures
            match *old(self) {
                ReadQuery::RecordQuery(q) => match q.filter {
                    None => filter is None && *final(self) == *old(self),
                    Some(f) => filter is Some && *filter.unwrap() == f && *final(self)
                        == ReadQuery::RecordQuery(
                        RecordQuery { filter: Some(*final(filter.unwrap())), ..q },
                    ),
                },
                ReadQuery::ManyRecordsQuery(q) => match q.args.filter {
                    None => filter is None && *final(self) == *old(self),
                    Some(f) => filter is Some && *filter.unwrap() == f && *final(self)
                        == ReadQuery::ManyRecordsQuery(
                        ManyRecordsQuery {
                            args: QueryArguments {
                                filter: Some(*final(filter.unwrap())),
                                ..q.args
                            },
                            ..q
                        },
                    ),
                },
                _ => false,
            },
    {
        match self {
            ReadQuery::RecordQuery(q) => q.get_filter(),
            ReadQuery::ManyRecordsQuery(q) => q.get_filter(),
            _ => vstd::pervasive::unreached(),
        }
    }

    /// Gives the query the filter `filter`.
    pub fn set_filter(&mut self, filter: Filter)
        requires
            old(self).is_filterable(),
        ensures
            match *old(self) {
                ReadQuery::RecordQuery(q) => *final(self) == ReadQuery::RecordQuery(
                    RecordQuery { filter: Some(filter), ..q },
                ),
                ReadQuery::ManyRecordsQuery(q) => *final(self) == ReadQuery::ManyRecordsQuery(
                    ManyRecordsQuery {
                        args: QueryArguments { filter: Some(filter), ..q.args },
                        ..q
                    },
                ),
                _ => false,
            },
    {
        match self {
            ReadQuery::RecordQuery(q) => q.set_filter(filter),
            ReadQuery::ManyRecordsQuery(q) => q.set_filter(filter),
            _ => vstd::pervasive::unreached(),
        }
    }
}

/// A selection as it is shown to a reader.
pub open spec fn spec_selection_text(selection: &FieldSelection) -> Seq<char> {
    "FieldSelection { fields: ["@ + spec_joined(
        seq_view(selection.fields@),
        ", "@,
        selection.fields@.len(),
    ) + "] }"@
}

/// An optional filter as it is shown to a reader.
pub open spec fn spec_filter_text(filter: Option<Filter>) -> Seq<char> {
    match filter {
        Some(f) => "Some("@ + f.expression@ + ")"@,
        None => "None"@,
    }
}

impl FieldSelection {
    /// The selection as it is shown to a reader.
    pub fn to_text(&self) -> (text: String)
        ensures
            text@ == spec_selection_text(self),
    {
        let mut text = String::from_str("FieldSelection { fields: [");
        text.append(join(&self.fields, ", ").as_str());
        text.append("] }");
        text
    }
}

impl ReadQuery {
    /// The query as a node of a graph drawing.
    pub open spec fn spec_graphviz(&self) -> Seq<char> {
        match self {
            ReadQuery::RecordQuery(q) => "RecordQuery(name: '"@ + q.name@ + "', selection: "@
                + spec_selection_text(&q.selected_fields) + ")"@,
            ReadQuery::ManyRecordsQuery(q) => "ManyRecordsQuery(name: '"@ + q.name@
                + "', model: '"@ + q.model.name@ + "', selection: "@ + spec_selection_text(
                &q.selected_fields,
            ) + ")"@,
            ReadQuery::RelatedRecordsQuery(q) => "RelatedRecordsQuery(name: '"@ + q.name@
                + "', parent model: '"@ + q.parent_field.model.name@
                + "', parent relation field: "@ + q.parent_field.name@ + ", selection: "@
                + spec_selection_text(&q.selected_fields) + ")"@,
            ReadQuery::AggregateRecordsQuery(q) => "AggregateRecordsQuery: "@ + q.name@,
        }
    }

    /// The query as a node of a graph drawing.
    pub fn to_graphviz(&self) -> (text: String)
        ensures
            text@ == self.spec_graphviz(),
    {
        match self {
            ReadQuery::RecordQuery(q) => {
                let mut text = String::from_str("RecordQuery(name: '");
                text.append(q.name.as_str());
                text.append("', selection: ");
                text.append(q.selected_fields.to_text().as_str());
                text.append(")");
                text
            },
            ReadQuery::ManyRecordsQuery(q) => {
                let mut text = String::from_str("ManyRecordsQuery(name: '");
                text.append(q.name.as_str());
                text.append("', model: '");
                text.append(q.model.name.as_str());
                text.append("', selection: ");
                text.append(q.selected_fields.to_text().as_str());
                text.append(")");
                text
            },
            ReadQuery::RelatedRecordsQuery(q) => {
                let mut text = String::from_str("RelatedRecordsQuery(name: '");
                text.append(q.name.as_str());
                text.append("', parent model: '");
                text.append(q.parent_field.model.name.as_str());
                text.append("', parent relation field: ");
                text.append(q.parent_field.name.as_str());
                text.append(", selection: ");
                text.append(q.selected_fields.to_text().as_str());
                text.append(")");
                text
            },
            ReadQuery::AggregateRecordsQuery(q) => {
                let mut text = String::from_str("AggregateRecordsQuery: ");
                text.append(q.name.as_str());
                text
            },
        }
    }

    /// The query as it is shown to a reader.
    pub open spec fn spec_to_string(&self) -> Seq<char> {
        match self {
            ReadQuery::RecordQuery(q) => "RecordQuery(name: '"@ + q.name@ + "', selection: "@
                + spec_selection_text(&q.selected_fields) + ", filter: "@ + spec_filter_text(
                q.filter,
            ) + ")"@,
            ReadQuery::ManyRecordsQuery(q) => "ManyRecordsQuery(name: '"@ + q.name@
                + "', model: '"@ + q.model.name@ + "', selection: "@ + spec_selection_text(
                &q.selected_fields,
            ) + ", args: "@ + spec_arguments_text(q.args) + ")"@,
            _ => self.spec_graphviz(),
        }
    }

    /// The query as it is shown to a reader: what the graph drawing shows, and before its
    /// closing parenthesis the filter of a query for one record, or the arguments of a query
    /// for many.
    pub fn to_string(&self) -> (text: String)
        ensures
            text@ == self.spec_to_string(),
    {
        match self {
            ReadQuery::RecordQuery(q) => {
                let mut text = String::from_str("RecordQuery(name: '");
                text.append(q.name.as_str());
                text.append("', selection: ");
                text.append(q.selected_fields.to_text().as_str());
                text.append(", filter: ");
                text.append(filter_text(&q.filter).as_str());
                text.append(")");
                text
            },
            ReadQuery::ManyRecordsQuery(q) => {
                let mut text = String::from_str("ManyRecordsQuery(name: '");
                text.append(q.name.as_str());
                text.append("', model: '");
                text.append(q.model.name.as_str());
                text.append("', selection: ");
                text.append(q.selected_fields.to_text().as_str());
                text.append(", args: ");
                text.append(arguments_text(&q.args).as_str());
                text.append(")");
                text
            },
            _ => self.to_graphviz(),
        }
    }
}

/// An optional filter as it is shown to a reader.
pub fn filter_text(filter: &Option<Filter>) -> (text: String)
    ensures
        text@ == spec_filter_text(*filter),
{
    match filter {
        Some(f) => {
            let mut text = String::from_str("Some(");
            text.append(f.expression.as_str());
            text.append(")");
            text
        },
        None => String::from_str("None"),
    }
}

/// An optional count as it is shown to a reader.
pub open spec fn spec_count_text(count: Option<u64>) -> Seq<char> {
    match count {
        Some(n) => "Some("@ + spec_decimal(n as nat) + ")"@,
        None => "None"@,
    }
}

/// An optional count as it is shown to a reader.
pub fn count_text(count: Option<u64>) -> (text: String)
    ensures
        text@ == spec_count_text(count),
{
    match count {
        Some(n) => {
            let mut text = String::from_str("Some(");
            text.append(decimal(n).as_str());
            text.append(")");
            text
        },
        None => String::from_str("None"),
    }
}

/// The arguments of a query as they are shown to a reader: each field by name, in the order
/// in which the type declares them.
pub open spec fn spec_arguments_text(arguments: QueryArguments) -> Seq<char> {
    "QueryArguments { filter: "@ + spec_filter_text(arguments.filter) + ", skip: "@
        + spec_count_text(arguments.skip) + ", take: "@ + spec_count_text(arguments.take)
        + " }"@
}

/// The arguments of a query as they are shown to a reader.
pub fn arguments_text(arguments: &QueryArguments) -> (text: String)
    ensures
        text@ == spec_arguments_text(*arguments),
{
    let mut text = String::from_str("QueryArguments { filter: ");
    text.append(filter_text(&arguments.filter).as_str());
    text.append(", skip: ");
    text.append(count_text(arguments.skip).as_str());
    text.append(", take: ");
    text.append(count_text(arguments.take).as_str());
    text.append(" }");
    text
}

/// What a query shows to a reader is what its graph drawing shows, with one addition before
/// the closing parenthesis: the filter for a query for one record, the arguments for a query
/// for many records, and nothing for the others.
pub proof fn lemma_text_extends_drawing(query: ReadQuery)
    ensures
        query.spec_to_string() == match query {
            ReadQuery::RecordQuery(q) => query.spec_graphviz().drop_last() + ", filter: "@
                + spec_filter_text(q.filter) + ")"@,
            ReadQuery::ManyRecordsQuery(q) => query.spec_graphviz().drop_last() + ", args: "@
                + spec_arguments_text(q.args) + ")"@,
            _ => query.spec_graphviz(),
        },
{
    reveal_strlit(")");
    match query {
        ReadQuery::RecordQuery(q) => {
            let head = "RecordQuery(name: '"@ + q.name@ + "', selection: "@ + spec_selection_text(
                &q.selected_fields,
            );
            assert((head + ")"@).drop_last() =~= head);
        },
        ReadQuery::ManyRecordsQuery(q) => {
            let head = "ManyRecordsQuery(name: '"@ + q.name@ + "', model: '"@ + q.model.name@
                + "', selection: "@ + spec_selection_text(&q.selected_fields);
            assert((head + ")"@).drop_last() =~= head);
        },
        _ => {},
    }
}

} // verus!
