//! The immutable output of a parse: [`Report`]s grouped into a tree of
//! [`Collection`]s, and the depth-first traversal used by capability probes.

use vstd::prelude::*;

use crate::Error;
use crate::parser::ParserGlobalState;
use crate::parser::ParserLocalState;

verus! {

/// The direction of a report: which main-item tag produced it.
#[derive(Debug, Clone, Copy, PartialEq, Eq, Structural)]
pub enum ReportType {
    Input,
    Output,
    Feature,
}

/// One fully resolved Input/Output/Feature declaration, combining the global
/// and local parser state current at the moment its main-item tag was seen.
/// Immutable once built.
#[derive(Debug, Clone, Copy, PartialEq, Eq, Structural)]
pub struct Report {
    pub r_type: ReportType,
    pub usage_page: u32,
    pub usage: u32,
    pub usage_minimum: Option<u32>,
    pub usage_maximum: Option<u32>,
    pub report_size: u32,
    pub report_id: u32,
    pub report_count: u32,
    pub logical_minimum: i32,
    pub logical_maximum: i32,
    pub physical_minimum: Option<i32>,
    pub physical_maximum: Option<i32>,
}

/// A grouping of reports: the reports declared directly inside it, in
/// declaration order, followed by the collections nested inside it, in the
/// order they were closed. The collection-type value seen during parsing is
/// deliberately dropped from this output form.
#[derive(Debug, PartialEq, Eq)]
pub struct Collection {
    pub reports: Vec<Report>,
    pub nested: Vec<Collection>,
}

/// The mathematical shape of a [`Collection`]: the same tree over `Seq`.
#[verifier::ext_equal]
pub struct CollectionModel {
    pub reports: Seq<Report>,
    pub nested: Seq<CollectionModel>,
}

/// The model of a collection tree.
pub open spec fn collection_model(c: Collection) -> CollectionModel
    decreases c, 1int, 0int,
{
    CollectionModel {
        reports: c.reports@,
        nested: collections_model(c.nested, c.nested@.len() as int),
    }
}

/// The models of the first `n` collections of `v`, in order.
pub open spec fn collections_model(v: Vec<Collection>, n: int) -> Seq<CollectionModel>
    decreases v, 0int, n,
{
    if n <= 0 || n > v@.len() {
        Seq::empty()
    } else {
        collections_model(v, n - 1).push(collection_model(v[n - 1]))
    }
}

/// `collections_model` takes one model per collection, in order.
pub proof fn lemma_collections_model(v: Vec<Collection>, n: int)
    requires
        0 <= n <= v@.len(),
    ensures
        collections_model(v, n).len() == n,
        forall|i: int| 0 <= i < n ==> collections_model(v, n)[i] == collection_model(v[i]),
    decreases n,
{
    if n > 0 {
        lemma_collections_model(v, n - 1);
    }
}

impl View for Collection {
    type V = CollectionModel;

    open spec fn view(&self) -> CollectionModel {
        collection_model(*self)
    }
}

/// The depth-first traversal of a collection: its own reports first, in
/// declaration order, then every nested collection's full traversal, in the
/// order the nested collections were appended.
pub open spec fn spec_traversal(c: CollectionModel) -> Seq<Report>
    decreases c, 1int, 0int,
{
    c.reports + spec_traversal_nested(c.nested, c.nested.len() as int)
}

/// The concatenated traversals of the first `n` collections of `s`.
pub open spec fn spec_traversal_nested(s: Seq<CollectionModel>, n: int) -> Seq<Report>
    decreases s, 0int, n,
{
    if n <= 0 || n > s.len() {
        Seq::empty()
    } else {
        spec_traversal_nested(s, n - 1) + spec_traversal(s[n - 1])
    }
}

impl Collection {
    /// Collect the depth-first traversal of this collection: direct reports
    /// first, then each nested collection's traversal in order.
    pub fn iter(&self) -> (out: Vec<Report>)
        ensures
            out@ == spec_traversal(self@),
        decreases *self,
    {
        let mut out: Vec<Report> = Vec::new();
        let mut i: usize = 0;
        while i < self.reports.len()
            invariant
                i <= self.reports@.len(),
                out@ == self.reports@.take(i as int),
            decreases self.reports@.len() - i,
        {
            out.push(self.reports[i]);
            assert(self.reports@.take(i + 1) == self.reports@.take(i as int).push(
                self.reports@[i as int],
            ));
            i = i + 1;
        }
        assert(out@ == self.reports@) by {
            assert(self.reports@.take(self.reports@.len() as int) =~= self.reports@);
        }
        proof {
            lemma_collections_model(self.nested, self.nested@.len() as int);
        }
        let mut j: usize = 0;
        while j < self.nested.len()
            invariant
                j <= self.nested@.len(),
                out@ == self@.reports + spec_traversal_nested(self@.nested, j as int),
                self@ == collection_model(*self),
                self@.nested.len() == self.nested@.len(),
                forall|k: int|
                    0 <= k < self.nested@.len() ==> self@.nested[k] == collection_model(
                        self.nested@[k],
                    ),
            decreases self.nested@.len() - j,
        {
            let mut sub = self.nested[j].iter();
            out.append(&mut sub);
            assert(spec_traversal_nested(self@.nested, j + 1) == spec_traversal_nested(
                self@.nested,
                j as int,
            ) + spec_traversal(self@.nested[j as int]));
            j = j + 1;
        }
        out
    }
}

/// What a main item yields from the given global and local state: either the
/// finished report, or the error for the first required-but-unset field.
/// The check order is fixed: usage page, usage, report size, report count,
/// logical minimum, logical maximum. A missing report id is no error: it
/// defaults to 1.
pub open spec fn spec_report_from_states(
    r_type: ReportType,
    global: ParserGlobalState,
    local: ParserLocalState,
) -> Result<Report, Error> {
    if global.usage_page is None {
        Err(Error::UsagePageNotSet)
    } else if local.usage is None {
        Err(Error::UsageNotSet)
    } else if global.report_size is None {
        Err(Error::ReportSizeNotSet)
    } else if global.report_count is None {
        Err(Error::ReportCountNotSet)
    } else if global.logical_minimum is None {
        Err(Error::LogicalMinimumNotSet)
    } else if global.logical_maximum is None {
        Err(Error::LogicalMaximumNotSet)
    } else {
        Ok(Report {
            r_type,
            usage_page: global.usage_page->0,
            usage: local.usage->0,
            usage_minimum: local.usage_minimum,
            usage_maximum: local.usage_maximum,
            report_size: global.report_size->0,
            report_id: if global.report_id is Some { global.report_id->0 } else { 1 },
            report_count: global.report_count->0,
            logical_minimum: global.logical_minimum->0,
            logical_maximum: global.logical_maximum->0,
            physical_minimum: global.physical_minimum,
            physical_maximum: global.physical_maximum,
        })
    }
}

/// Required-field gating: a main item fails on the first required field that
/// is still unset, in the fixed check order usage page, usage, report size,
/// report count, logical minimum, logical maximum; it succeeds exactly when
/// all six are set.
pub proof fn lemma_required_field_gating(
    r_type: ReportType,
    global: ParserGlobalState,
    local: ParserLocalState,
)
    ensures
        global.usage_page is None ==> spec_report_from_states(r_type, global, local) == Err::<
            Report,
            Error,
        >(Error::UsagePageNotSet),
        global.usage_page is Some && local.usage is None ==> spec_report_from_states(
            r_type,
            global,
            local,
        ) == Err::<Report, Error>(Error::UsageNotSet),
        global.usage_page is Some && local.usage is Some && global.report_size is None
            ==> spec_report_from_states(r_type, global, local) == Err::<Report, Error>(
            Error::ReportSizeNotSet,
        ),
        global.usage_page is Some && local.usage is Some && global.report_size is Some
            && global.report_count is None ==> spec_report_from_states(r_type, global, local)
            == Err::<Report, Error>(Error::ReportCountNotSet),
        global.usage_page is Some && local.usage is Some && global.report_size is Some
            && global.report_count is Some && global.logical_minimum is None
            ==> spec_report_from_states(r_type, global, local) == Err::<Report, Error>(
            Error::LogicalMinimumNotSet,
        ),
        global.usage_page is Some && local.usage is Some && global.report_size is Some
            && global.report_count is Some && global.logical_minimum is Some
            && global.logical_maximum is None ==> spec_report_from_states(r_type, global, local)
            == Err::<Report, Error>(Error::LogicalMaximumNotSet),
        spec_report_from_states(r_type, global, local) is Ok <==> global.usage_page is Some
            && local.usage is Some && global.report_size is Some && global.report_count is Some
            && global.logical_minimum is Some && global.logical_maximum is Some,
{
}

/// A report built while no `Report ID` tag has ever been seen carries the
/// default report id 1.
pub proof fn lemma_report_id_defaults_to_one(
    r_type: ReportType,
    global: ParserGlobalState,
    local: ParserLocalState,
)
    requires
        global.report_id is None,
        spec_report_from_states(r_type, global, local) matches Ok(_),
    ensures
        spec_report_from_states(r_type, global, local)->Ok_0.report_id == 1,
{
}

/// Traversal ordering: the traversal of a collection starts with its own
/// reports, in declaration order, and continues with the traversals of its
/// nested collections, one after the other in nesting order — regardless of
/// how reports and nested collections were interleaved in the byte stream.
pub proof fn lemma_traversal_order(c: CollectionModel)
    ensures
        spec_traversal(c).len() >= c.reports.len(),
        spec_traversal(c).take(c.reports.len() as int) == c.reports,
        spec_traversal(c).skip(c.reports.len() as int) == spec_traversal_nested(
            c.nested,
            c.nested.len() as int,
        ),
        forall|n: int|
            0 < n <= c.nested.len() ==> #[trigger] spec_traversal_nested(c.nested, n)
                == spec_traversal_nested(c.nested, n - 1) + spec_traversal(c.nested[n - 1]),
{
    assert(spec_traversal(c).take(c.reports.len() as int) =~= c.reports);
    assert(spec_traversal(c).skip(c.reports.len() as int) =~= spec_traversal_nested(
        c.nested,
        c.nested.len() as int,
    ));
}

impl Report {
    /// Build a report from the current parser state, or report the first
    /// required field that was never set.
    pub fn try_from_parser_states(
        r_type: ReportType,
        global: &ParserGlobalState,
        local: &ParserLocalState,
    ) -> (r: Result<Report, Error>)
        ensures
            r == spec_report_from_states(r_type, *global, *local),
    {
        let usage_page = match global.usage_page {
            Some(v) => v,
            None => { return Err(Error::UsagePageNotSet); },
        };
        let usage = match local.usage {
            Some(v) => v,
            None => { return Err(Error::UsageNotSet); },
        };
        let report_size = match global.report_size {
            Some(v) => v,
            None => { return Err(Error::ReportSizeNotSet); },
        };
        let report_count = match global.report_count {
            Some(v) => v,
            None => { return Err(Error::ReportCountNotSet); },
        };
        let logical_minimum = match global.logical_minimum {
            Some(v) => v,
            None => { return Err(Error::LogicalMinimumNotSet); },
        };
        let logical_maximum = match global.logical_maximum {
            Some(v) => v,
            None => { return Err(Error::LogicalMaximumNotSet); },
        };
        Ok(Report {
            r_type,
            usage_page,
            usage,
            usage_minimum: local.usage_minimum,
            usage_maximum: local.usage_maximum,
            report_size,
            report_id: match global.report_id {
                Some(v) => v,
                None => 1,
            },
            report_count,
            logical_minimum,
            logical_maximum,
            physical_minimum: global.physical_minimum,
            physical_maximum: global.physical_maximum,
        })
    }
}

} // verus!
