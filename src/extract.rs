//! The state machine that pairs region images, expiry dates and token code spans into records.
use vstd::prelude::*;

use crate::date::{date_before, Date};
use crate::node::{
    class_of, classify, first_date, is_token, region_of, Class, ClassModel, Node, NodeModel,
    BOUNDARY_MARK,
};
use crate::record::{records_of, Record, ARL};

verus! {

/// How many table boundary marks end the extraction: the fourth opens the second table.
pub const BOUNDARY_LIMIT: u32 = 4;

/// The mathematical state of an [`Extractor`].
pub struct ExtractState {
    pub region: Option<Seq<char>>,
    pub expiry: Option<Date>,
    pub boundaries: nat,
    pub records: Seq<Record>,
}

/// The state before any node.
pub open spec fn initial_state() -> ExtractState {
    ExtractState { region: None, expiry: None, boundaries: 0, records: Seq::empty() }
}

/// Whether the extraction has reached the second table and reads no more nodes.
pub open spec fn stopped(s: ExtractState) -> bool {
    s.boundaries >= BOUNDARY_LIMIT
}

/// One transition of the machine on a classified node, with `today` the current date.
pub open spec fn step(s: ExtractState, c: ClassModel, today: Date) -> ExtractState {
    match c {
        ClassModel::TableBoundaryMarker => ExtractState { boundaries: s.boundaries + 1, ..s },
        ClassModel::RegionMarker(r) => ExtractState { region: Some(r), ..s },
        ClassModel::DateCandidate(d) => if date_before(d, today) {
            s
        } else {
            ExtractState { expiry: Some(d), ..s }
        },
        ClassModel::TokenCandidate(v) => match (s.region, s.expiry) {
            (Some(r), Some(e)) => ExtractState {
                region: None,
                expiry: None,
                records: s.records.push(Record { region: r, value: v, expiry: e }),
                ..s
            },
            _ => s,
        },
        ClassModel::Irrelevant => s,
    }
}

/// The state after a node, which is the state itself once extraction has stopped.
pub open spec fn advance(s: ExtractState, n: NodeModel, today: Date) -> ExtractState {
    if stopped(s) {
        s
    } else {
        step(s, class_of(n), today)
    }
}

/// The state after a sequence of nodes.
pub open spec fn run(ns: Seq<NodeModel>, today: Date) -> ExtractState
    decreases ns.len(),
{
    if ns.len() == 0 {
        initial_state()
    } else {
        advance(run(ns.drop_last(), today), ns.last(), today)
    }
}

/// The records extracted from a sequence of nodes.
pub open spec fn extracted(ns: Seq<NodeModel>, today: Date) -> Seq<Record> {
    run(ns, today).records
}

/// The models of a sequence of nodes.
pub open spec fn models_of(nodes: Seq<Node>) -> Seq<NodeModel> {
    nodes.map_values(|n: Node| n@)
}

/// The pending fields of one row of a token table, and the records completed so far.
pub struct Extractor {
    region: Option<String>,
    expiry: Option<Date>,
    boundaries: u32,
    records: Vec<ARL>,
}

impl View for Extractor {
    type V = ExtractState;

    closed spec fn view(&self) -> ExtractState {
        ExtractState {
            region: match self.region {
                Some(r) => Some(r@),
                None => None,
            },
            expiry: self.expiry,
            boundaries: self.boundaries as nat,
            records: records_of(self.records@),
        }
    }
}

impl Extractor {
    /// Whether the fields are within their bounds.
    pub closed spec fn wf(&self) -> bool {
        self.boundaries <= BOUNDARY_LIMIT
    }

    pub fn new() -> (r: Extractor)
        ensures
            r.wf(),
            r@ == initial_state(),
    {
        let r = Extractor { region: None, expiry: None, boundaries: 0, records: Vec::new() };
        assert(records_of(r.records@) =~= Seq::empty());
        r
    }

    /// Whether the second table has been reached.
    pub fn is_done(&self) -> (r: bool)
        requires
            self.wf(),
        ensures
            r == stopped(self@),
    {
        self.boundaries >= BOUNDARY_LIMIT
    }

    /// Takes in one classified node.
    pub fn feed(&mut self, class: Class, today: Date)
        requires
            old(self).wf(),
        ensures
            final(self).wf(),
            final(self)@ == (if stopped(old(self)@) {
                old(self)@
            } else {
                step(old(self)@, class@, today)
            }),
    {
        if self.boundaries >= BOUNDARY_LIMIT {
            return;
        }
        match class {
            Class::TableBoundaryMarker => {
                self.boundaries = self.boundaries + 1;
            },
            Class::RegionMarker(r) => {
                self.region = Some(r);
            },
            Class::DateCandidate(d) => {
                if !d.is_before(&today) {
                    self.expiry = Some(d);
                }
            },
            Class::TokenCandidate(v) => {
                if self.region.is_some() && self.expiry.is_some() {
                    let region = self.region.take().unwrap();
                    let expiry = self.expiry.take().unwrap();
                    let ghost before = self.records@;
                    self.records.push(ARL { region, value: v, expiry });
                    assert(records_of(self.records@) =~= records_of(before).push(
                        Record { region: region@, value: v@, expiry },
                    ));
                }
            },
            Class::Irrelevant => {},
        }
    }

    /// The records completed so far.
    pub fn into_records(self) -> (r: Vec<ARL>)
        ensures
            records_of(r@) == self@.records,
    {
        self.records
    }
}

/// Once extraction has stopped, no further node changes its state.
pub proof fn lemma_stopped_stays(ns: Seq<NodeModel>, more: Seq<NodeModel>, today: Date)
    requires
        stopped(run(ns, today)),
    ensures
        run(ns + more, today) == run(ns, today),
    decreases more.len(),
{
    if more.len() == 0 {
        assert(ns + more =~= ns);
    } else {
        assert((ns + more).drop_last() =~= ns + more.drop_last());
        lemma_stopped_stays(ns, more.drop_last(), today);
    }
}

/// A region image, a text whose first date is today or later, and a token code span, read
/// one after another before extraction stops, add exactly one record, made of the three.
pub proof fn lemma_row_yields_record(
    ns: Seq<NodeModel>,
    alt: Seq<char>,
    text: Seq<char>,
    code: Seq<char>,
    today: Date,
)
    requires
        !stopped(run(ns, today)),
        !text.contains(BOUNDARY_MARK),
        first_date(text) is Some,
        !date_before(first_date(text).unwrap(), today),
        is_token(code),
    ensures
        extracted(
            ns + seq![NodeModel::Image(Some(alt)), NodeModel::Text(text), NodeModel::Code(code)],
            today,
        ) == extracted(ns, today).push(
            Record { region: region_of(alt), value: code, expiry: first_date(text).unwrap() },
        ),
{
    let img = NodeModel::Image(Some(alt));
    let txt = NodeModel::Text(text);
    let cd = NodeModel::Code(code);
    let full = ns + seq![img, txt, cd];
    assert(full.drop_last() =~= ns.push(img).push(txt));
    assert(ns.push(img).push(txt).drop_last() =~= ns.push(img));
    assert(ns.push(img).drop_last() =~= ns);
    let s1 = run(ns.push(img), today);
    assert(s1 == step(run(ns, today), ClassModel::RegionMarker(region_of(alt)), today));
    let s2 = run(ns.push(img).push(txt), today);
    assert(s2 == step(s1, ClassModel::DateCandidate(first_date(text).unwrap()), today));
}

/// A token code span read while no region or no expiry is pending adds no record.
pub proof fn lemma_unpaired_token_dropped(ns: Seq<NodeModel>, code: Seq<char>, today: Date)
    requires
        run(ns, today).region is None || run(ns, today).expiry is None,
    ensures
        extracted(ns.push(NodeModel::Code(code)), today) == extracted(ns, today),
{
    assert(ns.push(NodeModel::Code(code)).drop_last() =~= ns);
}

/// A text whose first date lies before today leaves the pending expiry as it was.
pub proof fn lemma_past_date_keeps_expiry(ns: Seq<NodeModel>, text: Seq<char>, today: Date)
    requires
        first_date(text) is Some,
        date_before(first_date(text).unwrap(), today),
    ensures
        run(ns.push(NodeModel::Text(text)), today).expiry == run(ns, today).expiry,
{
    assert(ns.push(NodeModel::Text(text)).drop_last() =~= ns);
}

/// Once the fourth table boundary mark has been read, no later node adds a record.
pub proof fn lemma_no_records_after_limit(ns: Seq<NodeModel>, more: Seq<NodeModel>, today: Date)
    requires
        run(ns, today).boundaries >= BOUNDARY_LIMIT,
    ensures
        extracted(ns + more, today) == extracted(ns, today),
{
    lemma_stopped_stays(ns, more, today);
}

/// Extracts the records of a document's nodes, read in order, with `today` the current date.
pub fn extract(nodes: &Vec<Node>, today: Date) -> (r: Vec<ARL>)
    ensures
        records_of(r@) == extracted(models_of(nodes@), today),
{
    let ghost ns = models_of(nodes@);
    let mut ex = Extractor::new();
    let mut i: usize = 0;
    while i < nodes.len()
        invariant
            ns == models_of(nodes@),
            0 <= i <= nodes.len(),
            ex.wf(),
            ex@ == run(ns.take(i as int), today),
        decreases nodes.len() - i,
    {
        if ex.is_done() {
            proof {
                lemma_stopped_stays(ns.take(i as int), ns.skip(i as int), today);
                assert(ns.take(i as int) + ns.skip(i as int) =~= ns);
            }
            return ex.into_records();
        }
        let class = classify(&nodes[i]);
        ex.feed(class, today);
        proof {
            assert(ns.take(i + 1).drop_last() =~= ns.take(i as int));
        }
        i = i + 1;
    }
    assert(ns.take(i as int) =~= ns);
    ex.into_records()
}

} // verus!
