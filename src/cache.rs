//! The lifecycle of the cached records: loading, pruning, and refreshing from a document.
use sha2::Digest;
use vstd::prelude::*;

use crate::date::{date_before, Date, Now};
use crate::directory::{Data, DataView};
use crate::extract::{extract, extracted, models_of};
use crate::node::{markdown_nodes, parse_markdown, Node, NodeModel};
use crate::record::{records_of, Record, ARL};

verus! {

/// How long a fresh extraction is trusted, in seconds: one day.
pub const DAY_SECS: i64 = 86400;

/// The lower-case hexadecimal SHA-256 digest of a document's UTF-8 bytes.
pub uninterp spec fn sha256_hex(doc: Seq<char>) -> Seq<char>;

/// Relies on `sha2::Sha256::digest` over the document's bytes, written with `{:x}` as
/// lower-case hexadecimal.
#[verifier::external_body]
fn digest_hex(doc: &str) -> (r: String)
    ensures
        r@ == sha256_hex(doc@),
{
    format!("{:x}", sha2::Sha256::digest(doc))
}

/// The records of `rs` whose expiry is `today` or later, in order.
pub open spec fn live(rs: Seq<Record>, today: Date) -> Seq<Record>
    decreases rs.len(),
{
    if rs.len() == 0 {
        rs
    } else {
        let l = live(rs.drop_last(), today);
        if date_before(rs.last().expiry, today) {
            l
        } else {
            l.push(rs.last())
        }
    }
}

/// The state with no records, a digest of nothing and an expiry long past.
pub open spec fn empty_data() -> DataView {
    DataView { expiry: 0, sha256: Seq::empty(), arls: Seq::empty() }
}

/// The state with the records that expired before `today` dropped.
pub open spec fn pruned(d: DataView, today: Date) -> DataView {
    DataView { arls: live(d.arls, today), ..d }
}

/// The state after a fresh extraction from a document with digest `digest` and nodes `ns`.
pub open spec fn replaced(digest: Seq<char>, ns: Seq<NodeModel>, now: Now) -> DataView {
    DataView {
        expiry: now.secs + DAY_SECS,
        sha256: digest,
        arls: live(extracted(ns, now.today), now.today),
    }
}

/// The state after a refresh from a document: pruned only if the document is the one last
/// read, else extracted anew.
pub open spec fn refreshed(d: DataView, doc: Seq<char>, now: Now) -> DataView {
    if sha256_hex(doc) == d.sha256 {
        pruned(d, now.today)
    } else {
        replaced(sha256_hex(doc), markdown_nodes(doc), now)
    }
}

impl Default for Data {
    fn default() -> (r: Data)
        ensures
            r@ == empty_data(),
    {
        let r = Data { expiry: 0, sha256: String::new(), arls: Vec::new() };
        assert(records_of(r.arls@) =~= Seq::empty());
        r
    }
}

/// The records of `arls` whose expiry is `today` or later, in order.
fn keep_live(arls: &Vec<ARL>, today: Date) -> (r: Vec<ARL>)
    ensures
        records_of(r@) == live(records_of(arls@), today),
{
    let ghost rs = records_of(arls@);
    let mut out: Vec<ARL> = Vec::new();
    let mut i: usize = 0;
    assert(records_of(out@) =~= live(rs.take(0), today));
    while i < arls.len()
        invariant
            rs == records_of(arls@),
            0 <= i <= arls.len(),
            records_of(out@) == live(rs.take(i as int), today),
        decreases arls.len() - i,
    {
        assert(rs.take(i + 1).drop_last() =~= rs.take(i as int));
        assert(rs.take(i + 1).last() == arls@[i as int]@);
        if !arls[i].expiry.is_before(&today) {
            let ghost before = out@;
            out.push(arls[i].duplicate());
            assert(records_of(out@) =~= records_of(before).push(arls@[i as int]@));
        }
        i = i + 1;
    }
    assert(rs.take(i as int) =~= rs);
    out
}

impl Data {
    /// The state to work on, from what was read back from the cache, if anything was.
    pub fn load(cached: Option<Data>, now: &Now) -> (r: Data)
        ensures
            r@ == match cached {
                Some(d) => pruned(d@, now.today),
                None => empty_data(),
            },
    {
        match cached {
            Some(mut d) => {
                d.prune(now.today);
                d
            },
            None => Data::default(),
        }
    }

    /// Whether the records must be fetched again.
    pub fn needs_refresh(&self, now: &Now) -> (r: bool)
        ensures
            r == (self@.expiry < now.secs),
    {
        self.expiry < now.secs
    }

    /// Drops the records that expired before `today`.
    pub fn prune(&mut self, today: Date)
        ensures
            final(self)@ == pruned(old(self)@, today),
    {
        self.arls = keep_live(&self.arls, today);
    }

    /// Takes the records of a freshly read document, given its digest and its nodes.
    pub fn replace(&mut self, digest: String, nodes: &Vec<Node>, now: &Now)
        requires
            now.secs <= i64::MAX - DAY_SECS,
        ensures
            final(self)@ == replaced(digest@, models_of(nodes@), *now),
    {
        let arls = extract(nodes, now.today);
        self.arls = keep_live(&arls, now.today);
        self.sha256 = digest;
        self.expiry = now.secs + DAY_SECS;
    }

    /// Refreshes the records from a document: if it is the one last read, only prunes;
    /// otherwise extracts its records anew.
    pub fn refresh(&mut self, document: &str, now: &Now)
        requires
            now.secs <= i64::MAX - DAY_SECS,
        ensures
            final(self)@ == refreshed(old(self)@, document@, *now),
    {
        let digest = digest_hex(document);
        if digest == self.sha256 {
            self.prune(now.today);
        } else {
            let nodes = parse_markdown(document);
            self.replace(digest, &nodes, now);
        }
    }
}

/// Every record that survives pruning expires `today` or later.
pub proof fn lemma_live_current(rs: Seq<Record>, today: Date)
    ensures
        forall|i: int|
            0 <= i < live(rs, today).len() ==> !date_before(#[trigger] live(rs, today)[i].expiry, today),
    decreases rs.len(),
{
    if rs.len() > 0 {
        lemma_live_current(rs.drop_last(), today);
        let l = live(rs.drop_last(), today);
        if !date_before(rs.last().expiry, today) {
            assert forall|i: int| 0 <= i < l.len() + 1 implies !date_before(
                #[trigger] l.push(rs.last())[i].expiry,
                today,
            ) by {
                if i < l.len() {
                    assert(l.push(rs.last())[i] == l[i]);
                }
            }
        }
    }
}

/// Pruning twice prunes nothing more.
pub proof fn lemma_live_idempotent(rs: Seq<Record>, today: Date)
    ensures
        live(live(rs, today), today) == live(rs, today),
    decreases rs.len(),
{
    if rs.len() > 0 {
        lemma_live_idempotent(rs.drop_last(), today);
        let l = live(rs.drop_last(), today);
        if !date_before(rs.last().expiry, today) {
            assert(l.push(rs.last()).drop_last() =~= l);
        }
    }
}

/// Refreshing twice from the same document gives the state that the first refresh gave.
pub proof fn lemma_refresh_idempotent(d: DataView, doc: Seq<char>, now: Now)
    ensures
        refreshed(refreshed(d, doc, now), doc, now) == refreshed(d, doc, now),
{
    if sha256_hex(doc) == d.sha256 {
        lemma_live_idempotent(d.arls, now.today);
    } else {
        lemma_live_idempotent(extracted(markdown_nodes(doc), now.today), now.today);
    }
}

/// After a load or a refresh no record expires before today, so no lookup returns one.
pub proof fn lemma_refresh_prunes(d: DataView, doc: Seq<char>, now: Now)
    ensures
        forall|i: int|
            0 <= i < refreshed(d, doc, now).arls.len() ==> !date_before(
                #[trigger] refreshed(d, doc, now).arls[i].expiry,
                now.today,
            ),
        forall|i: int|
            0 <= i < pruned(d, now.today).arls.len() ==> !date_before(
                #[trigger] pruned(d, now.today).arls[i].expiry,
                now.today,
            ),
{
    lemma_live_current(d.arls, now.today);
    lemma_live_current(extracted(markdown_nodes(doc), now.today), now.today);
}

} // verus!
