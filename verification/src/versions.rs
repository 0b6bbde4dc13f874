//! Last-known edit version of each open document.

use crate::diagnostic::Diagnostic;
use vstd::hash_map::StringHashMap;
use vstd::prelude::*;

verus! {

/// Version reported for a document that was never recorded.
pub const UNKNOWN_VERSION: i32 = 0;

/// Maps a document identifier to the latest version observed for it.
///
/// The table starts empty, grows on every `record`, and never forgets an
/// entry. Callers that share it between tasks keep it behind one lock; every
/// operation here is a single map access.
pub struct VersionTable {
    versions: StringHashMap<i32>,
}

/// Findings ready to be published: what was found about a document, and the
/// version of the document that the findings are published for.
#[derive(Debug)]
pub struct Publication {
    pub diagnostics: Vec<Diagnostic>,
    pub version: i32,
}

impl View for VersionTable {
    type V = Map<Seq<char>, i32>;

    closed spec fn view(&self) -> Map<Seq<char>, i32> {
        self.versions@
    }
}

/// The version that `latest` reports for `document` in a table with the given contents.
pub open spec fn latest_in(table: Map<Seq<char>, i32>, document: Seq<char>) -> i32 {
    if table.dom().contains(document) {
        table[document]
    } else {
        UNKNOWN_VERSION
    }
}

impl VersionTable {
    /// An empty table.
    pub fn new() -> (table: VersionTable)
        ensures
            table@ == Map::<Seq<char>, i32>::empty(),
    {
        VersionTable { versions: StringHashMap::new() }
    }

    /// Records `version` for `document`, replacing whatever was recorded before.
    pub fn record(&mut self, document: &str, version: i32)
        ensures
            final(self)@ == old(self)@.insert(document@, version),
    {
        self.versions.insert(document.to_owned(), version);
    }

    /// The version last recorded for `document`, or `UNKNOWN_VERSION` if none was.
    pub fn latest(&self, document: &str) -> (version: i32)
        ensures
            version == latest_in(self@, document@),
    {
        match self.versions.get(document) {
            Some(version) => *version,
            None => UNKNOWN_VERSION,
        }
    }

    /// The findings about `document` together with the version that is the
    /// latest for it now. Called when the daemon has answered, just before
    /// publishing, so that an edit made during the check is accounted for.
    pub fn tag(&self, document: &str, diagnostics: Vec<Diagnostic>) -> (publication: Publication)
        ensures
            publication.version == latest_in(self@, document@),
            publication.diagnostics == diagnostics,
    {
        Publication { diagnostics, version: self.latest(document) }
    }
}

impl Default for VersionTable {
    /// An empty table.
    fn default() -> (table: VersionTable)
        ensures
            table@ == Map::<Seq<char>, i32>::empty(),
    {
        VersionTable::new()
    }
}

/// A recorded version is the one that is read back, whatever was recorded before.
pub proof fn lemma_latest_after_record(
    table: Map<Seq<char>, i32>,
    document: Seq<char>,
    version: i32,
)
    ensures
        latest_in(table.insert(document, version), document) == version,
{
}

/// Recording one document leaves the version of every other document as it was.
pub proof fn lemma_record_keeps_others(
    table: Map<Seq<char>, i32>,
    document: Seq<char>,
    version: i32,
    other: Seq<char>,
)
    requires
        other != document,
    ensures
        latest_in(table.insert(document, version), other) == latest_in(table, other),
{
}

/// A document that was never recorded reads as `UNKNOWN_VERSION`.
pub proof fn lemma_latest_of_unknown(document: Seq<char>)
    ensures
        latest_in(Map::<Seq<char>, i32>::empty(), document) == UNKNOWN_VERSION,
{
}

} // verus!
