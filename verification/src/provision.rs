//! Provisioning: finding the assets of a batch and creating those that are missing.
//!
//! The service is asked elsewhere; here its replies are taken in, and what they amount to is kept.
use crate::assoc::{lemma_text_insert, text_values, Assoc};
use crate::samples::tag_texts;
use crate::text::texts;
use vstd::prelude::*;
use vstd::string::*;

verus! {

/// How many assets are created at the same time.
pub const CREATE_CONCURRENCY: usize = 24;

/// How far provisioning has come.
#[derive(Clone, Copy, PartialEq, Eq, Structural, Debug)]
pub struct ProvisionProgress {
    pub total: usize,
    pub existing: usize,
    pub created: usize,
    pub failed: usize,
}

/// What provisioning came to. The assets stand in the order of the satellites, with the logs
/// asset last.
#[derive(Debug)]
pub struct ProvisionOutcome {
    pub asset_rids: Vec<String>,
    pub existing: usize,
    pub created: usize,
    pub failed: usize,
    pub first_error: Option<String>,
}

/// The assets known by title, once those of a page are taken in.
pub open spec fn absorbed(
    known: Map<Seq<char>, Seq<char>>,
    page: Seq<(Seq<char>, Seq<char>)>,
) -> Map<Seq<char>, Seq<char>>
    decreases page.len(),
{
    if page.len() == 0 {
        known
    } else {
        absorbed(known, page.drop_last()).insert(page.last().0, page.last().1)
    }
}

/// The search for the assets of a batch, page by page.
pub struct AssetSearch {
    found: Assoc<String, String>,
    next: Option<String>,
    done: bool,
}

impl AssetSearch {
    /// The assets found so far, by title.
    pub closed spec fn found(&self) -> Map<Seq<char>, Seq<char>> {
        text_values(self.found@)
    }

    /// Whether the last page has been seen.
    pub closed spec fn is_done(&self) -> bool {
        self.done
    }

    /// The token of the page to ask for.
    pub closed spec fn next_token(&self) -> Option<String> {
        self.next
    }

    /// A search that has seen nothing yet.
    pub fn new() -> (search: AssetSearch)
        ensures
            search.found() == Map::<Seq<char>, Seq<char>>::empty(),
            !search.is_done(),
            search.next_token() is None,
    {
        let search = AssetSearch { found: Assoc::new(), next: None, done: false };
        assert(search.found() =~= Map::<Seq<char>, Seq<char>>::empty());
        search
    }

    /// Whether the last page has been seen.
    pub fn done(&self) -> (done: bool)
        ensures
            done == self.is_done(),
    {
        self.done
    }

    /// The token of the page to ask for. The first page has none.
    pub fn page_token(&self) -> (token: Option<String>)
        ensures
            token == self.next_token(),
    {
        match &self.next {
            Some(token) => Some(token.clone()),
            None => None,
        }
    }

    /// Takes in a page: titles with identifiers, and the token of the next page if there is one.
    pub fn absorb(&mut self, page: &Vec<(String, String)>, next: Option<String>)
        ensures
            final(self).found() == absorbed(old(self).found(), tag_texts(page@)),
            final(self).is_done() == (next is None),
            final(self).next_token() == next,
    {
        let ghost trees = tag_texts(page@);
        let ghost before = self.found();
        assert(trees.take(0) =~= Seq::empty());
        for i in 0..page.len()
            invariant
                trees == tag_texts(page@),
                self.found() == absorbed(before, trees.take(i as int)),
        {
            let ghost held = self.found@;
            let title = page[i].0.clone();
            let rid = page[i].1.clone();
            self.found.insert(title, rid);
            proof {
                lemma_text_insert(held, title@, rid);
                assert(trees.take(i + 1).drop_last() =~= trees.take(i as int));
                assert(trees.take(i + 1).last() == (page@[i as int].0@, page@[i as int].1@));
            }
        }
        assert(trees.take(page.len() as int) =~= trees);
        self.done = match &next {
            Some(_) => false,
            None => true,
        };
        self.next = next;
    }
}

/// The places of the names that are not known, among the first `n`.
pub open spec fn missing_places(
    names: Seq<Seq<char>>,
    known: Map<Seq<char>, Seq<char>>,
    n: nat,
) -> Seq<usize>
    decreases n,
{
    if n == 0 {
        Seq::empty()
    } else {
        let before = missing_places(names, known, (n - 1) as nat);
        if known.dom().contains(names[n - 1]) {
            before
        } else {
            before.push((n - 1) as usize)
        }
    }
}

/// The identifiers of the names that are known, in order.
pub open spec fn known_rids(
    names: Seq<Seq<char>>,
    known: Map<Seq<char>, Seq<char>>,
) -> Seq<Seq<char>>
    decreases names.len(),
{
    if names.len() == 0 {
        Seq::empty()
    } else {
        let before = known_rids(names.drop_last(), known);
        if known.dom().contains(names.last()) {
            before.push(known[names.last()])
        } else {
            before
        }
    }
}

/// The title of the logs asset of a batch.
pub open spec fn logs_title(prefix: Seq<char>) -> Seq<char> {
    prefix + " logs"@
}

/// What the service replied to the request for an asset: its identifier, or an error.
pub enum Reply {
    Created(Seq<char>),
    Refused(Seq<char>),
}

/// The reply as characters.
pub open spec fn reply_of(result: Result<String, String>) -> Reply {
    match result {
        Ok(rid) => Reply::Created(rid@),
        Err(error) => Reply::Refused(error@),
    }
}

/// The state of provisioning.
pub struct ProvisionState {
    pub names: Seq<Seq<char>>,
    pub logs_title: Seq<char>,
    pub known: Map<Seq<char>, Seq<char>>,
    pub existing: nat,
    pub created: nat,
    pub failed: nat,
    /// Requests that have not been answered yet.
    pub unanswered: nat,
    pub first_error: Option<Seq<char>>,
}

/// Everything that was missing is accounted for.
pub open spec fn adds_up(s: ProvisionState) -> bool {
    s.existing + s.created + s.failed + s.unanswered == s.names.len()
}

/// An error with the name of the asset in front.
pub open spec fn named_error(name: Seq<char>, error: Seq<char>) -> Seq<char> {
    name + ": "@ + error
}

/// The error that came first.
pub open spec fn first_of(before: Option<Seq<char>>, error: Seq<char>) -> Option<Seq<char>> {
    match before {
        Some(e) => Some(e),
        None => Some(error),
    }
}

/// The state before any asset has been asked for.
pub open spec fn begun(
    names: Seq<Seq<char>>,
    prefix: Seq<char>,
    found: Map<Seq<char>, Seq<char>>,
) -> ProvisionState {
    let missing = missing_places(names, found, names.len());
    ProvisionState {
        names,
        logs_title: logs_title(prefix),
        known: found,
        existing: (names.len() - missing.len()) as nat,
        created: 0,
        failed: 0,
        unanswered: missing.len(),
        first_error: None,
    }
}

/// The state after the reply for the satellite at `place`.
pub open spec fn replied(s: ProvisionState, place: int, reply: Reply) -> ProvisionState {
    match reply {
        Reply::Created(rid) => ProvisionState {
            known: s.known.insert(s.names[place], rid),
            created: s.created + 1,
            unanswered: (s.unanswered - 1) as nat,
            ..s
        },
        Reply::Refused(error) => ProvisionState {
            failed: s.failed + 1,
            unanswered: (s.unanswered - 1) as nat,
            first_error: first_of(s.first_error, named_error(s.names[place], error)),
            ..s
        },
    }
}

/// The outcome, with texts as characters.
pub struct OutcomeTree {
    pub asset_rids: Seq<Seq<char>>,
    pub existing: nat,
    pub created: nat,
    pub failed: nat,
    pub first_error: Option<Seq<char>>,
}

/// A text, where there is one, as characters.
pub open spec fn optional_text(text: Option<String>) -> Option<Seq<char>> {
    match text {
        Some(t) => Some(t@),
        None => None,
    }
}

impl View for ProvisionOutcome {
    type V = OutcomeTree;

    open spec fn view(&self) -> OutcomeTree {
        OutcomeTree {
            asset_rids: texts(self.asset_rids@),
            existing: self.existing as nat,
            created: self.created as nat,
            failed: self.failed as nat,
            first_error: optional_text(self.first_error),
        }
    }
}

/// The outcome once the logs asset is settled: it is known, or it was asked for.
pub open spec fn concluded(s: ProvisionState, logs: Option<Reply>) -> OutcomeTree {
    let rids = known_rids(s.names, s.known);
    let plain = OutcomeTree {
        asset_rids: rids,
        existing: s.existing,
        created: s.created,
        failed: s.failed,
        first_error: s.first_error,
    };
    if s.known.dom().contains(s.logs_title) {
        OutcomeTree { asset_rids: rids.push(s.known[s.logs_title]), ..plain }
    } else {
        match logs {
            Some(Reply::Created(rid)) => OutcomeTree {
                asset_rids: rids.push(rid),
                created: s.created + 1,
                ..plain
            },
            Some(Reply::Refused(error)) => OutcomeTree {
                failed: s.failed + 1,
                first_error: first_of(s.first_error, named_error(s.logs_title, error)),
                ..plain
            },
            None => plain,
        }
    }
}

/// The provisioning of a batch.
pub struct Provisioning {
    names: Vec<String>,
    logs_title: String,
    known: Assoc<String, String>,
    existing: usize,
    created: usize,
    failed: usize,
    unanswered: usize,
    first_error: Option<String>,
}

impl View for Provisioning {
    type V = ProvisionState;

    closed spec fn view(&self) -> ProvisionState {
        ProvisionState {
            names: texts(self.names@),
            logs_title: self.logs_title@,
            known: text_values(self.known@),
            existing: self.existing as nat,
            created: self.created as nat,
            failed: self.failed as nat,
            unanswered: self.unanswered as nat,
            first_error: optional_text(self.first_error),
        }
    }
}

fn error_line(name: &str, error: &str) -> (line: String)
    ensures
        line@ == named_error(name@, error@),
{
    let mut line = name.to_owned();
    line.append(": ");
    line.append(error);
    line
}

fn keep_first(first: Option<String>, error: String) -> (kept: Option<String>)
    ensures
        optional_text(kept) == first_of(optional_text(first), error@),
{
    match first {
        Some(e) => Some(e),
        None => Some(error),
    }
}

impl Provisioning {
    /// Whether the counts add up to the number of satellites.
    pub open spec fn well_formed(&self) -> bool {
        adds_up(self@) && self@.names.len() < usize::MAX
    }

    /// Begins with the satellites' names and the assets that the search has found on all pages. Gives
    /// back the
    /// places of the satellites whose assets are missing.
    pub fn new(names: Vec<String>, sat_prefix: &str, search: AssetSearch) -> (begun_with: (
        Provisioning,
        Vec<usize>,
    ))
        requires
            names@.len() < usize::MAX,
            search.is_done(),
        ensures
            begun_with.0.well_formed(),
            begun_with.0@ == begun(texts(names@), sat_prefix@, search.found()),
            begun_with.1@ == missing_places(texts(names@), search.found(), names@.len()),
    {
        let known = search.found;
        let ghost all = texts(names@);
        let ghost held = text_values(known@);
        let mut missing: Vec<usize> = Vec::new();
        for i in 0..names.len()
            invariant
                all == texts(names@),
                held == text_values(known@),
                missing@ == missing_places(all, held, i as nat),
                missing@.len() <= i,
        {
            assert(all[i as int] == names@[i as int]@);
            let absent = match known.get(&names[i]) {
                Some(_) => false,
                None => true,
            };
            if absent {
                missing.push(i);
            }
        }
        let mut title = sat_prefix.to_owned();
        title.append(" logs");
        let provisioning = Provisioning {
            existing: names.len() - missing.len(),
            unanswered: missing.len(),
            names,
            logs_title: title,
            known,
            created: 0,
            failed: 0,
            first_error: None,
        };
        (provisioning, missing)
    }

    /// How far provisioning has come.
    pub fn progress(&self) -> (progress: ProvisionProgress)
        ensures
            progress.total == self@.names.len(),
            progress.existing == self@.existing,
            progress.created == self@.created,
            progress.failed == self@.failed,
    {
        ProvisionProgress {
            total: self.names.len(),
            existing: self.existing,
            created: self.created,
            failed: self.failed,
        }
    }

    /// Takes in the reply for the satellite at `place`.
    pub fn on_reply(&mut self, place: usize, result: Result<String, String>)
        requires
            old(self).well_formed(),
            old(self)@.unanswered > 0,
            place < old(self)@.names.len(),
        ensures
            final(self).well_formed(),
            final(self)@ == replied(old(self)@, place as int, reply_of(result)),
    {
        let name = self.names[place].clone();
        self.unanswered = self.unanswered - 1;
        match result {
            Ok(rid) => {
                let ghost held = self.known@;
                self.known.insert(name, rid);
                self.created = self.created + 1;
                proof {
                    lemma_text_insert(held, name@, rid);
                }
            },
            Err(error) => {
                let line = error_line(name.as_str(), error.as_str());
                let mut first: Option<String> = None;
                std::mem::swap(&mut first, &mut self.first_error);
                self.first_error = keep_first(first, line);
                self.failed = self.failed + 1;
            },
        }
    }

    /// The title of the logs asset if it has to be created.
    pub fn missing_logs(&self) -> (title: Option<String>)
        ensures
            optional_text(title) == if self@.known.dom().contains(self@.logs_title) {
                None
            } else {
                Some(self@.logs_title)
            },
    {
        match self.known.get(&self.logs_title) {
            Some(_) => None,
            None => Some(self.logs_title.clone()),
        }
    }

    /// Concludes with the reply for the logs asset, where it was asked for.
    pub fn finish(self, logs: Option<Result<String, String>>) -> (outcome: ProvisionOutcome)
        requires
            self.well_formed(),
        ensures
            outcome@ == concluded(
                self@,
                match logs {
                    Some(result) => Some(reply_of(result)),
                    None => None,
                },
            ),
    {
        let ghost state = self@;
        let mut created: usize = self.created;
        let mut failed: usize = self.failed;
        let mut asset_rids = self.rids();
        let ghost rids = texts(asset_rids@);
        let known_logs: Option<String> = match self.known.get(&self.logs_title) {
            Some(rid) => Some(rid.clone()),
            None => None,
        };
        let mut first_error = self.first_error;
        match known_logs {
            Some(rid) => {
                asset_rids.push(rid);
                assert(texts(asset_rids@) =~= rids.push(rid@));
            },
            None => match logs {
                Some(Ok(rid)) => {
                    created = created + 1;
                    asset_rids.push(rid);
                    assert(texts(asset_rids@) =~= rids.push(rid@));
                },
                Some(Err(error)) => {
                    failed = failed + 1;
                    let line = error_line(self.logs_title.as_str(), error.as_str());
                    first_error = keep_first(first_error, line);
                },
                None => {},
            },
        }
        ProvisionOutcome { asset_rids, existing: self.existing, created, failed, first_error }
    }

    /// The identifiers of the satellites' assets, in order.
    fn rids(&self) -> (rids: Vec<String>)
        ensures
            texts(rids@) == known_rids(self@.names, self@.known),
    {
        let ghost names = texts(self.names@);
        let ghost known = text_values(self.known@);
        let mut rids: Vec<String> = Vec::new();
        assert(texts(rids@) =~= known_rids(names.take(0), known));
        for i in 0..self.names.len()
            invariant
                names == texts(self.names@),
                known == text_values(self.known@),
                texts(rids@) == known_rids(names.take(i as int), known),
        {
            let ghost before = texts(rids@);
            assert(names.take(i + 1).drop_last() =~= names.take(i as int));
            assert(names.take(i + 1).last() == self.names@[i as int]@);
            match self.known.get(&self.names[i]) {
                Some(rid) => {
                    rids.push(rid.clone());
                    assert(texts(rids@) =~= before.push(known[names[i as int]]));
                },
                None => {},
            }
        }
        assert(names.take(self.names.len() as int) =~= names);
        rids
    }
}

} // verus!
