//! Waiting for a smartcard: which readers to watch, when to try a card, and
//! what to make of what the card gave back.

use crate::error::Error;
use crate::key::{entry_from_reply, entry_of, is_utf8};
use crate::text::{contains_text, text_eq, texts};
use vstd::prelude::*;
use vstd::string::*;
use vstd::utf8::valid_utf8;

verus! {

/// Name of the pseudo-reader whose state changes when a reader is plugged in
/// or pulled out.
pub const PNP_NOTIFICATION: &'static str = "\\\\?PnP?\\Notification";

/// Flag of a reader state: the state differs from the one last known.
pub const STATE_CHANGED: u64 = 0x0002;

/// Flag of a reader state: nothing is known of the reader yet.
pub const STATE_UNKNOWN: u64 = 0x0004;

/// Flag of a reader state: a card is in the reader.
pub const STATE_PRESENT: u64 = 0x0020;

/// Seconds to wait for a change before looking at the readers again.
pub const POLL_SECONDS: u64 = 10;

/// What the operator is told before each wait.
pub const PRESENT_CARD: &'static str = "Please hold your smartcard to the reader";

/// What the operator is told once the key is read.
pub const REMOVE_CARD: &'static str = "Done reading smartcard, you may remove it now";

/// What is known of one reader.
#[derive(Debug, PartialEq, Eq)]
pub struct CardReaderState {
    /// The reader's name.
    pub name: String,
    /// The state flags last known of it.
    pub state: u64,
}

/// The content of a `CardReaderState`.
pub struct CardReaderView {
    pub name: Seq<char>,
    pub state: u64,
}

impl View for CardReaderState {
    type V = CardReaderView;

    open spec fn view(&self) -> CardReaderView {
        CardReaderView { name: self.name@, state: self.state }
    }
}

impl CardReaderState {
    /// Whether a card was in the reader when its state was last known.
    pub fn present(&self) -> (r: bool)
        ensures
            r == (self.state & STATE_PRESENT != 0),
    {
        self.state & STATE_PRESENT != 0
    }
}

/// The content of each entry of a watch list.
pub open spec fn watch_view(watch: Seq<CardReaderState>) -> Seq<CardReaderView> {
    watch.map_values(|r: CardReaderState| r@)
}

/// Whether `watch` has an entry for the reader `name`.
pub open spec fn watches(watch: Seq<CardReaderView>, name: Seq<char>) -> bool {
    exists|i: int| 0 <= i < watch.len() && (#[trigger] watch[i]).name == name
}

/// The names to watch: the readers that are there, and the pseudo-reader.
pub open spec fn wanted_names(live: Seq<Seq<char>>) -> Seq<Seq<char>> {
    live.push(PNP_NOTIFICATION@)
}

/// The entries of `watch` for readers that are still wanted.
pub open spec fn kept_readers(watch: Seq<CardReaderView>, wanted: Seq<Seq<char>>) -> Seq<
    CardReaderView,
> {
    watch.filter(|r: CardReaderView| wanted.contains(r.name))
}

/// Entries for the wanted readers that `watch` does not know, each once and
/// in the order of `wanted`, with nothing known of their state.
pub open spec fn new_readers(wanted: Seq<Seq<char>>, watch: Seq<CardReaderView>) -> Seq<
    CardReaderView,
>
    decreases wanted.len(),
{
    if wanted.len() == 0 {
        Seq::empty()
    } else {
        let rest = new_readers(wanted.drop_last(), watch);
        let name = wanted.last();
        if watches(watch, name) || watches(rest, name) {
            rest
        } else {
            rest.push(CardReaderView { name, state: STATE_UNKNOWN })
        }
    }
}

/// The watch list brought up to date with the readers that are there:
/// readers that are gone are dropped, the others keep their entries and their
/// order, and readers that appeared come behind them.
pub open spec fn reconciled(watch: Seq<CardReaderView>, live: Seq<Seq<char>>) -> Seq<
    CardReaderView,
> {
    kept_readers(watch, wanted_names(live)) + new_readers(wanted_names(live), watch)
}

/// Whether `watch` has an entry for the reader `name`.
pub fn is_watched(watch: &Vec<CardReaderState>, name: &str) -> (r: bool)
    ensures
        r == watches(watch_view(watch@), name@),
{
    let mut i: usize = 0;
    while i < watch.len()
        invariant
            i <= watch.len(),
            forall|j: int| 0 <= j < i ==> (#[trigger] watch_view(watch@)[j]).name != name@,
        decreases watch.len() - i,
    {
        if text_eq(watch[i].name.as_str(), name) {
            assert(watch_view(watch@)[i as int].name == name@);
            return true;
        }
        i += 1;
    }
    false
}

/// Whether `name` is a reader that is there, or the pseudo-reader.
pub fn is_wanted(live: &Vec<String>, name: &str) -> (r: bool)
    ensures
        r == wanted_names(texts(live@)).contains(name@),
{
    let found = contains_text(live, name) || text_eq(name, PNP_NOTIFICATION);
    proof {
        let wanted = wanted_names(texts(live@));
        if texts(live@).contains(name@) {
            let i = choose|i: int| 0 <= i < texts(live@).len() && texts(live@)[i] == name@;
            assert(wanted[i] == name@);
        }
        if name@ == PNP_NOTIFICATION@ {
            assert(wanted[wanted.len() - 1] == name@);
        }
    }
    found
}

/// An entry of the kept part is an entry of the watch list, and a wanted
/// reader that the watch list knows is kept.
proof fn lemma_kept_watches(watch: Seq<CardReaderView>, wanted: Seq<Seq<char>>, name: Seq<char>)
    requires
        wanted.contains(name),
    ensures
        watches(kept_readers(watch, wanted), name) == watches(watch, name),
{
    let pred = |r: CardReaderView| wanted.contains(r.name);
    let kept = kept_readers(watch, wanted);
    if watches(kept, name) {
        let i = choose|i: int| 0 <= i < kept.len() && (#[trigger] kept[i]).name == name;
        assert(kept.contains(kept[i]));
        watch.lemma_filter_contains_rev(pred, kept[i]);
        let j = choose|j: int| 0 <= j < watch.len() && watch[j] == kept[i];
        assert(watch[j].name == name);
    }
    if watches(watch, name) {
        let j = choose|j: int| 0 <= j < watch.len() && (#[trigger] watch[j]).name == name;
        watch.lemma_filter_contains(pred, j);
        let i = choose|i: int| 0 <= i < kept.len() && kept[i] == watch[j];
        assert(kept[i].name == name);
    }
}

/// Adds an entry for the reader `name`, with nothing known of its state,
/// unless the watch list has one.
pub fn watch_also(watch: &mut Vec<CardReaderState>, name: &str)
    ensures
        watch_view(final(watch)@) == if watches(watch_view(old(watch)@), name@) {
            watch_view(old(watch)@)
        } else {
            watch_view(old(watch)@).push(CardReaderView { name: name@, state: STATE_UNKNOWN })
        },
{
    if !is_watched(watch, name) {
        let ghost before = watch@;
        watch.push(CardReaderState { name: String::from_str(name), state: STATE_UNKNOWN });
        assert(watch_view(watch@) =~= watch_view(before).push(
            CardReaderView { name: name@, state: STATE_UNKNOWN },
        ));
    }
}

/// Looking at one more wanted name extends the list of kept and new readers
/// by an entry for it, unless the list has one.
proof fn lemma_new_reader_step(watch: Seq<CardReaderView>, wanted: Seq<Seq<char>>, i: int)
    requires
        0 <= i < wanted.len(),
    ensures
        ({
            let sofar = kept_readers(watch, wanted) + new_readers(wanted.take(i), watch);
            kept_readers(watch, wanted) + new_readers(wanted.take(i + 1), watch) == if watches(
                sofar,
                wanted[i],
            ) {
                sofar
            } else {
                sofar.push(CardReaderView { name: wanted[i], state: STATE_UNKNOWN })
            }
        }),
{
    let kept = kept_readers(watch, wanted);
    let rest = new_readers(wanted.take(i), watch);
    let name = wanted[i];
    let both = kept + rest;
    assert(wanted.take(i + 1).drop_last() == wanted.take(i));
    lemma_kept_watches(watch, wanted, name);
    assert(watches(both, name) == (watches(kept, name) || watches(rest, name))) by {
        if watches(kept, name) {
            let k = choose|k: int| 0 <= k < kept.len() && (#[trigger] kept[k]).name == name;
            assert(both[k].name == name);
        }
        if watches(rest, name) {
            let k = choose|k: int| 0 <= k < rest.len() && (#[trigger] rest[k]).name == name;
            assert(both[kept.len() + k].name == name);
        }
        if watches(both, name) {
            let k = choose|k: int| 0 <= k < both.len() && (#[trigger] both[k]).name == name;
            if k < kept.len() {
                assert(kept[k].name == name);
            } else {
                assert(rest[k - kept.len()].name == name);
            }
        }
    }
}

/// Brings the watch list up to date with `live`, the names of the readers
/// that are there now.
pub fn reconcile_watch(watch: Vec<CardReaderState>, live: &Vec<String>) -> (r: Vec<
    CardReaderState,
>)
    ensures
        watch_view(r@) == reconciled(watch_view(watch@), texts(live@)),
{
    let ghost old = watch_view(watch@);
    let ghost wanted = wanted_names(texts(live@));
    let ghost pred = |r: CardReaderView| wanted.contains(r.name);
    let mut watch = watch;
    let mut out: Vec<CardReaderState> = Vec::new();
    let ghost mut done: int = 0;
    while watch.len() > 0
        invariant
            0 <= done <= old.len(),
            wanted == wanted_names(texts(live@)),
            pred == |r: CardReaderView| wanted.contains(r.name),
            watch_view(watch@) == old.skip(done),
            watch_view(out@) == old.take(done).filter(pred),
        decreases watch.len(),
    {
        let ghost out_before = out@;
        let reader = watch.remove(0);
        proof {
            assert(old.skip(done).len() == old.len() - done);
            assert(old.skip(done)[0] == old[done]);
            assert(watch_view(watch@) =~= old.skip(done + 1)) by {
                assert forall|i: int| 0 <= i < watch@.len() implies watch_view(watch@)[i]
                    == old.skip(done + 1)[i] by {
                    assert(old.skip(done)[i + 1] == old[done + i + 1]);
                }
            }
            assert(old.take(done + 1) == old.take(done).push(reader@));
            old.take(done).lemma_filter_push(reader@, pred);
        }
        if is_wanted(live, reader.name.as_str()) {
            out.push(reader);
            assert(watch_view(out@) =~= watch_view(out_before).push(reader@));
        }
        proof {
            done = done + 1;
        }
    }
    assert(old.take(done) == old);
    let ghost kept = watch_view(out@);
    let mut i: usize = 0;
    while i < live.len()
        invariant
            i <= live.len(),
            wanted == wanted_names(texts(live@)),
            kept == kept_readers(old, wanted),
            watch_view(out@) == kept + new_readers(wanted.take(i as int), old),
        decreases live.len() - i,
    {
        proof {
            lemma_new_reader_step(old, wanted, i as int);
        }
        watch_also(&mut out, live[i].as_str());
        i += 1;
    }
    proof {
        lemma_new_reader_step(old, wanted, live.len() as int);
    }
    watch_also(&mut out, PNP_NOTIFICATION);
    assert(wanted.take(live.len() + 1) == wanted);
    out
}

/// How waiting for a change of the readers' states ended.
pub enum StatusOutcome {
    /// The wait returned; `reports` holds the state flags reported for each
    /// entry of the watch list, in its order.
    Changed { reports: Vec<u64> },
    /// Nothing changed in time.
    Timeout,
    /// The card service was stopped.
    ServiceStopped,
    /// The card service is not running.
    NoService,
    /// Any other failure of the card service.
    Other,
}

/// What came of trying to decrypt the key with a card.
pub enum DecryptOutcome {
    /// The card decrypted the message to literal data.
    Literal { data: Vec<u8> },
    /// The card decrypted the message to something that is not literal data.
    UnexpectedPayload,
    /// No card could be opened.
    NoBackend,
    /// The card refused the PIN.
    PinRejected,
    /// The card could not decrypt the message.
    DecryptRejected,
}

/// What the card loop wants next.
pub enum CardStep {
    /// List the readers that are there and hand the names to `readers_listed`.
    ListReaders { watch: Vec<CardReaderState> },
    /// Tell the operator `PRESENT_CARD`, wait up to `POLL_SECONDS` for a
    /// change of the watched readers and hand the outcome to `status_changed`.
    Wait { watch: Vec<CardReaderState> },
    /// Connect to the card service anew, then call `card_reconnected`.
    Reconnect { watch: Vec<CardReaderState> },
    /// A card appeared in reader `reader` of the watch list: try to decrypt
    /// with it and hand the outcome to `attempt_finished`.
    Attempt { watch: Vec<CardReaderState>, reports: Vec<u64>, reader: usize },
    /// The key was obtained: tell the operator `REMOVE_CARD`.
    Done { key: String },
    /// The loop cannot go on.
    Failed { error: Error },
}

/// The content of a `CardStep`.
pub enum CardStepView {
    ListReaders { watch: Seq<CardReaderView> },
    Wait { watch: Seq<CardReaderView> },
    Reconnect { watch: Seq<CardReaderView> },
    Attempt { watch: Seq<CardReaderView>, reports: Seq<u64>, reader: int },
    Done { key: Seq<char> },
    Failed { error: Error },
}

impl View for CardStep {
    type V = CardStepView;

    open spec fn view(&self) -> CardStepView {
        match self {
            CardStep::ListReaders { watch } => CardStepView::ListReaders {
                watch: watch_view(watch@),
            },
            CardStep::Wait { watch } => CardStepView::Wait { watch: watch_view(watch@) },
            CardStep::Reconnect { watch } => CardStepView::Reconnect { watch: watch_view(watch@) },
            CardStep::Attempt { watch, reports, reader } => CardStepView::Attempt {
                watch: watch_view(watch@),
                reports: reports@,
                reader: *reader as int,
            },
            CardStep::Done { key } => CardStepView::Done { key: key@ },
            CardStep::Failed { error } => CardStepView::Failed { error: *error },
        }
    }
}

/// A card went into a reader: the report says that the state changed and that
/// a card is present, and none was present in the state known before.
pub open spec fn newly_present(known: u64, report: u64) -> bool {
    report & STATE_CHANGED != 0 && known & STATE_PRESENT == 0 && report & STATE_PRESENT != 0
}

/// Whether the report for `reader` calls for trying its card. The
/// pseudo-reader has no card.
pub open spec fn wants_attempt(reader: CardReaderView, report: u64) -> bool {
    reader.name != PNP_NOTIFICATION@ && newly_present(reader.state, report)
}

/// The entry of `reader` once the reported state is the known one.
pub open spec fn synced(reader: CardReaderView, report: u64) -> CardReaderView {
    CardReaderView { name: reader.name, state: report }
}

/// Goes through the watch list from entry `from` on. The first reader whose
/// report calls for it is tried; every entry passed on the way takes its
/// report as the known state. At the end of the list the readers are listed
/// again.
pub open spec fn inspect_from(
    watch: Seq<CardReaderView>,
    reports: Seq<u64>,
    from: int,
) -> CardStepView
    decreases watch.len() - from,
{
    if from < 0 || from >= watch.len() {
        CardStepView::ListReaders { watch }
    } else if wants_attempt(watch[from], reports[from]) {
        CardStepView::Attempt { watch, reports, reader: from }
    } else {
        inspect_from(watch.update(from, synced(watch[from], reports[from])), reports, from + 1)
    }
}

/// What follows the end of a wait. A timeout is no failure, and a card
/// service that stopped is started again; any other failure of the service
/// ends the loop.
pub open spec fn after_wait(
    watch: Seq<CardReaderView>,
    changed: Option<Seq<u64>>,
    outcome_is_timeout: bool,
    outcome_is_stopped: bool,
) -> CardStepView {
    match changed {
        Some(reports) => if reports.len() == watch.len() {
            inspect_from(watch, reports, 0)
        } else {
            CardStepView::Failed { error: Error::Schema }
        },
        None => if outcome_is_timeout {
            CardStepView::ListReaders { watch }
        } else if outcome_is_stopped {
            CardStepView::Reconnect { watch }
        } else {
            CardStepView::Failed { error: Error::Service }
        },
    }
}

/// What follows a try with a card. Literal data that is UTF-8 is the key,
/// without the white space around it. Anything else is no key: the reader's
/// report becomes its known state and the rest of the list is gone through.
pub open spec fn after_attempt(
    watch: Seq<CardReaderView>,
    reports: Seq<u64>,
    reader: int,
    literal: Option<Seq<u8>>,
) -> CardStepView {
    match literal {
        Some(data) if valid_utf8(data) => CardStepView::Done { key: entry_of(data) },
        _ => inspect_from(
            watch.update(reader, synced(watch[reader], reports[reader])),
            reports,
            reader + 1,
        ),
    }
}

/// Why a try with a card gave no key; `None` where it gave one. Literal data
/// that is not UTF-8 is a `KeyFile` error, everything else that went wrong
/// with the card a `Decryption` error.
pub open spec fn attempt_failure_of(literal: Option<Seq<u8>>) -> Option<Error> {
    match literal {
        Some(data) => if valid_utf8(data) {
            None
        } else {
            Some(Error::KeyFile)
        },
        None => Some(Error::Decryption),
    }
}

/// Says why a try with a card gave no key, for the warning that precedes the
/// next wait.
pub fn attempt_failure(outcome: &DecryptOutcome) -> (r: Option<Error>)
    ensures
        r == attempt_failure_of(
            match *outcome {
                DecryptOutcome::Literal { data } => Some(data@),
                _ => None,
            },
        ),
{
    match outcome {
        DecryptOutcome::Literal { data } => if is_utf8(data) {
            None
        } else {
            Some(Error::KeyFile)
        },
        _ => Some(Error::Decryption),
    }
}

/// The first step of the loop: list the readers, with nothing watched yet.
pub fn card_start() -> (r: CardStep)
    ensures
        r@ == (CardStepView::ListReaders { watch: Seq::empty() }),
{
    let watch: Vec<CardReaderState> = Vec::new();
    assert(watch_view(watch@) =~= Seq::empty());
    CardStep::ListReaders { watch }
}

/// Takes the names of the readers that are there and asks to wait for a
/// change on the watch list brought up to date.
pub fn readers_listed(watch: Vec<CardReaderState>, live: &Vec<String>) -> (r: CardStep)
    ensures
        r@ == (CardStepView::Wait { watch: reconciled(watch_view(watch@), texts(live@)) }),
{
    CardStep::Wait { watch: reconcile_watch(watch, live) }
}

/// After the connection to the card service was made anew: list the readers.
pub fn card_reconnected(watch: Vec<CardReaderState>) -> (r: CardStep)
    ensures
        r@ == (CardStepView::ListReaders { watch: watch_view(watch@) }),
{
    CardStep::ListReaders { watch }
}

/// Tells whether the report for `reader` calls for trying its card.
pub fn should_attempt(reader: &CardReaderState, report: u64) -> (r: bool)
    ensures
        r == wants_attempt(reader@, report),
{
    !text_eq(reader.name.as_str(), PNP_NOTIFICATION) && report & STATE_CHANGED != 0 && reader.state
        & STATE_PRESENT == 0 && report & STATE_PRESENT != 0
}

/// Goes through the watch list from entry `from` on, looking for a card to
/// try. Reports that do not match the watch list one for one are a `Schema`
/// error.
pub fn inspect(watch: Vec<CardReaderState>, reports: Vec<u64>, from: usize) -> (r: CardStep)
    ensures
        r@ == if reports.len() == watch.len() {
            inspect_from(watch_view(watch@), reports@, from as int)
        } else {
            CardStepView::Failed { error: Error::Schema }
        },
{
    if reports.len() != watch.len() {
        return CardStep::Failed { error: Error::Schema };
    }
    let mut list = watch;
    let mut i: usize = from;
    while i < list.len()
        invariant
            reports.len() == list.len(),
            list.len() == watch.len(),
            watch_view(list@).len() == list.len(),
            from <= i,
            inspect_from(watch_view(watch@), reports@, from as int) == inspect_from(
                watch_view(list@),
                reports@,
                i as int,
            ),
        decreases list.len() - i,
    {
        if should_attempt(&list[i], reports[i]) {
            return CardStep::Attempt { watch: list, reports, reader: i };
        }
        let ghost before = watch_view(list@);
        let name = list[i].name.clone();
        list.set(i, CardReaderState { name, state: reports[i] });
        assert(watch_view(list@) =~= before.update(
            i as int,
            synced(before[i as int], reports@[i as int]),
        ));
        i += 1;
    }
    CardStep::ListReaders { watch: list }
}

/// Takes the outcome of a wait and says how the loop goes on.
pub fn status_changed(watch: Vec<CardReaderState>, outcome: StatusOutcome) -> (r: CardStep)
    ensures
        r@ == after_wait(
            watch_view(watch@),
            match outcome {
                StatusOutcome::Changed { reports } => Some(reports@),
                _ => None,
            },
            outcome is Timeout,
            outcome is ServiceStopped || outcome is NoService,
        ),
{
    match outcome {
        StatusOutcome::Changed { reports } => {
            if reports.len() == watch.len() {
                inspect(watch, reports, 0)
            } else {
                CardStep::Failed { error: Error::Schema }
            }
        },
        StatusOutcome::Timeout => CardStep::ListReaders { watch },
        StatusOutcome::ServiceStopped => CardStep::Reconnect { watch },
        StatusOutcome::NoService => CardStep::Reconnect { watch },
        StatusOutcome::Other => CardStep::Failed { error: Error::Service },
    }
}

/// Takes the outcome of a try with the card in reader `reader` and says how
/// the loop goes on. A reader that is not on the watch list, or reports that
/// do not match the list, are a `Schema` error.
pub fn attempt_finished(
    watch: Vec<CardReaderState>,
    reports: Vec<u64>,
    reader: usize,
    outcome: DecryptOutcome,
) -> (r: CardStep)
    ensures
        r@ == if reports.len() == watch.len() && reader < watch.len() {
            after_attempt(
                watch_view(watch@),
                reports@,
                reader as int,
                match outcome {
                    DecryptOutcome::Literal { data } => Some(data@),
                    _ => None,
                },
            )
        } else {
            CardStepView::Failed { error: Error::Schema }
        },
{
    if reports.len() != watch.len() || reader >= watch.len() {
        return CardStep::Failed { error: Error::Schema };
    }
    if let DecryptOutcome::Literal { data } = outcome {
        if let Ok(key) = entry_from_reply(data) {
            return CardStep::Done { key };
        }
    }
    let ghost before = watch_view(watch@);
    let mut watch = watch;
    let name = watch[reader].name.clone();
    watch.set(reader, CardReaderState { name, state: reports[reader] });
    assert(watch_view(watch@) =~= before.update(
        reader as int,
        synced(before[reader as int], reports@[reader as int]),
    ));
    inspect(watch, reports, reader + 1)
}

/// The entries from `lo` up to `hi` were passed without a try: none of them
/// called for one, and each knows the state that was reported for it.
pub open spec fn passed_over(
    watch: Seq<CardReaderView>,
    reports: Seq<u64>,
    after: Seq<CardReaderView>,
    lo: int,
    hi: int,
) -> bool {
    &&& forall|j: int| lo <= j < hi ==> !wants_attempt(#[trigger] watch[j], reports[j])
    &&& forall|j: int| lo <= j < hi ==> #[trigger] after[j] == synced(watch[j], reports[j])
}

/// The entries from `lo` up to `hi` are as they were.
pub open spec fn untouched(
    watch: Seq<CardReaderView>,
    after: Seq<CardReaderView>,
    lo: int,
    hi: int,
) -> bool {
    forall|j: int| lo <= j < hi ==> #[trigger] after[j] == watch[j]
}

/// Going through the watch list tries a card only in a real reader into which
/// a card went, and it is the first such reader from `from` on. No entry is
/// lost, and every entry that was passed knows the state that was reported
/// for it.
pub proof fn lemma_inspect_from(watch: Seq<CardReaderView>, reports: Seq<u64>, from: int)
    requires
        0 <= from <= watch.len(),
        reports.len() == watch.len(),
    ensures
        match inspect_from(watch, reports, from) {
            CardStepView::Attempt { watch: after, reports: same, reader } => {
                &&& from <= reader < watch.len()
                &&& same == reports
                &&& after.len() == watch.len()
                &&& wants_attempt(watch[reader], reports[reader])
                &&& passed_over(watch, reports, after, from, reader)
                &&& untouched(watch, after, 0, from)
                &&& untouched(watch, after, reader, watch.len() as int)
            },
            CardStepView::ListReaders { watch: after } => {
                &&& after.len() == watch.len()
                &&& passed_over(watch, reports, after, from, watch.len() as int)
                &&& untouched(watch, after, 0, from)
            },
            _ => false,
        },
    decreases watch.len() - from,
{
    if from < watch.len() && !wants_attempt(watch[from], reports[from]) {
        let next = watch.update(from, synced(watch[from], reports[from]));
        lemma_inspect_from(next, reports, from + 1);
        let step = inspect_from(next, reports, from + 1);
        assert(inspect_from(watch, reports, from) == step);
        let after = match step {
            CardStepView::Attempt { watch: after, .. } => after,
            CardStepView::ListReaders { watch: after } => after,
            _ => watch,
        };
        let hi = match step {
            CardStepView::Attempt { reader, .. } => reader,
            _ => watch.len() as int,
        };
        assert(passed_over(next, reports, after, from + 1, hi));
        assert(untouched(next, after, 0, from + 1));
        assert forall|j: int| from <= j < hi implies !wants_attempt(
            #[trigger] watch[j],
            reports[j],
        ) by {
            if from < j {
                assert(next[j] == watch[j]);
            }
        }
        assert forall|j: int| from <= j < hi implies #[trigger] after[j] == synced(
            watch[j],
            reports[j],
        ) by {
            if from < j {
                assert(next[j] == watch[j]);
                assert(after[j] == synced(next[j], reports[j]));
            } else {
                assert(after[j] == next[j]);
            }
        }
        assert(passed_over(watch, reports, after, from, hi));
        assert forall|j: int| 0 <= j < from implies #[trigger] after[j] == watch[j] by {}
        if step is Attempt {
            assert(untouched(next, after, hi, watch.len() as int));
            assert forall|j: int| hi <= j < watch.len() implies #[trigger] after[j] == watch[j] by {}
            assert(next[hi] == watch[hi]);
        }
    }
}

/// Every new entry is for a wanted reader, and every wanted reader that was
/// looked at is watched afterwards, by an old entry or a new one.
pub proof fn lemma_new_readers(wanted: Seq<Seq<char>>, watch: Seq<CardReaderView>)
    ensures
        forall|i: int|
            0 <= i < new_readers(wanted, watch).len() ==> wanted.contains(
                (#[trigger] new_readers(wanted, watch)[i]).name,
            ),
        forall|i: int|
            0 <= i < new_readers(wanted, watch).len() ==> (#[trigger] new_readers(
                wanted,
                watch,
            )[i]).state == STATE_UNKNOWN,
        forall|k: int|
            0 <= k < wanted.len() ==> watches(watch, #[trigger] wanted[k]) || watches(
                new_readers(wanted, watch),
                wanted[k],
            ),
    decreases wanted.len(),
{
    if wanted.len() > 0 {
        let before = wanted.drop_last();
        let rest = new_readers(before, watch);
        let all = new_readers(wanted, watch);
        let name = wanted.last();
        lemma_new_readers(before, watch);
        assert forall|i: int| 0 <= i < all.len() implies wanted.contains(
            (#[trigger] all[i]).name,
        ) by {
            if i < rest.len() {
                assert(all[i] == rest[i]);
                let k = choose|k: int| 0 <= k < before.len() && before[k] == rest[i].name;
                assert(wanted[k] == all[i].name);
            } else {
                assert(wanted[wanted.len() - 1] == all[i].name);
            }
        }
        assert forall|i: int| 0 <= i < all.len() implies (#[trigger] all[i]).state
            == STATE_UNKNOWN by {
            if i < rest.len() {
                assert(all[i] == rest[i]);
            }
        }
        assert forall|k: int| 0 <= k < wanted.len() implies watches(watch, #[trigger] wanted[k])
            || watches(all, wanted[k]) by {
            if k < before.len() {
                assert(before[k] == wanted[k]);
                if watches(rest, wanted[k]) {
                    let i = choose|i: int| 0 <= i < rest.len() && (#[trigger] rest[i]).name == wanted[k];
                    assert(all[i].name == wanted[k]);
                }
            } else {
                if !watches(watch, name) && !watches(rest, name) {
                    assert(all[rest.len() as int].name == name);
                }
            }
        }
    }
}

/// The watch list after reconciling follows the readers that are there: it
/// has an entry for each of them and for the pseudo-reader, and for nothing
/// else. Entries that stay are not touched, and an entry that is new knows
/// nothing of its reader's state.
pub proof fn lemma_reconciled(watch: Seq<CardReaderView>, live: Seq<Seq<char>>)
    ensures
        forall|i: int|
            0 <= i < reconciled(watch, live).len() ==> wanted_names(live).contains(
                (#[trigger] reconciled(watch, live)[i]).name,
            ),
        forall|k: int|
            0 <= k < wanted_names(live).len() ==> watches(
                reconciled(watch, live),
                #[trigger] wanted_names(live)[k],
            ),
        forall|i: int|
            0 <= i < reconciled(watch, live).len() ==> watch.contains(
                #[trigger] reconciled(watch, live)[i],
            ) || reconciled(watch, live)[i].state == STATE_UNKNOWN,
{
    let wanted = wanted_names(live);
    let kept = kept_readers(watch, wanted);
    let fresh = new_readers(wanted, watch);
    let all = reconciled(watch, live);
    let pred = |r: CardReaderView| wanted.contains(r.name);
    lemma_new_readers(wanted, watch);
    assert forall|i: int| 0 <= i < all.len() implies wanted.contains((#[trigger] all[i]).name) by {
        if i < kept.len() {
            assert(all[i] == kept[i]);
            watch.lemma_filter_pred(pred, i);
        } else {
            assert(all[i] == fresh[i - kept.len()]);
        }
    }
    assert forall|i: int| 0 <= i < all.len() implies watch.contains(#[trigger] all[i])
        || all[i].state == STATE_UNKNOWN by {
        if i < kept.len() {
            assert(all[i] == kept[i]);
            assert(kept.contains(kept[i]));
            watch.lemma_filter_contains_rev(pred, kept[i]);
        } else {
            assert(all[i] == fresh[i - kept.len()]);
        }
    }
    assert forall|k: int| 0 <= k < wanted.len() implies watches(all, #[trigger] wanted[k]) by {
        let name = wanted[k];
        if watches(watch, name) {
            lemma_kept_watches(watch, wanted, name);
            let i = choose|i: int| 0 <= i < kept.len() && (#[trigger] kept[i]).name == name;
            assert(all[i].name == name);
        } else {
            let i = choose|i: int| 0 <= i < fresh.len() && (#[trigger] fresh[i]).name == name;
            assert(all[kept.len() + i].name == name);
        }
    }
}

} // verus!
