//! Whole runs of the set-up, and what they do to the file system.
//!
//! A run is told by the events that the host reports, in order. [`run_spec`]
//! gives the requests that the set-up issues in such a run, and
//! [`files_spec`] the file system that a host leaves behind when it performs
//! each request as [`perform`] describes. The proof functions of this module
//! state what holds of every run.

use vstd::prelude::*;
use vstd::utf8::encode_utf8;
use crate::error::ErrorView;
use crate::identities::collect_entries;
use crate::keys::{draw_view, KeyMaterial, KeyView};
use crate::record::{Paths, PathsView, RecordView};
use crate::text::{secrets_file, Notice};
use crate::wizard::{
    finish, init, init_spec, open_notice, rank, step_spec, ActionView, Event, EventView, Request, RequestView,
    Stage, Wizard, WizardView, SECRETS_MODE,
};

verus! {

/// A run so far: the state reached, and every request issued, the first one
/// included. The last request is the one that the host has yet to perform.
pub struct RunView {
    pub wizard: WizardView,
    pub issued: Seq<RequestView>,
}

/// The run in which the host has reported `events`, one after the other, and
/// in which the draw of the key pair gives `drawn`: the pair, or the message
/// of the operating system's failure.
pub open spec fn run_spec(
    paths: PathsView,
    events: Seq<EventView>,
    drawn: Result<KeyView, Seq<char>>,
) -> RunView
    decreases events.len(),
{
    if events.len() == 0 {
        RunView { wizard: init_spec(paths).0, issued: seq![init_spec(paths).1] }
    } else {
        let before = run_spec(paths, events.drop_last(), drawn);
        let (wizard, request) = step_spec(before.wizard, events.last(), drawn);
        RunView { wizard, issued: before.issued.push(request) }
    }
}

/// The values of a list of events.
pub open spec fn event_views(events: Seq<Event>) -> Seq<EventView> {
    Seq::new(events.len(), |i: int| events[i]@)
}

/// The values of a list of requests.
pub open spec fn request_views(requests: Seq<Request>) -> Seq<RequestView> {
    Seq::new(requests.len(), |i: int| requests[i]@)
}

/// A copy of what a draw gave.
fn copy_draw(drawn: &Result<KeyMaterial, String>) -> (copy: Result<KeyMaterial, String>)
    ensures
        draw_view(copy) == draw_view(*drawn),
{
    match drawn {
        Ok(keys) => Ok(*keys),
        Err(message) => Err(message.clone()),
    }
}

/// Runs the set-up on a prepared list of events, with `drawn` as what the
/// draw of the key pair gives: the state reached, and every request issued
/// on the way, the first one included.
pub fn replay(paths: Paths, events: &Vec<Event>, drawn: &Result<KeyMaterial, String>) -> (ran: (
    Wizard,
    Vec<Request>,
))
    ensures
        ran.0@ == run_spec(paths@, event_views(events@), draw_view(*drawn)).wizard,
        request_views(ran.1@) == run_spec(paths@, event_views(events@), draw_view(*drawn)).issued,
{
    let ghost places = paths@;
    let ghost all = event_views(events@);
    let ghost given = draw_view(*drawn);
    let (first_state, first_request) = init(paths);
    let mut wizard = first_state;
    let mut issued: Vec<Request> = Vec::new();
    issued.push(first_request);
    assert(request_views(issued@) == seq![init_spec(places).1]);
    assert(all.subrange(0, 0) == Seq::<EventView>::empty());
    let mut i: usize = 0;
    while i < events.len()
        invariant
            i <= events.len(),
            all == event_views(events@),
            given == draw_view(*drawn),
            wizard@ == run_spec(places, all.subrange(0, i as int), given).wizard,
            request_views(issued@) == run_spec(places, all.subrange(0, i as int), given).issued,
        decreases events.len() - i,
    {
        let ghost upto = all.subrange(0, i as int);
        let ghost before = request_views(issued@);
        let event = events[i].duplicate();
        let (next, request) = wizard.advance(event, copy_draw(drawn));
        wizard = next;
        issued.push(request);
        proof {
            assert(all.subrange(0, i + 1) == upto.push(all[i as int]));
            lemma_one_more(
                places,
                FileSystem { dirs: Set::empty(), files: Map::empty() },
                upto,
                all[i as int],
                given,
            );
            assert(request_views(issued@) == before.push(request@));
        }
        i += 1;
    }
    assert(all.subrange(0, events.len() as int) == all);
    (wizard, issued)
}

/// A file: its permission bits, where its place has such bits, and its
/// bytes.
pub struct FileView {
    pub mode: Option<u32>,
    pub content: Seq<u8>,
}

/// The part of a file system that the set-up is concerned with.
pub struct FileSystem {
    /// The directories that exist.
    pub dirs: Set<Seq<char>>,
    /// The files that exist, by path.
    pub files: Map<Seq<char>, FileView>,
}

/// The permission bits of a file that the host has opened on a request
/// with the bits `mode`: those bits, whether the file is new or was there
/// with others; none in a place that has no permission bits.
pub open spec fn opened_mode(paths: PathsView, mode: u32) -> Option<u32> {
    if paths.permission_bits {
        Some(mode)
    } else {
        None
    }
}

/// The file system after the host has performed `action` and reported
/// `reply`, in the places `paths`.
///
/// Only an action that the host completed has an effect. Creating a
/// directory adds it. Opening the secrets file leaves it empty and with the
/// permission bits of the request, whatever bits it had if it was there.
/// Writing appends the text, encoded as UTF-8, to the secrets file and
/// leaves its bits as they are.
pub open spec fn perform(
    fs: FileSystem,
    paths: PathsView,
    action: ActionView,
    reply: EventView,
) -> FileSystem {
    if reply == EventView::Completed {
        match action {
            ActionView::CreateDir { path } => FileSystem { dirs: fs.dirs.insert(path), ..fs },
            ActionView::OpenSecrets { path, mode } => FileSystem {
                files: fs.files.insert(
                    path,
                    FileView { mode: opened_mode(paths, mode), content: Seq::empty() },
                ),
                ..fs
            },
            ActionView::Write { text } => if fs.files.contains_key(paths.user_info) {
                FileSystem {
                    files: fs.files.insert(
                        paths.user_info,
                        FileView {
                            mode: fs.files[paths.user_info].mode,
                            content: fs.files[paths.user_info].content + encode_utf8(text),
                        },
                    ),
                    ..fs
                }
            } else {
                fs
            },
            _ => fs,
        }
    } else {
        fs
    }
}

/// The file system after a run that began on `fs`: each event is the host's
/// report on the request that was pending when it came.
pub open spec fn files_spec(
    paths: PathsView,
    fs: FileSystem,
    events: Seq<EventView>,
    drawn: Result<KeyView, Seq<char>>,
) -> FileSystem
    decreases events.len(),
{
    if events.len() == 0 {
        fs
    } else {
        let before = events.drop_last();
        perform(
            files_spec(paths, fs, before, drawn),
            paths,
            run_spec(paths, before, drawn).issued.last().action,
            events.last(),
        )
    }
}

/// The events up to the question for the name: the user agrees to start,
/// agrees once more if a secrets file `existed`, and the directories and the
/// file are made.
pub open spec fn opening(existed: bool) -> Seq<EventView> {
    let probed = Seq::<EventView>::empty().push(EventView::Answer(true)).push(
        EventView::Exists(existed),
    );
    let agreed = if existed {
        probed.push(EventView::Answer(true))
    } else {
        probed
    };
    agreed.push(EventView::Completed).push(EventView::Completed).push(EventView::Completed)
}

/// `base`, and then the events in which the user enters `entries` as
/// identities, one after the other.
pub open spec fn with_identities(
    base: Seq<EventView>,
    entries: Seq<(Seq<char>, Seq<char>)>,
) -> Seq<EventView>
    decreases entries.len(),
{
    if entries.len() == 0 {
        base
    } else {
        with_identities(base, entries.drop_last()).push(EventView::Answer(true)).push(
            EventView::Line(entries.last().0),
        ).push(EventView::Line(entries.last().1))
    }
}

/// `base`, and then the events in which the user adds no further identity,
/// gives `status` or declines to, and the host encodes the record as `body`
/// and writes the file.
pub open spec fn closing(
    base: Seq<EventView>,
    status: Option<Seq<char>>,
    body: Seq<char>,
) -> Seq<EventView> {
    let declined = base.push(EventView::Answer(false));
    let answered = match status {
        Some(text) => declined.push(EventView::Answer(true)).push(EventView::Line(text)),
        None => declined.push(EventView::Answer(false)),
    };
    answered.push(EventView::Encoded(body)).push(EventView::Completed)
}

/// The events of a run that goes through: the user enters `name`, then
/// `entries`, then `status`, and nothing fails.
pub open spec fn script(
    existed: bool,
    name: Seq<char>,
    entries: Seq<(Seq<char>, Seq<char>)>,
    status: Option<Seq<char>>,
    body: Seq<char>,
) -> Seq<EventView> {
    closing(with_identities(opening(existed).push(EventView::Line(name)), entries), status, body)
}

/// The state while the user is being asked, with nothing pending.
pub open spec fn collecting(
    paths: PathsView,
    stage: Stage,
    name: Seq<char>,
    identities: Map<Seq<char>, Seq<char>>,
) -> WizardView {
    WizardView { paths, stage, name, identities, label: Seq::empty(), failure: None }
}

/// One more event: the run and the file system go on by one step.
pub proof fn lemma_one_more(
    paths: PathsView,
    fs: FileSystem,
    events: Seq<EventView>,
    event: EventView,
    drawn: Result<KeyView, Seq<char>>,
)
    ensures
        run_spec(paths, events.push(event), drawn).wizard == step_spec(
            run_spec(paths, events, drawn).wizard,
            event,
            drawn,
        ).0,
        run_spec(paths, events.push(event), drawn).issued == run_spec(
            paths,
            events,
            drawn,
        ).issued.push(step_spec(run_spec(paths, events, drawn).wizard, event, drawn).1),
        files_spec(paths, fs, events.push(event), drawn) == perform(
            files_spec(paths, fs, events, drawn),
            paths,
            run_spec(paths, events, drawn).issued.last().action,
            event,
        ),
{
    assert(events.push(event).drop_last() == events);
}

/// A run has issued one request more than it has seen events.
pub proof fn lemma_issued_len(
    paths: PathsView,
    events: Seq<EventView>,
    drawn: Result<KeyView, Seq<char>>,
)
    ensures
        run_spec(paths, events, drawn).issued.len() == events.len() + 1,
    decreases events.len(),
{
    if events.len() > 0 {
        lemma_issued_len(paths, events.drop_last(), drawn);
    }
}

/// A run that has ended has asked, last of all, to end.
proof fn lemma_ended_asks_to_finish(
    paths: PathsView,
    events: Seq<EventView>,
    drawn: Result<KeyView, Seq<char>>,
)
    requires
        run_spec(paths, events, drawn).wizard.finished(),
    ensures
        events.len() >= 1,
        run_spec(paths, events, drawn).issued.last().action == finish(
            run_spec(paths, events, drawn).wizard.outcome(),
        ).action,
    decreases events.len(),
{
    if events.len() > 0 {
        let before = run_spec(paths, events.drop_last(), drawn);
        if before.wizard.finished() {
            lemma_ended_asks_to_finish(paths, events.drop_last(), drawn);
        }
    }
}

/// A run that has ended stays ended: whatever the host reports after the
/// first `from` events, with which the run ended, the state and the result
/// stay as they were, each further request only asks again to end the run
/// with that result, and the file system is touched no more.
pub proof fn law_ended_run_stays_ended(
    paths: PathsView,
    fs: FileSystem,
    events: Seq<EventView>,
    drawn: Result<KeyView, Seq<char>>,
    from: int,
)
    requires
        0 <= from <= events.len(),
        run_spec(paths, events.subrange(0, from), drawn).wizard.finished(),
    ensures
        run_spec(paths, events, drawn).wizard == run_spec(
            paths,
            events.subrange(0, from),
            drawn,
        ).wizard,
        forall|i: int|
            0 <= i <= from ==> #[trigger] run_spec(paths, events, drawn).issued[i] == run_spec(
                paths,
                events.subrange(0, from),
                drawn,
            ).issued[i],
        forall|i: int|
            from < i <= events.len() ==> #[trigger] run_spec(paths, events, drawn).issued[i]
                == finish(run_spec(paths, events, drawn).wizard.outcome()),
        files_spec(paths, fs, events, drawn) == files_spec(
            paths,
            fs,
            events.subrange(0, from),
            drawn,
        ),
    decreases events.len() - from,
{
    let ended = events.subrange(0, from);
    lemma_issued_len(paths, ended, drawn);
    if from == events.len() {
        assert(ended == events);
    } else {
        let front = events.drop_last();
        assert(front.subrange(0, from) == ended);
        law_ended_run_stays_ended(paths, fs, front, drawn, from);
        lemma_issued_len(paths, front, drawn);
        lemma_ended_asks_to_finish(paths, ended, drawn);
        assert forall|i: int| 0 <= i <= from implies #[trigger] run_spec(
            paths,
            events,
            drawn,
        ).issued[i] == run_spec(paths, ended, drawn).issued[i] by {
            lemma_issued_prefix(paths, events, drawn, i);
        }
        assert forall|i: int| from < i <= events.len() implies #[trigger] run_spec(
            paths,
            events,
            drawn,
        ).issued[i] == finish(run_spec(paths, events, drawn).wizard.outcome()) by {
            if i < events.len() {
                lemma_issued_prefix(paths, events, drawn, i);
            }
        }
        assert(run_spec(paths, front, drawn).issued.last().action is Finish);
    }
}

/// Declining the first confirmation changes nothing: whatever the host
/// reports afterwards, the run has stopped on the user's wish, no request of
/// the run creates a directory, opens the secrets file or writes to it, and
/// the file system is as it was.
pub proof fn law_declined_start_touches_nothing(
    paths: PathsView,
    fs: FileSystem,
    events: Seq<EventView>,
    drawn: Result<KeyView, Seq<char>>,
)
    requires
        events.len() >= 1,
        events[0] == EventView::Answer(false),
    ensures
        run_spec(paths, events, drawn).wizard.stage == Stage::Failed,
        run_spec(paths, events, drawn).wizard.outcome() == Err::<(), ErrorView>(
            ErrorView::UserAborted,
        ),
        run_spec(paths, events, drawn).issued.last() == finish(Err(ErrorView::UserAborted)),
        forall|i: int|
            0 <= i <= events.len() ==> !(#[trigger] run_spec(
                paths,
                events,
                drawn,
            ).issued[i]).action.mutates(),
        files_spec(paths, fs, events, drawn) == fs,
{
    let none = Seq::<EventView>::empty();
    let first = events.subrange(0, 1);
    assert(first == none.push(events[0]));
    lemma_one_more(paths, fs, none, events[0], drawn);
    law_ended_run_stays_ended(paths, fs, events, drawn, 1);
    lemma_ended_asks_to_finish(paths, events, drawn);
    assert(run_spec(paths, events, drawn).issued.last().notice.is_none());
}

/// Declining to re-initialize leaves the existing secrets file as it is:
/// where the host has found the file and the user has declined the second
/// confirmation, the run has stopped on the user's wish, no request of the
/// run creates a directory, opens the secrets file or writes to it, and the
/// file system, the secrets file with it, is as it was.
pub proof fn law_declined_reinit_keeps_file(
    paths: PathsView,
    fs: FileSystem,
    events: Seq<EventView>,
    drawn: Result<KeyView, Seq<char>>,
)
    requires
        events.len() >= 3,
        events[0] == EventView::Answer(true),
        events[1] == EventView::Exists(true),
        events[2] == EventView::Answer(false),
    ensures
        run_spec(paths, events, drawn).wizard.stage == Stage::Failed,
        run_spec(paths, events, drawn).wizard.outcome() == Err::<(), ErrorView>(
            ErrorView::UserAborted,
        ),
        run_spec(paths, events, drawn).issued.last() == finish(Err(ErrorView::UserAborted)),
        forall|i: int|
            0 <= i <= events.len() ==> !(#[trigger] run_spec(
                paths,
                events,
                drawn,
            ).issued[i]).action.mutates(),
        files_spec(paths, fs, events, drawn) == fs,
        fs.files.contains_key(paths.user_info) ==> files_spec(
            paths,
            fs,
            events,
            drawn,
        ).files[paths.user_info] == fs.files[paths.user_info],
{
    let s0 = Seq::<EventView>::empty();
    let s1 = s0.push(events[0]);
    let s2 = s1.push(events[1]);
    let s3 = s2.push(events[2]);
    lemma_one_more(paths, fs, s0, events[0], drawn);
    lemma_one_more(paths, fs, s1, events[1], drawn);
    lemma_one_more(paths, fs, s2, events[2], drawn);
    assert(events.subrange(0, 3) == s3);
    law_ended_run_stays_ended(paths, fs, events, drawn, 3);
    lemma_ended_asks_to_finish(paths, events, drawn);
    assert(run_spec(paths, events, drawn).issued.last().notice.is_none());
}

/// The file system once the directories are made and the secrets file is
/// open: the file is empty and the owner's alone, whether it is new or was
/// there before.
pub open spec fn opened(paths: PathsView, fs: FileSystem) -> FileSystem {
    FileSystem {
        dirs: fs.dirs.insert(paths.base_data).insert(paths.base_cache),
        files: fs.files.insert(
            paths.user_info,
            FileView { mode: secrets_mode(paths), content: Seq::empty() },
        ),
    }
}

/// The permission bits of the secrets file once the set-up has opened it:
/// read and write for the owner and nothing else, in every place that has
/// permission bits.
pub open spec fn secrets_mode(paths: PathsView) -> Option<u32> {
    opened_mode(paths, SECRETS_MODE)
}

/// Up to the question for the name, the run makes the directories and opens
/// the file.
proof fn lemma_opening(
    paths: PathsView,
    fs: FileSystem,
    existed: bool,
    drawn: Result<KeyView, Seq<char>>,
)
    ensures
        run_spec(paths, opening(existed), drawn).wizard == collecting(
            paths,
            Stage::Name,
            Seq::empty(),
            Map::empty(),
        ),
        files_spec(paths, fs, opening(existed), drawn) == opened(paths, fs),
{
    let s0 = Seq::<EventView>::empty();
    let s1 = s0.push(EventView::Answer(true));
    let s2 = s1.push(EventView::Exists(existed));
    lemma_one_more(paths, fs, s0, EventView::Answer(true), drawn);
    lemma_one_more(paths, fs, s1, EventView::Exists(existed), drawn);
    let s3 = if existed {
        s2.push(EventView::Answer(true))
    } else {
        s2
    };
    if existed {
        lemma_one_more(paths, fs, s2, EventView::Answer(true), drawn);
    }
    assert(run_spec(paths, s3, drawn).wizard == collecting(
        paths,
        Stage::DataDir,
        Seq::empty(),
        Map::empty(),
    ));
    assert(run_spec(paths, s3, drawn).issued.last().action == ActionView::CreateDir {
        path: paths.base_data,
    });
    assert(files_spec(paths, fs, s3, drawn) == fs);
    let s4 = s3.push(EventView::Completed);
    let s5 = s4.push(EventView::Completed);
    let s6 = s5.push(EventView::Completed);
    lemma_one_more(paths, fs, s3, EventView::Completed, drawn);
    lemma_one_more(paths, fs, s4, EventView::Completed, drawn);
    lemma_one_more(paths, fs, s5, EventView::Completed, drawn);
    assert(s6 == opening(existed));
    assert(files_spec(paths, fs, s4, drawn) == FileSystem {
        dirs: fs.dirs.insert(paths.base_data),
        ..fs
    });
    assert(files_spec(paths, fs, s5, drawn) == FileSystem {
        dirs: fs.dirs.insert(paths.base_data).insert(paths.base_cache),
        ..fs
    });
}

/// While identities are entered, the mapping grows as the entries say and
/// the file system stays as it is.
proof fn lemma_identities(
    paths: PathsView,
    fs: FileSystem,
    base: Seq<EventView>,
    name: Seq<char>,
    entries: Seq<(Seq<char>, Seq<char>)>,
    drawn: Result<KeyView, Seq<char>>,
)
    requires
        run_spec(paths, base, drawn).wizard == collecting(
            paths,
            Stage::IdentityAsk,
            name,
            Map::empty(),
        ),
    ensures
        run_spec(paths, with_identities(base, entries), drawn).wizard == collecting(
            paths,
            Stage::IdentityAsk,
            name,
            collect_entries(entries),
        ),
        files_spec(paths, fs, with_identities(base, entries), drawn) == files_spec(
            paths,
            fs,
            base,
            drawn,
        ),
    decreases entries.len(),
{
    if entries.len() > 0 {
        let front = entries.drop_last();
        lemma_identities(paths, fs, base, name, front, drawn);
        let s0 = with_identities(base, front);
        let s1 = s0.push(EventView::Answer(true));
        let s2 = s1.push(EventView::Line(entries.last().0));
        lemma_one_more(paths, fs, s0, EventView::Answer(true), drawn);
        lemma_one_more(paths, fs, s1, EventView::Line(entries.last().0), drawn);
        lemma_one_more(paths, fs, s2, EventView::Line(entries.last().1), drawn);
    }
}

/// A run that goes through hands out the record that the user entered and
/// writes it to a secrets file that is the user's alone.
///
/// Where the user enters `name`, then `entries` as identities, then `status`
/// or none, the draw gives the key pair `keys`, and nothing fails: the run
/// ends in success; the record handed
/// out to be encoded has that name, the identities that the entries amount
/// to (a later entry replaces an earlier one with the same label), that
/// status, and the key pair of the run; the text written is the banner and
/// then the encoded record; and afterwards both directories exist and the
/// secrets file holds that text and nothing else. Where the place has
/// permission bits, the file is readable and writable by its owner and by
/// nobody else, whether the run created it or found it there with other
/// bits. No other file has changed.
pub proof fn law_completed_run_writes_record(
    paths: PathsView,
    fs: FileSystem,
    existed: bool,
    name: Seq<char>,
    entries: Seq<(Seq<char>, Seq<char>)>,
    status: Option<Seq<char>>,
    body: Seq<char>,
    keys: KeyView,
)
    ensures
        ({
            let events = script(existed, name, entries, status, body);
            let run = run_spec(paths, events, Ok(keys));
            let after = files_spec(paths, fs, events, Ok(keys));
            &&& events.len() >= 9
            &&& run.wizard.stage == Stage::Done
            &&& run.wizard.outcome() == Ok::<(), ErrorView>(())
            &&& run.issued.last() == RequestView {
                notice: Some(Notice::Initialized),
                action: ActionView::Finish { result: Ok(()) },
            }
            &&& run.issued[events.len() - 1].action == ActionView::Write {
                text: secrets_file(body),
            }
            &&& run.issued[events.len() - 2].action == ActionView::Encode {
                record: RecordView {
                    name,
                    identities: collect_entries(entries),
                    status,
                    keypair: keys,
                },
            }
            &&& after.dirs == fs.dirs.insert(paths.base_data).insert(paths.base_cache)
            &&& after.files == fs.files.insert(
                paths.user_info,
                FileView {
                    mode: secrets_mode(paths),
                    content: encode_utf8(secrets_file(body)),
                },
            )
            &&& paths.permission_bits ==> after.files[paths.user_info].mode == Some(SECRETS_MODE)
        }),
{
    let drawn: Result<KeyView, Seq<char>> = Ok(keys);
    let a = opening(existed);
    lemma_opening(paths, fs, existed, drawn);
    let b = a.push(EventView::Line(name));
    lemma_one_more(paths, fs, a, EventView::Line(name), drawn);
    let c = with_identities(b, entries);
    lemma_identities(paths, fs, b, name, entries, drawn);
    lemma_with_identities_len(b, entries);
    let d = c.push(EventView::Answer(false));
    lemma_one_more(paths, fs, c, EventView::Answer(false), drawn);
    let e = match status {
        Some(text) => d.push(EventView::Answer(true)).push(EventView::Line(text)),
        None => d.push(EventView::Answer(false)),
    };
    match status {
        Some(text) => {
            let asked = d.push(EventView::Answer(true));
            lemma_one_more(paths, fs, d, EventView::Answer(true), drawn);
            lemma_one_more(paths, fs, asked, EventView::Line(text), drawn);
        },
        None => {
            lemma_one_more(paths, fs, d, EventView::Answer(false), drawn);
        },
    }
    let record = RecordView { name, identities: collect_entries(entries), status, keypair: keys };
    assert(run_spec(paths, e, drawn).wizard == collecting(
        paths,
        Stage::Encoding,
        Seq::empty(),
        Map::empty(),
    ));
    assert(run_spec(paths, e, drawn).issued.last().action == ActionView::Encode { record });
    assert(files_spec(paths, fs, e, drawn) == opened(paths, fs));
    let f = e.push(EventView::Encoded(body));
    lemma_one_more(paths, fs, e, EventView::Encoded(body), drawn);
    let g = f.push(EventView::Completed);
    lemma_one_more(paths, fs, f, EventView::Completed, drawn);
    assert(g == script(existed, name, entries, status, body));
    lemma_issued_len(paths, e, drawn);
    lemma_issued_len(paths, f, drawn);
    let text = secrets_file(body);
    assert(Seq::<u8>::empty() + encode_utf8(text) == encode_utf8(text));
    assert(files_spec(paths, fs, g, drawn).files == fs.files.insert(
        paths.user_info,
        FileView { mode: secrets_mode(paths), content: encode_utf8(text) },
    ));
}

/// Entering identities takes three events each.
proof fn lemma_with_identities_len(base: Seq<EventView>, entries: Seq<(Seq<char>, Seq<char>)>)
    ensures
        with_identities(base, entries).len() == base.len() + 3 * entries.len(),
    decreases entries.len(),
{
    if entries.len() > 0 {
        lemma_with_identities_len(base, entries.drop_last());
    }
}

/// Re-initializing replaces the record: after a run that goes through on an
/// existing secrets file, the file holds the banner and the newly encoded
/// record and nothing of what it held before, whatever that was.
pub proof fn law_reinit_replaces_record(
    paths: PathsView,
    fs: FileSystem,
    other: FileSystem,
    name: Seq<char>,
    entries: Seq<(Seq<char>, Seq<char>)>,
    status: Option<Seq<char>>,
    body: Seq<char>,
    keys: KeyView,
)
    requires
        fs.files.contains_key(paths.user_info),
        other.files.contains_key(paths.user_info),
    ensures
        ({
            let events = script(true, name, entries, status, body);
            let after = files_spec(paths, fs, events, Ok(keys));
            &&& after.files.contains_key(paths.user_info)
            &&& after.files[paths.user_info].content == encode_utf8(secrets_file(body))
            &&& after.files[paths.user_info].content == files_spec(
                paths,
                other,
                events,
                Ok(keys),
            ).files[paths.user_info].content
        }),
{
    law_completed_run_writes_record(paths, fs, true, name, entries, status, body, keys);
    law_completed_run_writes_record(paths, other, true, name, entries, status, body, keys);
}

/// The request to open the secrets file: at the configured path, with the
/// owner-only permission bits, and with the warning where these cannot be
/// set.
pub open spec fn open_request(paths: PathsView) -> RequestView {
    RequestView {
        notice: open_notice(paths),
        action: ActionView::OpenSecrets { path: paths.user_info, mode: SECRETS_MODE },
    }
}

/// The host has opened the secrets file, owner-only, as the request at
/// place `at` of the run asked it to.
pub open spec fn opened_by(
    paths: PathsView,
    events: Seq<EventView>,
    drawn: Result<KeyView, Seq<char>>,
    at: int,
) -> bool {
    &&& 0 <= at < events.len()
    &&& run_spec(paths, events, drawn).issued[at] == open_request(paths)
    &&& events[at] == EventView::Completed
}

/// A further event leaves the requests issued so far as they are.
proof fn lemma_issued_prefix(
    paths: PathsView,
    events: Seq<EventView>,
    drawn: Result<KeyView, Seq<char>>,
    at: int,
)
    requires
        0 <= at < events.len(),
    ensures
        run_spec(paths, events, drawn).issued[at] == run_spec(
            paths,
            events.drop_last(),
            drawn,
        ).issued[at],
{
    lemma_issued_len(paths, events.drop_last(), drawn);
}

/// What holds of a run after any events whatever.
proof fn lemma_run_invariant(
    paths: PathsView,
    events: Seq<EventView>,
    drawn: Result<KeyView, Seq<char>>,
)
    ensures
        run_spec(paths, events, drawn).wizard.paths == paths,
        run_spec(paths, events, drawn).issued.len() == events.len() + 1,
        forall|i: int|
            0 <= i <= events.len() && (#[trigger] run_spec(
                paths,
                events,
                drawn,
            ).issued[i]).action is OpenSecrets ==> run_spec(paths, events, drawn).issued[i]
                == open_request(paths),
        forall|i: int|
            0 <= i <= events.len() && (#[trigger] run_spec(
                paths,
                events,
                drawn,
            ).issued[i]).action is Write ==> exists|j: int|
                j < i && opened_by(paths, events, drawn, j),
        ({
            let stage = run_spec(paths, events, drawn).wizard.stage;
            6 <= rank(stage) && stage != Stage::Failed ==> exists|j: int|
                opened_by(paths, events, drawn, j)
        }),
        run_spec(paths, events, drawn).wizard.stage == Stage::Opening ==> run_spec(
            paths,
            events,
            drawn,
        ).issued.last().action is OpenSecrets,
        forall|i: int|
            0 <= i <= events.len() && (#[trigger] run_spec(
                paths,
                events,
                drawn,
            ).issued[i]).action is Encode ==> rank(run_spec(paths, events, drawn).wizard.stage)
                >= 12,
        forall|i: int, j: int|
            0 <= i < j <= events.len() ==> !((#[trigger] run_spec(
                paths,
                events,
                drawn,
            ).issued[i]).action is Encode && (#[trigger] run_spec(
                paths,
                events,
                drawn,
            ).issued[j]).action is Encode),
    decreases events.len(),
{
    let run = run_spec(paths, events, drawn);
    if events.len() > 0 {
        let front = events.drop_last();
        let before = run_spec(paths, front, drawn);
        let n = front.len() as int;
        lemma_run_invariant(paths, front, drawn);
        assert forall|i: int| 0 <= i <= n implies #[trigger] run.issued[i] == before.issued[i] by {
            lemma_issued_prefix(paths, events, drawn, i);
        }
        assert forall|j: int| opened_by(paths, front, drawn, j) implies opened_by(
            paths,
            events,
            drawn,
            j,
        ) by {
            lemma_issued_prefix(paths, events, drawn, j);
        }
        let next = step_spec(before.wizard, events.last(), drawn);
        assert(run.wizard == next.0);
        assert(run.issued[n + 1] == next.1);
        if before.wizard.stage == Stage::Opening && events.last() == EventView::Completed {
            assert(opened_by(paths, events, drawn, n));
        }
        assert forall|i: int|
            0 <= i <= events.len() && (#[trigger] run.issued[i]).action is Write implies exists|
            j: int,
        | j < i && opened_by(paths, events, drawn, j) by {
            if i <= n {
                assert(before.issued[i].action is Write);
                let j = choose|j: int| j < i && opened_by(paths, front, drawn, j);
                assert(opened_by(paths, events, drawn, j));
            } else {
                assert(before.wizard.stage == Stage::Encoding);
                let j = choose|j: int| opened_by(paths, front, drawn, j);
                assert(opened_by(paths, events, drawn, j));
            }
        }
        if 6 <= rank(run.wizard.stage) && run.wizard.stage != Stage::Failed {
            if before.wizard.stage == Stage::Opening {
                assert(opened_by(paths, events, drawn, n));
            } else {
                let j = choose|j: int| opened_by(paths, front, drawn, j);
                assert(opened_by(paths, events, drawn, j));
            }
        }
        assert forall|i: int|
            0 <= i <= events.len() && (#[trigger] run.issued[i]).action is Encode implies rank(
            run.wizard.stage,
        ) >= 12 by {
            if i <= n {
                assert(before.issued[i].action is Encode);
            }
        }
        assert forall|i: int, j: int| 0 <= i < j <= events.len() implies !((
        #[trigger] run.issued[i]).action is Encode && (#[trigger] run.issued[j]).action is Encode) by {
            if j <= n {
                assert(run.issued[i] == before.issued[i]);
                assert(run.issued[j] == before.issued[j]);
            } else if run.issued[i].action is Encode {
                assert(before.issued[i].action is Encode);
            }
        }
    }
}

/// The requests of a run are those of its beginnings: the first `upto`
/// events alone lead to the same requests as far as they go.
proof fn lemma_issued_subrange(
    paths: PathsView,
    events: Seq<EventView>,
    drawn: Result<KeyView, Seq<char>>,
    upto: int,
    at: int,
)
    requires
        0 <= at <= upto <= events.len(),
    ensures
        run_spec(paths, events, drawn).issued[at] == run_spec(
            paths,
            events.subrange(0, upto),
            drawn,
        ).issued[at],
    decreases events.len() - upto,
{
    if upto == events.len() {
        assert(events.subrange(0, upto) == events);
    } else {
        let front = events.drop_last();
        assert(front.subrange(0, upto) == events.subrange(0, upto));
        lemma_issued_subrange(paths, front, drawn, upto, at);
        lemma_issued_prefix(paths, events, drawn, at);
    }
}

/// Once the host has opened the secrets file on the request of the run, the
/// file is there with the owner-only permission bits, and stays so.
proof fn lemma_opened_file(
    paths: PathsView,
    fs: FileSystem,
    events: Seq<EventView>,
    drawn: Result<KeyView, Seq<char>>,
    at: int,
)
    requires
        opened_by(paths, events, drawn, at),
    ensures
        files_spec(paths, fs, events, drawn).files.contains_key(paths.user_info),
        files_spec(paths, fs, events, drawn).files[paths.user_info].mode == secrets_mode(paths),
    decreases events.len(),
{
    let front = events.drop_last();
    let pending = run_spec(paths, front, drawn).issued.last();
    lemma_issued_len(paths, front, drawn);
    lemma_issued_prefix(paths, events, drawn, at);
    if at < front.len() {
        assert(opened_by(paths, front, drawn, at));
        lemma_opened_file(paths, fs, front, drawn, at);
        lemma_run_invariant(paths, front, drawn);
        assert(pending == run_spec(paths, front, drawn).issued[front.len() as int]);
    } else {
        assert(pending == open_request(paths));
    }
}

/// The secrets file is the user's alone before anything is written to it.
///
/// In every run, a request to open the secrets file names the configured
/// path and the owner-only permission bits, and comes with the warning to
/// restrict access where the place has no permission bits; a request to
/// write comes only after the host has opened the file on such a request;
/// and when the request to write is issued the file is there, and in a
/// place with permission bits it is readable and writable by its owner and
/// by nobody else, whatever bits it had before the run.
pub proof fn law_write_follows_open(
    paths: PathsView,
    fs: FileSystem,
    events: Seq<EventView>,
    drawn: Result<KeyView, Seq<char>>,
    at: int,
)
    requires
        0 <= at <= events.len(),
    ensures
        run_spec(paths, events, drawn).issued[at].action is OpenSecrets ==> run_spec(
            paths,
            events,
            drawn,
        ).issued[at] == open_request(paths),
        run_spec(paths, events, drawn).issued[at].action is Write ==> exists|j: int|
            j < at && opened_by(paths, events, drawn, j),
        run_spec(paths, events, drawn).issued[at].action is Write ==> ({
            let then = files_spec(paths, fs, events.subrange(0, at), drawn);
            &&& then.files.contains_key(paths.user_info)
            &&& then.files[paths.user_info].mode == secrets_mode(paths)
            &&& paths.permission_bits ==> then.files[paths.user_info].mode == Some(SECRETS_MODE)
        }),
{
    lemma_run_invariant(paths, events, drawn);
    if run_spec(paths, events, drawn).issued[at].action is Write {
        let j = choose|j: int| j < at && opened_by(paths, events, drawn, j);
        let upto = events.subrange(0, at);
        lemma_issued_subrange(paths, events, drawn, at, j);
        assert(opened_by(paths, upto, drawn, j));
        lemma_opened_file(paths, fs, upto, drawn, j);
    }
}

/// Without a key pair there is no record: where the operating system has
/// no random bytes to give, no request of a run asks for a record to be
/// encoded or for anything to be written, and the run does not end in
/// success.
pub proof fn law_failed_draw_writes_no_record(
    paths: PathsView,
    events: Seq<EventView>,
    message: Seq<char>,
    at: int,
)
    requires
        0 <= at <= events.len(),
    ensures
        !(run_spec(paths, events, Err(message)).issued[at].action is Encode),
        !(run_spec(paths, events, Err(message)).issued[at].action is Write),
        rank(run_spec(paths, events, Err(message)).wizard.stage) < 12 || run_spec(
            paths,
            events,
            Err(message),
        ).wizard.stage == Stage::Failed,
    decreases events.len(),
{
    if events.len() > 0 {
        let front = events.drop_last();
        lemma_issued_len(paths, front, Err(message));
        if at < events.len() {
            law_failed_draw_writes_no_record(paths, front, message, at);
            lemma_issued_prefix(paths, events, Err(message), at);
        } else {
            law_failed_draw_writes_no_record(paths, front, message, 0);
        }
    }
}

/// A run hands out one record at most, and so draws one key pair at most:
/// no two requests of a run ask for a record to be encoded.
pub proof fn law_one_record_per_run(
    paths: PathsView,
    events: Seq<EventView>,
    drawn: Result<KeyView, Seq<char>>,
    first: int,
    second: int,
)
    requires
        0 <= first < second <= events.len(),
    ensures
        !(run_spec(paths, events, drawn).issued[first].action is Encode && run_spec(
            paths,
            events,
            drawn,
        ).issued[second].action is Encode),
{
    lemma_run_invariant(paths, events, drawn);
}

} // verus!
