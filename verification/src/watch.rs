//! The change watcher: the states a watcher goes through, and what becomes
//! of each change that its backend reports.

use crate::discovery::{entry_path, is_ignored_dir, is_ignored_name};
use crate::discovery::{is_markdown_name, join_entry};
use crate::msg::{MsgInternalBuilder, MsgInternalBuilderView};
use std::collections::HashMap;
use vstd::prelude::*;

verus! {

broadcast use vstd::std_specs::hash::group_hash_axioms;

/// Where a watcher stands.
#[derive(Clone, Copy, Debug, PartialEq, Eq, Structural)]
pub enum WatcherState {
    /// The backend is being set up.
    Starting,
    /// Changes are reported.
    Watching,
    /// The watcher is ending, after a fatal error or a request to stop.
    Stopping,
    /// The watcher has ended.
    Stopped,
}

/// What happens to a watcher.
#[derive(Clone, Copy, Debug, PartialEq, Eq, Structural)]
pub enum WatcherInput {
    /// The backend is set up.
    Started,
    /// The backend reported a change.
    Event,
    /// The backend failed for good.
    Fatal,
    /// The owner asked the watcher to stop.
    Stop,
    /// The backend was closed.
    Closed,
}

/// The state that follows `state` on `input`. A watcher that is ending or
/// has ended never watches again.
pub open spec fn next_state(state: WatcherState, input: WatcherInput) -> WatcherState {
    match (state, input) {
        (WatcherState::Starting, WatcherInput::Started) => WatcherState::Watching,
        (WatcherState::Starting, WatcherInput::Fatal) => WatcherState::Stopping,
        (WatcherState::Starting, WatcherInput::Stop) => WatcherState::Stopping,
        (WatcherState::Watching, WatcherInput::Fatal) => WatcherState::Stopping,
        (WatcherState::Watching, WatcherInput::Stop) => WatcherState::Stopping,
        (WatcherState::Stopping, WatcherInput::Closed) => WatcherState::Stopped,
        _ => state,
    }
}

/// The state after the inputs `inputs`, taken in turn from `state`.
pub open spec fn state_after(state: WatcherState, inputs: Seq<WatcherInput>) -> WatcherState
    decreases inputs.len(),
{
    if inputs.len() == 0 {
        state
    } else {
        next_state(state_after(state, inputs.drop_last()), inputs.last())
    }
}

/// There is no restart: once a watcher is ending or has ended, no inputs
/// bring it back to starting or watching, and one that has ended stays so.
pub proof fn lemma_no_restart(state: WatcherState, inputs: Seq<WatcherInput>)
    requires
        state is Stopping || state is Stopped,
    ensures
        state_after(state, inputs) is Stopping || state_after(state, inputs) is Stopped,
        state is Stopped ==> state_after(state, inputs) is Stopped,
    decreases inputs.len(),
{
    if inputs.len() > 0 {
        lemma_no_restart(state, inputs.drop_last());
    }
}

/// A fatal error or a request to stop ends the watching at once.
pub proof fn lemma_fatal_error_stops(state: WatcherState, input: WatcherInput)
    requires
        input is Fatal || input is Stop,
    ensures
        !(next_state(state, input) is Watching),
        !(next_state(state, input) is Starting),
{
}

/// The kinds of change that every backend's reports come down to.
#[derive(Clone, Copy, Debug, PartialEq, Eq, Structural)]
pub enum ChangeKind {
    Created,
    Deleted,
    Modified,
}

/// What a kernel notification says of a change.
#[derive(Clone, Copy, Debug, PartialEq, Eq, Structural)]
pub struct EventMask {
    pub create: bool,
    pub delete: bool,
    pub modify: bool,
    pub is_dir: bool,
}

/// The kind of change that `mask` reports: a creation before a deletion
/// before a modification, where it names several.
pub open spec fn kind_of(mask: EventMask) -> Option<ChangeKind> {
    if mask.create {
        Some(ChangeKind::Created)
    } else if mask.delete {
        Some(ChangeKind::Deleted)
    } else if mask.modify {
        Some(ChangeKind::Modified)
    } else {
        None
    }
}

/// The kind of change to a file of which a daemon says whether it exists
/// now and whether it is new since the last report.
pub open spec fn kind_of_presence(exists: bool, is_new: bool) -> ChangeKind {
    if !exists {
        ChangeKind::Deleted
    } else if is_new {
        ChangeKind::Created
    } else {
        ChangeKind::Modified
    }
}

impl ChangeKind {
    /// The kind of change that a kernel notification with `mask` reports,
    /// if it reports one.
    pub fn of_mask(mask: EventMask) -> (kind: Option<ChangeKind>)
        ensures
            kind == kind_of(mask),
    {
        if mask.create {
            Some(ChangeKind::Created)
        } else if mask.delete {
            Some(ChangeKind::Deleted)
        } else if mask.modify {
            Some(ChangeKind::Modified)
        } else {
            None
        }
    }

    /// The kind of change to a file that exists now or not, and is new
    /// since the last report or not.
    pub fn of_presence(exists: bool, is_new: bool) -> (kind: ChangeKind)
        ensures
            kind == kind_of_presence(exists, is_new),
    {
        if !exists {
            ChangeKind::Deleted
        } else if is_new {
            ChangeKind::Created
        } else {
            ChangeKind::Modified
        }
    }
}

/// What is done about a change.
pub enum WatchStep {
    /// Nothing.
    Nothing,
    /// The directory at this path, relative to the root, is new: it is to
    /// be watched as well.
    AddWatch(String),
    /// The builder is told.
    Send(MsgInternalBuilder),
}

/// What a `WatchStep` holds, as plain mathematics.
pub ghost enum WatchStepView {
    Nothing,
    AddWatch(Seq<char>),
    Send(MsgInternalBuilderView),
}

impl View for WatchStep {
    type V = WatchStepView;

    open spec fn view(&self) -> WatchStepView {
        match self {
            WatchStep::Nothing => WatchStepView::Nothing,
            WatchStep::AddWatch(dir) => WatchStepView::AddWatch(dir@),
            WatchStep::Send(msg) => WatchStepView::Send(msg@),
        }
    }
}

/// What is done about a change of kind `kind` to the entry `name` of the
/// directory `dir`. A new directory is watched unless it is one that is
/// never looked into; other changes to directories are passed over. Of the
/// files only source documents are reported.
pub open spec fn step_of(kind: ChangeKind, is_dir: bool, dir: Seq<char>, name: Seq<char>) -> WatchStepView {
    let file = entry_path(dir, name);
    if is_dir {
        if kind is Created && !is_ignored_name(name) {
            WatchStepView::AddWatch(file)
        } else {
            WatchStepView::Nothing
        }
    } else if is_markdown_name(file) {
        WatchStepView::Send(
            match kind {
                ChangeKind::Created => MsgInternalBuilderView::FileCreated(file),
                ChangeKind::Deleted => MsgInternalBuilderView::FileDeleted(file),
                ChangeKind::Modified => MsgInternalBuilderView::FileModified(file),
            },
        )
    } else {
        WatchStepView::Nothing
    }
}

/// Whether regex finds `pattern` somewhere in `text`: what `Regex::new` and
/// then `Regex::is_match` give. Nothing where `Regex::new` refuses the
/// pattern.
pub uninterp spec fn regex_found(pattern: Seq<char>, text: Seq<char>) -> Option<bool>;

/// The pattern of the paths of source documents: a dot, `md`, and the end
/// of the text.
pub open spec fn markdown_pattern() -> Seq<char> {
    seq!['\\', '.', 'm', 'd', '$']
}

/// Compiles `pattern` with regex's `Regex::new` and searches `text` with
/// `Regex::is_match`. The contract claims that the outcome depends on the
/// two texts alone, and that the pattern of an escaped dot, `md` and the end
/// of the text is found in exactly the texts that end in `.md`.
#[verifier::external_body]
fn regex_is_match(pattern: &str, text: &str) -> (found: Option<bool>)
    ensures
        found == regex_found(pattern@, text@),
        pattern@ == markdown_pattern() ==> found == Some(is_markdown_name(text@)),
{
    match regex::Regex::new(pattern) {
        Ok(regex) => Some(regex.is_match(text)),
        Err(_) => None,
    }
}

/// Whether the path `file` is that of a source document.
pub fn is_markdown_path(file: &str) -> (r: bool)
    ensures
        r == is_markdown_name(file@),
{
    proof {
        reveal_strlit("\\.md$");
        assert("\\.md$"@ =~= markdown_pattern());
    }
    match regex_is_match("\\.md$", file) {
        Some(found) => found,
        None => false,
    }
}

/// Decides what is done about a change of kind `kind` to the entry `name`
/// of the directory `dir`, whatever backend reported it.
pub fn normalize(kind: ChangeKind, is_dir: bool, dir: &str, name: &str) -> (step: WatchStep)
    ensures
        step@ == step_of(kind, is_dir, dir@, name@),
{
    let file = join_entry(dir, name);
    if is_dir {
        match kind {
            ChangeKind::Created => {
                if is_ignored_dir(name) {
                    WatchStep::Nothing
                } else {
                    WatchStep::AddWatch(file)
                }
            },
            _ => WatchStep::Nothing,
        }
    } else if is_markdown_path(file.as_str()) {
        WatchStep::Send(
            match kind {
                ChangeKind::Created => MsgInternalBuilder::FileCreated(file),
                ChangeKind::Deleted => MsgInternalBuilder::FileDeleted(file),
                ChangeKind::Modified => MsgInternalBuilder::FileModified(file),
            },
        )
    } else {
        WatchStep::Nothing
    }
}

/// A watcher on kernel notifications: its state, and the directory that
/// each watch descriptor stands for.
pub struct Watcher {
    state: WatcherState,
    wd_to_dir: HashMap<i32, String>,
}

/// A watcher as plain mathematics.
pub ghost struct WatcherView {
    pub state: WatcherState,
    /// The watched directories by watch descriptor, as paths relative to
    /// the root; the root itself is the empty path.
    pub dirs: Map<i32, Seq<char>>,
}

/// The text of a name that may be missing.
pub open spec fn name_text(name: Option<&str>) -> Option<Seq<char>> {
    match name {
        Some(name) => Some(name@),
        None => None,
    }
}

impl WatcherView {
    /// What is done about the notification `mask` for the entry `name`
    /// under the watch `wd`. Nothing is done unless the watcher is
    /// watching, knows the watch, and the notification names an entry and
    /// a kind of change.
    pub open spec fn event_step(self, wd: i32, name: Option<Seq<char>>, mask: EventMask) -> WatchStepView {
        if self.state is Watching && self.dirs.contains_key(wd) && name is Some && kind_of(
            mask,
        ) is Some {
            step_of(kind_of(mask)->0, mask.is_dir, self.dirs[wd], name->0)
        } else {
            WatchStepView::Nothing
        }
    }
}

impl View for Watcher {
    type V = WatcherView;

    closed spec fn view(&self) -> WatcherView {
        WatcherView {
            state: self.state,
            dirs: self.wd_to_dir@.map_values(|dir: String| dir@),
        }
    }
}

impl Watcher {
    /// A watcher that is starting and watches nothing yet.
    pub fn new() -> (watcher: Self)
        ensures
            watcher@.state is Starting,
            watcher@.dirs == Map::<i32, Seq<char>>::empty(),
    {
        Watcher { state: WatcherState::Starting, wd_to_dir: HashMap::new() }
    }

    /// Where the watcher stands.
    pub fn state(&self) -> (state: WatcherState)
        ensures
            state == self@.state,
    {
        self.state
    }

    /// Takes the watcher to the state that follows on `input`.
    pub fn advance(&mut self, input: WatcherInput)
        ensures
            final(self)@.state == next_state(old(self)@.state, input),
            final(self)@.dirs == old(self)@.dirs,
    {
        self.state = match (self.state, input) {
            (WatcherState::Starting, WatcherInput::Started) => WatcherState::Watching,
            (WatcherState::Starting, WatcherInput::Fatal) => WatcherState::Stopping,
            (WatcherState::Starting, WatcherInput::Stop) => WatcherState::Stopping,
            (WatcherState::Watching, WatcherInput::Fatal) => WatcherState::Stopping,
            (WatcherState::Watching, WatcherInput::Stop) => WatcherState::Stopping,
            (WatcherState::Stopping, WatcherInput::Closed) => WatcherState::Stopped,
            (state, _) => state,
        };
    }

    /// Records that the watch `wd` stands for the directory `dir`.
    pub fn add_watch(&mut self, wd: i32, dir: String)
        ensures
            final(self)@.state == old(self)@.state,
            final(self)@.dirs == old(self)@.dirs.insert(wd, dir@),
    {
        self.wd_to_dir.insert(wd, dir);
    }

    /// Decides what is done about the notification `mask` for the entry
    /// `name` under the watch `wd`.
    pub fn watch_inotify(&self, wd: i32, name: Option<&str>, mask: EventMask) -> (step: WatchStep)
        ensures
            step@ == self@.event_step(wd, name_text(name), mask),
    {
        match self.state {
            WatcherState::Watching => {},
            _ => {
                return WatchStep::Nothing;
            },
        }
        match (ChangeKind::of_mask(mask), self.wd_to_dir.get(&wd), name) {
            (Some(kind), Some(dir), Some(name)) => normalize(
                kind,
                mask.is_dir,
                dir.as_str(),
                name,
            ),
            _ => WatchStep::Nothing,
        }
    }

    /// The watcher's backend failed for good: the watcher begins to end,
    /// and the message that ends the whole pipeline is handed out.
    pub fn fail(&mut self) -> (exit: MsgInternalBuilder)
        ensures
            final(self)@.state == next_state(old(self)@.state, WatcherInput::Fatal),
            final(self)@.dirs == old(self)@.dirs,
            exit@ == MsgInternalBuilderView::Exit,
    {
        self.advance(WatcherInput::Fatal);
        MsgInternalBuilder::Exit()
    }
}

} // verus!
