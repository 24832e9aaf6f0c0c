//! The state of the build coordinator as plain mathematics: what each
//! change makes of it, and what holds of every run of changes.

use crate::builder::BuiltFileView;
use crate::path::logical_path;
use crate::msg::{MsgInternalBuilderView, MsgSrvView};
use crate::order::{lemma_listing_order, listing_order};
use crate::store::{lemma_push_fresh, lemma_rearranged};
use vstd::prelude::*;

verus! {

/// What is answered when a path is asked for.
pub ghost enum FileReplyView {
    /// A build of the path is in flight: the answer has to wait for it.
    Pending,
    /// The artifact, if the path has one, and the listing.
    Ready(Option<BuiltFileView>, Seq<Seq<char>>),
}

/// What the builder announces after a build.
pub open spec fn announcement_of(
    before: BuilderModel,
    after: BuilderModel,
    file: Seq<char>,
    artifact: Option<BuiltFileView>,
) -> Option<MsgSrvView> {
    let path = logical_path(file);
    match artifact {
        None => None,
        Some(built) => if before.artifacts.contains_key(path) {
            Some(MsgSrvView::File(path, built))
        } else {
            Some(MsgSrvView::NewFile(path, after.listing))
        },
    }
}

/// The state of the build coordinator as plain mathematics.
pub ghost struct BuilderModel {
    /// The artifact of each path that was rendered.
    pub artifacts: Map<Seq<char>, BuiltFileView>,
    /// The known paths in their present order.
    pub listing: Seq<Seq<char>>,
    /// The paths whose build is in flight.
    pub tokens: Set<Seq<char>>,
}

impl BuilderModel {
    /// The state before anything was built.
    pub open spec fn empty() -> BuilderModel {
        BuilderModel { artifacts: Map::empty(), listing: Seq::empty(), tokens: Set::empty() }
    }

    /// The listing names each path once, and names exactly the paths that
    /// have an artifact.
    pub open spec fn wf(self) -> bool {
        &&& self.listing.no_duplicates()
        &&& forall|path: Seq<char>| self.listing.contains(path) <==> self.artifacts.contains_key(path)
    }

    /// No build of `file` is in flight, so one can begin.
    pub open spec fn can_begin(self, file: Seq<char>) -> bool {
        !self.tokens.contains(logical_path(file))
    }

    /// The state after a token was registered for `file`.
    pub open spec fn begin(self, file: Seq<char>) -> BuilderModel {
        BuilderModel { tokens: self.tokens.insert(logical_path(file)), ..self }
    }

    /// The state after the build of `file` ended with `artifact`: the token
    /// is released; an artifact is stored, a build without one, whose source
    /// could not be read, changes nothing else.
    pub open spec fn process(self, file: Seq<char>, artifact: Option<BuiltFileView>) -> BuilderModel {
        let path = logical_path(file);
        match artifact {
            Some(built) => BuilderModel {
                artifacts: self.artifacts.insert(path, built),
                listing: if self.artifacts.contains_key(path) {
                    self.listing
                } else {
                    self.listing.push(path)
                },
                tokens: self.tokens.remove(path),
            },
            None => BuilderModel { tokens: self.tokens.remove(path), ..self },
        }
    }

    /// The state with the listing brought into listing order.
    pub open spec fn sorted(self) -> BuilderModel {
        BuilderModel { listing: listing_order(self.listing), ..self }
    }

    /// The state after the build of `file` ended and was announced: as
    /// `process`, and a listing that gained a path is brought into order.
    pub open spec fn finish(self, file: Seq<char>, artifact: Option<BuiltFileView>) -> BuilderModel {
        let done = self.process(file, artifact);
        if artifact is Some && !self.artifacts.contains_key(logical_path(file)) {
            done.sorted()
        } else {
            done
        }
    }

    /// The state after `file` was built from start to end, unless a build of
    /// it was in flight already.
    pub open spec fn build(self, file: Seq<char>, artifact: Option<BuiltFileView>) -> BuilderModel {
        if self.can_begin(file) {
            self.begin(file).process(file, artifact)
        } else {
            self
        }
    }

    /// The state after each of `sources` was built in turn.
    pub open spec fn build_all(self, sources: Seq<(Seq<char>, Option<BuiltFileView>)>) -> BuilderModel
        decreases sources.len(),
    {
        if sources.len() == 0 {
            self
        } else {
            self.build(sources[0].0, sources[0].1).build_all(sources.drop_first())
        }
    }

    /// The answer to a request that names the logical path `path`, or that
    /// is malformed and names none: then it is a miss.
    pub open spec fn answer(self, path: Option<Seq<char>>) -> FileReplyView {
        match path {
            Some(path) => self.lookup(path),
            None => FileReplyView::Ready(None, self.listing),
        }
    }

    /// The answer to a request for `path`.
    pub open spec fn lookup(self, path: Seq<char>) -> FileReplyView {
        if self.tokens.contains(path) {
            FileReplyView::Pending
        } else if self.artifacts.contains_key(path) {
            FileReplyView::Ready(Some(self.artifacts[path]), self.listing)
        } else {
            FileReplyView::Ready(None, self.listing)
        }
    }
}

/// What the builder does next for a message of a watcher.
pub ghost enum BuilderStepView {
    /// Nothing.
    Idle,
    /// A build of the file is in flight: the message has to wait for it.
    Busy,
    /// The build of the file has begun: its source is to be read.
    Read(Seq<char>),
    /// The watcher has ended: the builder ends too.
    Stop,
}

/// What the builder does next for `msg` in state `m`. A created file that is
/// listed already is not built again.
pub open spec fn step_for(m: BuilderModel, msg: MsgInternalBuilderView) -> BuilderStepView {
    match msg {
        MsgInternalBuilderView::FileCreated(file) => if m.artifacts.contains_key(
            logical_path(file),
        ) {
            BuilderStepView::Idle
        } else if m.can_begin(file) {
            BuilderStepView::Read(file)
        } else {
            BuilderStepView::Busy
        },
        MsgInternalBuilderView::FileModified(file) => if m.can_begin(file) {
            BuilderStepView::Read(file)
        } else {
            BuilderStepView::Busy
        },
        MsgInternalBuilderView::FileDeleted(_) => BuilderStepView::Idle,
        MsgInternalBuilderView::Ignore => BuilderStepView::Idle,
        MsgInternalBuilderView::Exit => BuilderStepView::Stop,
    }
}

/// One change of the coordinator's state.
pub ghost enum BuilderOp {
    Begin(Seq<char>),
    Process(Seq<char>, Option<BuiltFileView>),
    Finish(Seq<char>, Option<BuiltFileView>),
    Initial(Seq<(Seq<char>, Option<BuiltFileView>)>),
    Sort,
}

impl BuilderOp {
    /// The state after this change.
    pub open spec fn apply(self, m: BuilderModel) -> BuilderModel {
        match self {
            BuilderOp::Begin(file) => m.begin(file),
            BuilderOp::Process(file, source) => m.process(file, source),
            BuilderOp::Finish(file, source) => m.finish(file, source),
            BuilderOp::Initial(sources) => m.build_all(sources).sorted(),
            BuilderOp::Sort => m.sorted(),
        }
    }

    /// This change is about a file whose logical path is `path`.
    pub open spec fn concerns(self, path: Seq<char>) -> bool {
        match self {
            BuilderOp::Begin(file) => logical_path(file) == path,
            BuilderOp::Process(file, _) => logical_path(file) == path,
            BuilderOp::Finish(file, _) => logical_path(file) == path,
            BuilderOp::Initial(sources) => exists|i: int|
                0 <= i < sources.len() && logical_path(#[trigger] sources[i].0) == path,
            BuilderOp::Sort => false,
        }
    }
}

/// The state after the changes `ops`, made in turn from state `m`.
pub open spec fn run(m: BuilderModel, ops: Seq<BuilderOp>) -> BuilderModel
    decreases ops.len(),
{
    if ops.len() == 0 {
        m
    } else {
        run(ops[0].apply(m), ops.drop_first())
    }
}

/// `path` has no artifact and no build in flight.
pub open spec fn untouched(m: BuilderModel, path: Seq<char>) -> bool {
    !m.artifacts.contains_key(path) && !m.tokens.contains(path)
}

proof fn lemma_build_all_elsewhere(
    m: BuilderModel,
    sources: Seq<(Seq<char>, Option<BuiltFileView>)>,
    path: Seq<char>,
)
    requires
        untouched(m, path),
        forall|i: int| 0 <= i < sources.len() ==> logical_path(#[trigger] sources[i].0) != path,
    ensures
        untouched(m.build_all(sources), path),
    decreases sources.len(),
{
    if sources.len() > 0 {
        let rest = sources.drop_first();
        assert forall|i: int| 0 <= i < rest.len() implies logical_path(#[trigger] rest[i].0)
            != path by {
            assert(rest[i] == sources[i + 1]);
        }
        lemma_build_all_elsewhere(m.build(sources[0].0, sources[0].1), rest, path);
    }
}

proof fn lemma_run_elsewhere(m: BuilderModel, ops: Seq<BuilderOp>, path: Seq<char>)
    requires
        untouched(m, path),
        forall|i: int| 0 <= i < ops.len() ==> !(#[trigger] ops[i]).concerns(path),
    ensures
        untouched(run(m, ops), path),
    decreases ops.len(),
{
    if ops.len() > 0 {
        let rest = ops.drop_first();
        match ops[0] {
            BuilderOp::Initial(sources) => {
                lemma_build_all_elsewhere(m, sources, path);
            },
            _ => {},
        }
        assert forall|i: int| 0 <= i < rest.len() implies !(#[trigger] rest[i]).concerns(
            path,
        ) by {
            assert(rest[i] == ops[i + 1]);
        }
        lemma_run_elsewhere(ops[0].apply(m), rest, path);
    }
}

/// A path that was never handed to a build is answered with a miss and the
/// listing as it stands, whatever was built besides.
pub proof fn lemma_unbuilt_path_misses(ops: Seq<BuilderOp>, path: Seq<char>)
    requires
        forall|i: int| 0 <= i < ops.len() ==> !(#[trigger] ops[i]).concerns(path),
    ensures
        run(BuilderModel::empty(), ops).lookup(path) == FileReplyView::Ready(
            None,
            run(BuilderModel::empty(), ops).listing,
        ),
{
    lemma_run_elsewhere(BuilderModel::empty(), ops, path);
}

/// While a build of a file is in flight a request for its path is held
/// back; once the build has ended with an artifact, the request is answered
/// with that artifact, never with an older one.
pub proof fn lemma_reader_sees_latest_build(
    m: BuilderModel,
    file: Seq<char>,
    artifact: BuiltFileView,
)
    ensures
        m.begin(file).lookup(logical_path(file)) == FileReplyView::Pending,
        m.begin(file).process(file, Some(artifact)).lookup(logical_path(file))
            == FileReplyView::Ready(
            Some(artifact),
            m.begin(file).process(file, Some(artifact)).listing,
        ),
        m.begin(file).finish(file, Some(artifact)).lookup(logical_path(file))
            == FileReplyView::Ready(
            Some(artifact),
            m.begin(file).finish(file, Some(artifact)).listing,
        ),
{
}

/// While a build of a file is in flight no second one begins: a further
/// build of the same file changes nothing, so nothing is rendered for it.
/// When the build has ended, the next one can begin.
pub proof fn lemma_single_flight(
    m: BuilderModel,
    file: Seq<char>,
    artifact: Option<BuiltFileView>,
)
    ensures
        !m.begin(file).can_begin(file),
        m.begin(file).build(file, artifact) == m.begin(file),
        m.begin(file).process(file, artifact).can_begin(file),
        m.begin(file).finish(file, artifact).can_begin(file),
{
}

/// A read that fails leaves every artifact and the listing as they were: a
/// path that had an artifact keeps it.
pub proof fn lemma_failed_read_keeps_store(m: BuilderModel, file: Seq<char>)
    ensures
        m.process(file, None).artifacts == m.artifacts,
        m.process(file, None).listing == m.listing,
        m.finish(file, None) == m.process(file, None),
        m.build(file, None).artifacts == m.artifacts,
        m.build(file, None).listing == m.listing,
{
}

/// A well-formed state stays well-formed under every change.
pub proof fn lemma_wf_preserved(
    m: BuilderModel,
    file: Seq<char>,
    artifact: Option<BuiltFileView>,
)
    requires
        m.wf(),
    ensures
        m.begin(file).wf(),
        m.process(file, artifact).wf(),
        m.sorted().wf(),
        m.finish(file, artifact).wf(),
        m.build(file, artifact).wf(),
{
    let path = logical_path(file);
    let done = m.process(file, artifact);
    if artifact is Some && !m.artifacts.contains_key(path) {
        lemma_push_fresh(m.listing, path);
        assert(done.listing == m.listing.push(path));
    }
    assert(done.wf());
    lemma_listing_order(m.listing);
    lemma_rearranged(m.listing, listing_order(m.listing));
    lemma_listing_order(done.listing);
    lemma_rearranged(done.listing, listing_order(done.listing));
}

proof fn lemma_build_all_keeps(
    m: BuilderModel,
    sources: Seq<(Seq<char>, Option<BuiltFileView>)>,
)
    requires
        m.wf(),
    ensures
        m.build_all(sources).wf(),
        forall|path: Seq<char>|
            m.listing.contains(path) ==> m.build_all(sources).listing.contains(path),
    decreases sources.len(),
{
    if sources.len() > 0 {
        let next = m.build(sources[0].0, sources[0].1);
        lemma_wf_preserved(m, sources[0].0, sources[0].1);
        lemma_build_all_keeps(next, sources.drop_first());
        assert forall|path: Seq<char>| m.listing.contains(path) implies m.build_all(
            sources,
        ).listing.contains(path) by {
            assert(next.listing.contains(path));
        }
    }
}

/// Every change leaves a well-formed state well-formed and keeps what is
/// listed: a path that is in the listing stays in it and keeps an artifact,
/// also when a later read of its source fails.
pub proof fn lemma_listed_stays_listed(m: BuilderModel, op: BuilderOp, path: Seq<char>)
    requires
        m.wf(),
    ensures
        op.apply(m).wf(),
        m.listing.contains(path) ==> op.apply(m).listing.contains(path) && op.apply(
            m,
        ).artifacts.contains_key(path),
{
    let after = op.apply(m);
    match op {
        BuilderOp::Begin(file) => {
            lemma_wf_preserved(m, file, None);
        },
        BuilderOp::Process(file, artifact) => {
            lemma_wf_preserved(m, file, artifact);
        },
        BuilderOp::Finish(file, artifact) => {
            lemma_wf_preserved(m, file, artifact);
        },
        BuilderOp::Initial(sources) => {
            lemma_build_all_keeps(m, sources);
            lemma_wf_preserved(m.build_all(sources), Seq::empty(), None);
            lemma_listing_order(m.build_all(sources).listing);
            lemma_rearranged(m.build_all(sources).listing, after.listing);
        },
        BuilderOp::Sort => {
            lemma_wf_preserved(m, Seq::empty(), None);
        },
    }
    if m.listing.contains(path) {
        assert(after.artifacts.contains_key(path));
    }
}

/// Whatever is built, the listing goes on naming each path once and naming
/// exactly the paths that have an artifact.
pub proof fn lemma_run_wf(m: BuilderModel, ops: Seq<BuilderOp>)
    requires
        m.wf(),
    ensures
        run(m, ops).wf(),
    decreases ops.len(),
{
    if ops.len() > 0 {
        lemma_listed_stays_listed(m, ops[0], Seq::empty());
        lemma_run_wf(ops[0].apply(m), ops.drop_first());
    }
}

} // verus!
