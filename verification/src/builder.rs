//! The build coordinator: renders sources into artifacts, keeps them in the
//! store, and makes sure that no path is rendered twice at a time.

pub mod model;

pub use model::{announcement_of, step_for, BuilderModel, BuilderStepView, FileReplyView};

use crate::markdown::commonmark::rendered;
use crate::markdown::{CommonMarkParser, MarkdownParser};
use crate::msg::{MsgBuilder, MsgInternalBuilder, MsgSrv, MsgSrvView};
use crate::store::ArtifactStore;
use crate::path::{determine_real_path, logical_path, real_path, webpath};
use crate::text::{count_words, texts, word_count};
use crate::textmap::TextMap;
use vstd::prelude::*;
use vstd::string::StringExecFns;

verus! {

/// A rendered document.
#[derive(Debug, PartialEq, Eq)]
pub struct BuiltFile {
    /// The document as HTML.
    pub contents: String,
    /// Number of words of the source.
    pub word_count: usize,
}

/// What a `BuiltFile` holds, as plain mathematics.
pub ghost struct BuiltFileView {
    pub contents: Seq<char>,
    pub word_count: nat,
}

impl View for BuiltFile {
    type V = BuiltFileView;

    open spec fn view(&self) -> BuiltFileView {
        BuiltFileView { contents: self.contents@, word_count: self.word_count as nat }
    }
}

/// The artifact that a source text is rendered to.
pub open spec fn built(markdown: Seq<char>) -> BuiltFileView {
    BuiltFileView { contents: rendered(markdown), word_count: word_count(markdown) }
}

impl Clone for BuiltFile {
    fn clone(&self) -> (copy: Self)
        ensures
            copy@ == self@,
    {
        BuiltFile { contents: self.contents.clone(), word_count: self.word_count }
    }
}

impl BuiltFile {
    /// The artifact of a source `markdown` that was rendered to `contents`.
    pub fn from_rendering(contents: String, markdown: &str) -> (file: Self)
        ensures
            file@ == (BuiltFileView { contents: contents@, word_count: word_count(markdown@) }),
    {
        BuiltFile { contents, word_count: count_words(markdown) }
    }

    /// Renders `markdown` as CommonMark and counts its words.
    pub fn render(markdown: &str) -> (file: Self)
        ensures
            file@ == built(markdown@),
    {
        let mut parser = CommonMarkParser::default();
        let contents = parser.parse_to_html(markdown);
        BuiltFile::from_rendering(contents, markdown)
    }
}

/// What a build ends with: the artifact that the source was rendered to,
/// or nothing where the read of the source failed.
pub open spec fn built_from(source: Option<&str>) -> Option<BuiltFileView> {
    match source {
        Some(text) => Some(built(text@)),
        None => None,
    }
}

/// What an artifact that may be missing holds.
pub open spec fn artifact_view(artifact: Option<BuiltFile>) -> Option<BuiltFileView> {
    match artifact {
        Some(file) => Some(file@),
        None => None,
    }
}

/// The marker of a build in flight. It is handed out when the build begins
/// and handed back when it ends; it cannot be copied.
pub struct BuildToken {
    file: String,
}

impl View for BuildToken {
    type V = Seq<char>;

    /// The file that is being built, relative to the root.
    closed spec fn view(&self) -> Seq<char> {
        self.file@
    }
}

impl BuildToken {
    /// The file that is being built, relative to the root.
    pub fn file(&self) -> (file: &str)
        ensures
            file@ == self@,
    {
        self.file.as_str()
    }
}

/// What is answered when a path is asked for.
#[derive(Debug, PartialEq, Eq)]
pub enum FileReply {
    /// A build of the path is in flight: the answer has to wait for it.
    Pending,
    /// The artifact, if the path has one, and the listing.
    Ready(Option<BuiltFile>, Vec<String>),
}

impl View for FileReply {
    type V = FileReplyView;

    open spec fn view(&self) -> FileReplyView {
        match self {
            FileReply::Pending => FileReplyView::Pending,
            FileReply::Ready(Some(file), files) => FileReplyView::Ready(
                Some(file@),
                texts(files@),
            ),
            FileReply::Ready(None, files) => FileReplyView::Ready(None, texts(files@)),
        }
    }
}

/// What the builder does next for a message of a watcher.
pub enum BuilderStep {
    /// Nothing.
    Idle,
    /// A build of the file is in flight: the message has to wait for it.
    Busy,
    /// The build of the file has begun: its source is to be read, and the
    /// build ended with what the read gave.
    Read(BuildToken),
    /// The watcher has ended: the builder ends too.
    Stop,
}

impl View for BuilderStep {
    type V = BuilderStepView;

    open spec fn view(&self) -> BuilderStepView {
        match self {
            BuilderStep::Idle => BuilderStepView::Idle,
            BuilderStep::Busy => BuilderStepView::Busy,
            BuilderStep::Read(token) => BuilderStepView::Read(token@),
            BuilderStep::Stop => BuilderStepView::Stop,
        }
    }
}

/// What the query service answers.
#[derive(Debug, PartialEq, Eq)]
pub enum QueryReply {
    /// The answer to a request for a file.
    File(FileReply),
    /// The answer to a request for the listing.
    AllFiles(Vec<String>),
    /// Nothing is answered: the service ends.
    Exit,
}

/// What was found at the path that is to be served.
#[derive(Clone, Copy, Debug, PartialEq, Eq, Structural)]
pub enum RootKind {
    /// Nothing is there.
    Missing,
    /// Something that is no directory.
    NotDirectory,
    /// A directory.
    Directory,
}

/// The build coordinator: the store and the tokens of the builds in flight.
pub struct Builder {
    store: ArtifactStore,
    processing: TextMap<()>,
}

impl View for Builder {
    type V = BuilderModel;

    closed spec fn view(&self) -> BuilderModel {
        BuilderModel {
            artifacts: self.store.artifacts(),
            listing: self.store.listing(),
            tokens: self.processing.model().dom(),
        }
    }
}

impl Builder {
    /// The store and the token registry are consistent.
    pub closed spec fn wf(&self) -> bool {
        self.store.wf() && self.processing.wf()
    }

    /// A well-formed coordinator has a well-formed state.
    pub proof fn lemma_wf(&self)
        requires
            self.wf(),
        ensures
            self@.wf(),
    {
    }

    /// A coordinator that has built nothing.
    pub fn new() -> (builder: Self)
        ensures
            builder.wf(),
            builder@ == BuilderModel::empty(),
    {
        Builder { store: ArtifactStore::new(), processing: TextMap::new() }
    }

    /// Whether a build of `path` is in flight, so that a reader of `path`
    /// has to wait.
    pub fn await_build(&self, path: &str) -> (waiting: bool)
        ensures
            waiting == self@.tokens.contains(path@),
    {
        self.processing.contains_key(path)
    }

    /// Begins a build of `file`: registers its token and hands it out. Where
    /// a build of `file` is in flight already, nothing changes and no token
    /// is handed out.
    pub fn begin_build(&mut self, file: &str) -> (token: Option<BuildToken>)
        requires
            old(self).wf(),
        ensures
            final(self).wf(),
            match token {
                Some(token) => old(self)@.can_begin(file@) && token@ == file@ && final(self)@
                    == old(self)@.begin(file@),
                None => !old(self)@.can_begin(file@) && final(self)@ == old(self)@,
            },
    {
        let path = webpath(file);
        if self.processing.contains_key(path.as_str()) {
            None
        } else {
            self.processing.insert(path, ());
            Some(BuildToken { file: String::from_str(file) })
        }
    }

    /// Ends the build that `token` stands for with `artifact`, which is
    /// stored; where there is none, because the source could not be read,
    /// the store stays as it is. The token is released either way.
    ///
    /// ## Result
    ///
    /// Returns ``true`` on success, otherwise ``false``.
    pub fn process_built(&mut self, token: BuildToken, artifact: Option<BuiltFile>) -> (success:
        bool)
        requires
            old(self).wf(),
        ensures
            final(self).wf(),
            success == artifact.is_some(),
            final(self)@ == old(self)@.process(token@, artifact_view(artifact)),
    {
        let path = webpath(token.file());
        let success = match artifact {
            Some(file) => {
                self.store.put(path.clone(), file);
                true
            },
            None => false,
        };
        self.processing.remove(path.as_str());
        success
    }

    /// Ends the build that `token` stands for with what the read of the
    /// source gave: a source that was read is rendered as CommonMark and
    /// stored; where the read failed the store stays as it is. The token is
    /// released either way.
    ///
    /// ## Result
    ///
    /// Returns ``true`` on success, otherwise ``false``.
    pub fn process_file(&mut self, token: BuildToken, source: Option<&str>) -> (success: bool)
        requires
            old(self).wf(),
        ensures
            final(self).wf(),
            success == source.is_some(),
            final(self)@ == old(self)@.process(token@, built_from(source)),
    {
        let artifact = match source {
            Some(text) => Some(BuiltFile::render(text)),
            None => None,
        };
        self.process_built(token, artifact)
    }

    /// Ends the build that `token` stands for, as `process_built` does, and
    /// says what is to be announced: nothing where there is no artifact,
    /// the new listing, brought into listing order, where the path is new,
    /// and the new artifact where the path was known.
    pub fn finish_built(&mut self, token: BuildToken, artifact: Option<BuiltFile>) -> (announce:
        Option<MsgSrv>)
        requires
            old(self).wf(),
        ensures
            final(self).wf(),
            final(self)@ == old(self)@.finish(token@, artifact_view(artifact)),
            msg_view(announce) == announcement_of(
                old(self)@,
                final(self)@,
                token@,
                artifact_view(artifact),
            ),
    {
        let path = webpath(token.file());
        let known = self.store.contains(path.as_str());
        if !self.process_built(token, artifact) {
            return None;
        }
        if known {
            match self.store.get(path.as_str()) {
                Some(file) => Some(MsgSrv::File(path, file.clone())),
                None => None,
            }
        } else {
            self.store.sort();
            Some(MsgSrv::NewFile(path, self.store.files()))
        }
    }

    /// Ends the build that `token` stands for, as `process_file` does, and
    /// says what is to be announced, as `finish_built` does.
    pub fn finish_build(&mut self, token: BuildToken, source: Option<&str>) -> (announce: Option<
        MsgSrv,
    >)
        requires
            old(self).wf(),
        ensures
            final(self).wf(),
            final(self)@ == old(self)@.finish(token@, built_from(source)),
            msg_view(announce) == announcement_of(
                old(self)@,
                final(self)@,
                token@,
                built_from(source),
            ),
    {
        let artifact = match source {
            Some(text) => Some(BuiltFile::render(text)),
            None => None,
        };
        self.finish_built(token, artifact)
    }

    /// Brings the listing into listing order.
    pub fn sort_listing(&mut self)
        requires
            old(self).wf(),
        ensures
            final(self).wf(),
            final(self)@ == old(self)@.sorted(),
    {
        self.store.sort();
    }

    /// Builds each of `sources`, a file and what the read of it gave, in
    /// turn, then brings the listing into listing order. A file whose build
    /// is in flight is left to that build.
    pub fn initial_build(&mut self, sources: &Vec<(String, Option<String>)>)
        requires
            old(self).wf(),
        ensures
            final(self).wf(),
            final(self)@ == old(self)@.build_all(sources_view(sources@)).sorted(),
    {
        let mut i: usize = 0;
        assert(sources_view(sources@).skip(0) == sources_view(sources@));
        while i < sources.len()
            invariant
                i <= sources@.len(),
                self.wf(),
                old(self)@.build_all(sources_view(sources@)) == self@.build_all(
                    sources_view(sources@).skip(i as int),
                ),
            decreases sources@.len() - i,
        {
            let ghost rest = sources_view(sources@).skip(i as int);
            let ghost before = self@;
            let file = sources[i].0.as_str();
            let source: Option<&str> = match &sources[i].1 {
                Some(text) => Some(text.as_str()),
                None => None,
            };
            proof {
                assert(rest.drop_first() == sources_view(sources@).skip(i + 1));
            }
            match self.begin_build(file) {
                Some(token) => {
                    self.process_file(token, source);
                },
                None => {},
            }
            i = i + 1;
        }
        self.store.sort();
    }

    /// Answers a request for `path`: pending while a build of it is in
    /// flight, else the artifact, if there is one, with the listing.
    pub fn get_file(&self, path: &str) -> (reply: FileReply)
        requires
            self.wf(),
        ensures
            reply@ == self@.lookup(path@),
    {
        if self.await_build(path) {
            FileReply::Pending
        } else {
            match self.store.get(path) {
                Some(file) => FileReply::Ready(Some(file.clone()), self.store.files()),
                None => FileReply::Ready(None, self.store.files()),
            }
        }
    }

    /// The listing as it stands.
    pub fn get_listing(&self) -> (files: Vec<String>)
        ensures
            texts(files@) == self@.listing,
    {
        self.store.files()
    }

    /// Decides what is done for a message of a watcher. A created file that
    /// is not listed yet and a modified file are built: the build begins
    /// here, unless one of the same file is in flight. Deletions change
    /// nothing, and the watcher's end ends the builder.
    pub fn file_builder(&mut self, msg: &MsgInternalBuilder) -> (step: BuilderStep)
        requires
            old(self).wf(),
        ensures
            final(self).wf(),
            step@ == step_for(old(self)@, msg@),
            final(self)@ == match step@ {
                BuilderStepView::Read(file) => old(self)@.begin(file),
                _ => old(self)@,
            },
    {
        match msg {
            MsgInternalBuilder::FileCreated(file) => {
                let path = webpath(file.as_str());
                if self.store.contains(path.as_str()) {
                    BuilderStep::Idle
                } else {
                    match self.begin_build(file.as_str()) {
                        Some(token) => BuilderStep::Read(token),
                        None => BuilderStep::Busy,
                    }
                }
            },
            MsgInternalBuilder::FileModified(file) => {
                match self.begin_build(file.as_str()) {
                    Some(token) => BuilderStep::Read(token),
                    None => BuilderStep::Busy,
                }
            },
            MsgInternalBuilder::FileDeleted(_file) => BuilderStep::Idle,
            MsgInternalBuilder::Ignore() => BuilderStep::Idle,
            MsgInternalBuilder::Exit() => BuilderStep::Stop,
        }
    }

    /// Answers a request for the file that the request path `request`
    /// names. A malformed request is answered with a miss and the listing,
    /// whatever the store holds and whatever is being built.
    pub fn lookup_request(&self, request: &str) -> (reply: FileReply)
        requires
            self.wf(),
        ensures
            reply@ == self@.answer(real_path(request@)),
    {
        match determine_real_path(request) {
            Some(path) => self.get_file(path.as_str()),
            None => FileReply::Ready(None, self.get_listing()),
        }
    }

    /// Answers a request of a server from the store as it stands. A file is
    /// asked for by its request path. A request for a file whose build is in
    /// flight is answered as pending.
    pub fn server_queries(&self, msg: &MsgBuilder) -> (reply: QueryReply)
        requires
            self.wf(),
        ensures
            match msg {
                MsgBuilder::File(request) => reply matches QueryReply::File(answer) && answer@
                    == self@.answer(real_path(request@)),
                MsgBuilder::AllFiles() => reply matches QueryReply::AllFiles(files) && texts(
                    files@,
                ) == self@.listing,
                MsgBuilder::Exit() => reply is Exit,
            },
    {
        match msg {
            MsgBuilder::File(request) => QueryReply::File(self.lookup_request(request.as_str())),
            MsgBuilder::AllFiles() => QueryReply::AllFiles(self.get_listing()),
            MsgBuilder::Exit() => QueryReply::Exit,
        }
    }
}

/// Sets the pipeline up for a root of kind `root`: a coordinator that has
/// built nothing where the root is a directory, else the message that ends
/// the servers.
pub fn builder_with_fs_change(root: RootKind) -> (r: Result<Builder, MsgSrv>)
    ensures
        match r {
            Ok(builder) => root is Directory && builder.wf() && builder@ == BuilderModel::empty(),
            Err(msg) => !(root is Directory) && msg@ is Exit,
        },
{
    match root {
        RootKind::Directory => Ok(Builder::new()),
        _ => Err(MsgSrv::Exit()),
    }
}

/// The files with the artifacts that their sources are rendered to, where
/// they were read.
pub open spec fn sources_view(sources: Seq<(String, Option<String>)>) -> Seq<
    (Seq<char>, Option<BuiltFileView>),
> {
    sources.map_values(
        |entry: (String, Option<String>)|
            (
                entry.0@,
                match entry.1 {
                    Some(text) => Some(built(text@)),
                    None => None,
                },
            ),
    )
}

/// What a message that may be missing holds.
pub open spec fn msg_view(msg: Option<MsgSrv>) -> Option<MsgSrvView> {
    match msg {
        Some(msg) => Some(msg@),
        None => None,
    }
}

} // verus!
