//! The messages that pass between the watcher, the builder, the query
//! service and the servers.

use crate::builder::{BuiltFile, BuiltFileView};
use crate::text::{copy_files, texts};
use vstd::prelude::*;

verus! {

/// What the builder announces to the servers.
#[derive(PartialEq, Eq, Debug)]
pub enum MsgSrv {
    /// Announces a file change
    File(  /* path: */ String,  /* content: */ BuiltFile),
    /// Announces a new file (without contents because they're definitly not required)
    NewFile(  /* path: */ String,  /* all_files: */ Vec<String>),
    Exit(),
}

/// What a `MsgSrv` holds, as plain mathematics.
pub ghost enum MsgSrvView {
    File(Seq<char>, BuiltFileView),
    NewFile(Seq<char>, Seq<Seq<char>>),
    Exit,
}

impl View for MsgSrv {
    type V = MsgSrvView;

    open spec fn view(&self) -> MsgSrvView {
        match self {
            MsgSrv::File(path, content) => MsgSrvView::File(path@, content@),
            MsgSrv::NewFile(path, all_files) => MsgSrvView::NewFile(path@, texts(all_files@)),
            MsgSrv::Exit() => MsgSrvView::Exit,
        }
    }
}

impl MsgSrv {
    /// Whether this is the terminal message, after which nothing is
    /// passed on any more.
    pub fn is_exit(&self) -> (r: bool)
        ensures
            r == (self@ is Exit),
    {
        match self {
            MsgSrv::Exit() => true,
            _ => false,
        }
    }
}

impl Clone for MsgSrv {
    fn clone(&self) -> (copy: Self)
        ensures
            copy@ == self@,
    {
        match self {
            MsgSrv::File(path, content) => MsgSrv::File(path.clone(), content.clone()),
            MsgSrv::NewFile(path, all_files) => MsgSrv::NewFile(path.clone(), copy_files(all_files)),
            MsgSrv::Exit() => MsgSrv::Exit(),
        }
    }
}

/// What the servers ask of the builder.
#[derive(PartialEq, Eq, Debug)]
pub enum MsgBuilder {
    /// Requests a file from the builder by the path of the request, which
    /// is decoded there
    File(  /* path: */ String),
    /// Requests the listing
    AllFiles(),
    Exit(),
}

/// What a watcher tells the builder.
#[derive(PartialEq, Eq, Debug)]
pub enum MsgInternalBuilder {
    /// Announces that a file was created
    FileCreated(  /* path: */ String),
    /// Announces that a file was modified or created
    FileModified(  /* path: */ String),
    /// Announces that a file was deleted
    FileDeleted(  /* path: */ String),
    Ignore(),
    Exit(),
}

/// What a `MsgInternalBuilder` holds, as plain mathematics.
pub ghost enum MsgInternalBuilderView {
    FileCreated(Seq<char>),
    FileModified(Seq<char>),
    FileDeleted(Seq<char>),
    Ignore,
    Exit,
}

impl View for MsgInternalBuilder {
    type V = MsgInternalBuilderView;

    open spec fn view(&self) -> MsgInternalBuilderView {
        match self {
            MsgInternalBuilder::FileCreated(path) => MsgInternalBuilderView::FileCreated(path@),
            MsgInternalBuilder::FileModified(path) => MsgInternalBuilderView::FileModified(path@),
            MsgInternalBuilder::FileDeleted(path) => MsgInternalBuilderView::FileDeleted(path@),
            MsgInternalBuilder::Ignore() => MsgInternalBuilderView::Ignore,
            MsgInternalBuilder::Exit() => MsgInternalBuilderView::Exit,
        }
    }
}

impl Clone for MsgInternalBuilder {
    fn clone(&self) -> (copy: Self)
        ensures
            copy@ == self@,
    {
        match self {
            MsgInternalBuilder::FileCreated(path) => MsgInternalBuilder::FileCreated(path.clone()),
            MsgInternalBuilder::FileModified(path) => MsgInternalBuilder::FileModified(
                path.clone(),
            ),
            MsgInternalBuilder::FileDeleted(path) => MsgInternalBuilder::FileDeleted(path.clone()),
            MsgInternalBuilder::Ignore() => MsgInternalBuilder::Ignore(),
            MsgInternalBuilder::Exit() => MsgInternalBuilder::Exit(),
        }
    }
}

} // verus!
