//! What a search sees of a directory tree, as plain values.

use vstd::prelude::*;

verus! {

/// A regular file, as its directory entry describes it.
#[derive(Debug)]
pub struct FileEntry {
    /// The base name, as the file system encodes it.
    pub name: Vec<u8>,
    /// The extension of the path, without the dot, if it has one.
    pub extension: Option<Vec<u8>>,
    /// The length in bytes, or `None` where the metadata could not be read.
    pub size: Option<u64>,
    /// The path as text, or `None` where it is not text.
    pub path: Option<String>,
}

/// A subdirectory, as its directory entry describes it.
#[derive(Debug)]
pub struct Directory {
    /// The path as text, or `None` where it is not text.
    pub path: Option<String>,
    /// What a look at the path gave, or `None` where nobody has looked yet.
    pub content: Option<Probe>,
}

/// One entry of a directory.
#[derive(Debug)]
pub enum Node {
    /// An entry that could not be read.
    Unreadable,
    /// An entry that is neither a directory nor a regular file.
    Other,
    /// A regular file.
    File(FileEntry),
    /// A directory.
    Directory(Directory),
}

/// What a look at a path gave.
#[derive(Debug)]
pub enum Probe {
    /// Nothing exists at the path.
    Missing,
    /// Something exists at the path, and it is no directory.
    NotADirectory,
    /// A directory whose entries could not be listed.
    Unreadable,
    /// A directory and its entries, in the order in which they were listed.
    Listing(Vec<Node>),
}

/// A regular file as mathematical values.
pub struct FileEntryView {
    pub name: Seq<u8>,
    pub extension: Option<Seq<u8>>,
    pub size: Option<nat>,
    pub path: Option<Seq<char>>,
}

/// A subdirectory as mathematical values.
pub struct DirectoryView {
    pub path: Option<Seq<char>>,
    pub content: Option<ProbeView>,
}

/// One entry of a directory as mathematical values.
pub enum NodeView {
    Unreadable,
    Other,
    File(FileEntryView),
    Directory(DirectoryView),
}

/// What a look at a path gave, as mathematical values.
pub enum ProbeView {
    Missing,
    NotADirectory,
    Unreadable,
    Listing(Seq<NodeView>),
}

impl View for FileEntry {
    type V = FileEntryView;

    open spec fn view(&self) -> FileEntryView {
        FileEntryView {
            name: self.name@,
            extension: match self.extension {
                Some(extension) => Some(extension@),
                None => None,
            },
            size: match self.size {
                Some(size) => Some(size as nat),
                None => None,
            },
            path: match self.path {
                Some(path) => Some(path@),
                None => None,
            },
        }
    }
}

impl View for Directory {
    type V = DirectoryView;

    open spec fn view(&self) -> DirectoryView
        decreases self,
    {
        DirectoryView {
            path: match self.path {
                Some(path) => Some(path@),
                None => None,
            },
            content: match self.content {
                Some(probe) => Some(probe@),
                None => None,
            },
        }
    }
}

impl View for Node {
    type V = NodeView;

    open spec fn view(&self) -> NodeView
        decreases self,
    {
        match self {
            Node::Unreadable => NodeView::Unreadable,
            Node::Other => NodeView::Other,
            Node::File(file) => NodeView::File(file@),
            Node::Directory(directory) => NodeView::Directory(directory@),
        }
    }
}

impl View for Probe {
    type V = ProbeView;

    open spec fn view(&self) -> ProbeView
        decreases self,
    {
        match self {
            Probe::Missing => ProbeView::Missing,
            Probe::NotADirectory => ProbeView::NotADirectory,
            Probe::Unreadable => ProbeView::Unreadable,
            Probe::Listing(nodes) => ProbeView::Listing(node_views(nodes@)),
        }
    }
}

/// The views of the nodes of a listing, in the same order.
pub open spec fn node_views(nodes: Seq<Node>) -> Seq<NodeView>
    decreases nodes,
{
    Seq::new(
        nodes.len(),
        |i: int|
            if 0 <= i < nodes.len() {
                nodes[i]@
            } else {
                arbitrary()
            },
    )
}

} // verus!
