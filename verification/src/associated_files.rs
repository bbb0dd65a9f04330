//! Source and header files of a target, classified by extension.

use vstd::prelude::*;
use vstd::string::*;
use crate::patterns::{debug_quoted, quoted};
use crate::text::same_text;
use crate::utility::{extension_of, file_extension};

verus! {

/// What a file contributes to a target.
#[derive(Debug, PartialEq, Eq, Structural, Clone, Copy, Hash)]
pub enum FileType {
    Source,
    Header,
}

/// Why a path cannot be taken as a file of a target.
#[derive(Debug, PartialEq, Eq, Clone)]
pub enum AssociatedFileError {
    CouldNotSpecifyFileType(String),
    FileNotExisting(String),
    NoFileExtension(String),
}

/// An `AssociatedFileError` over character sequences.
pub ghost enum AssociatedFileErrorView {
    CouldNotSpecifyFileType(Seq<char>),
    FileNotExisting(Seq<char>),
    NoFileExtension(Seq<char>),
}

impl View for AssociatedFileError {
    type V = AssociatedFileErrorView;

    open spec fn view(&self) -> AssociatedFileErrorView {
        match self {
            AssociatedFileError::CouldNotSpecifyFileType(e) => AssociatedFileErrorView::CouldNotSpecifyFileType(e@),
            AssociatedFileError::FileNotExisting(p) => AssociatedFileErrorView::FileNotExisting(p@),
            AssociatedFileError::NoFileExtension(p) => AssociatedFileErrorView::NoFileExtension(p@),
        }
    }
}

/// A path together with the answer to whether a file stands there.
#[derive(Debug, PartialEq, Eq, Clone)]
pub struct ProbedPath {
    pub path: String,
    pub exists: bool,
}

/// A file of a target with its classification.
#[derive(Debug, PartialEq, Eq, Clone, Hash)]
pub struct SourceFile {
    file_type: FileType,
    file: String,
}

/// A `SourceFile` over character sequences.
pub ghost struct SourceFileView {
    pub file_type: FileType,
    pub file: Seq<char>,
}

/// The files of a target, in the order of their declaration.
#[derive(Debug, PartialEq, Eq, Clone)]
pub struct SourceFiles(Vec<SourceFile>);

/// The classification that an extension stands for, if any.
pub open spec fn file_type_of(extension: Seq<char>) -> Option<FileType> {
    if extension == "cpp"@ || extension == "cc"@ || extension == "c"@ {
        Some(FileType::Source)
    } else if extension == "h"@ || extension == "hpp"@ {
        Some(FileType::Header)
    } else {
        None
    }
}

/// What becomes of a path: a missing file is refused first, then a path without
/// extension, then an extension that names neither a source nor a header.
pub open spec fn source_file_of(path: Seq<char>, exists: bool) -> Result<SourceFileView, AssociatedFileErrorView> {
    if !exists {
        Err(AssociatedFileErrorView::FileNotExisting(path))
    } else {
        match extension_of(path) {
            None => Err(AssociatedFileErrorView::NoFileExtension(path)),
            Some(e) => match file_type_of(e) {
                Some(t) => Ok(SourceFileView { file_type: t, file: path }),
                None => Err(AssociatedFileErrorView::CouldNotSpecifyFileType(e)),
            },
        }
    }
}

/// A result of classification over character sequences.
pub open spec fn source_file_result_view(r: Result<SourceFile, AssociatedFileError>) -> Result<SourceFileView, AssociatedFileErrorView> {
    match r {
        Ok(f) => Ok(f@),
        Err(e) => Err(e@),
    }
}

/// The classification of `extension`.
pub fn classify_extension(extension: &str) -> (r: Option<FileType>)
    ensures
        r == file_type_of(extension@),
{
    if same_text(extension, "cpp") || same_text(extension, "cc") || same_text(extension, "c") {
        Some(FileType::Source)
    } else if same_text(extension, "h") || same_text(extension, "hpp") {
        Some(FileType::Header)
    } else {
        None
    }
}

impl View for SourceFile {
    type V = SourceFileView;

    closed spec fn view(&self) -> SourceFileView {
        SourceFileView { file_type: self.file_type, file: self.file@ }
    }
}

impl SourceFile {
    /// Classifies `file`, given whether it exists.
    pub fn new(file: &str, exists: bool) -> (r: Result<SourceFile, AssociatedFileError>)
        ensures
            source_file_result_view(r) == source_file_of(file@, exists),
    {
        if !exists {
            return Err(AssociatedFileError::FileNotExisting(String::from_str(file)));
        }
        match file_extension(file) {
            None => Err(AssociatedFileError::NoFileExtension(String::from_str(file))),
            Some(e) => match classify_extension(e.as_str()) {
                Some(t) => Ok(SourceFile { file_type: t, file: String::from_str(file) }),
                None => Err(AssociatedFileError::CouldNotSpecifyFileType(e)),
            },
        }
    }

    /// The path of the file.
    pub fn file(&self) -> (r: String)
        ensures
            r@ == self@.file,
    {
        self.file.clone()
    }

    pub fn is_source(&self) -> (r: bool)
        ensures
            r == (self@.file_type == FileType::Source),
    {
        self.file_type == FileType::Source
    }

    pub fn is_header(&self) -> (r: bool)
        ensures
            r == (self@.file_type == FileType::Header),
    {
        self.file_type == FileType::Header
    }
}

impl View for SourceFiles {
    type V = Seq<SourceFileView>;

    closed spec fn view(&self) -> Seq<SourceFileView> {
        self.0@.map_values(|f: SourceFile| f@)
    }
}

impl SourceFiles {
    pub fn new() -> (r: SourceFiles)
        ensures
            r@ == Seq::<SourceFileView>::empty(),
    {
        let r = SourceFiles(Vec::new());
        assert(r@ =~= Seq::<SourceFileView>::empty());
        r
    }

    /// Classifies every path in turn. The first path that is refused decides the error.
    pub fn from_paths(sources: &Vec<ProbedPath>) -> (r: Result<SourceFiles, AssociatedFileError>)
        ensures
            match r {
                Ok(files) => {
                    &&& files@.len() == sources.len()
                    &&& forall|i: int| 0 <= i < sources.len() ==>
                        source_file_of(#[trigger] sources[i].path@, sources[i].exists) == Ok::<SourceFileView, AssociatedFileErrorView>(files@[i])
                },
                Err(e) => exists|k: int| {
                    &&& 0 <= k < sources.len()
                    &&& source_file_of(#[trigger] sources[k].path@, sources[k].exists) == Err::<SourceFileView, AssociatedFileErrorView>(e@)
                    &&& forall|i: int| 0 <= i < k ==> (#[trigger] source_file_of(sources[i].path@, sources[i].exists)) is Ok
                },
            },
    {
        let mut files: Vec<SourceFile> = Vec::new();
        let mut i: usize = 0;
        while i < sources.len()
            invariant
                i <= sources.len(),
                files.len() == i,
                forall|j: int| 0 <= j < i ==>
                    source_file_of(#[trigger] sources[j].path@, sources[j].exists) == Ok::<SourceFileView, AssociatedFileErrorView>(files@[j]@),
            decreases sources.len() - i,
        {
            match SourceFile::new(sources[i].path.as_str(), sources[i].exists) {
                Ok(f) => files.push(f),
                Err(e) => {
                    return Err(e);
                },
            }
            i += 1;
        }
        let r = SourceFiles(files);
        assert(r@.len() == sources.len());
        Ok(r)
    }

    pub fn push(&mut self, file: SourceFile)
        ensures
            final(self)@ == old(self)@.push(file@),
    {
        self.0.push(file);
        assert(self@ =~= old(self)@.push(file@));
    }

    /// The files, in order.
    pub fn iter(&self) -> (r: &Vec<SourceFile>)
        ensures
            r@.map_values(|f: SourceFile| f@) == self@,
    {
        &self.0
    }

    pub fn len(&self) -> (r: usize)
        ensures
            r == self@.len(),
    {
        self.0.len()
    }
}

/// What an error says to the user.
pub open spec fn associated_file_error_message(e: AssociatedFileErrorView) -> Seq<char> {
    match e {
        AssociatedFileErrorView::CouldNotSpecifyFileType(extension) => "Could not specify file type: "@ + extension,
        AssociatedFileErrorView::FileNotExisting(path) => "Source file "@ + quoted(path) + " does not exist"@,
        AssociatedFileErrorView::NoFileExtension(path) => "Source file "@ + path + " has no extension"@,
    }
}

impl AssociatedFileError {
    /// What the error says to the user.
    pub fn to_string(&self) -> (r: String)
        ensures
            r@ == associated_file_error_message(self@),
    {
        match self {
            AssociatedFileError::CouldNotSpecifyFileType(extension) => String::from_str(
                "Could not specify file type: ",
            ).concat(extension.as_str()),
            AssociatedFileError::FileNotExisting(path) => String::from_str("Source file ").concat(
                debug_quoted(path.as_str()).as_str(),
            ).concat(" does not exist"),
            AssociatedFileError::NoFileExtension(path) => String::from_str("Source file ").concat(
                path.as_str(),
            ).concat(" has no extension"),
        }
    }
}

} // verus!
