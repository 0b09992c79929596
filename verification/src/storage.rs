//! Storage: where on disk the dataset is exported to.
use vstd::prelude::*;

use crate::text::{chars_of, has_char, remove_all, string_of, without};

verus! {

/// Where a dataset is exported to.
pub struct ExportTarget {
    /// The directory to create, with those above it, before the file is written.
    pub directory: String,
    /// The file to write.
    pub file: String,
}

/// An export of the dataset.
pub struct Export<'a> {
    /// Where it is written.
    pub target: ExportTarget,
    /// What is written.
    pub data: &'a Vec<u8>,
}

/// A step of an export.
#[derive(Debug, Clone, Copy, PartialEq, Eq, Structural)]
pub enum ExportStep {
    /// Create the directory, with those above it.
    CreateDirectory,
    /// Create the file, or empty it where it exists.
    CreateFile,
    /// Write the data to the file.
    WriteData,
}

/// Where an export stands after a step.
pub enum ExportProgress<E> {
    /// Another step is to be taken.
    Next(ExportStep),
    /// The export is over, with this result.
    Done(Result<(), E>),
}

/// What a step is to be done on.
pub enum ExportAction<'a> {
    CreateDirectory(&'a String),
    CreateFile(&'a String),
    WriteData(&'a Vec<u8>),
}

/// Where an export stands after a step with this outcome: the first error ends it.
pub open spec fn progress<E>(step: ExportStep, outcome: Result<(), E>) -> ExportProgress<E> {
    match outcome {
        Err(e) => ExportProgress::Done(Err(e)),
        Ok(_) => match step {
            ExportStep::CreateDirectory => ExportProgress::Next(ExportStep::CreateFile),
            ExportStep::CreateFile => ExportProgress::Next(ExportStep::WriteData),
            ExportStep::WriteData => ExportProgress::Done(Ok(())),
        },
    }
}

impl ExportStep {
    /// The step that an export begins with.
    pub fn first() -> (r: ExportStep)
        ensures
            r == ExportStep::CreateDirectory,
    {
        ExportStep::CreateDirectory
    }

    /// Where an export stands after this step.
    pub fn after<E>(self, outcome: Result<(), E>) -> (r: ExportProgress<E>)
        ensures
            r == progress(self, outcome),
    {
        match outcome {
            Err(e) => ExportProgress::Done(Err(e)),
            Ok(()) => match self {
                ExportStep::CreateDirectory => ExportProgress::Next(ExportStep::CreateFile),
                ExportStep::CreateFile => ExportProgress::Next(ExportStep::WriteData),
                ExportStep::WriteData => ExportProgress::Done(Ok(())),
            },
        }
    }
}

impl<'a> Export<'a> {
    /// What a step of this export does.
    pub fn action(&self, step: ExportStep) -> (r: ExportAction<'_>)
        ensures
            r == match step {
                ExportStep::CreateDirectory => ExportAction::CreateDirectory(
                    &self.target.directory,
                ),
                ExportStep::CreateFile => ExportAction::CreateFile(&self.target.file),
                ExportStep::WriteData => ExportAction::WriteData(self.data),
            },
    {
        match step {
            ExportStep::CreateDirectory => ExportAction::CreateDirectory(&self.target.directory),
            ExportStep::CreateFile => ExportAction::CreateFile(&self.target.file),
            ExportStep::WriteData => ExportAction::WriteData(self.data),
        }
    }
}

/// The outcomes that the steps of an export have, where they are taken.
pub ghost struct ExportOutcomes<E> {
    pub directory: Result<(), E>,
    pub file: Result<(), E>,
    pub data: Result<(), E>,
}

impl<E> ExportOutcomes<E> {
    /// The outcome of a step.
    pub open spec fn of(self, step: ExportStep) -> Result<(), E> {
        match step {
            ExportStep::CreateDirectory => self.directory,
            ExportStep::CreateFile => self.file,
            ExportStep::WriteData => self.data,
        }
    }
}

/// How many steps an export has left from a step on.
pub open spec fn steps_left(step: ExportStep) -> nat {
    match step {
        ExportStep::CreateDirectory => 3,
        ExportStep::CreateFile => 2,
        ExportStep::WriteData => 1,
    }
}

/// The steps that an export takes from a step on, and its result.
pub open spec fn export_run<E>(step: ExportStep, outcomes: ExportOutcomes<E>) -> (
    Seq<ExportStep>,
    Result<(), E>,
)
    decreases steps_left(step),
{
    match progress(step, outcomes.of(step)) {
        ExportProgress::Next(next) => {
            let run = export_run(next, outcomes);
            (seq![step] + run.0, run.1)
        },
        ExportProgress::Done(result) => (seq![step], result),
    }
}

/// The files on disk, by path, after a step of an export has succeeded.
pub open spec fn files_after_step(
    files: Map<Seq<char>, Seq<u8>>,
    file: Seq<char>,
    data: Seq<u8>,
    step: ExportStep,
) -> Map<Seq<char>, Seq<u8>> {
    match step {
        ExportStep::CreateDirectory => files,
        ExportStep::CreateFile => files.insert(file, Seq::empty()),
        ExportStep::WriteData => files.insert(file, files[file] + data),
    }
}

/// The files on disk after these steps have succeeded.
pub open spec fn files_after(
    files: Map<Seq<char>, Seq<u8>>,
    file: Seq<char>,
    data: Seq<u8>,
    steps: Seq<ExportStep>,
) -> Map<Seq<char>, Seq<u8>>
    decreases steps.len(),
{
    if steps.len() == 0 {
        files
    } else {
        files_after_step(
            files_after(files, file, data, steps.drop_last()),
            file,
            data,
            steps.last(),
        )
    }
}

/// The part of a path before its last slash; empty where it has no slash.
pub open spec fn parent(path: Seq<char>) -> Seq<char>
    decreases path.len(),
{
    if path.len() == 0 {
        Seq::empty()
    } else if path.last() == '/' {
        path.drop_last()
    } else {
        parent(path.drop_last())
    }
}

/// The directory that an export to a path needs: the parent of a path that names a
/// file with an extension, the path itself where the extension is still to be added.
pub open spec fn directory_for(path: Seq<char>) -> Seq<char> {
    if path.contains('.') {
        parent(path)
    } else {
        path
    }
}

/// The file that an export to a path writes.
pub open spec fn file_for(path: Seq<char>) -> Seq<char> {
    if path.contains('.') {
        path
    } else {
        path + ".jsonl"@
    }
}

/// The file that an export without a path writes: named by the address of the site
/// without its scheme, in the storage directory.
pub open spec fn default_file(url: Seq<char>) -> Seq<char> {
    "./storage/"@ + without(without(url, "http://"@), "https://"@) + "jsonl"@
}

/// The part of a path before its last slash.
fn parent_chars(path: &Vec<char>) -> (r: Vec<char>)
    ensures
        r@ == parent(path@),
{
    let mut end: usize = path.len();
    assert(path@.take(end as int) =~= path@);
    while end > 0
        invariant
            end <= path@.len(),
            parent(path@.take(end as int)) == parent(path@),
        decreases end,
    {
        assert(path@.take(end as int).drop_last() =~= path@.take(end - 1));
        if path[end - 1] == '/' {
            let cut: usize = end - 1;
            let mut r: Vec<char> = Vec::new();
            for i in 0..cut
                invariant
                    cut <= path@.len(),
                    r@ == path@.take(i as int),
            {
                r.push(path[i]);
            }
            return r;
        }
        end = end - 1;
    }
    Vec::new()
}

/// Where the dataset of a site at `url` is exported to, given the path that the caller
/// asks for.
pub fn export_target(export_path: Option<String>, url: &str) -> (r: ExportTarget)
    ensures
        match export_path {
            Some(p) => r.directory@ == directory_for(p@) && r.file@ == file_for(p@),
            None => r.directory@ == "./storage"@ && r.file@ == default_file(url@),
        },
{
    match export_path {
        Some(p) => {
            let path = chars_of(p.as_str());
            if has_char(&path, '.') {
                ExportTarget { directory: string_of(&parent_chars(&path)), file: p }
            } else {
                let mut file = p.clone();
                file.append(".jsonl");
                ExportTarget { directory: p, file }
            }
        },
        None => {
            proof {
                reveal_strlit("http://");
                reveal_strlit("https://");
            }
            let without_http = remove_all(&chars_of(url), &chars_of("http://"));
            let bare = remove_all(&without_http, &chars_of("https://"));
            let name = string_of(&bare);
            let mut file = "./storage/".to_owned();
            file.append(name.as_str());
            file.append("jsonl");
            ExportTarget { directory: "./storage".to_owned(), file }
        },
    }
}

} // verus!
