//! A pipeline of file transformations on one audio file.

use vstd::prelude::*;
use crate::params::strings_view;
use crate::text::{copy_of, push_str, string_of};

verus! {

/// One transformation of the pipeline.
#[derive(Debug)]
pub enum Transformation {
    /// Append the named file to the audio.
    Concat(String),
}

/// An audio file and the transformations to apply to it.
#[derive(Debug)]
pub struct Endpoint<'endpoint> {
    pub audio: &'endpoint str,
    pub pipeline: Vec<Transformation>,
}

/// What a concatenation needs: the list of files to merge, where that list
/// is written, the arguments of the transcoder, and the name of the result.
#[derive(Debug)]
pub struct ConcatJob {
    pub merge_list: String,
    pub list_path: String,
    pub arguments: Vec<String>,
    pub output: String,
}

/// The merge list of two files: one `file '...'` line for each.
pub open spec fn merge_list_of(file1: Seq<char>, file2: Seq<char>) -> Seq<char> {
    "file '"@ + file1 + "'\nfile '"@ + file2 + "'\n"@
}

/// The arguments that make the transcoder merge the listed files.
pub open spec fn concat_arguments() -> Seq<Seq<char>> {
    seq![
        "-loglevel"@,
        "error"@,
        "-y"@,
        "-f"@,
        "concat"@,
        "-safe"@,
        "0"@,
        "-i"@,
        "testdata/input.txt"@,
        "-c"@,
        "copy"@,
        "./testdata/concat.mp3"@,
    ]
}

/// Whether `job` is the concatenation of `file1` and `file2`.
pub open spec fn is_concat_of(job: ConcatJob, file1: Seq<char>, file2: Seq<char>) -> bool {
    &&& job.merge_list@ == merge_list_of(file1, file2)
    &&& job.list_path@ == "./testdata/input.txt"@
    &&& strings_view(job.arguments@) == concat_arguments()
    &&& job.output@ == "concat.mp3"@
}

/// The job that appends `file2` to `file1`.
pub fn concat(file1: &str, file2: &str) -> (r: ConcatJob)
    ensures
        is_concat_of(r, file1@, file2@),
{
    let mut list: Vec<char> = Vec::new();
    push_str(&mut list, "file '");
    push_str(&mut list, file1);
    push_str(&mut list, "'\nfile '");
    push_str(&mut list, file2);
    push_str(&mut list, "'\n");
    let mut arguments: Vec<String> = Vec::new();
    arguments.push(copy_of("-loglevel"));
    arguments.push(copy_of("error"));
    arguments.push(copy_of("-y"));
    arguments.push(copy_of("-f"));
    arguments.push(copy_of("concat"));
    arguments.push(copy_of("-safe"));
    arguments.push(copy_of("0"));
    arguments.push(copy_of("-i"));
    arguments.push(copy_of("testdata/input.txt"));
    arguments.push(copy_of("-c"));
    arguments.push(copy_of("copy"));
    arguments.push(copy_of("./testdata/concat.mp3"));
    assert(strings_view(arguments@) =~= concat_arguments());
    ConcatJob {
        merge_list: string_of(&list),
        list_path: copy_of("./testdata/input.txt"),
        arguments,
        output: copy_of("concat.mp3"),
    }
}

impl<'endpoint> Endpoint<'endpoint> {
    /// The endpoint without audio and without transformations.
    pub fn new() -> (r: Endpoint<'endpoint>)
        ensures
            r.audio@.len() == 0,
            r.pipeline@.len() == 0,
    {
        proof {
            reveal_strlit("");
        }
        Endpoint { audio: "", pipeline: Vec::new() }
    }

    /// The jobs of the pipeline, one for each transformation, in order.
    pub fn process(&self) -> (r: Result<Vec<ConcatJob>, String>)
        ensures
            r matches Ok(jobs) && jobs@.len() == self.pipeline@.len() && forall|i: int|
                0 <= i < jobs@.len() ==> match self.pipeline@[i] {
                    Transformation::Concat(filename) => is_concat_of(
                        #[trigger] jobs@[i],
                        self.audio@,
                        filename@,
                    ),
                },
    {
        let mut jobs: Vec<ConcatJob> = Vec::new();
        let mut i: usize = 0;
        while i < self.pipeline.len()
            invariant
                i <= self.pipeline.len(),
                jobs@.len() == i,
                forall|k: int|
                    0 <= k < i ==> match self.pipeline@[k] {
                        Transformation::Concat(filename) => is_concat_of(
                            #[trigger] jobs@[k],
                            self.audio@,
                            filename@,
                        ),
                    },
            decreases self.pipeline.len() - i,
        {
            match &self.pipeline[i] {
                Transformation::Concat(filename) => {
                    jobs.push(concat(self.audio, filename.as_str()));
                },
            }
            i += 1;
        }
        Ok(jobs)
    }
}

} // verus!
