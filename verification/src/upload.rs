//! Sending the raw self-instrumentation files of an invocation to bulk
//! storage: under which key, packed how, and with which command.

use crate::bench_processor::{ArtifactIdNumber, CollectionId};
use crate::cargo_process::{CommandSpec, CommandView};
use crate::numeral::{decimal, push_decimal};
use crate::stat_output::{ArtifactFiles, SelfProfileFiles};
use crate::text::{append_chars, push_text, string_from, text_pairs, texts};
use vstd::prelude::*;

verus! {

/// The Snappy frame encoding of `data`, as `snap` produces it when it reads
/// `data` to the end.
pub uninterp spec fn snappy_framed(data: Seq<u8>) -> Seq<u8>;

/// Reads `data` to the end through `snap::read::FrameEncoder`. The encoder
/// takes the data in blocks of a fixed size and compresses each by itself,
/// so what it gives depends on the data alone. It always gives a result:
/// reading from memory does not fail, and the encoder compresses a block at
/// a time into a buffer that holds the largest encoding of a block, which
/// are the two ways in which it could report an error.
#[verifier::external_body]
fn frame_encode(data: &Vec<u8>) -> (r: Option<Vec<u8>>)
    ensures
        r.is_some(),
        r.unwrap()@ == snappy_framed(data@),
{
    let mut encoder = snap::read::FrameEncoder::new(&data[..]);
    let mut compressed = Vec::new();
    match std::io::Read::read_to_end(&mut encoder, &mut compressed) {
        Ok(_) => Some(compressed),
        Err(_) => None,
    }
}

/// Why raw files did not reach bulk storage.
#[derive(Clone, Copy, Debug, PartialEq, Eq, Structural)]
pub enum UploadError {
    /// The data could not be compressed.
    Compression,
    /// The upload process did not end with success.
    Failed,
}

/// The body of an upload, from what the encoder gave.
pub fn compressed_body(encoded: Option<Vec<u8>>) -> (r: Result<Vec<u8>, UploadError>)
    ensures
        match encoded {
            Some(v) => r == Ok::<Vec<u8>, UploadError>(v),
            None => r == Err::<Vec<u8>, UploadError>(UploadError::Compression),
        },
{
    match encoded {
        Some(v) => Ok(v),
        None => Err(UploadError::Compression),
    }
}

/// Compresses the contents of a raw self-instrumentation file for upload.
/// Whatever the contents, there is a compressed form of them.
pub fn compress_profile(data: &Vec<u8>) -> (r: Result<Vec<u8>, UploadError>)
    ensures
        r matches Ok(body) && body@ == snappy_framed(data@),
{
    compressed_body(frame_encode(data))
}

/// The place for the raw files of one invocation in bulk storage: below
/// `self-profile`, by artifact, benchmark, profile and scenario.
pub open spec fn spec_upload_prefix(
    artifact: ArtifactIdNumber,
    benchmark: Seq<char>,
    profile: Seq<char>,
    scenario: Seq<char>,
) -> Seq<char> {
    "self-profile/"@ + decimal(artifact.0 as nat) + "/"@ + benchmark + "/"@ + profile + "/"@
        + scenario
}

pub fn upload_prefix(
    artifact: ArtifactIdNumber,
    benchmark: &str,
    profile: &str,
    scenario: &str,
) -> (r: String)
    ensures
        r@ == spec_upload_prefix(artifact, benchmark@, profile@, scenario@),
{
    let mut out: Vec<char> = Vec::new();
    append_chars(&mut out, "self-profile/");
    push_decimal(&mut out, artifact.0 as u64);
    append_chars(&mut out, "/");
    append_chars(&mut out, benchmark);
    append_chars(&mut out, "/");
    append_chars(&mut out, profile);
    append_chars(&mut out, "/");
    append_chars(&mut out, scenario);
    proof {
        assert(out@ =~= spec_upload_prefix(artifact, benchmark@, profile@, scenario@));
    }
    string_from(out.as_slice())
}

/// The ending of the name of an upload: three files travel as a compressed
/// archive, one file compressed as it is.
pub open spec fn upload_ending(files: ArtifactFiles) -> Seq<char> {
    match files {
        ArtifactFiles::Seven { .. } => ".tar.sz"@,
        ArtifactFiles::Eight { .. } => ".mm_profdata.sz"@,
    }
}

/// The name of an upload: that of the collection, with the ending of its
/// layout.
pub open spec fn upload_file_name(collection: CollectionId, files: ArtifactFiles) -> Seq<char> {
    "self-profile-"@ + decimal(collection.0 as nat) + upload_ending(files)
}

/// Where an upload goes.
pub open spec fn upload_destination(prefix: Seq<char>, file_name: Seq<char>) -> Seq<char> {
    "s3://rustc-perf/"@ + prefix + "/"@ + file_name
}

/// One member of the archive: the file's name in its directory, if the
/// directory holds the file, under the name it has in the archive.
pub open spec fn member(file: Option<Seq<char>>, name: Seq<char>) -> Seq<(Seq<char>, Seq<char>)> {
    match file {
        Some(f) => seq![(f, name)],
        None => Seq::empty(),
    }
}

/// The members of the archive of an upload: the string index, the string
/// data and the events, as far as the directory holds them. A single file
/// is sent without an archive.
pub open spec fn archive_members(files: ArtifactFiles) -> Seq<(Seq<char>, Seq<char>)> {
    match files {
        ArtifactFiles::Seven { dir, string_data, string_index, events } => member(
            string_index,
            "self-profile.string_index"@,
        ) + member(string_data, "self-profile.string_data"@) + member(
            events,
            "self-profile.events"@,
        ),
        ArtifactFiles::Eight { .. } => Seq::empty(),
    }
}

/// The arguments of the upload command for the local file `local`.
pub open spec fn upload_args(local: Seq<char>, destination: Seq<char>) -> Seq<Seq<char>> {
    seq![
        "s3"@,
        "cp"@,
        "--storage-class"@,
        "INTELLIGENT_TIERING"@,
        "--only-show-errors"@,
        local,
        destination,
    ]
}

/// An upload of raw self-instrumentation files.
#[derive(Clone, Debug, PartialEq, Eq)]
pub struct Upload {
    /// The name of the upload in its place.
    pub file_name: String,
    /// Where the upload goes.
    pub destination: String,
    /// What is uploaded.
    pub files: SelfProfileFiles,
}

fn push_member(members: &mut Vec<(String, String)>, file: &Option<String>, name: &str)
    ensures
        text_pairs(final(members)@) == text_pairs(old(members)@) + member(
            match file {
                Some(f) => Some(f@),
                None => None,
            },
            name@,
        ),
{
    match file {
        Some(f) => {
            members.push((f.clone(), name.to_owned()));
            proof {
                assert(text_pairs(members@) =~= text_pairs(old(members)@) + seq![(f@, name@)]);
            }
        },
        None => {
            proof {
                assert(text_pairs(members@) =~= text_pairs(old(members)@) + Seq::<
                    (Seq<char>, Seq<char>),
                >::empty());
            }
        },
    }
}

impl Upload {
    /// The upload of `files` to the place `prefix`, for the collection.
    pub fn new(prefix: &str, collection: CollectionId, files: SelfProfileFiles) -> (r: Upload)
        ensures
            r.files == files,
            r.file_name@ == upload_file_name(collection, files@),
            r.destination@ == upload_destination(prefix@, r.file_name@),
    {
        let mut name: Vec<char> = Vec::new();
        append_chars(&mut name, "self-profile-");
        push_decimal(&mut name, collection.0 as u64);
        match &files {
            SelfProfileFiles::Seven { .. } => {
                append_chars(&mut name, ".tar.sz");
            },
            SelfProfileFiles::Eight { .. } => {
                append_chars(&mut name, ".mm_profdata.sz");
            },
        }
        proof {
            assert(name@ =~= upload_file_name(collection, files@));
        }
        let file_name = string_from(name.as_slice());
        let mut to: Vec<char> = Vec::new();
        append_chars(&mut to, "s3://rustc-perf/");
        append_chars(&mut to, prefix);
        append_chars(&mut to, "/");
        append_chars(&mut to, file_name.as_str());
        proof {
            assert(to@ =~= upload_destination(prefix@, file_name@));
        }
        Upload { file_name, destination: string_from(to.as_slice()), files }
    }

    /// The files to put into the archive, each with its name there. A file
    /// that has gone missing since is left out by the caller.
    pub fn members(&self) -> (r: Vec<(String, String)>)
        ensures
            text_pairs(r@) == archive_members(self.files@),
    {
        let mut members: Vec<(String, String)> = Vec::new();
        proof {
            assert(text_pairs(members@) =~= Seq::<(Seq<char>, Seq<char>)>::empty());
        }
        match &self.files {
            SelfProfileFiles::Seven { dir, string_data, string_index, events } => {
                push_member(&mut members, string_index, "self-profile.string_index");
                push_member(&mut members, string_data, "self-profile.string_data");
                push_member(&mut members, events, "self-profile.events");
                proof {
                    assert(text_pairs(members@) =~= archive_members(self.files@));
                }
            },
            SelfProfileFiles::Eight { .. } => {},
        }
        members
    }

    /// The command that sends the local file `local` on its way.
    pub fn command(&self, local: &str, cwd: &str) -> (r: CommandSpec)
        ensures
            r@ == (CommandView {
                program: "aws"@,
                cwd: cwd@,
                args: upload_args(local@, self.destination@),
                envs: Seq::empty(),
            }),
    {
        let mut args: Vec<String> = Vec::new();
        proof {
            assert(texts(args@) =~= Seq::<Seq<char>>::empty());
        }
        push_text(&mut args, "s3");
        push_text(&mut args, "cp");
        push_text(&mut args, "--storage-class");
        push_text(&mut args, "INTELLIGENT_TIERING");
        push_text(&mut args, "--only-show-errors");
        push_text(&mut args, local);
        push_text(&mut args, self.destination.as_str());
        let envs: Vec<(String, String)> = Vec::new();
        proof {
            assert(texts(args@) =~= upload_args(local@, self.destination@));
            assert(text_pairs(envs@) =~= Seq::<(Seq<char>, Seq<char>)>::empty());
        }
        CommandSpec { program: "aws".to_owned(), cwd: cwd.to_owned(), args, envs }
    }

    /// What to make of the end of the upload process. An upload that failed
    /// is an error: raw files lost in silence would be missed later.
    pub fn wait(self, success: bool) -> (r: Result<(), UploadError>)
        ensures
            r == (if success {
                Ok::<(), UploadError>(())
            } else {
                Err::<(), UploadError>(UploadError::Failed)
            }),
    {
        if success {
            Ok(())
        } else {
            Err(UploadError::Failed)
        }
    }
}

} // verus!
