//! Text-to-speech generator glue: where generated audio lands in the
//! cache, and how a generator subprocess's outcome is judged. Spawning the
//! subprocess itself is I/O and lives with the caller.

use vstd::prelude::*;

use crate::config::Config;
use crate::phrase_package::{basespeed_stem_input, PhrasePackage};
use crate::utils::sha256_hex_of;

verus! {

/// An error raised while generating speech with flite.
#[derive(Debug)]
pub enum FliteError {
    UnableToStart(String),
    IoFailure(String),
    ProcessError(String),
}

impl FliteError {
    /// The text this error displays as.
    pub fn message(&self) -> (r: String)
        ensures
            r@ == "Error occured within generator"@,
    {
        String::from_str("Error occured within generator")
    }
}

/// An error raised while generating speech with festival.
#[derive(Debug)]
pub enum FestivalError {
    ConversionError(String),
}

impl FestivalError {
    /// The text this error displays as.
    pub fn message(&self) -> (r: String)
        ensures
            r@ == "Error occured within generator"@,
    {
        String::from_str("Error occured within generator")
    }
}

/// The flite speech generator. The subprocess call lives with the caller;
/// the paths it reads and writes and the judgement of its output are here.
pub struct Flite {}

impl Flite {
    /// Create a new flite generator; nothing can fail here.
    pub fn new() -> (r: Result<Flite, FliteError>)
        ensures
            r is Ok,
    {
        Ok(Flite {})
    }
}

/// The festival speech generator. As for flite, only the decisions live
/// here.
pub struct Festival {}

impl Festival {
    /// Create a new festival generator; nothing can fail here.
    pub fn new() -> (r: Result<Festival, FestivalError>)
        ensures
            r is Ok,
    {
        Ok(Festival {})
    }
}

/// The cache path of the base-speed wav file for a package: where a
/// generator writes, and where conversion reads.
pub fn wav_file_path(cfg: &Config, details: &PhrasePackage) -> (r: String)
    ensures
        r@ == cfg.cache_path@ + "/"@ + sha256_hex_of(basespeed_stem_input(*details)) + ".wav"@,
{
    let stem = details.filename_stem_basespeed();
    let mut s = cfg.CACHE_PATH().clone();
    s.append("/");
    s.append(stem.as_str());
    s.append(".wav");
    proof {
        assert(s@ =~= cfg.cache_path@ + "/"@ + sha256_hex_of(basespeed_stem_input(*details))
            + ".wav"@);
    }
    s
}

/// Judge what a generator subprocess left behind: success passes, and a
/// failed run is reported with its output.
pub fn flite_outcome(success: bool, stdout: String, stderr: String) -> (r: Result<(), FliteError>)
    ensures
        r is Ok <==> success,
        match r {
            Ok(_) => true,
            Err(e) => e matches FliteError::ProcessError(m) && m@
                == "Failed to generate wav from provided string due to error.\nStdout: \n"@
                + stdout@ + "\nStderr: \n"@ + stderr@,
        },
{
    if success {
        Ok(())
    } else {
        let mut m = String::from_str(
            "Failed to generate wav from provided string due to error.\nStdout: \n",
        );
        m.append(stdout.as_str());
        m.append("\nStderr: \n");
        m.append(stderr.as_str());
        proof {
            assert(m@ =~= "Failed to generate wav from provided string due to error.\nStdout: \n"@
                + stdout@ + "\nStderr: \n"@ + stderr@);
        }
        Err(FliteError::ProcessError(m))
    }
}

} // verus!
