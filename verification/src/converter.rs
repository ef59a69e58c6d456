//! Audio format conversion glue: which formats are available, where the
//! converted file lands, and how a converter subprocess's outcome is
//! judged. Spawning ffmpeg itself is I/O and lives with the caller.

use vstd::prelude::*;

use crate::config::Config;
use crate::phrase_package::{properspeed_stem_input, PhrasePackage};
use crate::utils::sha256_hex_of;

verus! {

/// An error raised during audio conversion.
#[derive(Debug)]
pub enum ConversionError {
    NotFile,
    NotFound,
    NoExtension,
    Other(String),
    IoFailure(String),
}

impl ConversionError {
    /// The text this error displays as.
    pub fn message(&self) -> (r: String)
        ensures
            self is NotFile ==> r@ == "path is not file"@,
            self is NotFound ==> r@ == "file not found"@,
            self is NoExtension ==> r@ == "file does not have extension"@,
            match *self {
                ConversionError::Other(ref s) => r == s,
                _ => true,
            },
            self is IoFailure ==> r@ == "error occured when reading from stdout"@,
    {
        match self {
            ConversionError::NotFile => String::from_str("path is not file"),
            ConversionError::NotFound => String::from_str("file not found"),
            ConversionError::NoExtension => String::from_str("file does not have extension"),
            ConversionError::Other(s) => s.clone(),
            ConversionError::IoFailure(_) => String::from_str(
                "error occured when reading from stdout",
            ),
        }
    }
}

/// The ffmpeg converter. The subprocess call lives with the caller; the
/// formats it offers and the judgement of its output are here.
#[derive(Debug)]
pub struct Ffmpeg {}

impl Ffmpeg {
    /// The name of this converter.
    pub fn name(&self) -> (r: String)
        ensures
            r@ == "ffmpeg"@,
    {
        String::from_str("ffmpeg")
    }

    /// The output formats ffmpeg offers here.
    pub fn supported_outputs(&self) -> (r: Vec<String>)
        ensures
            r@.len() == 7,
            r@[0]@ == "mp3"@,
            r@[1]@ == "wav"@,
            r@[2]@ == "flac"@,
            r@[3]@ == "m4a"@,
            r@[4]@ == "wma"@,
            r@[5]@ == "aac"@,
            r@[6]@ == "aif"@,
    {
        let mut v: Vec<String> = Vec::new();
        v.push(String::from_str("mp3"));
        v.push(String::from_str("wav"));
        v.push(String::from_str("flac"));
        v.push(String::from_str("m4a"));
        v.push(String::from_str("wma"));
        v.push(String::from_str("aac"));
        v.push(String::from_str("aif"));
        v
    }
}

/// The conversion front: the formats its subprocesses offer, put together.
/// The subprocess delegates themselves live with the caller.
pub struct Converter {
    pub supported_types: Vec<String>,
}

impl Converter {
    /// A converter front over the given set of output formats.
    pub fn new(supported_types: Vec<String>) -> (r: Converter)
        ensures
            r.supported_types == supported_types,
    {
        Converter { supported_types }
    }

    /// Whether some subprocess can produce the format.
    pub fn is_supported(&self, to_check: &String) -> (r: bool)
        ensures
            r == exists|i: int|
                0 <= i < self.supported_types@.len() && self.supported_types@[i]@ == to_check@,
    {
        let n = self.supported_types.len();
        let mut i: usize = 0;
        while i < n
            invariant
                n == self.supported_types@.len(),
                i <= n,
                forall|j: int| 0 <= j < i ==> self.supported_types@[j]@ != to_check@,
            decreases n - i,
        {
            if crate::strutil::str_eq(self.supported_types[i].as_str(), to_check.as_str()) {
                return true;
            }
            i = i + 1;
        }
        false
    }
}

/// The cache path of the converted file for a package: its proper-speed
/// name with the requested extension.
pub fn converted_file_path(cfg: &Config, details: &PhrasePackage, output: &str) -> (r: String)
    requires
        details.speed > i64::MIN,
    ensures
        r@ == cfg.cache_path@ + "/"@ + sha256_hex_of(properspeed_stem_input(*details)) + "."@
            + output@,
{
    let stem = details.filename_stem_properspeed();
    let mut s = cfg.CACHE_PATH().clone();
    s.append("/");
    s.append(stem.as_str());
    s.append(".");
    s.append(output);
    proof {
        assert(s@ =~= cfg.cache_path@ + "/"@ + sha256_hex_of(properspeed_stem_input(*details))
            + "."@ + output@);
    }
    s
}

/// Judge what a converter subprocess left behind: success passes, and a
/// failed run is reported with its output.
pub fn ffmpeg_outcome(success: bool, stdout: String, stderr: String) -> (r: Result<
    (),
    ConversionError,
>)
    ensures
        r is Ok <==> success,
        match r {
            Ok(_) => true,
            Err(e) => e matches ConversionError::Other(m) && m@
                == "Failed to convert wav to format due to error.\nStdout: \n"@ + stdout@
                + "\nStderr: \n"@ + stderr@,
        },
{
    if success {
        Ok(())
    } else {
        let mut m = String::from_str("Failed to convert wav to format due to error.\nStdout: \n");
        m.append(stdout.as_str());
        m.append("\nStderr: \n");
        m.append(stderr.as_str());
        proof {
            assert(m@ =~= "Failed to convert wav to format due to error.\nStdout: \n"@ + stdout@
                + "\nStderr: \n"@ + stderr@);
        }
        Err(ConversionError::Other(m))
    }
}

} // verus!
