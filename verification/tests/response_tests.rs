//! Tests of the response surface, the greeting, and the text helpers.

use festival_api::config::{Config, TomlValue};
use festival_api::converter::{ffmpeg_outcome, Converter, ConversionError, Ffmpeg};
use festival_api::festvox::{flite_outcome, wav_file_path, Flite, FliteError};
use festival_api::index;
use festival_api::phrase_package::PhrasePackage;
use festival_api::response::{Data, Response, STATUS_OK};
use festival_api::strutil::{trim_string, u64_to_string};
use festival_api::utils::{sha_256_hash, FileHandle};

fn text(s: &str) -> TomlValue {
    TomlValue::Text(String::from(s))
}

fn tiny_config() -> Config {
    let general = TomlValue::Table(vec![
        (String::from("API_NAME"), text("Example")),
        (String::from("CACHE_PATH"), text("./cache")),
        (String::from("TEMP_PATH"), text("./temp")),
        (String::from("MAX_CACHE_SIZE_MB"), TomlValue::Integer(1024)),
        (String::from("CHAR_LENGTH_LIMIT"), TomlValue::Integer(100)),
        (String::from("ALLOWED_FORMATS"), TomlValue::Array(vec![text("wav")])),
        (String::from("ALLOWED_CHARS"), text("abcdefghijklmnopqrstuvwxyz ")),
        (String::from("BLACKLISTED_PHRASES"), TomlValue::Array(vec![])),
    ]);
    let langs = TomlValue::Table(vec![(
        String::from("lang"),
        TomlValue::Table(vec![(
            String::from("english"),
            TomlValue::Table(vec![
                (String::from("enabled"), TomlValue::Boolean(true)),
                (String::from("festvox"), text("us1")),
                (String::from("iso_691-1_code"), text("en")),
            ]),
        )]),
    )]);
    Config::new(&general, &langs, 1, 6).expect("a valid config")
}

#[test]
fn responder_basics() {
    let data: Data<String> = Data {
        data: String::from("hello, world"),
        status: STATUS_OK,
    };

    let response: Response<String> = Response::TextOk(data);

    match response {
        Response::TextOk(s) => {
            assert_eq!(s.status(), STATUS_OK);
            assert_eq!(*s.data(), String::from("hello, world"));
        }
        _ => panic!("Invalid type!"),
    }
}

/// The index endpoint's body and the text responses' headers.
#[test]
fn test_index() {
    let cfg = tiny_config();
    let body = index(&cfg);
    assert_eq!(body, "Welcome to Example's TTS API.");
    assert!(!body.is_empty());

    let response: Response<String> = Response::TextOk(Data {
        data: body,
        status: STATUS_OK,
    });
    assert_eq!(response.status(), STATUS_OK);
    let (top, sub) = response.content_type();
    assert_eq!(top, "text");
    assert_eq!(sub, "plain; charset=utf-8");
    assert_eq!(response.content_disposition(), "inline");
}

/// File downloads carry the audio content type and an attachment name.
#[test]
fn download_headers() {
    let response: Response<String> = Response::FileDownload((
        Data {
            data: String::from("bytes-stand-in"),
            status: STATUS_OK,
        },
        String::from("output.wav"),
    ));
    let (top, sub) = response.content_type();
    assert_eq!(top, "audio");
    assert_eq!(sub, "mpeg");
    assert_eq!(
        response.content_disposition(),
        "attachment; filename=\"output.wav\""
    );
}

/// The generated wav and the converted file land under the cache path,
/// named by the package's digests.
#[test]
fn generated_file_paths() {
    let cfg = tiny_config();
    let pack = PhrasePackage {
        word: String::from("hello world"),
        lang: String::from("en"),
        speed: 2,
        fmt: String::from("wav"),
    };
    let base = wav_file_path(&cfg, &pack);
    let expected_stem = sha_256_hash("hello world_en_1.0");
    assert_eq!(base, format!("./cache/{}.wav", expected_stem));

    let converted = festival_api::converter::converted_file_path(&cfg, &pack, "wav");
    let expected_proper = sha_256_hash("hello world_en_1");
    assert_eq!(converted, format!("./cache/{}.wav", expected_proper));

    assert_eq!(pack.filename_stem_basespeed(), expected_stem);
    assert_eq!(pack.filename_stem_properspeed(), expected_proper);

    // A half-step speed prints with its fraction.
    let fast = PhrasePackage {
        word: String::from("hello world"),
        lang: String::from("en"),
        speed: 3,
        fmt: String::from("wav"),
    };
    assert_eq!(
        fast.filename_stem_properspeed(),
        sha_256_hash("hello world_en_1.5")
    );
}

/// The converter front reports exactly the formats its subprocesses offer.
#[test]
fn converter_support() {
    let ffmpeg = Ffmpeg {};
    assert_eq!(ffmpeg.name(), "ffmpeg");
    let conv = Converter::new(ffmpeg.supported_outputs());
    assert!(conv.is_supported(&String::from("mp3")));
    assert!(conv.is_supported(&String::from("aif")));
    assert!(!conv.is_supported(&String::from("ogg")));
}

/// Subprocess outcomes: success passes, failure carries the output.
#[test]
fn subprocess_outcomes() {
    assert!(Flite::new().is_ok());
    assert!(flite_outcome(true, String::new(), String::new()).is_ok());
    match flite_outcome(false, String::from("out"), String::from("err")) {
        Err(FliteError::ProcessError(m)) => {
            assert_eq!(
                m,
                "Failed to generate wav from provided string due to error.\nStdout: \nout\nStderr: \nerr"
            );
        }
        _ => panic!("expected a process error"),
    }
    match ffmpeg_outcome(false, String::from("o"), String::from("e")) {
        Err(ConversionError::Other(m)) => {
            assert_eq!(
                m,
                "Failed to convert wav to format due to error.\nStdout: \no\nStderr: \ne"
            );
        }
        _ => panic!("expected an error"),
    }
    assert_eq!(ConversionError::NotFound.message(), "file not found");
}

/// A file handle remembers its path and cache status.
#[test]
fn file_handle_basics() {
    let handle = FileHandle::new(String::from("./temp/out.wav"), false);
    assert_eq!(handle.underlying(), "./temp/out.wav");
    assert!(!handle.is_cached());
}

/// Decimal rendering and trimming behave as std's do.
#[test]
fn text_helpers() {
    assert_eq!(u64_to_string(0), "0");
    assert_eq!(u64_to_string(7), "7");
    assert_eq!(u64_to_string(120), "120");
    assert_eq!(u64_to_string(98765432109876), "98765432109876");
    assert_eq!(trim_string("  stuff  "), "stuff");
    assert_eq!(trim_string("\t a b \n"), "a b");
    assert_eq!(trim_string("   "), "");
    assert_eq!(trim_string("plain"), "plain");
}
