//! Tests of configuration loading and phrase package validation.

use festival_api::config::{Config, ConfigError, Language, PathType, TomlValue};
use festival_api::phrase_package::PhrasePackage;
use festival_api::response::{Data, Response, STATUS_OK};
use festival_api::utils::generate_random_alphanumeric;

fn text(s: &str) -> TomlValue {
    TomlValue::Text(String::from(s))
}

fn general_doc() -> TomlValue {
    TomlValue::Table(vec![
        (String::from("API_NAME"), text("Example")),
        (String::from("CACHE_PATH"), text("./cache")),
        (String::from("TEMP_PATH"), text("./temp")),
        (String::from("MAX_CACHE_SIZE_MB"), TomlValue::Integer(1024)),
        (String::from("CHAR_LENGTH_LIMIT"), TomlValue::Integer(100)),
        (
            String::from("ALLOWED_FORMATS"),
            TomlValue::Array(vec![
                text("mp3"),
                text("wav"),
                text("flac"),
                text("m4a"),
                text("wma"),
                text("aac"),
                text("aif"),
            ]),
        ),
        (
            String::from("ALLOWED_CHARS"),
            text("abcdefghijklmnopqrstuvwxyzABCDEFGHIJKLMNOPQRSTUVWXYZ0123456789 ,!?"),
        ),
        (
            String::from("BLACKLISTED_PHRASES"),
            TomlValue::Array(vec![text(" bad phrase "), text(" worse ")]),
        ),
    ])
}

fn langs_doc() -> TomlValue {
    TomlValue::Table(vec![(
        String::from("lang"),
        TomlValue::Table(vec![(
            String::from("english"),
            TomlValue::Table(vec![
                (String::from("enabled"), TomlValue::Boolean(true)),
                (String::from("festvox"), text("us1_mbrola")),
                (String::from("iso_691-1_code"), text("en")),
            ]),
        )]),
    )])
}

/// Speeds are carried in half-steps; the original band 0.5 .. 3.0.
fn test_config() -> Config {
    Config::new(&general_doc(), &langs_doc(), 1, 6).expect("a valid config")
}

#[test]
fn config_from_docs() {
    let cfg = test_config();
    assert_eq!(cfg.API_NAME(), "Example");
    assert_eq!(cfg.CACHE_PATH(), "./cache");
    assert_eq!(cfg.TEMP_PATH(), "./temp");
    assert_eq!(cfg.MAX_CACHE_SIZE(), 1024);
    assert_eq!(cfg.WORD_LENGTH_LIMIT(), 100);
    assert_eq!(cfg.SPEED_MIN_VAL(), 1);
    assert_eq!(cfg.SPEED_MAX_VAL(), 6);
    assert_eq!(cfg.SUPPORTED_LANGS().len(), 1);
    let (code, lang): &(String, Language) = &cfg.SUPPORTED_LANGS()[0];
    assert_eq!(code, "en");
    assert_eq!(lang.display_name, "english");
    assert_eq!(lang.festival_code, "us1_mbrola");
    assert_eq!(lang.iso_691_code, "en");
    assert!(lang.enabled);
    assert_eq!(cfg.ALLOWED_FORMATS().len(), 7);
    assert_eq!(cfg.BLACKLISTED_PHRASES().len(), 2);
    assert!(cfg.ALLOWED_CHARS().contains(&'!'));
}

#[test]
fn config_rejects_malformed_langs() {
    let broken = TomlValue::Table(vec![(
        String::from("lang"),
        TomlValue::Table(vec![(
            String::from("english"),
            TomlValue::Table(vec![(String::from("enabled"), TomlValue::Boolean(true))]),
        )]),
    )]);
    assert!(Config::new(&general_doc(), &broken, 1, 6).is_err());
    let no_table = TomlValue::Table(vec![]);
    assert!(Config::new(&general_doc(), &no_table, 1, 6).is_err());
}

#[test]
fn get_path_appends_file_names() {
    let base = String::from("../../../config");
    assert_eq!(PathType::General.get_path(&base), "../../../config/general.toml");
    assert_eq!(PathType::Langs.get_path(&base), "../../../config/langs.toml");
    assert_eq!(PathType::Users.get_path(&base), "../../../config/users.toml");
}

#[test]
fn validate_success_package() {
    let cfg = test_config();

    let mut pack = PhrasePackage {
        word: String::from("Hello, world!"),
        lang: String::from("en"),
        speed: cfg.SPEED_MAX_VAL(),
        fmt: String::from("mp3"),
    };
    pack.validated(&cfg).expect("a valid package");

    let mut pack = PhrasePackage {
        word: String::from("Hello, world!"),
        lang: String::from("en"),
        speed: cfg.SPEED_MIN_VAL(),
        fmt: String::from("mp3"),
    };
    pack.validated(&cfg).expect("a valid package");

    let mut pack = PhrasePackage {
        word: String::from("H"),
        lang: String::from("en"),
        speed: cfg.SPEED_MIN_VAL(),
        fmt: String::from("mp3"),
    };
    pack.validated(&cfg).expect("a valid package");

    let mut pack = PhrasePackage {
        word: generate_random_alphanumeric(cfg.WORD_LENGTH_LIMIT()),
        lang: String::from("en"),
        speed: cfg.SPEED_MIN_VAL(),
        fmt: String::from("mp3"),
    };
    pack.validated(&cfg).expect("a valid package");
}

#[test]
fn validate_correction_package() {
    let cfg = test_config();
    // Validate the min value correction is in place!
    // We can't run this test if the min value is 0!
    if cfg.SPEED_MIN_VAL() <= 0 {
        panic!("WARNING: TEST UNABLE TO BE RUN AS SPEED_MIN_VAL < 0!");
    }

    let mut pack = PhrasePackage {
        word: String::from("Hello, world!"),
        lang: String::from("en"),
        speed: cfg.SPEED_MIN_VAL() - 1,
        fmt: String::from("mp3"),
    };
    pack.validated(&cfg).expect("a valid package");
    assert_eq!(pack.speed, cfg.SPEED_MIN_VAL());

    // Validate the max value correction is in place!
    let mut pack = PhrasePackage {
        word: String::from("Hello, world!"),
        lang: String::from("en"),
        speed: cfg.SPEED_MAX_VAL() + 1,
        fmt: String::from("mp3"),
    };
    pack.validated(&cfg).expect("a valid package");
    assert_eq!(pack.speed, cfg.SPEED_MAX_VAL());

    // Validate the half-step flooring is in place: fractional user speeds
    // are floored to a half-step before the package is built.
    for i in 0..500 {
        let requested: f32 = 0.0 + 0.35 * i as f32;
        let halves = (requested * 2.0).floor() as i64;
        let mut pack = PhrasePackage {
            word: String::from("Hello, world!"),
            lang: String::from("en"),
            speed: halves,
            fmt: String::from("mp3"),
        };
        pack.validated(&cfg).expect("a valid package");
        let speed = pack.speed as f32 / 2.0;
        assert_eq!(speed % 0.5, 0.0);
    }
}

#[test]
fn validate_failure_package() {
    let cfg = test_config();

    // Validate that empty string fails
    let mut pack = PhrasePackage {
        word: String::from(""),
        lang: String::from("en"),
        speed: cfg.SPEED_MIN_VAL(),
        fmt: String::from("mp3"),
    };
    pack.validated(&cfg).expect_err("should be too short");

    // Test string too long
    let mut pack = PhrasePackage {
        word: generate_random_alphanumeric(cfg.WORD_LENGTH_LIMIT() + 1),
        lang: String::from("en"),
        speed: cfg.SPEED_MIN_VAL(),
        fmt: String::from("mp3"),
    };
    pack.validated(&cfg).expect_err("should be too long");

    // Test unsupported lang
    let mut pack = PhrasePackage {
        word: String::from("a wiord"),
        lang: String::from("adfadlfjalk"),
        speed: cfg.SPEED_MIN_VAL(),
        fmt: String::from("mp3"),
    };
    pack.validated(&cfg).expect_err("should be invalid lang");
}

#[test]
fn invalid_file_formats() {
    let cfg = test_config();

    let mut pack = PhrasePackage {
        word: String::from("hello"),
        lang: String::from("en"),
        speed: cfg.SPEED_MIN_VAL(),
        fmt: String::from("format"),
    };
    if let Err(e) = pack.validated(&cfg) {
        assert_eq!(
            e,
            String::from("Requested format (format) is not supported by this api!")
        )
    } else {
        panic!("Unexpected response!")
    }
}

#[test]
fn valid_file_formats() {
    let cfg = test_config();

    for format in cfg.ALLOWED_FORMATS().iter() {
        let mut pack = PhrasePackage {
            word: String::from("hello"),
            lang: String::from("en"),
            speed: cfg.SPEED_MIN_VAL(),
            fmt: format.clone(),
        };

        pack.validated(&cfg).expect("a valid pack");
    }
}

/// A simple test which ensures that an invalid file format fails out as
/// expected.
#[test]
fn test_invalid_formats() {
    let cfg = test_config();
    let mut pack = PhrasePackage {
        word: String::from("The University of Auckland"),
        lang: String::from("en"),
        speed: 2,
        fmt: String::from("this-will-never-exist"),
    };
    let body = pack.validated(&cfg).expect_err("an invalid format");
    assert_eq!(
        body,
        String::from("Requested format (this-will-never-exist) is not supported by this api!")
    );
}

/// Validate that all configured languages are accepted by the api.
#[test]
fn test_every_lang() {
    let cfg = test_config();
    for (code, _lang) in cfg.SUPPORTED_LANGS().iter() {
        let mut pack = PhrasePackage {
            word: String::from("hello"),
            lang: code.clone(),
            speed: cfg.SPEED_MIN_VAL(),
            fmt: String::from("wav"),
        };
        pack.validated(&cfg).expect("a valid pack");
    }
}

/// Strings full of path and control characters are rejected by validation.
#[test]
fn invalid_conversion_strings() {
    let cfg = test_config();
    let evil_strings = [
        "\\\\\\//////",
        ".mp4",
        "something.png",
        "\0\0\00\0\\\\\\////\\\\/\\\0\0\0\0",
        ">><<",
    ];
    for evil in evil_strings.iter() {
        let mut pack = PhrasePackage {
            word: String::from(*evil),
            lang: String::from("en"),
            speed: cfg.SPEED_MIN_VAL(),
            fmt: String::from("mp3"),
        };
        assert!(pack.validated(&cfg).is_err());
    }
}

/// Validate that all configured languages are accepted, as the conversion
/// endpoint sees them.
#[test]
fn endpoint_conversion_test_every_lang() {
    let cfg = test_config();
    for (code, _lang) in cfg.SUPPORTED_LANGS().iter() {
        let mut pack = PhrasePackage {
            word: String::from("hello"),
            lang: code.clone(),
            speed: cfg.SPEED_MIN_VAL(),
            fmt: String::from("wav"),
        };
        pack.validated(&cfg).expect("a valid pack");
    }
}

/// Every allowed format validates, and the download response names the
/// output file after it.
#[test]
fn endpoint_conversion_test_every_format() {
    let cfg = test_config();
    for format in cfg.ALLOWED_FORMATS().iter() {
        let mut pack = PhrasePackage {
            word: String::from("hello"),
            lang: String::from("en"),
            speed: 2,
            fmt: format.clone(),
        };
        pack.validated(&cfg).expect("a valid pack");

        let response: Response<String> = Response::FileDownload((
            Data {
                data: String::from("bytes-stand-in"),
                status: STATUS_OK,
            },
            format!("output.{}", format),
        ));
        let expected = format!("attachment; filename=\"output.{}\"", format);
        assert_eq!(response.content_disposition(), expected);
    }
}

/// Each validation failure names its cause exactly.
#[test]
fn validation_error_messages() {
    let cfg = test_config();

    let mut pack = PhrasePackage {
        word: String::from("hello"),
        lang: String::from("xx"),
        speed: 2,
        fmt: String::from("mp3"),
    };
    assert_eq!(
        pack.validated(&cfg).unwrap_err(),
        "Provided lang (xx) is not supported by this api!"
    );

    let mut pack = PhrasePackage {
        word: generate_random_alphanumeric(101),
        lang: String::from("en"),
        speed: 2,
        fmt: String::from("mp3"),
    };
    assert_eq!(
        pack.validated(&cfg).unwrap_err(),
        "Phrase is too long! Greater than 100 chars"
    );

    let mut pack = PhrasePackage {
        word: String::from(""),
        lang: String::from("en"),
        speed: 2,
        fmt: String::from("mp3"),
    };
    assert_eq!(pack.validated(&cfg).unwrap_err(), "No word provided!");

    let mut pack = PhrasePackage {
        word: String::from("hello^world"),
        lang: String::from("en"),
        speed: 2,
        fmt: String::from("mp3"),
    };
    assert_eq!(
        pack.validated(&cfg).unwrap_err(),
        "Char (^) is not allowed to be sent to this api! Please try again."
    );
}

/// The configuration error texts.
#[test]
fn config_error_messages() {
    assert_eq!(ConfigError::ParseIntError.message(), "failed to parse int");
    assert_eq!(ConfigError::ParseFloatError.message(), "failed to parse float");
}

/// Blacklisted phrases are refused with the trimmed phrase named.
#[test]
fn blacklist_rejects_phrases() {
    let cfg = test_config();
    let mut pack = PhrasePackage {
        word: String::from("a bad phrase inside"),
        lang: String::from("en"),
        speed: 2,
        fmt: String::from("mp3"),
    };
    let e = pack.validated(&cfg).expect_err("a blacklisted phrase");
    assert_eq!(e, "Blacklisted word! Phrase (bad phrase) is not allowed!");
}
