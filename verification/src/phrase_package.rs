//! A phrase package: what a user asks the api to speak, and the rules that
//! decide whether the request is acceptable.

use vstd::prelude::*;

use crate::config::Config;
use crate::strutil::{
    char_to_string, contains_chars, contains_seq, spec_decimal, str_to_chars, u64_to_string,
};
use crate::utils::{sha256_hex_of, sha_256_hash};

verus! {

/// A phrase package which the user is requesting a speech to be generated
/// for. The speed is carried in half-steps: a value of `n` stands for a
/// playback speed of `n / 2`, so every representable speed is a multiple of
/// one half (fractional user input is floored to a half-step before the
/// package is built).
pub struct PhrasePackage {
    pub word: String,
    pub lang: String,
    pub speed: i64,
    pub fmt: String,
}

/// How a speed in half-steps prints: the whole part, then `.5` for an odd
/// number of halves, with a leading minus for negative speeds.
pub open spec fn speed_repr(halves: int) -> Seq<char> {
    if halves < 0 {
        seq!['-'] + nonneg_speed_repr(-halves)
    } else {
        nonneg_speed_repr(halves)
    }
}

/// The printed form of a non-negative number of half-steps.
pub open spec fn nonneg_speed_repr(halves: int) -> Seq<char> {
    if halves % 2 == 0 {
        spec_decimal(halves / 2)
    } else {
        spec_decimal(halves / 2) + ".5"@
    }
}

/// Render a speed in half-steps the way the equivalent fraction prints.
pub fn speed_string(halves: i64) -> (r: String)
    requires
        halves > i64::MIN,
    ensures
        r@ == speed_repr(halves as int),
{
    if halves < 0 {
        let mut s = String::from_str("-");
        let m = -halves;
        let mut whole = u64_to_string((m / 2) as u64);
        if m % 2 == 1 {
            whole.append(".5");
        }
        s.append(whole.as_str());
        proof {
            reveal_strlit("-");
            assert(s@ =~= speed_repr(halves as int));
        }
        s
    } else {
        let mut s = u64_to_string((halves / 2) as u64);
        if halves % 2 == 1 {
            s.append(".5");
        }
        s
    }
}

/// The text whose digest names the file for a package at its proper speed.
pub open spec fn properspeed_stem_input(p: PhrasePackage) -> Seq<char> {
    p.word@ + "_"@ + p.lang@ + "_"@ + speed_repr(p.speed as int)
}

/// The text whose digest names the file for a package at the base speed.
pub open spec fn basespeed_stem_input(p: PhrasePackage) -> Seq<char> {
    p.word@ + "_"@ + p.lang@ + "_1.0"@
}

impl PhrasePackage {
    /// Generate a filename, minus the file extension.
    pub fn filename_stem_properspeed(&self) -> (r: String)
        requires
            self.speed > i64::MIN,
        ensures
            r@ == sha256_hex_of(properspeed_stem_input(*self)),
            r@.len() == 64,
    {
        let mut input = self.word.clone();
        input.append("_");
        input.append(self.lang.as_str());
        input.append("_");
        let sp = speed_string(self.speed);
        input.append(sp.as_str());
        proof {
            assert(input@ =~= properspeed_stem_input(*self));
        }
        sha_256_hash(input.as_str())
    }

    /// Collect the name of the file pre-conversion or speed change.
    pub fn filename_stem_basespeed(&self) -> (r: String)
        ensures
            r@ == sha256_hex_of(basespeed_stem_input(*self)),
            r@.len() == 64,
    {
        let mut input = self.word.clone();
        input.append("_");
        input.append(self.lang.as_str());
        input.append("_1.0");
        proof {
            assert(input@ =~= basespeed_stem_input(*self));
        }
        sha_256_hash(input.as_str())
    }
}

/// A speed pushed into the configured band: capped at the maximum first,
/// then raised to the minimum.
pub open spec fn clamped_speed(s: int, min: int, max: int) -> int {
    let capped = if s > max {
        max
    } else {
        s
    };
    if capped < min {
        min
    } else {
        capped
    }
}

/// True when the configuration lists the language code.
pub open spec fn lang_supported(cfg: Config, lang: Seq<char>) -> bool {
    exists|i: int| 0 <= i < cfg.supported_langs@.len() && cfg.supported_langs@[i].0@ == lang
}

/// True when the configuration lists the output format.
pub open spec fn fmt_allowed(cfg: Config, fmt: Seq<char>) -> bool {
    exists|i: int| 0 <= i < cfg.allowed_formats@.len() && cfg.allowed_formats@[i]@ == fmt
}

/// The length of a word. The limit is deliberately counted in characters
/// (code points), not utf-8 bytes: the two agree on the ascii phrases the
/// character filter admits, and a per-character limit is the meaningful
/// reading of "phrase too long" for anything else.
pub open spec fn word_len_of(w: Seq<char>) -> int {
    w.len() as int
}

/// The text a blacklist phrase is matched against: the word with a space
/// on either side, so that a phrase bounded by spaces matches whole words.
pub open spec fn match_text(w: Seq<char>) -> Seq<char> {
    " "@ + w + " "@
}

/// True when blacklist phrase `i` occurs in the word's match text.
pub open spec fn blacklisted_at(cfg: Config, w: Seq<char>, i: int) -> bool {
    contains_seq(match_text(w), cfg.blacklisted_phrases@[i]@)
}

/// True when some blacklist phrase occurs in the word's match text.
pub open spec fn any_blacklisted(cfg: Config, w: Seq<char>) -> bool {
    exists|i: int| 0 <= i < cfg.blacklisted_phrases@.len() && blacklisted_at(cfg, w, i)
}

/// True when every character of the word is allowed by the configuration.
pub open spec fn chars_allowed(cfg: Config, w: Seq<char>) -> bool {
    forall|j: int| 0 <= j < w.len() ==> cfg.allowed_chars@.contains(#[trigger] w[j])
}

/// The error report for a blacklisted word: some phrase occurs in the
/// word's match text, no earlier phrase does, and the message names it.
pub open spec fn blacklist_error_witness(cfg: Config, w: Seq<char>, m: Seq<char>) -> bool {
    exists|i: int|
        {
            &&& 0 <= i < cfg.blacklisted_phrases@.len()
            &&& blacklisted_at(cfg, w, i)
            &&& (forall|j: int| 0 <= j < i ==> !blacklisted_at(cfg, w, j))
            &&& m == "Blacklisted word! Phrase ("@ + crate::strutil::trim_seq(
                cfg.blacklisted_phrases@[i]@,
            ) + ") is not allowed!"@
        }
}

/// The error report for a disallowed character: some character of the word
/// is not allowed, every earlier one is, and the message names it.
pub open spec fn char_error_witness(cfg: Config, w: Seq<char>, m: Seq<char>) -> bool {
    exists|j: int|
        {
            &&& 0 <= j < w.len()
            &&& !cfg.allowed_chars@.contains(w[j])
            &&& (forall|k: int| 0 <= k < j ==> cfg.allowed_chars@.contains(#[trigger] w[k]))
            &&& m == "Char ("@ + seq![w[j]]
                + ") is not allowed to be sent to this api! Please try again."@
        }
}

/// Everything `validated` checks, together.
pub open spec fn package_acceptable(cfg: Config, p: PhrasePackage) -> bool {
    &&& lang_supported(cfg, p.lang@)
    &&& fmt_allowed(cfg, p.fmt@)
    &&& word_len_of(p.word@) <= cfg.word_length_limit
    &&& p.word@.len() > 0
    &&& !any_blacklisted(cfg, p.word@)
    &&& chars_allowed(cfg, p.word@)
}

/// True when the configuration lists the language code; decided by a scan.
fn lang_lookup(cfg: &Config, lang: &str) -> (r: bool)
    ensures
        r == lang_supported(*cfg, lang@),
{
    let n = cfg.supported_langs.len();
    let mut i: usize = 0;
    while i < n
        invariant
            n == cfg.supported_langs@.len(),
            i <= n,
            forall|j: int| 0 <= j < i ==> cfg.supported_langs@[j].0@ != lang@,
        decreases n - i,
    {
        if crate::strutil::str_eq(cfg.supported_langs[i].0.as_str(), lang) {
            return true;
        }
        i = i + 1;
    }
    false
}

/// True when the list holds the string; decided by a scan.
fn string_list_contains(list: &Vec<String>, s: &str) -> (r: bool)
    ensures
        r == exists|i: int| 0 <= i < list@.len() && list@[i]@ == s@,
{
    let n = list.len();
    let mut i: usize = 0;
    while i < n
        invariant
            n == list@.len(),
            i <= n,
            forall|j: int| 0 <= j < i ==> list@[j]@ != s@,
        decreases n - i,
    {
        if crate::strutil::str_eq(list[i].as_str(), s) {
            return true;
        }
        i = i + 1;
    }
    false
}

/// True when the list holds the character; decided by a scan.
fn char_list_contains(list: &Vec<char>, c: char) -> (r: bool)
    ensures
        r == list@.contains(c),
{
    let n = list.len();
    let mut i: usize = 0;
    while i < n
        invariant
            n == list@.len(),
            i <= n,
            forall|j: int| 0 <= j < i ==> list@[j] != c,
        decreases n - i,
    {
        if list[i] == c {
            return true;
        }
        i = i + 1;
    }
    false
}

impl PhrasePackage {
    /// Validates (and attempts to fix) a phrase package.
    /// Returns Ok() if the package is valid, and Err otherwise.
    /// Attempts to correct:
    /// - Speed values larger or smaller than the allowed values
    ///
    /// Fails on:
    /// - Invalid language selection
    /// - Invalid file format selection
    /// - Phrase too long (measured in characters; see [`word_len_of`])
    /// - Phrase contains invalid chars
    /// - Phrase contains invalid phrases
    ///
    /// The blacklist error names the offending phrase with ascii
    /// whitespace trimmed from its ends (configuration phrases are plain
    /// text, so nothing wider is needed; see `strutil::trim_seq`).
    pub fn validated(&mut self, cfg: &Config) -> (r: Result<(), String>)
        ensures
            final(self).word == old(self).word,
            final(self).lang == old(self).lang,
            final(self).fmt == old(self).fmt,
            final(self).speed == clamped_speed(
                old(self).speed as int,
                cfg.speed_min_val as int,
                cfg.speed_max_val as int,
            ),
            r is Ok <==> package_acceptable(*cfg, *old(self)),
            match r {
                Ok(_) => true,
                Err(m) => {
                    if !lang_supported(*cfg, old(self).lang@) {
                        m@ == "Provided lang ("@ + old(self).lang@
                            + ") is not supported by this api!"@
                    } else if !fmt_allowed(*cfg, old(self).fmt@) {
                        m@ == "Requested format ("@ + old(self).fmt@
                            + ") is not supported by this api!"@
                    } else if word_len_of(old(self).word@) > cfg.word_length_limit {
                        m@ == "Phrase is too long! Greater than "@ + spec_decimal(
                            cfg.word_length_limit as int,
                        ) + " chars"@
                    } else if old(self).word@.len() == 0 {
                        m@ == "No word provided!"@
                    } else {
                        blacklist_error_witness(*cfg, old(self).word@, m@) || (!any_blacklisted(
                            *cfg,
                            old(self).word@,
                        ) && char_error_witness(*cfg, old(self).word@, m@))
                    }
                },
            },
    {
        // Attempt to correct speed values. Half-step flooring happened when
        // the package was built; only the band needs enforcing here.
        if self.speed > cfg.SPEED_MAX_VAL() {
            self.speed = cfg.SPEED_MAX_VAL();
        }
        if self.speed < cfg.SPEED_MIN_VAL() {
            self.speed = cfg.SPEED_MIN_VAL();
        }

        // Check language selection is valid
        if !lang_lookup(cfg, self.lang.as_str()) {
            let mut m = String::from_str("Provided lang (");
            m.append(self.lang.as_str());
            m.append(") is not supported by this api!");
            return Err(m);
        }

        // Validate file format selection
        if !string_list_contains(cfg.ALLOWED_FORMATS(), self.fmt.as_str()) {
            let mut m = String::from_str("Requested format (");
            m.append(self.fmt.as_str());
            m.append(") is not supported by this api!");
            return Err(m);
        }

        // Check that provided phrase is valid
        let word_len = self.word.as_str().unicode_len();
        if word_len > cfg.WORD_LENGTH_LIMIT() {
            let mut m = String::from_str("Phrase is too long! Greater than ");
            let lim = u64_to_string(cfg.WORD_LENGTH_LIMIT() as u64);
            m.append(lim.as_str());
            m.append(" chars");
            return Err(m);
        }
        if self.word.as_str().is_empty() {
            return Err(String::from_str("No word provided!"));
        }

        // Validate that nothing from the blacklist is present
        let mut match_phrase = String::from_str(" ");
        match_phrase.append(self.word.as_str());
        match_phrase.append(" ");
        let match_chars = str_to_chars(match_phrase.as_str());
        proof {
            assert(match_chars@ =~= match_text(self.word@));
        }
        let bn = cfg.blacklisted_phrases.len();
        let mut bi: usize = 0;
        while bi < bn
            invariant
                bn == cfg.blacklisted_phrases@.len(),
                bi <= bn,
                self.word == old(self).word,
                self.lang == old(self).lang,
                self.fmt == old(self).fmt,
                self.speed == clamped_speed(
                    old(self).speed as int,
                    cfg.speed_min_val as int,
                    cfg.speed_max_val as int,
                ),
                lang_supported(*cfg, self.lang@),
                fmt_allowed(*cfg, self.fmt@),
                word_len_of(self.word@) <= cfg.word_length_limit,
                self.word@.len() > 0,
                match_chars@ == match_text(self.word@),
                forall|j: int| 0 <= j < bi ==> !blacklisted_at(*cfg, self.word@, j),
            decreases bn - bi,
        {
            let phrase_chars = str_to_chars(cfg.blacklisted_phrases[bi].as_str());
            if contains_chars(&match_chars, &phrase_chars) {
                let trimmed = crate::strutil::trim_string(cfg.blacklisted_phrases[bi].as_str());
                let mut m = String::from_str("Blacklisted word! Phrase (");
                m.append(trimmed.as_str());
                m.append(") is not allowed!");
                proof {
                    assert(blacklisted_at(*cfg, self.word@, bi as int));
                    assert(m@ =~= "Blacklisted word! Phrase ("@ + crate::strutil::trim_seq(
                        cfg.blacklisted_phrases@[bi as int]@,
                    ) + ") is not allowed!"@);
                    assert(blacklist_error_witness(*cfg, self.word@, m@));
                }
                return Err(m);
            }
            bi = bi + 1;
        }

        // Check that every character of the word is allowed
        let word_chars = str_to_chars(self.word.as_str());
        let wn = word_chars.len();
        let mut wi: usize = 0;
        while wi < wn
            invariant
                wn == word_chars@.len(),
                word_chars@ == self.word@,
                wi <= wn,
                self.word == old(self).word,
                self.lang == old(self).lang,
                self.fmt == old(self).fmt,
                self.speed == clamped_speed(
                    old(self).speed as int,
                    cfg.speed_min_val as int,
                    cfg.speed_max_val as int,
                ),
                lang_supported(*cfg, self.lang@),
                fmt_allowed(*cfg, self.fmt@),
                word_len_of(self.word@) <= cfg.word_length_limit,
                self.word@.len() > 0,
                !any_blacklisted(*cfg, self.word@),
                forall|k: int| 0 <= k < wi ==> cfg.allowed_chars@.contains(#[trigger] self.word@[k]),
            decreases wn - wi,
        {
            let c = word_chars[wi];
            if !char_list_contains(&cfg.allowed_chars, c) {
                let cs = char_to_string(c);
                let mut m = String::from_str("Char (");
                m.append(cs.as_str());
                m.append(") is not allowed to be sent to this api! Please try again.");
                proof {
                    assert(!cfg.allowed_chars@.contains(self.word@[wi as int]));
                    assert(m@ =~= "Char ("@ + seq![self.word@[wi as int]]
                        + ") is not allowed to be sent to this api! Please try again."@);
                    assert(char_error_witness(*cfg, self.word@, m@));
                }
                return Err(m);
            }
            wi = wi + 1;
        }

        Ok(())
    }
}

} // verus!
