//! Matching the text that OCR read off the screen against the catalogue.
use vstd::prelude::*;

use crate::catalogue::records;
use crate::search::{fold_names, folded_names};
use crate::text::{
    chars_of, contains_chars, contains_seq, lower_of, lowercase, same_text, texts, trim, trimmed,
    utf8_string,
};
use crate::weapons::Weapon;

verus! {

/// Why one scan found no record.
#[derive(Clone, Debug, PartialEq, Eq)]
pub enum ScanError {
    /// The screen capture could not be started.
    CaptureUnavailable,
    /// The OCR process could not be started, or its output not taken.
    OcrUnavailable,
    /// The OCR output is not valid UTF-8.
    DecodeFailed,
    /// The OCR output is empty.
    NoTextFound,
    /// No record name holds the text that was read.
    NoRecordMatched { raw_text: String },
}

/// How a scanned text has to agree with a record name.
#[derive(Clone, Copy, Debug, PartialEq, Eq, Structural)]
pub enum MatchRule {
    /// The name holds the text.
    Contains,
    /// The name is the text.
    Exact,
}

/// Whether a case-folded name agrees with the normalised text `needle`.
pub open spec fn scan_hit(folded_name: Seq<char>, needle: Seq<char>, rule: MatchRule) -> bool {
    match rule {
        MatchRule::Contains => contains_seq(trimmed(folded_name), needle),
        MatchRule::Exact => trimmed(folded_name) == needle,
    }
}

/// The first of the first `n` names that agrees with `needle`.
pub open spec fn first_scan_hit(names: Seq<Seq<char>>, needle: Seq<char>, rule: MatchRule, n: int) -> Option<
    usize,
>
    decreases n,
{
    if n <= 0 {
        None
    } else {
        match first_scan_hit(names, needle, rule, n - 1) {
            Some(i) => Some(i),
            None => if scan_hit(names[n - 1], needle, rule) {
                Some((n - 1) as usize)
            } else {
                None
            },
        }
    }
}

/// The text that a scan compares: case-folded, then trimmed.
pub open spec fn normalised(text: Seq<char>) -> Seq<char> {
    trimmed(lower_of(text))
}

/// The record that OCR text `text` names, by the rule `rule`.
pub open spec fn scan_result(
    names: Seq<Seq<char>>,
    text: Seq<char>,
    rule: MatchRule,
) -> Option<usize> {
    first_scan_hit(names, normalised(text), rule, names.len() as int)
}

proof fn lemma_scan_hit_stays(names: Seq<Seq<char>>, needle: Seq<char>, rule: MatchRule, n: int, m: int)
    requires
        0 < n <= m,
        first_scan_hit(names, needle, rule, n) is Some,
    ensures
        first_scan_hit(names, needle, rule, m) == first_scan_hit(names, needle, rule, n),
    decreases m - n,
{
    if m > n {
        lemma_scan_hit_stays(names, needle, rule, n, m - 1);
    }
}

/// The index of the first case-folded name in `folded` that agrees with the
/// normalised text `needle`.
pub fn pick_record(folded: &Vec<String>, needle: &str, rule: MatchRule) -> (r: Option<usize>)
    ensures
        r == first_scan_hit(texts(folded@), needle@, rule, folded@.len() as int),
{
    let ghost names = texts(folded@);
    let wanted = chars_of(needle);
    let mut i: usize = 0;
    while i < folded.len()
        invariant
            names == texts(folded@),
            wanted@ == needle@,
            i <= folded@.len(),
            first_scan_hit(names, needle@, rule, i as int) is None,
        decreases folded@.len() - i,
    {
        let name = trim(folded[i].as_str());
        let hit = match rule {
            MatchRule::Contains => contains_chars(&chars_of(name.as_str()), &wanted),
            MatchRule::Exact => same_text(name.as_str(), needle),
        };
        if hit {
            proof {
                lemma_scan_hit_stays(names, needle@, rule, i + 1, folded@.len() as int);
            }
            return Some(i);
        }
        i = i + 1;
    }
    None
}

/// The record that the OCR text `text` names: the first whose case-folded,
/// trimmed name agrees (by `rule`) with the case-folded, trimmed text.
pub fn match_scan_text(text: &str, catalogue: &Vec<Weapon>, rule: MatchRule) -> (r: Result<
    usize,
    ScanError,
>)
    ensures
        text@.len() == 0 ==> r == Err::<usize, ScanError>(ScanError::NoTextFound),
        text@.len() != 0 ==> match scan_result(folded_names(records(catalogue@)), text@, rule) {
            Some(i) => r == Ok::<usize, ScanError>(i),
            None => r matches Err(ScanError::NoRecordMatched { raw_text }) && raw_text@ == text@,
        },
        r matches Ok(i) ==> i < catalogue@.len(),
{
    if text.unicode_len() == 0 {
        return Err(ScanError::NoTextFound);
    }
    let needle = trim(lowercase(text).as_str());
    let folded = fold_names(catalogue);
    match pick_record(&folded, needle.as_str(), rule) {
        Some(i) => {
            proof {
                lemma_scan_hit_bound(texts(folded@), needle@, rule, folded@.len() as int);
            }
            Ok(i)
        },
        None => Err(ScanError::NoRecordMatched { raw_text: String::from_str(text) }),
    }
}

proof fn lemma_scan_hit_bound(names: Seq<Seq<char>>, needle: Seq<char>, rule: MatchRule, n: int)
    ensures
        first_scan_hit(names, needle, rule, n) matches Some(i) ==> i < n,
    decreases n,
{
    if n > 0 {
        lemma_scan_hit_bound(names, needle, rule, n - 1);
    }
}

/// The record that the raw OCR output `output` names.
pub fn match_scan_output(output: Vec<u8>, catalogue: &Vec<Weapon>, rule: MatchRule) -> (r: Result<
    usize,
    ScanError,
>)
    ensures
        !vstd::utf8::valid_utf8(output@) ==> r == Err::<usize, ScanError>(ScanError::DecodeFailed),
        vstd::utf8::valid_utf8(output@) ==> {
            let text = vstd::utf8::decode_utf8(output@);
            &&& text.len() == 0 ==> r == Err::<usize, ScanError>(ScanError::NoTextFound)
            &&& text.len() != 0 ==> match scan_result(
                folded_names(records(catalogue@)),
                text,
                rule,
            ) {
                Some(i) => r == Ok::<usize, ScanError>(i),
                None => r matches Err(ScanError::NoRecordMatched { raw_text }) && raw_text@ == text,
            }
        },
        r matches Ok(i) ==> i < catalogue@.len(),
{
    match utf8_string(output) {
        None => Err(ScanError::DecodeFailed),
        Some(text) => match_scan_text(text.as_str(), catalogue, rule),
    }
}

/// The line that the details panel shows for a scan error.
pub open spec fn scan_message(e: ScanError) -> Seq<char> {
            match e {
                ScanError::CaptureUnavailable => "Failed to start the screen capture"@,
                ScanError::OcrUnavailable => "Failed to read text from the capture"@,
                ScanError::DecodeFailed => "Failed to decode the scanned text"@,
                ScanError::NoTextFound => "Scanned nothing"@,
                ScanError::NoRecordMatched { raw_text } => "Could not find matching item\n Scanned: "@
                    + raw_text@,
            }
}

impl ScanError {
    /// The line that the details panel shows for this error.
    pub fn message(&self) -> (r: String)
        ensures
            r@ == scan_message(*self),
    {
        match self {
            ScanError::CaptureUnavailable => String::from_str("Failed to start the screen capture"),
            ScanError::OcrUnavailable => String::from_str("Failed to read text from the capture"),
            ScanError::DecodeFailed => String::from_str("Failed to decode the scanned text"),
            ScanError::NoTextFound => String::from_str("Scanned nothing"),
            ScanError::NoRecordMatched { raw_text } => {
                let mut m = String::from_str("Could not find matching item\n Scanned: ");
                m.append(raw_text.as_str());
                m
            },
        }
    }
}

} // verus!
