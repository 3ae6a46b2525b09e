//! Quantization pattern analysis and file intelligence.
//!
//! Every file name is examined in upper case. GGUF names are matched against the
//! six separator patterns `-Q…​.GGUF`, `.Q….GGUF`, `_Q….GGUF` (at the end of the name)
//! and `-Q…-`, `.Q….`, `_Q…_` (anywhere), tried in that order; each takes the
//! leftmost position where it matches and, at that position, the longest run of
//! `[0-9_A-Z]` that the pattern allows. The quantization starts with `Q` or `F`.

use vstd::prelude::*;
use crate::text::{
    has_suffix, has_substring, ends_with, contains_str, str_equal, push_char,
};

verus! {

// ---------------------------------------------------------------------------
// Upper-casing (std)

/// The result of `str::to_uppercase` on a string.
pub uninterp spec fn uppercase(s: Seq<char>) -> Seq<char>;

/// ASCII upper case of one character.
pub open spec fn ascii_upper(c: char) -> char {
    if 97 <= (c as u32) && (c as u32) <= 122 {
        ((c as u32) - 32) as char
    } else {
        c
    }
}

/// Every character of `s` is ASCII.
pub open spec fn all_ascii(s: Seq<char>) -> bool {
    forall|i: int| 0 <= i < s.len() ==> (s[i] as u32) < 128
}

/// Every character of `s` is ASCII and none is a lower-case letter.
pub open spec fn upper_ascii(s: Seq<char>) -> bool {
    forall|i: int| 0 <= i < s.len() ==> (s[i] as u32) < 97 || (122 < (s[i] as u32) && (s[i] as u32) < 128)
}

/// A name as normalization leaves it: upper-case ASCII, and neither "FP16" nor
/// "FP32".
pub open spec fn normal_form(s: Seq<char>) -> bool {
    &&& upper_ascii(s)
    &&& s != seq!['F', 'P', '1', '6']
    &&& s != seq!['F', 'P', '3', '2']
}

/// Calls `str::to_uppercase`: the Unicode upper case of `s`, named `uppercase`.
/// For a string made only of ASCII characters the documented result is the
/// character-wise ASCII upper case; nothing more is claimed of other strings.
#[verifier::external_body]
pub(crate) fn to_uppercase(s: &str) -> (r: String)
    ensures
        r@ == uppercase(s@),
        all_ascii(s@) ==> r@ == s@.map_values(|c: char| ascii_upper(c)),
{
    s.to_uppercase()
}

// ---------------------------------------------------------------------------
// Data types

/// File information for quantization analysis.
#[derive(Debug, Clone)]
pub struct FileAnalysisInfo {
    /// File path or URL
    pub path: String,
    /// File size in bytes
    pub size: u64,
    /// Optional XET hash (indicates XET availability)
    pub xet_hash: Option<String>,
}

/// Results of quantization analysis on a set of files.
#[derive(Debug, Clone)]
pub struct QuantizationAnalysis {
    /// All available quantizations found, sorted alphabetically
    pub available_quantizations: Vec<String>,
    /// Total number of quantized model files (excludes config files)
    pub total_quantized_files: usize,
    /// Count of files per quantization, sorted by quantization
    pub quantization_file_counts: Vec<(String, usize)>,
    /// Files with XET hashes available
    pub xet_available_files: usize,
    /// Files that require QUIC protocol
    pub quic_only_files: usize,
}

/// Quantization pattern analyzer.
#[derive(Debug, Clone, Copy)]
pub struct QuantizationAnalyzer;

// ---------------------------------------------------------------------------
// Specifications of the file classification

/// A character of the quantization body class `[0-9_A-Z]`.
pub open spec fn is_quant_class(c: char) -> bool {
    (48 <= (c as u32) && (c as u32) <= 57) || c == '_' || (65 <= (c as u32) && (c as u32) <= 90)
}

/// A quantization starts with `Q` or `F`.
pub open spec fn is_q_or_f(c: char) -> bool {
    c == 'Q' || c == 'F'
}

/// The upper-case GGUF extension `.GGUF`.
pub open spec fn gguf_tail() -> Seq<char> {
    seq!['.', 'G', 'G', 'U', 'F']
}

/// Pattern `{sep}([QF][0-9_A-Z]+)\.GGUF$` matches at position `i` of `u`.
pub open spec fn anchored_match_at(u: Seq<char>, sep: char, i: int) -> bool {
    &&& has_suffix(u, gguf_tail())
    &&& 0 <= i
    &&& i + 3 <= u.len() - 5
    &&& u[i] == sep
    &&& is_q_or_f(u[i + 1])
    &&& forall|j: int| i + 2 <= j < u.len() - 5 ==> is_quant_class(u[j])
}

/// The leftmost position at or after `from` where the end-anchored pattern matches.
pub open spec fn first_anchored_from(u: Seq<char>, sep: char, from: int) -> Option<int>
    decreases u.len() - from,
{
    if from < 0 || from >= u.len() {
        None
    } else if anchored_match_at(u, sep, from) {
        Some(from)
    } else {
        first_anchored_from(u, sep, from + 1)
    }
}

/// The capture of the end-anchored pattern: from the `Q`/`F` up to `.GGUF`.
pub open spec fn anchored_capture(u: Seq<char>, sep: char) -> Option<Seq<char>> {
    match first_anchored_from(u, sep, 0) {
        Some(i) => Some(u.subrange(i + 1, u.len() - 5)),
        None => None,
    }
}

/// The end of the run of `[0-9_A-Z]` characters starting at `from`.
pub open spec fn class_run_end(u: Seq<char>, from: int) -> int
    decreases u.len() - from,
{
    if from < 0 || from >= u.len() {
        from
    } else if is_quant_class(u[from]) {
        class_run_end(u, from + 1)
    } else {
        from
    }
}

/// The last position `k` in `lo..=hi` with `u[k] == sep`.
pub open spec fn last_sep_in(u: Seq<char>, sep: char, lo: int, hi: int) -> Option<int>
    decreases hi - lo + 1,
{
    if hi < lo || hi < 0 || hi >= u.len() {
        None
    } else if u[hi] == sep {
        Some(hi)
    } else {
        last_sep_in(u, sep, lo, hi - 1)
    }
}

/// Where the embedded pattern `{sep}([QF][0-9_A-Z]+){sep}` starting at `i` closes:
/// the greedy (last possible) closing separator.
pub open spec fn embedded_close_at(u: Seq<char>, sep: char, i: int) -> Option<int> {
    if 0 <= i && i + 2 < u.len() && u[i] == sep && is_q_or_f(u[i + 1]) {
        let e = class_run_end(u, i + 2);
        let hi = if e < u.len() { e } else { u.len() - 1 };
        last_sep_in(u, sep, i + 3, hi)
    } else {
        None
    }
}

/// The leftmost position at or after `from` where the embedded pattern matches,
/// with its closing separator.
pub open spec fn first_embedded_from(u: Seq<char>, sep: char, from: int) -> Option<(int, int)>
    decreases u.len() - from,
{
    if from < 0 || from >= u.len() {
        None
    } else {
        match embedded_close_at(u, sep, from) {
            Some(k) => Some((from, k)),
            None => first_embedded_from(u, sep, from + 1),
        }
    }
}

/// The capture of the embedded pattern: between the separators.
pub open spec fn embedded_capture(u: Seq<char>, sep: char) -> Option<Seq<char>> {
    match first_embedded_from(u, sep, 0) {
        Some(m) => Some(u.subrange(m.0 + 1, m.1)),
        None => None,
    }
}

/// Position `j` of `u` holds a quantization-class character.
pub open spec fn class_at(u: Seq<char>, j: int) -> bool {
    0 <= j < u.len() && is_quant_class(u[j])
}

proof fn lemma_class_run(u: Seq<char>, from: int)
    requires
        0 <= from,
    ensures
        class_run_end(u, from) >= from,
        forall|j: int| from <= j < class_run_end(u, from) ==> #[trigger] class_at(u, j),
    decreases u.len() - from,
{
    if from < u.len() && is_quant_class(u[from]) {
        lemma_class_run(u, from + 1);
        assert(class_at(u, from));
    }
}

proof fn lemma_first_embedded(u: Seq<char>, sep: char, from: int)
    ensures
        first_embedded_from(u, sep, from) matches Some(m) ==> embedded_close_at(u, sep, m.0) == Some(m.1),
    decreases u.len() - from,
{
    if !(from < 0 || from >= u.len()) && embedded_close_at(u, sep, from) is None {
        lemma_first_embedded(u, sep, from + 1);
    }
}

/// Quantization characters are ASCII.
proof fn lemma_class_ascii(c: char)
    requires
        is_quant_class(c) || is_q_or_f(c),
    ensures
        (c as u32) < 128,
{
}

proof fn lemma_anchored_capture_ascii(u: Seq<char>, sep: char)
    ensures
        anchored_capture(u, sep) matches Some(c) ==> all_ascii(c),
{
    lemma_first_anchored(u, sep, 0);
    if let Some(i) = first_anchored_from(u, sep, 0) {
        let c = u.subrange(i + 1, u.len() - 5);
        assert forall|k: int| 0 <= k < c.len() implies (c[k] as u32) < 128 by {
            assert(c[k] == u[i + 1 + k]);
            if k == 0 {
                lemma_class_ascii(u[i + 1]);
            } else {
                assert(is_quant_class(u[i + 1 + k]));
                lemma_class_ascii(u[i + 1 + k]);
            }
        }
    }
}

proof fn lemma_embedded_capture_ascii(u: Seq<char>, sep: char)
    ensures
        embedded_capture(u, sep) matches Some(c) ==> all_ascii(c),
{
    lemma_first_embedded(u, sep, 0);
    if let Some(m) = first_embedded_from(u, sep, 0) {
        let i = m.0;
        let k = m.1;
        assert(0 <= i && i + 2 < u.len() && u[i] == sep && is_q_or_f(u[i + 1]));
        let e = class_run_end(u, i + 2);
        let hi = if e < u.len() { e } else { u.len() - 1 };
        lemma_last_sep_range(u, sep, i + 3, hi);
        lemma_class_run(u, i + 2);
        let c = u.subrange(i + 1, k);
        assert forall|j: int| 0 <= j < c.len() implies (c[j] as u32) < 128 by {
            assert(c[j] == u[i + 1 + j]);
            if j == 0 {
                lemma_class_ascii(u[i + 1]);
            } else {
                assert(i + 1 + j < e);
                assert(class_at(u, i + 1 + j));
                lemma_class_ascii(u[i + 1 + j]);
            }
        }
    }
}

/// The text the GGUF patterns capture is ASCII.
proof fn lemma_gguf_capture_ascii(u: Seq<char>)
    ensures
        gguf_capture(u) matches Some(c) ==> all_ascii(c),
{
    lemma_anchored_capture_ascii(u, '-');
    lemma_anchored_capture_ascii(u, '.');
    lemma_anchored_capture_ascii(u, '_');
    lemma_embedded_capture_ascii(u, '-');
    lemma_embedded_capture_ascii(u, '.');
    lemma_embedded_capture_ascii(u, '_');
}

/// The quantization text that the six GGUF patterns find in an upper-case name.
pub open spec fn gguf_capture(u: Seq<char>) -> Option<Seq<char>> {
    if anchored_capture(u, '-') is Some {
        anchored_capture(u, '-')
    } else if anchored_capture(u, '.') is Some {
        anchored_capture(u, '.')
    } else if anchored_capture(u, '_') is Some {
        anchored_capture(u, '_')
    } else if embedded_capture(u, '-') is Some {
        embedded_capture(u, '-')
    } else if embedded_capture(u, '.') is Some {
        embedded_capture(u, '.')
    } else {
        embedded_capture(u, '_')
    }
}

/// Normalized quantization name: upper case, with FP16 read as F16 and FP32 as F32.
pub open spec fn normalized(q: Seq<char>) -> Seq<char> {
    let u = uppercase(q);
    if u == seq!['F', 'P', '1', '6'] {
        seq!['F', '1', '6']
    } else if u == seq!['F', 'P', '3', '2'] {
        seq!['F', '3', '2']
    } else {
        u
    }
}

} // verus!

verus! {

/// The quantization named by a `.bin` or `.safetensors` file: the first indicator,
/// in the fixed order Q2_K, Q3_K_S, Q3_K_M, Q3_K_L, Q4_0, Q4_1, Q4_K_S, Q4_K_M, Q5_0,
/// Q5_1, Q5_K_S, Q5_K_M, Q6_K, Q8_0, F16, FP16, F32, FP32, that occurs in the
/// upper-case name, normalized.
pub open spec fn model_file_quantization(u: Seq<char>) -> Option<Seq<char>> {
    if has_substring(u, "Q2_K"@) { Some(normalized("Q2_K"@)) }
    else if has_substring(u, "Q3_K_S"@) { Some(normalized("Q3_K_S"@)) }
    else if has_substring(u, "Q3_K_M"@) { Some(normalized("Q3_K_M"@)) }
    else if has_substring(u, "Q3_K_L"@) { Some(normalized("Q3_K_L"@)) }
    else if has_substring(u, "Q4_0"@) { Some(normalized("Q4_0"@)) }
    else if has_substring(u, "Q4_1"@) { Some(normalized("Q4_1"@)) }
    else if has_substring(u, "Q4_K_S"@) { Some(normalized("Q4_K_S"@)) }
    else if has_substring(u, "Q4_K_M"@) { Some(normalized("Q4_K_M"@)) }
    else if has_substring(u, "Q5_0"@) { Some(normalized("Q5_0"@)) }
    else if has_substring(u, "Q5_1"@) { Some(normalized("Q5_1"@)) }
    else if has_substring(u, "Q5_K_S"@) { Some(normalized("Q5_K_S"@)) }
    else if has_substring(u, "Q5_K_M"@) { Some(normalized("Q5_K_M"@)) }
    else if has_substring(u, "Q6_K"@) { Some(normalized("Q6_K"@)) }
    else if has_substring(u, "Q8_0"@) { Some(normalized("Q8_0"@)) }
    else if has_substring(u, "F16"@) { Some(normalized("F16"@)) }
    else if has_substring(u, "FP16"@) { Some(normalized("FP16"@)) }
    else if has_substring(u, "F32"@) { Some(normalized("F32"@)) }
    else if has_substring(u, "FP32"@) { Some(normalized("FP32"@)) }
    else { None }
}

/// The quantization found in a GGUF name, normalized.
pub open spec fn gguf_quantization(path: Seq<char>) -> Option<Seq<char>> {
    match gguf_capture(uppercase(path)) {
        Some(g) => Some(normalized(g)),
        None => None,
    }
}

/// The quantization a file path names: GGUF files by the separator patterns,
/// `.bin`/`.safetensors` files by the indicator list, other files none.
pub open spec fn quantization_of(path: Seq<char>) -> Option<Seq<char>> {
    if has_suffix(path, ".gguf"@) {
        gguf_quantization(path)
    } else if has_suffix(path, ".bin"@) || has_suffix(path, ".safetensors"@) {
        model_file_quantization(uppercase(path))
    } else {
        None
    }
}

/// A configuration, tokenizer or documentation file that takes no part in
/// quantization analysis: one of the extensions .json .txt .md .py .yaml .yml .cfg
/// .ini, or one of the listed file names.
pub open spec fn is_non_model_name(name: Seq<char>) -> bool {
    ||| has_suffix(name, ".json"@)
    ||| has_suffix(name, ".txt"@)
    ||| has_suffix(name, ".md"@)
    ||| has_suffix(name, ".py"@)
    ||| has_suffix(name, ".yaml"@)
    ||| has_suffix(name, ".yml"@)
    ||| has_suffix(name, ".cfg"@)
    ||| has_suffix(name, ".ini"@)
    ||| name == "config.json"@
    ||| name == "tokenizer.json"@
    ||| name == "tokenizer_config.json"@
    ||| name == "vocab.json"@
    ||| name == "merges.txt"@
    ||| name == "special_tokens_map.json"@
    ||| name == "added_tokens.json"@
    ||| name == "generation_config.json"@
    ||| name == "README.md"@
    ||| name == "model_index.json"@
    ||| name == "scheduler_config.json"@
    ||| name == "tokenizer.model"@
}

// ---------------------------------------------------------------------------
// Pattern matching over the upper-case name

fn is_quant_class_char(c: char) -> (b: bool)
    ensures
        b == is_quant_class(c),
{
    let v = c as u32;
    (48 <= v && v <= 57) || c == '_' || (65 <= v && v <= 90)
}

fn has_gguf_tail(u: &str, len: usize) -> (b: bool)
    requires
        len == u@.len(),
    ensures
        b == has_suffix(u@, gguf_tail()),
{
    if len < 5 {
        return false;
    }
    let b = u.get_char(len - 5) == '.' && u.get_char(len - 4) == 'G' && u.get_char(len - 3) == 'G'
        && u.get_char(len - 2) == 'U' && u.get_char(len - 1) == 'F';
    proof {
        let t = u@.subrange(len - 5, len as int);
        if b {
            assert(t =~= gguf_tail());
        } else {
            if t == gguf_tail() {
                assert(t[0] == u@[len - 5]);
                assert(t[1] == u@[len - 4]);
                assert(t[2] == u@[len - 3]);
                assert(t[3] == u@[len - 2]);
                assert(t[4] == u@[len - 1]);
            }
        }
    }
    b
}

fn anchored_at(u: &str, len: usize, sep: char, i: usize) -> (b: bool)
    requires
        len == u@.len(),
        has_suffix(u@, gguf_tail()),
    ensures
        b == anchored_match_at(u@, sep, i as int),
{
    if len < 8 || i > len - 8 {
        return false;
    }
    if u.get_char(i) != sep {
        return false;
    }
    let c = u.get_char(i + 1);
    if !(c == 'Q' || c == 'F') {
        return false;
    }
    let mut j: usize = i + 2;
    while j < len - 5
        invariant
            len == u@.len(),
            len >= 5,
            i + 2 <= j <= len - 5,
            forall|k: int| i + 2 <= k < j ==> is_quant_class(u@[k]),
        decreases len - 5 - j,
    {
        if !is_quant_class_char(u.get_char(j)) {
            return false;
        }
        j = j + 1;
    }
    true
}

fn find_anchored(u: &str, len: usize, sep: char) -> (r: Option<usize>)
    requires
        len == u@.len(),
    ensures
        r matches Some(i) ==> first_anchored_from(u@, sep, 0) == Some(i as int),
        r is None ==> first_anchored_from(u@, sep, 0) is None,
{
    let tail = has_gguf_tail(u, len);
    let mut i: usize = 0;
    while i < len
        invariant
            len == u@.len(),
            i <= len,
            tail == has_suffix(u@, gguf_tail()),
            first_anchored_from(u@, sep, 0) == first_anchored_from(u@, sep, i as int),
        decreases len - i,
    {
        let hit = if tail { anchored_at(u, len, sep, i) } else { false };
        if hit {
            return Some(i);
        }
        i = i + 1;
    }
    None
}

fn capture_anchored(u: &str, len: usize, sep: char) -> (r: Option<String>)
    requires
        len == u@.len(),
    ensures
        r matches Some(g) ==> anchored_capture(u@, sep) == Some(g@),
        r is None ==> anchored_capture(u@, sep) is None,
{
    match find_anchored(u, len, sep) {
        Some(i) => {
            proof {
                lemma_first_anchored(u@, sep, 0);
            }
            let g = u.substring_char(i + 1, len - 5);
            Some(String::from_str(g))
        },
        None => None,
    }
}

fn run_end(u: &str, len: usize, from: usize) -> (e: usize)
    requires
        len == u@.len(),
        from <= len,
    ensures
        e as int == class_run_end(u@, from as int),
        from <= e <= len,
{
    let mut j = from;
    while j < len && is_quant_class_char(u.get_char(j))
        invariant
            len == u@.len(),
            from <= j <= len,
            class_run_end(u@, from as int) == class_run_end(u@, j as int),
        decreases len - j,
    {
        j = j + 1;
    }
    j
}

fn last_sep(u: &str, len: usize, sep: char, lo: usize, hi: usize) -> (r: Option<usize>)
    requires
        len == u@.len(),
        hi < len,
    ensures
        r matches Some(k) ==> last_sep_in(u@, sep, lo as int, hi as int) == Some(k as int),
        r is None ==> last_sep_in(u@, sep, lo as int, hi as int) is None,
{
    if hi < lo {
        return None;
    }
    let mut k = hi;
    loop
        invariant
            len == u@.len(),
            lo <= k <= hi < len,
            last_sep_in(u@, sep, lo as int, hi as int) == last_sep_in(u@, sep, lo as int, k as int),
        decreases k,
    {
        if u.get_char(k) == sep {
            return Some(k);
        }
        if k == lo {
            assert(last_sep_in(u@, sep, lo as int, k - 1) is None);
            return None;
        }
        k = k - 1;
    }
}

fn embedded_close(u: &str, len: usize, sep: char, i: usize) -> (r: Option<usize>)
    requires
        len == u@.len(),
        i < len,
    ensures
        r matches Some(k) ==> embedded_close_at(u@, sep, i as int) == Some(k as int),
        r is None ==> embedded_close_at(u@, sep, i as int) is None,
{
    if len - i <= 2 {
        return None;
    }
    if u.get_char(i) != sep {
        return None;
    }
    let c = u.get_char(i + 1);
    if !(c == 'Q' || c == 'F') {
        return None;
    }
    let e = run_end(u, len, i + 2);
    let hi = if e < len { e } else { len - 1 };
    last_sep(u, len, sep, i + 3, hi)
}

fn capture_embedded(u: &str, len: usize, sep: char) -> (r: Option<String>)
    requires
        len == u@.len(),
    ensures
        r matches Some(g) ==> embedded_capture(u@, sep) == Some(g@),
        r is None ==> embedded_capture(u@, sep) is None,
{
    let mut i: usize = 0;
    while i < len
        invariant
            len == u@.len(),
            i <= len,
            first_embedded_from(u@, sep, 0) == first_embedded_from(u@, sep, i as int),
        decreases len - i,
    {
        match embedded_close(u, len, sep, i) {
            Some(k) => {
                proof {
                    let m = embedded_close_at(u@, sep, i as int);
                    assert(m == Some(k as int));
                    if 0 <= i && i + 2 < u@.len() && u@[i as int] == sep && is_q_or_f(u@[i + 1]) {
                        let ee = class_run_end(u@, i + 2);
                        let hh = if ee < u@.len() { ee } else { u@.len() - 1 };
                        lemma_last_sep_range(u@, sep, i + 3, hh);
                    }
                }
                let g = u.substring_char(i + 1, k);
                return Some(String::from_str(g));
            },
            None => {},
        }
        i = i + 1;
    }
    None
}

/// A match found by `first_anchored_from` is a match.
proof fn lemma_first_anchored(u: Seq<char>, sep: char, from: int)
    ensures
        first_anchored_from(u, sep, from) matches Some(i) ==> anchored_match_at(u, sep, i),
    decreases u.len() - from,
{
    if !(from < 0 || from >= u.len()) && !anchored_match_at(u, sep, from) {
        lemma_first_anchored(u, sep, from + 1);
    }
}

/// A separator found by `last_sep_in` lies within the searched range.
proof fn lemma_last_sep_range(u: Seq<char>, sep: char, lo: int, hi: int)
    ensures
        last_sep_in(u, sep, lo, hi) matches Some(k) ==> lo <= k <= hi && 0 <= k < u.len(),
    decreases hi - lo + 1,
{
    if !(hi < lo || hi < 0 || hi >= u.len()) && u[hi] != sep {
        lemma_last_sep_range(u, sep, lo, hi - 1);
    }
}

} // verus!

verus! {

impl QuantizationAnalyzer {
    /// Create a new quantization analyzer.
    pub fn new() -> (a: Self)
        ensures
            a == QuantizationAnalyzer,
    {
        QuantizationAnalyzer
    }

    /// Normalize a quantization name: upper case, FP16 -> F16, FP32 -> F32.
    pub fn normalize_quantization(&self, quantization: &str) -> (r: String)
        ensures
            r@ == normalized(quantization@),
            all_ascii(quantization@) ==> normal_form(r@),
            normal_form(quantization@) ==> r@ == quantization@,
    {
        let upper = to_uppercase(quantization);
        proof {
            if all_ascii(quantization@) {
                assert(upper_ascii(upper@));
            }
            if upper_ascii(quantization@) {
                assert(upper@ =~= quantization@);
            }
        }
        let is_fp16 = str_equal(upper.as_str(), "FP16");
        let is_fp32 = str_equal(upper.as_str(), "FP32");
        proof {
            reveal_strlit("FP16");
            reveal_strlit("FP32");
            reveal_strlit("F16");
            reveal_strlit("F32");
            assert("FP16"@ =~= seq!['F', 'P', '1', '6']);
            assert("FP32"@ =~= seq!['F', 'P', '3', '2']);
            assert("F16"@ =~= seq!['F', '1', '6']);
            assert("F32"@ =~= seq!['F', '3', '2']);
        }
        if is_fp16 {
            String::from_str("F16")
        } else if is_fp32 {
            String::from_str("F32")
        } else {
            upper
        }
    }

    /// Extract the quantization from a GGUF file name by the separator patterns.
    pub fn extract_quantization_from_gguf(&self, filename: &str) -> (r: Option<String>)
        ensures
            r matches Some(q) ==> gguf_quantization(filename@) == Some(q@) && normal_form(q@),
            r is None ==> gguf_quantization(filename@) is None,
    {
        let upper = to_uppercase(filename);
        let u = upper.as_str();
        let len = u.unicode_len();
        let mut found = capture_anchored(u, len, '-');
        if found.is_none() {
            found = capture_anchored(u, len, '.');
        }
        if found.is_none() {
            found = capture_anchored(u, len, '_');
        }
        if found.is_none() {
            found = capture_embedded(u, len, '-');
        }
        if found.is_none() {
            found = capture_embedded(u, len, '.');
        }
        if found.is_none() {
            found = capture_embedded(u, len, '_');
        }
        proof {
            lemma_gguf_capture_ascii(u@);
        }
        match found {
            Some(g) => {
                assert(gguf_capture(u@) == Some(g@));
                Some(self.normalize_quantization(g.as_str()))
            },
            None => None,
        }
    }

    /// Extract the quantization from a `.bin`/`.safetensors` name: the first
    /// indicator of the fixed list that occurs in the upper-case name.
    pub fn extract_quantization_from_model_file(&self, filename: &str) -> (r: Option<String>)
        ensures
            r matches Some(q) ==> model_file_quantization(uppercase(filename@)) == Some(q@) && normal_form(q@),
            r is None ==> model_file_quantization(uppercase(filename@)) is None,
    {
        proof {
            reveal_strlit("Q2_K");
            reveal_strlit("Q3_K_S");
            reveal_strlit("Q3_K_M");
            reveal_strlit("Q3_K_L");
            reveal_strlit("Q4_0");
            reveal_strlit("Q4_1");
            reveal_strlit("Q4_K_S");
            reveal_strlit("Q4_K_M");
            reveal_strlit("Q5_0");
            reveal_strlit("Q5_1");
            reveal_strlit("Q5_K_S");
            reveal_strlit("Q5_K_M");
            reveal_strlit("Q6_K");
            reveal_strlit("Q8_0");
            reveal_strlit("F16");
            reveal_strlit("FP16");
            reveal_strlit("F32");
            reveal_strlit("FP32");
        }
        let upper = to_uppercase(filename);
        let u = upper.as_str();
        if contains_str(u, "Q2_K") { return Some(self.normalize_quantization("Q2_K")); }
        if contains_str(u, "Q3_K_S") { return Some(self.normalize_quantization("Q3_K_S")); }
        if contains_str(u, "Q3_K_M") { return Some(self.normalize_quantization("Q3_K_M")); }
        if contains_str(u, "Q3_K_L") { return Some(self.normalize_quantization("Q3_K_L")); }
        if contains_str(u, "Q4_0") { return Some(self.normalize_quantization("Q4_0")); }
        if contains_str(u, "Q4_1") { return Some(self.normalize_quantization("Q4_1")); }
        if contains_str(u, "Q4_K_S") { return Some(self.normalize_quantization("Q4_K_S")); }
        if contains_str(u, "Q4_K_M") { return Some(self.normalize_quantization("Q4_K_M")); }
        if contains_str(u, "Q5_0") { return Some(self.normalize_quantization("Q5_0")); }
        if contains_str(u, "Q5_1") { return Some(self.normalize_quantization("Q5_1")); }
        if contains_str(u, "Q5_K_S") { return Some(self.normalize_quantization("Q5_K_S")); }
        if contains_str(u, "Q5_K_M") { return Some(self.normalize_quantization("Q5_K_M")); }
        if contains_str(u, "Q6_K") { return Some(self.normalize_quantization("Q6_K")); }
        if contains_str(u, "Q8_0") { return Some(self.normalize_quantization("Q8_0")); }
        if contains_str(u, "F16") { return Some(self.normalize_quantization("F16")); }
        if contains_str(u, "FP16") { return Some(self.normalize_quantization("FP16")); }
        if contains_str(u, "F32") { return Some(self.normalize_quantization("F32")); }
        if contains_str(u, "FP32") { return Some(self.normalize_quantization("FP32")); }
        None
    }

    /// Extract the quantization named by a file path or URL: GGUF files by the
    /// separator patterns, `.bin`/`.safetensors` by the indicator list.
    pub fn extract_quantization(&self, path: &str) -> (r: Option<String>)
        ensures
            r matches Some(q) ==> quantization_of(path@) == Some(q@) && normal_form(q@),
            r is None ==> quantization_of(path@) is None,
    {
        if ends_with(path, ".gguf") {
            self.extract_quantization_from_gguf(path)
        } else if ends_with(path, ".bin") || ends_with(path, ".safetensors") {
            self.extract_quantization_from_model_file(path)
        } else {
            None
        }
    }

    /// Check whether a file is a non-model file excluded from quantization analysis.
    pub fn is_non_model_file(&self, filename: &str) -> (b: bool)
        ensures
            b == is_non_model_name(filename@),
    {
        ends_with(filename, ".json") || ends_with(filename, ".txt") || ends_with(filename, ".md")
            || ends_with(filename, ".py") || ends_with(filename, ".yaml")
            || ends_with(filename, ".yml") || ends_with(filename, ".cfg")
            || ends_with(filename, ".ini") || str_equal(filename, "config.json")
            || str_equal(filename, "tokenizer.json") || str_equal(filename, "tokenizer_config.json")
            || str_equal(filename, "vocab.json") || str_equal(filename, "merges.txt")
            || str_equal(filename, "special_tokens_map.json")
            || str_equal(filename, "added_tokens.json")
            || str_equal(filename, "generation_config.json") || str_equal(filename, "README.md")
            || str_equal(filename, "model_index.json")
            || str_equal(filename, "scheduler_config.json")
            || str_equal(filename, "tokenizer.model")
    }
}

} // verus!

verus! {

use crate::text::{lex_lt, lex_less, lemma_lex_irreflexive, lemma_lex_transitive, lemma_lex_total};

/// Number of files in `files` that satisfy `pred`.
pub open spec fn count_where(files: Seq<FileAnalysisInfo>, pred: spec_fn(FileAnalysisInfo) -> bool) -> nat
    decreases files.len(),
{
    if files.len() == 0 {
        0
    } else {
        count_where(files.drop_last(), pred) + if pred(files.last()) { 1nat } else { 0nat }
    }
}

/// A file that takes part in quantization analysis (not a config/tokenizer/doc file).
pub open spec fn is_model_entry(f: FileAnalysisInfo) -> bool {
    !is_non_model_name(f.path@)
}

/// Model files with an XET hash.
pub open spec fn xet_count(files: Seq<FileAnalysisInfo>) -> nat {
    count_where(files, |f: FileAnalysisInfo| is_model_entry(f) && f.xet_hash is Some)
}

/// Model files without an XET hash (QUIC only).
pub open spec fn quic_count(files: Seq<FileAnalysisInfo>) -> nat {
    count_where(files, |f: FileAnalysisInfo| is_model_entry(f) && f.xet_hash is None)
}

/// Model files that name some quantization.
pub open spec fn quantized_count(files: Seq<FileAnalysisInfo>) -> nat {
    count_where(files, |f: FileAnalysisInfo| is_model_entry(f) && quantization_of(f.path@) is Some)
}

/// Model files that name exactly the quantization `q`.
pub open spec fn quantization_count(files: Seq<FileAnalysisInfo>, q: Seq<char>) -> nat {
    count_where(files, |f: FileAnalysisInfo| is_model_entry(f) && quantization_of(f.path@) == Some(q))
}

/// Model files whose quantization normalizes to the same name as `q`.
pub open spec fn matching_count(files: Seq<FileAnalysisInfo>, q: Seq<char>) -> nat {
    count_where(
        files,
        |f: FileAnalysisInfo|
            is_model_entry(f) && (match quantization_of(f.path@) {
                Some(fq) => normalized(fq) == normalized(q),
                None => false,
            }),
    )
}

/// A count never exceeds the number of files.
pub proof fn lemma_count_bound(files: Seq<FileAnalysisInfo>, pred: spec_fn(FileAnalysisInfo) -> bool)
    ensures
        count_where(files, pred) <= files.len(),
    decreases files.len(),
{
    if files.len() > 0 {
        lemma_count_bound(files.drop_last(), pred);
    }
}

/// Counting over one more file.
pub proof fn lemma_count_step(files: Seq<FileAnalysisInfo>, i: int, pred: spec_fn(FileAnalysisInfo) -> bool)
    requires
        0 <= i < files.len(),
    ensures
        count_where(files.take(i + 1), pred) == count_where(files.take(i), pred)
            + if pred(files[i]) { 1nat } else { 0nat },
{
    assert(files.take(i + 1).drop_last() =~= files.take(i));
    assert(files.take(i + 1).last() == files[i]);
}

/// The quantization table invariant: keys strictly sorted, each with its positive
/// count in `files`, and every quantization that occurs has a key.
pub open spec fn tally_inv(t: Seq<(String, usize)>, files: Seq<FileAnalysisInfo>) -> bool {
    &&& forall|i: int, j: int| 0 <= i < j < t.len() ==> lex_lt(t[i].0@, t[j].0@)
    &&& forall|i: int| 0 <= i < t.len() ==> t[i].1 == quantization_count(files, t[i].0@)
    &&& forall|i: int| 0 <= i < t.len() ==> t[i].1 > 0
    &&& forall|k: Seq<char>| quantization_count(files, k) > 0 ==> exists|i: int|
        0 <= i < t.len() && t[i].0@ == k
}

/// The count that the table `t` lists for the quantization `k`, or 0 where `k`
/// is not listed.
pub open spec fn table_count(t: Seq<(String, usize)>, k: Seq<char>) -> nat {
    if exists|i: int| 0 <= i < t.len() && t[i].0@ == k {
        t[choose|i: int| 0 <= i < t.len() && t[i].0@ == k].1 as nat
    } else {
        0
    }
}

/// A table that keeps the tally invariant lists, for every quantization, the
/// number of model files that name it.
pub proof fn lemma_table_count(t: Seq<(String, usize)>, files: Seq<FileAnalysisInfo>, k: Seq<char>)
    requires
        tally_inv(t, files),
    ensures
        table_count(t, k) == quantization_count(files, k),
{
    if exists|i: int| 0 <= i < t.len() && t[i].0@ == k {
        let i = choose|i: int| 0 <= i < t.len() && t[i].0@ == k;
        assert(t[i].1 == quantization_count(files, t[i].0@));
    } else if quantization_count(files, k) > 0 {
        let i = choose|i: int| 0 <= i < t.len() && t[i].0@ == k;
        assert(0 <= i < t.len() && t[i].0@ == k);
    }
}

/// `a` is the analysis of `files`: the counters, and the quantizations that occur
/// sorted alphabetically, each with the number of model files that name it.
pub open spec fn is_analysis_of(a: QuantizationAnalysis, files: Seq<FileAnalysisInfo>) -> bool {
    &&& a.total_quantized_files == quantized_count(files)
    &&& a.xet_available_files == xet_count(files)
    &&& a.quic_only_files == quic_count(files)
    &&& a.available_quantizations@.len() == a.quantization_file_counts@.len()
    &&& forall|i: int| 0 <= i < a.available_quantizations@.len()
        ==> a.available_quantizations@[i]@ == a.quantization_file_counts@[i].0@
    &&& tally_inv(a.quantization_file_counts@, files)
}

fn record_quantization(
    table: &mut Vec<(String, usize)>,
    q: String,
    Ghost(before): Ghost<Seq<FileAnalysisInfo>>,
    Ghost(after): Ghost<Seq<FileAnalysisInfo>>,
)
    requires
        tally_inv(old(table)@, before),
        forall|k: Seq<char>| #[trigger] quantization_count(after, k) == quantization_count(before, k)
            + if k == q@ { 1nat } else { 0nat },
        quantization_count(after, q@) <= usize::MAX,
    ensures
        tally_inv(final(table)@, after),
{
    let ghost old_t = table@;
    let mut p: usize = 0;
    while p < table.len() && lex_less(table[p].0.as_str(), q.as_str())
        invariant
            table@ == old_t,
            p <= table@.len(),
            forall|i: int| 0 <= i < p ==> lex_lt(#[trigger] table@[i].0@, q@),
        decreases table@.len() - p,
    {
        p = p + 1;
    }
    let equal_here = p < table.len() && crate::text::str_equal(table[p].0.as_str(), q.as_str());
    if equal_here {
        let (key, count) = table.remove(p);
        assert(count == quantization_count(before, q@));
        table.insert(p, (key, count + 1));
        proof {
            assert(table@ =~= old_t.update(p as int, (key, (count + 1) as usize)));
            assert forall|i: int| 0 <= i < table@.len() && i != p implies table@[i].0@ != q@ by {
                if i < p {
                    lemma_lex_irreflexive(q@);
                    assert(lex_lt(old_t[i].0@, old_t[p as int].0@));
                } else {
                    assert(lex_lt(old_t[p as int].0@, old_t[i].0@));
                    lemma_lex_irreflexive(q@);
                }
            }
            assert forall|k: Seq<char>| quantization_count(after, k) > 0 implies exists|i: int|
                0 <= i < table@.len() && table@[i].0@ == k by {
                if k == q@ {
                    assert(table@[p as int].0@ == k);
                } else {
                    assert(quantization_count(before, k) > 0);
                    let i = choose|i: int| 0 <= i < old_t.len() && old_t[i].0@ == k;
                    assert(table@[i].0@ == k);
                }
            }
            assert forall|i: int| 0 <= i < table@.len() implies table@[i].1 == quantization_count(
                after,
                table@[i].0@,
            ) by {
                assert(quantization_count(after, table@[i].0@) == quantization_count(
                    before,
                    table@[i].0@,
                ) + if table@[i].0@ == q@ { 1nat } else { 0nat });
            }
        }
    } else {
        proof {
            if p < old_t.len() {
                lemma_lex_total(old_t[p as int].0@, q@);
            }
        }
        table.insert(p, (q, 1));
        proof {
            let new_t = table@;
            assert(new_t =~= old_t.insert(p as int, new_t[p as int]));
            assert forall|i: int| 0 <= i < new_t.len() && i != p implies new_t[i].0@ != q@ by {
                if i < p {
                    lemma_lex_irreflexive(q@);
                } else {
                    assert(new_t[i] == old_t[i - 1]);
                    if i - 1 > p {
                        lemma_lex_transitive(q@, old_t[p as int].0@, old_t[i - 1].0@);
                    }
                    lemma_lex_irreflexive(q@);
                }
            }
            assert forall|i: int, j: int| 0 <= i < j < new_t.len() implies lex_lt(
                new_t[i].0@,
                new_t[j].0@,
            ) by {
                if j == p {
                } else if i == p {
                    if j - 1 > p {
                        lemma_lex_transitive(q@, old_t[p as int].0@, old_t[j - 1].0@);
                    }
                } else if i < p && j > p {
                    assert(lex_lt(old_t[i].0@, q@));
                    if j - 1 >= p {
                        if j - 1 > p {
                            lemma_lex_transitive(q@, old_t[p as int].0@, old_t[j - 1].0@);
                        }
                        lemma_lex_transitive(old_t[i].0@, q@, old_t[j - 1].0@);
                    }
                } else if i > p {
                    assert(lex_lt(old_t[i - 1].0@, old_t[j - 1].0@));
                } else {
                    assert(lex_lt(old_t[i].0@, old_t[j].0@));
                }
            }
            assert(quantization_count(before, q@) == 0) by {
                if quantization_count(before, q@) > 0 {
                    let i = choose|i: int| 0 <= i < old_t.len() && old_t[i].0@ == q@;
                    if i < p {
                        lemma_lex_irreflexive(q@);
                    } else if i == p {
                    } else {
                        lemma_lex_transitive(q@, old_t[p as int].0@, old_t[i].0@);
                        lemma_lex_irreflexive(q@);
                    }
                }
            }
            assert forall|i: int| 0 <= i < new_t.len() implies new_t[i].1 == quantization_count(
                after,
                new_t[i].0@,
            ) && new_t[i].1 > 0 by {
                assert(quantization_count(after, new_t[i].0@) == quantization_count(
                    before,
                    new_t[i].0@,
                ) + if new_t[i].0@ == q@ { 1nat } else { 0nat });
                if i > p {
                    assert(new_t[i] == old_t[i - 1]);
                } else if i < p {
                    assert(new_t[i] == old_t[i]);
                }
            }
            assert forall|k: Seq<char>| quantization_count(after, k) > 0 implies exists|i: int|
                0 <= i < new_t.len() && new_t[i].0@ == k by {
                if k == q@ {
                    assert(new_t[p as int].0@ == k);
                } else {
                    assert(quantization_count(before, k) > 0);
                    let i = choose|i: int| 0 <= i < old_t.len() && old_t[i].0@ == k;
                    if i < p {
                        assert(new_t[i].0@ == k);
                    } else {
                        assert(new_t[i + 1].0@ == k);
                    }
                }
            }
        }
    }
}

} // verus!

verus! {

impl QuantizationAnalyzer {
    /// Analyze files for the quantizations they name and their XET availability.
    ///
    /// Non-model files are skipped; the quantizations found are listed sorted
    /// alphabetically, each with the number of model files that name it.
    pub fn analyze_files(&self, files: &[FileAnalysisInfo]) -> (a: QuantizationAnalysis)
        ensures
            is_analysis_of(a, files@),
    {
        let mut table: Vec<(String, usize)> = Vec::new();
        let mut xet_available_files: usize = 0;
        let mut quic_only_files: usize = 0;
        let mut total_quantized_files: usize = 0;
        let mut i: usize = 0;
        assert(files@.take(0) =~= Seq::<FileAnalysisInfo>::empty());
        while i < files.len()
            invariant
                i <= files@.len(),
                tally_inv(table@, files@.take(i as int)),
                xet_available_files == xet_count(files@.take(i as int)),
                quic_only_files == quic_count(files@.take(i as int)),
                total_quantized_files == quantized_count(files@.take(i as int)),
            decreases files@.len() - i,
        {
            let ghost before = files@.take(i as int);
            let ghost after = files@.take(i + 1);
            let file = &files[i];
            proof {
                lemma_count_step(files@, i as int, |f: FileAnalysisInfo| is_model_entry(f) && f.xet_hash is Some);
                lemma_count_step(files@, i as int, |f: FileAnalysisInfo| is_model_entry(f) && f.xet_hash is None);
                lemma_count_step(files@, i as int, |f: FileAnalysisInfo| is_model_entry(f) && quantization_of(f.path@) is Some);
                lemma_count_bound(after, |f: FileAnalysisInfo| is_model_entry(f) && f.xet_hash is Some);
                lemma_count_bound(after, |f: FileAnalysisInfo| is_model_entry(f) && f.xet_hash is None);
                lemma_count_bound(after, |f: FileAnalysisInfo| is_model_entry(f) && quantization_of(f.path@) is Some);
                assert forall|k: Seq<char>| #[trigger] quantization_count(after, k) == quantization_count(before, k)
                    + if is_model_entry(files@[i as int]) && quantization_of(files@[i as int].path@) == Some(k) { 1nat } else { 0nat } by {
                    lemma_count_step(files@, i as int, |f: FileAnalysisInfo| is_model_entry(f) && quantization_of(f.path@) == Some(k));
                }
            }
            if !self.is_non_model_file(file.path.as_str()) {
                if file.xet_hash.is_some() {
                    xet_available_files = xet_available_files + 1;
                } else {
                    quic_only_files = quic_only_files + 1;
                }
                match self.extract_quantization(file.path.as_str()) {
                    Some(q) => {
                        proof {
                            lemma_count_bound(after, |f: FileAnalysisInfo| is_model_entry(f) && quantization_of(f.path@) == Some(q@));
                        }
                        record_quantization(&mut table, q, Ghost(before), Ghost(after));
                        total_quantized_files = total_quantized_files + 1;
                    },
                    None => {
                        assert forall|k: Seq<char>| quantization_count(after, k) > 0 implies exists|j: int|
                            0 <= j < table@.len() && table@[j].0@ == k by {
                            assert(quantization_count(before, k) > 0);
                        }
                    },
                }
            } else {
                assert forall|k: Seq<char>| quantization_count(after, k) > 0 implies exists|j: int|
                    0 <= j < table@.len() && table@[j].0@ == k by {
                    assert(quantization_count(before, k) > 0);
                }
            }
            i = i + 1;
        }
        assert(files@.take(i as int) =~= files@);
        let mut available_quantizations: Vec<String> = Vec::new();
        let mut j: usize = 0;
        while j < table.len()
            invariant
                j <= table@.len(),
                available_quantizations@.len() == j,
                forall|k: int| 0 <= k < j ==> available_quantizations@[k]@ == table@[k].0@,
            decreases table@.len() - j,
        {
            available_quantizations.push(table[j].0.clone());
            j = j + 1;
        }
        QuantizationAnalysis {
            available_quantizations,
            total_quantized_files,
            quantization_file_counts: table,
            xet_available_files,
            quic_only_files,
        }
    }

    /// Count the model files whose quantization normalizes to the same name as
    /// `quantization`.
    pub fn count_quantized_files(&self, files: &[FileAnalysisInfo], quantization: &str) -> (n: usize)
        ensures
            n == matching_count(files@, quantization@),
            n == quantization_count(files@, normalized(quantization@)),
            forall|a: QuantizationAnalysis| #[trigger] is_analysis_of(a, files@)
                ==> n == table_count(a.quantization_file_counts@, normalized(quantization@)),
    {
        let wanted = self.normalize_quantization(quantization);
        let mut n: usize = 0;
        let mut i: usize = 0;
        while i < files.len()
            invariant
                i <= files@.len(),
                wanted@ == normalized(quantization@),
                n == matching_count(files@.take(i as int), quantization@),
                n == quantization_count(files@.take(i as int), wanted@),
            decreases files@.len() - i,
        {
            let ghost pred = |f: FileAnalysisInfo|
                is_model_entry(f) && (match quantization_of(f.path@) {
                    Some(fq) => normalized(fq) == normalized(quantization@),
                    None => false,
                });
            let ghost exact = |f: FileAnalysisInfo|
                is_model_entry(f) && quantization_of(f.path@) == Some(normalized(quantization@));
            proof {
                lemma_count_step(files@, i as int, pred);
                lemma_count_bound(files@.take(i + 1), pred);
                lemma_count_step(files@, i as int, exact);
            }
            let file = &files[i];
            if !self.is_non_model_file(file.path.as_str()) {
                match self.extract_quantization(file.path.as_str()) {
                    Some(fq) => {
                        let nfq = self.normalize_quantization(fq.as_str());
                        assert(nfq@ == fq@);
                        if nfq == wanted {
                            n = n + 1;
                        }
                    },
                    None => {},
                }
            }
            i = i + 1;
        }
        assert(files@.take(i as int) =~= files@);
        proof {
            assert forall|a: QuantizationAnalysis| #[trigger] is_analysis_of(a, files@)
                implies n == table_count(a.quantization_file_counts@, normalized(quantization@)) by {
                lemma_table_count(a.quantization_file_counts@, files@, normalized(quantization@));
            }
        }
        n
    }
}

} // verus!

verus! {

use crate::text::{decimal, append_str, write_decimal};

/// "s" unless the count is one.
pub open spec fn plural_s(n: nat) -> Seq<char> {
    if n == 1 {
        Seq::empty()
    } else {
        seq!['s']
    }
}

/// One table entry as shown in an error message: "Q4_K_M (3 files)".
pub open spec fn count_entry(q: Seq<char>, c: nat) -> Seq<char> {
    q + " ("@ + decimal(c) + " file"@ + plural_s(c) + ")"@
}

/// The table entries joined with ", ".
pub open spec fn joined_entries(t: Seq<(String, usize)>) -> Seq<char>
    decreases t.len(),
{
    if t.len() == 0 {
        Seq::empty()
    } else if t.len() == 1 {
        count_entry(t[0].0@, t[0].1 as nat)
    } else {
        joined_entries(t.drop_last()) + ", "@ + count_entry(t.last().0@, t.last().1 as nat)
    }
}

/// The error for a model without quantized files.
pub open spec fn not_quantized_message() -> Seq<char> {
    "Model does not contain quantized files. Quantization filtering is not applicable for this model."@
}

/// The error for a quantization that is not available.
pub open spec fn not_found_message(requested: Seq<char>, total: nat, t: Seq<(String, usize)>) -> Seq<char> {
    "Quantization '"@ + requested + "' not found in "@ + decimal(total) + " quantized model file"@
        + plural_s(total) + ". Available quantizations: "@ + joined_entries(t)
}

/// Some available quantization normalizes to the same name as `requested`.
pub open spec fn quantization_available(a: QuantizationAnalysis, requested: Seq<char>) -> bool {
    exists|i: int|
        0 <= i < a.available_quantizations@.len() && normalized(a.available_quantizations@[i]@)
            == normalized(requested)
}

/// The outcome of validating a requested quantization against an analysis.
pub open spec fn quantization_check(a: QuantizationAnalysis, requested: Seq<char>) -> Result<(), Seq<char>> {
    if a.available_quantizations@.len() == 0 {
        Err(not_quantized_message())
    } else if quantization_available(a, requested) {
        Ok(())
    } else {
        Err(not_found_message(requested, a.total_quantized_files as nat, a.quantization_file_counts@))
    }
}

fn write_count_entry(out: &mut String, q: &String, c: usize)
    ensures
        final(out)@ == old(out)@ + count_entry(q@, c as nat),
{
    append_str(out, q.as_str());
    append_str(out, " (");
    write_decimal(out, c as u64);
    append_str(out, " file");
    if c != 1 {
        push_char(out, 's');
    }
    append_str(out, ")");
    assert(final(out)@ =~= old(out)@ + count_entry(q@, c as nat));
}

impl QuantizationAnalyzer {
    /// Validate that a requested quantization exists in the analyzed files.
    ///
    /// Fails for a model without quantized files, and for a quantization that no
    /// available one matches (compared after normalization), with a message that
    /// lists the available quantizations and their file counts.
    pub fn validate_quantization_request(
        &self,
        analysis: &QuantizationAnalysis,
        requested_quantization: &str,
    ) -> (r: Result<(), String>)
        ensures
            match r {
                Ok(()) => quantization_check(*analysis, requested_quantization@) == Ok::<(), Seq<char>>(()),
                Err(e) => quantization_check(*analysis, requested_quantization@) == Err::<(), Seq<char>>(e@),
            },
    {
        if analysis.available_quantizations.len() == 0 {
            let msg = String::from_str(
                "Model does not contain quantized files. Quantization filtering is not applicable for this model.",
            );
            return Err(msg);
        }
        let wanted = self.normalize_quantization(requested_quantization);
        let mut i: usize = 0;
        while i < analysis.available_quantizations.len()
            invariant
                i <= analysis.available_quantizations@.len(),
                wanted@ == normalized(requested_quantization@),
                forall|j: int| 0 <= j < i ==> normalized(analysis.available_quantizations@[j]@)
                    != normalized(requested_quantization@),
            decreases analysis.available_quantizations@.len() - i,
        {
            let n = self.normalize_quantization(analysis.available_quantizations[i].as_str());
            if n == wanted {
                return Ok(());
            }
            i = i + 1;
        }
        let t = &analysis.quantization_file_counts;
        let mut list = String::new();
        let mut k: usize = 0;
        while k < t.len()
            invariant
                k <= t@.len(),
                list@ == joined_entries(t@.take(k as int)),
            decreases t@.len() - k,
        {
            proof {
                assert(t@.take(k + 1).drop_last() =~= t@.take(k as int));
                assert(t@.take(k + 1).last() == t@[k as int]);
                if k == 0 {
                    assert(t@.take(0) =~= Seq::<(String, usize)>::empty());
                    assert(t@.take(1)[0] == t@[0]);
                }
            }
            if k > 0 {
                append_str(&mut list, ", ");
            }
            write_count_entry(&mut list, &t[k].0, t[k].1);
            k = k + 1;
        }
        assert(t@.take(k as int) =~= t@);
        let mut msg = String::new();
        append_str(&mut msg, "Quantization '");
        append_str(&mut msg, requested_quantization);
        append_str(&mut msg, "' not found in ");
        write_decimal(&mut msg, analysis.total_quantized_files as u64);
        append_str(&mut msg, " quantized model file");
        if analysis.total_quantized_files != 1 {
            push_char(&mut msg, 's');
        }
        append_str(&mut msg, ". Available quantizations: ");
        append_str(&mut msg, list.as_str());
        assert(msg@ =~= not_found_message(
            requested_quantization@,
            analysis.total_quantized_files as nat,
            t@,
        ));
        Err(msg)
    }
}

} // verus!
