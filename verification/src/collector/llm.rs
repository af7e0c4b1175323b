//! The decision logic of the llama.cpp collector: quantization detection
//! from model file names, llama-server log lines, command-line flags and
//! the per-slot token accounting behind the throughput figures.
use vstd::prelude::*;
use crate::text::{
    chars_of, contains, first_token_exec, seq_eq, tail_of, lemma_find_in_bounds, lemma_rfind_in_bounds, contains_exec, ends_with, find, find_exec, first_token, is_digit,
    is_ascii_digit, is_whitespace, is_ws, matches_at, matches_at_exec, next_token_bounds,
    parse_u64_spec, parse_u64_trimmed, parse_unsigned, parse_unsigned_exec, rfind, rfind_exec, rfind_from, starts_with,
    starts_with_exec, string_from_chars, substring, subvec, to_uppercase, trim, trim_bounds, trim_chars,
    uppercase_of, views, opt_view,
};

verus! {

broadcast use vstd::string::group_string_axioms;

// ---------------------------------------------------------------------------
// Quantization names
// ---------------------------------------------------------------------------

/// A quantization tag such as `Q4_K_M` or `IQ3_S`: `IQ` followed by a digit,
/// or `Q` followed by a digit.
pub open spec fn is_quant(s: Seq<char>) -> bool {
    if starts_with(s, "IQ"@) && s.len() >= 3 {
        is_digit(s[2])
    } else if s.len() >= 2 && s[0] == 'Q' {
        is_digit(s[1])
    } else {
        false
    }
}

/// Characters that delimit the parts of a model file name.
pub open spec fn is_name_sep(c: char) -> bool {
    c == '-' || c == '.' || c == '/' || is_ws(c)
}

/// Position of the first separator in `s` at or after `i`, or `s.len()`.
pub open spec fn sep_index_from(s: Seq<char>, i: int) -> int
    decreases s.len() - i,
{
    if i >= s.len() {
        s.len() as int
    } else if is_name_sep(s[i]) {
        i
    } else {
        sep_index_from(s, i + 1)
    }
}

/// `s` with every trailing `.GGUF` removed.
pub open spec fn trim_gguf(s: Seq<char>) -> Seq<char>
    decreases s.len(),
{
    if ends_with(s, ".GGUF"@) && ".GGUF"@.len() > 0 {
        trim_gguf(s.take(s.len() - ".GGUF"@.len()))
    } else {
        s
    }
}

/// The boundary markers that may precede a quantization tag, in the order
/// they are tried.
pub open spec fn quant_prefixes() -> Seq<Seq<char>> {
    seq!["-IQ"@, "_IQ"@, ".IQ"@, "/IQ"@, "-Q"@, "_Q"@, ".Q"@, "/Q"@]
}

/// The tag that follows the last occurrence of `prefix` in `clean` (from
/// the character after the marker up to the next separator), when it is a
/// quantization tag.
pub open spec fn quant_after_prefix(clean: Seq<char>, prefix: Seq<char>) -> Option<Seq<char>> {
    match rfind(clean, prefix) {
        Some(pos) => {
            let cand = clean.subrange(pos + 1, sep_index_from(clean, pos + 1));
            if is_quant(cand) {
                Some(cand)
            } else {
                None
            }
        },
        None => None,
    }
}

/// The first prefix, from index `k` of `quant_prefixes()` on, whose
/// following tag is a quantization tag.
pub open spec fn quant_by_prefixes(clean: Seq<char>, k: int) -> Option<Seq<char>>
    decreases 8 - k,
{
    if k < 0 || k >= 8 {
        None
    } else {
        match quant_after_prefix(clean, quant_prefixes()[k]) {
            Some(q) => Some(q),
            None => quant_by_prefixes(clean, k + 1),
        }
    }
}

pub proof fn lemma_sep_index_bounds(s: Seq<char>, i: int)
    requires
        0 <= i <= s.len(),
    ensures
        i <= sep_index_from(s, i) <= s.len(),
        forall|j: int| i <= j < sep_index_from(s, i) ==> !is_name_sep(#[trigger] s[j]),
        sep_index_from(s, i) < s.len() ==> is_name_sep(s[sep_index_from(s, i)]),
    decreases s.len() - i,
{
    if i < s.len() && !is_name_sep(s[i]) {
        lemma_sep_index_bounds(s, i + 1);
    }
}

/// The first part of `s` from position `pos` on (parts are delimited by
/// separators) that is a quantization tag.
pub open spec fn first_quant_part_from(s: Seq<char>, pos: int) -> Option<Seq<char>>
    decreases s.len() - pos,
{
    if pos < 0 || pos > s.len() {
        None
    } else {
        let e = sep_index_from(s, pos);
        let part = s.subrange(pos, e);
        if is_quant(part) {
            Some(part)
        } else if e >= s.len() {
            None
        } else {
            proof {
                lemma_sep_index_bounds(s, pos);
            }
            first_quant_part_from(s, e + 1)
        }
    }
}

/// Quantization tag found in an uppercased model file name: a float type
/// named anywhere (`BF16`, then `F16`, then `F32`), else the tag after the
/// last boundary marker (markers tried in order), else the first part that
/// is a quantization tag; the trailing `.GGUF` extension is ignored.
pub open spec fn quant_of_upper(upper: Seq<char>) -> Option<Seq<char>> {
    if contains(upper, "BF16"@) {
        Some("BF16"@)
    } else if contains(upper, "F16"@) {
        Some("F16"@)
    } else if contains(upper, "F32"@) {
        Some("F32"@)
    } else {
        let clean = trim_gguf(upper);
        match quant_by_prefixes(clean, 0) {
            Some(q) => Some(q),
            None => first_quant_part_from(clean, 0),
        }
    }
}

/// Whether `s` is a quantization tag.
pub fn is_quant_chars(s: &[char]) -> (b: bool)
    ensures
        b == is_quant(s@),
{
    let iq = chars_of("IQ");
    if starts_with_exec(s, iq.as_slice()) && s.len() >= 3 {
        is_ascii_digit(s[2])
    } else if s.len() >= 2 && s[0] == 'Q' {
        is_ascii_digit(s[1])
    } else {
        false
    }
}

/// Whether `s` is a quantization tag such as `Q8_0` or `IQ3_S`.
pub fn is_quant_string(s: &str) -> (b: bool)
    ensures
        b == is_quant(s@),
{
    let v = chars_of(s);
    is_quant_chars(v.as_slice())
}

fn sep_index_exec(s: &[char], from: usize) -> (e: usize)
    requires
        from <= s.len(),
    ensures
        e as int == sep_index_from(s@, from as int),
{
    let mut i = from;
    while i < s.len() && !(s[i] == '-' || s[i] == '.' || s[i] == '/' || is_whitespace(s[i]))
        invariant
            from <= i <= s.len(),
            sep_index_from(s@, from as int) == sep_index_from(s@, i as int),
        decreases s.len() - i,
    {
        i += 1;
    }
    i
}

fn quant_prefix(k: usize) -> (p: &'static str)
    requires
        k < 8,
    ensures
        p@ == quant_prefixes()[k as int],
        p@.len() >= 2,
{
    proof {
        reveal_strlit("-IQ");
        reveal_strlit("_IQ");
        reveal_strlit(".IQ");
        reveal_strlit("/IQ");
        reveal_strlit("-Q");
        reveal_strlit("_Q");
        reveal_strlit(".Q");
        reveal_strlit("/Q");
    }
    match k {
        0 => "-IQ",
        1 => "_IQ",
        2 => ".IQ",
        3 => "/IQ",
        4 => "-Q",
        5 => "_Q",
        6 => ".Q",
        _ => "/Q",
    }
}

/// Quantization tag of an already uppercased model file name.
pub fn extract_quant_from_upper(upper: &[char]) -> (r: Option<String>)
    ensures
        opt_view(r) == quant_of_upper(upper@),
{
    let bf16 = chars_of("BF16");
    if contains_exec(upper, bf16.as_slice()) {
        return Some(string_from_chars(bf16.as_slice()));
    }
    let half_tag = chars_of("F16");
    if contains_exec(upper, half_tag.as_slice()) {
        return Some(string_from_chars(half_tag.as_slice()));
    }
    let single_tag = chars_of("F32");
    if contains_exec(upper, single_tag.as_slice()) {
        return Some(string_from_chars(single_tag.as_slice()));
    }
    // Drop trailing ".GGUF" extensions.
    let ext = chars_of(".GGUF");
    proof {
        reveal_strlit(".GGUF");
    }
    let mut end = upper.len();
    assert(upper@.take(end as int) =~= upper@);
    while end >= ext.len() && ext.len() > 0 && matches_at_exec(upper, ext.as_slice(), end - ext.len())
        invariant
            end <= upper.len(),
            ext@ == ".GGUF"@,
            trim_gguf(upper@) == trim_gguf(upper@.take(end as int)),
        decreases end,
    {
        assert(upper@.take(end as int).skip(end - ext@.len()) =~= upper@.subrange(
            end - ext@.len(),
            end as int,
        ));
        assert(upper@.take(end as int).take(end - ext@.len()) =~= upper@.take(end - ext.len()));
        end -= ext.len();
    }
    assert(!ends_with(upper@.take(end as int), ext@)) by {
        if end >= ext.len() && ext.len() > 0 {
            assert(upper@.take(end as int).skip(end - ext@.len()) =~= upper@.subrange(
                end - ext@.len(),
                end as int,
            ));
        }
    }
    let clean = subvec(upper, 0, end);
    assert(clean@ =~= upper@.take(end as int));
    assert(trim_gguf(clean@) == clean@);
    assert(quant_of_upper(upper@) == match quant_by_prefixes(clean@, 0) {
        Some(q) => Some(q),
        None => first_quant_part_from(clean@, 0),
    });
    // Tags after boundary markers.
    let mut k: usize = 0;
    while k < 8
        invariant
            k <= 8,
            trim_gguf(upper@) == clean@,
            quant_by_prefixes(clean@, 0) == quant_by_prefixes(clean@, k as int),
            quant_of_upper(upper@) == match quant_by_prefixes(clean@, 0) {
                Some(q) => Some(q),
                None => first_quant_part_from(clean@, 0),
            },
        decreases 8 - k,
    {
        let pstr = quant_prefix(k);
        let prefix = chars_of(pstr);
        if let Some(pos) = rfind_exec(clean.as_slice(), prefix.as_slice()) {
            proof {
                lemma_rfind_in_bounds(clean@, prefix@, pos as int);
                assert(prefix@.len() >= 2);
                assert(pos + 1 < clean.len());
            }
            let e = sep_index_exec(clean.as_slice(), pos + 1);
            proof {
                lemma_sep_index_bounds(clean@, pos + 1);
            }
            let cand = subvec(clean.as_slice(), pos + 1, e);
            if is_quant_chars(cand.as_slice()) {
                return Some(string_from_chars(cand.as_slice()));
            }
        }
        k += 1;
    }
    // First part that is a tag.
    let mut pos: usize = 0;
    loop
        invariant
            pos <= clean.len(),
            trim_gguf(upper@) == clean@,
            quant_of_upper(upper@) == first_quant_part_from(clean@, pos as int),
        decreases clean.len() - pos,
    {
        let e = sep_index_exec(clean.as_slice(), pos);
        proof {
            lemma_sep_index_bounds(clean@, pos as int);
        }
        let part = subvec(clean.as_slice(), pos, e);
        if is_quant_chars(part.as_slice()) {
            return Some(string_from_chars(part.as_slice()));
        }
        if e >= clean.len() {
            return None;
        }
        pos = e + 1;
    }
}

/// Quantization tag named in a model file name (`Q4_K_M`, `IQ3_S`, `BF16`,
/// ...), looked up in the Unicode uppercase form of `name`.
pub fn extract_quant_from_name(name: &str) -> (r: Option<String>)
    ensures
        opt_view(r) == quant_of_upper(uppercase_of(name@)),
{
    let upper = to_uppercase(name);
    let v = chars_of(upper.as_str());
    extract_quant_from_upper(v.as_slice())
}

// ---------------------------------------------------------------------------
// llama-server log lines
// ---------------------------------------------------------------------------

/// What a llama-server log line reports. Decimal fractions (rates, mean
/// lengths, token speeds) are handed out as the text that holds them;
/// integer counters are parsed.
pub enum LogLineFields {
    /// A speculative-decoding summary:
    /// `draft acceptance = 0.54762 (   23 accepted /    42 generated), mean len =  2.64`.
    DraftAcceptance {
        /// First token after `draft acceptance = ` (an acceptance fraction).
        rate: Option<String>,
        /// Count before `accepted /`, when it parses.
        accepted: Option<u64>,
        /// Count before `generated)`, when it parses.
        generated: Option<u64>,
        /// Token after `mean len =` (empty when none), present when the
        /// marker is.
        mean_len: Option<String>,
    },
    /// A prompt (prefill) timing line; `tps` is the tokens-per-second text.
    PromptEval { tps: Option<String> },
    /// A decode timing line (`eval time = ...` or an intermediate
    /// `tg = ... t/s` report); `tps` is the tokens-per-second text.
    Eval { tps: Option<String> },
    /// Any other line.
    Other,
}

/// Mathematical form of `LogLineFields`.
pub enum LogLineView {
    DraftAcceptance {
        rate: Option<Seq<char>>,
        accepted: Option<u64>,
        generated: Option<u64>,
        mean_len: Option<Seq<char>>,
    },
    PromptEval { tps: Option<Seq<char>> },
    Eval { tps: Option<Seq<char>> },
    Other,
}

impl View for LogLineFields {
    type V = LogLineView;

    open spec fn view(&self) -> LogLineView {
        match self {
            LogLineFields::DraftAcceptance { rate, accepted, generated, mean_len } => {
                LogLineView::DraftAcceptance {
                    rate: opt_view(*rate),
                    accepted: *accepted,
                    generated: *generated,
                    mean_len: opt_view(*mean_len),
                }
            },
            LogLineFields::PromptEval { tps } => LogLineView::PromptEval { tps: opt_view(*tps) },
            LogLineFields::Eval { tps } => LogLineView::Eval { tps: opt_view(*tps) },
            LogLineFields::Other => LogLineView::Other,
        }
    }
}

/// Accepted and generated counts of the text after `draft acceptance = `:
/// `( <accepted> accepted / <generated> generated)`.
pub open spec fn draft_counts(rest: Seq<char>) -> (Option<u64>, Option<u64>) {
    match find(rest, "("@) {
        Some(a) => {
            let inside = rest.skip(a + "("@.len());
            match find(inside, "accepted /"@) {
                Some(sl) => {
                    let acc = parse_u64_spec(trim(inside.take(sl)));
                    let gen_part = inside.skip(sl + "accepted /"@.len());
                    let generated = match find(gen_part, "generated)"@) {
                        Some(ge) => parse_u64_spec(trim(gen_part.take(ge))),
                        None => None,
                    };
                    (acc, generated)
                },
                None => (None, None),
            }
        },
        None => (None, None),
    }
}

/// Token after `mean len =` in the text after `draft acceptance = `.
pub open spec fn draft_mean_len(rest: Seq<char>) -> Option<Seq<char>> {
    match find(rest, "mean len ="@) {
        Some(m) => Some(
            match first_token(rest.skip(m + "mean len ="@.len())) {
                Some(t) => t,
                None => Seq::empty(),
            },
        ),
        None => None,
    }
}

/// Speed text of a timing line: between the last comma before
/// `tokens per second)` and that marker, trimmed.
pub open spec fn timing_tps(line: Seq<char>) -> Option<Seq<char>> {
    match find(line, "tokens per second)"@) {
        Some(t) => {
            let before = line.take(t);
            match rfind(before, ","@) {
                Some(c) => Some(trim(before.subrange(c + ","@.len(), t))),
                None => None,
            }
        },
        None => None,
    }
}

/// Speed text of an intermediate `tg = <speed> t/s` report, trimmed.
pub open spec fn tg_tps(line: Seq<char>) -> Option<Seq<char>> {
    match find(line, "tg ="@) {
        Some(p) => {
            let rest = line.skip(p + "tg ="@.len());
            match find(rest, "t/s"@) {
                Some(e) => Some(trim(rest.take(e))),
                None => None,
            }
        },
        None => None,
    }
}

/// What a log line reports: a draft-acceptance summary is recognized first,
/// then prompt timings, then decode timings, then `tg = ... t/s` reports.
pub open spec fn log_line_spec(line: Seq<char>) -> LogLineView {
    match find(line, "draft acceptance = "@) {
        Some(pos) => {
            let rest = line.skip(pos + "draft acceptance = "@.len());
            LogLineView::DraftAcceptance {
                rate: first_token(rest),
                accepted: draft_counts(rest).0,
                generated: draft_counts(rest).1,
                mean_len: draft_mean_len(rest),
            }
        },
        None => {
            if contains(line, "prompt eval time = "@) {
                LogLineView::PromptEval { tps: timing_tps(line) }
            } else if contains(line, "eval time = "@) {
                LogLineView::Eval { tps: timing_tps(line) }
            } else if contains(line, "tg ="@) && contains(line, "t/s"@) {
                LogLineView::Eval { tps: tg_tps(line) }
            } else {
                LogLineView::Other
            }
        },
    }
}

fn draft_counts_exec(rest: &[char]) -> (r: (Option<u64>, Option<u64>))
    ensures
        r == draft_counts(rest@),
{
    let open = chars_of("(");
    let found1 = find_exec(rest, open.as_slice());

    match found1 {
        Some(a) => {
            proof {
                lemma_find_in_bounds(rest@, open@, a as int);
            }
            assert(rest@.len() == rest.len());
            let inside = tail_of(rest, a + open.len());
            let acc_pat = chars_of("accepted /");
            let found2 = find_exec(inside.as_slice(), acc_pat.as_slice());

            match found2 {
                Some(sl) => {
                    proof {
                        lemma_find_in_bounds(inside@, acc_pat@, sl as int);
                    }
                    let acc_text = subvec(inside.as_slice(), 0, sl);
                    assert(acc_text@ =~= inside@.take(sl as int));
                    let acc = parse_u64_trimmed(acc_text.as_slice());
                    let gen_part = tail_of(inside.as_slice(), sl + acc_pat.len());
                    let gen_pat = chars_of("generated)");
                    let generated = match find_exec(gen_part.as_slice(), gen_pat.as_slice()) {
                        Some(ge) => {
                            proof {
                                lemma_find_in_bounds(gen_part@, gen_pat@, ge as int);
                            }
                            let gen_text = subvec(gen_part.as_slice(), 0, ge);
                            assert(gen_text@ =~= gen_part@.take(ge as int));
                            parse_u64_trimmed(gen_text.as_slice())
                        },
                        None => None,
                    };
                    (acc, generated)
                },
                None => (None, None),
            }
        },
        None => (None, None),
    }
}

fn draft_mean_len_exec(rest: &[char]) -> (r: Option<Vec<char>>)
    ensures
        match r {
            Some(v) => draft_mean_len(rest@) == Some(v@),
            None => draft_mean_len(rest@) is None,
        },
{
    let pat = chars_of("mean len =");
    let found3 = find_exec(rest, pat.as_slice());

    match found3 {
        Some(m) => {
            proof {
                lemma_find_in_bounds(rest@, pat@, m as int);
            }
            assert(rest@.len() == rest.len());
            let after = tail_of(rest, m + pat.len());
            match first_token_exec(after.as_slice()) {
                Some(t) => Some(t),
                None => Some(Vec::new()),
            }
        },
        None => None,
    }
}

fn timing_tps_exec(line: &[char]) -> (r: Option<Vec<char>>)
    ensures
        match r {
            Some(v) => timing_tps(line@) == Some(v@),
            None => timing_tps(line@) is None,
        },
{
    let pat = chars_of("tokens per second)");
    let found4 = find_exec(line, pat.as_slice());

    match found4 {
        Some(t) => {
            proof {
                lemma_find_in_bounds(line@, pat@, t as int);
            }
            let before = subvec(line, 0, t);
            assert(before@ =~= line@.take(t as int));
            let comma = chars_of(",");
            let found5 = rfind_exec(before.as_slice(), comma.as_slice());

            match found5 {
                Some(c) => {
                    proof {
                        lemma_rfind_in_bounds(before@, comma@, c as int);
                    }
                    let (lo, hi) = trim_bounds(before.as_slice(), c + comma.len(), t);
                    let v = subvec(before.as_slice(), lo, hi);
                    assert(before@.subrange(c + comma@.len(), t as int) =~= line@.take(
                        t as int,
                    ).subrange(c + comma@.len(), t as int));
                    Some(v)
                },
                None => None,
            }
        },
        None => None,
    }
}

fn tg_tps_exec(line: &[char]) -> (r: Option<Vec<char>>)
    ensures
        match r {
            Some(v) => tg_tps(line@) == Some(v@),
            None => tg_tps(line@) is None,
        },
{
    let pat = chars_of("tg =");
    let found6 = find_exec(line, pat.as_slice());

    match found6 {
        Some(p) => {
            proof {
                lemma_find_in_bounds(line@, pat@, p as int);
            }
            assert(line@.len() == line.len());
            let rest = tail_of(line, p + pat.len());
            let unit = chars_of("t/s");
            let found7 = find_exec(rest.as_slice(), unit.as_slice());

            match found7 {
                Some(e) => {
                    proof {
                        lemma_find_in_bounds(rest@, unit@, e as int);
                    }
                    let text = subvec(rest.as_slice(), 0, e);
                    assert(text@ =~= rest@.take(e as int));
                    Some(trim_chars(text.as_slice()))
                },
                None => None,
            }
        },
        None => None,
    }
}

fn opt_string(o: Option<Vec<char>>) -> (r: Option<String>)
    ensures
        opt_view(r) == match o {
            Some(v) => Some(v@),
            None => None::<Seq<char>>,
        },
{
    match o {
        Some(v) => Some(string_from_chars(v.as_slice())),
        None => None,
    }
}

/// Recognizes a llama-server log line and extracts what it reports.
pub fn parse_llama_log_line(line: &str) -> (r: LogLineFields)
    ensures
        r@ == log_line_spec(line@),
{
    let l = chars_of(line);
    let draft = chars_of("draft acceptance = ");
    if let Some(pos) = find_exec(l.as_slice(), draft.as_slice()) {
        proof {
            lemma_find_in_bounds(l@, draft@, pos as int);
        }
        assert(l@.len() == l.len());
        let rest = tail_of(l.as_slice(), pos + draft.len());
        let rate = opt_string(first_token_exec(rest.as_slice()));
        let (accepted, generated) = draft_counts_exec(rest.as_slice());
        let mean_len = opt_string(draft_mean_len_exec(rest.as_slice()));
        return LogLineFields::DraftAcceptance { rate, accepted, generated, mean_len };
    }
    let prompt = chars_of("prompt eval time = ");
    if contains_exec(l.as_slice(), prompt.as_slice()) {
        return LogLineFields::PromptEval { tps: opt_string(timing_tps_exec(l.as_slice())) };
    }
    let eval = chars_of("eval time = ");
    if contains_exec(l.as_slice(), eval.as_slice()) {
        return LogLineFields::Eval { tps: opt_string(timing_tps_exec(l.as_slice())) };
    }
    let tg = chars_of("tg =");
    let unit = chars_of("t/s");
    if contains_exec(l.as_slice(), tg.as_slice()) && contains_exec(l.as_slice(), unit.as_slice()) {
        return LogLineFields::Eval { tps: opt_string(tg_tps_exec(l.as_slice())) };
    }
    LogLineFields::Other
}

// ---------------------------------------------------------------------------
// llama-server command line
// ---------------------------------------------------------------------------

/// The non-empty NUL-separated arguments of a `/proc/<pid>/cmdline` image.
pub open spec fn nul_args(s: Seq<char>) -> Seq<Seq<char>>
    decreases s.len(),
{
    match find(s, seq!['\0']) {
        None => if s.len() > 0 {
            seq![s]
        } else {
            Seq::empty()
        },
        Some(k) => {
            proof {
                lemma_find_in_bounds(s, seq!['\0'], k);
            }
            (if k > 0 {
                seq![s.take(k)]
            } else {
                Seq::empty()
            }) + nul_args(s.skip(k + 1))
        },
    }
}

/// A path component that names a file: not empty, `.` or `..`.
pub open spec fn component_name(p: Seq<char>) -> Option<Seq<char>> {
    if p.len() == 0 || p == seq!['.'] || p == seq!['.', '.'] {
        None
    } else {
        Some(p)
    }
}

/// Final component of a Unix path, as `Path::file_name` reports it: empty
/// and `.` components are skipped, and a path that ends in `..` has none.
pub open spec fn file_name_spec(s: Seq<char>) -> Option<Seq<char>>
    decreases s.len(),
{
    match rfind(s, seq!['/']) {
        None => component_name(s),
        Some(k) => {
            proof {
                lemma_rfind_in_bounds(s, seq!['/'], k);
            }
            let tail = s.skip(k + 1);
            if tail.len() == 0 || tail == seq!['.'] {
                file_name_spec(s.take(k))
            } else {
                component_name(tail)
            }
        },
    }
}

/// Settings of a running llama-server, read from its command line.
pub struct ProcLlamaInfo {
    /// KV-cache key type (`-ctk` / `--cache-type-k`), empty when not given.
    pub cache_type_k: String,
    /// KV-cache value type (`-ctv` / `--cache-type-v`), empty when not given.
    pub cache_type_v: String,
    /// Draft model path (`-md` / `--model-draft`).
    pub model_draft_path: Option<String>,
    /// File name of the draft model.
    pub model_draft_name: Option<String>,
    /// Quantization tag of the draft model.
    pub model_draft_quant: Option<String>,
    /// Log file the server writes to, when one is known.
    pub log_path: Option<String>,
    /// Flash attention requested (`-fa` / `--flash-attn`).
    pub flash_attention: bool,
}

/// Mathematical form of `ProcLlamaInfo`.
pub struct ProcInfoView {
    pub cache_type_k: Seq<char>,
    pub cache_type_v: Seq<char>,
    pub model_draft_path: Option<Seq<char>>,
    pub model_draft_name: Option<Seq<char>>,
    pub model_draft_quant: Option<Seq<char>>,
    pub log_path: Option<Seq<char>>,
    pub flash_attention: bool,
}

impl View for ProcLlamaInfo {
    type V = ProcInfoView;

    open spec fn view(&self) -> ProcInfoView {
        ProcInfoView {
            cache_type_k: self.cache_type_k@,
            cache_type_v: self.cache_type_v@,
            model_draft_path: opt_view(self.model_draft_path),
            model_draft_name: opt_view(self.model_draft_name),
            model_draft_quant: opt_view(self.model_draft_quant),
            log_path: opt_view(self.log_path),
            flash_attention: self.flash_attention,
        }
    }
}

/// Nothing known yet.
pub open spec fn empty_proc_info() -> ProcInfoView {
    ProcInfoView {
        cache_type_k: Seq::empty(),
        cache_type_v: Seq::empty(),
        model_draft_path: None,
        model_draft_name: None,
        model_draft_quant: None,
        log_path: None,
        flash_attention: false,
    }
}

/// The settings after reading the arguments from index `i` on: a flag that
/// takes a value consumes the next argument when there is one; later
/// occurrences override earlier ones.
pub open spec fn apply_flags(args: Seq<Seq<char>>, i: int, info: ProcInfoView) -> ProcInfoView
    decreases args.len() - i,
{
    if i < 0 || i >= args.len() {
        info
    } else {
        let a = args[i];
        let has_value = i + 1 < args.len();
        if (a == "-ctk"@ || a == "--cache-type-k"@) && has_value {
            apply_flags(args, i + 2, ProcInfoView { cache_type_k: args[i + 1], ..info })
        } else if (a == "-ctv"@ || a == "--cache-type-v"@) && has_value {
            apply_flags(args, i + 2, ProcInfoView { cache_type_v: args[i + 1], ..info })
        } else if (a == "-md"@ || a == "--model-draft"@) && has_value {
            let path = args[i + 1];
            let name = match file_name_spec(path) {
                Some(n) => n,
                None => path,
            };
            apply_flags(
                args,
                i + 2,
                ProcInfoView {
                    model_draft_path: Some(path),
                    model_draft_name: Some(name),
                    model_draft_quant: quant_of_upper(uppercase_of(name)),
                    ..info
                },
            )
        } else if a == "-fa"@ || a == "--flash-attn"@ {
            apply_flags(args, i + 1, ProcInfoView { flash_attention: true, ..info })
        } else {
            apply_flags(args, i + 1, info)
        }
    }
}

/// Settings read from a command line: none unless it runs `llama-server`.
pub open spec fn cmdline_spec(cmdline: Seq<char>) -> Option<ProcInfoView> {
    if contains(cmdline, "llama-server"@) {
        Some(apply_flags(nul_args(cmdline), 0, empty_proc_info()))
    } else {
        None
    }
}

/// Splits a `cmdline` image into its non-empty NUL-separated arguments.
pub fn split_nul_args(s: &[char]) -> (r: Vec<Vec<char>>)
    ensures
        views(r@) == nul_args(s@),
{
    let nul = vec!['\0'];
    let mut acc: Vec<Vec<char>> = Vec::new();
    let mut rest = tail_of(s, 0);
    assert(rest@ =~= s@);
    assert(views(acc@) =~= Seq::<Seq<char>>::empty());
    loop
        invariant
            nul@ == seq!['\0'],
            nul_args(s@) == views(acc@) + nul_args(rest@),
        decreases rest.len(),
    {
        let ghost prev = views(acc@);
        let found = find_exec(rest.as_slice(), nul.as_slice());
        match found {
            None => {
                if rest.len() > 0 {
                    acc.push(rest);
                    assert(views(acc@) =~= prev + seq![rest@]);
                } else {
                    assert(views(acc@) =~= prev + nul_args(rest@));
                }
                assert(views(acc@) =~= prev + nul_args(rest@));
                return acc;
            },
            Some(k) => {
                proof {
                    lemma_find_in_bounds(rest@, nul@, k as int);
                }
                let ghost old_rest = rest@;
                if k > 0 {
                    let arg = subvec(rest.as_slice(), 0, k);
                    assert(arg@ =~= rest@.take(k as int));
                    acc.push(arg);
                }
                let next = tail_of(rest.as_slice(), k + 1);
                assert(views(acc@) + nul_args(next@) =~= prev + nul_args(old_rest));
                rest = next;
            },
        }
    }
}

/// Final component of a Unix path, as `Path::file_name` reports it.
pub fn file_name_of(path: &[char]) -> (r: Option<Vec<char>>)
    ensures
        match r {
            Some(v) => file_name_spec(path@) == Some(v@),
            None => file_name_spec(path@) is None,
        },
{
    let slash = vec!['/'];
    let dot = vec!['.'];
    let dotdot = vec!['.', '.'];
    let mut cur = tail_of(path, 0);
    assert(cur@ =~= path@);
    loop
        invariant
            slash@ == seq!['/'],
            dot@ == seq!['.'],
            dotdot@ == seq!['.', '.'],
            file_name_spec(path@) == file_name_spec(cur@),
        decreases cur.len(),
    {
        let found = rfind_exec(cur.as_slice(), slash.as_slice());
        match found {
            None => {
                if cur.len() == 0 || seq_eq(cur.as_slice(), dot.as_slice()) || seq_eq(cur.as_slice(), dotdot.as_slice()) {
                    return None;
                }
                return Some(cur);
            },
            Some(k) => {
                proof {
                    lemma_rfind_in_bounds(cur@, slash@, k as int);
                }
                let tail = tail_of(cur.as_slice(), k + slash.len());
                if tail.len() == 0 || seq_eq(tail.as_slice(), dot.as_slice()) {
                    let prefix = subvec(cur.as_slice(), 0, k);
                    assert(prefix@ =~= cur@.take(k as int));
                    cur = prefix;
                } else {
                    if seq_eq(tail.as_slice(), dot.as_slice()) || seq_eq(
                        tail.as_slice(),
                        dotdot.as_slice(),
                    ) {
                        return None;
                    }
                    return Some(tail);
                }
            },
        }
    }
}

/// Reads the llama-server settings from a `/proc/<pid>/cmdline` image; none
/// when the command line does not run `llama-server`. The log file is not
/// known from the command line and is left unset.
pub fn parse_llama_cmdline(cmdline: &str) -> (r: Option<ProcLlamaInfo>)
    ensures
        match r {
            Some(info) => cmdline_spec(cmdline@) == Some(info@),
            None => cmdline_spec(cmdline@) is None,
        },
{
    let c = chars_of(cmdline);
    let marker = chars_of("llama-server");
    if !contains_exec(c.as_slice(), marker.as_slice()) {
        return None;
    }
    let args = split_nul_args(c.as_slice());
    let ctk = chars_of("-ctk");
    let ctk_long = chars_of("--cache-type-k");
    let ctv = chars_of("-ctv");
    let ctv_long = chars_of("--cache-type-v");
    let md = chars_of("-md");
    let md_long = chars_of("--model-draft");
    let fa = chars_of("-fa");
    let fa_long = chars_of("--flash-attn");
    let mut info = ProcLlamaInfo {
        cache_type_k: String::new(),
        cache_type_v: String::new(),
        model_draft_path: None,
        model_draft_name: None,
        model_draft_quant: None,
        log_path: None,
        flash_attention: false,
    };
    let mut i: usize = 0;
    while i < args.len()
        invariant
            i <= args.len() + 1,
            ctk@ == "-ctk"@,
            ctk_long@ == "--cache-type-k"@,
            ctv@ == "-ctv"@,
            ctv_long@ == "--cache-type-v"@,
            md@ == "-md"@,
            md_long@ == "--model-draft"@,
            fa@ == "-fa"@,
            fa_long@ == "--flash-attn"@,
            apply_flags(views(args@), 0, empty_proc_info()) == apply_flags(
                views(args@),
                i as int,
                info@,
            ),
        decreases args.len() - i,
    {
        let a = args[i].as_slice();
        let has_value = i + 1 < args.len();
        assert(views(args@)[i as int] == a@);
        if (seq_eq(a, ctk.as_slice()) || seq_eq(a, ctk_long.as_slice())) && has_value {
            assert(views(args@)[i + 1] == args[i + 1]@);
            info.cache_type_k = string_from_chars(args[i + 1].as_slice());
            i += 2;
        } else if (seq_eq(a, ctv.as_slice()) || seq_eq(a, ctv_long.as_slice())) && has_value {
            assert(views(args@)[i + 1] == args[i + 1]@);
            info.cache_type_v = string_from_chars(args[i + 1].as_slice());
            i += 2;
        } else if (seq_eq(a, md.as_slice()) || seq_eq(a, md_long.as_slice())) && has_value {
            let path = args[i + 1].as_slice();
            assert(views(args@)[i + 1] == path@);
            let name = match file_name_of(path) {
                Some(n) => string_from_chars(n.as_slice()),
                None => string_from_chars(path),
            };
            let quant = extract_quant_from_name(name.as_str());
            info.model_draft_path = Some(string_from_chars(path));
            info.model_draft_name = Some(name);
            info.model_draft_quant = quant;
            i += 2;
        } else if seq_eq(a, fa.as_slice()) || seq_eq(a, fa_long.as_slice()) {
            info.flash_attention = true;
            i += 1;
        } else {
            i += 1;
        }
    }
    Some(info)
}

// ---------------------------------------------------------------------------
// Server replies and per-slot token accounting
// ---------------------------------------------------------------------------

/// `next_token` entry of a slot in a `/slots` reply.
pub struct SlotNextTokenRaw {
    pub n_decoded: Option<u64>,
}

/// `next_token` of a slot: one object or, in some llama.cpp versions, a list.
pub enum NextTokenRepresentation {
    Single(SlotNextTokenRaw),
    List(Vec<SlotNextTokenRaw>),
}

impl NextTokenRepresentation {
    /// Tokens decoded so far: that of the single entry or of the first
    /// entry of the list, 0 when absent.
    pub open spec fn spec_n_decoded(&self) -> u64 {
        match self {
            NextTokenRepresentation::Single(t) => match t.n_decoded {
                Some(n) => n,
                None => 0,
            },
            NextTokenRepresentation::List(ts) => if ts@.len() > 0 {
                match ts@[0].n_decoded {
                    Some(n) => n,
                    None => 0,
                }
            } else {
                0
            },
        }
    }

    /// Tokens decoded so far.
    pub fn n_decoded(&self) -> (n: u64)
        ensures
            n == self.spec_n_decoded(),
    {
        match self {
            NextTokenRepresentation::Single(t) => match t.n_decoded {
                Some(n) => n,
                None => 0,
            },
            NextTokenRepresentation::List(ts) => if ts.len() > 0 {
                match ts[0].n_decoded {
                    Some(n) => n,
                    None => 0,
                }
            } else {
                0
            },
        }
    }
}

/// Per-slot `params` of a `/slots` reply.
pub struct SlotParamsRaw {
    /// `speculative.types`.
    pub speculative_types: Option<String>,
}

/// One slot of a `/slots` reply.
pub struct LlamaSlotRaw {
    pub id: u32,
    pub id_task: Option<i64>,
    pub is_processing: bool,
    pub n_ctx: Option<u64>,
    pub n_prompt_tokens: Option<u64>,
    pub n_prompt_tokens_processed: Option<u64>,
    pub n_prompt_tokens_cache: Option<u64>,
    pub speculative: Option<bool>,
    pub params: Option<SlotParamsRaw>,
    pub next_token: Option<NextTokenRepresentation>,
}

/// `default_generation_settings` of a `/props` reply.
pub struct DefaultGenSettings {
    pub n_ctx: Option<u64>,
}

/// A `/props` reply.
pub struct LlamaProps {
    pub model_alias: Option<String>,
    pub model_path: Option<String>,
    pub model_ftype: Option<String>,
    pub total_slots: Option<u32>,
    pub default_generation_settings: Option<DefaultGenSettings>,
}

/// What was last seen of a slot, to turn its counters into deltas.
#[derive(Clone, Copy)]
pub struct SlotTracker {
    pub last_task_id: Option<i64>,
    pub last_decoded: u64,
    pub last_prompt_processed: u64,
}

/// A slot as the application shows it (without its speed figures).
pub struct SlotRecord {
    pub id: u32,
    pub id_task: Option<i64>,
    pub is_processing: bool,
    pub n_ctx: u64,
    pub n_prompt_tokens: u64,
    pub n_prompt_tokens_processed: u64,
    pub n_prompt_tokens_cache: u64,
    pub n_decoded: u64,
    pub speculative: bool,
    pub speculative_type: Option<String>,
}

/// Totals over the slots of one `/slots` reply.
pub struct SlotAggregate {
    /// Slots currently processing.
    pub active_slots: u32,
    /// Prompt tokens over all slots (saturating).
    pub total_prompt_tokens: u64,
    /// Prompt tokens served from cache over all slots (saturating).
    pub total_cache_hit_tokens: u64,
    /// Prompt plus decoded tokens over all slots (saturating).
    pub total_context_tokens_used: u64,
    /// Prompt tokens processed since the previous reply (saturating).
    pub delta_prompt_tokens: u64,
    /// Tokens decoded since the previous reply (saturating).
    pub delta_decoded_tokens: u64,
    /// Some slot uses speculative decoding.
    pub has_speculative: bool,
    /// The last speculative type named by a slot.
    pub speculative_type: Option<String>,
    /// One record per slot, in reply order.
    pub slots: Vec<SlotRecord>,
}

/// Tokens a slot has decoded.
pub open spec fn slot_decoded(r: LlamaSlotRaw) -> u64 {
    match r.next_token {
        Some(nt) => nt.spec_n_decoded(),
        None => 0,
    }
}

/// A present count, or 0.
pub open spec fn or_zero(o: Option<u64>) -> u64 {
    match o {
        Some(v) => v,
        None => 0,
    }
}

/// The speculative type a slot names.
pub open spec fn slot_spec_type(r: LlamaSlotRaw) -> Option<Seq<char>> {
    match r.params {
        Some(p) => opt_view(p.speculative_types),
        None => None,
    }
}

/// A slot uses speculative decoding: it says so or names a type.
pub open spec fn slot_is_speculative(r: LlamaSlotRaw) -> bool {
    (match r.speculative {
        Some(b) => b,
        None => false,
    }) || slot_spec_type(r) is Some
}

/// Number of processing slots.
pub open spec fn count_processing(raws: Seq<LlamaSlotRaw>) -> nat
    decreases raws.len(),
{
    if raws.len() == 0 {
        0
    } else {
        count_processing(raws.drop_last()) + if raws.last().is_processing {
            1nat
        } else {
            0nat
        }
    }
}

/// Sum of prompt tokens.
pub open spec fn sum_prompt(raws: Seq<LlamaSlotRaw>) -> int
    decreases raws.len(),
{
    if raws.len() == 0 {
        0
    } else {
        sum_prompt(raws.drop_last()) + or_zero(raws.last().n_prompt_tokens)
    }
}

/// Sum of cached prompt tokens.
pub open spec fn sum_cache(raws: Seq<LlamaSlotRaw>) -> int
    decreases raws.len(),
{
    if raws.len() == 0 {
        0
    } else {
        sum_cache(raws.drop_last()) + or_zero(raws.last().n_prompt_tokens_cache)
    }
}

/// Sum of prompt plus decoded tokens.
pub open spec fn sum_context(raws: Seq<LlamaSlotRaw>) -> int
    decreases raws.len(),
{
    if raws.len() == 0 {
        0
    } else {
        sum_context(raws.drop_last()) + or_zero(raws.last().n_prompt_tokens) + slot_decoded(
            raws.last(),
        )
    }
}

/// The last speculative type named by a slot.
pub open spec fn last_spec_type(raws: Seq<LlamaSlotRaw>) -> Option<Seq<char>>
    decreases raws.len(),
{
    if raws.len() == 0 {
        None
    } else if slot_spec_type(raws.last()) is Some {
        slot_spec_type(raws.last())
    } else {
        last_spec_type(raws.drop_last())
    }
}

/// Trackers and token deltas after a sequence of slot reports.
pub struct TrackState {
    pub trackers: Map<u32, SlotTracker>,
    pub decoded: int,
    pub prompt: int,
}

/// Tracker of a slot, fresh when it has none.
pub open spec fn tracker_of(m: Map<u32, SlotTracker>, id: u32) -> SlotTracker {
    if m.contains_key(id) {
        m[id]
    } else {
        SlotTracker { last_task_id: None, last_decoded: 0, last_prompt_processed: 0 }
    }
}

/// Counter growth since the last report: the difference when the slot is
/// still on the same task (0 if the counter went down), else the whole count.
pub open spec fn counter_delta(same_task: bool, now: u64, before: u64) -> int {
    if !same_task {
        now as int
    } else if now >= before {
        now - before
    } else {
        0
    }
}

/// One slot report applied to the trackers: its deltas are added and its
/// tracker now holds the report's task and counters.
pub open spec fn track_step(st: TrackState, r: LlamaSlotRaw) -> TrackState {
    let t = tracker_of(st.trackers, r.id);
    let dec = slot_decoded(r);
    let prm = or_zero(r.n_prompt_tokens_processed);
    let same = r.id_task == t.last_task_id;
    TrackState {
        trackers: st.trackers.insert(
            r.id,
            SlotTracker { last_task_id: r.id_task, last_decoded: dec, last_prompt_processed: prm },
        ),
        decoded: st.decoded + counter_delta(same, dec, t.last_decoded),
        prompt: st.prompt + counter_delta(same, prm, t.last_prompt_processed),
    }
}

/// Slot reports applied in order to the trackers `m`.
pub open spec fn track_slots(m: Map<u32, SlotTracker>, raws: Seq<LlamaSlotRaw>) -> TrackState
    decreases raws.len(),
{
    if raws.len() == 0 {
        TrackState { trackers: m, decoded: 0, prompt: 0 }
    } else {
        track_step(track_slots(m, raws.drop_last()), raws.last())
    }
}

/// `v` capped at `u64::MAX`.
pub open spec fn cap_u64(v: int) -> u64 {
    if v > u64::MAX {
        u64::MAX
    } else {
        v as u64
    }
}

/// The record of a slot.
pub open spec fn slot_record_ok(rec: SlotRecord, r: LlamaSlotRaw, context_window_max: u64) -> bool {
    &&& rec.id == r.id
    &&& rec.id_task == r.id_task
    &&& rec.is_processing == r.is_processing
    &&& rec.n_ctx == match r.n_ctx {
        Some(n) => n,
        None => context_window_max,
    }
    &&& rec.n_prompt_tokens == or_zero(r.n_prompt_tokens)
    &&& rec.n_prompt_tokens_processed == or_zero(r.n_prompt_tokens_processed)
    &&& rec.n_prompt_tokens_cache == or_zero(r.n_prompt_tokens_cache)
    &&& rec.n_decoded == slot_decoded(r)
    &&& rec.speculative == match r.speculative {
        Some(b) => b,
        None => false,
    }
    &&& opt_view(rec.speculative_type) == slot_spec_type(r)
}

/// The tracker a slot report leaves behind.
pub open spec fn tracker_after(r: LlamaSlotRaw) -> SlotTracker {
    SlotTracker {
        last_task_id: r.id_task,
        last_decoded: slot_decoded(r),
        last_prompt_processed: or_zero(r.n_prompt_tokens_processed),
    }
}

/// No two slots of a reply share an id.
pub open spec fn distinct_slot_ids(raws: Seq<LlamaSlotRaw>) -> bool {
    forall|i: int, j: int| 0 <= i < j < raws.len() ==> raws[i].id != raws[j].id
}

/// After the first `k` reports, each of them has left its tracker.
proof fn lemma_trackers_hold_reports(m: Map<u32, SlotTracker>, raws: Seq<LlamaSlotRaw>, k: int)
    requires
        distinct_slot_ids(raws),
        0 <= k <= raws.len(),
    ensures
        forall|j: int|
            0 <= j < k ==> {
                let t = track_slots(m, raws.take(k)).trackers;
                t.contains_key(#[trigger] raws[j].id) && t[raws[j].id] == tracker_after(raws[j])
            },
    decreases k,
{
    if k > 0 {
        lemma_trackers_hold_reports(m, raws, k - 1);
        assert(raws.take(k).drop_last() =~= raws.take(k - 1));
        assert(raws.take(k).last() == raws[k - 1]);
    }
}

/// Reports that match the trackers add nothing and change no tracker.
proof fn lemma_matching_reports_add_nothing(m: Map<u32, SlotTracker>, raws: Seq<LlamaSlotRaw>, k: int)
    requires
        0 <= k <= raws.len(),
        forall|j: int|
            0 <= j < raws.len() ==> m.contains_key(#[trigger] raws[j].id) && m[raws[j].id]
                == tracker_after(raws[j]),
    ensures
        track_slots(m, raws.take(k)).trackers == m,
        track_slots(m, raws.take(k)).decoded == 0,
        track_slots(m, raws.take(k)).prompt == 0,
    decreases k,
{
    if k == 0 {
        assert(raws.take(0) =~= Seq::<LlamaSlotRaw>::empty());
    } else {
        lemma_matching_reports_add_nothing(m, raws, k - 1);
        assert(raws.take(k).drop_last() =~= raws.take(k - 1));
        let r = raws[k - 1];
        assert(raws.take(k).last() == r);
        assert(m.contains_key(r.id) && m[r.id] == tracker_after(r));
        assert(m.insert(r.id, tracker_after(r)) =~= m);
    }
}

/// Polling a server whose slots have not moved reports no new tokens: after
/// a reply has been folded into the trackers, folding the same reply again
/// yields zero prompt and decode deltas and leaves the trackers as they
/// were (for replies that list each slot once).
pub proof fn law_repeated_reply_adds_no_tokens(m: Map<u32, SlotTracker>, raws: Seq<LlamaSlotRaw>)
    requires
        distinct_slot_ids(raws),
    ensures
        track_slots(track_slots(m, raws).trackers, raws).decoded == 0,
        track_slots(track_slots(m, raws).trackers, raws).prompt == 0,
        track_slots(track_slots(m, raws).trackers, raws).trackers == track_slots(m, raws).trackers,
{
    let n = raws.len() as int;
    assert(raws.take(n) =~= raws);
    lemma_trackers_hold_reports(m, raws, n);
    let m1 = track_slots(m, raws).trackers;
    lemma_matching_reports_add_nothing(m1, raws, n);
}

/// Prefill accounting counts the prompt tokens the server actually
/// processed (`n_prompt_tokens_processed`, 0 when absent), never the whole
/// prompt (`n_prompt_tokens`, which includes cached tokens): appending a
/// slot report to a reply adds to the prompt delta all of its processed
/// count when the slot's task changed, only the growth since the last
/// report when the task is the same, and leaves a tracker that records the
/// report's task and processed count.
pub proof fn law_prompt_delta_counts_processed_tokens(
    m: Map<u32, SlotTracker>,
    raws: Seq<LlamaSlotRaw>,
    r: LlamaSlotRaw,
)
    ensures
        ({
            let before = track_slots(m, raws);
            let after = track_slots(m, raws.push(r));
            let processed: int = match r.n_prompt_tokens_processed {
                Some(v) => v as int,
                None => 0,
            };
            let known = before.trackers.contains_key(r.id);
            let last_task = if known {
                before.trackers[r.id].last_task_id
            } else {
                None
            };
            let last_processed: int = if known {
                before.trackers[r.id].last_prompt_processed as int
            } else {
                0
            };
            &&& r.id_task != last_task ==> after.prompt == before.prompt + processed
            &&& r.id_task == last_task && processed >= last_processed ==> after.prompt
                == before.prompt + processed - last_processed
            &&& r.id_task == last_task && processed < last_processed ==> after.prompt
                == before.prompt
            &&& after.trackers.contains_key(r.id)
            &&& after.trackers[r.id].last_task_id == r.id_task
            &&& after.trackers[r.id].last_prompt_processed == processed
        }),
{
    assert(raws.push(r).drop_last() =~= raws);
}

/// On fresh trackers a single slot report yields its processed prompt
/// count (0 when absent) as the prompt delta, whatever its prompt size.
pub proof fn law_fresh_slot_prompt_delta(r: LlamaSlotRaw)
    ensures
        track_slots(Map::empty(), seq![r]).prompt == match r.n_prompt_tokens_processed {
            Some(v) => v as int,
            None => 0,
        },
        track_slots(Map::empty(), seq![r]).trackers[r.id].last_prompt_processed
            == match r.n_prompt_tokens_processed {
            Some(v) => v,
            None => 0,
        },
{
    law_prompt_delta_counts_processed_tokens(Map::empty(), Seq::empty(), r);
    assert(Seq::<LlamaSlotRaw>::empty().push(r) =~= seq![r]);
}

/// A float type named in the file name is the quantization: `BF16` when
/// present, else `F16`, else `F32`.
pub proof fn law_float_types_are_recognized(u: Seq<char>)
    ensures
        contains(u, "BF16"@) ==> quant_of_upper(u) == Some("BF16"@),
        contains(u, "F16"@) && !contains(u, "BF16"@) ==> quant_of_upper(u) == Some("F16"@),
        contains(u, "F32"@) && !contains(u, "BF16"@) && !contains(u, "F16"@) ==> quant_of_upper(u)
            == Some("F32"@),
{
}

proof fn lemma_cap_add(acc: int, x: int)
    requires
        x >= 0,
        acc >= 0,
    ensures
        cap_u64(cap_u64(acc) + x) == cap_u64(acc + x),
{
}

fn sat_add(a: u64, b: u64) -> (r: u64)
    ensures
        r == cap_u64(a + b),
{
    a.saturating_add(b)
}

fn clone_opt_string(o: &Option<String>) -> (r: Option<String>)
    ensures
        opt_view(r) == opt_view(*o),
{
    match o {
        Some(s) => Some(s.clone()),
        None => None,
    }
}

/// Folds one `/slots` reply into the per-slot trackers and totals.
///
/// Slot counters become deltas against the slot's tracker when the slot is
/// still on the task the tracker saw, and count whole when the task changed.
pub fn aggregate_slots(
    trackers: &mut std::collections::HashMap<u32, SlotTracker>,
    raw_slots: &Vec<LlamaSlotRaw>,
    context_window_max: u64,
) -> (agg: SlotAggregate)
    requires
        raw_slots.len() <= u32::MAX,
    ensures
        agg.active_slots == count_processing(raw_slots@),
        agg.total_prompt_tokens == cap_u64(sum_prompt(raw_slots@)),
        agg.total_cache_hit_tokens == cap_u64(sum_cache(raw_slots@)),
        agg.total_context_tokens_used == cap_u64(sum_context(raw_slots@)),
        final(trackers)@ == track_slots(old(trackers)@, raw_slots@).trackers,
        agg.delta_decoded_tokens == cap_u64(track_slots(old(trackers)@, raw_slots@).decoded),
        agg.delta_prompt_tokens == cap_u64(track_slots(old(trackers)@, raw_slots@).prompt),
        agg.has_speculative == exists|i: int|
            0 <= i < raw_slots@.len() && slot_is_speculative(#[trigger] raw_slots@[i]),
        opt_view(agg.speculative_type) == last_spec_type(raw_slots@),
        agg.slots@.len() == raw_slots@.len(),
        forall|i: int|
            0 <= i < raw_slots@.len() ==> slot_record_ok(
                #[trigger] agg.slots@[i],
                raw_slots@[i],
                context_window_max,
            ),
{
    broadcast use vstd::std_specs::hash::group_hash_axioms;

    let mut active: u32 = 0;
    let mut total_prompt: u64 = 0;
    let mut total_cache: u64 = 0;
    let mut total_context: u64 = 0;
    let mut d_prompt: u64 = 0;
    let mut d_decoded: u64 = 0;
    let mut has_spec = false;
    let mut spec_type: Option<String> = None;
    let mut slots: Vec<SlotRecord> = Vec::new();
    let ghost m0 = trackers@;
    let mut i: usize = 0;
    while i < raw_slots.len()
        invariant
            i <= raw_slots.len() <= u32::MAX,
            m0 == old(trackers)@,
            active == count_processing(raw_slots@.take(i as int)),
            active <= i,
            total_prompt == cap_u64(sum_prompt(raw_slots@.take(i as int))),
            total_cache == cap_u64(sum_cache(raw_slots@.take(i as int))),
            total_context == cap_u64(sum_context(raw_slots@.take(i as int))),
            sum_prompt(raw_slots@.take(i as int)) >= 0,
            sum_cache(raw_slots@.take(i as int)) >= 0,
            sum_context(raw_slots@.take(i as int)) >= 0,
            trackers@ == track_slots(m0, raw_slots@.take(i as int)).trackers,
            d_decoded == cap_u64(track_slots(m0, raw_slots@.take(i as int)).decoded),
            d_prompt == cap_u64(track_slots(m0, raw_slots@.take(i as int)).prompt),
            track_slots(m0, raw_slots@.take(i as int)).decoded >= 0,
            track_slots(m0, raw_slots@.take(i as int)).prompt >= 0,
            has_spec == exists|j: int| 0 <= j < i && slot_is_speculative(#[trigger] raw_slots@[j]),
            opt_view(spec_type) == last_spec_type(raw_slots@.take(i as int)),
            slots@.len() == i,
            forall|j: int|
                0 <= j < i ==> slot_record_ok(#[trigger] slots@[j], raw_slots@[j], context_window_max),
        decreases raw_slots.len() - i,
    {
        let raw = &raw_slots[i];
        let ghost pre = raw_slots@.take(i as int);
        assert(raw_slots@.take(i + 1).drop_last() =~= pre);
        assert(raw_slots@.take(i + 1).last() == *raw);
        if raw.is_processing {
            active += 1;
        }
        let prompt_processed = match raw.n_prompt_tokens_processed {
            Some(v) => v,
            None => 0,
        };
        let prompt_total = match raw.n_prompt_tokens {
            Some(v) => v,
            None => 0,
        };
        let prompt_cache = match raw.n_prompt_tokens_cache {
            Some(v) => v,
            None => 0,
        };
        let decoded = match &raw.next_token {
            Some(nt) => nt.n_decoded(),
            None => 0,
        };
        proof {
            lemma_cap_add(sum_prompt(pre), prompt_total as int);
            lemma_cap_add(sum_cache(pre), prompt_cache as int);
        }
        total_prompt = sat_add(total_prompt, prompt_total);
        total_cache = sat_add(total_cache, prompt_cache);
        let slot_used = sat_add(prompt_total, decoded);
        proof {
            let c = sum_context(pre);
            assert(cap_u64(cap_u64(c) + cap_u64(prompt_total + decoded)) == cap_u64(
                c + prompt_total + decoded,
            ));
        }
        total_context = sat_add(total_context, slot_used);
        // Token deltas against the slot's tracker.
        let ghost st = track_slots(m0, pre);
        let tracker = match trackers.get(&raw.id) {
            Some(t) => *t,
            None => SlotTracker { last_task_id: None, last_decoded: 0, last_prompt_processed: 0 },
        };
        assert(tracker == tracker_of(st.trackers, raw.id));
        let same = raw.id_task == tracker.last_task_id;
        let (dd, dp) = if same {
            (decoded.saturating_sub(tracker.last_decoded), prompt_processed.saturating_sub(
                tracker.last_prompt_processed,
            ))
        } else {
            (decoded, prompt_processed)
        };
        assert(dd == counter_delta(same, decoded, tracker.last_decoded));
        assert(dp == counter_delta(same, prompt_processed, tracker.last_prompt_processed));
        proof {
            lemma_cap_add(st.decoded, dd as int);
            lemma_cap_add(st.prompt, dp as int);
        }
        d_decoded = sat_add(d_decoded, dd);
        d_prompt = sat_add(d_prompt, dp);
        trackers.insert(
            raw.id,
            SlotTracker {
                last_task_id: raw.id_task,
                last_decoded: decoded,
                last_prompt_processed: prompt_processed,
            },
        );
        // Speculative decoding.
        let spec = match raw.speculative {
            Some(b) => b,
            None => false,
        };
        let slot_type = match &raw.params {
            Some(p) => clone_opt_string(&p.speculative_types),
            None => None,
        };
        if spec || slot_type.is_some() {
            has_spec = true;
            if slot_type.is_some() {
                spec_type = clone_opt_string(&slot_type);
            }
        }
        proof {
            if slot_is_speculative(raw_slots@[i as int]) {
                assert(exists|j: int|
                    0 <= j < i + 1 && slot_is_speculative(#[trigger] raw_slots@[j]));
            }
        }
        slots.push(
            SlotRecord {
                id: raw.id,
                id_task: raw.id_task,
                is_processing: raw.is_processing,
                n_ctx: match raw.n_ctx {
                    Some(n) => n,
                    None => context_window_max,
                },
                n_prompt_tokens: prompt_total,
                n_prompt_tokens_processed: prompt_processed,
                n_prompt_tokens_cache: prompt_cache,
                n_decoded: decoded,
                speculative: spec,
                speculative_type: slot_type,
            },
        );
        i += 1;
    }
    assert(raw_slots@.take(raw_slots.len() as int) =~= raw_slots@);
    SlotAggregate {
        active_slots: active,
        total_prompt_tokens: total_prompt,
        total_cache_hit_tokens: total_cache,
        total_context_tokens_used: total_context,
        delta_prompt_tokens: d_prompt,
        delta_decoded_tokens: d_decoded,
        has_speculative: has_spec,
        speculative_type: spec_type,
        slots,
    }
}

// ---------------------------------------------------------------------------
// One poll of the server, summarized
// ---------------------------------------------------------------------------

/// The integer and text figures of one poll of the server (the speed and
/// percentage figures are derived from them with the poll interval).
pub struct LlmSummary {
    pub is_connected: bool,
    pub engine_name: String,
    pub endpoint_url: String,
    pub model_alias: String,
    pub model_path: String,
    pub model_ftype: String,
    pub cache_type_k: String,
    pub cache_type_v: String,
    pub speculative_enabled: bool,
    pub speculative_type: Option<String>,
    pub speculative_draft_model: Option<String>,
    pub speculative_draft_quant: Option<String>,
    pub total_slots: u32,
    pub context_window_max: u64,
    /// Totals over the slots; all zero and empty when disconnected.
    pub slots: SlotAggregate,
}

/// A present string, or the default text.
pub open spec fn or_text(o: Option<Seq<char>>, default: Seq<char>) -> Seq<char> {
    match o {
        Some(s) => s,
        None => default,
    }
}

/// Context window the server reports (8192 when it does not), at least 1.
pub open spec fn context_window_of(props: Option<LlamaProps>) -> u64 {
    let n = match props {
        Some(p) => match p.default_generation_settings {
            Some(g) => match g.n_ctx {
                Some(n) => n,
                None => 8192,
            },
            None => 8192,
        },
        None => 8192,
    };
    if n >= 1 {
        n
    } else {
        1
    }
}

/// Slot count the server reports, else the number of slots listed (at least 1).
pub open spec fn total_slots_of(props: Option<LlamaProps>, listed: nat) -> u32 {
    match props {
        Some(p) if p.total_slots is Some => p.total_slots->0,
        _ => if listed >= 1 {
            listed as u32
        } else {
            1
        },
    }
}

/// The server is reachable: `/props` answered or `/slots` listed a slot.
pub open spec fn connected(props: Option<LlamaProps>, raw_slots: Seq<LlamaSlotRaw>) -> bool {
    props is Some || raw_slots.len() > 0
}

/// A cache type from the command line, `f16` when none was given.
pub open spec fn cache_type_or_default(t: Seq<char>) -> Seq<char> {
    if t.len() > 0 {
        t
    } else {
        "f16"@
    }
}

fn text(s: &str) -> (r: String)
    ensures
        r@ == s@,
{
    let v = chars_of(s);
    string_from_chars(v.as_slice())
}

fn or_text_exec(o: &Option<String>, default: &str) -> (r: String)
    ensures
        r@ == or_text(opt_view(*o), default@),
{
    match o {
        Some(s) => s.clone(),
        None => text(default),
    }
}

/// Summarizes one poll of a llama.cpp server from its `/props` and `/slots`
/// replies and what the command line of the running server tells.
///
/// When the server is unreachable the summary says so and nothing else,
/// and the trackers are left as they were.
pub fn summarize_llm(
    endpoint_url: &str,
    props: &Option<LlamaProps>,
    raw_slots: &Vec<LlamaSlotRaw>,
    proc_info: &Option<ProcLlamaInfo>,
    trackers: &mut std::collections::HashMap<u32, SlotTracker>,
) -> (m: LlmSummary)
    requires
        raw_slots.len() <= u32::MAX,
    ensures
        m.is_connected == connected(*props, raw_slots@),
        m.endpoint_url@ == endpoint_url@,
        !m.is_connected ==> {
            &&& m.engine_name@ == "llama.cpp (Disconnected)"@
            &&& m.model_alias@.len() == 0 && m.model_path@.len() == 0 && m.model_ftype@.len() == 0
            &&& m.cache_type_k@.len() == 0 && m.cache_type_v@.len() == 0
            &&& !m.speculative_enabled && m.speculative_type is None
            &&& m.speculative_draft_model is None && m.speculative_draft_quant is None
            &&& m.total_slots == 0 && m.context_window_max == 0
            &&& m.slots.active_slots == 0 && m.slots.total_prompt_tokens == 0
            &&& m.slots.total_cache_hit_tokens == 0 && m.slots.total_context_tokens_used == 0
            &&& m.slots.delta_prompt_tokens == 0 && m.slots.delta_decoded_tokens == 0
            &&& !m.slots.has_speculative && m.slots.speculative_type is None
            &&& m.slots.slots@.len() == 0
            &&& final(trackers)@ == old(trackers)@
        },
        m.is_connected ==> {
            let info = match *proc_info {
                Some(i) => i@,
                None => empty_proc_info(),
            };
            let ctx = context_window_of(*props);
            &&& m.engine_name@ == "llama.cpp"@
            &&& m.model_alias@ == or_text(
                match *props {
                    Some(p) => opt_view(p.model_alias),
                    None => None,
                },
                "Unknown Model"@,
            )
            &&& m.model_path@ == or_text(
                match *props {
                    Some(p) => opt_view(p.model_path),
                    None => None,
                },
                Seq::empty(),
            )
            &&& m.model_ftype@ == or_text(
                match *props {
                    Some(p) => opt_view(p.model_ftype),
                    None => None,
                },
                "f16"@,
            )
            &&& m.context_window_max == ctx
            &&& m.total_slots == total_slots_of(*props, raw_slots@.len())
            &&& m.cache_type_k@ == cache_type_or_default(info.cache_type_k)
            &&& m.cache_type_v@ == cache_type_or_default(info.cache_type_v)
            &&& m.speculative_enabled == (m.slots.has_speculative || info.model_draft_path is Some)
            &&& opt_view(m.speculative_type) == match opt_view(m.slots.speculative_type) {
                Some(t) => Some(t),
                None => info.model_draft_name,
            }
            &&& opt_view(m.speculative_draft_model) == info.model_draft_name
            &&& opt_view(m.speculative_draft_quant) == info.model_draft_quant
            // the slot totals are those of `aggregate_slots`
            &&& m.slots.active_slots == count_processing(raw_slots@)
            &&& m.slots.total_prompt_tokens == cap_u64(sum_prompt(raw_slots@))
            &&& m.slots.total_cache_hit_tokens == cap_u64(sum_cache(raw_slots@))
            &&& m.slots.total_context_tokens_used == cap_u64(sum_context(raw_slots@))
            &&& final(trackers)@ == track_slots(old(trackers)@, raw_slots@).trackers
            &&& m.slots.delta_decoded_tokens == cap_u64(
                track_slots(old(trackers)@, raw_slots@).decoded,
            )
            &&& m.slots.delta_prompt_tokens == cap_u64(
                track_slots(old(trackers)@, raw_slots@).prompt,
            )
            &&& m.slots.has_speculative == exists|i: int|
                0 <= i < raw_slots@.len() && slot_is_speculative(#[trigger] raw_slots@[i])
            &&& opt_view(m.slots.speculative_type) == last_spec_type(raw_slots@)
            &&& m.slots.slots@.len() == raw_slots@.len()
            &&& forall|i: int|
                0 <= i < raw_slots@.len() ==> slot_record_ok(
                    #[trigger] m.slots.slots@[i],
                    raw_slots@[i],
                    ctx,
                )
        },
{
    let is_connected = props.is_some() || raw_slots.len() > 0;
    if !is_connected {
        return LlmSummary {
            is_connected: false,
            engine_name: text("llama.cpp (Disconnected)"),
            endpoint_url: text(endpoint_url),
            model_alias: String::new(),
            model_path: String::new(),
            model_ftype: String::new(),
            cache_type_k: String::new(),
            cache_type_v: String::new(),
            speculative_enabled: false,
            speculative_type: None,
            speculative_draft_model: None,
            speculative_draft_quant: None,
            total_slots: 0,
            context_window_max: 0,
            slots: SlotAggregate {
                active_slots: 0,
                total_prompt_tokens: 0,
                total_cache_hit_tokens: 0,
                total_context_tokens_used: 0,
                delta_prompt_tokens: 0,
                delta_decoded_tokens: 0,
                has_speculative: false,
                speculative_type: None,
                slots: Vec::new(),
            },
        };
    }
    let (model_alias, model_path, model_ftype, n_ctx, listed_total) = match props {
        Some(p) => (
            or_text_exec(&p.model_alias, "Unknown Model"),
            or_text_exec(&p.model_path, ""),
            or_text_exec(&p.model_ftype, "f16"),
            match &p.default_generation_settings {
                Some(g) => match g.n_ctx {
                    Some(n) => n,
                    None => 8192,
                },
                None => 8192,
            },
            p.total_slots,
        ),
        None => (text("Unknown Model"), text(""), text("f16"), 8192, None),
    };
    proof {
        reveal_strlit("");
    }
    let context_window_max = if n_ctx >= 1 {
        n_ctx
    } else {
        1
    };
    let total_slots = match listed_total {
        Some(t) => t,
        None => if raw_slots.len() >= 1 {
            raw_slots.len() as u32
        } else {
            1
        },
    };
    let (cache_k, cache_v, draft_path_known, draft_name, draft_quant) = match proc_info {
        Some(i) => (
            if !i.cache_type_k.as_str().is_empty() {
                i.cache_type_k.clone()
            } else {
                text("f16")
            },
            if !i.cache_type_v.as_str().is_empty() {
                i.cache_type_v.clone()
            } else {
                text("f16")
            },
            i.model_draft_path.is_some(),
            clone_opt_string(&i.model_draft_name),
            clone_opt_string(&i.model_draft_quant),
        ),
        None => (text("f16"), text("f16"), false, None, None),
    };
    let agg = aggregate_slots(trackers, raw_slots, context_window_max);
    let speculative_type = match &agg.speculative_type {
        Some(t) => Some(t.clone()),
        None => clone_opt_string(&draft_name),
    };
    LlmSummary {
        is_connected: true,
        engine_name: text("llama.cpp"),
        endpoint_url: text(endpoint_url),
        model_alias,
        model_path,
        model_ftype,
        cache_type_k: cache_k,
        cache_type_v: cache_v,
        speculative_enabled: agg.has_speculative || draft_path_known,
        speculative_type,
        speculative_draft_model: draft_name,
        speculative_draft_quant: draft_quant,
        total_slots,
        context_window_max,
        slots: agg,
    }
}

// ---------------------------------------------------------------------------
// Following the server log
// ---------------------------------------------------------------------------

/// How much of the end of a large log is read when it is first opened.
pub const LOG_TAIL_START_BYTES: u64 = 32768;

/// The largest piece of a log read at once.
pub const LOG_READ_CHUNK_BYTES: u64 = 65536;

/// Where reading resumes in a log of `file_len` bytes of which `last_offset`
/// bytes were consumed: on the first read of a log longer than
/// `LOG_TAIL_START_BYTES`, that many bytes before its end; after the log
/// shrank (rotation or truncation), its start; otherwise where it stopped.
pub fn log_resume_offset(last_offset: u64, file_len: u64) -> (r: u64)
    ensures
        r == if last_offset == 0 && file_len > LOG_TAIL_START_BYTES {
            (file_len - LOG_TAIL_START_BYTES) as u64
        } else if file_len < last_offset {
            0
        } else {
            last_offset
        },
        r <= file_len,
{
    if last_offset == 0 && file_len > LOG_TAIL_START_BYTES {
        file_len - LOG_TAIL_START_BYTES
    } else if file_len < last_offset {
        0
    } else {
        last_offset
    }
}

/// Size of the next piece to read from `offset` in a log of `file_len`
/// bytes: what is left, at most `LOG_READ_CHUNK_BYTES`.
pub fn log_chunk_len(offset: u64, file_len: u64) -> (r: u64)
    requires
        offset <= file_len,
    ensures
        r == if file_len - offset < LOG_READ_CHUNK_BYTES {
            file_len - offset
        } else {
            LOG_READ_CHUNK_BYTES as int
        },
        offset + r <= file_len,
{
    let left = file_len - offset;
    if left < LOG_READ_CHUNK_BYTES {
        left
    } else {
        LOG_READ_CHUNK_BYTES
    }
}

} // verus!
