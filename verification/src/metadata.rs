//! The cache validators kept for each mirrored file.
//!
//! A validator is the `ETag` and `Last-Modified` value that the server
//! sent with a file. It is stored as text beside the mirror, one
//! `key=value` line per field, and read back before the file is fetched
//! again. The record is a hint only: whatever cannot be read, or is not
//! there, reads as absent, and the file is then fetched unconditionally.

use vstd::prelude::*;
use crate::text::{chars_of, join, has_prefix_in, same_text, slice_of, starts_with};

verus! {

/// What is appended to a file's relative path to name its record.
pub const META_SUFFIX: &'static str = ".meta";

/// The cache validators of one file.
#[derive(Debug, PartialEq, Eq)]
pub struct Validator {
    pub etag: Option<String>,
    pub last_modified: Option<String>,
}

#[verifier::ext_equal]
pub struct ValidatorView {
    pub etag: Option<Seq<char>>,
    pub last_modified: Option<Seq<char>>,
}

impl View for Validator {
    type V = ValidatorView;

    open spec fn view(&self) -> ValidatorView {
        ValidatorView {
            etag: match self.etag {
                Some(s) => Some(s@),
                None => None,
            },
            last_modified: match self.last_modified {
                Some(s) => Some(s@),
                None => None,
            },
        }
    }
}

pub open spec fn etag_key() -> Seq<char> {
    seq!['e', 't', 'a', 'g', '=']
}

pub open spec fn last_modified_key() -> Seq<char> {
    seq!['l', 'a', 's', 't', '_', 'm', 'o', 'd', 'i', 'f', 'i', 'e', 'd', '=']
}

/// A record without any validator.
pub open spec fn absent() -> ValidatorView {
    ValidatorView { etag: None, last_modified: None }
}

/// Whether a stored value counts: the empty value and the word `null`
/// stand for no value.
pub open spec fn is_present(value: Seq<char>) -> bool {
    value.len() > 0 && value != seq!['n', 'u', 'l', 'l']
}

/// A stored value as a validator: `None` if it does not count.
pub open spec fn stored(value: Seq<char>) -> Option<Seq<char>> {
    if is_present(value) {
        Some(value)
    } else {
        None
    }
}

/// The number of characters before the first line feed of `text`, or the
/// length of `text` if it has none.
pub open spec fn line_len(text: Seq<char>) -> int
    decreases text.len(),
{
    if text.len() == 0 || text[0] == '\n' {
        0
    } else {
        1 + line_len(text.skip(1))
    }
}

/// A line as it is read when a line feed followed it: without a carriage
/// return at its end.
pub open spec fn without_cr(line: Seq<char>) -> Seq<char> {
    if line.len() > 0 && line.last() == '\r' {
        line.drop_last()
    } else {
        line
    }
}

/// The record after one more line has been read. A line that begins with
/// `etag=` sets the ETag to what follows, a line that begins with
/// `last_modified=` sets the modification date, in both cases only if
/// the value counts; any other line is passed over.
pub open spec fn with_line(record: ValidatorView, line: Seq<char>) -> ValidatorView {
    if starts_with(line, etag_key()) {
        let value = line.subrange(etag_key().len() as int, line.len() as int);
        if is_present(value) {
            ValidatorView { etag: Some(value), ..record }
        } else {
            record
        }
    } else if starts_with(line, last_modified_key()) {
        let value = line.subrange(last_modified_key().len() as int, line.len() as int);
        if is_present(value) {
            ValidatorView { last_modified: Some(value), ..record }
        } else {
            record
        }
    } else {
        record
    }
}

/// The record after the lines of `text` have been read in order, starting
/// from `record`. Lines end at a line feed or at a carriage return and a
/// line feed; the last line needs no line ending.
pub open spec fn with_lines(record: ValidatorView, text: Seq<char>) -> ValidatorView
    decreases text.len(),
{
    if text.len() == 0 {
        record
    } else {
        let n = line_len(text);
        if n >= text.len() {
            with_line(record, text)
        } else {
            proof {
                lemma_line_len_bounds(text);
            }
            with_lines(
                with_line(record, without_cr(text.subrange(0, n))),
                text.subrange(n + 1, text.len() as int),
            )
        }
    }
}

/// The validators that the stored text `text` holds.
pub open spec fn parsed(text: Seq<char>) -> ValidatorView {
    with_lines(absent(), text)
}

/// The validators as read from a file that may be missing.
pub open spec fn parsed_or_absent(text: Option<Seq<char>>) -> ValidatorView {
    match text {
        Some(t) => parsed(t),
        None => absent(),
    }
}

/// The text stored for the two values: one line for each.
pub open spec fn rendered(etag: Seq<char>, last_modified: Seq<char>) -> Seq<char> {
    etag_key() + etag + seq!['\n'] + last_modified_key() + last_modified + seq!['\n']
}

/// Where the record of the file at `path` lies, relative to the root of
/// the records.
pub open spec fn record_path(path: Seq<char>) -> Seq<char> {
    path + META_SUFFIX@
}

pub proof fn lemma_line_len_bounds(text: Seq<char>)
    ensures
        0 <= line_len(text) <= text.len(),
        line_len(text) < text.len() ==> text[line_len(text)] == '\n',
        forall|i: int| 0 <= i < line_len(text) ==> text[i] != '\n',
    decreases text.len(),
{
    if text.len() == 0 || text[0] == '\n' {
    } else {
        let rest = text.skip(1);
        lemma_line_len_bounds(rest);
        assert forall|i: int| 0 <= i < line_len(text) implies text[i] != '\n' by {
            if i > 0 {
                assert(rest[i - 1] == text[i]);
            }
        }
    }
}

/// The first line ends where the first line feed stands.
pub proof fn lemma_line_len_is(text: Seq<char>, n: int)
    requires
        0 <= n <= text.len(),
        forall|i: int| 0 <= i < n ==> text[i] != '\n',
        n < text.len() ==> text[n] == '\n',
    ensures
        line_len(text) == n,
{
    lemma_line_len_bounds(text);
}

/// Whether a stored value counts as a validator.
pub fn counts(value: &str) -> (yes: bool)
    ensures
        yes == is_present(value@),
{
    proof {
        reveal_strlit("null");
        assert("null"@ =~= seq!['n', 'u', 'l', 'l']);
    }
    value.unicode_len() > 0 && !same_text(value, "null")
}

/// Reads the line that spans the characters `from..to` of `text` into
/// `record`.
fn read_line(
    record: Validator,
    text: &str,
    chars: &Vec<char>,
    from: usize,
    to: usize,
    etag: &Vec<char>,
    last_modified: &Vec<char>,
) -> (after: Validator)
    requires
        chars@ == text@,
        from <= to <= chars.len(),
        etag@ == etag_key(),
        last_modified@ == last_modified_key(),
    ensures
        after@ == with_line(record@, text@.subrange(from as int, to as int)),
{
    let ghost line = text@.subrange(from as int, to as int);
    if has_prefix_in(chars, from, to, etag) {
        let value = slice_of(text, from + etag.len(), to);
        assert(value@ =~= line.subrange(etag_key().len() as int, line.len() as int));
        if counts(value.as_str()) {
            Validator { etag: Some(value), last_modified: record.last_modified }
        } else {
            record
        }
    } else if has_prefix_in(chars, from, to, last_modified) {
        let value = slice_of(text, from + last_modified.len(), to);
        assert(value@ =~= line.subrange(last_modified_key().len() as int, line.len() as int));
        if counts(value.as_str()) {
            Validator { etag: record.etag, last_modified: Some(value) }
        } else {
            record
        }
    } else {
        record
    }
}

/// Reads the validators out of the stored text.
pub fn parse_validator(text: &str) -> (record: Validator)
    ensures
        record@ == parsed(text@),
{
    let chars = chars_of(text);
    proof {
        reveal_strlit("etag=");
        reveal_strlit("last_modified=");
    }
    let etag = chars_of("etag=");
    let last_modified = chars_of("last_modified=");
    let mut record = Validator { etag: None, last_modified: None };
    let mut begin: usize = 0;
    assert(text@.skip(0) =~= text@);
    while begin < chars.len()
        invariant
            begin <= chars.len(),
            chars@ == text@,
            etag@ == etag_key(),
            last_modified@ == last_modified_key(),
            parsed(text@) == with_lines(record@, text@.skip(begin as int)),
        decreases chars.len() - begin,
    {
        let ghost rest = text@.skip(begin as int);
        let mut end: usize = begin;
        while end < chars.len() && chars[end] != '\n'
            invariant
                begin <= end <= chars.len(),
                chars@ == text@,
                forall|j: int| begin <= j < end ==> text@[j] != '\n',
            decreases chars.len() - end,
        {
            end += 1;
        }
        proof {
            lemma_line_len_is(rest, end - begin);
        }
        if end < chars.len() {
            let stop: usize = if end > begin && chars[end - 1] == '\r' {
                end - 1
            } else {
                end
            };
            proof {
                let line = rest.subrange(0, end - begin);
                assert(without_cr(line) =~= text@.subrange(begin as int, stop as int));
                assert(rest.subrange(end - begin + 1, rest.len() as int) =~= text@.skip(end + 1));
            }
            record = read_line(record, text, &chars, begin, stop, &etag, &last_modified);
            begin = end + 1;
        } else {
            record = read_line(record, text, &chars, begin, end, &etag, &last_modified);
            begin = end;
        }
    }
    record
}

/// The validators as read from a record that may be missing: `None`
/// stands for a record that is not there or cannot be read.
pub fn read_validator(text: Option<&str>) -> (record: Validator)
    ensures
        record@ == parsed_or_absent(
            match text {
                Some(t) => Some(t@),
                None => None,
            },
        ),
{
    match text {
        Some(t) => parse_validator(t),
        None => Validator { etag: None, last_modified: None },
    }
}

/// The text to store for the two values.
pub fn render_validator(etag: &str, last_modified: &str) -> (text: String)
    ensures
        text@ == rendered(etag@, last_modified@),
{
    proof {
        reveal_strlit("etag=");
        reveal_strlit("last_modified=");
        reveal_strlit("\n");
    }
    let mut text = "etag=".to_owned();
    text.append(etag);
    text.append("\n");
    text.append("last_modified=");
    text.append(last_modified);
    text.append("\n");
    text
}

/// Where the record of the file at `path` lies, relative to the root of
/// the records.
pub fn record_path_of(path: &str) -> (record: String)
    ensures
        record@ == record_path(path@),
{
    join(path, META_SUFFIX)
}

/// Whether `value` fits on one line: it holds no line feed and no
/// carriage return.
pub open spec fn is_one_line(value: Seq<char>) -> bool {
    forall|i: int| 0 <= i < value.len() ==> value[i] != '\n' && value[i] != '\r'
}

/// What is stored for two values is read back as those values, each
/// absent if it is empty or the word `null`.
pub proof fn law_stored_values_read_back(etag: Seq<char>, last_modified: Seq<char>)
    requires
        is_one_line(etag),
        is_one_line(last_modified),
    ensures
        parsed(rendered(etag, last_modified)) == (ValidatorView {
            etag: stored(etag),
            last_modified: stored(last_modified),
        }),
{
    let text = rendered(etag, last_modified);
    let first = etag_key() + etag;
    let second = last_modified_key() + last_modified;
    let tail = second + seq!['\n'];
    lemma_line_len_is(text, first.len() as int);
    assert(text.subrange(0, first.len() as int) =~= first);
    assert(text.subrange(first.len() as int + 1, text.len() as int) =~= tail);
    assert(first.subrange(0, etag_key().len() as int) =~= etag_key());
    assert(first.subrange(etag_key().len() as int, first.len() as int) =~= etag);
    let record = with_line(absent(), first);

    lemma_line_len_is(tail, second.len() as int);
    assert(tail.subrange(0, second.len() as int) =~= second);
    assert(tail.subrange(second.len() as int + 1, tail.len() as int) =~= Seq::<char>::empty());
    assert(!starts_with(second, etag_key()));
    assert(second.subrange(0, last_modified_key().len() as int) =~= last_modified_key());
    assert(second.subrange(last_modified_key().len() as int, second.len() as int)
        =~= last_modified);
    let both = with_line(record, second);
    assert(with_lines(both, Seq::<char>::empty()) == both);
    assert(with_lines(absent(), text) == with_lines(record, tail));
}

} // verus!
