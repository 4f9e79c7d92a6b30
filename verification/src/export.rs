//! The rules of export: the stem and file name an export gets, how a name
//! collision is resolved, and the checks around encoding.
use vstd::prelude::*;

use std::path::{Path, PathBuf};

use crate::error::CoreError;
use crate::geometry::OutputDimensions;
use crate::model::{output_extension, OutputFormat};
use crate::paths::{file_stem_text, path_file_stem};
use crate::text::{decimal, digit_char, lemma_decimal_digits, push_decimal, string_from_chars, chars_of};

verus! {

/// What to do when the output file already exists.
#[derive(Debug, Clone, Copy, PartialEq, Eq, Structural)]
pub enum CollisionPolicy {
    AutoRename,
    FailIfExists,
}

/// A written export: where it is, its size and its format.
#[derive(Debug, Clone, PartialEq, Eq)]
pub struct ExportResult {
    pub path: PathBuf,
    pub width: u32,
    pub height: u32,
    pub format: OutputFormat,
}

/// A Unicode control character (general category Cc).
pub open spec fn is_control_char(c: char) -> bool {
    (c as u32) <= 0x1f || (0x7f <= (c as u32) && (c as u32) <= 0x9f)
}

/// The character a stem keeps: separators and control characters become `_`.
pub open spec fn stem_char(c: char) -> char {
    if c == '/' || c == '\\' || is_control_char(c) {
        '_'
    } else {
        c
    }
}

/// A stem safe to use as a file name: separators and control characters
/// replaced by `_`, and `scan` for an empty stem.
pub open spec fn safe_stem_text(stem: Seq<char>) -> Seq<char> {
    if stem.len() == 0 {
        seq!['s', 'c', 'a', 'n']
    } else {
        stem.map_values(|c: char| stem_char(c))
    }
}

/// The file name of an export attempt: `stem.ext` first, then
/// `stem (n).ext` for n = 1, 2, ...
pub open spec fn output_name(stem: Seq<char>, format: OutputFormat, attempt: nat) -> Seq<char> {
    if attempt == 0 {
        safe_stem_text(stem) + seq!['.'] + output_extension(format)
    } else {
        safe_stem_text(stem) + seq![' ', '('] + decimal(attempt) + seq![')', '.'] + output_extension(
            format,
        )
    }
}

/// The stem of an export: the source file's stem when it is non-empty text,
/// `scan` otherwise.
pub open spec fn export_stem_text(stem: Option<Seq<char>>) -> Seq<char> {
    match stem {
        Some(s) => if s.len() > 0 {
            s
        } else {
            seq!['s', 'c', 'a', 'n']
        },
        None => seq!['s', 'c', 'a', 'n'],
    }
}

/// A safe stem has the stem's length and keeps each of its characters,
/// except that each `/`, `\` and control character (U+0000 to U+001F, U+007F
/// to U+009F) becomes `_`; an empty stem becomes `scan`.
pub proof fn lemma_safe_stems_change_only_separators_and_controls(stem: Seq<char>)
    ensures
        stem.len() > 0 ==> safe_stem_text(stem).len() == stem.len(),
        stem.len() == 0 ==> safe_stem_text(stem) == seq!['s', 'c', 'a', 'n'],
        forall|i: int|
            0 <= i < stem.len() ==> {
                let c = #[trigger] stem[i];
                if c == '/' || c == '\\' || (c as u32) <= 0x1f || (0x7f <= (c as u32) && (c as u32)
                    <= 0x9f) {
                    safe_stem_text(stem)[i] == '_'
                } else {
                    safe_stem_text(stem)[i] == c
                }
            },
{
}

/// Replaces path separators and control characters by `_`; an empty stem
/// becomes `scan`.
pub fn safe_stem(stem: &str) -> (safe: String)
    ensures
        safe@ == safe_stem_text(stem@),
        stem@.len() > 0 ==> safe@.len() == stem@.len(),
        stem@.len() == 0 ==> safe@ == seq!['s', 'c', 'a', 'n'],
        forall|i: int|
            0 <= i < stem@.len() ==> {
                let c = #[trigger] stem@[i];
                if c == '/' || c == '\\' || (c as u32) <= 0x1f || (0x7f <= (c as u32) && (c as u32)
                    <= 0x9f) {
                    safe@[i] == '_'
                } else {
                    safe@[i] == c
                }
            },
        safe@.len() > 0,
        forall|i: int|
            0 <= i < safe@.len() ==> #[trigger] safe@[i] != '/' && safe@[i] != '\\'
                && !is_control_char(safe@[i]),
{
    let chars = chars_of(stem);
    if chars.len() == 0 {
        let scan = ['s', 'c', 'a', 'n'];
        let safe = string_from_chars(&scan);
        proof {
            assert(scan@ =~= seq!['s', 'c', 'a', 'n']);
        }
        return safe;
    }
    let mut out: Vec<char> = Vec::new();
    let mut i: usize = 0;
    while i < chars.len()
        invariant
            i <= chars@.len(),
            chars@ == stem@,
            out@ == chars@.take(i as int).map_values(|c: char| stem_char(c)),
        decreases chars@.len() - i,
    {
        let c = chars[i];
        let code = c as u32;
        let mapped = if c == '/' || c == '\\' || code <= 0x1f || (0x7f <= code && code <= 0x9f) {
            '_'
        } else {
            c
        };
        out.push(mapped);
        proof {
            assert(chars@.take(i + 1).map_values(|c: char| stem_char(c)) =~= chars@.take(
                i as int,
            ).map_values(|c: char| stem_char(c)).push(stem_char(c)));
        }
        i = i + 1;
    }
    proof {
        assert(chars@.take(chars@.len() as int) =~= chars@);
    }
    string_from_chars(out.as_slice())
}

/// The stem an export of a source file gets, given the file's stem.
pub fn export_stem(stem: Option<String>) -> (chosen: String)
    ensures
        chosen@ == export_stem_text(
            match stem {
                Some(s) => Some(s@),
                None => None,
            },
        ),
{
    let scan = ['s', 'c', 'a', 'n'];
    proof {
        assert(scan@ =~= seq!['s', 'c', 'a', 'n']);
    }
    match stem {
        Some(s) => if !s.as_str().is_empty() {
            s
        } else {
            string_from_chars(&scan)
        },
        None => string_from_chars(&scan),
    }
}

/// The stem an export of the file at `path` gets.
pub fn export_stem_for_path(path: &Path) -> (chosen: String)
    ensures
        chosen@ == export_stem_text(path_file_stem(path)),
        chosen@.len() > 0,
{
    export_stem(file_stem_text(path))
}

/// The file name of export attempt `attempt` for `stem` in `format`.
pub fn output_file_name(stem: &str, format: OutputFormat, attempt: u32) -> (name: String)
    ensures
        name@ == output_name(stem@, format, attempt as nat),
{
    let safe = chars_of(safe_stem(stem).as_str());
    let extension = chars_of(format.extension());
    let mut name: Vec<char> = Vec::new();
    let mut i: usize = 0;
    while i < safe.len()
        invariant
            i <= safe@.len(),
            name@ == safe@.take(i as int),
        decreases safe@.len() - i,
    {
        name.push(safe[i]);
        proof {
            assert(safe@.take(i + 1) =~= safe@.take(i as int).push(safe@[i as int]));
        }
        i = i + 1;
    }
    proof {
        assert(safe@.take(safe@.len() as int) =~= safe@);
    }
    if attempt > 0 {
        name.push(' ');
        name.push('(');
        push_decimal(&mut name, attempt);
        name.push(')');
    }
    name.push('.');
    let ghost before = name@;
    let mut j: usize = 0;
    while j < extension.len()
        invariant
            j <= extension@.len(),
            name@ == before + extension@.take(j as int),
        decreases extension@.len() - j,
    {
        name.push(extension[j]);
        proof {
            assert(extension@.take(j + 1) =~= extension@.take(j as int).push(extension@[j as int]));
        }
        j = j + 1;
    }
    proof {
        assert(extension@.take(extension@.len() as int) =~= extension@);
        if attempt == 0 {
            assert(name@ =~= output_name(stem@, format, attempt as nat));
        } else {
            assert(name@ =~= output_name(stem@, format, attempt as nat));
        }
    }
    string_from_chars(name.as_slice())
}

/// The next move of the search for a free output name.
#[derive(Debug, Clone, Copy, PartialEq, Eq, Structural)]
pub enum CollisionStep {
    /// The current attempt's name is free: write there.
    UseCurrent,
    /// The name is taken: try this attempt next.
    TryAttempt(u32),
    /// The name is taken and no further name will be tried.
    GiveUp,
}

/// Decides, for export attempt `attempt` whose name does or does not
/// exist yet, where the search goes: a free name is used; a taken first
/// name fails under `FailIfExists`; otherwise the next number is tried,
/// until the numbers run out.
pub fn collision_step(policy: CollisionPolicy, attempt: u32, exists: bool) -> (step: CollisionStep)
    ensures
        !exists ==> step == CollisionStep::UseCurrent,
        exists && attempt == 0 && policy == CollisionPolicy::FailIfExists ==> step
            == CollisionStep::GiveUp,
        exists && !(attempt == 0 && policy == CollisionPolicy::FailIfExists) && attempt < u32::MAX
            ==> step == CollisionStep::TryAttempt((attempt + 1) as u32),
        exists && attempt == u32::MAX ==> step == CollisionStep::GiveUp,
{
    if !exists {
        return CollisionStep::UseCurrent;
    }
    if attempt == 0 && policy == CollisionPolicy::FailIfExists {
        return CollisionStep::GiveUp;
    }
    if attempt == u32::MAX {
        return CollisionStep::GiveUp;
    }
    CollisionStep::TryAttempt(attempt + 1)
}

proof fn lemma_decimal_len(n: nat)
    ensures
        n >= 10 ==> decimal(n).len() >= 2,
    decreases n,
{
    if n >= 10 {
        lemma_decimal_digits(n / 10);
    }
}

proof fn lemma_decimal_injective(a: nat, b: nat)
    requires
        decimal(a) == decimal(b),
    ensures
        a == b,
    decreases a,
{
    lemma_decimal_len(a);
    lemma_decimal_len(b);
    if a < 10 && b < 10 {
        assert(decimal(a)[0] == digit_char(a));
        assert(decimal(b)[0] == digit_char(b));
    } else if a >= 10 && b >= 10 {
        let da = decimal(a);
        let db = decimal(b);
        assert(da.last() == digit_char(a % 10));
        assert(db.last() == digit_char(b % 10));
        assert(da.drop_last() =~= decimal(a / 10));
        assert(db.drop_last() =~= decimal(b / 10));
        lemma_decimal_injective(a / 10, b / 10);
    }
}

/// Distinct attempts give distinct file names, so the search for a free
/// name never tries the same name twice.
pub proof fn lemma_output_names_distinct(stem: Seq<char>, format: OutputFormat, a: nat, b: nat)
    requires
        a != b,
    ensures
        output_name(stem, format, a) != output_name(stem, format, b),
{
    let safe = safe_stem_text(stem);
    let ext = output_extension(format);
    if a == 0 || b == 0 {
        let (zero, other) = if a == 0 {
            (a, b)
        } else {
            (b, a)
        };
        assert(output_name(stem, format, zero)[safe.len() as int] == '.');
        assert(output_name(stem, format, other)[safe.len() as int] == ' ');
    } else {
        lemma_decimal_digits(a);
        lemma_decimal_digits(b);
        let da = decimal(a);
        let db = decimal(b);
        let prefix = safe + seq![' ', '('];
        let na = output_name(stem, format, a);
        let nb = output_name(stem, format, b);
        assert(na =~= prefix + (da + (seq![')', '.'] + ext)));
        assert(nb =~= prefix + (db + (seq![')', '.'] + ext)));
        if na == nb {
            assert forall|k: int| 0 <= k < da.len() && k < db.len() implies da[k] == db[k] by {
                assert(na[prefix.len() + k] == da[k]);
                assert(nb[prefix.len() + k] == db[k]);
            }
            if da.len() < db.len() {
                assert(na[(prefix.len() + da.len()) as int] == ')');
                assert(nb[(prefix.len() + da.len()) as int] == db[da.len() as int]);
            } else if db.len() < da.len() {
                assert(nb[(prefix.len() + db.len()) as int] == ')');
                assert(na[(prefix.len() + db.len()) as int] == da[db.len() as int]);
            } else {
                assert(da =~= db);
                lemma_decimal_injective(a, b);
            }
        }
    }
}

/// A JPEG quality of zero is refused; 1 through 255 are accepted (the
/// encoder clamps to 100).
pub fn check_jpeg_quality(quality: u8) -> (result: Result<(), CoreError>)
    ensures
        result is Ok <==> quality > 0,
        result matches Err(e) ==> e is InvalidParameter,
        result matches Err(CoreError::InvalidParameter { field, .. }) ==> field@ == "jpeg_quality"@,
{
    if quality == 0 {
        return Err(
            CoreError::InvalidParameter {
                field: "jpeg_quality",
                reason: "must be between 1 and 100".to_owned(),
            },
        );
    }
    Ok(())
}

/// The quality handed to the JPEG encoder: the setting clamped to 1..=100.
pub fn encoder_quality(quality: u8) -> (clamped: u8)
    ensures
        clamped == if quality < 1 {
            1
        } else if quality > 100 {
            100
        } else {
            quality
        },
{
    if quality < 1 {
        1
    } else if quality > 100 {
        100
    } else {
        quality
    }
}

/// Compares the size of a re-opened export with the size it was processed
/// to; a difference is an invalid-output error carrying the size found.
pub fn check_reopened_dimensions(expected: OutputDimensions, width: u32, height: u32) -> (result:
    Result<(), CoreError>)
    ensures
        result is Ok <==> (expected.width == width && expected.height == height),
        !(expected.width == width && expected.height == height) ==> (result matches Err(
            CoreError::InvalidOutputDimensions { width: w, height: h },
        ) && w == width && h == height),
{
    if width != expected.width || height != expected.height {
        return Err(CoreError::InvalidOutputDimensions { width, height });
    }
    Ok(())
}

} // verus!
