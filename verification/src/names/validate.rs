//! The grammar of names: `local` or `local@scope`, each part in `[a-z0-9_-]`.

use vstd::prelude::*;

use crate::text::{all_segment_chars, all_segment_chars_exec, find_char_exec, has_char, split_first, utf8_len};

verus! {

/// Maximum byte-length of the full name string (e.g. "chiko@forum").
pub const MAX_NAME_LEN: usize = 64;

/// Which part of a name an error refers to.
#[derive(Debug, Clone, Copy, PartialEq, Eq)]
pub enum NamePart {
    Local,
    Scope,
}

/// Why a name string was refused.
#[derive(Debug, Clone, Copy, PartialEq, Eq)]
pub enum NameError {
    /// The name is the empty string.
    Empty,
    /// The name is longer than `MAX_NAME_LEN` bytes; holds its byte length.
    TooLong(usize),
    /// The name holds more than one `@`.
    MultipleAt,
    /// The local part or the scope is empty.
    EmptyPart(NamePart),
    /// The local part or the scope holds a character outside `[a-z0-9_-]`.
    InvalidCharacters(NamePart),
}

/// The outcome of checking one part of a name.
pub open spec fn segment_check(s: Seq<char>, part: NamePart) -> Result<(), NameError> {
    if s.len() == 0 {
        Err(NameError::EmptyPart(part))
    } else if !all_segment_chars(s) {
        Err(NameError::InvalidCharacters(part))
    } else {
        Ok(())
    }
}

/// The outcome of checking a whole name, in the order the rules are applied:
/// emptiness, byte length, number of `@`, then the local part and the scope.
pub open spec fn name_check(name: Seq<char>) -> Result<(), NameError> {
    if name.len() == 0 {
        Err(NameError::Empty)
    } else if utf8_len(name) > MAX_NAME_LEN {
        Err(NameError::TooLong(utf8_len(name) as usize))
    } else {
        match split_first(name, '@') {
            None => segment_check(name, NamePart::Local),
            Some((local, scope)) => if has_char(scope, '@') {
                Err(NameError::MultipleAt)
            } else {
                match segment_check(local, NamePart::Local) {
                    Err(e) => Err(e),
                    Ok(_) => segment_check(scope, NamePart::Scope),
                }
            },
        }
    }
}

/// The scope of a name: what follows its first `@`, if it has one.
pub open spec fn scope_of(name: Seq<char>) -> Option<Seq<char>> {
    match split_first(name, '@') {
        Some((_, scope)) => Some(scope),
        None => None,
    }
}

/// The local part of a name: what precedes its first `@`, or the whole name.
pub open spec fn local_of(name: Seq<char>) -> Seq<char> {
    match split_first(name, '@') {
        Some((local, _)) => local,
        None => name,
    }
}

fn validate_segment(s: &str, part: NamePart) -> (r: Result<(), NameError>)
    ensures
        r == segment_check(s@, part),
{
    if s.unicode_len() == 0 {
        return Err(NameError::EmptyPart(part));
    }
    if !all_segment_chars_exec(s) {
        return Err(NameError::InvalidCharacters(part));
    }
    Ok(())
}

/// Validate a name string.
///
/// Rules: not empty; at most `MAX_NAME_LEN` bytes; at most one `@`; the local
/// part and the scope (if present) non-empty and made of `[a-z0-9_-]`.
pub fn validate_name(name: &str) -> (r: Result<(), NameError>)
    ensures
        r == name_check(name@),
{
    let n = name.unicode_len();
    if n == 0 {
        return Err(NameError::Empty);
    }
    let byte_len = name.as_bytes().len();
    if byte_len > MAX_NAME_LEN {
        return Err(NameError::TooLong(byte_len));
    }
    match find_char_exec(name, '@') {
        None => validate_segment(name, NamePart::Local),
        Some(i) => {
            let local = name.substring_char(0, i);
            let scope = name.substring_char(i + 1, n);
            assert(local@ == name@.take(i as int));
            assert(scope@ =~= name@.skip(i + 1));
            assert(split_first(name@, '@') == Some((local@, scope@)));
            if find_char_exec(scope, '@').is_some() {
                return Err(NameError::MultipleAt);
            }
            match validate_segment(local, NamePart::Local) {
                Err(e) => Err(e),
                Ok(()) => validate_segment(scope, NamePart::Scope),
            }
        },
    }
}

/// Extract the scope component from a name string: the part after the first `@`.
pub fn parse_scope(name: &str) -> (r: Option<&str>)
    ensures
        match r {
            Some(s) => scope_of(name@) == Some(s@),
            None => scope_of(name@) is None,
        },
{
    let n = name.unicode_len();
    match find_char_exec(name, '@') {
        Some(i) => {
            let scope = name.substring_char(i + 1, n);
            assert(scope@ =~= name@.skip(i + 1));
            Some(scope)
        },
        None => None,
    }
}

/// The local part of a name string: the part before the first `@`, or all of it.
pub fn local_part(name: &str) -> (r: &str)
    ensures
        r@ == local_of(name@),
{
    match find_char_exec(name, '@') {
        Some(i) => {
            let local = name.substring_char(0, i);
            assert(local@ =~= name@.take(i as int));
            local
        },
        None => name,
    }
}

} // verus!
