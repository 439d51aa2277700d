//! The inspector: from one file's path and what the file system said about it, the record of
//! that file, or the error that ends the search.

use vstd::prelude::*;
use crate::error::LffError;
use crate::path::{bytes_of, extension, extension_of, hidden_of, opt_bytes, path_is_hidden};
use crate::record::{LffConfig, LffFile};

verus! {

/// The decimal digits of `n`, without sign or leading zeros.
pub open spec fn decimal_digits(n: nat) -> Seq<char>
    decreases n,
{
    if n < 10 {
        seq![((n + 48) as u8) as char]
    } else {
        decimal_digits(n / 10) + seq![((n % 10 + 48) as u8) as char]
    }
}

/// What the size crate writes for `bytes` in its abbreviated style, in powers of 1000 when
/// `base_ten` holds and of 1024 otherwise.
pub uninterp spec fn size_text_of(bytes: u64, base_ten: bool) -> Seq<char>;

/// Relies on `u64::to_string`: the decimal digits of `n`.
#[verifier::external_body]
fn decimal_text(n: u64) -> (r: String)
    ensures
        r@ == decimal_digits(n as nat),
{
    n.to_string()
}

/// Relies on `size::Size::format` with `Style::Abbreviated`: the text depends on the byte count
/// and the base alone.
#[verifier::external_body]
fn pretty_size(bytes: u64, base_ten: bool) -> (r: String)
    ensures
        r@ == size_text_of(bytes, base_ten),
{
    let base = if base_ten {
        size::Base::Base10
    } else {
        size::Base::Base2
    };
    size::Size::from_bytes(bytes).format().with_base(base).with_style(size::Style::Abbreviated).to_string()
}

/// How a size is shown under `config`.
pub open spec fn size_shown(bytes: u64, config: LffConfig) -> Seq<char> {
    if config.pretty {
        size_text_of(bytes, config.base_ten)
    } else {
        decimal_digits(bytes as nat)
    }
}

/// A size as it is shown under `config`.
pub fn format_size(bytes: u64, config: &LffConfig) -> (r: String)
    ensures
        r@ == size_shown(bytes, *config),
{
    if config.pretty {
        pretty_size(bytes, config.base_ten)
    } else {
        decimal_text(bytes)
    }
}

/// The record of the file at `path` whose size is `size`, named `name`.
pub open spec fn record_of(
    f: LffFile,
    path: Seq<u8>,
    name: Seq<u8>,
    size: u64,
    config: LffConfig,
) -> bool {
    &&& f.name@ == name
    &&& opt_bytes(f.extension) == extension_of(path)
    &&& f.size == size
    &&& f.formatted_size@ == size_shown(size, config)
    &&& f.hidden == hidden_of(path)
}

/// `e` reports that the absolute path of `path` could not be found, because of `cause`.
pub open spec fn absolute_path_failure(e: LffError, path: Seq<u8>, cause: Seq<char>) -> bool {
    match e {
        LffError::AbsolutePath { path: p, cause: c } => p@ == path && c@ == cause,
        _ => false,
    }
}

/// `e` reports that the metadata of `path` could not be read, because of `cause`.
pub open spec fn metadata_failure(e: LffError, path: Seq<u8>, cause: Seq<char>) -> bool {
    match e {
        LffError::Metadata { path: p, cause: c } => p@ == path && c@ == cause,
        _ => false,
    }
}

/// The name a file is listed under: its absolute path when `config` asks for one, and the path
/// it was met at otherwise.
pub open spec fn name_given(
    path: Seq<u8>,
    absolute_path: Option<Result<Vec<u8>, String>>,
    config: LffConfig,
) -> Seq<u8> {
    if config.absolute {
        absolute_path->Some_0->Ok_0@
    } else {
        path
    }
}

/// The inspector. `path` is the file as it was listed; `absolute_path` is the outcome of
/// looking up its absolute form, which is asked for when `config.absolute` holds; `size` is the
/// outcome of reading its metadata, without following a link.
///
/// The record is named by the absolute path when `config.absolute` holds, and by `path`
/// otherwise; its extension and whether it is hidden are read from `path`. A failed lookup of
/// the absolute path is reported first, then a failed read of the metadata, each with `path`.
pub fn handle_entry(
    path: &[u8],
    absolute_path: Option<Result<Vec<u8>, String>>,
    size: Result<u64, String>,
    config: &LffConfig,
) -> (r: Result<LffFile, LffError>)
    requires
        config.absolute ==> absolute_path is Some,
    ensures
        r is Ok <==> (config.absolute ==> absolute_path matches Some(Ok(_))) && size is Ok,
        r matches Ok(f) ==> record_of(
            f,
            path@,
            name_given(path@, absolute_path, *config),
            size->Ok_0,
            *config,
        ),
        (config.absolute && absolute_path->Some_0 is Err) ==> r is Err && absolute_path_failure(
            r->Err_0,
            path@,
            absolute_path->Some_0->Err_0@,
        ),
        (!(config.absolute && absolute_path->Some_0 is Err) && size is Err) ==> r is Err
            && metadata_failure(r->Err_0, path@, size->Err_0@),
{
    let name = if config.absolute {
        match absolute_path {
            Some(Ok(a)) => a,
            Some(Err(cause)) => {
                return Err(LffError::AbsolutePath { path: bytes_of(path), cause });
            },
            None => {
                return Err(LffError::AbsolutePath { path: bytes_of(path), cause: String::new() });
            },
        }
    } else {
        bytes_of(path)
    };
    let size = match size {
        Ok(s) => s,
        Err(cause) => {
            return Err(LffError::Metadata { path: bytes_of(path), cause });
        },
    };
    Ok(
        LffFile {
            name,
            extension: extension(path),
            size,
            formatted_size: format_size(size, config),
            hidden: path_is_hidden(path),
        },
    )
}

} // verus!
