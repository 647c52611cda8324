//! The rules of a theme store for the Codex desktop program.
//!
//! A theme comes from a catalog on a server, or from a repository on disk. The library decides
//! which catalogs, repositories and themes are sound ([`catalog`], [`repository`], [`theme`]),
//! from where and in which order files are fetched and when they are taken ([`sources`],
//! [`transfer`]), what the user has ([`library`]), and how a theme is put into the running
//! program and taken out again ([`cdp`], [`cdp_session`], [`platform`], [`shell`]). What it needs
//! to know of files, servers and processes it is handed as plain values; what has to be done with
//! them it hands back.
//!
//! What a function does is stated over models: texts are sequences of characters, documents are
//! [`json::JsonModel`], outcomes are [`error::ErrorModel`]. What holds across functions stands in
//! the modules whose names end in `_laws`, and at the end of the others.

pub mod assets;
pub mod assets_laws;
pub mod catalog;
pub mod catalog_laws;
pub mod cdp;
pub mod cdp_laws;
pub mod cdp_session;
pub mod error;
pub mod json;
pub mod json_text;
pub mod library;
pub mod library_laws;
pub mod macos_platform;
pub mod outside;
pub mod platform;
pub mod platform_laws;
pub mod relaunch;
pub mod repository;
pub mod repository_laws;
pub mod rules;
pub mod rules_laws;
pub mod schema;
pub mod schema_laws;
pub mod session_laws;
pub mod shell;
pub mod shell_laws;
pub mod sources;
pub mod sources_laws;
pub mod text;
pub mod text_laws;
pub mod theme;
pub mod theme_laws;
pub mod transfer;
pub mod transfer_laws;
pub mod windows_platform;

use crate::error::AppError;
use vstd::prelude::*;

verus! {

/// What a command reports of an outcome: the value, or the text of the error.
pub open spec fn reported<T>(outcome: Result<T, AppError>) -> Result<T, Seq<char>> {
    match outcome {
        Ok(value) => Ok(value),
        Err(error) => Err(error@.text()),
    }
}

/// The text of an outcome that was reported.
pub open spec fn spoken<T>(outcome: Result<T, String>) -> Result<T, Seq<char>> {
    match outcome {
        Ok(value) => Ok(value),
        Err(text) => Err(text@),
    }
}

/// A command reports a value as it is, and an error by its text.
pub proof fn outcomes_are_reported<T>(value: T, error: AppError, text: String)
    ensures
        reported(Ok::<T, AppError>(value)) == Ok::<T, Seq<char>>(value),
        reported(Err::<T, AppError>(error)) == Err::<T, Seq<char>>(error@.text()),
        spoken(Ok::<T, String>(value)) == Ok::<T, Seq<char>>(value),
        spoken(Err::<T, String>(text)) == Err::<T, Seq<char>>(text@),
{
}

/// Reports the verification of a package.
pub fn verify_dreamskin<T>(verification: Result<T, AppError>) -> (r: Result<(), String>)
    ensures
        match verification {
            Ok(_) => r is Ok,
            Err(error) => r is Err && r->Err_0@ == error@.text(),
        },
{
    match verification {
        Ok(_) => Ok(()),
        Err(error) => Err(error.message()),
    }
}

fn report(outcome: Result<usize, AppError>) -> (r: Result<usize, String>)
    ensures
        spoken(r) == reported(outcome),
{
    match outcome {
        Ok(count) => Ok(count),
        Err(error) => Err(error.message()),
    }
}

/// Reports the indexing of a catalog: how many themes it holds.
pub fn catalog_index(indexing: Result<usize, AppError>) -> (r: Result<usize, String>)
    ensures
        spoken(r) == reported(indexing),
{
    report(indexing)
}

/// Reports the validation of a catalog: how many themes it holds.
pub fn catalog_validate(validation: Result<usize, AppError>) -> (r: Result<usize, String>)
    ensures
        spoken(r) == reported(validation),
{
    report(validation)
}

/// Reports the packing of a catalog: how many themes went in.
pub fn catalog_pack(packing: Result<usize, AppError>) -> (r: Result<usize, String>)
    ensures
        spoken(r) == reported(packing),
{
    report(packing)
}

} // verus!
