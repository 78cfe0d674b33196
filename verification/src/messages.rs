//! The messages that a run passes to its observer.

use vstd::prelude::*;
use crate::decimal::{append_decimal, decimal_text};

verus! {

/// Announces that the metadata of document `id` is being loaded.
pub open spec fn loading_text(id: u64) -> Seq<char> {
    "Loading data for document "@ + decimal_text(id as nat)
}

/// Announces the download of the document `title`, known remotely as `id`.
pub open spec fn document_text(title: Seq<char>, id: u64) -> Seq<char> {
    "Downloading document \""@ + title + "\" with ID "@ + decimal_text(id as nat)
}

/// Announces the download of the page images of the document `title`, known
/// remotely as `id`.
pub open spec fn images_text(title: Seq<char>, id: u64) -> Seq<char> {
    "Downloading images for document \""@ + title + "\" with ID "@ + decimal_text(id as nat)
}

/// Announces the download of page `nr`.
pub open spec fn page_text(nr: u64) -> Seq<char> {
    "Downloading page "@ + decimal_text(nr as nat)
}

/// Announces that assembly begins.
pub open spec fn creating_text() -> Seq<char> {
    "Creating pdf..."@
}

/// Announces that page `number` is being placed.
pub open spec fn adding_text(number: u64) -> Seq<char> {
    "Adding page "@ + decimal_text(number as nat) + " to pdf"@
}

/// Announces that the output document is being saved.
pub open spec fn saving_text() -> Seq<char> {
    "Saving PDF-Document..."@
}

/// The message that the metadata of document `id` is being loaded.
pub fn loading_message(id: u64) -> (text: String)
    ensures
        text@ == loading_text(id),
{
    let mut text = String::from_str("Loading data for document ");
    append_decimal(&mut text, id);
    text
}

/// The message that announces the download of a document.
pub fn document_message(title: &str, id: u64) -> (text: String)
    ensures
        text@ == document_text(title@, id),
{
    let mut text = String::from_str("Downloading document \"");
    text.append(title);
    text.append("\" with ID ");
    append_decimal(&mut text, id);
    text
}

/// The message that announces the download of the page images alone.
pub fn images_message(title: &str, id: u64) -> (text: String)
    ensures
        text@ == images_text(title@, id),
{
    let mut text = String::from_str("Downloading images for document \"");
    text.append(title);
    text.append("\" with ID ");
    append_decimal(&mut text, id);
    text
}

/// The message that page `nr` is being downloaded.
pub fn page_message(nr: u64) -> (text: String)
    ensures
        text@ == page_text(nr),
{
    let mut text = String::from_str("Downloading page ");
    append_decimal(&mut text, nr);
    text
}

/// The message that assembly begins.
pub fn creating_message() -> (text: String)
    ensures
        text@ == creating_text(),
{
    String::from_str("Creating pdf...")
}

/// The message that page `number` is being placed.
pub fn adding_message(number: u64) -> (text: String)
    ensures
        text@ == adding_text(number),
{
    let mut text = String::from_str("Adding page ");
    append_decimal(&mut text, number);
    text.append(" to pdf");
    text
}

/// The message that the output document is being saved.
pub fn saving_message() -> (text: String)
    ensures
        text@ == saving_text(),
{
    String::from_str("Saving PDF-Document...")
}

} // verus!
