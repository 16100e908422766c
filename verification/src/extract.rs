//! The extractor: recovering the release metadata from the text of the
//! source page, by querying the first item container of the page's DOM
//! for its three metadata attributes.

use crate::errors::{ErrorV, PipelineError};
use crate::metadata::{MetaV, ReleaseMetadata};
use vstd::prelude::*;

verus! {

/// What the DOM query yields on a page: `None` when no element of the
/// page matches the fixed item-container selector, else the values of
/// the element's three metadata attributes (asset URL, release code,
/// display date), each absent when the element lacks that attribute.
pub uninterp spec fn first_item_attrs(page: Seq<char>) -> Option<
    (Option<Seq<char>>, Option<Seq<char>>, Option<Seq<char>>),
>;

/// Relies on scraper's `Html::parse_document`, `Selector::parse`,
/// `Html::select` and `ElementRef::attr`: parsing the page and matching
/// the fixed `.comic-item-container` selector is a pure function of the
/// page text, so the first matching element and the values of its
/// `data-image`, `data-id` and `data-date` attributes are too.
#[verifier::external_body]
fn query_first_item(page: &str) -> (r: Option<(Option<String>, Option<String>, Option<String>)>)
    ensures
        r.deep_view() == first_item_attrs(page@),
{
    let document = scraper::Html::parse_document(page);
    let selector = scraper::Selector::parse(".comic-item-container").unwrap();
    match document.select(&selector).next() {
        None => None,
        Some(element) => Some(
            (
                element.attr("data-image").map(|a| a.to_string()),
                element.attr("data-id").map(|a| a.to_string()),
                element.attr("data-date").map(|a| a.to_string()),
            ),
        ),
    }
}

/// What extraction yields on a page: the metadata when the page's first
/// item container carries all three attributes, else the wording of the
/// parse failure.
pub open spec fn extraction_of(page: Seq<char>) -> Result<MetaV, Seq<char>> {
    match first_item_attrs(page) {
        None => Err("no item container on the source page"@),
        Some(t) => if t.0 is Some && t.1 is Some && t.2 is Some {
            Ok(MetaV { asset_url: t.0->0, release_code: t.1->0, display_date: t.2->0 })
        } else {
            Err("item container lacks a metadata attribute"@)
        },
    }
}

/// Reads the release metadata off the source page: the three attributes
/// of the first item container, verbatim, with no normalization. Fails
/// with `ParseError` exactly when the page has no item container or its
/// container lacks one of the three attributes.
pub fn extract(page: &str) -> (r: Result<ReleaseMetadata, PipelineError>)
    ensures
        r is Ok <==> extraction_of(page@) is Ok,
        r is Ok ==> r->Ok_0@ == extraction_of(page@)->Ok_0,
        r is Err ==> r->Err_0@ == (ErrorV::ParseError { detail: extraction_of(page@)->Err_0 }),
{
    match query_first_item(page) {
        None => Err(
            PipelineError::ParseError {
                detail: "no item container on the source page".to_owned(),
            },
        ),
        Some((asset_url, release_code, display_date)) => match (asset_url, release_code, display_date) {
            (Some(asset_url), Some(release_code), Some(display_date)) => Ok(
                ReleaseMetadata { asset_url, release_code, display_date },
            ),
            _ => Err(
                PipelineError::ParseError {
                    detail: "item container lacks a metadata attribute".to_owned(),
                },
            ),
        },
    }
}

} // verus!
