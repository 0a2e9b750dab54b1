//! The request dispatcher: from a filesystem observation to a response.
//!
//! The caller probes the filesystem for the resolved target and reports what
//! it saw as an [`FsNode`]: a directory with its entry names, a regular
//! file with its bytes, a missing target, or refused access.  Dispatch then
//! decides the response — a sorted listing page, the file's bytes unchanged,
//! or a structured error — and the same routine serves the root path and
//! every sub-path alike.

use vstd::prelude::*;
use crate::error::ServeError;
use crate::lexord::sorted;
use crate::lexord::lemma_sorted_unique;
use crate::listing::DirectoryListing;
use crate::listing::sort_entries;
use crate::listing::views_of;
use crate::resolve::Directory;

verus! {

/// What the filesystem reported about a resolved target.
pub enum FsNode {
    /// The target is a directory; the strings are the names of its
    /// immediate entries, in the order the directory read produced them.
    Directory(Vec<String>),
    /// The target is a regular file (or anything not a directory) and could
    /// be opened; the bytes are its full contents.
    File(Vec<u8>),
    /// The target does not exist.
    Missing,
    /// The filesystem refused access to the target.
    Denied,
}

/// A response to one request: either a listing page or a raw file body.
/// The transport writes a listing out as HTML and a file body verbatim,
/// with a content type inferred from the file's extension.
pub enum Response {
    /// A directory listing, handed to the page renderer.
    Listing(DirectoryListing),
    /// A static file's bytes, served directly.
    File(Vec<u8>),
}

/// The shape of the outcome of a request, with errors by status.
#[derive(Clone, Copy, Debug, PartialEq, Eq, Structural)]
pub enum ResponseKind {
    /// A listing page is returned.
    ListingPage,
    /// The file's bytes are returned.
    FileBody,
    /// The request fails with an error.
    Failure,
}

/// What kind of outcome a filesystem observation is owed: a directory gets
/// a listing, a file gets its bytes, everything else an error.  The display
/// name plays no part.
pub open spec fn classify(node: FsNode) -> ResponseKind {
    match node {
        FsNode::Directory(_) => ResponseKind::ListingPage,
        FsNode::File(_) => ResponseKind::FileBody,
        FsNode::Missing => ResponseKind::Failure,
        FsNode::Denied => ResponseKind::Failure,
    }
}

/// The kind of an actual outcome.
pub open spec fn kind_of(r: Result<Response, ServeError>) -> ResponseKind {
    match r {
        Ok(Response::Listing(_)) => ResponseKind::ListingPage,
        Ok(Response::File(_)) => ResponseKind::FileBody,
        Err(_) => ResponseKind::Failure,
    }
}

/// `l` is the listing owed for a directory named `name` whose read produced
/// the entry names `entries`: same name, entries sorted ascending, and
/// exactly the names that were read — nothing added, omitted or repeated.
pub open spec fn listing_for(l: DirectoryListing, name: Seq<char>, entries: Seq<String>) -> bool {
    &&& l.name@ == name
    &&& sorted(views_of(l.entries@))
    &&& views_of(l.entries@).to_multiset() == views_of(entries).to_multiset()
}

/// The dispatch contract: what response a request with display name `name`
/// is owed once the filesystem reported `node`.  A directory is owed its
/// listing; a file is owed its bytes unchanged; a missing target is owed
/// `NotFound` and refused access `PermissionDenied`.
pub open spec fn response_matches(
    r: Result<Response, ServeError>,
    name: Seq<char>,
    node: FsNode,
) -> bool {
    match node {
        FsNode::Directory(names) => r matches Ok(Response::Listing(l)) && listing_for(
            l,
            name,
            names@,
        ),
        FsNode::File(bytes) => r matches Ok(Response::File(body)) && body@ == bytes@,
        FsNode::Missing => r matches Err(e) && e == ServeError::NotFound,
        FsNode::Denied => r matches Err(e) && e == ServeError::PermissionDenied,
    }
}

/// Serves one request.  The single handler for the root path and every
/// other path: it builds the sorted listing for a directory, passes a
/// file's bytes through byte for byte, and maps filesystem failures to
/// structured errors instead of failing the server.
pub fn generic_handler(directory: Directory, node: FsNode) -> (r: Result<Response, ServeError>)
    ensures
        response_matches(r, directory.name@, node),
        kind_of(r) == classify(node),
{
    match node {
        FsNode::Directory(names) => {
            let mut entries = names;
            sort_entries(&mut entries);
            Ok(Response::Listing(DirectoryListing { name: directory.name, entries }))
        },
        FsNode::File(bytes) => Ok(Response::File(bytes)),
        FsNode::Missing => Err(ServeError::NotFound),
        FsNode::Denied => Err(ServeError::PermissionDenied),
    }
}

/// Two responses agree in everything observable: same variant, same
/// displayed name and entry names for listings, same bytes for files, same
/// error otherwise.
pub open spec fn same_response(
    r1: Result<Response, ServeError>,
    r2: Result<Response, ServeError>,
) -> bool {
    match (r1, r2) {
        (Ok(Response::Listing(l1)), Ok(Response::Listing(l2))) => {
            &&& l1.name@ == l2.name@
            &&& views_of(l1.entries@) == views_of(l2.entries@)
        },
        (Ok(Response::File(b1)), Ok(Response::File(b2))) => b1@ == b2@,
        (Err(e1), Err(e2)) => e1 == e2,
        _ => false,
    }
}

/// Dispatch is deterministic: two responses that meet the dispatch contract
/// for the same display name and the same filesystem observation are
/// observably equal.  Repeating an identical request against an unchanged
/// filesystem therefore yields identical listing or file output.
pub proof fn lemma_dispatch_deterministic(
    r1: Result<Response, ServeError>,
    r2: Result<Response, ServeError>,
    name: Seq<char>,
    node: FsNode,
)
    requires
        response_matches(r1, name, node),
        response_matches(r2, name, node),
    ensures
        same_response(r1, r2),
{
    match node {
        FsNode::Directory(names) => {
            let l1 = r1->Ok_0->Listing_0;
            let l2 = r2->Ok_0->Listing_0;
            lemma_sorted_unique(views_of(l1.entries@), views_of(l2.entries@));
        },
        FsNode::File(_) => {},
        FsNode::Missing => {},
        FsNode::Denied => {},
    }
}

/// The root request and an explicit path request dispatch uniformly: for
/// one filesystem observation, any two responses that meet the dispatch
/// contract — whatever display names the two requests carried — classify
/// the target the same way.
pub proof fn lemma_dispatch_uniform(
    r1: Result<Response, ServeError>,
    r2: Result<Response, ServeError>,
    name1: Seq<char>,
    name2: Seq<char>,
    node: FsNode,
)
    requires
        response_matches(r1, name1, node),
        response_matches(r2, name2, node),
    ensures
        kind_of(r1) == classify(node),
        kind_of(r2) == classify(node),
        kind_of(r1) == kind_of(r2),
{
}

} // verus!
