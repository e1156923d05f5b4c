use vstd::prelude::*;
use vstd::string::StrSliceExecFns;
use crate::links::{lookup, unique_sources, LinkView, MainPage};

verus! {

/// The start of the path namespace kept for the service's own pages.
pub open spec fn reserved_prefix() -> Seq<char> {
    seq!['_', 'a', 's', 's', 'e', 't', 's', '/']
}

/// Holds of a path in the reserved namespace.
pub open spec fn is_reserved(path: Seq<char>) -> bool {
    path.len() >= reserved_prefix().len() && path.subrange(0, reserved_prefix().len() as int)
        == reserved_prefix()
}

/// Where a short-link request for `path` leads: nowhere for a reserved path,
/// else the destination of its link, if any.
pub open spec fn redirect_target(links: Seq<LinkView>, path: Seq<char>) -> Option<Seq<char>> {
    if is_reserved(path) {
        None
    } else {
        lookup(links, path)
    }
}

/// Whether `path` lies in the reserved namespace.
pub fn is_reserved_path(path: &String) -> (r: bool)
    ensures
        r == is_reserved(path@),
{
    let prefix: Vec<char> = vec!['_', 'a', 's', 's', 'e', 't', 's', '/'];
    assert(prefix@ =~= reserved_prefix());
    let s = path.as_str();
    let n = s.unicode_len();
    if n < prefix.len() {
        return false;
    }
    let mut i: usize = 0;
    while i < prefix.len()
        invariant
            prefix@ == reserved_prefix(),
            s@ == path@,
            n == path@.len(),
            prefix.len() <= n,
            0 <= i <= prefix.len(),
            forall|j: int| 0 <= j < i ==> path@[j] == prefix@[j],
        decreases prefix.len() - i,
    {
        if s.get_char(i) != prefix[i] {
            return false;
        }
        i = i + 1;
    }
    assert(path@.subrange(0, prefix.len() as int) =~= reserved_prefix());
    true
}

/// The answer to a short-link request.
pub enum LinkReply {
    /// A permanent redirect to the destination.
    Redirect(String),
    /// The not-found page.
    NotFound,
}

impl LinkReply {
    /// The HTTP status of the reply.
    pub fn status(&self) -> (r: u16)
        ensures
            r == (match self {
                LinkReply::Redirect(_) => 301u16,
                LinkReply::NotFound => 404u16,
            }),
    {
        match self {
            LinkReply::Redirect(_) => 301,
            LinkReply::NotFound => 404,
        }
    }
}

/// Answers a request for the short path `path` against the stored links.
pub fn resolve(page: &MainPage, path: &String) -> (r: LinkReply)
    ensures
        match r {
            LinkReply::Redirect(d) => redirect_target(page@, path@) == Some(d@),
            LinkReply::NotFound => redirect_target(page@, path@) is None,
        },
{
    if is_reserved_path(path) {
        return LinkReply::NotFound;
    }
    match page.find(path) {
        Some(link) => LinkReply::Redirect(link.dst.clone()),
        None => LinkReply::NotFound,
    }
}

proof fn lemma_lookup_member(s: Seq<LinkView>, k: int)
    requires
        unique_sources(s),
        0 <= k < s.len(),
    ensures
        lookup(s, s[k].0) == Some(s[k].1),
    decreases s.len(),
{
    if k > 0 {
        assert(s[0].0 != s[k].0);
        assert(unique_sources(s.drop_first()));
        assert(s.drop_first()[k - 1] == s[k]);
        lemma_lookup_member(s.drop_first(), k - 1);
    }
}

proof fn lemma_lookup_stored(s: Seq<LinkView>, key: Seq<char>)
    ensures
        lookup(s, key) is Some ==> exists|k: int| 0 <= k < s.len() && s[k] == (key, lookup(s, key)->0),
    decreases s.len(),
{
    if s.len() > 0 && s[0].0 != key {
        lemma_lookup_stored(s.drop_first(), key);
        if lookup(s, key) is Some {
            let k = choose|k: int|
                0 <= k < s.drop_first().len() && s.drop_first()[k] == (key, lookup(s, key)->0);
            assert(s[k + 1] == s.drop_first()[k]);
        }
    } else if s.len() > 0 {
        assert(s[0] == (key, lookup(s, key)->0));
    }
}

/// A request for the source of a stored link, outside the reserved namespace,
/// redirects to exactly that link's destination.
pub proof fn stored_source_redirects(links: Seq<LinkView>, link: LinkView)
    requires
        unique_sources(links),
        links.contains(link),
        !is_reserved(link.0),
    ensures
        redirect_target(links, link.0) == Some(link.1),
{
    let k = choose|k: int| 0 <= k < links.len() && links[k] == link;
    lemma_lookup_member(links, k);
}

/// A request for a path that is no stored source finds nothing.
pub proof fn unknown_path_not_found(links: Seq<LinkView>, path: Seq<char>)
    requires
        forall|k: int| 0 <= k < links.len() ==> links[k].0 != path,
    ensures
        redirect_target(links, path) is None,
{
    lemma_lookup_stored(links, path);
}

/// A path in the reserved namespace never redirects, whatever is stored.
pub proof fn reserved_path_never_redirects(links: Seq<LinkView>, path: Seq<char>)
    requires
        is_reserved(path),
    ensures
        redirect_target(links, path) is None,
{
}

} // verus!
