use vstd::prelude::*;

verus! {

/// A source path and the destination it stands for, as the contracts see a link.
pub type LinkView = (Seq<char>, Seq<char>);

/// One short link: `src` is the path segment, `dst` the URL it redirects to.
pub struct Link {
    pub src: String,
    pub dst: String,
}

impl View for Link {
    type V = LinkView;

    open spec fn view(&self) -> LinkView {
        (self.src@, self.dst@)
    }
}

/// The whole collection of links, in display order.
pub struct MainPage {
    pub links: Vec<Link>,
}

impl View for MainPage {
    type V = Seq<LinkView>;

    open spec fn view(&self) -> Seq<LinkView> {
        self.links@.map_values(|l: Link| l@)
    }
}

/// The page shown for an unknown short path.
pub struct FourOhFour {}

/// The destination of the first link whose source is `key`.
pub open spec fn lookup(s: Seq<LinkView>, key: Seq<char>) -> Option<Seq<char>>
    decreases s.len(),
{
    if s.len() == 0 {
        None
    } else if s[0].0 == key {
        Some(s[0].1)
    } else {
        lookup(s.drop_first(), key)
    }
}

/// Holds of a link whose source is not `key`.
pub open spec fn source_is_not(key: Seq<char>) -> spec_fn(LinkView) -> bool {
    |l: LinkView| l.0 != key
}

/// The links whose source is not `key`, in their order.
pub open spec fn without(s: Seq<LinkView>, key: Seq<char>) -> Seq<LinkView> {
    s.filter(source_is_not(key))
}

/// The collection after storing `link`: any link with its source leaves, and
/// `link` goes to the end.
pub open spec fn upserted(s: Seq<LinkView>, link: LinkView) -> Seq<LinkView> {
    without(s, link.0).push(link)
}

/// No two links share a source.
pub open spec fn unique_sources(s: Seq<LinkView>) -> bool {
    forall|i: int, j: int| 0 <= i < j < s.len() ==> s[i].0 != s[j].0
}

proof fn lemma_lookup_absent(s: Seq<LinkView>, key: Seq<char>)
    requires
        forall|i: int| 0 <= i < s.len() ==> s[i].0 != key,
    ensures
        lookup(s, key) is None,
    decreases s.len(),
{
    if s.len() > 0 {
        lemma_lookup_absent(s.drop_first(), key);
    }
}

proof fn lemma_lookup_push(s: Seq<LinkView>, x: LinkView, key: Seq<char>)
    requires
        lookup(s, key) is None,
    ensures
        lookup(s.push(x), key) == (if x.0 == key {
            Some(x.1)
        } else {
            None::<Seq<char>>
        }),
    decreases s.len(),
{
    if s.len() == 0 {
        assert(s.push(x)[0] == x);
        assert(lookup(s.push(x).drop_first(), key) is None);
    } else {
        assert(s.push(x)[0] == s[0]);
        assert(s.push(x).drop_first() =~= s.drop_first().push(x));
        lemma_lookup_push(s.drop_first(), x, key);
    }
}

proof fn lemma_without_excludes(s: Seq<LinkView>, key: Seq<char>)
    ensures
        forall|i: int| 0 <= i < without(s, key).len() ==> without(s, key)[i].0 != key,
{
    broadcast use vstd::seq_lib::group_filter_ensures;

    assert forall|i: int| 0 <= i < without(s, key).len() implies without(s, key)[i].0 != key by {
        assert(source_is_not(key)(s.filter(source_is_not(key))[i]));
    }
}

proof fn lemma_without_shorter(s: Seq<LinkView>, key: Seq<char>)
    requires
        exists|i: int| 0 <= i < s.len() && s[i].0 == key,
    ensures
        without(s, key).len() < s.len(),
    decreases s.len(),
{
    reveal(Seq::filter);
    s.drop_last().lemma_filter_len(source_is_not(key));
    if s.last().0 != key {
        let i = choose|i: int| 0 <= i < s.len() && s[i].0 == key;
        assert(s.drop_last()[i].0 == key);
        lemma_without_shorter(s.drop_last(), key);
    }
}

proof fn lemma_without_unique(s: Seq<LinkView>, key: Seq<char>)
    requires
        unique_sources(s),
    ensures
        unique_sources(without(s, key)),
    decreases s.len(),
{
    reveal(Seq::filter);
    if s.len() > 0 {
        let rest = s.drop_last();
        lemma_without_unique(rest, key);
        let f = without(rest, key);
        if s.last().0 != key {
            assert forall|i: int| 0 <= i < f.len() implies f[i].0 != s.last().0 by {
                rest.lemma_filter_contains_rev(source_is_not(key), f[i]);
                let j = choose|j: int| 0 <= j < rest.len() && rest[j] == f[i];
                assert(s[j] == f[i]);
            }
        }
    }
}

/// After a link is stored, looking up its source gives its destination.
pub proof fn find_after_upsert(links: Seq<LinkView>, link: LinkView)
    ensures
        lookup(upserted(links, link), link.0) == Some(link.1),
{
    lemma_without_excludes(links, link.0);
    lemma_lookup_absent(without(links, link.0), link.0);
    lemma_lookup_push(without(links, link.0), link, link.0);
}

/// Storing a link whose source is already present drops the earlier entry and
/// puts the new one last; the others keep their order.
pub proof fn upsert_moves_to_end(links: Seq<LinkView>, link: LinkView)
    requires
        exists|i: int| 0 <= i < links.len() && links[i].0 == link.0,
    ensures
        upserted(links, link).len() <= links.len(),
        upserted(links, link).last() == link,
        upserted(links, link).drop_last() == without(links, link.0),
        forall|j: int|
            0 <= j < upserted(links, link).len() - 1 ==> upserted(links, link)[j].0 != link.0,
{
    lemma_without_shorter(links, link.0);
    lemma_without_excludes(links, link.0);
    assert(upserted(links, link).drop_last() =~= without(links, link.0));
}

/// After the links with a source are deleted, looking it up finds nothing.
pub proof fn find_after_delete(links: Seq<LinkView>, key: Seq<char>)
    ensures
        lookup(without(links, key), key) is None,
{
    lemma_without_excludes(links, key);
    lemma_lookup_absent(without(links, key), key);
}

/// Storing and deleting keep sources unique.
pub proof fn updates_keep_sources_unique(links: Seq<LinkView>, link: LinkView, key: Seq<char>)
    requires
        unique_sources(links),
    ensures
        unique_sources(upserted(links, link)),
        unique_sources(without(links, key)),
{
    lemma_without_unique(links, key);
    lemma_without_unique(links, link.0);
    lemma_without_excludes(links, link.0);
}

impl Link {
    /// A copy of the link.
    pub fn duplicate(&self) -> (r: Link)
        ensures
            r@ == self@,
    {
        Link { src: self.src.clone(), dst: self.dst.clone() }
    }
}

impl MainPage {
    /// A page with no links.
    pub fn new() -> (r: MainPage)
        ensures
            r@ == Seq::<LinkView>::empty(),
            unique_sources(r@),
    {
        MainPage { links: Vec::new() }
    }

    /// The first link whose source is `source`, if any.
    pub fn find(&self, source: &String) -> (r: Option<&Link>)
        ensures
            match r {
                None => lookup(self@, source@) is None,
                Some(l) => l.src@ == source@ && lookup(self@, source@) == Some(l.dst@),
            },
    {
        let n = self.links.len();
        let mut i: usize = 0;
        assert(self@.subrange(0, n as int) =~= self@);
        while i < n
            invariant
                n == self.links.len(),
                0 <= i <= n,
                lookup(self@, source@) == lookup(self@.subrange(i as int, n as int), source@),
            decreases n - i,
        {
            let ghost rest = self@.subrange(i as int, n as int);
            assert(rest[0] == self.links[i as int]@);
            if self.links[i].src == *source {
                return Some(&self.links[i]);
            }
            assert(rest.drop_first() =~= self@.subrange(i + 1, n as int));
            i = i + 1;
        }
        assert(self@.subrange(n as int, n as int).len() == 0);
        None
    }

    /// The links that remain when those with source `key` leave, as a new vector.
    fn kept_without(&self, key: &String) -> (r: Vec<Link>)
        ensures
            r@.map_values(|l: Link| l@) == without(self@, key@),
    {
        let n = self.links.len();
        let mut kept: Vec<Link> = Vec::new();
        let mut i: usize = 0;
        while i < n
            invariant
                n == self.links.len(),
                0 <= i <= n,
                kept@.map_values(|l: Link| l@) == without(self@.subrange(0, i as int), key@),
            decreases n - i,
        {
            let l = &self.links[i];
            assert(self@.subrange(0, i + 1) =~= self@.subrange(0, i as int).push(l@));
            proof {
                self@.subrange(0, i as int).lemma_filter_push(l@, source_is_not(key@));
            }
            assert(without(self@.subrange(0, i + 1), key@) == if l@.0 != key@ {
                without(self@.subrange(0, i as int), key@).push(l@)
            } else {
                without(self@.subrange(0, i as int), key@)
            });
            if l.src != *key {
                let c = l.duplicate();
                kept.push(c);
                assert(kept@.map_values(|l: Link| l@) =~= without(
                    self@.subrange(0, i as int),
                    key@,
                ).push(l@));
            }
            i = i + 1;
        }
        assert(self@.subrange(0, n as int) =~= self@);
        kept
    }

    /// Stores `link`: any link with the same source leaves, and `link` is
    /// appended at the end.
    pub fn upsert(&mut self, link: Link)
        ensures
            final(self)@ == upserted(old(self)@, link@),
            unique_sources(old(self)@) ==> unique_sources(final(self)@),
    {
        proof {
            if unique_sources(self@) {
                updates_keep_sources_unique(self@, link@, link@.0);
            }
        }
        let mut kept = self.kept_without(&link.src);
        let ghost before = kept@.map_values(|l: Link| l@);
        kept.push(link);
        assert(kept@.map_values(|l: Link| l@) =~= before.push(link@));
        self.links = kept;
    }

    /// Removes every link whose source is `source`.
    pub fn delete(&mut self, source: &String)
        ensures
            final(self)@ == without(old(self)@, source@),
            unique_sources(old(self)@) ==> unique_sources(final(self)@),
    {
        proof {
            if unique_sources(self@) {
                updates_keep_sources_unique(self@, (source@, source@), source@);
            }
        }
        self.links = self.kept_without(source);
    }
}

} // verus!
