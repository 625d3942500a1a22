//! The files at the root of a repository that hashers are made from, and which
//! publication of them a hasher goes back to.
use vstd::prelude::*;

verus! {

/// What was published, and the number of the publication. A later publication has
/// a higher number.
#[derive(Debug)]
pub struct Numbered<V> {
    pub number: u64,
    pub value: V,
}

/// Gives publications their numbers.
#[derive(Debug)]
pub struct Publications {
    last: u64,
}

impl View for Publications {
    type V = nat;

    /// The highest number that was given. Before the first it is zero.
    closed spec fn view(&self) -> nat {
        self.last as nat
    }
}

impl Publications {
    /// No number was given.
    pub fn new() -> (publications: Self)
        ensures
            publications@ == 0,
    {
        Publications { last: 0 }
    }

    /// Gives a publication its number, which is higher than all that were given
    /// before, while there are any left.
    pub fn number<V>(&mut self, value: V) -> (publication: Option<Numbered<V>>)
        ensures
            match publication {
                Some(publication) => publication.value == value && publication.number == old(self)@
                    + 1 && final(self)@ == publication.number,
                None => old(self)@ == u64::MAX && final(self)@ == old(self)@,
            },
    {
        if self.last == u64::MAX {
            None
        } else {
            self.last = self.last + 1;
            Some(Numbered { number: self.last, value })
        }
    }
}

/// The publications of the root files that a hasher was made from.
#[derive(Clone, Copy, Debug, PartialEq, Eq)]
pub struct RootFiles {
    pub package_json: u64,
    pub turbo_json: u64,
}

/// The root files that were published, with the numbers of their publications.
#[derive(Clone, Copy, Debug, PartialEq, Eq)]
pub struct Published {
    pub package_json: Option<u64>,
    pub turbo_json: Option<u64>,
}

impl Published {
    /// No root file was published.
    pub open spec fn nothing() -> Published {
        Published { package_json: None, turbo_json: None }
    }

    /// Whether no root file was published.
    pub fn is_nothing(&self) -> (yes: bool)
        ensures
            yes == (*self == Published::nothing()),
    {
        self.package_json.is_none() && self.turbo_json.is_none()
    }
}

impl RootFiles {
    /// Whether none of the publications is older than what was published.
    pub open spec fn spec_covers(self, published: Published) -> bool {
        &&& published.package_json matches Some(n) ==> n <= self.package_json
        &&& published.turbo_json matches Some(n) ==> n <= self.turbo_json
    }

    /// Whether none of the publications is older than what was published.
    pub fn covers(&self, published: &Published) -> (yes: bool)
        ensures
            yes == self.spec_covers(*published),
    {
        let package_json = match published.package_json {
            Some(n) => n <= self.package_json,
            None => true,
        };
        let turbo_json = match published.turbo_json {
            Some(n) => n <= self.turbo_json,
            None => true,
        };
        package_json && turbo_json
    }
}

/// Publications are numbered one after the other from one on, until there are no numbers
/// left, and each keeps what is published. So a later one has a higher number.
pub proof fn later_publications_have_higher_numbers<V, U>(
    fresh: Publications,
    first: &mut Publications,
    value: V,
    published: Option<Numbered<V>>,
    second: &mut Publications,
    other: U,
    published_later: Option<Numbered<U>>,
)
    requires
        call_ensures(Publications::new, (), fresh),
        call_ensures(Publications::number::<V>, (first, value), published),
        call_ensures(Publications::number::<U>, (second, other), published_later),
        old(second)@ == final(first)@,
    ensures
        fresh@ == 0,
        old(first)@ < u64::MAX <==> published is Some,
        published matches Some(published) ==> published.value == value && published.number
            == old(first)@ + 1,
        published_later matches Some(later) ==> later.value == other,
        published matches Some(published) ==> (published_later matches Some(later)
            ==> published.number < later.number),
{
    assert(published is None ==> old(first)@ == u64::MAX);
    assert(published matches Some(p) ==> p.number <= u64::MAX);
}

/// A hasher goes back to what was published exactly if, for each root file that was, it
/// was made from that publication or from a later one. If none was, every hasher does.
pub proof fn a_hasher_covers_what_is_no_newer(
    files: &RootFiles,
    published: &Published,
    covered: bool,
    nothing: bool,
)
    requires
        call_ensures(RootFiles::covers, (files, published), covered),
        call_ensures(Published::is_nothing, (published,), nothing),
    ensures
        covered <==> !(published.package_json matches Some(n) && n > files.package_json) && !(
        published.turbo_json matches Some(n) && n > files.turbo_json),
        nothing <==> published.package_json is None && published.turbo_json is None,
        nothing ==> covered,
{
}

} // verus!
