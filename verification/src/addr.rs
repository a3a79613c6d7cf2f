//! Where a system package or a dependency comes from.

use vstd::prelude::*;

verus! {

/// A resource address: a local path, a git repository, or an HTTP URL.
pub enum Address {
    /// A path on the local disk.
    Local { path: String },
    /// A git repository, optionally at a tag or a branch.
    Git { repo: String, tag: Option<String>, branch: Option<String> },
    /// A resource behind an HTTP URL.
    Http { url: String },
}

/// An address as text.
pub enum AddressView {
    Local { path: Seq<char> },
    Git { repo: Seq<char>, tag: Option<Seq<char>>, branch: Option<Seq<char>> },
    Http { url: Seq<char> },
}

/// The text of an optional string.
pub open spec fn opt_str_view(o: Option<String>) -> Option<Seq<char>> {
    match o {
        Some(s) => Some(s@),
        None => None,
    }
}

impl View for Address {
    type V = AddressView;

    open spec fn view(&self) -> AddressView {
        match self {
            Address::Local { path } => AddressView::Local { path: path@ },
            Address::Git { repo, tag, branch } => AddressView::Git {
                repo: repo@,
                tag: opt_str_view(*tag),
                branch: opt_str_view(*branch),
            },
            Address::Http { url } => AddressView::Http { url: url@ },
        }
    }
}

/// Two optional strings with the same text.
pub fn opt_str_eq(a: &Option<String>, b: &Option<String>) -> (r: bool)
    ensures
        r == (opt_str_view(*a) == opt_str_view(*b)),
{
    match a {
        Some(x) => match b {
            Some(y) => *x == *y,
            None => false,
        },
        None => b.is_none(),
    }
}

/// A copy of an optional string.
pub fn opt_str_clone(a: &Option<String>) -> (r: Option<String>)
    ensures
        opt_str_view(r) == opt_str_view(*a),
{
    match a {
        Some(x) => Some(x.clone()),
        None => None,
    }
}

impl Address {
    /// A local path.
    pub fn local(path: &str) -> (r: Self)
        ensures
            r@ == (AddressView::Local { path: path@ }),
    {
        Address::Local { path: path.to_owned() }
    }

    /// A git repository with no tag and no branch.
    pub fn git(repo: &str) -> (r: Self)
        ensures
            r@ == (AddressView::Git { repo: repo@, tag: None, branch: None }),
    {
        Address::Git { repo: repo.to_owned(), tag: None, branch: None }
    }

    /// An HTTP resource.
    pub fn http(url: &str) -> (r: Self)
        ensures
            r@ == (AddressView::Http { url: url@ }),
    {
        Address::Http { url: url.to_owned() }
    }

    /// Same address with the same text.
    pub fn same_as(&self, other: &Address) -> (r: bool)
        ensures
            r == (self@ == other@),
    {
        match self {
            Address::Local { path: a } => match other {
                Address::Local { path: b } => *a == *b,
                _ => false,
            },
            Address::Git { repo: a, tag: ta, branch: ba } => match other {
                Address::Git { repo: b, tag: tb, branch: bb } => {
                    let r1 = *a == *b;
                    let r2 = opt_str_eq(ta, tb);
                    let r3 = opt_str_eq(ba, bb);
                    r1 && r2 && r3
                },
                _ => false,
            },
            Address::Http { url: a } => match other {
                Address::Http { url: b } => *a == *b,
                _ => false,
            },
        }
    }

    /// A copy of the address.
    pub fn duplicate(&self) -> (r: Address)
        ensures
            r@ == self@,
    {
        match self {
            Address::Local { path } => Address::Local { path: path.clone() },
            Address::Git { repo, tag, branch } => Address::Git {
                repo: repo.clone(),
                tag: opt_str_clone(tag),
                branch: opt_str_clone(branch),
            },
            Address::Http { url } => Address::Http { url: url.clone() },
        }
    }
}

/// The path string an address is imported from again: the local path, the
/// repository, or the URL.
pub open spec fn addr_path_text(a: AddressView) -> Seq<char> {
    match a {
        AddressView::Local { path } => path,
        AddressView::Git { repo, .. } => repo,
        AddressView::Http { url } => url,
    }
}

/// The path string an address is imported from again: the local path, the
/// repository, or the URL.
pub fn addr_to_path_string(addr: &Address) -> (r: String)
    ensures
        r@ == addr_path_text(addr@),
{
    match addr {
        Address::Local { path } => path.clone(),
        Address::Git { repo, .. } => repo.clone(),
        Address::Http { url } => url.clone(),
    }
}

/// A dependency: where it comes from and where it goes locally.
pub struct Dependency {
    pub addr: Address,
    pub local: String,
    pub rename: Option<String>,
}

/// A set of dependencies under a common root directory.
pub struct DependencySet {
    pub dep_root: String,
    pub deps: Vec<Dependency>,
}

impl DependencySet {
    /// No dependencies and an empty root.
    pub fn empty_set() -> (r: Self)
        ensures
            r.dep_root@ == Seq::<char>::empty(),
            r.deps@.len() == 0,
    {
        DependencySet { dep_root: String::new(), deps: Vec::new() }
    }
}

} // verus!
