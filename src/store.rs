//! Where the local store keeps its entries: the cached index, its freshness
//! token, and the last reviewed recipe of each package.
use vstd::prelude::*;

verus! {

/// The directory of the local store, below the user's cache directory.
pub struct Cache {
    root: String,
}

/// Why the local store cannot be used.
#[derive(Debug, Clone, Copy, PartialEq, Eq, Structural)]
pub enum StoreError {
    /// There is no cache directory to keep the store in.
    StorageUnavailable,
}

/// The store's directory below the cache directory `base`.
pub open spec fn root_below(base: Seq<char>) -> Seq<char> {
    base + "/vup/templates"@
}

impl Cache {
    /// The directory that holds the store's files.
    pub closed spec fn root(&self) -> Seq<char> {
        self.root@
    }

    /// Opens the store below the user's cache directory `base_dir`, if there is one.
    pub fn new(base_dir: Option<&str>) -> (r: Result<Cache, StoreError>)
        ensures
            match base_dir {
                Some(b) => r matches Ok(c) && c.root() == root_below(b@),
                None => r == Err::<Cache, StoreError>(StoreError::StorageUnavailable),
            },
    {
        match base_dir {
            Some(b) => {
                let mut root = String::from_str(b);
                root.append("/vup/templates");
                Ok(Cache { root })
            },
            None => Err(StoreError::StorageUnavailable),
        }
    }

    /// Returns the path where a template should be stored
    pub fn template_path(&self, pkg_name: &str) -> (r: String)
        ensures
            r@ == self.root() + "/"@ + pkg_name@,
    {
        let mut r = self.root.clone();
        r.append("/");
        r.append(pkg_name);
        r
    }

    /// The path of the cached index text.
    pub fn index_path(&self) -> (r: String)
        ensures
            r@ == self.root() + "/index.json"@,
    {
        let mut r = self.root.clone();
        r.append("/index.json");
        r
    }

    /// The path of the freshness token that belongs to the cached index.
    pub fn token_path(&self) -> (r: String)
        ensures
            r@ == self.root() + "/index.json.etag"@,
    {
        let mut r = self.root.clone();
        r.append("/index.json.etag");
        r
    }
}

} // verus!
