//! Where the names of a listing go.
use vstd::prelude::*;
use vstd::string::StringSliceAdditionalSpecFns;
use vstd::utf8::encode_utf8;

verus! {

/// A receiver of directory entry names, called once per name in listing
/// order. What a sink does with a name (store it, relay it, drop it when
/// full) is its own affair: the lister never learns of it.
pub trait DirSink {
    /// The names handed to this sink so far, in order, as UTF-8 bytes.
    ///
    /// Every sink verified here states its own: the default is one fixed,
    /// unknown sequence, which cannot meet the contract of `add_entry`. The
    /// default lets a sink outside verified code (a relay to a C callback)
    /// implement the trait without a specification.
    open spec fn entries(&self) -> Seq<Seq<u8>> {
        arbitrary()
    }

    /// Takes one name.
    fn add_entry(&mut self, name: &str)
        ensures
            final(self).entries() == old(self).entries().push(name.spec_bytes()),
    ;
}

/// A sink that keeps every name it is handed.
pub struct NameList {
    names: Vec<String>,
}

impl NameList {
    /// The names held, as UTF-8 bytes.
    pub closed spec fn view_entries(&self) -> Seq<Seq<u8>> {
        self.names@.map_values(|s: String| encode_utf8(s@))
    }

    /// An empty list.
    pub fn new() -> (r: NameList)
        ensures
            r.view_entries() == Seq::<Seq<u8>>::empty(),
    {
        let r = NameList { names: Vec::new() };
        assert(r.view_entries() =~= Seq::<Seq<u8>>::empty());
        r
    }

    /// The names received, in the order they came.
    pub fn names(&self) -> (r: &Vec<String>)
        ensures
            r@.map_values(|s: String| encode_utf8(s@)) == self.view_entries(),
    {
        &self.names
    }
}

impl DirSink for NameList {
    open spec fn entries(&self) -> Seq<Seq<u8>> {
        self.view_entries()
    }

    fn add_entry(&mut self, name: &str) {
        let s = name.to_owned();
        self.names.push(s);
        assert(self.view_entries() =~= old(self).view_entries().push(name.spec_bytes()));
    }
}

} // verus!
