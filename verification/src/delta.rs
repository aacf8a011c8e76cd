use vstd::hash_map::StringHashMap;
use vstd::prelude::*;

use crate::token::Bytes;

verus! {

/// A change of a pool's state: new values of attributes, by name.
pub struct ProtocolStateDelta {
    updated_attributes: StringHashMap<Bytes>,
}

impl View for ProtocolStateDelta {
    type V = Map<Seq<char>, Seq<u8>>;

    closed spec fn view(&self) -> Map<Seq<char>, Seq<u8>> {
        self.updated_attributes@.map_values(|value: Bytes| value@)
    }
}

impl ProtocolStateDelta {
    /// A delta without attributes.
    pub fn new() -> (r: Self)
        ensures
            r@ == Map::<Seq<char>, Seq<u8>>::empty(),
    {
        let r = ProtocolStateDelta { updated_attributes: StringHashMap::new() };
        assert(r@ =~= Map::<Seq<char>, Seq<u8>>::empty());
        r
    }

    /// Gives the attribute of this name a value, in place of any that it had.
    pub fn set_attribute(&mut self, name: String, value: Bytes)
        ensures
            final(self)@ == old(self)@.insert(name@, value@),
    {
        self.updated_attributes.insert(name, value);
        assert(self@ =~= old(self)@.insert(name@, value@));
    }

    /// The value of the attribute of this name.
    pub fn attribute(&self, name: &str) -> (r: Option<&Bytes>)
        ensures
            r is Some <==> self@.contains_key(name@),
            r matches Some(value) ==> value@ == self@[name@],
    {
        self.updated_attributes.get(name)
    }
}

} // verus!
