//! The content store: a key-value lookup from a route's derived document key
//! to raw text content. The store itself is an external collaborator (its
//! documents are bundled by the surrounding program); the core defines the
//! key-derivation rule and the decoding contract.

use vstd::prelude::*;

use crate::chars::str_eq;

verus! {

/// One stored document: its name and its raw bytes.
pub struct Document {
    pub name: String,
    pub data: Vec<u8>,
}

/// Mathematical value of a [`Document`].
pub struct SpecDocument {
    pub name: Seq<char>,
    pub data: Seq<u8>,
}

impl DeepView for Document {
    type V = SpecDocument;

    open spec fn deep_view(&self) -> SpecDocument {
        SpecDocument { name: self.name@, data: self.data@ }
    }
}

/// First-match lookup of a document by name.
pub open spec fn store_lookup(docs: Seq<SpecDocument>, name: Seq<char>) -> Option<Seq<u8>>
    decreases docs.len(),
{
    if docs.len() == 0 {
        None
    } else if docs[0].name == name {
        Some(docs[0].data)
    } else {
        store_lookup(docs.drop_first(), name)
    }
}

/// The bundled text documents, looked up by document key.
pub struct Contents {
    docs: Vec<Document>,
}

impl View for Contents {
    type V = Seq<SpecDocument>;

    closed spec fn view(&self) -> Seq<SpecDocument> {
        self.docs.deep_view()
    }
}

impl Contents {
    /// An empty store.
    pub fn new() -> (r: Contents)
        ensures
            r@ == Seq::<SpecDocument>::empty(),
    {
        let r = Contents { docs: Vec::new() };
        proof {
            assert(r@ =~= Seq::<SpecDocument>::empty());
        }
        r
    }

    /// Adds one document at the end of the store.
    pub fn add(&mut self, name: String, data: Vec<u8>)
        ensures
            final(self)@ == old(self)@.push(SpecDocument { name: name@, data: data@ }),
    {
        let ghost pre = self@;
        let ghost doc = SpecDocument { name: name@, data: data@ };
        self.docs.push(Document { name, data });
        proof {
            assert(self@ =~= pre.push(doc));
        }
    }

    /// Looks a document up by its exact name.
    pub fn get(&self, name: &str) -> (r: Option<&Vec<u8>>)
        ensures
            (r is Some) <==> (store_lookup(self@, name@) is Some),
            r matches Some(data) ==> Some(data@) == store_lookup(self@, name@),
    {
        let n = self.docs.len();
        proof {
            assert(self@.skip(0) =~= self@);
        }
        let mut i: usize = 0;
        while i < n
            invariant
                n == self.docs.len(),
                i <= n,
                store_lookup(self@, name@) == store_lookup(self@.skip(i as int), name@),
            decreases n - i,
        {
            let ghost remaining = self@.skip(i as int);
            proof {
                assert(remaining[0] == self@[i as int]);
                assert(remaining.drop_first() =~= self@.skip(i as int + 1));
            }
            if str_eq(self.docs[i].name.as_str(), name) {
                return Some(&self.docs[i].data);
            }
            i = i + 1;
        }
        proof {
            assert(self@.skip(n as int) =~= Seq::<SpecDocument>::empty());
        }
        None
    }
}

/// Relies on `String::from_utf8`: succeeds exactly when the bytes are valid
/// UTF-8, and then returns the text those bytes encode.
#[verifier::external_body]
pub(crate) fn decode_utf8_bytes(bytes: &Vec<u8>) -> (r: Option<String>)
    ensures
        (r is Some) <==> vstd::utf8::valid_utf8(bytes@),
        r matches Some(text) ==> text@ == vstd::utf8::decode_utf8(bytes@),
{
    String::from_utf8(bytes.clone()).ok()
}

} // verus!
