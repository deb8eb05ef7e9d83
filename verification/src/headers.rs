//! The response header mapping and its required entries.
//!
//! Response headers are an ordered mapping: emission order is insertion
//! order, keys are unique, and writing an existing key replaces its value in
//! place. Every response carries the CORS entries and the JSON content type.

use vstd::prelude::*;
use vstd::string::*;

use crate::text::str_eq;

verus! {

/// Index of the first pair whose key equals `k`, or -1 when no key does.
pub open spec fn key_index(hs: Seq<(Seq<char>, Seq<char>)>, k: Seq<char>) -> int
    decreases hs.len(),
{
    if hs.len() == 0 {
        -1
    } else if hs[0].0 == k {
        0
    } else {
        let r = key_index(hs.skip(1), k);
        if r < 0 {
            -1
        } else {
            r + 1
        }
    }
}

proof fn lemma_key_index(hs: Seq<(Seq<char>, Seq<char>)>, k: Seq<char>)
    ensures
        key_index(hs, k) >= -1,
        key_index(hs, k) >= 0 ==> key_index(hs, k) < hs.len() && hs[key_index(hs, k)].0 == k,
        forall|j: int| 0 <= j < key_index(hs, k) ==> hs[j].0 != k,
        key_index(hs, k) == -1 ==> forall|j: int| 0 <= j < hs.len() ==> hs[j].0 != k,
    decreases hs.len(),
{
    if hs.len() == 0 {
    } else if hs[0].0 == k {
    } else {
        lemma_key_index(hs.skip(1), k);
        assert(forall|j: int| 1 <= j < hs.len() ==> hs[j] == hs.skip(1)[j - 1]);
    }
}

proof fn lemma_key_index_is(hs: Seq<(Seq<char>, Seq<char>)>, k: Seq<char>, i: int)
    requires
        0 <= i < hs.len(),
        hs[i].0 == k,
        forall|j: int| 0 <= j < i ==> hs[j].0 != k,
    ensures
        key_index(hs, k) == i,
{
    lemma_key_index(hs, k);
    let f = key_index(hs, k);
    if f < 0 {
        assert(hs[i].0 != k);
    } else if f < i {
        assert(hs[f].0 != k);
    } else if f > i {
        assert(hs[i].0 != k);
    }
}

/// The mapping after writing `k` to `v`: the value replaced in place when
/// `k` is present, the pair appended when it is not.
pub open spec fn upsert(
    hs: Seq<(Seq<char>, Seq<char>)>,
    k: Seq<char>,
    v: Seq<char>,
) -> Seq<(Seq<char>, Seq<char>)> {
    let i = key_index(hs, k);
    if i < 0 {
        hs.push((k, v))
    } else {
        hs.update(i, (k, v))
    }
}

/// Ordered response header mapping: name/value pairs in insertion order with
/// unique names.
pub struct ResponseHeaders {
    pub entries: Vec<(String, String)>,
}

impl View for ResponseHeaders {
    type V = Seq<(Seq<char>, Seq<char>)>;

    open spec fn view(&self) -> Seq<(Seq<char>, Seq<char>)> {
        self.entries.deep_view()
    }
}

impl ResponseHeaders {
    /// All names are distinct.
    pub open spec fn wf(&self) -> bool {
        forall|i: int, j: int| 0 <= i < j < self@.len() ==> self@[i].0 != self@[j].0
    }

    /// An empty mapping.
    pub fn new() -> (h: ResponseHeaders)
        ensures
            h@ == Seq::<(Seq<char>, Seq<char>)>::empty(),
            h.wf(),
    {
        let h = ResponseHeaders { entries: Vec::new() };
        proof {
            assert(h@ =~= Seq::<(Seq<char>, Seq<char>)>::empty());
        }
        h
    }

    /// Writes `key` to `value`, the last write winning; insertion order of
    /// names is kept.
    #[verifier::loop_isolation(false)]
    pub fn insert(&mut self, key: &str, value: &str)
        ensures
            final(self)@ == upsert(old(self)@, key@, value@),
            old(self).wf() ==> final(self).wf(),
    {
        let mut j: usize = 0;
        while j < self.entries.len()
            invariant
                self == old(self),
                0 <= j <= self.entries.len(),
                forall|x: int| 0 <= x < j ==> old(self)@[x].0 != key@,
            decreases self.entries.len() - j,
        {
            proof {
                assert(self@[j as int] == (self.entries[j as int].0@, self.entries[j as int].1@));
            }
            if str_eq(self.entries[j].0.as_str(), key) {
                proof {
                    lemma_key_index_is(old(self)@, key@, j as int);
                }
                self.entries[j] = (key.to_owned(), value.to_owned());
                proof {
                    assert(self@ =~= old(self)@.update(j as int, (key@, value@)));
                    assert forall|a: int, b: int|
                        0 <= a < b < self@.len() && old(self).wf() implies self@[a].0
                        != self@[b].0 by {
                        assert(old(self)@[a].0 != old(self)@[b].0);
                        assert(self@[a].0 == if a == j { key@ } else { old(self)@[a].0 });
                        assert(self@[b].0 == if b == j { key@ } else { old(self)@[b].0 });
                        assert(old(self)@[j as int].0 == key@);
                    }
                }
                return ;
            }
            j += 1;
        }
        proof {
            lemma_key_index(old(self)@, key@);
            if key_index(old(self)@, key@) >= 0 {
                assert(old(self)@[key_index(old(self)@, key@)].0 != key@);
            }
        }
        self.entries.push((key.to_owned(), value.to_owned()));
        proof {
            assert(self@ =~= old(self)@.push((key@, value@)));
        }
    }
}

/// The cross-origin permission entries of every response.
pub struct CorsHeaders {}

impl CorsHeaders {
    /// Writes the three CORS entries: any origin, the `OPTIONS, GET, POST`
    /// methods, any headers.
    pub fn add_cors_to_headers(headers: &mut ResponseHeaders)
        ensures
            final(headers)@ == upsert(
                upsert(
                    upsert(old(headers)@, "Access-Control-Allow-Origin"@, "*"@),
                    "Access-Control-Allow-Methods"@,
                    "OPTIONS, GET, POST"@,
                ),
                "Access-Control-Allow-Headers"@,
                "*"@,
            ),
            old(headers).wf() ==> final(headers).wf(),
    {
        headers.insert("Access-Control-Allow-Origin", "*");
        headers.insert("Access-Control-Allow-Methods", "OPTIONS, GET, POST");
        headers.insert("Access-Control-Allow-Headers", "*");
    }
}

/// The content-type entry of every response.
pub struct ContentHeaders {}

impl ContentHeaders {
    /// Declares the body as JSON.
    pub fn add_content_type_to_headers(headers: &mut ResponseHeaders)
        ensures
            final(headers)@ == upsert(old(headers)@, "Content-Type"@, "application/json"@),
            old(headers).wf() ==> final(headers).wf(),
    {
        headers.insert("Content-Type", "application/json");
    }
}

} // verus!
