//! HTTP header values: which texts the `http` crate accepts as one.

use vstd::prelude::*;

use axum::http::HeaderValue;

verus! {

/// A character whose UTF-8 bytes a header value may hold: visible ASCII,
/// space, tab, and anything beyond ASCII (all of whose bytes are 0x80 and
/// up), but no other control character and no DEL.
pub open spec fn header_char_ok(c: char) -> bool {
    c == '\t' || (' ' <= c && c != '\x7f')
}

/// Whether `s` is a valid header value.
pub open spec fn header_value_ok(s: Seq<char>) -> bool {
    forall|i: int| 0 <= i < s.len() ==> header_char_ok(#[trigger] s[i])
}

/// The text `http` gives for a rejected header value.
pub open spec fn invalid_header_text() -> Seq<char> {
    "failed to parse header value"@
}

/// `HeaderValue::from_str`, for its verdict alone: accepts `s` exactly when
/// every byte of it is a tab or at least 0x20 and not 0x7F; a refusal is
/// reported with the text of `InvalidHeaderValue`'s `Display`. The value it
/// builds holds the bytes of `s`; callers keep `s` itself and convert where
/// the header is set.
#[verifier::external_body]
pub fn check_header_value(s: &str) -> (r: Result<(), String>)
    ensures
        r is Ok <==> header_value_ok(s@),
        r matches Err(m) ==> m@ == invalid_header_text(),
{
    match HeaderValue::from_str(s) {
        Ok(_) => Ok(()),
        Err(e) => Err(e.to_string()),
    }
}

/// Valid header texts are closed under concatenation and taking parts.
pub proof fn lemma_header_value_concat(a: Seq<char>, b: Seq<char>)
    ensures
        header_value_ok(a + b) <==> header_value_ok(a) && header_value_ok(b),
{
    if header_value_ok(a + b) {
        assert forall|i: int| 0 <= i < a.len() implies header_char_ok(#[trigger] a[i]) by {
            assert((a + b)[i] == a[i]);
        }
        assert forall|i: int| 0 <= i < b.len() implies header_char_ok(#[trigger] b[i]) by {
            assert((a + b)[a.len() + i] == b[i]);
        }
    }
}


/// The characters of a text as bytes, for texts of ASCII characters.
pub open spec fn ascii_bytes(s: Seq<char>) -> Seq<u8> {
    s.map_values(|c: char| c as u8)
}

/// The bytes of `s`, one per character; exact for ASCII text.
pub fn ascii_bytes_of(s: &str) -> (v: Vec<u8>)
    ensures
        v@ == ascii_bytes(s@),
{
    let chars = crate::text::chars_of(s);
    let mut v: Vec<u8> = Vec::new();
    let mut i: usize = 0;
    while i < chars.len()
        invariant
            0 <= i <= chars.len(),
            chars@ == s@,
            v@ == ascii_bytes(chars@.take(i as int)),
        decreases chars.len() - i,
    {
        let c = chars[i];
        v.push(c as u8);
        proof {
            assert(ascii_bytes(chars@.take(i + 1)) =~= ascii_bytes(chars@.take(i as int)).push(
                chars@[i as int] as u8,
            ));
        }
        i += 1;
    }
    proof {
        assert(chars@.take(chars.len() as int) =~= chars@);
    }
    v
}

/// Response headers as (name, value) pairs; names are lowercase, as
/// `http` keeps them, and a name may carry several values.
pub struct Headers {
    pub entries: Vec<(String, Vec<u8>)>,
}

/// The view of a header list: name and value bytes of each entry, in order.
pub open spec fn header_entries(h: Seq<(String, Vec<u8>)>) -> Seq<(Seq<char>, Seq<u8>)> {
    h.map_values(|e: (String, Vec<u8>)| (e.0@, e.1@))
}

impl View for Headers {
    type V = Seq<(Seq<char>, Seq<u8>)>;

    open spec fn view(&self) -> Seq<(Seq<char>, Seq<u8>)> {
        header_entries(self.entries@)
    }
}

/// The values a header list holds under `name`, in order.
pub open spec fn values_of(h: Seq<(Seq<char>, Seq<u8>)>, name: Seq<char>) -> Seq<Seq<u8>>
    decreases h.len(),
{
    if h.len() == 0 {
        Seq::empty()
    } else {
        let rest = values_of(h.drop_last(), name);
        if h.last().0 == name {
            rest.push(h.last().1)
        } else {
            rest
        }
    }
}

/// An empty list holds no value under any name; appending an entry adds
/// its value last under its own name and leaves every other name as it was.
pub proof fn lemma_values_of_append(
    h: Seq<(Seq<char>, Seq<u8>)>,
    name: Seq<char>,
    value: Seq<u8>,
    other: Seq<char>,
)
    ensures
        values_of(Seq::empty(), name) == Seq::<Seq<u8>>::empty(),
        values_of(h.push((name, value)), name) == values_of(h, name).push(value),
        other != name ==> values_of(h.push((name, value)), other) == values_of(h, other),
{
    assert(h.push((name, value)).drop_last() =~= h);
}

/// The values of a concatenation are those of each part, in order.
pub proof fn lemma_values_of_concat(
    a: Seq<(Seq<char>, Seq<u8>)>,
    b: Seq<(Seq<char>, Seq<u8>)>,
    name: Seq<char>,
)
    ensures
        values_of(a + b, name) == values_of(a, name) + values_of(b, name),
    decreases b.len(),
{
    if b.len() == 0 {
        assert(a + b =~= a);
        assert(values_of(a, name) + values_of(b, name) =~= values_of(a, name));
    } else {
        assert((a + b).drop_last() =~= a + b.drop_last());
        lemma_values_of_concat(a, b.drop_last(), name);
        if b.last().0 == name {
            assert(values_of(a, name) + values_of(b, name) =~= (values_of(a, name) + values_of(
                b.drop_last(),
                name,
            )).push(b.last().1));
        }
    }
}

impl Headers {
    /// An empty header list.
    pub fn new() -> (h: Headers)
        ensures
            h@ == Seq::<(Seq<char>, Seq<u8>)>::empty(),
    {
        let h = Headers { entries: Vec::new() };
        proof {
            assert(h@ =~= Seq::<(Seq<char>, Seq<u8>)>::empty());
        }
        h
    }

    /// Adds a value under `name`, after the values already there.
    pub fn append(&mut self, name: String, value: Vec<u8>)
        ensures
            final(self)@ == old(self)@.push((name@, value@)),
    {
        self.entries.push((name, value));
        proof {
            assert(self@ =~= old(self)@.push((name@, value@)));
        }
    }

    /// Whether the list holds a value under `name`.
    pub fn contains_key(&self, name: &String) -> (b: bool)
        ensures
            b == (values_of(self@, name@).len() > 0),
    {
        let mut i: usize = 0;
        while i < self.entries.len()
            invariant
                0 <= i <= self.entries.len(),
                values_of(self@.take(i as int), name@).len() == 0,
            decreases self.entries.len() - i,
        {
            proof {
                assert(self@.take(i + 1).drop_last() =~= self@.take(i as int));
            }
            if self.entries[i].0 == *name {
                proof {
                    lemma_values_of_concat(self@.take(i + 1), self@.skip(i + 1), name@);
                    assert(self@.take(i + 1) + self@.skip(i + 1) =~= self@);
                }
                return true;
            }
            i += 1;
        }
        proof {
            assert(self@.take(i as int) =~= self@);
        }
        false
    }

    /// The entries whose name `keep` does not hold a value under.
    fn without_names_of(&self, keep: &Headers) -> (h: Headers)
        ensures
            forall|n: Seq<char>|
                #![trigger values_of(h@, n)]
                values_of(h@, n) == if values_of(keep@, n).len() > 0 {
                    Seq::<Seq<u8>>::empty()
                } else {
                    values_of(self@, n)
                },
    {
        let mut h = Headers::new();
        let mut i: usize = 0;
        while i < self.entries.len()
            invariant
                0 <= i <= self.entries.len(),
                forall|n: Seq<char>|
                    #![trigger values_of(h@, n)]
                    values_of(h@, n) == if values_of(keep@, n).len() > 0 {
                        Seq::<Seq<u8>>::empty()
                    } else {
                        values_of(self@.take(i as int), n)
                    },
            decreases self.entries.len() - i,
        {
            proof {
                assert(self@.take(i + 1).drop_last() =~= self@.take(i as int));
            }
            let name = &self.entries[i].0;
            let ghost before = h@;
            if !keep.contains_key(name) {
                let value = self.entries[i].1.clone();
                h.append(name.clone(), value);
                proof {
                    assert(value@ == self.entries@[i as int].1@);
                    assert(h@.drop_last() =~= before);
                    assert(self@[i as int] == (name@, value@));
                }
            }
            proof {
                assert forall|n: Seq<char>|
                    #![trigger values_of(h@, n)]
                    values_of(h@, n) == if values_of(keep@, n).len() > 0 {
                        Seq::<Seq<u8>>::empty()
                    } else {
                        values_of(self@.take(i + 1), n)
                    } by {
                    assert(values_of(before, n) == if values_of(keep@, n).len() > 0 {
                        Seq::<Seq<u8>>::empty()
                    } else {
                        values_of(self@.take(i as int), n)
                    });
                }
            }
            i += 1;
        }
        proof {
            assert(self@.take(i as int) =~= self@);
        }
        h
    }

    /// `other`'s headers laid over these (`HeaderMap::extend`): every name
    /// `other` holds gets exactly `other`'s values, every other name keeps
    /// its own.
    pub fn extend(&mut self, other: &Headers)
        ensures
            forall|n: Seq<char>|
                #![trigger values_of(final(self)@, n)]
                values_of(final(self)@, n) == if values_of(other@, n).len() > 0 {
                    values_of(other@, n)
                } else {
                    values_of(old(self)@, n)
                },
    {
        let mut kept = self.without_names_of(other);
        let ghost kept_view = kept@;
        let mut i: usize = 0;
        while i < other.entries.len()
            invariant
                0 <= i <= other.entries.len(),
                kept@ == kept_view + other@.take(i as int),
            decreases other.entries.len() - i,
        {
            kept.append(other.entries[i].0.clone(), other.entries[i].1.clone());
            proof {
                assert(kept_view + other@.take(i + 1) =~= (kept_view + other@.take(i as int)).push(
                    other@[i as int],
                ));
            }
            i += 1;
        }
        proof {
            assert(other@.take(i as int) =~= other@);
            assert forall|n: Seq<char>|
                #![trigger values_of(kept@, n)]
                values_of(kept@, n) == if values_of(other@, n).len() > 0 {
                    values_of(other@, n)
                } else {
                    values_of(self@, n)
                } by {
                lemma_values_of_concat(kept_view, other@, n);
            }
        }
        *self = kept;
    }

    /// Sets `name` to the single value `value` (`HeaderMap::insert`).
    pub fn insert(&mut self, name: String, value: Vec<u8>)
        ensures
            forall|n: Seq<char>|
                #![trigger values_of(final(self)@, n)]
                values_of(final(self)@, n) == if n == name@ {
                    seq![value@]
                } else {
                    values_of(old(self)@, n)
                },
    {
        let ghost name_view = name@;
        let ghost value_view = value@;
        let mut one = Headers::new();
        one.append(name, value);
        proof {
            assert(one@ =~= seq![(name_view, value_view)]);
            reveal_with_fuel(values_of, 2);
            assert(one@.drop_last() =~= Seq::<(Seq<char>, Seq<u8>)>::empty());
            assert forall|n: Seq<char>| #[trigger] values_of(one@, n).len() > 0 <==> n == name_view by {
                assert(one@.drop_last() =~= Seq::<(Seq<char>, Seq<u8>)>::empty());
            }
            assert(values_of(one@, name_view) =~= seq![value_view]);
        }
        self.extend(&one);
    }
}

} // verus!
